use bsi_tools::vconsole::{decode_packet, encode_packet, CommandPacket, Packet, PacketCodec,
    PacketType, PACKET_COMMAND, PACKET_PRINT, VCONSOLE_BYTE};
use bsi_tools::vtunnel::{encode_vtunnel_message, parse_vtunnel_message, VTunnelHandshake,
    VTunnelMessage, VTunnelMessagePacket};

fn float_equal(a: f64, b: f64) -> bool {
    (a - b).abs() < 1e-6
}

#[test]
fn test_parse_vtunnel_message_everything() {
    let test_payload =
        "$vt!69!test!s(5):hello!f:3.141592!i:8192!v3:3.14,5.92,0.314!s(0):!f:-3.14!i:-69!b:1!b:0!"
            .to_string();
    let output = parse_vtunnel_message(&test_payload);

    assert!(output.is_some());
    let output = output.unwrap();
    assert_eq!(output.id, 69);
    assert_eq!(output.name, "test");
    assert_eq!(output.data.len(), 9);

    assert_eq!(output.data[0].get_string().unwrap(), "hello");
    let pi_text = output.data[1].get_float().unwrap();
    assert!(float_equal(pi_text.parse::<f64>().unwrap(), std::f64::consts::PI));
    assert_eq!(output.data[2].get_int().unwrap(), 8192);
    let (x, y, z) = output.data[3].get_vector3().unwrap();
    assert!(float_equal(x.parse::<f64>().unwrap(), 3.14));
    assert!(float_equal(y.parse::<f64>().unwrap(), 5.92));
    assert!(float_equal(z.parse::<f64>().unwrap(), 0.314));
    assert_eq!(output.data[4].get_string().unwrap(), "");
    let neg_text = output.data[5].get_float().unwrap();
    assert!(float_equal(neg_text.parse::<f64>().unwrap(), -3.14));
    assert_eq!(output.data[6].get_int().unwrap(), -69);
    assert_eq!(output.data[7].get_bool().unwrap(), true);
    assert_eq!(output.data[8].get_bool().unwrap(), false);
}

#[test]
fn test_parse_vtunnel_message_empty() {
    let test_payload = "$vt!0!test!".to_string();
    let output = parse_vtunnel_message(&test_payload);

    assert!(output.is_some());
    let output = output.unwrap();
    assert_eq!(output.id, 0);
    assert_eq!(output.name, "test");
    assert_eq!(output.data.len(), 0);
}

#[test]
fn test_decode_encode_vtunnel_message() {
    let input =
        "$vt!69!test!s(5):hello!f:3.141592!i:8192!v3:3.14,5.92,0.314!s(0):!f:-3.14!i:-69!b:1!b:0!"
            .to_string();
    let decoded = parse_vtunnel_message(&input);
    assert!(decoded.is_some());
    let encoded = encode_vtunnel_message(&decoded.unwrap());
    assert_eq!(input, encoded);
}

#[test]
fn parse_rejects_wrong_marker() {
    assert!(parse_vtunnel_message(&"vt!0!test!".to_string()).is_none());
    assert!(parse_vtunnel_message(&"".to_string()).is_none());
}

#[test]
fn parse_falls_back_on_missing_delimiters() {
    // No delimiter after the id: the id parses as 0 and the scan continues
    // one past the would-be delimiter.
    let m = parse_vtunnel_message(&"$vt!77?test".to_string()).unwrap();
    assert_eq!(m.id, 0);
}

#[test]
fn encode_builds_wire_text() {
    let mut m = VTunnelMessage::new("greet".to_string());
    m.set_id(7);
    m.add_string("hey".to_string());
    m.add_int(-4);
    m.add_bool(true);
    m.add_float("2.5".to_string());
    m.add_vector3("1".to_string(), "2".to_string(), "3".to_string());
    let text = encode_vtunnel_message(&m);
    assert_eq!(text, "$vt!7!greet!s(3):hey!i:-4!b:1!f:2.5!v3:1,2,3!");
}

#[test]
fn handshake_serializes_its_session() {
    let h = VTunnelHandshake::new(42);
    assert_eq!(h.session_id, 42);
    let m = h.serialize();
    assert_eq!(m.id, 42);
    assert_eq!(m.name, "vtunnel_handshake");
    assert_eq!(m.data.len(), 0);
}

#[test]
fn packet_type_text_is_its_four_bytes() {
    let t = PacketType(PACKET_PRINT);
    assert_eq!(t.to_string(), "PRNT");
    let from = PacketType::from_bytes([b'P', b'R', b'N', b'T']);
    assert_eq!(from.0, PACKET_PRINT);
    // Invalid bytes come back replaced, not dropped.
    let bad = PacketType(0x50FF4E54);
    assert_eq!(bad.to_string(), "P\u{FFFD}NT");
}

#[test]
fn print_packet_strips_framing() {
    let mut data = vec![0u8; 30];
    data.extend_from_slice(b"hello world");
    data.push(b'\n');
    data.push(0);
    let p = Packet { packet_type: PacketType(PACKET_PRINT), _unknown: VCONSOLE_BYTE, data };
    assert_eq!(p.get_print_data(), "hello world");
}

#[test]
fn info_packets_cut_at_their_offsets() {
    let mut data = vec![0u8; 87];
    data.extend_from_slice(b"game.exe");
    data.push(0);
    let p = Packet { packet_type: PacketType(0), _unknown: 0, data };
    assert_eq!(p.get_app_info_executable(), "game.exe");

    let mut data = vec![0u8; 6];
    data.extend_from_slice(b"my_addon");
    data.push(0);
    let p = Packet { packet_type: PacketType(0), _unknown: 0, data };
    assert_eq!(p.get_addon_name(), "my_addon");

    let mut data = vec![0u8, 0u8];
    data.extend_from_slice(b"sv_cheats");
    data.push(0);
    data.extend_from_slice(b"junk");
    let p = Packet { packet_type: PacketType(0), _unknown: 0, data };
    assert_eq!(p.get_convar_name(), "sv_cheats");
    assert_eq!(p.get_config_var_name(), "sv_cheats");
}

#[test]
fn channel_packet_reads_fixed_records() {
    let mut data = vec![0u8; 28];
    data.extend_from_slice(b"VScript\0");
    while data.len() < 28 + 58 {
        data.push(1);
    }
    data.extend_from_slice(b"RenderSystem\0");
    while data.len() < 28 + 58 + 58 {
        data.push(1);
    }
    let p = Packet { packet_type: PacketType(0), _unknown: 0, data };
    let channels = p.get_channel_data();
    assert_eq!(channels, vec!["VScript".to_string(), "RenderSystem".to_string()]);
}

#[test]
fn addon_name_replaces_invalid_text() {
    let mut data = vec![0u8; 6];
    data.push(0xFF);
    data.push(b'a');
    data.push(0);
    let p = Packet { packet_type: PacketType(0), _unknown: 0, data };
    assert_eq!(p.get_addon_name(), "\u{FFFD}a");
}

#[test]
fn packet_frames_round_trip() {
    let cp = CommandPacket::new("status".to_string());
    let packet = cp.to_packet();
    assert_eq!(packet.packet_type.0, PACKET_COMMAND);
    assert_eq!(packet._unknown, VCONSOLE_BYTE);
    assert_eq!(packet.data[..2], [0, 0]);
    assert_eq!(&packet.data[2..8], b"status");
    assert_eq!(packet.data[8], 0);

    let wire = encode_packet(&packet);
    assert_eq!(wire.len(), 10 + packet.data.len());
    assert_eq!(&wire[0..4], b"CMND");
    assert_eq!(wire[4], 0);
    assert_eq!(wire[5], VCONSOLE_BYTE);

    let codec = PacketCodec;
    let (decoded, consumed) = codec.decode(&wire).unwrap();
    assert_eq!(consumed, wire.len());
    assert_eq!(decoded.packet_type.0, PACKET_COMMAND);
    assert_eq!(decoded.data, packet.data);
}

#[test]
fn decode_waits_for_whole_packet() {
    let cp = CommandPacket::new("say hi".to_string());
    let wire = encode_packet(&cp.to_packet());
    let partial = wire[..wire.len() - 1].to_vec();
    assert!(decode_packet(&partial).is_none());
    assert!(decode_packet(&vec![1u8, 2, 3]).is_none());
}

#[test]
fn non_commands_encode_to_nothing() {
    let p = Packet { packet_type: PacketType(PACKET_PRINT), _unknown: 0, data: vec![1, 2, 3] };
    assert_eq!(encode_packet(&p), Vec::<u8>::new());
}

#[test]
fn tunnel_packet_wraps_encoded_message() {
    let mut m = VTunnelMessage::new("ping".to_string());
    m.set_id(1);
    let p = VTunnelMessagePacket::new(m).to_packet();
    assert_eq!(p.packet_type.0, PACKET_COMMAND);
    let text = String::from_utf8(p.data[2..p.data.len() - 1].to_vec()).unwrap();
    assert_eq!(text, "vtunnel_receive \"$vt!1!ping!\"");
}
