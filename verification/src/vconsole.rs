use vstd::prelude::*;
use vstd::utf8::{valid_utf8, decode_utf8};
use crate::skeleton::spec_nul_pos;

verus! {

/// Byte included with every console packet; probably a protocol version.
pub const VCONSOLE_BYTE: u8 = 0xD3;

/// A packet header is the four type bytes, a terminator, the version byte
/// and a four-byte big-endian length.
pub const PACKET_MIN_HEADER_SIZE: usize = 10;

/// The four big-endian type bytes read as one word: print output.
pub const PACKET_PRINT: u32 = 0x50524E54;

/// Application info (the game's executable path).
pub const PACKET_APP_INFO: u32 = 0x41494E46;

/// Addon info (the addon's name).
pub const PACKET_ADDON: u32 = 0x41444F4E;

/// Channel table.
pub const PACKET_CHANNEL: u32 = 0x4348414E;

/// Console variable announcement.
pub const PACKET_CONVAR: u32 = 0x43564152;

/// Config variable announcement.
pub const PACKET_CONFIG_VAR: u32 = 0x43464756;

/// Pipe connection test.
pub const PACKET_PPCR: u32 = 0x50504352;

/// Window focus report.
pub const PACKET_FOCUSED: u32 = 0x56464353;

/// A console command sent to the game.
pub const PACKET_COMMAND: u32 = 0x434D4E44;

/// What `String::from_utf8_lossy` turns a byte sequence into; a function of
/// the bytes alone.
pub uninterp spec fn utf8_lossy_of(bytes: Seq<u8>) -> Seq<char>;

/// Relies on `String::from_utf8_lossy`: the result depends on the bytes
/// alone; valid UTF-8 comes back decoded unchanged; and every invalid
/// sequence becomes replacement characters, so a NUL character can only
/// come from a NUL byte.
#[verifier::external_body]
fn utf8_lossy(bytes: Vec<u8>) -> (r: String)
    ensures
        r@ == utf8_lossy_of(bytes@),
        valid_utf8(bytes@) ==> r@ == decode_utf8(bytes@),
        (forall|i: int| 0 <= i < bytes@.len() ==> bytes@[i] != 0) ==> (forall|j: int|
            0 <= j < r@.len() ==> r@[j] != 0 as char),
{
    String::from_utf8_lossy(bytes.as_slice()).into_owned()
}

/// The big-endian bytes of a 32-bit word, most significant first.
pub open spec fn spec_be_bytes(v: u32) -> Seq<u8> {
    seq![
        (v / 0x1000000) as u8,
        ((v / 0x10000) % 0x100) as u8,
        ((v / 0x100) % 0x100) as u8,
        (v % 0x100) as u8,
    ]
}

/// A packet's four-character type tag, stored as the big-endian word its
/// bytes spell.
#[derive(Clone, Copy, PartialEq, Eq, Structural, Debug)]
pub struct PacketType(pub u32);

impl PacketType {
    /// Reassembles the type word from its four bytes as they appear on the
    /// wire.
    pub fn from_bytes(bytes: [u8; 4]) -> (r: PacketType)
        ensures
            r.0 == bytes@[0] * 0x1000000 + bytes@[1] * 0x10000 + bytes@[2] * 0x100 + bytes@[3],
    {
        let b0 = bytes[0];
        let b1 = bytes[1];
        let b2 = bytes[2];
        let b3 = bytes[3];
        PacketType(
            (b0 as u32) * 0x1000000 + (b1 as u32) * 0x10000 + (b2 as u32) * 0x100 + (b3 as u32),
        )
    }

    /// The four type bytes rendered as text, with invalid bytes replaced;
    /// a tag of plain ASCII prints as exactly its four characters.
    pub fn to_string(&self) -> (r: String)
        ensures
            r@ == utf8_lossy_of(spec_be_bytes(self.0)),
            (forall|i: int| 0 <= i < 4 ==> spec_be_bytes(self.0)[i] < 0x80) ==> r@
                == spec_be_bytes(self.0).map_values(|b: u8| b as char),
    {
        let v = self.0;
        let mut bytes: Vec<u8> = Vec::new();
        bytes.push((v / 0x1000000) as u8);
        bytes.push(((v / 0x10000) % 0x100) as u8);
        bytes.push(((v / 0x100) % 0x100) as u8);
        bytes.push((v % 0x100) as u8);
        proof {
            assert(bytes@ =~= spec_be_bytes(v));
        }
        let r = utf8_lossy(bytes);
        proof {
            broadcast use vstd::utf8::group_utf8_lib;
            let bs = spec_be_bytes(self.0);
            if forall|i: int| 0 <= i < 4 ==> bs[i] < 0x80 {
                let chars = bs.map_values(|b: u8| b as char);
                assert(vstd::utf8::is_ascii_chars(chars)) by {
                    assert forall|i: int| 0 <= i < chars.len() implies ((#[trigger] chars[i])
                        as u32) < 0x80 by {
                        assert(bs[i] < 0x80);
                    }
                }
                vstd::utf8::is_ascii_chars_encode_utf8(chars);
                assert(vstd::utf8::encode_utf8(chars) =~= bs);
                assert(decode_utf8(bs) == chars);
            }
        }
        r
    }
}

/// One console packet: the type tag, the fixed version byte, and the
/// payload after the ten header bytes.
pub struct Packet {
    pub packet_type: PacketType,
    pub _unknown: u8,
    pub data: Vec<u8>,
}

impl Packet {
    /// The printed text of a print packet: the payload after 30 bytes of
    /// channel information, without the trailing newline and terminator.
    pub fn get_print_data(&self) -> (r: String)
        requires
            self.data@.len() >= 32,
        ensures
            r@ == utf8_lossy_of(self.data@.subrange(30, self.data@.len() - 2)),
    {
        let end = self.data.len() - 2;
        let bytes = slice_bytes(&self.data, 30, end);
        utf8_lossy(bytes)
    }

    /// The executable path of an app-info packet: the payload after 87
    /// opaque bytes, without the terminator.
    pub fn get_app_info_executable(&self) -> (r: String)
        requires
            self.data@.len() >= 88,
        ensures
            r@ == utf8_lossy_of(self.data@.subrange(87, self.data@.len() - 1)),
    {
        let end = self.data.len() - 1;
        let bytes = slice_bytes(&self.data, 87, end);
        utf8_lossy(bytes)
    }

    /// The addon name of an addon packet: the payload after 6 opaque bytes,
    /// without the terminator.
    pub fn get_addon_name(&self) -> (r: String)
        requires
            self.data@.len() >= 7,
        ensures
            r@ == utf8_lossy_of(self.data@.subrange(6, self.data@.len() - 1)),
    {
        let end = self.data.len() - 1;
        let bytes = slice_bytes(&self.data, 6, end);
        utf8_lossy(bytes)
    }

    /// The channel names of a channel packet: one 58-byte record every 58
    /// bytes from offset 28 on, each name cut at its terminator or at 33
    /// bytes when none is found anywhere after it.
    pub fn get_channel_data(&self) -> (r: Vec<String>)
        ensures
            r@.len() == spec_channel_count(self.data@, 28),
            forall|j: int|
                0 <= j < r@.len() ==> (#[trigger] r@[j])@ == utf8_lossy_of(
                    spec_channel_bytes(self.data@, 28 + 58 * j),
                ),
    {
        let mut channels: Vec<String> = Vec::new();
        let mut i: u128 = 28;
        loop
            invariant_except_break
                28 <= i,
                (i - 28) % 58 == 0,
                channels@.len() == (i - 28) / 58,
                spec_channel_count(self.data@, 28) == channels@.len() + spec_channel_count(
                    self.data@,
                    i as int,
                ),
                forall|j: int|
                    0 <= j < channels@.len() ==> (#[trigger] channels@[j])@ == utf8_lossy_of(
                        spec_channel_bytes(self.data@, 28 + 58 * j),
                    ),
            ensures
                channels@.len() == spec_channel_count(self.data@, 28),
                forall|j: int|
                    0 <= j < channels@.len() ==> (#[trigger] channels@[j])@ == utf8_lossy_of(
                        spec_channel_bytes(self.data@, 28 + 58 * j),
                    ),
            decreases self.data@.len() + 58 - i,
        {
            if i >= self.data.len() as u128 || i + 33 >= (self.data.len() as u128) {
                proof {
                    assert(spec_channel_count(self.data@, i as int) == 0);
                }
                break ;
            }
            let iu: usize = i as usize;
            let q = find_nul_from(&self.data, iu);
            proof {
                crate::header::lemma_nul_pos_ge(self.data@, iu as int);
            }
            let idx: usize = if q < self.data.len() {
                q - iu
            } else {
                33
            };
            let upper: usize = if idx <= self.data.len() - iu {
                iu + idx
            } else {
                self.data.len()
            };
            let bytes = slice_bytes(&self.data, iu, upper);
            channels.push(utf8_lossy(bytes));
            proof {
                assert(spec_channel_count(self.data@, i as int) == 1 + spec_channel_count(
                    self.data@,
                    i + 58,
                ));
                assert(bytes@ == spec_channel_bytes(self.data@, i as int));
                assert(28 + 58 * ((i - 28) / 58) == i);
            }
            i = i + 58;
        }
        channels
    }

    /// The console-variable name of a convar packet: the text from offset 2
    /// to its terminator, which therefore never holds a NUL character. The
    /// packet must carry that terminator.
    pub fn get_convar_name(&self) -> (r: String)
        requires
            self.data@.len() >= 2,
            spec_nul_pos(self.data@, 2) < self.data@.len(),
        ensures
            r@ == utf8_lossy_of(self.data@.subrange(2, spec_nul_pos(self.data@, 2))),
            forall|j: int| 0 <= j < r@.len() ==> r@[j] != 0 as char,
    {
        let q = find_nul_from(&self.data, 2);
        proof {
            crate::header::lemma_nul_pos_ge(self.data@, 2);
            crate::skeleton::lemma_nul_pos_prefix_nonzero(self.data@, 2);
        }
        let bytes = slice_bytes(&self.data, 2, q);
        utf8_lossy(bytes)
    }

    /// The config-variable name of a config packet, cut like a convar name.
    pub fn get_config_var_name(&self) -> (r: String)
        requires
            self.data@.len() >= 2,
            spec_nul_pos(self.data@, 2) < self.data@.len(),
        ensures
            r@ == utf8_lossy_of(self.data@.subrange(2, spec_nul_pos(self.data@, 2))),
            forall|j: int| 0 <= j < r@.len() ==> r@[j] != 0 as char,
    {
        let q = find_nul_from(&self.data, 2);
        proof {
            crate::header::lemma_nul_pos_ge(self.data@, 2);
            crate::skeleton::lemma_nul_pos_prefix_nonzero(self.data@, 2);
        }
        let bytes = slice_bytes(&self.data, 2, q);
        utf8_lossy(bytes)
    }
}

/// How many 58-byte channel records start at or after `i`: one for every
/// step of 58 that still leaves 33 probe bytes past the record start.
pub open spec fn spec_channel_count(data: Seq<u8>, i: int) -> int
    decreases data.len() + 58 - i,
{
    if i < 0 || i >= data.len() || i + 33 >= data.len() {
        0
    } else {
        1 + spec_channel_count(data, i + 58)
    }
}

/// The name bytes of the channel record at `i`: up to its terminator, or 33
/// bytes when no terminator follows anywhere.
pub open spec fn spec_channel_bytes(data: Seq<u8>, i: int) -> Seq<u8> {
    let q = spec_nul_pos(data, i);
    if q < data.len() {
        data.subrange(i, q)
    } else {
        data.subrange(i, i + 33)
    }
}

/// The first terminator position at or after `start` (the buffer length
/// when there is none), found by a scan.
pub fn find_nul_from(data: &Vec<u8>, start: usize) -> (q: usize)
    requires
        start <= data@.len(),
    ensures
        q == spec_nul_pos(data@, start as int),
{
    let mut i: usize = start;
    while i < data.len()
        invariant
            start <= i <= data@.len(),
            spec_nul_pos(data@, start as int) == spec_nul_pos(data@, i as int),
        decreases data@.len() - i,
    {
        if data[i] == 0 {
            proof {
                assert(spec_nul_pos(data@, i as int) == i);
            }
            return i;
        }
        proof {
            assert(spec_nul_pos(data@, i as int) == spec_nul_pos(data@, i + 1));
        }
        i = i + 1;
    }
    proof {
        assert(spec_nul_pos(data@, i as int) == data@.len());
    }
    i
}

/// A fresh copy of `data[from..to]`.
pub fn slice_bytes(data: &Vec<u8>, from: usize, to: usize) -> (r: Vec<u8>)
    requires
        from <= to <= data@.len(),
    ensures
        r@ == data@.subrange(from as int, to as int),
{
    let s = vstd::slice::slice_subrange(data.as_slice(), from, to);
    vstd::slice::slice_to_vec(s)
}

/// What a decoded packet looks like against the buffer it came from.
pub open spec fn spec_packet_length(buf: Seq<u8>) -> int {
    buf[6] * 0x1000000 + buf[7] * 0x10000 + buf[8] * 0x100 + buf[9]
}

/// Frames one packet off the front of `buf`: the four type bytes, the
/// version byte at offset 5, a big-endian length at offset 6, then the
/// payload up to that length. Returns the packet and how many bytes it
/// spans; `None` while the buffer holds less than one whole well-formed
/// packet.
pub fn decode_packet(buf: &Vec<u8>) -> (r: Option<(Packet, usize)>)
    ensures
        match r {
            Some((p, consumed)) => {
                &&& buf@.len() >= PACKET_MIN_HEADER_SIZE
                &&& consumed == spec_packet_length(buf@)
                &&& PACKET_MIN_HEADER_SIZE <= consumed <= buf@.len()
                &&& p.packet_type.0 == buf@[0] * 0x1000000 + buf@[1] * 0x10000 + buf@[2] * 0x100
                    + buf@[3]
                &&& p._unknown == buf@[5]
                &&& p.data@ == buf@.subrange(PACKET_MIN_HEADER_SIZE as int, consumed as int)
            },
            None => buf@.len() < PACKET_MIN_HEADER_SIZE || spec_packet_length(buf@) > buf@.len()
                || spec_packet_length(buf@) < PACKET_MIN_HEADER_SIZE,
        },
{
    if buf.len() < PACKET_MIN_HEADER_SIZE {
        return None;
    }
    let packet_type = PacketType::from_bytes([buf[0], buf[1], buf[2], buf[3]]);
    let unknown = buf[5];
    let packet_length: u64 = (buf[6] as u64) * 0x1000000 + (buf[7] as u64) * 0x10000 + (buf[8]
        as u64) * 0x100 + (buf[9] as u64);
    if packet_length > buf.len() as u64 || packet_length < PACKET_MIN_HEADER_SIZE as u64 {
        return None;
    }
    let consumed = packet_length as usize;
    let data = slice_bytes(buf, PACKET_MIN_HEADER_SIZE, consumed);
    Some((Packet { packet_type, _unknown: unknown, data }, consumed))
}

/// The wire form of a command packet: type word, terminator, version byte,
/// big-endian total length, payload.
pub open spec fn spec_encode_packet(p: &Packet) -> Seq<u8> {
    spec_be_bytes(p.packet_type.0) + seq![0u8, VCONSOLE_BYTE] + spec_be_bytes(
        (PACKET_MIN_HEADER_SIZE + p.data@.len()) as u32,
    ) + p.data@
}

/// Encodes one packet for the wire. Only console commands are ever sent
/// this direction; anything else encodes to nothing.
pub fn encode_packet(p: &Packet) -> (r: Vec<u8>)
    requires
        p.data@.len() <= 0xFFFF,
    ensures
        p.packet_type.0 == PACKET_COMMAND ==> r@ == spec_encode_packet(p),
        p.packet_type.0 != PACKET_COMMAND ==> r@.len() == 0,
{
    let mut out: Vec<u8> = Vec::new();
    if p.packet_type.0 != PACKET_COMMAND {
        return out;
    }
    let v = p.packet_type.0;
    out.push((v / 0x1000000) as u8);
    out.push(((v / 0x10000) % 0x100) as u8);
    out.push(((v / 0x100) % 0x100) as u8);
    out.push((v % 0x100) as u8);
    out.push(0);
    out.push(VCONSOLE_BYTE);
    let total: u32 = (PACKET_MIN_HEADER_SIZE as u32) + (p.data.len() as u32);
    out.push((total / 0x1000000) as u8);
    out.push(((total / 0x10000) % 0x100) as u8);
    out.push(((total / 0x100) % 0x100) as u8);
    out.push((total % 0x100) as u8);
    let mut i: usize = 0;
    while i < p.data.len()
        invariant
            i <= p.data@.len(),
            out@.len() == 10 + i,
            out@ =~= spec_be_bytes(p.packet_type.0) + seq![0u8, VCONSOLE_BYTE] + spec_be_bytes(
                (PACKET_MIN_HEADER_SIZE + p.data@.len()) as u32,
            ) + p.data@.take(i as int),
        decreases p.data@.len() - i,
    {
        out.push(p.data[i]);
        proof {
            assert(p.data@.take(i + 1) =~= p.data@.take(i as int).push(p.data@[i as int]));
        }
        i = i + 1;
    }
    proof {
        assert(p.data@.take(p.data@.len() as int) =~= p.data@);
    }
    out
}

/// A console command wrapped for sending.
pub struct CommandPacket {
    command: String,
}

impl CommandPacket {
    pub fn new(command: String) -> (r: CommandPacket)
        ensures
            r.spec_command() == command@,
    {
        CommandPacket { command }
    }

    pub closed spec fn spec_command(&self) -> Seq<char> {
        self.command@
    }

    /// The command as a packet: two empty bytes, the command text's bytes,
    /// and a terminator.
    pub fn to_packet(&self) -> (p: Packet)
        ensures
            p.packet_type.0 == PACKET_COMMAND,
            p._unknown == VCONSOLE_BYTE,
            p.data@ == seq![0u8, 0u8] + vstd::utf8::encode_utf8(self.spec_command()) + seq![0u8],
    {
        let mut data: Vec<u8> = Vec::new();
        data.push(0);
        data.push(0);
        let bytes = self.command.as_str().as_bytes_vec();
        let mut i: usize = 0;
        while i < bytes.len()
            invariant
                i <= bytes@.len(),
                bytes@ == vstd::utf8::encode_utf8(self.spec_command()),
                data@ =~= seq![0u8, 0u8] + bytes@.take(i as int),
            decreases bytes@.len() - i,
        {
            data.push(bytes[i]);
            proof {
                assert(bytes@.take(i + 1) =~= bytes@.take(i as int).push(bytes@[i as int]));
            }
            i = i + 1;
        }
        proof {
            assert(bytes@.take(bytes@.len() as int) =~= bytes@);
        }
        data.push(0);
        Packet { packet_type: PacketType(PACKET_COMMAND), _unknown: VCONSOLE_BYTE, data }
    }
}

/// The packet framer: stateless, it cuts packets off a byte stream with
/// `decode_packet` and renders them with `encode_packet`.
pub struct PacketCodec;

impl PacketCodec {
    /// Frames one packet off the buffer; see `decode_packet`.
    pub fn decode(&self, buf: &Vec<u8>) -> (r: Option<(Packet, usize)>)
        ensures
            match r {
                Some((p, consumed)) => {
                    &&& buf@.len() >= PACKET_MIN_HEADER_SIZE
                    &&& consumed == spec_packet_length(buf@)
                    &&& PACKET_MIN_HEADER_SIZE <= consumed <= buf@.len()
                    &&& p.packet_type.0 == buf@[0] * 0x1000000 + buf@[1] * 0x10000 + buf@[2]
                        * 0x100 + buf@[3]
                    &&& p._unknown == buf@[5]
                    &&& p.data@ == buf@.subrange(PACKET_MIN_HEADER_SIZE as int, consumed as int)
                },
                None => buf@.len() < PACKET_MIN_HEADER_SIZE || spec_packet_length(buf@)
                    > buf@.len() || spec_packet_length(buf@) < PACKET_MIN_HEADER_SIZE,
            },
    {
        decode_packet(buf)
    }

    /// Renders one packet for the wire; see `encode_packet`.
    pub fn encode(&self, p: &Packet) -> (r: Vec<u8>)
        requires
            p.data@.len() <= 0xFFFF,
        ensures
            p.packet_type.0 == PACKET_COMMAND ==> r@ == spec_encode_packet(p),
            p.packet_type.0 != PACKET_COMMAND ==> r@.len() == 0,
    {
        encode_packet(p)
    }
}

} // verus!
