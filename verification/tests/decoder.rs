use bsi_tools::bits::{bytes_for_bits, fraction_denominator, unpack_bits};
use bsi_tools::channels::{check_group, decode_group_frame, read_descriptors, ChannelDescriptor,
    GroupKind};
use bsi_tools::cursor::{read_i16, read_i32, read_u16, read_u32, read_u8, ByteCursor};
use bsi_tools::emit::expansion_factor;
use bsi_tools::errors::DecodeError;
use bsi_tools::header::{mark_direct_rotation, validate_header, BaseData};
use bsi_tools::hierarchy::rotation_fix_plan;
use bsi_tools::posegrid::PoseGrid;
use bsi_tools::segment::{decode_segment, interpolation_steps};
use bsi_tools::skeleton::{get_mirrored_bones, lookup_mirrored, parse_skeleton, Skeleton};

fn push_i32(v: &mut Vec<u8>, x: i32) {
    for b in x.to_le_bytes() {
        v.push(b);
    }
}

fn push_i16(v: &mut Vec<u8>, x: i16) {
    for b in x.to_le_bytes() {
        v.push(b);
    }
}

fn push_f32(v: &mut Vec<u8>, x: f32) {
    for b in x.to_le_bytes() {
        v.push(b);
    }
}

fn pad_to(v: &mut Vec<u8>, n: usize) {
    while v.len() < n {
        v.push(0);
    }
}

fn pad4(v: &mut Vec<u8>) {
    while v.len() % 4 != 0 {
        v.push(0);
    }
}

#[test]
fn cursor_reads_little_endian() {
    let data = vec![0x01u8, 0x02, 0x03, 0x04, 0xFF, 0xFF];
    let mut c = ByteCursor::new(data);
    assert_eq!(read_u16(&mut c).unwrap(), 0x0201);
    c.seek_absolute(0);
    assert_eq!(read_u32(&mut c).unwrap(), 0x04030201);
    assert_eq!(read_i16(&mut c).unwrap(), -1);
    assert!(read_u8(&mut c).is_err());
    c.seek_absolute(1);
    assert_eq!(read_i32(&mut c).unwrap(), 0xFF040302u32 as i32);
}

#[test]
fn cursor_align_rounds_up() {
    let mut c = ByteCursor::new(vec![0u8; 32]);
    c.seek_absolute(9);
    c.align_to_region(8).unwrap();
    assert_eq!(c.tell(), 12);
    c.align_to_region(8).unwrap();
    assert_eq!(c.tell(), 12);
}

#[test]
fn bitstream_unpacks_lsb_first() {
    // 0b1101_0110, 0b0000_0101: reading 3, then 5, then 5 bits.
    let buf = vec![0b1101_0110u8, 0b0000_0101u8];
    assert_eq!(unpack_bits(&buf, 0, 3), 0b110);
    assert_eq!(unpack_bits(&buf, 3, 5), 0b11010);
    assert_eq!(unpack_bits(&buf, 8, 5), 0b00101);
    assert_eq!(unpack_bits(&buf, 0, 0), 0);
}

#[test]
fn bitstream_consumption_is_ceil_of_bits() {
    // Sixteen values of width 13 consume exactly ceil(16 * 13 / 8) bytes.
    assert_eq!(bytes_for_bits(16 * 13), 26);
    assert_eq!(bytes_for_bits(0), 0);
    assert_eq!(bytes_for_bits(1), 1);
    assert_eq!(bytes_for_bits(8), 1);
    assert_eq!(bytes_for_bits(9), 2);
    // And every unpacked value stays below 2^width.
    let buf = vec![0xFFu8; 26];
    for i in 0..16usize {
        let raw = unpack_bits(&buf, i * 13, 13);
        assert!(raw < 1 << 13);
    }
}

#[test]
fn sparse_denominator_is_asymmetric() {
    // The sparse group divides a nonzero residual by 2^w - 1; everything
    // else divides by 2^w.
    assert_eq!(fraction_denominator(5, 4, true), 15);
    assert_eq!(fraction_denominator(0, 4, true), 16);
    assert_eq!(fraction_denominator(5, 4, false), 16);
    assert_eq!(fraction_denominator(0, 0, false), 1);
}

#[test]
fn header_validation_reports_mismatch() {
    assert_eq!(validate_header(5, 5, 3), Ok(()));
    assert_eq!(
        validate_header(5, 6, 3),
        Err(DecodeError::HeaderMismatch { expected: 5, actual: 6 })
    );
    assert_eq!(
        validate_header(5, 5, 4),
        Err(DecodeError::UnsupportedAnimationType { actual: 4 })
    );
}

#[test]
fn expansion_factor_matches_frame_rates() {
    // 10 fps must triple, 30 fps must not expand.
    assert_eq!(expansion_factor(10.0f32.to_bits(), false), 3);
    assert_eq!(expansion_factor(30.0f32.to_bits(), false), 1);
    assert_eq!(expansion_factor(12.5f32.to_bits(), false), 2);
    assert_eq!(expansion_factor(60.0f32.to_bits(), false), 0);
    // The no-expansion flag forces 1 whatever the rate says.
    assert_eq!(expansion_factor(10.0f32.to_bits(), true), 1);
    assert_eq!(expansion_factor(0.0f32.to_bits(), true), 1);
    assert_eq!(expansion_factor(f32::NAN.to_bits(), true), 1);
    // Degenerate rates saturate or collapse like the float division would.
    assert_eq!(expansion_factor(0.0f32.to_bits(), false), i32::MAX);
    assert_eq!(expansion_factor((-0.0f32).to_bits(), false), i32::MIN);
    assert_eq!(expansion_factor(f32::NAN.to_bits(), false), 0);
    assert_eq!(expansion_factor(f32::INFINITY.to_bits(), false), 0);
    assert_eq!(expansion_factor((-10.0f32).to_bits(), false), -3);
}

#[test]
fn interpolation_midpoint_is_exact() {
    // Sparse samples at frames 0 and 10: frame 5 sits exactly half way.
    let steps = interpolation_steps(0, 10);
    assert_eq!(steps.len(), 9);
    assert_eq!(steps[0], (1, 1));
    assert_eq!(steps[4], (5, 5));
    assert_eq!(steps[8], (9, 9));
    let (frame, k) = steps[4];
    let prev = (0.0f64, 0.0f64, 0.0f64);
    let next = (10.0f64, 0.0f64, 0.0f64);
    let gap = 10.0f64;
    let slope = ((next.0 - prev.0) / gap, (next.1 - prev.1) / gap, (next.2 - prev.2) / gap);
    let value = (
        slope.0 * (k as f64) + prev.0,
        slope.1 * (k as f64) + prev.1,
        slope.2 * (k as f64) + prev.2,
    );
    assert_eq!(frame, 5);
    assert_eq!(value, (5.0, 0.0, 0.0));
    // Two samples one frame apart leave nothing to fill.
    assert_eq!(interpolation_steps(3, 4).len(), 0);
    assert_eq!(interpolation_steps(4, 4).len(), 0);
}

#[test]
fn direct_rotation_marks_root_and_mapped_bones() {
    let flags = mark_direct_rotation(4, &vec![2i16]);
    assert_eq!(flags, vec![true, false, true, false]);
}

fn two_bone_skeleton() -> Skeleton {
    Skeleton {
        bone_count: 3,
        parent_codes: vec![-1, 0, 1, 2],
        names: vec!["Root".to_string(), "Child".to_string(), "Leaf".to_string()],
        bind_rotation_bits: vec![[0; 4]; 3],
        bind_translation_bits: vec![[0; 3]; 3],
    }
}

#[test]
fn resolver_never_touches_directly_sampled_bones() {
    let sk = two_bone_skeleton();
    // Root and bone 2 carry direct samples; bone 1 does not.
    let has_direct = vec![true, false, true];
    assert!(rotation_fix_plan(&sk, &has_direct, 0).is_none());
    assert!(rotation_fix_plan(&sk, &has_direct, 2).is_none());
    let plan = rotation_fix_plan(&sk, &has_direct, 1).unwrap();
    // Bone 1's parent is the root, which has direct data: one current-frame
    // step.
    assert_eq!(plan.len(), 1);
    assert_eq!(plan[0].bone, 0);
    assert!(plan[0].at_current_frame);
}

#[test]
fn parent_resolution_uses_shifted_table() {
    let sk = two_bone_skeleton();
    // Entry i+1, minus one: codes [-1, 0, 1, 2].
    assert_eq!(sk.resolve_parent(0), None);
    assert_eq!(sk.resolve_parent(1), Some(0));
    assert_eq!(sk.resolve_parent(2), Some(1));
    assert_eq!(sk.resolve_parent(3), None);
}

#[test]
fn pose_grid_keeps_tri_state() {
    let mut g: PoseGrid<u64> = PoseGrid::new(3, 2);
    assert_eq!(g.frames(), 3);
    assert_eq!(g.bones(), 2);
    assert_eq!(g.value_at(1, 0), None);
    g.set_sampled(0, 0, 7);
    g.set_interpolated(1, 0, 9);
    assert_eq!(g.value_at(0, 0), Some(7));
    assert_eq!(g.value_at(1, 0), Some(9));
    assert_eq!(g.value_at(2, 0), None);
    // A written cell stands for itself; an unset one falls back to frame 0.
    assert_eq!(g.frame_or_base(1, 0), 1);
    assert_eq!(g.frame_or_base(2, 0), 0);
    assert_eq!(g.frame_or_base(2, 1), 0);
}

#[test]
fn mirror_table_swaps_sides() {
    let table = get_mirrored_bones();
    assert_eq!(lookup_mirrored(&table, "L_Grip"), Some("R_Grip"));
    assert_eq!(lookup_mirrored(&table, "GenericHumanPelvis"), Some("GenericHumanPelvis"));
    assert_eq!(lookup_mirrored(&table, "GenericHumanLThigh"), Some("GenericHumanRThigh"));
    assert_eq!(lookup_mirrored(&table, "Scene_Root"), Some("Scene_Root"));
    assert_eq!(lookup_mirrored(&table, "NoSuchBone"), None);
    // The two palm inverse-kinematics targets map to the foot targets: the
    // table's deliberate asymmetry.
    assert_eq!(
        lookup_mirrored(&table, "GenericHumanLPalm_IKTarget"),
        Some("GenericHumanRFoot_IKTarget")
    );
    assert_eq!(
        lookup_mirrored(&table, "GenericHumanRPalm_IKTarget"),
        Some("GenericHumanLFoot_IKTarget")
    );
}

#[test]
fn mirror_table_is_pure_closed_and_involutive() {
    // Two calls agree pair for pair.
    let a = get_mirrored_bones();
    let b = get_mirrored_bones();
    assert_eq!(a.len(), b.len());
    for i in 0..a.len() {
        assert_eq!(a[i], b[i]);
    }
    // Every value is itself a key, so chained lookups never fail; and apart
    // from the two palm targets, mirroring twice returns the key.
    for (key, value) in &a {
        let back = lookup_mirrored(&a, value);
        assert!(back.is_some(), "value {} is not a key", value);
        if *key != "GenericHumanLPalm_IKTarget" && *key != "GenericHumanRPalm_IKTarget" {
            assert_eq!(back, Some(*key), "mirroring twice moved {}", key);
        }
    }
}

fn synthetic_skeleton_file() -> Vec<u8> {
    let mut v: Vec<u8> = Vec::new();
    // Bone-table header, 28 bytes before the sentinel at offset 28.
    push_i32(&mut v, 68); // name-table pointer bias
    push_i32(&mut v, 64); // bind-pose pointer bias
    pad_to(&mut v, 20);
    push_i32(&mut v, 3); // bone count
    pad_to(&mut v, 28);
    push_i32(&mut v, -1); // sentinel, also parent code 0
    push_i32(&mut v, 0); // parent code 1: root has no parent
    push_i32(&mut v, 1); // parent code 2: bone 1's parent is bone 0
    // Name-table pointer block at 40.
    push_i32(&mut v, 20); // names begin right after this value
    // Names at 44.
    for b in b"Root\0Child\0\0" {
        v.push(*b);
    }
    pad_to(&mut v, 56);
    push_i32(&mut v, 24); // space-data pointer: 24 + 60 - 24 = 60
    push_i32(&mut v, 92); // translations at 92 + 36 = 128
    push_i32(&mut v, 44); // rotations at 44 + 36 = 80
    pad_to(&mut v, 80);
    for i in 0..3 {
        push_f32(&mut v, i as f32);
        push_f32(&mut v, 0.0);
        push_f32(&mut v, 0.0);
        push_f32(&mut v, 1.0);
    }
    for i in 0..3 {
        push_f32(&mut v, 1.0 + i as f32);
        push_f32(&mut v, 2.0);
        push_f32(&mut v, 3.0);
        push_i32(&mut v, 0);
    }
    v
}

#[test]
fn skeleton_parse_reads_bones_names_and_poses() {
    let sk = parse_skeleton(synthetic_skeleton_file(), false).unwrap();
    assert_eq!(sk.bone_count, 3);
    assert_eq!(sk.parent_codes, vec![-1, 0, 1]);
    assert_eq!(sk.names, vec!["Root".to_string(), "Child".to_string(), "".to_string()]);
    assert_eq!(sk.bind_rotation_bits[1][0], 1.0f32.to_bits());
    assert_eq!(sk.bind_rotation_bits[2][3], 1.0f32.to_bits());
    assert_eq!(sk.bind_translation_bits[0], [
        1.0f32.to_bits(),
        2.0f32.to_bits(),
        3.0f32.to_bits()
    ]);
    assert_eq!(sk.resolve_parent(1), Some(0));
}

#[test]
fn skeleton_parse_fails_without_sentinel() {
    let r = parse_skeleton(vec![0u8; 64], false);
    assert_eq!(r.err(), Some(DecodeError::ShortRead));
}

fn two_bone_base() -> BaseData {
    BaseData {
        bone_count: 2,
        base_pos_map: vec![],
        base_rot_map: vec![],
        pos_full_map: vec![0, 1],
        rot_full_map: vec![1],
        sparse_map: vec![],
        has_direct_rotation: vec![true, true],
        pos_global_lo_bits: [0; 3],
        pos_global_hi_bits: [0; 3],
        rot_global_lo_bits: [0; 3],
        rot_global_hi_bits: [0; 3],
        base_positions: vec![],
        base_rotations: vec![],
    }
}

fn synthetic_segment() -> Vec<u8> {
    let mut v: Vec<u8> = Vec::new();
    push_i32(&mut v, 0); // segment byte length, patched below
    pad_to(&mut v, 8);
    push_i16(&mut v, 0); // start frame
    push_i16(&mut v, 2); // frame count
    pad_to(&mut v, 16);
    push_i16(&mut v, 0); // sparse keyframe count
    pad_to(&mut v, 22);
    push_i16(&mut v, 2); // position bytes per frame (10 bits)
    push_i16(&mut v, 1); // rotation bytes per frame (3 bits)
    push_i16(&mut v, 0); // sparse bytes per frame
    pad_to(&mut v, 34);
    push_i16(&mut v, 1); // position bounds entries
    push_i16(&mut v, 1); // rotation bounds entries
    push_i16(&mut v, 0); // sparse bounds entries
    pad_to(&mut v, 44);
    for _ in 0..6 {
        push_f32(&mut v, 0.5); // global position bounds corners
    }
    pad_to(&mut v, 160); // 92 reserved bytes
    for _ in 0..6 {
        push_f32(&mut v, 2.0); // position bounds pair
    }
    // Two position descriptors: widths (2,3,0), coarse (10,20,30),
    // bounds indices 0.
    for _ in 0..2 {
        v.push(2);
        v.push(3);
        v.push(0);
        v.push(10);
        v.push(20);
        v.push(30);
        v.push(0);
        v.push(0);
        v.push(0);
    }
    pad4(&mut v);
    v.push(0b1101_0110); // frame 0: 10 packed bits
    v.push(0b0000_0101);
    v.push(0xFF); // frame 1: every bit set
    v.push(0x03);
    pad4(&mut v);
    for _ in 0..6 {
        push_f32(&mut v, 3.0); // rotation bounds pair
    }
    // One rotation descriptor: widths (1,1,1), coarse (255,0,128).
    v.push(1);
    v.push(1);
    v.push(1);
    v.push(255);
    v.push(0);
    v.push(128);
    v.push(0);
    v.push(0);
    v.push(0);
    pad4(&mut v);
    v.push(0b0000_0101); // frame 0 rotation bits: x=1, y=0, z=1
    v.push(0b0000_0000); // frame 1 rotation bits: none set
    pad4(&mut v);
    let total = v.len() as i32;
    let len_bytes = (total - 4).to_le_bytes();
    v[0] = len_bytes[0];
    v[1] = len_bytes[1];
    v[2] = len_bytes[2];
    v[3] = len_bytes[3];
    v
}

#[test]
fn segment_decode_unpacks_two_bone_groups() {
    let base = two_bone_base();
    let bytes = synthetic_segment();
    let end = bytes.len();
    let mut c = ByteCursor::new(bytes);
    let seg = decode_segment(&mut c, 0, &base).unwrap();
    assert_eq!(seg.start_frame, 0);
    assert_eq!(seg.frame_count, 2);
    assert_eq!(seg.end_offset, end);
    assert_eq!(c.tell(), end);
    assert_eq!(seg.pos_bounds_bits.len(), 1);
    assert_eq!(seg.rot_bounds_bits.len(), 1);
    assert_eq!(seg.sparse_bounds_bits.len(), 0);
    assert_eq!(seg.pos_frames.len(), 2);
    assert_eq!(seg.pos_frames[0].len(), 2);
    assert_eq!(seg.rot_frames[0].len(), 1);
    assert_eq!(seg.sparse_samples.len(), 0);

    // Frame 0, channel 0: bits 110 10110 -> x raw 0b10, y raw 0b101.
    let s00 = &seg.pos_frames[0][0];
    assert_eq!((s00.x.raw, s00.x.width, s00.x.denominator), (0b10, 2, 4));
    assert_eq!((s00.y.raw, s00.y.width, s00.y.denominator), (0b101, 3, 8));
    assert_eq!((s00.z.raw, s00.z.width, s00.z.denominator), (0, 0, 1));
    assert_eq!((s00.x.coarse, s00.y.coarse, s00.z.coarse), (10, 20, 30));
    // Frame 1 has every bit set: maxed raws, full-power denominators.
    let s10 = &seg.pos_frames[1][0];
    assert_eq!((s10.x.raw, s10.y.raw), (3, 7));
    assert_eq!((s10.x.denominator, s10.y.denominator), (4, 8));
    // Rotation frame 0: single bits x=1, y=0, z=1 and the coarse bytes.
    let r0 = &seg.rot_frames[0][0];
    assert_eq!((r0.x.raw, r0.y.raw, r0.z.raw), (1, 0, 1));
    assert_eq!((r0.x.coarse, r0.y.coarse, r0.z.coarse), (255, 0, 128));
    let r1 = &seg.rot_frames[1][0];
    assert_eq!((r1.x.raw, r1.y.raw, r1.z.raw), (0, 0, 0));
}

#[test]
fn group_check_reports_truncation_and_wide_widths() {
    let wide = ChannelDescriptor {
        width_x: 64,
        width_y: 0,
        width_z: 0,
        coarse_x: 0,
        coarse_y: 0,
        coarse_z: 0,
        bounds_x: 0,
        bounds_y: 0,
        bounds_z: 0,
    };
    assert_eq!(
        check_group(&vec![wide], 100),
        Err(DecodeError::UnsupportedBitWidth { width: 64 })
    );
    let narrow = ChannelDescriptor { width_x: 8, ..wide };
    assert_eq!(check_group(&vec![narrow], 1), Ok(()));
    assert_eq!(
        check_group(&vec![narrow, narrow], 1),
        Err(DecodeError::TruncatedChannelData { needed_bytes: 2, declared_bytes: 1 })
    );
}

#[test]
fn full_position_group_reuses_x_bounds_for_y() {
    let d = ChannelDescriptor {
        width_x: 1,
        width_y: 1,
        width_z: 1,
        coarse_x: 0,
        coarse_y: 0,
        coarse_z: 0,
        bounds_x: 4,
        bounds_y: 5,
        bounds_z: 6,
    };
    let buf = vec![0u8];
    let full = decode_group_frame(&vec![d], &buf, GroupKind::PositionFull);
    assert_eq!(full[0].y.bounds_index, 4);
    let rot = decode_group_frame(&vec![d], &buf, GroupKind::RotationFull);
    assert_eq!(rot[0].y.bounds_index, 5);
    let sparse = decode_group_frame(&vec![d], &buf, GroupKind::PositionSparse);
    assert_eq!(sparse[0].y.bounds_index, 5);
}

#[test]
fn descriptor_reader_consumes_nine_bytes_each() {
    let mut bytes: Vec<u8> = Vec::new();
    for i in 0..18u8 {
        bytes.push(i);
    }
    let mut c = ByteCursor::new(bytes);
    let descs = read_descriptors(&mut c, 2).unwrap();
    assert_eq!(c.tell(), 18);
    assert_eq!(descs[0].width_x, 0);
    assert_eq!(descs[0].bounds_z, 8);
    assert_eq!(descs[1].width_x, 9);
    assert_eq!(descs[1].coarse_y, 13);
}

fn synthetic_sequence_header(region_a: i32, region_b: i32, animation_type: i32) -> Vec<u8> {
    let mut v: Vec<u8> = Vec::new();
    // Preamble: a short token, then a run of 25 zeros ended by a marker.
    v.push(7);
    v.push(0);
    for _ in 0..25 {
        v.push(0);
    }
    v.push(9); // ends the zero run
    pad_to(&mut v, 28 + 7); // seven skipped bytes
    push_i32(&mut v, region_a);
    push_i32(&mut v, region_b);
    pad_to(&mut v, 47); // four skipped bytes; the data region starts here
    push_i32(&mut v, animation_type);
    pad_to(&mut v, 71); // twenty skipped bytes
    push_f32(&mut v, 1.5); // duration seconds
    push_f32(&mut v, 10.0); // frames per second
    pad_to(&mut v, 91); // twelve skipped bytes
    push_i32(&mut v, 48); // region pointer bias: no extra skip
    pad_to(&mut v, 160);
    v
}

#[test]
fn sequence_header_parses_and_validates() {
    let mut c = ByteCursor::new(synthetic_sequence_header(64, 64, 3));
    let h = bsi_tools::header::parse_sequence_header(&mut c).unwrap();
    assert_eq!(h.region_length, 64);
    assert_eq!(h.animation_type, 3);
    assert_eq!(h.data_region_start, 47);
    assert_eq!(h.region_end, 47 + 64);
    assert_eq!(f32::from_bits(h.duration_bits), 1.5);
    assert_eq!(f32::from_bits(h.fps_bits), 10.0);
    assert_eq!(expansion_factor(h.fps_bits, false), 3);
}

#[test]
fn sequence_header_rejects_mismatched_regions() {
    // Mismatched redundant region lengths must fail before anything else
    // is read, and nothing is ever emitted for such a file.
    let mut c = ByteCursor::new(synthetic_sequence_header(64, 68, 3));
    assert_eq!(
        parse_seq_err(&mut c),
        DecodeError::HeaderMismatch { expected: 64, actual: 68 }
    );
    let mut c = ByteCursor::new(synthetic_sequence_header(64, 64, 7));
    assert_eq!(parse_seq_err(&mut c), DecodeError::UnsupportedAnimationType { actual: 7 });
}

fn parse_seq_err(c: &mut ByteCursor) -> DecodeError {
    bsi_tools::header::parse_sequence_header(c).err().unwrap()
}

#[test]
fn nodes_section_lists_each_bone_once() {
    // The synthetic two-bone case: a root and one child whose parent code
    // resolves to the root.
    let sk = Skeleton {
        bone_count: 2,
        parent_codes: vec![-1, 0],
        names: vec!["Root".to_string(), "Child".to_string()],
        bind_rotation_bits: vec![[0; 4]; 2],
        bind_translation_bits: vec![[0; 3]; 2],
    };
    let text = bsi_tools::emit::nodes_section(&sk);
    assert_eq!(text, "version 1\nnodes\n0 \"Root\" -1\n1 \"Child\" 0\nend\nskeleton\n");
    assert_eq!(text.lines().filter(|l| l.contains('"')).count(), 2);
}

#[test]
fn time_lines_carry_frame_numbers() {
    assert_eq!(bsi_tools::emit::time_line(0), "time 0\n");
    assert_eq!(bsi_tools::emit::time_line(42), "time 42\n");
}

#[test]
fn skeleton_parse_rejects_invalid_name_bytes() {
    let mut bytes = synthetic_skeleton_file();
    bytes[44] = 0xFF; // the first name no longer decodes
    assert_eq!(parse_skeleton(bytes, false).err(), Some(DecodeError::InvalidUtf8));
}

#[test]
fn skeleton_parse_requires_known_names_when_mirroring() {
    // These synthetic names are not in the fixed mirroring table, and an
    // unknown name is a hard error there.
    let bytes = synthetic_skeleton_file();
    assert_eq!(parse_skeleton(bytes, true).err(), Some(DecodeError::UnknownBoneName));
}

#[test]
fn segment_rejects_oversized_frame_counts() {
    let base = two_bone_base();
    let mut bytes = synthetic_segment();
    bytes[10] = 61; // more frames than a pose table holds
    bytes[11] = 0;
    let mut c = ByteCursor::new(bytes);
    match decode_segment(&mut c, 0, &base) {
        Err(DecodeError::IndexOutOfRange { index, limit }) => {
            assert_eq!(index, 61);
            assert_eq!(limit, 60);
        }
        other => panic!("expected an index error, got ok: {}", other.is_ok()),
    }
}

#[test]
fn base_region_rejects_indexed_rotations() {
    // A base-pose region whose indexed-rotation channel count is nonzero:
    // a recognized but undecodable branch.
    let mut v = vec![0u8; 96];
    v[18] = 1; // one bone
    v[86] = 2; // two indexed-rotation channels
    let mut c = ByteCursor::new(v);
    assert_eq!(
        bsi_tools::header::parse_base_data(&mut c, 0).err(),
        Some(DecodeError::UnsupportedIndexedRotation { channel_count: 2 })
    );
}

#[test]
fn segment_table_pointer_chain_is_followed() {
    // Region end 4; pointer at 8 holds 4, so the count sits at
    // 8 + 4 + 4 + 40 = 56.
    let mut v = vec![0u8; 64];
    v[8] = 4;
    v[56] = 7;
    let mut c = ByteCursor::new(v);
    let count = bsi_tools::segment::open_segment_table(&mut c, 4).unwrap();
    assert_eq!(count, 7);
    assert_eq!(c.tell(), 60);
}
