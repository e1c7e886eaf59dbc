use bsi_tools::clips::{capitalize_first, codegen_typescript_clips, codegen_vsnd_clips,
    create_tag_to_folder_map, default_bool_true, render_typescript_clips, render_vsnd_clips, Clip};
use bsi_tools::errors::DecodeError;
use bsi_tools::nav::{parse_nav, NavEditorMode, NavType, TraceMask, MAGIC_PREFIX, NAV_DIRECTIONS,
    STEAM_VR_HOME_NAV_SUB_VERSION, STEAM_VR_HOME_NAV_VERSION};
use bsi_tools::text::{parse_dec_i64, parse_dec_u64};

fn push_u32(v: &mut Vec<u8>, x: u32) {
    for b in x.to_le_bytes() {
        v.push(b);
    }
}

fn push_f32(v: &mut Vec<u8>, x: f32) {
    for b in x.to_le_bytes() {
        v.push(b);
    }
}

fn synthetic_nav_file() -> Vec<u8> {
    let mut v: Vec<u8> = Vec::new();
    push_u32(&mut v, MAGIC_PREFIX);
    push_u32(&mut v, STEAM_VR_HOME_NAV_VERSION);
    push_u32(&mut v, STEAM_VR_HOME_NAV_SUB_VERSION);
    v.push(1); // analyzed
    v.push(0); // place count
    v.push(0);
    v.push(1); // has unnamed areas
    push_u32(&mut v, 1); // area count
    push_u32(&mut v, 5); // area id
    push_u32(&mut v, 0); // attributes
    for _ in 0..5 {
        v.push(0);
    }
    push_u32(&mut v, 2); // polygon vertex count
    for i in 0..2 {
        push_f32(&mut v, i as f32);
        push_f32(&mut v, 1.5);
        push_f32(&mut v, -2.0);
    }
    push_u32(&mut v, 0);
    for d in 0..NAV_DIRECTIONS as u32 {
        push_u32(&mut v, if d == 0 { 1 } else { 0 });
        if d == 0 {
            push_u32(&mut v, 5); // connects back to itself
            push_u32(&mut v, 2); // over edge 2
        }
    }
    for _ in 0..13 {
        v.push(0);
    }
    v
}

#[test]
fn nav_parse_reads_header_and_areas() {
    let f = parse_nav(synthetic_nav_file()).unwrap();
    assert_eq!(f.magic, MAGIC_PREFIX);
    assert_eq!(f.version, STEAM_VR_HOME_NAV_VERSION);
    assert_eq!(f.sub_version, STEAM_VR_HOME_NAV_SUB_VERSION);
    assert!(f.is_analyzed);
    assert_eq!(f.place_count, 0);
    assert!(f.has_unnamed_areas);
    assert_eq!(f.nav_areas.len(), 1);
    let area = &f.nav_areas[0];
    assert_eq!(area.id, 5);
    assert_eq!(area.attributes, 0);
    assert_eq!(area.polygon_bits.len(), 2);
    assert_eq!(area.polygon_bits[1], [1.0f32.to_bits(), 1.5f32.to_bits(), (-2.0f32).to_bits()]);
    assert_eq!(area.connections.len(), NAV_DIRECTIONS);
    assert_eq!(area.connections[0].len(), 1);
    assert_eq!(area.connections[0][0].area_id, 5);
    assert_eq!(area.connections[0][0].edge_index, 2);
}

#[test]
fn nav_parse_rejects_wrong_magic() {
    let mut bytes = synthetic_nav_file();
    bytes[0] = 0;
    match parse_nav(bytes) {
        Err(DecodeError::HeaderMismatch { .. }) => {},
        other => panic!("expected a header mismatch, got {:?}", other.is_ok()),
    }
}

#[test]
fn nav_compression_renumbers_connections() {
    let mut f = parse_nav(synthetic_nav_file()).unwrap();
    f.compress_area_ids();
    assert_eq!(f.nav_areas[0].id, 0);
    assert_eq!(f.nav_areas[0].connections[0][0].area_id, 0);
    assert_eq!(f.nav_areas[0].connections[0][0].edge_index, 2);
}

#[test]
fn nav_compression_keeps_unknown_targets_and_content() {
    let mut f = parse_nav(synthetic_nav_file()).unwrap();
    // Point the connection at an id no area holds.
    f.nav_areas[0].connections[0][0].area_id = 99;
    let polygon = f.nav_areas[0].polygon_bits.clone();
    f.compress_area_ids();
    assert_eq!(f.nav_areas[0].id, 0);
    assert_eq!(f.nav_areas[0].connections[0][0].area_id, 99);
    assert_eq!(f.nav_areas[0].polygon_bits, polygon);
    assert_eq!(f.nav_areas[0].attributes, 0);
}

#[test]
fn nav_enums_round_trip() {
    assert_eq!(NavType::Walkable.to_int(), 0);
    assert_eq!(NavType::Obstacle.to_int(), 1);
    assert!(matches!(NavType::from_int(0), NavType::Walkable));
    assert!(matches!(NavType::from_int(1), NavType::Obstacle));
    assert!(matches!(NavType::from_int(9), NavType::Obstacle));
    assert_eq!(NavEditorMode::Add.to_int(), 0);
    assert_eq!(NavEditorMode::Remove.to_int(), 1);
    assert_eq!(NavEditorMode::Toggle.to_int(), 2);
    assert!(matches!(NavEditorMode::Add.next(), NavEditorMode::Remove));
    assert!(matches!(NavEditorMode::Toggle.next(), NavEditorMode::Add));
    assert_eq!(TraceMask::TraceMaskPlayerSolid.to_int(), 33636363);
}

fn clip(folder: &str, name: &str, tag: &str, animate: bool) -> Clip {
    Clip {
        asset_name: name.to_string(),
        asset_folder: folder.to_string(),
        speech_tag: tag.to_string(),
        speech_type: "statement".to_string(),
        sentiment: "".to_string(),
        intensity: "normal".to_string(),
        animate,
    }
}

#[test]
fn clip_defaults_and_tag_map() {
    assert_eq!(default_bool_true(), Some(true));
    let map = create_tag_to_folder_map();
    assert_eq!(map.len(), 11);
    assert!(map.contains(&("greeting", "greetings")));
    assert!(map.contains(&("oh", "hmms")));
}

#[test]
fn capitalize_first_uppercases_ascii() {
    assert_eq!(capitalize_first("greeting"), "Greeting");
    assert_eq!(capitalize_first("Greeting"), "Greeting");
    assert_eq!(capitalize_first(""), "");
    assert_eq!(capitalize_first("x"), "X");
}

#[test]
fn vsnd_rendering_is_exact() {
    let clips = vec![clip("hmms", "hmm_01", "hmm", false)];
    let out = render_vsnd_clips(&clips);
    let expected = "\t//////////////////////////////////////////////////////////\n\
\t// Elizabeth - CODE GENERATED CLIPS DATA. DO NOT EDIT.\n\
\t//////////////////////////////////////////////////////////\n\n\
\tliz_clip_hmms_hmm_01 =\n\
\t{\n\
\t\ttype = \"destinations.simple_vr\"\n\
\t\tvolume = 1\n\
\t\tpitch = 1\n\
\t\tdelay = 0\n\
\t\tuse_hrtf = 1\n\
\t\tvolume_falloff_min = 100\n\
\t\tvolume_falloff_max = 1000\n\
\t\tvsnd_files = \"sounds/elizabeth/hmms/hmm_01.vsnd\"\n\
\t}\n";
    assert_eq!(out, expected);
}

#[test]
fn typescript_rendering_is_exact() {
    let clips = vec![clip("toss", "toss_01", "toss", true)];
    let keyframes = vec!["0.5, 1".to_string()];
    let out = render_typescript_clips(&clips, &keyframes);
    let expected = "// CODE GENERATED CLIPS DATA. DO NOT EDIT.\n\n\
import { registerSpeechClip as r, LizSpeechTag as T, LizSpeechType as Y, \
LizSpeechSentiment as S, LizSpeechIntensity as I } from '../lizSpeech';\n\n\
r('liz_clip_toss_toss_01', 'sounds/elizabeth/toss/toss_01.vsnd', T.Toss, Y.Statement, null, I.Normal, 60, [0.5, 1]);\n";
    assert_eq!(out, expected);
}

#[test]
fn typescript_codegen_sorts_by_folder_and_name() {
    let clips = vec![
        clip("toss", "b", "toss", false),
        clip("hmms", "a", "hmm", false),
        clip("hmms", "b", "oh", false),
    ];
    let keyframes = vec!["".to_string(), "".to_string(), "".to_string()];
    let out = codegen_typescript_clips(clips, keyframes);
    let first = out.find("'liz_clip_hmms_a'").unwrap();
    let second = out.find("'liz_clip_hmms_b'").unwrap();
    let third = out.find("'liz_clip_toss_b'").unwrap();
    assert!(first < second && second < third);
}

#[test]
fn vsnd_codegen_sorts_by_folder_and_name() {
    let clips = vec![clip("toss", "b", "toss", false), clip("hmms", "a", "hmm", false)];
    let out = codegen_vsnd_clips(clips);
    let first = out.find("liz_clip_hmms_a").unwrap();
    let second = out.find("liz_clip_toss_b").unwrap();
    assert!(first < second);
}

#[test]
fn decimal_parsing_is_exact() {
    let digits: Vec<char> = "184467".chars().collect();
    assert_eq!(parse_dec_u64(&digits), Some(184467));
    let max: Vec<char> = "18446744073709551615".chars().collect();
    assert_eq!(parse_dec_u64(&max), Some(u64::MAX));
    let over: Vec<char> = "18446744073709551616".chars().collect();
    assert_eq!(parse_dec_u64(&over), None);
    let junk: Vec<char> = "12a".chars().collect();
    assert_eq!(parse_dec_u64(&junk), None);
    let empty: Vec<char> = Vec::new();
    assert_eq!(parse_dec_u64(&empty), None);

    let neg: Vec<char> = "-42".chars().collect();
    assert_eq!(parse_dec_i64(&neg), Some(-42));
    let min: Vec<char> = "-9223372036854775808".chars().collect();
    assert_eq!(parse_dec_i64(&min), Some(i64::MIN));
    let under: Vec<char> = "-9223372036854775809".chars().collect();
    assert_eq!(parse_dec_i64(&under), None);
}
