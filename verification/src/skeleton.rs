use vstd::prelude::*;
use vstd::utf8::{valid_utf8, decode_utf8};
use crate::cursor::{ByteCursor, spec_i32_from_le_bytes, read_i32, read_u8, read_f32_bits};
use crate::errors::DecodeError;
use crate::text::{string_from_utf8, str_eq};

verus! {

broadcast use crate::cursor::lemma_cursor_position_wf;

/// The position of the first little-endian `-1` (four `0xFF` bytes) at or
/// after `p`, probed at every byte offset; the buffer's length when there is
/// none.
pub open spec fn spec_sentinel_pos(bytes: Seq<u8>, p: int) -> int
    decreases bytes.len() - p,
{
    if p + 4 > bytes.len() {
        bytes.len() as int
    } else if spec_i32_from_le_bytes(bytes.subrange(p, p + 4)) == -1 {
        p
    } else {
        spec_sentinel_pos(bytes, p + 1)
    }
}

/// Scans forward for a four-byte `-1` sentinel, one byte at a time, and
/// leaves the cursor right after it. The companion file's bone table is
/// located by this scan. Fails with `ShortRead` when the scan runs off the
/// end of the buffer.
pub fn find_sentinel(c: &mut ByteCursor) -> (r: Result<(), DecodeError>)
    requires
        old(c).position() <= old(c).bytes().len(),
    ensures
        final(c).bytes() == old(c).bytes(),
        match r {
            Ok(()) => {
                &&& spec_sentinel_pos(old(c).bytes(), old(c).position()) + 4 <= old(
                    c,
                ).bytes().len()
                &&& final(c).position() == spec_sentinel_pos(old(c).bytes(), old(c).position())
                    + 4
            },
            Err(e) => {
                &&& e == DecodeError::ShortRead
                &&& spec_sentinel_pos(old(c).bytes(), old(c).position()) == old(c).bytes().len()
            },
        },
{
    loop
        invariant
            c.bytes() == old(c).bytes(),
            old(c).position() <= c.position() <= c.bytes().len(),
            spec_sentinel_pos(c.bytes(), old(c).position()) == spec_sentinel_pos(
                c.bytes(),
                c.position(),
            ),
        decreases c.bytes().len() - c.position(),
    {
        let ghost pos_before = c.position();
        let v = match read_i32(c) {
            Ok(v) => v,
            Err(_) => {
                proof {
                    assert(spec_sentinel_pos(c.bytes(), pos_before) == c.bytes().len() as int);
                }
                return Err(DecodeError::ShortRead);
            },
        };
        if v == -1 {
            proof {
                assert(spec_sentinel_pos(c.bytes(), pos_before) == pos_before);
            }
            return Ok(());
        }
        proof {
            assert(spec_sentinel_pos(c.bytes(), pos_before) == spec_sentinel_pos(
                c.bytes(),
                pos_before + 1,
            ));
        }
        match c.seek_relative(-3) {
            Ok(()) => (),
            Err(_) => {
                proof {
                    assert(false);
                }
                return Err(DecodeError::ShortRead);
            },
        }
    }
}

/// The position of the first zero byte at or after `p`; the buffer's length
/// when there is none.
pub open spec fn spec_nul_pos(bytes: Seq<u8>, p: int) -> int
    decreases bytes.len() - p,
{
    if p >= bytes.len() {
        bytes.len() as int
    } else if bytes[p] == 0 {
        p
    } else {
        spec_nul_pos(bytes, p + 1)
    }
}

/// Every byte before the first terminator is nonzero.
pub proof fn lemma_nul_pos_prefix_nonzero(bytes: Seq<u8>, p: int)
    requires
        0 <= p,
    ensures
        forall|k: int| p <= k < spec_nul_pos(bytes, p) ==> bytes[k] != 0,
    decreases bytes.len() - p,
{
    if p < bytes.len() && bytes[p] != 0 {
        lemma_nul_pos_prefix_nonzero(bytes, p + 1);
    }
}

/// Reads one null-terminated name from the cursor and leaves the cursor
/// after the terminator. Fails with `ShortRead` when no terminator follows,
/// and with `InvalidUtf8` when the name bytes are not valid text.
pub fn read_name(c: &mut ByteCursor) -> (r: Result<String, DecodeError>)
    requires
        old(c).position() <= old(c).bytes().len(),
    ensures
        final(c).bytes() == old(c).bytes(),
        match r {
            Ok(s) => {
                let q = spec_nul_pos(old(c).bytes(), old(c).position());
                &&& q < old(c).bytes().len()
                &&& valid_utf8(old(c).bytes().subrange(old(c).position(), q))
                &&& s@ == decode_utf8(old(c).bytes().subrange(old(c).position(), q))
                &&& final(c).position() == q + 1
            },
            Err(e) => {
                let q = spec_nul_pos(old(c).bytes(), old(c).position());
                ||| (e == DecodeError::ShortRead && q == old(c).bytes().len())
                ||| (e == DecodeError::InvalidUtf8 && q < old(c).bytes().len() && !valid_utf8(
                    old(c).bytes().subrange(old(c).position(), q),
                ))
            },
        },
{
    let start = c.tell();
    loop
        invariant_except_break
            c.bytes() == old(c).bytes(),
            start == old(c).position(),
            start <= c.position() <= c.bytes().len(),
            spec_nul_pos(c.bytes(), start as int) == spec_nul_pos(c.bytes(), c.position()),
        ensures
            c.bytes() == old(c).bytes(),
            start <= spec_nul_pos(c.bytes(), start as int),
            c.position() == spec_nul_pos(c.bytes(), start as int) + 1,
            spec_nul_pos(c.bytes(), start as int) < c.bytes().len(),
        decreases c.bytes().len() - c.position(),
    {
        let ghost pos_before = c.position();
        let b = match read_u8(c) {
            Ok(b) => b,
            Err(_) => {
                proof {
                    assert(spec_nul_pos(c.bytes(), start as int) == c.bytes().len() as int);
                }
                return Err(DecodeError::ShortRead);
            },
        };
        if b == 0 {
            proof {
                assert(spec_nul_pos(c.bytes(), start as int) == pos_before);
            }
            break ;
        }
        proof {
            assert(spec_nul_pos(c.bytes(), pos_before) == spec_nul_pos(c.bytes(), pos_before + 1));
        }
    }
    let after_nul = c.tell();
    c.seek_absolute(start);
    let name_bytes = match c.read_exact(after_nul - 1 - start) {
        Ok(b) => b,
        Err(_) => {
            proof {
                assert(false);
            }
            return Err(DecodeError::ShortRead);
        },
    };
    c.seek_absolute(after_nul);
    match string_from_utf8(name_bytes) {
        Some(s) => Ok(s),
        None => Err(DecodeError::InvalidUtf8),
    }
}

/// A parsed companion skeleton: the flat parent-offset table, one name per
/// bone, and the bind pose as raw 32-bit float patterns (a quaternion and a
/// translation per bone).
pub struct Skeleton {
    pub bone_count: u32,
    pub parent_codes: Vec<i32>,
    pub names: Vec<String>,
    pub bind_rotation_bits: Vec<[u32; 4]>,
    pub bind_translation_bits: Vec<[u32; 3]>,
}

impl Skeleton {
    /// Every per-bone table holds exactly one entry per bone.
    pub open spec fn wf(&self) -> bool {
        &&& self.parent_codes@.len() == self.bone_count
        &&& self.names@.len() == self.bone_count
        &&& self.bind_rotation_bits@.len() == self.bone_count
        &&& self.bind_translation_bits@.len() == self.bone_count
    }

    /// The parent of `bone` under the table's shifted encoding: entry
    /// `bone + 1`, minus one. An entry of zero or less, or one past the
    /// table, resolves to no parent.
    pub open spec fn spec_parent(&self, bone: int) -> Option<usize> {
        if 0 <= bone && bone + 1 < self.parent_codes@.len() && self.parent_codes@[bone + 1] >= 1 {
            Some((self.parent_codes@[bone + 1] - 1) as usize)
        } else {
            None
        }
    }

    /// Resolves the parent bone index. The table encodes the parent of bone
    /// `i` at entry `i + 1`, shifted up by one; the shift is this format's
    /// quirk, kept in this one place.
    pub fn resolve_parent(&self, bone: usize) -> (r: Option<usize>)
        ensures
            r == self.spec_parent(bone as int),
    {
        let n = self.parent_codes.len();
        if bone < n && bone + 1 < n {
            let code = self.parent_codes[bone + 1];
            if code >= 1 {
                Some((code - 1) as usize)
            } else {
                None
            }
        } else {
            None
        }
    }
}

/// One block of the mirroring table's content.
pub open spec fn spec_mirror_rows_a() -> Seq<(Seq<char>, Seq<char>)> {
    seq![
        ("CharacterWorldSpaceTM"@, "CharacterWorldSpaceTM"@),
        ("Scene_Root"@, "Scene_Root"@),
        ("GenericHumanRoot"@, "GenericHumanRoot"@),
        ("GenericHumanPelvis"@, "GenericHumanPelvis"@),
        ("GenericHumanDressBone_FR1"@, "GenericHumanDressBone_FL1"@),
        ("GenericHumanDressBone_FR2"@, "GenericHumanDressBone_FL2"@),
        ("GenericHumanDressBone_FR3"@, "GenericHumanDressBone_FL3"@),
        ("GenericHumanDressBone_FR4"@, "GenericHumanDressBone_FL4"@),
        ("GenericHumanDressBone_FR5"@, "GenericHumanDressBone_FL5"@),
        ("GenericHumanDressBone_R1"@, "GenericHumanDressBone_L1"@),
        ("GenericHumanDressBone_R2"@, "GenericHumanDressBone_L2"@),
        ("GenericHumanDressBone_R3"@, "GenericHumanDressBone_L3"@),
        ("GenericHumanDressBone_L1"@, "GenericHumanDressBone_R1"@),
        ("GenericHumanDressBone_L2"@, "GenericHumanDressBone_R2"@),
        ("GenericHumanDressBone_L3"@, "GenericHumanDressBone_R3"@),
        ("GenericHumanDressBone_BL1"@, "GenericHumanDressBone_BR1"@),
        ("GenericHumanDressBone_BL2"@, "GenericHumanDressBone_BR2"@),
        ("GenericHumanDressBone_BL3"@, "GenericHumanDressBone_BR3"@),
        ("GenericHumanDressBone_BR1"@, "GenericHumanDressBone_BL1"@),
        ("GenericHumanDressBone_BR2"@, "GenericHumanDressBone_BL2"@),
    ]
}

/// One block of the mirroring table's content.
pub open spec fn spec_mirror_rows_b() -> Seq<(Seq<char>, Seq<char>)> {
    seq![
        ("GenericHumanDressBone_BR3"@, "GenericHumanDressBone_BL3"@),
        ("GenericHumanDressBone_FL1"@, "GenericHumanDressBone_FR1"@),
        ("GenericHumanDressBone_FL2"@, "GenericHumanDressBone_FR2"@),
        ("GenericHumanDressBone_FL3"@, "GenericHumanDressBone_FR3"@),
        ("GenericHumanDressBone_FL4"@, "GenericHumanDressBone_FR4"@),
        ("GenericHumanDressBone_FL5"@, "GenericHumanDressBone_FR5"@),
        ("GenericHumanLThigh"@, "GenericHumanRThigh"@),
        ("GenericHumanLCalf"@, "GenericHumanRCalf"@),
        ("GenericHumanLFoot"@, "GenericHumanRFoot"@),
        ("GenericHumanLToe1"@, "GenericHumanRToe1"@),
        ("GenericHumanRThigh"@, "GenericHumanLThigh"@),
        ("GenericHumanRCalf"@, "GenericHumanLCalf"@),
        ("GenericHumanRFoot"@, "GenericHumanLFoot"@),
        ("GenericHumanRToe1"@, "GenericHumanLToe1"@),
        ("GenericHumanSpine1"@, "GenericHumanSpine1"@),
        ("GenericHumanSpine2"@, "GenericHumanSpine2"@),
        ("GenericHumanSpine3"@, "GenericHumanSpine3"@),
        ("GenericHumanRibcage"@, "GenericHumanRibcage"@),
        ("GenericHumanBreathingBone"@, "GenericHumanBreathingBone"@),
        ("GenericHumanLCollarbone"@, "GenericHumanRCollarbone"@),
    ]
}

/// One block of the mirroring table's content.
pub open spec fn spec_mirror_rows_c() -> Seq<(Seq<char>, Seq<char>)> {
    seq![
        ("GenericHumanLUpperarm1"@, "GenericHumanRUpperarm1"@),
        ("GenericHumanLUpperarm2"@, "GenericHumanRUpperarm2"@),
        ("GenericHumanLForearm1"@, "GenericHumanRForearm1"@),
        ("GenericHumanLForearm2"@, "GenericHumanRForearm2"@),
        ("GenericHumanLPalm"@, "GenericHumanRPalm"@),
        ("GenericHumanLDigit11"@, "GenericHumanRDigit11"@),
        ("GenericHumanLDigit12"@, "GenericHumanRDigit12"@),
        ("GenericHumanLDigit13"@, "GenericHumanRDigit13"@),
        ("GenericHumanLDigit21"@, "GenericHumanRDigit21"@),
        ("GenericHumanLDigit22"@, "GenericHumanRDigit22"@),
        ("GenericHumanLDigit23"@, "GenericHumanRDigit23"@),
        ("GenericHumanLDigit31"@, "GenericHumanRDigit31"@),
        ("GenericHumanLDigit32"@, "GenericHumanRDigit32"@),
        ("GenericHumanLDigit33"@, "GenericHumanRDigit33"@),
        ("GenericHumanLDigit41"@, "GenericHumanRDigit41"@),
        ("GenericHumanLDigit42"@, "GenericHumanRDigit42"@),
        ("GenericHumanLDigit43"@, "GenericHumanRDigit43"@),
        ("GenericHumanLDigit51"@, "GenericHumanRDigit51"@),
        ("GenericHumanLDigit52"@, "GenericHumanRDigit52"@),
        ("GenericHumanLDigit53"@, "GenericHumanRDigit53"@),
    ]
}

/// One block of the mirroring table's content.
pub open spec fn spec_mirror_rows_d() -> Seq<(Seq<char>, Seq<char>)> {
    seq![
        ("GenericHumanRCollarbone"@, "GenericHumanLCollarbone"@),
        ("GenericHumanRUpperarm1"@, "GenericHumanLUpperarm1"@),
        ("GenericHumanRUpperarm2"@, "GenericHumanLUpperarm2"@),
        ("GenericHumanRForearm1"@, "GenericHumanLForearm1"@),
        ("GenericHumanRForearm2"@, "GenericHumanLForearm2"@),
        ("GenericHumanRPalm"@, "GenericHumanLPalm"@),
        ("L_Grip"@, "R_Grip"@),
        ("R_Grip"@, "L_Grip"@),
        ("GenericHumanRDigit11"@, "GenericHumanLDigit11"@),
        ("GenericHumanRDigit12"@, "GenericHumanLDigit12"@),
        ("GenericHumanRDigit13"@, "GenericHumanLDigit13"@),
        ("GenericHumanRDigit21"@, "GenericHumanLDigit21"@),
        ("GenericHumanRDigit22"@, "GenericHumanLDigit22"@),
        ("GenericHumanRDigit23"@, "GenericHumanLDigit23"@),
        ("GenericHumanRDigit31"@, "GenericHumanLDigit31"@),
        ("GenericHumanRDigit32"@, "GenericHumanLDigit32"@),
        ("GenericHumanRDigit33"@, "GenericHumanLDigit33"@),
        ("GenericHumanRDigit41"@, "GenericHumanLDigit41"@),
        ("GenericHumanRDigit42"@, "GenericHumanLDigit42"@),
        ("GenericHumanRDigit43"@, "GenericHumanLDigit43"@),
    ]
}

/// One block of the mirroring table's content.
pub open spec fn spec_mirror_rows_e() -> Seq<(Seq<char>, Seq<char>)> {
    seq![
        ("GenericHumanRDigit51"@, "GenericHumanLDigit51"@),
        ("GenericHumanRDigit52"@, "GenericHumanLDigit52"@),
        ("GenericHumanRDigit53"@, "GenericHumanLDigit53"@),
        ("GenericHumanNeck"@, "GenericHumanNeck"@),
        ("GenericHumanHead"@, "GenericHumanHead"@),
        ("GenericHumanDummyHead"@, "GenericHumanDummyHead"@),
        ("GenericHuman_LSquint"@, "GenericHuman_RSquint"@),
        ("GenericHuman_l_browCJnt"@, "GenericHuman_r_browCJnt"@),
        ("GenericHuman_r_browBJnt"@, "GenericHuman_l_browBJnt"@),
        ("GenericHuman_c_uppLipJnt"@, "GenericHuman_c_uppLipJnt"@),
        ("GenericHuman_l_browBJnt"@, "GenericHuman_r_browBJnt"@),
        ("GenericHuman_l_uppLipJnt"@, "GenericHuman_r_uppLipJnt"@),
        ("GenericHuman_l_cornerLipJnt"@, "GenericHuman_r_cornerLipJnt"@),
        ("GenericHuman_r_loCheekJnt"@, "GenericHuman_l_loCheekJnt"@),
        ("GenericHuman_l_loCheekJnt"@, "GenericHuman_r_loCheekJnt"@),
        ("GenericHuman_C_jawJnt"@, "GenericHuman_C_jawJnt"@),
        ("GenericHuman_C_chinJnt"@, "GenericHuman_C_chinJnt"@),
        ("GenericHuman_r_loLipJnt"@, "GenericHuman_l_loLipJnt"@),
        ("GenericHuman_c_loLipJnt"@, "GenericHuman_c_loLipJnt"@),
        ("GenericHuman_l_loLipJnt"@, "GenericHuman_r_loLipJnt"@),
    ]
}

/// One block of the mirroring table's content.
pub open spec fn spec_mirror_rows_f() -> Seq<(Seq<char>, Seq<char>)> {
    seq![
        ("GenericHuman_C_tongue_a_Jnt"@, "GenericHuman_C_tongue_a_Jnt"@),
        ("GenericHuman_C_tongue_b_Jnt"@, "GenericHuman_C_tongue_b_Jnt"@),
        ("GenericHuman_l_nostrilJnt"@, "GenericHuman_r_nostrilJnt"@),
        ("GenericHuman_r_uppCheekJnt"@, "GenericHuman_l_uppCheekJnt"@),
        ("GenericHuman_r_nostrilJnt"@, "GenericHuman_l_nostrilJnt"@),
        ("GenericHuman_l_uppCheekJnt"@, "GenericHuman_r_uppCheekJnt"@),
        ("GenericHuman_l_uppLidJnt"@, "GenericHuman_r_uppLidJnt"@),
        ("GenericHuman_l_loLidJnt"@, "GenericHuman_r_loLidJnt"@),
        ("GenericHuman_r_loLidJnt"@, "GenericHuman_l_loLidJnt"@),
        ("GenericHuman_r_uppLidJnt"@, "GenericHuman_l_uppLidJnt"@),
        ("GenericHuman_l_EyeJnt"@, "GenericHuman_r_EyeJnt"@),
        ("GenericHuman_r_browCJnt"@, "GenericHuman_l_browCJnt"@),
        ("GenericHuman_r_browAJnt"@, "GenericHuman_l_browAJnt"@),
        ("GenericHuman_l_browAJnt"@, "GenericHuman_r_browAJnt"@),
        ("GenericHuman_C_forehead"@, "GenericHuman_C_forehead"@),
        ("GenericHuman_RSquint"@, "GenericHuman_LSquint"@),
        ("GenericHuman_R_InnerCheek"@, "GenericHuman_L_InnerCheek"@),
        ("GenericHuman_L_InnerCheek"@, "GenericHuman_R_InnerCheek"@),
        ("GenericHuman_r_EyeJnt"@, "GenericHuman_l_EyeJnt"@),
        ("GenericHuman_r_uppLipJnt"@, "GenericHuman_l_uppLipJnt"@),
    ]
}

/// One block of the mirroring table's content.
pub open spec fn spec_mirror_rows_g() -> Seq<(Seq<char>, Seq<char>)> {
    seq![
        ("GenericHuman_r_cornerLipJnt"@, "GenericHuman_l_cornerLipJnt"@),
        ("GenericHuman_BackHair01"@, "GenericHuman_BackHair01"@),
        ("GenericHuman_BackHair02"@, "GenericHuman_BackHair02"@),
        ("GenericHuman_PonyTail01"@, "GenericHuman_PonyTail01"@),
        ("GenericHuman_PonyTail02"@, "GenericHuman_PonyTail02"@),
        ("GenericHuman_PonyTail03"@, "GenericHuman_PonyTail03"@),
        ("GenericHuman_LHair01"@, "GenericHuman_RHair01"@),
        ("GenericHuman_LHair02"@, "GenericHuman_RHair02"@),
        ("GenericHuman_RHair01"@, "GenericHuman_LHair01"@),
        ("GenericHuman_RHair02"@, "GenericHuman_LHair02"@),
        ("GenericHuman_RFaceHair01"@, "GenericHuman_LFaceHair01"@),
        ("GenericHuman_RFaceHair02"@, "GenericHuman_LFaceHair02"@),
        ("GenericHuman_LFaceHair01"@, "GenericHuman_RFaceHair01"@),
        ("GenericHuman_LFaceHair02"@, "GenericHuman_RFaceHair02"@),
        ("GenericHuman_FrontHair01"@, "GenericHuman_FrontHair01"@),
        ("GenericHuman_FrontHair02"@, "GenericHuman_FrontHair02"@),
        ("TrajectoryBone"@, "TrajectoryBone"@),
        ("GenMaleRoot"@, "GenMaleRoot"@),
        ("GenericHumanPelvis_offset"@, "GenericHumanPelvis_offset"@),
        ("Back_Grip"@, "Back_Grip"@),
    ]
}

/// One block of the mirroring table's content.
pub open spec fn spec_mirror_rows_h() -> Seq<(Seq<char>, Seq<char>)> {
    seq![
        ("GenericHumanLFoot_IKTarget"@, "GenericHumanRFoot_IKTarget"@),
        ("GenericHumanRFoot_IKTarget"@, "GenericHumanLFoot_IKTarget"@),
        ("GenericHumanLPalm_IKTarget"@, "GenericHumanRFoot_IKTarget"@),
        ("GenericHumanRPalm_IKTarget"@, "GenericHumanLFoot_IKTarget"@),
        ("GenericHumanLUpperarm"@, "GenericHumanRUpperarm"@),
        ("GenericHumanRUpperarm"@, "GenericHumanLUpperarm"@),
        ("GenericHumanLPalm_WpnIKTarget"@, "GenericHumanRPalm_WpnIKTarget"@),
        ("GenericHumanRPalm_WpnIKTarget"@, "GenericHumanLPalm_WpnIKTarget"@),
        ("Particle_View_01"@, "Particle_View_01"@),
        ("HookPARENT"@, "HookPARENT"@),
        ("Bone_Body"@, "Bone_Body"@),
        ("Bone_BodyGear"@, "Bone_BodyGear"@),
        ("Bone_HookParent"@, "Bone_HookParent"@),
        ("Bone_ROT"@, "Bone_ROT"@),
        ("Bone_Hook3"@, "Bone_Hook3"@),
        ("Bone_Hook1"@, "Bone_Hook1"@),
        ("Bone_Hook2"@, "Bone_Hook2"@),
        ("Bone_HookGear"@, "Bone_HookGear"@),
    ]
}

/// The mirroring table's content, pair by pair: each supported bone name
/// beside its mirrored counterpart (itself on the center line). The two
/// palm inverse-kinematics targets deliberately map to the foot targets.
pub open spec fn spec_mirror_table() -> Seq<(Seq<char>, Seq<char>)> {
    spec_mirror_rows_a() + spec_mirror_rows_b() + spec_mirror_rows_c() + spec_mirror_rows_d() + spec_mirror_rows_e() + spec_mirror_rows_f() + spec_mirror_rows_g() + spec_mirror_rows_h()
}

#[verifier::rlimit(100)]
fn mirror_rows_a() -> (r: Vec<(&'static str, &'static str)>)
    ensures
        r@.map_values(|p: (&'static str, &'static str)| (p.0@, p.1@)) == spec_mirror_rows_a(),
{
    let mut b: Vec<(&'static str, &'static str)> = Vec::new();
    b.push(("CharacterWorldSpaceTM", "CharacterWorldSpaceTM"));
    b.push(("Scene_Root", "Scene_Root"));
    b.push(("GenericHumanRoot", "GenericHumanRoot"));
    b.push(("GenericHumanPelvis", "GenericHumanPelvis"));
    b.push(("GenericHumanDressBone_FR1", "GenericHumanDressBone_FL1"));
    b.push(("GenericHumanDressBone_FR2", "GenericHumanDressBone_FL2"));
    b.push(("GenericHumanDressBone_FR3", "GenericHumanDressBone_FL3"));
    b.push(("GenericHumanDressBone_FR4", "GenericHumanDressBone_FL4"));
    b.push(("GenericHumanDressBone_FR5", "GenericHumanDressBone_FL5"));
    b.push(("GenericHumanDressBone_R1", "GenericHumanDressBone_L1"));
    b.push(("GenericHumanDressBone_R2", "GenericHumanDressBone_L2"));
    b.push(("GenericHumanDressBone_R3", "GenericHumanDressBone_L3"));
    b.push(("GenericHumanDressBone_L1", "GenericHumanDressBone_R1"));
    b.push(("GenericHumanDressBone_L2", "GenericHumanDressBone_R2"));
    b.push(("GenericHumanDressBone_L3", "GenericHumanDressBone_R3"));
    b.push(("GenericHumanDressBone_BL1", "GenericHumanDressBone_BR1"));
    b.push(("GenericHumanDressBone_BL2", "GenericHumanDressBone_BR2"));
    b.push(("GenericHumanDressBone_BL3", "GenericHumanDressBone_BR3"));
    b.push(("GenericHumanDressBone_BR1", "GenericHumanDressBone_BL1"));
    b.push(("GenericHumanDressBone_BR2", "GenericHumanDressBone_BL2"));
    proof {
        assert(b@.map_values(|p: (&'static str, &'static str)| (p.0@, p.1@))
            =~= spec_mirror_rows_a());
    }
    b
}

#[verifier::rlimit(100)]
fn mirror_rows_b() -> (r: Vec<(&'static str, &'static str)>)
    ensures
        r@.map_values(|p: (&'static str, &'static str)| (p.0@, p.1@)) == spec_mirror_rows_b(),
{
    let mut b: Vec<(&'static str, &'static str)> = Vec::new();
    b.push(("GenericHumanDressBone_BR3", "GenericHumanDressBone_BL3"));
    b.push(("GenericHumanDressBone_FL1", "GenericHumanDressBone_FR1"));
    b.push(("GenericHumanDressBone_FL2", "GenericHumanDressBone_FR2"));
    b.push(("GenericHumanDressBone_FL3", "GenericHumanDressBone_FR3"));
    b.push(("GenericHumanDressBone_FL4", "GenericHumanDressBone_FR4"));
    b.push(("GenericHumanDressBone_FL5", "GenericHumanDressBone_FR5"));
    b.push(("GenericHumanLThigh", "GenericHumanRThigh"));
    b.push(("GenericHumanLCalf", "GenericHumanRCalf"));
    b.push(("GenericHumanLFoot", "GenericHumanRFoot"));
    b.push(("GenericHumanLToe1", "GenericHumanRToe1"));
    b.push(("GenericHumanRThigh", "GenericHumanLThigh"));
    b.push(("GenericHumanRCalf", "GenericHumanLCalf"));
    b.push(("GenericHumanRFoot", "GenericHumanLFoot"));
    b.push(("GenericHumanRToe1", "GenericHumanLToe1"));
    b.push(("GenericHumanSpine1", "GenericHumanSpine1"));
    b.push(("GenericHumanSpine2", "GenericHumanSpine2"));
    b.push(("GenericHumanSpine3", "GenericHumanSpine3"));
    b.push(("GenericHumanRibcage", "GenericHumanRibcage"));
    b.push(("GenericHumanBreathingBone", "GenericHumanBreathingBone"));
    b.push(("GenericHumanLCollarbone", "GenericHumanRCollarbone"));
    proof {
        assert(b@.map_values(|p: (&'static str, &'static str)| (p.0@, p.1@))
            =~= spec_mirror_rows_b());
    }
    b
}

#[verifier::rlimit(100)]
fn mirror_rows_c() -> (r: Vec<(&'static str, &'static str)>)
    ensures
        r@.map_values(|p: (&'static str, &'static str)| (p.0@, p.1@)) == spec_mirror_rows_c(),
{
    let mut b: Vec<(&'static str, &'static str)> = Vec::new();
    b.push(("GenericHumanLUpperarm1", "GenericHumanRUpperarm1"));
    b.push(("GenericHumanLUpperarm2", "GenericHumanRUpperarm2"));
    b.push(("GenericHumanLForearm1", "GenericHumanRForearm1"));
    b.push(("GenericHumanLForearm2", "GenericHumanRForearm2"));
    b.push(("GenericHumanLPalm", "GenericHumanRPalm"));
    b.push(("GenericHumanLDigit11", "GenericHumanRDigit11"));
    b.push(("GenericHumanLDigit12", "GenericHumanRDigit12"));
    b.push(("GenericHumanLDigit13", "GenericHumanRDigit13"));
    b.push(("GenericHumanLDigit21", "GenericHumanRDigit21"));
    b.push(("GenericHumanLDigit22", "GenericHumanRDigit22"));
    b.push(("GenericHumanLDigit23", "GenericHumanRDigit23"));
    b.push(("GenericHumanLDigit31", "GenericHumanRDigit31"));
    b.push(("GenericHumanLDigit32", "GenericHumanRDigit32"));
    b.push(("GenericHumanLDigit33", "GenericHumanRDigit33"));
    b.push(("GenericHumanLDigit41", "GenericHumanRDigit41"));
    b.push(("GenericHumanLDigit42", "GenericHumanRDigit42"));
    b.push(("GenericHumanLDigit43", "GenericHumanRDigit43"));
    b.push(("GenericHumanLDigit51", "GenericHumanRDigit51"));
    b.push(("GenericHumanLDigit52", "GenericHumanRDigit52"));
    b.push(("GenericHumanLDigit53", "GenericHumanRDigit53"));
    proof {
        assert(b@.map_values(|p: (&'static str, &'static str)| (p.0@, p.1@))
            =~= spec_mirror_rows_c());
    }
    b
}

#[verifier::rlimit(100)]
fn mirror_rows_d() -> (r: Vec<(&'static str, &'static str)>)
    ensures
        r@.map_values(|p: (&'static str, &'static str)| (p.0@, p.1@)) == spec_mirror_rows_d(),
{
    let mut b: Vec<(&'static str, &'static str)> = Vec::new();
    b.push(("GenericHumanRCollarbone", "GenericHumanLCollarbone"));
    b.push(("GenericHumanRUpperarm1", "GenericHumanLUpperarm1"));
    b.push(("GenericHumanRUpperarm2", "GenericHumanLUpperarm2"));
    b.push(("GenericHumanRForearm1", "GenericHumanLForearm1"));
    b.push(("GenericHumanRForearm2", "GenericHumanLForearm2"));
    b.push(("GenericHumanRPalm", "GenericHumanLPalm"));
    b.push(("L_Grip", "R_Grip"));
    b.push(("R_Grip", "L_Grip"));
    b.push(("GenericHumanRDigit11", "GenericHumanLDigit11"));
    b.push(("GenericHumanRDigit12", "GenericHumanLDigit12"));
    b.push(("GenericHumanRDigit13", "GenericHumanLDigit13"));
    b.push(("GenericHumanRDigit21", "GenericHumanLDigit21"));
    b.push(("GenericHumanRDigit22", "GenericHumanLDigit22"));
    b.push(("GenericHumanRDigit23", "GenericHumanLDigit23"));
    b.push(("GenericHumanRDigit31", "GenericHumanLDigit31"));
    b.push(("GenericHumanRDigit32", "GenericHumanLDigit32"));
    b.push(("GenericHumanRDigit33", "GenericHumanLDigit33"));
    b.push(("GenericHumanRDigit41", "GenericHumanLDigit41"));
    b.push(("GenericHumanRDigit42", "GenericHumanLDigit42"));
    b.push(("GenericHumanRDigit43", "GenericHumanLDigit43"));
    proof {
        assert(b@.map_values(|p: (&'static str, &'static str)| (p.0@, p.1@))
            =~= spec_mirror_rows_d());
    }
    b
}

#[verifier::rlimit(100)]
fn mirror_rows_e() -> (r: Vec<(&'static str, &'static str)>)
    ensures
        r@.map_values(|p: (&'static str, &'static str)| (p.0@, p.1@)) == spec_mirror_rows_e(),
{
    let mut b: Vec<(&'static str, &'static str)> = Vec::new();
    b.push(("GenericHumanRDigit51", "GenericHumanLDigit51"));
    b.push(("GenericHumanRDigit52", "GenericHumanLDigit52"));
    b.push(("GenericHumanRDigit53", "GenericHumanLDigit53"));
    b.push(("GenericHumanNeck", "GenericHumanNeck"));
    b.push(("GenericHumanHead", "GenericHumanHead"));
    b.push(("GenericHumanDummyHead", "GenericHumanDummyHead"));
    b.push(("GenericHuman_LSquint", "GenericHuman_RSquint"));
    b.push(("GenericHuman_l_browCJnt", "GenericHuman_r_browCJnt"));
    b.push(("GenericHuman_r_browBJnt", "GenericHuman_l_browBJnt"));
    b.push(("GenericHuman_c_uppLipJnt", "GenericHuman_c_uppLipJnt"));
    b.push(("GenericHuman_l_browBJnt", "GenericHuman_r_browBJnt"));
    b.push(("GenericHuman_l_uppLipJnt", "GenericHuman_r_uppLipJnt"));
    b.push(("GenericHuman_l_cornerLipJnt", "GenericHuman_r_cornerLipJnt"));
    b.push(("GenericHuman_r_loCheekJnt", "GenericHuman_l_loCheekJnt"));
    b.push(("GenericHuman_l_loCheekJnt", "GenericHuman_r_loCheekJnt"));
    b.push(("GenericHuman_C_jawJnt", "GenericHuman_C_jawJnt"));
    b.push(("GenericHuman_C_chinJnt", "GenericHuman_C_chinJnt"));
    b.push(("GenericHuman_r_loLipJnt", "GenericHuman_l_loLipJnt"));
    b.push(("GenericHuman_c_loLipJnt", "GenericHuman_c_loLipJnt"));
    b.push(("GenericHuman_l_loLipJnt", "GenericHuman_r_loLipJnt"));
    proof {
        assert(b@.map_values(|p: (&'static str, &'static str)| (p.0@, p.1@))
            =~= spec_mirror_rows_e());
    }
    b
}

#[verifier::rlimit(100)]
fn mirror_rows_f() -> (r: Vec<(&'static str, &'static str)>)
    ensures
        r@.map_values(|p: (&'static str, &'static str)| (p.0@, p.1@)) == spec_mirror_rows_f(),
{
    let mut b: Vec<(&'static str, &'static str)> = Vec::new();
    b.push(("GenericHuman_C_tongue_a_Jnt", "GenericHuman_C_tongue_a_Jnt"));
    b.push(("GenericHuman_C_tongue_b_Jnt", "GenericHuman_C_tongue_b_Jnt"));
    b.push(("GenericHuman_l_nostrilJnt", "GenericHuman_r_nostrilJnt"));
    b.push(("GenericHuman_r_uppCheekJnt", "GenericHuman_l_uppCheekJnt"));
    b.push(("GenericHuman_r_nostrilJnt", "GenericHuman_l_nostrilJnt"));
    b.push(("GenericHuman_l_uppCheekJnt", "GenericHuman_r_uppCheekJnt"));
    b.push(("GenericHuman_l_uppLidJnt", "GenericHuman_r_uppLidJnt"));
    b.push(("GenericHuman_l_loLidJnt", "GenericHuman_r_loLidJnt"));
    b.push(("GenericHuman_r_loLidJnt", "GenericHuman_l_loLidJnt"));
    b.push(("GenericHuman_r_uppLidJnt", "GenericHuman_l_uppLidJnt"));
    b.push(("GenericHuman_l_EyeJnt", "GenericHuman_r_EyeJnt"));
    b.push(("GenericHuman_r_browCJnt", "GenericHuman_l_browCJnt"));
    b.push(("GenericHuman_r_browAJnt", "GenericHuman_l_browAJnt"));
    b.push(("GenericHuman_l_browAJnt", "GenericHuman_r_browAJnt"));
    b.push(("GenericHuman_C_forehead", "GenericHuman_C_forehead"));
    b.push(("GenericHuman_RSquint", "GenericHuman_LSquint"));
    b.push(("GenericHuman_R_InnerCheek", "GenericHuman_L_InnerCheek"));
    b.push(("GenericHuman_L_InnerCheek", "GenericHuman_R_InnerCheek"));
    b.push(("GenericHuman_r_EyeJnt", "GenericHuman_l_EyeJnt"));
    b.push(("GenericHuman_r_uppLipJnt", "GenericHuman_l_uppLipJnt"));
    proof {
        assert(b@.map_values(|p: (&'static str, &'static str)| (p.0@, p.1@))
            =~= spec_mirror_rows_f());
    }
    b
}

#[verifier::rlimit(100)]
fn mirror_rows_g() -> (r: Vec<(&'static str, &'static str)>)
    ensures
        r@.map_values(|p: (&'static str, &'static str)| (p.0@, p.1@)) == spec_mirror_rows_g(),
{
    let mut b: Vec<(&'static str, &'static str)> = Vec::new();
    b.push(("GenericHuman_r_cornerLipJnt", "GenericHuman_l_cornerLipJnt"));
    b.push(("GenericHuman_BackHair01", "GenericHuman_BackHair01"));
    b.push(("GenericHuman_BackHair02", "GenericHuman_BackHair02"));
    b.push(("GenericHuman_PonyTail01", "GenericHuman_PonyTail01"));
    b.push(("GenericHuman_PonyTail02", "GenericHuman_PonyTail02"));
    b.push(("GenericHuman_PonyTail03", "GenericHuman_PonyTail03"));
    b.push(("GenericHuman_LHair01", "GenericHuman_RHair01"));
    b.push(("GenericHuman_LHair02", "GenericHuman_RHair02"));
    b.push(("GenericHuman_RHair01", "GenericHuman_LHair01"));
    b.push(("GenericHuman_RHair02", "GenericHuman_LHair02"));
    b.push(("GenericHuman_RFaceHair01", "GenericHuman_LFaceHair01"));
    b.push(("GenericHuman_RFaceHair02", "GenericHuman_LFaceHair02"));
    b.push(("GenericHuman_LFaceHair01", "GenericHuman_RFaceHair01"));
    b.push(("GenericHuman_LFaceHair02", "GenericHuman_RFaceHair02"));
    b.push(("GenericHuman_FrontHair01", "GenericHuman_FrontHair01"));
    b.push(("GenericHuman_FrontHair02", "GenericHuman_FrontHair02"));
    b.push(("TrajectoryBone", "TrajectoryBone"));
    b.push(("GenMaleRoot", "GenMaleRoot"));
    b.push(("GenericHumanPelvis_offset", "GenericHumanPelvis_offset"));
    b.push(("Back_Grip", "Back_Grip"));
    proof {
        assert(b@.map_values(|p: (&'static str, &'static str)| (p.0@, p.1@))
            =~= spec_mirror_rows_g());
    }
    b
}

#[verifier::rlimit(100)]
fn mirror_rows_h() -> (r: Vec<(&'static str, &'static str)>)
    ensures
        r@.map_values(|p: (&'static str, &'static str)| (p.0@, p.1@)) == spec_mirror_rows_h(),
{
    let mut b: Vec<(&'static str, &'static str)> = Vec::new();
    b.push(("GenericHumanLFoot_IKTarget", "GenericHumanRFoot_IKTarget"));
    b.push(("GenericHumanRFoot_IKTarget", "GenericHumanLFoot_IKTarget"));
    b.push(("GenericHumanLPalm_IKTarget", "GenericHumanRFoot_IKTarget"));
    b.push(("GenericHumanRPalm_IKTarget", "GenericHumanLFoot_IKTarget"));
    b.push(("GenericHumanLUpperarm", "GenericHumanRUpperarm"));
    b.push(("GenericHumanRUpperarm", "GenericHumanLUpperarm"));
    b.push(("GenericHumanLPalm_WpnIKTarget", "GenericHumanRPalm_WpnIKTarget"));
    b.push(("GenericHumanRPalm_WpnIKTarget", "GenericHumanLPalm_WpnIKTarget"));
    b.push(("Particle_View_01", "Particle_View_01"));
    b.push(("HookPARENT", "HookPARENT"));
    b.push(("Bone_Body", "Bone_Body"));
    b.push(("Bone_BodyGear", "Bone_BodyGear"));
    b.push(("Bone_HookParent", "Bone_HookParent"));
    b.push(("Bone_ROT", "Bone_ROT"));
    b.push(("Bone_Hook3", "Bone_Hook3"));
    b.push(("Bone_Hook1", "Bone_Hook1"));
    b.push(("Bone_Hook2", "Bone_Hook2"));
    b.push(("Bone_HookGear", "Bone_HookGear"));
    proof {
        assert(b@.map_values(|p: (&'static str, &'static str)| (p.0@, p.1@))
            =~= spec_mirror_rows_h());
    }
    b
}

/// The fixed left/right bone-name mirroring table for the supported
/// skeletons: each name maps to its mirrored counterpart (or itself on the
/// center line). A data asset, not decoding logic; it returns exactly the
/// pairs of `spec_mirror_table`, in order.
#[verifier::rlimit(100)]
pub fn get_mirrored_bones() -> (r: Vec<(&'static str, &'static str)>)
    ensures
        r@.len() == spec_mirror_table().len(),
        forall|i: int|
            0 <= i < r@.len() ==> ((#[trigger] r@[i]).0@, r@[i].1@) == spec_mirror_table()[i],
{
    let mut b: Vec<(&'static str, &'static str)> = Vec::new();
    let mut part_a = mirror_rows_a();
    b.append(&mut part_a);
    let mut part_b = mirror_rows_b();
    b.append(&mut part_b);
    let mut part_c = mirror_rows_c();
    b.append(&mut part_c);
    let mut part_d = mirror_rows_d();
    b.append(&mut part_d);
    let mut part_e = mirror_rows_e();
    b.append(&mut part_e);
    let mut part_f = mirror_rows_f();
    b.append(&mut part_f);
    let mut part_g = mirror_rows_g();
    b.append(&mut part_g);
    let mut part_h = mirror_rows_h();
    b.append(&mut part_h);
    proof {
        let f = |p: (&'static str, &'static str)| (p.0@, p.1@);
        assert(b@.map_values(f) =~= spec_mirror_table()) by {
            assert forall|i: int| 0 <= i < b@.len() implies #[trigger] b@.map_values(f)[i]
                == spec_mirror_table()[i] by {
            }
        }
        assert forall|i: int| 0 <= i < b@.len() implies ((#[trigger] b@[i]).0@, b@[i].1@)
            == spec_mirror_table()[i] by {
            assert(b@.map_values(f)[i] == spec_mirror_table()[i]);
        }
    }
    b
}

/// Looks a bone name up in the mirroring table.
pub fn lookup_mirrored<'a>(table: &Vec<(&'a str, &'a str)>, name: &str) -> (r: Option<&'a str>)
    ensures
        match r {
            Some(m) => exists|i: int|
                0 <= i < table@.len() && (#[trigger] table@[i]).0@ == name@ && table@[i].1@ == m@,
            None => forall|i: int| 0 <= i < table@.len() ==> (#[trigger] table@[i]).0@ != name@,
        },
{
    let mut i: usize = 0;
    while i < table.len()
        invariant
            i <= table@.len(),
            forall|j: int| 0 <= j < i ==> (#[trigger] table@[j]).0@ != name@,
        decreases table@.len() - i,
    {
        let (key, value) = table[i];
        if str_eq(key, name) {
            return Some(value);
        }
        i = i + 1;
    }
    None
}

/// Reads `count` little-endian 32-bit integers.
pub fn read_i32_array(c: &mut ByteCursor, count: usize) -> (r: Result<Vec<i32>, DecodeError>)
    ensures
        final(c).bytes() == old(c).bytes(),
        match r {
            Ok(v) => {
                &&& old(c).can_read(4 * count)
                &&& final(c).position() == old(c).position() + 4 * count
                &&& v@.len() == count
                &&& forall|i: int|
                    0 <= i < count ==> v@[i] == spec_i32_from_le_bytes(
                        #[trigger] old(c).bytes().subrange(
                            old(c).position() + 4 * i,
                            old(c).position() + 4 * i + 4,
                        ),
                    )
            },
            Err(e) => e == DecodeError::ShortRead && !old(c).can_read(4 * count),
        },
{
    let need: u128 = 4 * (count as u128);
    if (c.tell() as u128) > (c.len() as u128) || need > (c.len() as u128) - (c.tell() as u128) {
        return Err(DecodeError::ShortRead);
    }
    let mut v: Vec<i32> = Vec::new();
    let mut i: usize = 0;
    while i < count
        invariant
            i <= count,
            c.bytes() == old(c).bytes(),
            old(c).position() + 4 * count <= old(c).bytes().len(),
            c.position() == old(c).position() + 4 * i,
            v@.len() == i,
            forall|j: int|
                0 <= j < i ==> v@[j] == spec_i32_from_le_bytes(
                    #[trigger] old(c).bytes().subrange(
                        old(c).position() + 4 * j,
                        old(c).position() + 4 * j + 4,
                    ),
                ),
        decreases count - i,
    {
        let x = match read_i32(c) {
            Ok(x) => x,
            Err(_) => {
                proof {
                    assert(false);
                }
                return Err(DecodeError::ShortRead);
            },
        };
        v.push(x);
        i = i + 1;
    }
    Ok(v)
}

/// The raw float quadruple laid out at `base + 16 * i`.
pub open spec fn spec_quat_bits(bytes: Seq<u8>, base: int, i: int) -> [u32; 4] {
    [
        vstd::bytes::spec_u32_from_le_bytes(bytes.subrange(base + 16 * i, base + 16 * i + 4)),
        vstd::bytes::spec_u32_from_le_bytes(bytes.subrange(base + 16 * i + 4, base + 16 * i + 8)),
        vstd::bytes::spec_u32_from_le_bytes(bytes.subrange(base + 16 * i + 8, base + 16 * i + 12)),
        vstd::bytes::spec_u32_from_le_bytes(bytes.subrange(base + 16 * i + 12, base + 16 * i + 16)),
    ]
}

/// The raw float triple laid out at `base + 16 * i`, with four padding
/// bytes after it.
pub open spec fn spec_padded_triple_bits(bytes: Seq<u8>, base: int, i: int) -> [u32; 3] {
    [
        vstd::bytes::spec_u32_from_le_bytes(bytes.subrange(base + 16 * i, base + 16 * i + 4)),
        vstd::bytes::spec_u32_from_le_bytes(bytes.subrange(base + 16 * i + 4, base + 16 * i + 8)),
        vstd::bytes::spec_u32_from_le_bytes(bytes.subrange(base + 16 * i + 8, base + 16 * i + 12)),
    ]
}

/// Reads `count` raw 32-bit float quadruples (the bind-pose rotations).
pub fn read_quat_bits_array(c: &mut ByteCursor, count: usize) -> (r: Result<
    Vec<[u32; 4]>,
    DecodeError,
>)
    ensures
        final(c).bytes() == old(c).bytes(),
        match r {
            Ok(v) => {
                &&& final(c).position() == old(c).position() + 16 * count
                &&& v@.len() == count
                &&& forall|i: int|
                    0 <= i < count ==> #[trigger] v@[i] == spec_quat_bits(
                        old(c).bytes(),
                        old(c).position(),
                        i,
                    )
            },
            Err(e) => e == DecodeError::ShortRead && !old(c).can_read(16 * count),
        },
{
    let need: u128 = 16 * (count as u128);
    if (c.tell() as u128) > (c.len() as u128) || need > (c.len() as u128) - (c.tell() as u128) {
        return Err(DecodeError::ShortRead);
    }
    let mut v: Vec<[u32; 4]> = Vec::new();
    let mut i: usize = 0;
    while i < count
        invariant
            i <= count,
            c.bytes() == old(c).bytes(),
            old(c).position() + 16 * count <= old(c).bytes().len(),
            c.position() == old(c).position() + 16 * i,
            v@.len() == i,
            forall|j: int|
                0 <= j < i ==> #[trigger] v@[j] == spec_quat_bits(
                    old(c).bytes(),
                    old(c).position(),
                    j,
                ),
        decreases count - i,
    {
        let x = match read_f32_bits(c) {
            Ok(v_) => v_,
            Err(_) => {
                proof {
                    assert(false);
                }
                return Err(DecodeError::ShortRead);
            },
        };
        let y = match read_f32_bits(c) {
            Ok(v_) => v_,
            Err(_) => {
                proof {
                    assert(false);
                }
                return Err(DecodeError::ShortRead);
            },
        };
        let z = match read_f32_bits(c) {
            Ok(v_) => v_,
            Err(_) => {
                proof {
                    assert(false);
                }
                return Err(DecodeError::ShortRead);
            },
        };
        let w = match read_f32_bits(c) {
            Ok(v_) => v_,
            Err(_) => {
                proof {
                    assert(false);
                }
                return Err(DecodeError::ShortRead);
            },
        };
        v.push([x, y, z, w]);
        proof {
            let t = spec_quat_bits(old(c).bytes(), old(c).position(), i as int);
            assert([x, y, z, w]@ =~= t@);
            assert([x, y, z, w] == t);
        }
        i = i + 1;
    }
    Ok(v)
}

/// Reads `count` raw 32-bit float triples, each followed by four padding
/// bytes (the bind-pose translations).
pub fn read_translation_bits_array(c: &mut ByteCursor, count: usize) -> (r: Result<
    Vec<[u32; 3]>,
    DecodeError,
>)
    ensures
        final(c).bytes() == old(c).bytes(),
        match r {
            Ok(v) => {
                &&& final(c).position() == old(c).position() + 16 * count
                &&& v@.len() == count
                &&& forall|i: int|
                    0 <= i < count ==> #[trigger] v@[i] == spec_padded_triple_bits(
                        old(c).bytes(),
                        old(c).position(),
                        i,
                    )
            },
            Err(e) => e == DecodeError::ShortRead && !old(c).can_read(16 * count),
        },
{
    let need: u128 = 16 * (count as u128);
    if (c.tell() as u128) > (c.len() as u128) || need > (c.len() as u128) - (c.tell() as u128) {
        return Err(DecodeError::ShortRead);
    }
    let buf_len = c.len();
    let mut v: Vec<[u32; 3]> = Vec::new();
    let mut i: usize = 0;
    while i < count
        invariant
            i <= count,
            c.bytes() == old(c).bytes(),
            c.bytes().len() == buf_len,
            old(c).position() + 16 * count <= old(c).bytes().len(),
            c.position() == old(c).position() + 16 * i,
            v@.len() == i,
            forall|j: int|
                0 <= j < i ==> #[trigger] v@[j] == spec_padded_triple_bits(
                    old(c).bytes(),
                    old(c).position(),
                    j,
                ),
        decreases count - i,
    {
        let x = match read_f32_bits(c) {
            Ok(v_) => v_,
            Err(_) => {
                proof {
                    assert(false);
                }
                return Err(DecodeError::ShortRead);
            },
        };
        let y = match read_f32_bits(c) {
            Ok(v_) => v_,
            Err(_) => {
                proof {
                    assert(false);
                }
                return Err(DecodeError::ShortRead);
            },
        };
        let z = match read_f32_bits(c) {
            Ok(v_) => v_,
            Err(_) => {
                proof {
                    assert(false);
                }
                return Err(DecodeError::ShortRead);
            },
        };
        match c.seek_relative(4) {
            Ok(()) => (),
            Err(_) => {
                proof {
                    assert(false);
                }
                return Err(DecodeError::ShortRead);
            },
        }
        v.push([x, y, z]);
        proof {
            let t = spec_padded_triple_bits(old(c).bytes(), old(c).position(), i as int);
            assert([x, y, z]@ =~= t@);
            assert([x, y, z] == t);
        }
        i = i + 1;
    }
    Ok(v)
}

/// Converts a file offset computed in signed arithmetic to a position,
/// rejecting negative values and values beyond a machine word.
pub fn offset_to_pos(v: i128) -> (r: Result<usize, DecodeError>)
    ensures
        match r {
            Ok(p) => 0 <= v && p == v,
            Err(e) => {
                &&& e matches DecodeError::IndexOutOfRange { .. }
                &&& (v < 0 || v > usize::MAX)
            },
        },
{
    if v >= 0 && (v as u128) <= (usize::MAX as u128) {
        Ok(v as usize)
    } else {
        let clamped: i64 = if v > i64::MAX as i128 {
            i64::MAX
        } else if v < i64::MIN as i128 {
            i64::MIN
        } else {
            v as i64
        };
        Err(DecodeError::IndexOutOfRange { index: clamped, limit: usize::MAX as u64 })
    }
}

/// Where bone `i`'s name starts in the null-terminated name table that
/// begins at `base`: one past the previous name's terminator.
pub open spec fn spec_name_start(data: Seq<u8>, base: int, i: nat) -> int
    decreases i,
{
    if i == 0 {
        base
    } else {
        spec_nul_pos(data, spec_name_start(data, base, (i - 1) as nat)) + 1
    }
}

/// Name `k` of `names` is bone `k`'s null-terminated entry of the name
/// table at `n0`, mirrored through the fixed table when `mirror` is set.
pub open spec fn spec_name_ok(
    data: Seq<u8>,
    n0: int,
    mirror: bool,
    names: Seq<String>,
    k: int,
) -> bool {
    let start = spec_name_start(data, n0, k as nat);
    let raw = vstd::utf8::decode_utf8(data.subrange(start, spec_nul_pos(data, start)));
    if mirror {
        exists|j: int|
            0 <= j < spec_mirror_table().len() && (#[trigger] spec_mirror_table()[j]).0 == raw
                && names[k]@ == spec_mirror_table()[j].1
    } else {
        names[k]@ == raw
    }
}

/// A companion skeleton file the parser is bound to accept: the sentinel is
/// found with room for the header before it, the bone count is sane, every
/// table and pointer lands inside the buffer, every name is terminated and
/// valid text, and (when mirroring) every name is in the mirroring table.
pub open spec fn spec_skeleton_parseable(data: Seq<u8>, mirror: bool) -> bool {
    let q = spec_sentinel_pos(data, 0);
    let count = spec_i32_from_le_bytes(data.subrange(q - 8, q - 4)) as int;
    let np = spec_i32_from_le_bytes(data.subrange(q - 28, q - 24)) + q - 56;
    let n0 = np + spec_i32_from_le_bytes(data.subrange(np, np + 4)) - 16;
    let num9 = spec_i32_from_le_bytes(data.subrange(q - 24, q - 20)) + q - 56;
    let ss = spec_i32_from_le_bytes(data.subrange(num9 + 20, num9 + 24)) + num9;
    let off2 = spec_i32_from_le_bytes(data.subrange(ss, ss + 4)) + num9;
    let off3 = spec_i32_from_le_bytes(data.subrange(ss + 4, ss + 8)) + num9;
    &&& 28 <= q
    &&& q + 4 <= data.len()
    &&& 0 <= count
    &&& q + 4 * count <= data.len()
    &&& 0 <= np
    &&& np + 4 <= data.len()
    &&& 0 <= n0 <= data.len()
    &&& forall|i: int|
        0 <= i < count ==> ({
            let start = #[trigger] spec_name_start(data, n0, i as nat);
            let nul = spec_nul_pos(data, start);
            &&& nul < data.len()
            &&& vstd::utf8::valid_utf8(data.subrange(start, nul))
            &&& (mirror ==> exists|j: int|
                0 <= j < spec_mirror_table().len() && (#[trigger] spec_mirror_table()[j]).0
                    == vstd::utf8::decode_utf8(data.subrange(start, nul)))
        })
    &&& 0 <= num9
    &&& num9 + 24 <= data.len()
    &&& num9 + 20 <= usize::MAX
    &&& 0 <= ss
    &&& ss + 8 <= data.len()
    &&& 0 <= off3
    &&& off3 + 16 * count <= data.len()
    &&& 0 <= off2
    &&& off2 + 16 * count <= data.len()
}

/// Unpacks the per-name conditions of `spec_skeleton_parseable` for one
/// bone index.
pub proof fn lemma_skeleton_name_cond(data: Seq<u8>, mirror: bool, i: int)
    requires
        spec_skeleton_parseable(data, mirror),
        0 <= i < spec_i32_from_le_bytes(
            data.subrange(
                spec_sentinel_pos(data, 0) - 8,
                spec_sentinel_pos(data, 0) - 4,
            ),
        ),
    ensures
        ({
            let q = spec_sentinel_pos(data, 0);
            let np = spec_i32_from_le_bytes(data.subrange(q - 28, q - 24)) + q - 56;
            let n0 = np + spec_i32_from_le_bytes(data.subrange(np, np + 4)) - 16;
            let start = spec_name_start(data, n0, i as nat);
            let nul = spec_nul_pos(data, start);
            &&& nul < data.len()
            &&& vstd::utf8::valid_utf8(data.subrange(start, nul))
            &&& (mirror ==> exists|j: int|
                0 <= j < spec_mirror_table().len() && (#[trigger] spec_mirror_table()[j]).0
                    == vstd::utf8::decode_utf8(data.subrange(start, nul)))
        }),
{
    let q = spec_sentinel_pos(data, 0);
    let np = spec_i32_from_le_bytes(data.subrange(q - 28, q - 24)) + q - 56;
    let n0 = np + spec_i32_from_le_bytes(data.subrange(np, np + 4)) - 16;
    assert(spec_name_start(data, n0, i as nat) == spec_name_start(data, n0, i as nat));
}

/// Parses a whole companion skeleton file: scans for the bone-table
/// sentinel, backtracks a fixed 32 bytes to the table header, reads the
/// bone count and the flat parent-offset table, follows the file's own
/// pointers to the null-terminated name table and to the bind-pose rotation
/// and translation arrays. When `mirror` is set, every name is replaced by
/// its image under the fixed mirroring table, and a name missing from the
/// table is a hard error.
pub fn parse_skeleton(data: Vec<u8>, mirror: bool) -> (r: Result<Skeleton, DecodeError>)
    ensures
        spec_skeleton_parseable(data@, mirror) ==> r is Ok,
        match r {
            Ok(sk) => ({
                let q = spec_sentinel_pos(data@, 0);
                let np = spec_i32_from_le_bytes(data@.subrange(q - 28, q - 24)) + q - 56;
                let n0 = np + spec_i32_from_le_bytes(data@.subrange(np, np + 4)) - 16;
                let num9 = spec_i32_from_le_bytes(data@.subrange(q - 24, q - 20)) + q - 56;
                let ss = spec_i32_from_le_bytes(data@.subrange(num9 + 20, num9 + 24)) + num9;
                let off2 = spec_i32_from_le_bytes(data@.subrange(ss, ss + 4)) + num9;
                let off3 = spec_i32_from_le_bytes(data@.subrange(ss + 4, ss + 8)) + num9;
                &&& sk.wf()
                &&& 28 <= q
                &&& q + 4 <= data@.len()
                &&& sk.bone_count as int == spec_i32_from_le_bytes(data@.subrange(q - 8, q - 4))
                &&& spec_i32_from_le_bytes(data@.subrange(q - 8, q - 4)) >= 0
                &&& forall|k: int|
                    0 <= k < sk.bone_count ==> sk.parent_codes@[k] == spec_i32_from_le_bytes(
                        #[trigger] data@.subrange(q + 4 * k, q + 4 * k + 4),
                    )
                &&& forall|i: int|
                    0 <= i < sk.bone_count ==> #[trigger] spec_name_ok(
                        data@,
                        n0,
                        mirror,
                        sk.names@,
                        i,
                    )
                &&& forall|i: int|
                    0 <= i < sk.bone_count ==> #[trigger] sk.bind_rotation_bits@[i]
                        == spec_quat_bits(data@, off3, i)
                &&& forall|i: int|
                    0 <= i < sk.bone_count ==> #[trigger] sk.bind_translation_bits@[i]
                        == spec_padded_triple_bits(data@, off2, i)
            }),
            Err(e) => {
                ||| e == DecodeError::ShortRead
                ||| e matches DecodeError::IndexOutOfRange { .. }
                ||| e == DecodeError::InvalidUtf8
                ||| e == DecodeError::UnknownBoneName
            },
        },
{
    let ghost q = spec_sentinel_pos(data@, 0);
    let mut c = ByteCursor::new(data);
    find_sentinel(&mut c)?;
    c.seek_relative(-32)?;
    let off_raw = read_i32(&mut c)?;
    let name_ptr_i: i128 = off_raw as i128 + c.tell() as i128 - 32;
    let num9_raw = read_i32(&mut c)?;
    let num9_i: i128 = num9_raw as i128 + c.tell() as i128 - 36;
    c.seek_relative(12)?;
    let num10 = read_i32(&mut c)?;
    if num10 < 0 {
        return Err(DecodeError::IndexOutOfRange { index: num10 as i64, limit: 0 });
    }
    let bone_count = num10 as u32;
    c.seek_relative(4)?;
    let parent_codes = read_i32_array(&mut c, bone_count as usize)?;

    // The name table: a pointer at `name_ptr_i`, whose value (minus a fixed
    // 20-byte bias) is relative to the position after the pointer itself.
    let name_ptr = offset_to_pos(name_ptr_i)?;
    c.seek_absolute(name_ptr);
    let myst = read_i32(&mut c)?;
    c.seek_relative(myst as i64 - 20)?;
    if c.tell() > c.len() {
        return Err(DecodeError::ShortRead);
    }
    let ghost n0 = c.position();
    proof {
        let np = spec_i32_from_le_bytes(data@.subrange(q - 28, q - 24)) + q - 56;
        assert(n0 == np + spec_i32_from_le_bytes(data@.subrange(np, np + 4)) - 16);
    }
    let table = get_mirrored_bones();
    let mut names: Vec<String> = Vec::new();
    let mut i: usize = 0;
    while i < bone_count as usize
        invariant
            i <= bone_count,
            names@.len() == i,
            c.bytes() == data@,
            c.position() <= c.bytes().len(),
            c.position() == spec_name_start(data@, n0, i as nat),
            q == spec_sentinel_pos(data@, 0),
            spec_skeleton_parseable(data@, mirror) ==> ({
                let np = spec_i32_from_le_bytes(data@.subrange(q - 28, q - 24)) + q - 56;
                &&& n0 == np + spec_i32_from_le_bytes(data@.subrange(np, np + 4)) - 16
                &&& bone_count as int == spec_i32_from_le_bytes(data@.subrange(q - 8, q - 4))
            }),
            table@.len() == spec_mirror_table().len(),
            forall|j: int|
                0 <= j < table@.len() ==> ((#[trigger] table@[j]).0@, table@[j].1@)
                    == spec_mirror_table()[j],
            forall|k: int|
                0 <= k < i ==> #[trigger] spec_name_ok(data@, n0 as int, mirror, names@, k),
        decreases bone_count - i,
    {
        proof {
            if spec_skeleton_parseable(data@, mirror) {
                let np = spec_i32_from_le_bytes(data@.subrange(q - 28, q - 24)) + q - 56;
                let n0f = np + spec_i32_from_le_bytes(data@.subrange(np, np + 4)) - 16;
                assert(n0 == n0f);
                assert(i < spec_i32_from_le_bytes(data@.subrange(q - 8, q - 4)));
                lemma_skeleton_name_cond(data@, mirror, i as int);
                let start = spec_name_start(data@, n0f, i as nat);
                assert(spec_nul_pos(data@, start) < data@.len() && vstd::utf8::valid_utf8(
                    data@.subrange(start, spec_nul_pos(data@, start)),
                ));
            }
        }
        let ghost start_i = c.position();
        let raw_name = read_name(&mut c)?;
        let ghost raw_view = raw_name@;
        let ghost pre_names = names@;
        proof {
            assert(spec_name_start(data@, n0, (i + 1) as nat) == spec_nul_pos(data@, start_i) + 1);
        }
        if mirror {
            match lookup_mirrored(&table, raw_name.as_str()) {
                Some(m) => {
                    let owned = String::from_str(m);
                    proof {
                        let w = choose|w: int|
                            0 <= w < table@.len() && (#[trigger] table@[w]).0@ == raw_view
                                && table@[w].1@ == m@;
                        assert(0 <= w < spec_mirror_table().len());
                        assert(spec_mirror_table()[w].0 == raw_view);
                        assert(owned@ == spec_mirror_table()[w].1);
                    }
                    names.push(owned);
                    proof {
                        let w = choose|w: int|
                            0 <= w < spec_mirror_table().len() && (
                            #[trigger] spec_mirror_table()[w]).0 == raw_view && names@[
                            i as int]@ == spec_mirror_table()[w].1;
                        assert(0 <= w < spec_mirror_table().len() && spec_mirror_table()[w].0
                            == raw_view && names@[i as int]@ == spec_mirror_table()[w].1);
                    }
                },
                None => {
                    proof {
                        if spec_skeleton_parseable(data@, mirror) {
                            let np = spec_i32_from_le_bytes(data@.subrange(q - 28, q - 24)) + q
                                - 56;
                            let n0f = np + spec_i32_from_le_bytes(data@.subrange(np, np + 4)) - 16;
                            lemma_skeleton_name_cond(data@, mirror, i as int);
                            let start = spec_name_start(data@, n0f, i as nat);
                            let raw = vstd::utf8::decode_utf8(
                                data@.subrange(start, spec_nul_pos(data@, start)),
                            );
                            assert(raw == raw_view);
                            let jj = choose|j: int|
                                0 <= j < spec_mirror_table().len() && (
                                #[trigger] spec_mirror_table()[j]).0 == raw;
                            assert(((table@[jj]).0@, table@[jj].1@) == spec_mirror_table()[jj]);
                            assert(table@[jj].0@ == raw_view);
                            assert(false);
                        }
                    }
                    return Err(DecodeError::UnknownBoneName);
                },
            }
        } else {
            names.push(raw_name);
        }
        proof {
            assert forall|k: int| 0 <= k < i + 1 implies #[trigger] spec_name_ok(
                data@,
                n0 as int,
                mirror,
                names@,
                k,
            ) by {
                let start = spec_name_start(data@, n0, k as nat);
                let raw = vstd::utf8::decode_utf8(
                    data@.subrange(start, spec_nul_pos(data@, start)),
                );
                if k < i {
                    assert(spec_name_ok(data@, n0 as int, mirror, pre_names, k));
                    assert(names@[k] == pre_names[k]);
                    if mirror {
                        let j0 = choose|j: int|
                            0 <= j < spec_mirror_table().len() && (
                            #[trigger] spec_mirror_table()[j]).0 == raw && pre_names[k]@
                                == spec_mirror_table()[j].1;
                        assert(0 <= j0 < spec_mirror_table().len() && spec_mirror_table()[j0].0
                            == raw && names@[k]@ == spec_mirror_table()[j0].1);
                    } else {
                        assert(names@[k]@ == raw);
                    }
                } else {
                    assert(start == start_i);
                    assert(raw == raw_view);
                    if mirror {
                        let j0 = choose|j: int|
                            0 <= j < spec_mirror_table().len() && (
                            #[trigger] spec_mirror_table()[j]).0 == raw_view && names@[
                            i as int]@ == spec_mirror_table()[j].1;
                        assert(0 <= j0 < spec_mirror_table().len() && spec_mirror_table()[j0].0
                            == raw && names@[k]@ == spec_mirror_table()[j0].1);
                    } else {
                        assert(names@[k]@ == raw);
                    }
                }
            }
        }
        i = i + 1;
    }

    // The bind pose: a chain of relative pointers to the rotation and
    // translation arrays.
    let num9 = offset_to_pos(num9_i)?;
    if num9 > usize::MAX - 20 {
        return Err(DecodeError::ShortRead);
    }
    c.seek_absolute(num9 + 20);
    let sd_raw = read_i32(&mut c)?;
    let space_start = offset_to_pos(sd_raw as i128 + c.tell() as i128 - 24)?;
    c.seek_absolute(space_start);
    let off2_raw = read_i32(&mut c)?;
    let offset2 = offset_to_pos(off2_raw as i128 + num9 as i128)?;
    let off3_raw = read_i32(&mut c)?;
    let offset3 = offset_to_pos(off3_raw as i128 + num9 as i128)?;
    c.seek_absolute(offset3);
    let bind_rotation_bits = read_quat_bits_array(&mut c, bone_count as usize)?;
    c.seek_absolute(offset2);
    let bind_translation_bits = read_translation_bits_array(&mut c, bone_count as usize)?;

    Ok(Skeleton { bone_count, parent_codes, names, bind_rotation_bits, bind_translation_bits })
}

} // verus!
