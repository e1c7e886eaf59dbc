use vstd::prelude::*;
use vstd::string::StrSliceExecFns;
use crate::text::{chars_to_string, str_chars};

verus! {

/// One speech clip: its asset naming, its speech classification tags, and
/// whether a mouth animation accompanies it.
#[derive(Clone, PartialEq, Eq, Debug)]
pub struct Clip {
    pub asset_name: String,
    pub asset_folder: String,
    pub speech_tag: String,
    pub speech_type: String,
    pub sentiment: String,
    pub intensity: String,
    pub animate: bool,
}

/// The default for a clip whose source entry leaves animation unset.
pub fn default_bool_true() -> (r: Option<bool>)
    ensures
        r == Some(true),
{
    Some(true)
}

/// The fixed speech-tag to asset-folder table; every supported tag must
/// appear here.
pub fn create_tag_to_folder_map() -> (r: Vec<(&'static str, &'static str)>)
    ensures
        r@.len() == 11,
{
    let mut map: Vec<(&'static str, &'static str)> = Vec::new();
    map.push(("greeting", "greetings"));
    map.push(("hmm", "hmms"));
    map.push(("oh", "hmms"));
    map.push(("lookAtThis", "look_at_this"));
    map.push(("smelly", "smelly"));
    map.push(("foundMoney", "found_money"));
    map.push(("catchMoney", "chirps"));
    map.push(("playerFoundMoney", "chirps"));
    map.push(("toss", "toss"));
    map.push(("chirp", "chirps"));
    map.push(("body", "body"));
    map
}

/// What `char::to_uppercase` yields for one character; a function of the
/// character alone.
pub uninterp spec fn upper_of(c: char) -> Seq<char>;

/// Relies on `char::to_uppercase`: the result depends on the character
/// alone, it always yields at least one character, and an ASCII lowercase
/// letter maps to its single uppercase counterpart.
#[verifier::external_body]
fn uppercase_char(c: char) -> (r: Vec<char>)
    ensures
        r@ == upper_of(c),
        r@.len() >= 1,
        'a' <= c <= 'z' ==> r@ =~= seq![((c as u8) - 0x20) as char],
{
    c.to_uppercase().collect()
}

/// A string with its first character uppercased.
pub open spec fn spec_capitalized(s: Seq<char>) -> Seq<char> {
    if s.len() == 0 {
        Seq::empty()
    } else {
        upper_of(s[0]) + s.drop_first()
    }
}

/// Uppercases the first character, leaving the rest unchanged. The result
/// is never shorter than the input: an uppercase mapping has at least one
/// character.
pub fn capitalize_first(s: &str) -> (r: String)
    ensures
        r@ == spec_capitalized(s@),
        r@.len() >= s@.len(),
{
    let cs = str_chars(s);
    if cs.len() == 0 {
        let out: Vec<char> = Vec::new();
        return chars_to_string(&out);
    }
    let mut out = uppercase_char(cs[0]);
    let mut i: usize = 1;
    while i < cs.len()
        invariant
            1 <= i <= cs@.len(),
            cs@ == s@,
            out@ =~= upper_of(cs@[0]) + cs@.subrange(1, i as int),
        decreases cs@.len() - i,
    {
        out.push(cs[i]);
        proof {
            assert(cs@.subrange(1, i + 1) =~= cs@.subrange(1, i as int).push(cs@[i as int]));
        }
        i = i + 1;
    }
    proof {
        assert(cs@.subrange(1, cs@.len() as int) =~= cs@.drop_first());
    }
    chars_to_string(&out)
}

/// The sound-event entry of one clip.
pub open spec fn spec_vsnd_clip(c: &Clip) -> Seq<char> {
    "\t"@ + "liz_clip_"@ + c.asset_folder@ + "_"@ + c.asset_name@ + " =\n"@ + "\t{\n"@
        + "\t\ttype = \"destinations.simple_vr\"\n"@ + "\t\tvolume = 1\n"@ + "\t\tpitch = 1\n"@
        + "\t\tdelay = 0\n"@ + "\t\tuse_hrtf = 1\n"@ + "\t\tvolume_falloff_min = 100\n"@
        + "\t\tvolume_falloff_max = 1000\n"@ + "\t\tvsnd_files = \""@ + "sounds/elizabeth"@ + "/"@
        + c.asset_folder@ + "/"@ + c.asset_name@ + ".vsnd\"\n"@ + "\t}\n"@
}

/// The sound-event entries of a clip list, in order.
pub open spec fn spec_vsnd_clips(clips: Seq<Clip>) -> Seq<char>
    decreases clips.len(),
{
    if clips.len() == 0 {
        Seq::empty()
    } else {
        spec_vsnd_clips(clips.drop_last()) + spec_vsnd_clip(&clips.last())
    }
}

/// The whole generated sound-event file for the clips, in the order given.
pub open spec fn spec_vsnd_output(clips: Seq<Clip>) -> Seq<char> {
    "\t//////////////////////////////////////////////////////////\n"@
        + "\t// Elizabeth - CODE GENERATED CLIPS DATA. DO NOT EDIT.\n"@
        + "\t//////////////////////////////////////////////////////////\n\n"@ + spec_vsnd_clips(
        clips,
    )
}

/// Appends every character of `s`.
fn push_text(out: &mut Vec<char>, s: &str)
    ensures
        final(out)@ == old(out)@ + s@,
{
    let cs = str_chars(s);
    let mut i: usize = 0;
    while i < cs.len()
        invariant
            i <= cs@.len(),
            cs@ == s@,
            out@ =~= old(out)@ + cs@.take(i as int),
        decreases cs@.len() - i,
    {
        out.push(cs[i]);
        proof {
            assert(cs@.take(i + 1) =~= cs@.take(i as int).push(cs@[i as int]));
        }
        i = i + 1;
    }
    proof {
        assert(cs@.take(cs@.len() as int) =~= cs@);
    }
}

/// Renders the sound-event file for the clips exactly in the order given.
#[verifier::rlimit(100)]
pub fn render_vsnd_clips(clips: &Vec<Clip>) -> (r: String)
    ensures
        r@ == spec_vsnd_output(clips@),
{
    let mut out: Vec<char> = Vec::new();
    push_text(&mut out, "\t//////////////////////////////////////////////////////////\n");
    push_text(&mut out, "\t// Elizabeth - CODE GENERATED CLIPS DATA. DO NOT EDIT.\n");
    push_text(&mut out, "\t//////////////////////////////////////////////////////////\n\n");
    let ghost head = out@;
    let mut i: usize = 0;
    while i < clips.len()
        invariant
            i <= clips@.len(),
            out@ == head + spec_vsnd_clips(clips@.take(i as int)),
        decreases clips@.len() - i,
    {
        let c = &clips[i];
        push_text(&mut out, "\t");
        push_text(&mut out, "liz_clip_");
        push_text(&mut out, c.asset_folder.as_str());
        push_text(&mut out, "_");
        push_text(&mut out, c.asset_name.as_str());
        push_text(&mut out, " =\n");
        push_text(&mut out, "\t{\n");
        push_text(&mut out, "\t\ttype = \"destinations.simple_vr\"\n");
        push_text(&mut out, "\t\tvolume = 1\n");
        push_text(&mut out, "\t\tpitch = 1\n");
        push_text(&mut out, "\t\tdelay = 0\n");
        push_text(&mut out, "\t\tuse_hrtf = 1\n");
        push_text(&mut out, "\t\tvolume_falloff_min = 100\n");
        push_text(&mut out, "\t\tvolume_falloff_max = 1000\n");
        push_text(&mut out, "\t\tvsnd_files = \"");
        push_text(&mut out, "sounds/elizabeth");
        push_text(&mut out, "/");
        push_text(&mut out, c.asset_folder.as_str());
        push_text(&mut out, "/");
        push_text(&mut out, c.asset_name.as_str());
        push_text(&mut out, ".vsnd\"\n");
        push_text(&mut out, "\t}\n");
        proof {
            assert(clips@.take(i + 1).drop_last() =~= clips@.take(i as int));
            assert(clips@.take(i + 1).last() == clips@[i as int]);
            assert(out@ =~= head + spec_vsnd_clips(clips@.take(i + 1)));
        }
        i = i + 1;
    }
    proof {
        assert(clips@.take(clips@.len() as int) =~= clips@);
    }
    chars_to_string(&out)
}

/// One tag argument of the generated registration call: the capitalized
/// tag behind its enum alias, or `null` for an empty tag.
pub open spec fn spec_ts_tag(alias: Seq<char>, tag: Seq<char>) -> Seq<char> {
    if tag.len() == 0 {
        "null, "@
    } else {
        alias + "."@ + spec_capitalized(tag) + ", "@
    }
}

/// The animation argument: the frame rate and keyframe list for an
/// animated clip, an empty animation otherwise.
pub open spec fn spec_ts_anim(animate: bool, keyframes: Seq<char>) -> Seq<char> {
    if animate {
        "60"@ + ", "@ + "["@ + keyframes + "]"@
    } else {
        "0, []"@
    }
}

/// The registration call of one clip; `keyframes` is the clip's rendered
/// keyframe list.
pub open spec fn spec_ts_clip(c: &Clip, keyframes: Seq<char>) -> Seq<char> {
    "r("@ + "'"@ + "liz_clip_"@ + c.asset_folder@ + "_"@ + c.asset_name@ + "', "@ + "'"@
        + "sounds/elizabeth"@ + "/"@ + c.asset_folder@ + "/"@ + c.asset_name@ + ".vsnd', "@
        + spec_ts_tag("T"@, c.speech_tag@) + spec_ts_tag("Y"@, c.speech_type@) + spec_ts_tag(
        "S"@,
        c.sentiment@,
    ) + spec_ts_tag("I"@, c.intensity@) + spec_ts_anim(c.animate, keyframes) + ");\n"@
}

/// The registration calls of a clip list, in order; entry `i` of
/// `keyframes` belongs to clip `i`.
pub open spec fn spec_ts_clips(clips: Seq<Clip>, keyframes: Seq<Seq<char>>) -> Seq<char>
    decreases clips.len(),
{
    if clips.len() == 0 || clips.len() != keyframes.len() {
        Seq::empty()
    } else {
        spec_ts_clips(clips.drop_last(), keyframes.drop_last()) + spec_ts_clip(
            &clips.last(),
            keyframes.last(),
        )
    }
}

/// The whole generated registration file, in the order given.
pub open spec fn spec_ts_output(clips: Seq<Clip>, keyframes: Seq<Seq<char>>) -> Seq<char> {
    "// CODE GENERATED CLIPS DATA. DO NOT EDIT.\n\n"@
        + "import { registerSpeechClip as r, LizSpeechTag as T, LizSpeechType as Y, "@
        + "LizSpeechSentiment as S, LizSpeechIntensity as I } from '../lizSpeech';\n\n"@
        + spec_ts_clips(clips, keyframes)
}

/// Appends one tag argument.
fn push_tag(out: &mut Vec<char>, alias: &str, tag: &String)
    ensures
        final(out)@ == old(out)@ + spec_ts_tag(alias@, tag@),
{
    if tag.as_str().unicode_len() == 0 {
        push_text(out, "null, ");
        proof {
            assert(tag@.len() == 0);
        }
    } else {
        push_text(out, alias);
        push_text(out, ".");
        let cap = capitalize_first(tag.as_str());
        push_text(out, cap.as_str());
        push_text(out, ", ");
    }
}

/// Renders the registration file for the clips exactly in the order given;
/// `keyframes[i]` is clip `i`'s rendered keyframe list, used only when that
/// clip is animated.
/// The registration call of one clip, rendered.
#[verifier::rlimit(60)]
fn render_ts_clip(c: &Clip, keyframes: &String) -> (v: Vec<char>)
    ensures
        v@ == spec_ts_clip(c, keyframes@),
{
    let mut out: Vec<char> = Vec::new();
    push_text(&mut out, "r(");
    push_text(&mut out, "'");
    push_text(&mut out, "liz_clip_");
    push_text(&mut out, c.asset_folder.as_str());
    push_text(&mut out, "_");
    push_text(&mut out, c.asset_name.as_str());
    push_text(&mut out, "', ");
    push_text(&mut out, "'");
    push_text(&mut out, "sounds/elizabeth");
    push_text(&mut out, "/");
    push_text(&mut out, c.asset_folder.as_str());
    push_text(&mut out, "/");
    push_text(&mut out, c.asset_name.as_str());
    push_text(&mut out, ".vsnd', ");
    push_tag(&mut out, "T", &c.speech_tag);
    push_tag(&mut out, "Y", &c.speech_type);
    push_tag(&mut out, "S", &c.sentiment);
    push_tag(&mut out, "I", &c.intensity);
    if c.animate {
        push_text(&mut out, "60");
        push_text(&mut out, ", ");
        push_text(&mut out, "[");
        push_text(&mut out, keyframes.as_str());
        push_text(&mut out, "]");
    } else {
        push_text(&mut out, "0, []");
    }
    push_text(&mut out, ");\n");
    proof {
        assert(out@ =~= spec_ts_clip(c, keyframes@));
    }
    out
}

/// Appends every character of `extra`.
fn append_chars(out: &mut Vec<char>, extra: &Vec<char>)
    ensures
        final(out)@ == old(out)@ + extra@,
{
    let mut i: usize = 0;
    while i < extra.len()
        invariant
            i <= extra@.len(),
            out@ =~= old(out)@ + extra@.take(i as int),
        decreases extra@.len() - i,
    {
        out.push(extra[i]);
        proof {
            assert(extra@.take(i + 1) =~= extra@.take(i as int).push(extra@[i as int]));
        }
        i = i + 1;
    }
    proof {
        assert(extra@.take(extra@.len() as int) =~= extra@);
    }
}

/// Renders the registration file for the clips exactly in the order given;
/// `keyframes[i]` is clip `i`'s rendered keyframe list, used only when that
/// clip is animated.
pub fn render_typescript_clips(clips: &Vec<Clip>, keyframes: &Vec<String>) -> (r: String)
    requires
        clips@.len() == keyframes@.len(),
    ensures
        r@ == spec_ts_output(clips@, keyframes@.map_values(|s: String| s@)),
{
    let ghost kf = keyframes@.map_values(|s: String| s@);
    let mut out: Vec<char> = Vec::new();
    push_text(&mut out, "// CODE GENERATED CLIPS DATA. DO NOT EDIT.\n\n");
    push_text(&mut out, "import { registerSpeechClip as r, LizSpeechTag as T, LizSpeechType as Y, ");
    push_text(
        &mut out,
        "LizSpeechSentiment as S, LizSpeechIntensity as I } from '../lizSpeech';\n\n",
    );
    let ghost head = out@;
    let mut i: usize = 0;
    while i < clips.len()
        invariant
            i <= clips@.len(),
            clips@.len() == keyframes@.len(),
            kf == keyframes@.map_values(|s: String| s@),
            out@ == head + spec_ts_clips(clips@.take(i as int), kf.take(i as int)),
        decreases clips@.len() - i,
    {
        let piece = render_ts_clip(&clips[i], &keyframes[i]);
        append_chars(&mut out, &piece);
        proof {
            assert(clips@.take(i + 1).drop_last() =~= clips@.take(i as int));
            assert(kf.take(i + 1).drop_last() =~= kf.take(i as int));
            assert(clips@.take(i + 1).last() == clips@[i as int]);
            assert(kf.take(i + 1).last() == kf[i as int]);
            assert(kf[i as int] == keyframes@[i as int]@);
            assert(out@ =~= head + spec_ts_clips(clips@.take(i + 1), kf.take(i + 1)));
        }
        i = i + 1;
    }
    proof {
        assert(clips@.take(clips@.len() as int) =~= clips@);
        assert(kf.take(kf.len() as int) =~= kf);
    }
    chars_to_string(&out)
}

/// Byte-wise lexicographic order on the sort keys used below.
pub open spec fn spec_bytes_le(a: Seq<u8>, b: Seq<u8>) -> bool
    decreases a.len(),
{
    if a.len() == 0 {
        true
    } else if b.len() == 0 {
        false
    } else if a[0] < b[0] {
        true
    } else if a[0] > b[0] {
        false
    } else {
        spec_bytes_le(a.drop_first(), b.drop_first())
    }
}

/// Decides the byte-wise lexicographic order.
pub fn bytes_le(a: &Vec<u8>, b: &Vec<u8>) -> (r: bool)
    ensures
        r == spec_bytes_le(a@, b@),
{
    let mut i: usize = 0;
    proof {
        assert(a@.subrange(0, a@.len() as int) =~= a@);
        assert(b@.subrange(0, b@.len() as int) =~= b@);
    }
    loop
        invariant_except_break
            i <= a@.len(),
            i <= b@.len(),
            spec_bytes_le(a@, b@) == spec_bytes_le(
                a@.subrange(i as int, a@.len() as int),
                b@.subrange(i as int, b@.len() as int),
            ),
        ensures
            spec_bytes_le(a@, b@) == ({
                let ra = a@.subrange(i as int, a@.len() as int);
                let rb = b@.subrange(i as int, b@.len() as int);
                spec_bytes_le(ra, rb)
            }),
            i <= a@.len() && i <= b@.len(),
            i >= a@.len() || i >= b@.len() || a@[i as int] != b@[i as int],
        decreases a@.len() - i,
    {
        if i >= a.len() || i >= b.len() {
            break ;
        }
        if a[i] != b[i] {
            break ;
        }
        proof {
            let ra = a@.subrange(i as int, a@.len() as int);
            let rb = b@.subrange(i as int, b@.len() as int);
            assert(ra.drop_first() =~= a@.subrange(i + 1, a@.len() as int));
            assert(rb.drop_first() =~= b@.subrange(i + 1, b@.len() as int));
        }
        i = i + 1;
    }
    proof {
        let ra = a@.subrange(i as int, a@.len() as int);
        let rb = b@.subrange(i as int, b@.len() as int);
        if i >= a.len() {
            assert(ra.len() == 0);
        } else if i >= b.len() {
            assert(rb.len() == 0);
        } else {
            assert(ra[0] == a@[i as int] && rb[0] == b@[i as int]);
        }
    }
    if i >= a.len() {
        true
    } else if i >= b.len() {
        false
    } else {
        a[i] < b[i]
    }
}

/// The order is reflexive.
pub proof fn lemma_bytes_le_refl(a: Seq<u8>)
    ensures
        spec_bytes_le(a, a),
    decreases a.len(),
{
    if a.len() > 0 {
        lemma_bytes_le_refl(a.drop_first());
    }
}

/// The order is total.
pub proof fn lemma_bytes_le_total(a: Seq<u8>, b: Seq<u8>)
    ensures
        spec_bytes_le(a, b) || spec_bytes_le(b, a),
    decreases a.len(),
{
    if a.len() > 0 && b.len() > 0 && a[0] == b[0] {
        lemma_bytes_le_total(a.drop_first(), b.drop_first());
    }
}

/// The order is transitive.
pub proof fn lemma_bytes_le_trans(a: Seq<u8>, b: Seq<u8>, c: Seq<u8>)
    requires
        spec_bytes_le(a, b),
        spec_bytes_le(b, c),
    ensures
        spec_bytes_le(a, c),
    decreases a.len(),
{
    if a.len() > 0 {
        if a[0] == b[0] && b[0] == c[0] {
            lemma_bytes_le_trans(a.drop_first(), b.drop_first(), c.drop_first());
        }
    }
}

/// A clip's sort key: its folder's bytes, an underscore, its name's bytes.
pub open spec fn spec_clip_key(c: Clip) -> Seq<u8> {
    vstd::utf8::encode_utf8(c.asset_folder@) + seq![0x5Fu8] + vstd::utf8::encode_utf8(
        c.asset_name@,
    )
}

/// Clips stand in nondecreasing key order.
pub open spec fn clips_sorted(s: Seq<Clip>) -> bool {
    forall|i: int, j: int|
        0 <= i < j < s.len() ==> spec_bytes_le(
            spec_clip_key(#[trigger] s[i]),
            spec_clip_key(#[trigger] s[j]),
        )
}

/// A clip's sort key: its folder, an underscore, its name, as bytes.
pub fn clip_key(c: &Clip) -> (r: Vec<u8>)
    ensures
        r@ == spec_clip_key(*c),
{
    let mut k = c.asset_folder.as_str().as_bytes_vec();
    k.push(0x5F);
    let mut n = c.asset_name.as_str().as_bytes_vec();
    k.append(&mut n);
    proof {
        assert(k@ =~= spec_clip_key(*c));
    }
    k
}

/// Clips paired with their keyframe texts, position by position.
pub open spec fn spec_clip_pairs(clips: Seq<Clip>, keyframes: Seq<String>) -> Seq<(Clip, String)> {
    Seq::new(clips.len(), |i: int| (clips[i], keyframes[i]))
}

/// Sorts clips (and their aligned keyframe texts) by folder-and-name key.
/// The output is a sorted reordering of the input pairs: each clip keeps
/// its own keyframe text, and clips of equal key keep no promised relative
/// order.
pub fn sort_clips(clips: Vec<Clip>, keyframes: Vec<String>) -> (r: (Vec<Clip>, Vec<String>))
    requires
        clips@.len() == keyframes@.len(),
    ensures
        r.0@.len() == clips@.len(),
        r.1@.len() == keyframes@.len(),
        r.0@.to_multiset() == clips@.to_multiset(),
        spec_clip_pairs(r.0@, r.1@).to_multiset() == spec_clip_pairs(
            clips@,
            keyframes@,
        ).to_multiset(),
        clips_sorted(r.0@),
{
    let ghost all_pairs = spec_clip_pairs(clips@, keyframes@);
    let mut src_c = clips;
    let mut src_k = keyframes;
    let mut out_c: Vec<Clip> = Vec::new();
    let mut out_k: Vec<String> = Vec::new();
    proof {
        broadcast use vstd::seq_lib::group_to_multiset_ensures;
        assert(out_c@.to_multiset().len() == 0);
        assert(out_c@.to_multiset() =~= vstd::multiset::Multiset::<Clip>::empty());
        assert(out_c@.to_multiset().add(src_c@.to_multiset()) =~= src_c@.to_multiset());
        let zo = spec_clip_pairs(out_c@, out_k@);
        assert(zo.to_multiset().len() == 0);
        assert(zo.to_multiset() =~= vstd::multiset::Multiset::<(Clip, String)>::empty());
        assert(spec_clip_pairs(src_c@, src_k@) =~= all_pairs);
        assert(zo.to_multiset().add(spec_clip_pairs(src_c@, src_k@).to_multiset())
            =~= all_pairs.to_multiset());
    }
    while src_c.len() > 0
        invariant
            src_c@.len() == src_k@.len(),
            out_c@.len() == out_k@.len(),
            out_c@.len() + src_c@.len() == clips@.len(),
            out_k@.len() + src_k@.len() == keyframes@.len(),
            out_c@.to_multiset().add(src_c@.to_multiset()) == clips@.to_multiset(),
            all_pairs == spec_clip_pairs(clips@, keyframes@),
            spec_clip_pairs(out_c@, out_k@).to_multiset().add(
                spec_clip_pairs(src_c@, src_k@).to_multiset(),
            ) == all_pairs.to_multiset(),
            clips_sorted(out_c@),
            forall|i: int, j: int|
                0 <= i < out_c@.len() && 0 <= j < src_c@.len() ==> spec_bytes_le(
                    spec_clip_key(#[trigger] out_c@[i]),
                    spec_clip_key(#[trigger] src_c@[j]),
                ),
        decreases src_c@.len(),
    {
        // Pick the smallest remaining key.
        let mut best: usize = 0;
        let mut best_key = clip_key(&src_c[0]);
        proof {
            lemma_bytes_le_refl(spec_clip_key(src_c@[0]));
        }
        let mut j: usize = 1;
        while j < src_c.len()
            invariant
                1 <= j <= src_c@.len(),
                best < j,
                best_key@ == spec_clip_key(src_c@[best as int]),
                forall|t: int|
                    0 <= t < j ==> spec_bytes_le(
                        spec_clip_key(src_c@[best as int]),
                        spec_clip_key(#[trigger] src_c@[t]),
                    ),
            decreases src_c@.len() - j,
        {
            let key_j = clip_key(&src_c[j]);
            if bytes_le(&key_j, &best_key) && !bytes_le(&best_key, &key_j) {
                proof {
                    let kj = spec_clip_key(src_c@[j as int]);
                    assert forall|t: int| 0 <= t < j + 1 implies spec_bytes_le(
                        kj,
                        spec_clip_key(#[trigger] src_c@[t]),
                    ) by {
                        if t < j {
                            lemma_bytes_le_trans(
                                kj,
                                spec_clip_key(src_c@[best as int]),
                                spec_clip_key(src_c@[t]),
                            );
                        } else {
                            lemma_bytes_le_refl(kj);
                        }
                    }
                }
                best = j;
                best_key = key_j;
            } else {
                proof {
                    let kb = spec_clip_key(src_c@[best as int]);
                    let kj = spec_clip_key(src_c@[j as int]);
                    lemma_bytes_le_total(kb, kj);
                    assert(spec_bytes_le(kb, kj));
                }
            }
            j = j + 1;
        }
        let ghost pre_src = src_c@;
        let ghost pre_out = out_c@;
        let ghost pre_zs = spec_clip_pairs(src_c@, src_k@);
        let ghost pre_zo = spec_clip_pairs(out_c@, out_k@);
        let c = src_c.remove(best);
        let k = src_k.remove(best);
        out_c.push(c);
        out_k.push(k);
        proof {
            broadcast use vstd::seq_lib::group_to_multiset_ensures;
            assert(pre_src[best as int] == c);
            assert(pre_src.contains(c));
            assert(pre_src.to_multiset().count(c) > 0);
            assert(out_c@.to_multiset() =~= pre_out.to_multiset().insert(c));
            assert(src_c@.to_multiset() =~= pre_src.to_multiset().remove(c));
            assert(out_c@.to_multiset().add(src_c@.to_multiset()) =~= pre_out.to_multiset().add(
                pre_src.to_multiset(),
            ));
            assert(spec_clip_pairs(src_c@, src_k@) =~= pre_zs.remove(best as int));
            assert(spec_clip_pairs(out_c@, out_k@) =~= pre_zo.push((c, k)));
            assert(pre_zs[best as int] == (c, k));
            assert(pre_zs.contains((c, k)));
            assert(pre_zs.to_multiset().count((c, k)) > 0);
            assert(spec_clip_pairs(out_c@, out_k@).to_multiset() =~= pre_zo.to_multiset().insert(
                (c, k),
            ));
            assert(spec_clip_pairs(src_c@, src_k@).to_multiset() =~= pre_zs.to_multiset().remove(
                (c, k),
            ));
            assert(spec_clip_pairs(out_c@, out_k@).to_multiset().add(
                spec_clip_pairs(src_c@, src_k@).to_multiset(),
            ) =~= pre_zo.to_multiset().add(pre_zs.to_multiset()));
            // The removed clip had the least key: order and cross bounds
            // survive the transfer.
            assert forall|i_: int, j_: int|
                0 <= i_ < out_c@.len() && 0 <= j_ < src_c@.len() implies spec_bytes_le(
                spec_clip_key(#[trigger] out_c@[i_]),
                spec_clip_key(#[trigger] src_c@[j_]),
            ) by {
                let shifted = if j_ < best as int {
                    j_
                } else {
                    j_ + 1
                };
                assert(src_c@[j_] == pre_src[shifted]);
                if i_ < out_c@.len() - 1 {
                    assert(out_c@[i_] == pre_out[i_]);
                } else {
                    assert(out_c@[i_] == c);
                }
            }
            assert(clips_sorted(out_c@)) by {
                assert forall|i_: int, j_: int| 0 <= i_ < j_ < out_c@.len() implies spec_bytes_le(
                    spec_clip_key(#[trigger] out_c@[i_]),
                    spec_clip_key(#[trigger] out_c@[j_]),
                ) by {
                    if j_ < out_c@.len() - 1 {
                        assert(out_c@[i_] == pre_out[i_] && out_c@[j_] == pre_out[j_]);
                    } else {
                        assert(out_c@[i_] == pre_out[i_] && out_c@[j_] == c);
                        assert(pre_src[best as int] == c);
                    }
                }
            }
        }
    }
    proof {
        broadcast use vstd::seq_lib::group_to_multiset_ensures;
        assert(src_c@.to_multiset().len() == 0);
        assert(src_c@.to_multiset() =~= vstd::multiset::Multiset::<Clip>::empty());
        assert(out_c@.to_multiset().add(src_c@.to_multiset()) =~= out_c@.to_multiset());
        let zs = spec_clip_pairs(src_c@, src_k@);
        assert(zs.to_multiset().len() == 0);
        assert(zs.to_multiset() =~= vstd::multiset::Multiset::<(Clip, String)>::empty());
        assert(spec_clip_pairs(out_c@, out_k@).to_multiset().add(zs.to_multiset())
            =~= spec_clip_pairs(out_c@, out_k@).to_multiset());
    }
    (out_c, out_k)
}

/// Generates the registration file: the clips sorted by folder-and-name
/// key, then rendered. The output is the rendering of some reordering of
/// the input.
pub fn codegen_typescript_clips(clips: Vec<Clip>, keyframes: Vec<String>) -> (r: String)
    requires
        clips@.len() == keyframes@.len(),
    ensures
        exists|s: Seq<Clip>, k: Seq<String>|
            #[trigger] spec_clip_pairs(s, k).to_multiset() == spec_clip_pairs(
                clips@,
                keyframes@,
            ).to_multiset() && s.len() == k.len() && clips_sorted(s) && r@ == spec_ts_output(
                s,
                k.map_values(|t: String| t@),
            ),
{
    let ghost all_pairs = spec_clip_pairs(clips@, keyframes@);
    let (sc, sk) = sort_clips(clips, keyframes);
    let r = render_typescript_clips(&sc, &sk);
    proof {
        let s = sc@;
        let k = sk@;
        assert(spec_clip_pairs(s, k).to_multiset() == all_pairs.to_multiset() && s.len()
            == k.len() && clips_sorted(s) && r@ == spec_ts_output(
            s,
            k.map_values(|t: String| t@),
        ));
    }
    r
}

/// Generates the sound-event file: the clips sorted by folder-and-name
/// key, then rendered. The output is the rendering of some reordering of
/// the input.
pub fn codegen_vsnd_clips(clips: Vec<Clip>) -> (r: String)
    ensures
        exists|s: Seq<Clip>|
            s.to_multiset() == clips@.to_multiset() && clips_sorted(s) && r@
                == #[trigger] spec_vsnd_output(s),
{
    let ghost all = clips@;
    let mut dummies: Vec<String> = Vec::new();
    let mut i: usize = 0;
    let n = clips.len();
    while i < n
        invariant
            dummies@.len() == i,
            i <= n,
        decreases n - i,
    {
        dummies.push(String::new());
        i = i + 1;
    }
    let (sc, _sk) = sort_clips(clips, dummies);
    let r = render_vsnd_clips(&sc);
    proof {
        let s = sc@;
        assert(s.to_multiset() == all.to_multiset() && clips_sorted(s) && r@ == spec_vsnd_output(
            s,
        ));
    }
    r
}

} // verus!
