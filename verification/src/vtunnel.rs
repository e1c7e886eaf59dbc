use vstd::prelude::*;
use vstd::string::{StrSliceExecFns, StringSliceAdditionalSpecFns};
use crate::text::{chars_to_string, str_chars, find_char_from, parse_dec_u64, parse_dec_i64,
    push_dec_u64, push_dec_i64, spec_dec_digits, spec_dec_i64, spec_dec_value, spec_char_pos,
    is_dec_digits};
use crate::vconsole::{Packet, PACKET_COMMAND, VCONSOLE_BYTE};

verus! {

/// One value of a tunnel message. Numeric reals travel as their exact
/// source text, so the codec never interprets them; readers turn the text
/// into numbers.
#[derive(Clone, PartialEq, Eq, Debug)]
pub enum VTunnelDataPart {
    String(String),
    /// A real number, kept as the text between the delimiters.
    Float(String),
    Int(i64),
    /// Three real numbers, kept as their comma-separated component texts.
    Vector3(String, String, String),
    Bool(bool),
}

impl VTunnelDataPart {
    pub fn get_string(&self) -> (r: Option<String>)
        ensures
            match r {
                Some(s) => *self matches VTunnelDataPart::String(v) && s == v,
                None => !(*self matches VTunnelDataPart::String(_)),
            },
    {
        match self {
            VTunnelDataPart::String(v) => Some(v.clone()),
            _ => None,
        }
    }

    /// The number's source text.
    pub fn get_float(&self) -> (r: Option<String>)
        ensures
            match r {
                Some(s) => *self matches VTunnelDataPart::Float(v) && s == v,
                None => !(*self matches VTunnelDataPart::Float(_)),
            },
    {
        match self {
            VTunnelDataPart::Float(v) => Some(v.clone()),
            _ => None,
        }
    }

    pub fn get_int(&self) -> (r: Option<i64>)
        ensures
            match r {
                Some(v) => *self matches VTunnelDataPart::Int(w) && v == w,
                None => !(*self matches VTunnelDataPart::Int(_)),
            },
    {
        match self {
            VTunnelDataPart::Int(v) => Some(*v),
            _ => None,
        }
    }

    /// The three component texts.
    pub fn get_vector3(&self) -> (r: Option<(String, String, String)>)
        ensures
            match r {
                Some(t) => *self matches VTunnelDataPart::Vector3(x, y, z) && t.0 == x && t.1 == y
                    && t.2 == z,
                None => !(*self matches VTunnelDataPart::Vector3(_, _, _)),
            },
    {
        match self {
            VTunnelDataPart::Vector3(x, y, z) => Some((x.clone(), y.clone(), z.clone())),
            _ => None,
        }
    }

    pub fn get_bool(&self) -> (r: Option<bool>)
        ensures
            match r {
                Some(v) => *self matches VTunnelDataPart::Bool(w) && v == w,
                None => !(*self matches VTunnelDataPart::Bool(_)),
            },
    {
        match self {
            VTunnelDataPart::Bool(v) => Some(*v),
            _ => None,
        }
    }
}

/// One tunnel message: a reply id (0 for unsolicited messages), a name, and
/// the values.
#[derive(Debug)]
pub struct VTunnelMessage {
    pub id: u64,
    pub name: String,
    pub data: Vec<VTunnelDataPart>,
}

impl VTunnelMessage {
    pub fn new(name: String) -> (m: VTunnelMessage)
        ensures
            m.id == 0,
            m.name == name,
            m.data@.len() == 0,
    {
        VTunnelMessage { id: 0, name, data: Vec::new() }
    }

    pub fn set_id(&mut self, id: u64)
        ensures
            final(self).id == id,
            final(self).name == old(self).name,
            final(self).data == old(self).data,
    {
        self.id = id;
    }

    pub fn add_string(&mut self, data: String)
        ensures
            final(self).data@ == old(self).data@.push(VTunnelDataPart::String(data)),
            final(self).id == old(self).id,
            final(self).name == old(self).name,
    {
        self.data.push(VTunnelDataPart::String(data));
    }

    /// Adds a real number by its source text.
    pub fn add_float(&mut self, data: String)
        ensures
            final(self).data@ == old(self).data@.push(VTunnelDataPart::Float(data)),
            final(self).id == old(self).id,
            final(self).name == old(self).name,
    {
        self.data.push(VTunnelDataPart::Float(data));
    }

    pub fn add_int(&mut self, data: i64)
        ensures
            final(self).data@ == old(self).data@.push(VTunnelDataPart::Int(data)),
            final(self).id == old(self).id,
            final(self).name == old(self).name,
    {
        self.data.push(VTunnelDataPart::Int(data));
    }

    /// Adds a vector by its three component texts.
    pub fn add_vector3(&mut self, x: String, y: String, z: String)
        ensures
            final(self).data@ == old(self).data@.push(VTunnelDataPart::Vector3(x, y, z)),
            final(self).id == old(self).id,
            final(self).name == old(self).name,
    {
        self.data.push(VTunnelDataPart::Vector3(x, y, z));
    }

    pub fn add_bool(&mut self, data: bool)
        ensures
            final(self).data@ == old(self).data@.push(VTunnelDataPart::Bool(data)),
            final(self).id == old(self).id,
            final(self).name == old(self).name,
    {
        self.data.push(VTunnelDataPart::Bool(data));
    }
}

/// The wire text of one value: a type tag, a `:`, the payload. A string
/// carries its byte length so the payload may hold delimiters.
pub open spec fn spec_encode_part(p: VTunnelDataPart) -> Seq<char> {
    match p {
        VTunnelDataPart::String(s) => seq!['s', '('] + spec_dec_digits(
            (vstd::utf8::encode_utf8(s@).len() as usize) as nat,
        ) + seq![')', ':'] + s@,
        VTunnelDataPart::Float(t) => seq!['f', ':'] + t@,
        VTunnelDataPart::Int(v) => seq!['i', ':'] + spec_dec_i64(v as int),
        VTunnelDataPart::Vector3(x, y, z) => seq!['v', '3', ':'] + x@ + seq![','] + y@ + seq![',']
            + z@,
        VTunnelDataPart::Bool(b) => seq!['b', ':'] + if b {
            seq!['1']
        } else {
            seq!['0']
        },
    }
}

/// The wire text of a value list: each value followed by `!`.
pub open spec fn spec_encode_parts(parts: Seq<VTunnelDataPart>) -> Seq<char>
    decreases parts.len(),
{
    if parts.len() == 0 {
        Seq::empty()
    } else {
        spec_encode_parts(parts.drop_last()) + spec_encode_part(parts.last()) + seq!['!']
    }
}

/// The whole wire text: the `$vt!` marker, the id, the name and the values,
/// `!`-delimited.
pub open spec fn spec_encode_message(m: &VTunnelMessage) -> Seq<char> {
    seq!['$', 'v', 't', '!'] + spec_dec_digits(m.id as nat) + seq!['!'] + m.name@ + seq!['!']
        + spec_encode_parts(m.data@)
}

/// Appends every character of `s` to `out`.
fn push_str_chars(out: &mut Vec<char>, s: &str)
    ensures
        final(out)@ == old(out)@ + s@,
{
    let cs = str_chars(s);
    let mut i: usize = 0;
    while i < cs.len()
        invariant
            i <= cs@.len(),
            cs@ == s@,
            out@ =~= old(out)@ + cs@.take(i as int),
        decreases cs@.len() - i,
    {
        out.push(cs[i]);
        proof {
            assert(cs@.take(i + 1) =~= cs@.take(i as int).push(cs@[i as int]));
        }
        i = i + 1;
    }
    proof {
        assert(cs@.take(cs@.len() as int) =~= cs@);
    }
}

/// Renders one value to its wire text, without the trailing delimiter.
fn encode_part(p: &VTunnelDataPart) -> (v: Vec<char>)
    ensures
        v@ == spec_encode_part(*p),
{
    let mut v: Vec<char> = Vec::new();
    match p {
        VTunnelDataPart::String(s) => {
            v.push('s');
            v.push('(');
            let a = s.as_str();
            let n = a.len();
            proof {
                assert(a.spec_bytes() == vstd::utf8::encode_utf8(a@));
                assert(n == (vstd::utf8::encode_utf8(s@).len() as usize));
            }
            push_dec_u64(&mut v, n as u64);
            v.push(')');
            v.push(':');
            push_str_chars(&mut v, s.as_str());
            proof {
                assert(v@ =~= spec_encode_part(*p));
            }
        },
        VTunnelDataPart::Float(t) => {
            v.push('f');
            v.push(':');
            push_str_chars(&mut v, t.as_str());
            proof {
                assert(v@ =~= spec_encode_part(*p));
            }
        },
        VTunnelDataPart::Int(w) => {
            v.push('i');
            v.push(':');
            push_dec_i64(&mut v, *w);
            proof {
                assert(v@ =~= spec_encode_part(*p));
            }
        },
        VTunnelDataPart::Vector3(x, y, z) => {
            v.push('v');
            v.push('3');
            v.push(':');
            push_str_chars(&mut v, x.as_str());
            v.push(',');
            push_str_chars(&mut v, y.as_str());
            v.push(',');
            push_str_chars(&mut v, z.as_str());
            proof {
                assert(v@ =~= spec_encode_part(*p));
            }
        },
        VTunnelDataPart::Bool(b) => {
            v.push('b');
            v.push(':');
            if *b {
                v.push('1');
            } else {
                v.push('0');
            }
            proof {
                assert(v@ =~= spec_encode_part(*p));
            }
        },
    }
    v
}

/// Appends every character of `extra` to `out`.
fn push_all_chars(out: &mut Vec<char>, extra: &Vec<char>)
    ensures
        final(out)@ == old(out)@ + extra@,
{
    let mut i: usize = 0;
    while i < extra.len()
        invariant
            i <= extra@.len(),
            out@ =~= old(out)@ + extra@.take(i as int),
        decreases extra@.len() - i,
    {
        out.push(extra[i]);
        proof {
            assert(extra@.take(i + 1) =~= extra@.take(i as int).push(extra@[i as int]));
        }
        i = i + 1;
    }
    proof {
        assert(extra@.take(extra@.len() as int) =~= extra@);
    }
}

/// Renders a message to its wire text.
pub fn encode_vtunnel_message(vmsg: &VTunnelMessage) -> (r: String)
    ensures
        r@ == spec_encode_message(vmsg),
{
    let mut out: Vec<char> = Vec::new();
    out.push('$');
    out.push('v');
    out.push('t');
    out.push('!');
    push_dec_u64(&mut out, vmsg.id);
    out.push('!');
    push_str_chars(&mut out, vmsg.name.as_str());
    out.push('!');
    proof {
        assert(out@ =~= seq!['$', 'v', 't', '!'] + spec_dec_digits(vmsg.id as nat) + seq!['!']
            + vmsg.name@ + seq!['!']);
    }
    let ghost head = out@;
    let mut i: usize = 0;
    while i < vmsg.data.len()
        invariant
            i <= vmsg.data@.len(),
            out@ == head + spec_encode_parts(vmsg.data@.take(i as int)),
        decreases vmsg.data@.len() - i,
    {
        let piece = encode_part(&vmsg.data[i]);
        push_all_chars(&mut out, &piece);
        out.push('!');
        proof {
            assert(vmsg.data@.take(i + 1).drop_last() =~= vmsg.data@.take(i as int));
            assert(vmsg.data@.take(i + 1).last() == vmsg.data@[i as int]);
            assert(out@ =~= head + spec_encode_parts(vmsg.data@.take(i + 1)));
        }
        i = i + 1;
    }
    proof {
        assert(vmsg.data@.take(vmsg.data@.len() as int) =~= vmsg.data@);
    }
    chars_to_string(&out)
}

/// How a parsed message's id and name relate to the wire text: the marker
/// is present, the id is the decimal run up to the next `!` (zero when that
/// run is missing or malformed), and the name runs from there to the
/// following `!`.
pub open spec fn spec_parsed_header(id: u64, name: Seq<char>, c: Seq<char>) -> bool {
    &&& c.len() >= 4
    &&& c.subrange(0, 4) =~= seq!['$', 'v', 't', '!']
    &&& ({
        let idp = spec_char_pos(c, '!', 4);
        let id_end = if idp < c.len() {
            idp
        } else {
            4
        };
        let ids = c.subrange(4, id_end);
        &&& id == (if is_dec_digits(ids) && spec_dec_value(ids) <= u64::MAX {
            spec_dec_value(ids) as u64
        } else {
            0u64
        })
        &&& ({
            let i1 = id_end + 1;
            let np = spec_char_pos(c, '!', i1);
            let n_end = if np < c.len() {
                np
            } else {
                i1
            };
            &&& i1 <= c.len()
            &&& name == c.subrange(i1, n_end)
        })
    })
}

/// A wire text that carries no values: the marker, a well-formed id, the
/// name, and nothing after the name's delimiter.
pub open spec fn spec_dataless_wire(c: Seq<char>) -> bool {
    let idp = spec_char_pos(c, '!', 4);
    let np = spec_char_pos(c, '!', idp + 1);
    &&& c.len() >= 4
    &&& c.subrange(0, 4) =~= seq!['$', 'v', 't', '!']
    &&& idp < c.len()
    &&& is_dec_digits(c.subrange(4, idp))
    &&& spec_dec_value(c.subrange(4, idp)) <= u64::MAX
    &&& np == c.len() - 1
}

/// Parses a message off its wire text. Returns `None` when the marker is
/// missing or any value's payload is malformed; a missing marker is always
/// `None`, and a well-formed text without values is always accepted. The id
/// and name fall back to `0` and to the empty name when their `!`
/// delimiters are missing; the wire format tolerates that much.
pub fn parse_vtunnel_message(raw_msg: &String) -> (r: Option<VTunnelMessage>)
    ensures
        (raw_msg@.len() < 4 || !(raw_msg@.subrange(0, 4) =~= seq!['$', 'v', 't', '!'])) ==> r
            is None,
        spec_dataless_wire(raw_msg@) ==> ({
            let c = raw_msg@;
            let idp = spec_char_pos(c, '!', 4);
            let np = spec_char_pos(c, '!', idp + 1);
            match r {
                Some(m) => m.id == spec_dec_value(c.subrange(4, idp)) && m.name@ == c.subrange(
                    idp + 1,
                    np,
                ) && m.data@.len() == 0,
                None => false,
            }
        }),
        match r {
            Some(m) => spec_parsed_header(m.id, m.name@, raw_msg@),
            None => true,
        },
{
    let chars = str_chars(raw_msg.as_str());
    if chars.len() < 4 {
        return None;
    }
    if !(chars[0] == '$' && chars[1] == 'v' && chars[2] == 't' && chars[3] == '!') {
        return None;
    }
    let idp = find_char_from(&chars, '!', 4);
    let id_end: usize = if idp < chars.len() {
        idp
    } else {
        4
    };
    let id_slice = vstd::slice::slice_subrange(chars.as_slice(), 4, id_end);
    let msg_id: u64 = match parse_dec_u64(id_slice) {
        Some(v) => v,
        None => 0,
    };
    let mut index: usize = id_end + 1;
    if index > chars.len() {
        return None;
    }
    let np = find_char_from(&chars, '!', index);
    let name_end: usize = if np < chars.len() {
        np
    } else {
        index
    };
    let name_slice = vstd::slice::slice_subrange(chars.as_slice(), index, name_end);
    let name_chars = vstd::slice::slice_to_vec(name_slice);
    let msg_name = chars_to_string(&name_chars);
    proof {
        assert(msg_name@ =~= raw_msg@.subrange(index as int, name_end as int));
    }
    let mut vmsg = VTunnelMessage::new(msg_name);
    vmsg.set_id(msg_id);
    if name_end >= usize::MAX {
        return None;
    }
    index = name_end + 1;
    if index > chars.len() {
        return None;
    }

    // Each value: a type tag up to `:`, then a payload the tag decides how
    // to cut.
    let ghost expect_id = vmsg.id;
    let ghost expect_name = vmsg.name@;
    proof {
        assert(spec_parsed_header(vmsg.id, vmsg.name@, raw_msg@));
    }
    let mut str_len: usize = 0;
    let mut data_type: Vec<char> = Vec::new();
    while index < chars.len()
        invariant
            index <= chars@.len() + 1,
            chars@ == raw_msg@,
            vmsg.id == expect_id,
            vmsg.name@ == expect_name,
            spec_parsed_header(expect_id, expect_name, raw_msg@),
            spec_dataless_wire(raw_msg@) ==> ({
                let c_ = raw_msg@;
                let idp = spec_char_pos(c_, '!', 4);
                let np = spec_char_pos(c_, '!', idp + 1);
                &&& index == c_.len()
                &&& vmsg.data@.len() == 0
                &&& vmsg.id == spec_dec_value(c_.subrange(4, idp))
                &&& vmsg.name@ == c_.subrange(idp + 1, np)
            }),
        decreases chars@.len() + 1 - index,
    {
        if data_type.len() == 0 {
            // Accumulate the tag until its `:`.
            let tag_end = find_char_from(&chars, ':', index);
            if tag_end >= chars.len() {
                // No delimiter: the rest of the text cannot hold a value.
                return Some(vmsg);
            }
            let tag_slice = vstd::slice::slice_subrange(chars.as_slice(), index, tag_end);
            let tag = vstd::slice::slice_to_vec(tag_slice);
            if tag.len() >= 3 && tag[0] == 's' && tag[1] == '(' && tag[tag.len() - 1] == ')' {
                let len_slice = vstd::slice::slice_subrange(tag.as_slice(), 2, tag.len() - 1);
                // A malformed or oversized length falls back to zero, like
                // the rest of the header's lenient number fields.
                str_len = match parse_dec_u64(len_slice) {
                    Some(v) => {
                        if v <= usize::MAX as u64 {
                            v as usize
                        } else {
                            0
                        }
                    },
                    None => 0,
                };
                data_type = Vec::new();
                data_type.push('s');
            } else {
                data_type = vstd::slice::slice_to_vec(tag_slice);
            }
            if tag_end >= usize::MAX {
                return None;
            }
            index = tag_end + 1;
            continue ;
        }
        let t0 = data_type[0];
        if data_type.len() == 1 && t0 == 's' {
            if str_len > chars.len() || index > chars.len() - str_len {
                return None;
            }
            let s_slice = vstd::slice::slice_subrange(chars.as_slice(), index, index + str_len);
            let s_chars = vstd::slice::slice_to_vec(s_slice);
            vmsg.data.push(VTunnelDataPart::String(chars_to_string(&s_chars)));
            index = index + str_len;
        } else if data_type.len() == 1 && (t0 == 'f' || t0 == 'i' || t0 == 'b') {
            let end = find_char_from(&chars, '!', index);
            let end: usize = if end < chars.len() {
                end
            } else {
                index
            };
            let val_slice = vstd::slice::slice_subrange(chars.as_slice(), index, end);
            if t0 == 'f' {
                let val_chars = vstd::slice::slice_to_vec(val_slice);
                vmsg.data.push(VTunnelDataPart::Float(chars_to_string(&val_chars)));
            } else if t0 == 'i' {
                match parse_dec_i64(val_slice) {
                    Some(v) => {
                        vmsg.data.push(VTunnelDataPart::Int(v));
                    },
                    None => {
                        return None;
                    },
                }
            } else {
                match parse_dec_u64(val_slice) {
                    Some(v) => {
                        if v > 255 {
                            return None;
                        }
                        vmsg.data.push(VTunnelDataPart::Bool(v == 1));
                    },
                    None => {
                        return None;
                    },
                }
            }
            index = end;
        } else if data_type.len() == 2 && t0 == 'v' && data_type[1] == '3' {
            let end = find_char_from(&chars, '!', index);
            let end: usize = if end < chars.len() {
                end
            } else {
                index
            };
            let c1 = find_char_from(&chars, ',', index);
            if c1 >= end {
                return None;
            }
            let c2 = find_char_from(&chars, ',', c1 + 1);
            if c2 >= end {
                return None;
            }
            let xs = vstd::slice::slice_to_vec(
                vstd::slice::slice_subrange(chars.as_slice(), index, c1),
            );
            let ys = vstd::slice::slice_to_vec(
                vstd::slice::slice_subrange(chars.as_slice(), c1 + 1, c2),
            );
            let zs = vstd::slice::slice_to_vec(
                vstd::slice::slice_subrange(chars.as_slice(), c2 + 1, end),
            );
            vmsg.data.push(
                VTunnelDataPart::Vector3(
                    chars_to_string(&xs),
                    chars_to_string(&ys),
                    chars_to_string(&zs),
                ),
            );
            index = end;
        } else {
            // An unknown tag: skipped without consuming a payload.
        }
        data_type = Vec::new();
        if index >= usize::MAX {
            return None;
        }
        index = index + 1;
    }
    Some(vmsg)
}

/// A tunnel message wrapped as a console command packet.
pub struct VTunnelMessagePacket {
    vmsg: VTunnelMessage,
}

impl VTunnelMessagePacket {
    pub fn new(vmsg: VTunnelMessage) -> (r: VTunnelMessagePacket)
        ensures
            r.spec_message() == vmsg,
    {
        VTunnelMessagePacket { vmsg }
    }

    pub closed spec fn spec_message(&self) -> VTunnelMessage {
        self.vmsg
    }

    /// The message as a `vtunnel_receive` console command: the encoded
    /// wire text in quotation marks, framed like any other command.
    pub fn to_packet(&self) -> (p: Packet)
        ensures
            p.packet_type.0 == PACKET_COMMAND,
            p._unknown == VCONSOLE_BYTE,
            p.data@ == seq![0u8, 0u8] + vstd::utf8::encode_utf8(
                "vtunnel_receive \""@ + spec_encode_message(&self.spec_message()) + "\""@,
            ) + seq![0u8],
    {
        let encoded = encode_vtunnel_message(&self.vmsg);
        let mut cmd: Vec<char> = Vec::new();
        push_str_chars(&mut cmd, "vtunnel_receive \"");
        push_str_chars(&mut cmd, encoded.as_str());
        push_str_chars(&mut cmd, "\"");
        let command = chars_to_string(&cmd);
        let cp = crate::vconsole::CommandPacket::new(command);
        cp.to_packet()
    }
}

/// The opening message of a tunnel session, carrying the session id.
#[derive(Clone, Copy, PartialEq, Eq, Structural, Debug)]
pub struct VTunnelHandshake {
    pub session_id: u32,
}

impl VTunnelHandshake {
    pub fn new(session_id: u32) -> (r: VTunnelHandshake)
        ensures
            r.session_id == session_id,
    {
        VTunnelHandshake { session_id }
    }

    /// The handshake as a tunnel message: its name, with the session id as
    /// the reply id.
    pub fn serialize(&self) -> (m: VTunnelMessage)
        ensures
            m.id == self.session_id,
            m.name@ == "vtunnel_handshake"@,
            m.data@.len() == 0,
    {
        let mut m = VTunnelMessage::new(String::from_str("vtunnel_handshake"));
        m.set_id(self.session_id as u64);
        m
    }
}

} // verus!
