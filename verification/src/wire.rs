//! The line-based text frame that the signalling socket and the peer data
//! channels carry: `"<command>: <id>\n<data>"`.

use vstd::prelude::*;
use vstd::utf8::*;
use vstd::string::StringSliceAdditionalSpecFns;
use vstd::string::StringExecFns;

verus! {

broadcast use vstd::string::group_string_axioms;

/// One message of the signalling protocol: a command word, and an optional id
/// and payload.
#[derive(Clone, Debug)]
pub struct TransferData {
    pub command: String,
    pub id: Option<String>,
    pub data: Option<String>,
}

/// The abstract value of a [`TransferData`].
pub ghost struct TransferView {
    pub command: Seq<char>,
    pub id: Option<Seq<char>>,
    pub data: Option<Seq<char>>,
}

pub open spec fn opt_string_view(o: Option<String>) -> Option<Seq<char>> {
    match o {
        Some(s) => Some(s@),
        None => None,
    }
}

/// The characters of an optional field, or nothing (`unwrap_or_default`).
pub open spec fn or_empty(o: Option<Seq<char>>) -> Seq<char> {
    match o {
        Some(s) => s,
        None => Seq::empty(),
    }
}

impl View for TransferData {
    type V = TransferView;

    open spec fn view(&self) -> TransferView {
        TransferView {
            command: self.command@,
            id: opt_string_view(self.id),
            data: opt_string_view(self.data),
        }
    }
}

/// The index of the first line feed byte at or after `from`, or the length of
/// `b` when there is none.
pub open spec fn line_end(b: Seq<u8>, from: int) -> int
    decreases b.len() - from,
{
    if from >= b.len() {
        b.len() as int
    } else if b[from] == 10 {
        from
    } else {
        line_end(b, from + 1)
    }
}

/// The inputs that the frame parser accepts: at least three bytes, the
/// third of which ends a character.
pub open spec fn parsable(s: Seq<char>) -> bool {
    encode_utf8(s).len() >= 3 && is_char_boundary(encode_utf8(s), 3)
}

/// What a received frame means: the first three bytes are the command; the
/// rest of the first line, when the line is longer than three bytes, is the
/// id; the second line, when there is one, is the payload.
pub open spec fn parse_spec(s: Seq<char>) -> TransferView {
    let b = encode_utf8(s);
    let e1 = line_end(b, 0);
    TransferView {
        command: decode_utf8(b.subrange(0, 3)),
        id: if e1 > 3 {
            Some(decode_utf8(b.subrange(3, e1)))
        } else {
            None
        },
        data: if e1 < b.len() {
            Some(decode_utf8(b.subrange(e1 + 1, line_end(b, e1 + 1))))
        } else {
            None
        },
    }
}

/// The text that is sent for a message: `"<command>: <id>\n<data>"`, an
/// absent id or payload written as nothing.
pub open spec fn frame_spec(v: TransferView) -> Seq<char> {
    v.command + seq![':', ' '] + or_empty(v.id) + seq!['\n'] + or_empty(v.data)
}

proof fn lemma_line_end_bounds(b: Seq<u8>, from: int)
    requires
        0 <= from,
    ensures
        from <= b.len() ==> from <= line_end(b, from) <= b.len(),
        from > b.len() ==> line_end(b, from) == b.len(),
        forall|j: int| from <= j < line_end(b, from) ==> b[j] != 10,
        line_end(b, from) < b.len() ==> b[line_end(b, from)] == 10,
    decreases b.len() - from,
{
    if from < b.len() && b[from] != 10 {
        lemma_line_end_bounds(b, from + 1);
    }
}

proof fn lemma_line_end_is(b: Seq<u8>, from: int, e: int)
    requires
        0 <= from <= e <= b.len(),
        forall|j: int| from <= j < e ==> b[j] != 10,
        e < b.len() ==> b[e] == 10,
    ensures
        line_end(b, from) == e,
    decreases e - from,
{
    if from < e {
        lemma_line_end_is(b, from + 1, e);
    }
}


/// True when `s` holds no line feed.
pub open spec fn no_newline(s: Seq<char>) -> bool {
    forall|i: int| 0 <= i < s.len() ==> s[i] != '\n'
}

/// What a frame gives back when it is read: the command followed by `": "`,
/// the id when it is not empty, and the payload.
pub open spec fn read_back(v: TransferView) -> TransferView {
    TransferView {
        command: v.command + seq![':', ' '],
        id: if or_empty(v.id).len() > 0 {
            Some(or_empty(v.id))
        } else {
            None
        },
        data: Some(or_empty(v.data)),
    }
}

proof fn lemma_encode_concat(a: Seq<char>, b: Seq<char>)
    ensures
        encode_utf8(a + b) == encode_utf8(a) + encode_utf8(b),
    decreases a.len(),
{
    if a.len() == 0 {
        assert(a + b =~= b);
        assert(encode_utf8(a) =~= Seq::<u8>::empty());
        assert(encode_utf8(a) + encode_utf8(b) =~= encode_utf8(b));
    } else {
        lemma_encode_concat(a.drop_first(), b);
        assert((a + b).drop_first() =~= a.drop_first() + b);
        assert((a + b)[0] == a[0]);
        assert(encode_utf8(a + b) =~= encode_utf8(a) + encode_utf8(b));
    }
}

proof fn lemma_scalar_bytes(c: char)
    ensures
        encode_scalar(c as u32).len() >= 1,
        !is_continuation_byte(encode_scalar(c as u32)[0]),
        c != '\n' ==> forall|j: int|
            0 <= j < encode_scalar(c as u32).len() ==> #[trigger] encode_scalar(c as u32)[j] != 10,
        c == '\n' ==> encode_scalar(c as u32) == seq![10u8],
{
    char_is_scalar(c);
    let v = c as u32;
    assert('\n' as u32 == 10);
    if has_width_1_encoding(v) {
        assert(v <= 0x7f ==> (v & 0x7f) as u8 <= 0x7f) by (bit_vector);
        assert(v <= 0x7f && v != 10 ==> (v & 0x7f) as u8 != 10u8) by (bit_vector);
        assert(v == 10 ==> (v & 0x7f) as u8 == 10u8) by (bit_vector);
        if c == '\n' {
            assert(encode_scalar(v) =~= seq![10u8]);
        }
    } else {
        assert(0xC0u8 | ((v >> 6) & 0x1F) as u8 >= 0xC0u8) by (bit_vector);
        assert(0xE0u8 | ((v >> 12) & 0x0F) as u8 >= 0xC0u8) by (bit_vector);
        assert(0xF0u8 | ((v >> 18) & 0x7) as u8 >= 0xC0u8) by (bit_vector);
        assert(0x80u8 | (v & 0x3F) as u8 >= 0x80u8) by (bit_vector);
        assert(0x80u8 | ((v >> 6) & 0x3F) as u8 >= 0x80u8) by (bit_vector);
        assert(0x80u8 | ((v >> 12) & 0x3F) as u8 >= 0x80u8) by (bit_vector);
    }
}

proof fn lemma_no_newline_bytes(s: Seq<char>)
    requires
        no_newline(s),
    ensures
        forall|j: int| 0 <= j < encode_utf8(s).len() ==> encode_utf8(s)[j] != 10,
        encode_utf8(s).len() >= s.len(),
    decreases s.len(),
{
    if s.len() > 0 {
        lemma_scalar_bytes(s[0]);
        let rest = s.drop_first();
        assert(no_newline(rest)) by {
            assert forall|i: int| 0 <= i < rest.len() implies rest[i] != '\n' by {
                assert(rest[i] == s[i + 1]);
            }
        }
        lemma_no_newline_bytes(rest);
        let h = encode_scalar(s[0] as u32);
        assert forall|j: int| 0 <= j < encode_utf8(s).len() implies encode_utf8(s)[j] != 10 by {
            if j < h.len() {
                assert(encode_utf8(s)[j] == h[j]);
            } else {
                assert(encode_utf8(s)[j] == encode_utf8(rest)[j - h.len()]);
            }
        }
    }
}

/// Reading back a frame that was written gives the message again, the
/// command followed by `": "` and an empty id as none, when the command is a
/// single ASCII character other than a line feed and neither the id nor the
/// payload holds a line feed.
pub proof fn lemma_frame_then_parse(v: TransferView)
    requires
        v.command.len() == 1,
        is_ascii_chars(v.command),
        v.command[0] != '\n',
        no_newline(or_empty(v.id)),
        no_newline(or_empty(v.data)),
    ensures
        parsable(frame_spec(v)),
        parse_spec(frame_spec(v)) == read_back(v),
{
    let id = or_empty(v.id);
    let data = or_empty(v.data);
    let pre = v.command + seq![':', ' '];
    let nl_data = seq!['\n'] + data;
    let rest = id + nl_data;
    let s = frame_spec(v);
    assert(s =~= pre + rest);
    lemma_encode_concat(pre, rest);
    lemma_encode_concat(id, nl_data);
    lemma_encode_concat(seq!['\n'], data);
    lemma_scalar_bytes('\n');
    assert(encode_utf8(seq!['\n']) =~= seq![10u8]) by {
        assert(seq!['\n'].drop_first() =~= Seq::<char>::empty());
        assert(encode_utf8(Seq::<char>::empty()) =~= Seq::<u8>::empty());
        assert(seq!['\n'][0] == '\n');
    }
    assert(is_ascii_chars(pre)) by {
        assert(pre[0] == v.command[0]);
        assert(pre[1] == ':');
        assert(pre[2] == ' ');
        assert('\0' <= v.command[0] <= '\u{7f}');
    }
    is_ascii_chars_encode_utf8(pre);
    let b = encode_utf8(s);
    let ep = encode_utf8(pre);
    let ei = encode_utf8(id);
    let ed = encode_utf8(data);
    assert(b =~= ep + (ei + (seq![10u8] + ed)));
    assert(ep.len() == 3);
    lemma_no_newline_bytes(id);
    lemma_no_newline_bytes(data);
    let e1: int = 3 + ei.len() as int;
    // The command part and the boundary after it.
    assert(b.subrange(0, 3) =~= ep);
    encode_utf8_decode_utf8(pre);
    encode_utf8_valid_utf8(s);
    lemma_scalar_bytes(rest[0]);
    assert(encode_utf8(rest)[0] == encode_scalar(rest[0] as u32)[0]);
    assert(b[3] == encode_utf8(rest)[0]);
    is_char_boundary_iff_not_is_continuation_byte(b, 3);
    // The first line ends right after the id.
    assert(b[0] == v.command[0] as u8);
    assert(v.command[0] as u8 != 10u8) by {
        assert('\n' as u32 == 10);
    }
    assert(pre[1] == ':');
    assert(pre[2] == ' ');
    assert forall|j: int| 0 <= j < e1 implies b[j] != 10 by {
        if j >= 3 {
            assert(b[j] == ei[j - 3]);
        } else if j == 1 {
            assert(b[1] == ':' as u8);
        } else if j == 2 {
            assert(b[2] == ' ' as u8);
        }
    }
    assert(b[e1] == 10);
    lemma_line_end_is(b, 0, e1);
    // The id.
    assert(b.subrange(3, e1) =~= ei);
    encode_utf8_decode_utf8(id);
    if id.len() > 0 {
        lemma_scalar_bytes(id[0]);
    } else {
        assert(ei =~= Seq::<u8>::empty());
    }
    // The payload runs to the end.
    assert forall|j: int| e1 + 1 <= j < b.len() implies b[j] != 10 by {
        assert(b[j] == ed[j - e1 - 1]);
    }
    lemma_line_end_is(b, e1 + 1, b.len() as int);
    assert(b.subrange(e1 + 1, b.len() as int) =~= ed);
    encode_utf8_decode_utf8(data);
}

/// Finds the first line feed in `b` at or after `from`.
fn find_line_end(b: &[u8], from: usize) -> (e: usize)
    requires
        from <= b@.len(),
    ensures
        e == line_end(b@, from as int),
{
    let mut i = from;
    while i < b.len() && b[i] != 10u8
        invariant
            from <= i <= b@.len(),
            forall|j: int| from <= j < i ==> b@[j] != 10,
        decreases b@.len() - i,
    {
        i = i + 1;
    }
    proof {
        lemma_line_end_is(b@, from as int, i as int);
    }
    i
}

proof fn lemma_view_from_bytes(s: &str, b: Seq<u8>)
    requires
        s.spec_bytes() == b,
    ensures
        s@ == decode_utf8(b),
{
    encode_utf8_decode_utf8(s@);
}

/// A position that holds a line feed, or the end, starts a character.
proof fn lemma_newline_boundary(b: Seq<u8>, i: int)
    requires
        valid_utf8(b),
        0 <= i <= b.len(),
        i < b.len() ==> b[i] == 10,
    ensures
        is_char_boundary(b, i),
{
    if i < b.len() {
        is_char_boundary_iff_not_is_continuation_byte(b, i);
    } else {
        is_char_boundary_start_end_of_seq(b);
    }
}

/// A character boundary inside `b[0..e]` is one of the prefix as well.
proof fn lemma_boundary_prefix(b: Seq<u8>, e: int, i: int)
    requires
        valid_utf8(b),
        0 <= i < e <= b.len(),
        is_char_boundary(b, i),
        is_char_boundary(b, e),
    ensures
        is_char_boundary(b.subrange(0, e), i),
{
    valid_utf8_split(b, e);
    is_char_boundary_iff_not_is_continuation_byte(b, i);
    is_char_boundary_iff_not_is_continuation_byte(b.subrange(0, e), i);
}

/// The byte after a line feed starts a character.
proof fn lemma_after_newline(r: Seq<u8>)
    requires
        valid_utf8(r),
        r.len() > 0,
        r[0] == 10,
    ensures
        is_char_boundary(r, 1),
{
    reveal_with_fuel(is_char_boundary, 2);
    reveal_with_fuel(valid_utf8, 2);
}

/// Reads a received frame (`parse_string_todata`).
pub fn parse_string_todata(response: &str) -> (td: TransferData)
    requires
        parsable(response@),
    ensures
        td@ == parse_spec(response@),
{
    let ghost bytes = response.spec_bytes();
    let b = response.as_bytes();
    let n = b.len();
    proof {
        encode_utf8_valid_utf8(response@);
    }
    let (head, _) = response.split_at(3);
    proof {
        lemma_view_from_bytes(head, bytes.subrange(0, 3));
    }
    let command = head.to_owned();
    let e1 = find_line_end(b, 0);
    proof {
        lemma_line_end_bounds(bytes, 0);
        lemma_newline_boundary(bytes, e1 as int);
    }
    let (first, rest) = response.split_at(e1);
    let id = if e1 > 3 {
        let ghost fb = first.spec_bytes();
        proof {
            assert(fb == bytes.subrange(0, e1 as int));
            lemma_boundary_prefix(bytes, e1 as int, 3);
        }
        let (_, tail) = first.split_at(3);
        proof {
            assert(tail.spec_bytes() =~= bytes.subrange(3, e1 as int));
            lemma_view_from_bytes(tail, bytes.subrange(3, e1 as int));
        }
        Some(tail.to_owned())
    } else {
        None
    };
    let data = if e1 < n {
        let ghost rb = rest.spec_bytes();
        proof {
            assert(rb == bytes.subrange(e1 as int, n as int));
            assert(rb[0] == 10);
            encode_utf8_valid_utf8(rest@);
            lemma_after_newline(rb);
        }
        let (_, after) = rest.split_at(1);
        let ghost ab = after.spec_bytes();
        assert(ab =~= bytes.subrange(e1 + 1, n as int));
        let e2 = find_line_end(b, e1 + 1);
        proof {
            lemma_line_end_bounds(bytes, e1 + 1);
            let k = e2 - e1 - 1;
            if e2 < n {
                assert(ab[k] == bytes[e2 as int]);
            }
            encode_utf8_valid_utf8(after@);
            lemma_newline_boundary(ab, k);
        }
        let (line, _) = after.split_at(e2 - e1 - 1);
        proof {
            assert(line.spec_bytes() =~= bytes.subrange(e1 + 1, e2 as int));
            lemma_view_from_bytes(line, bytes.subrange(e1 + 1, e2 as int));
        }
        Some(line.to_owned())
    } else {
        None
    };
    TransferData { command, id, data }
}

/// Whether the frame parser accepts `s`: at least three bytes, the third of
/// which ends a character.
pub fn is_parsable(s: &str) -> (b: bool)
    ensures
        b == parsable(s@),
{
    proof {
        encode_utf8_valid_utf8(s@);
    }
    s.is_char_boundary(3)
}

/// Writes a message as the text that goes over the socket or a data channel
/// (`"{}: {}\n{}"` with absent fields written as nothing).
pub fn frame_transfer(td: &TransferData) -> (s: String)
    ensures
        s@ == frame_spec(td@),
{
    let mut s = String::new();
    s.append(td.command.as_str());
    proof {
        reveal_strlit(": ");
        reveal_strlit("\n");
    }
    s.append(": ");
    match &td.id {
        Some(id) => s.append(id.as_str()),
        None => {},
    }
    s.append("\n");
    match &td.data {
        Some(d) => s.append(d.as_str()),
        None => {},
    }
    assert(s@ =~= frame_spec(td@));
    s
}

} // verus!
