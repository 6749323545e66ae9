//! The textual form of the credential list: the plaintext that the cipher
//! envelope protects.
//!
//! A list serializes to a JSON-style array of objects, in insertion order:
//! `[{"service":"s","username":"u","password":"p"}]`, with `null` for a
//! missing username. The serializer escapes `"` and `\` with a backslash;
//! every other character stands for itself. The parser accepts that form and
//! is proved to invert the serializer, so a serialize/parse round trip
//! restores every entry, in order; it additionally accepts the JSON control
//! escapes (`\b \f \n \r \t` and `\u00XX` below 0x20) that other
//! writers of this format produce.

use vstd::prelude::*;
use vstd::string::*;

use crate::pass::{EntryView, PasswordEntry, Passwords};

verus! {

/// How one character appears inside a serialized string.
pub open spec fn esc_char(c: char) -> Seq<char> {
    if c == '"' {
        seq!['\\', '"']
    } else if c == '\\' {
        seq!['\\', '\\']
    } else {
        seq![c]
    }
}

/// A string's characters, each escaped.
pub open spec fn esc(s: Seq<char>) -> Seq<char>
    decreases s.len(),
{
    if s.len() == 0 {
        Seq::empty()
    } else {
        esc_char(s[0]) + esc(s.drop_first())
    }
}

/// A serialized string: the escaped characters between double quotes.
pub open spec fn ser_string(s: Seq<char>) -> Seq<char> {
    seq!['"'] + esc(s) + seq!['"']
}

/// A serialized optional string: `null` when absent.
pub open spec fn ser_opt_string(u: Option<Seq<char>>) -> Seq<char> {
    match u {
        Some(s) => ser_string(s),
        None => "null"@,
    }
}

/// A serialized entry: an object with the three fields in fixed order.
pub open spec fn ser_entry(e: EntryView) -> Seq<char> {
    "{\"service\":"@ + ser_string(e.service) + ",\"username\":"@ + ser_opt_string(e.username)
        + ",\"password\":"@ + ser_string(e.password) + "}"@
}

/// Serialized entries joined with commas.
pub open spec fn ser_list(es: Seq<EntryView>) -> Seq<char>
    decreases es.len(),
{
    if es.len() == 0 {
        Seq::empty()
    } else if es.len() == 1 {
        ser_entry(es[0])
    } else {
        ser_list(es.drop_last()) + seq![','] + ser_entry(es.last())
    }
}

/// The serialized credential list: the joined entries between brackets.
pub open spec fn ser_entries(es: Seq<EntryView>) -> Seq<char> {
    seq!['['] + ser_list(es) + seq![']']
}

/// Escaping distributes over concatenation.
proof fn lemma_esc_append(a: Seq<char>, b: Seq<char>)
    ensures
        esc(a + b) == esc(a) + esc(b),
    decreases a.len(),
{
    if a.len() == 0 {
        assert(a + b =~= b);
        assert(esc(a) + esc(b) =~= esc(b));
    } else {
        assert((a + b).drop_first() =~= a.drop_first() + b);
        lemma_esc_append(a.drop_first(), b);
        assert(esc(a + b) =~= esc(a) + esc(b));
    }
}

/// Escaping one more character appends that character's escape.
proof fn lemma_esc_snoc(s: Seq<char>, i: int)
    requires
        0 <= i < s.len(),
    ensures
        esc(s.subrange(0, i + 1)) == esc(s.subrange(0, i)) + esc_char(s[i]),
{
    assert(s.subrange(0, i + 1) =~= s.subrange(0, i) + seq![s[i]]);
    lemma_esc_append(s.subrange(0, i), seq![s[i]]);
    let single = seq![s[i]];
    assert(single.len() == 1 && single[0] == s[i]);
    assert(single.drop_first() =~= Seq::<char>::empty());
    assert(esc(single) == esc_char(single[0]) + esc(single.drop_first()));
    assert(esc(Seq::<char>::empty()) == Seq::<char>::empty());
    assert(esc(single) =~= esc_char(s[i]));
}

/// Relies on std's `String::push`: appends exactly one character.
#[verifier::external_body]
fn push_char(out: &mut String, c: char)
    ensures
        final(out)@ == old(out)@ + seq![c],
{
    out.push(c);
}

/// Appends the escaped characters of `s` to `out`.
fn append_escaped(out: &mut String, s: &str)
    ensures
        final(out)@ == old(out)@ + esc(s@),
{
    let n = s.unicode_len();
    let mut i: usize = 0;
    while i < n
        invariant
            n == s@.len(),
            0 <= i <= n,
            out@ == old(out)@ + esc(s@.subrange(0, i as int)),
        decreases n - i,
    {
        let c = s.get_char(i);
        if c == '"' {
            push_char(out, '\\');
            push_char(out, '"');
        } else if c == '\\' {
            push_char(out, '\\');
            push_char(out, '\\');
        } else {
            push_char(out, c);
        }
        proof {
            lemma_esc_snoc(s@, i as int);
            assert(out@ =~= old(out)@ + esc(s@.subrange(0, i + 1)));
        }
        i += 1;
    }
    proof {
        assert(s@.subrange(0, n as int) =~= s@);
    }
}

/// Appends the serialized form of string `s` to `out`.
fn append_ser_string(out: &mut String, s: &str)
    ensures
        final(out)@ == old(out)@ + ser_string(s@),
{
    push_char(out, '"');
    append_escaped(out, s);
    push_char(out, '"');
    proof {
        assert(out@ =~= old(out)@ + ser_string(s@));
    }
}

/// Appends the serialized form of one entry to `out`.
fn append_ser_entry(out: &mut String, e: &PasswordEntry)
    ensures
        final(out)@ == old(out)@ + ser_entry(e@),
{
    out.append("{\"service\":");
    append_ser_string(out, e.service.as_str());
    out.append(",\"username\":");
    match &e.username {
        Some(u) => append_ser_string(out, u.as_str()),
        None => out.append("null"),
    }
    out.append(",\"password\":");
    append_ser_string(out, e.password.as_str());
    out.append("}");
    proof {
        assert(out@ =~= old(out)@ + ser_entry(e@));
    }
}

impl Passwords {
    /// The serialized credential list, the exact plaintext the store encrypts.
    pub fn serialize(&self) -> (r: String)
        ensures
            r@ == ser_entries(self@),
    {
        let mut out = String::new();
        push_char(&mut out, '[');
        let n = self.0.len();
        let mut i: usize = 0;
        while i < n
            invariant
                n == self.0.len(),
                0 <= i <= n,
                out@ == seq!['['] + ser_list(self@.subrange(0, i as int)),
            decreases n - i,
        {
            if i > 0 {
                push_char(&mut out, ',');
            }
            append_ser_entry(&mut out, &self.0[i]);
            proof {
                let prefix = self@.subrange(0, i + 1);
                assert(prefix.drop_last() =~= self@.subrange(0, i as int));
                assert(prefix.last() == self@[i as int]);
                assert(self@[i as int] == self.0[i as int]@);
                assert(out@ =~= seq!['['] + ser_list(prefix));
            }
            i += 1;
        }
        push_char(&mut out, ']');
        proof {
            assert(self@.subrange(0, n as int) =~= self@);
            assert(out@ =~= ser_entries(self@));
        }
        out
    }
}


/// Whether the characters of `lit` stand at position `i` of `s`.
pub open spec fn lit_at(s: Seq<char>, i: int, lit: Seq<char>) -> bool {
    0 <= i && i + lit.len() <= s.len() && s.subrange(i, i + lit.len()) == lit
}


/// The character a named JSON control escape stands for, if any.
pub open spec fn named_escape(c: char) -> Option<char> {
    if c == 'b' {
        Some('\u{8}')
    } else if c == 'f' {
        Some('\u{c}')
    } else if c == 'n' {
        Some('\n')
    } else if c == 'r' {
        Some('\r')
    } else if c == 't' {
        Some('\t')
    } else {
        None
    }
}

/// The value of a hexadecimal digit, if the character is one.
pub open spec fn hex_val(c: char) -> Option<int> {
    if c == '0' {
        Some(0)
    } else if c == '1' {
        Some(1)
    } else if c == '2' {
        Some(2)
    } else if c == '3' {
        Some(3)
    } else if c == '4' {
        Some(4)
    } else if c == '5' {
        Some(5)
    } else if c == '6' {
        Some(6)
    } else if c == '7' {
        Some(7)
    } else if c == '8' {
        Some(8)
    } else if c == '9' {
        Some(9)
    } else if c == 'a' || c == 'A' {
        Some(10)
    } else if c == 'b' || c == 'B' {
        Some(11)
    } else if c == 'c' || c == 'C' {
        Some(12)
    } else if c == 'd' || c == 'D' {
        Some(13)
    } else if c == 'e' || c == 'E' {
        Some(14)
    } else if c == 'f' || c == 'F' {
        Some(15)
    } else {
        None
    }
}

/// The control character a hex escape below 0x20 names.
pub open spec fn control_char(v: int) -> char {
    ((v as u8) as char)
}

/// Parses the body of a serialized string from position `i` up to and over
/// its closing quote; yields the decoded characters and the position after
/// the quote.
pub open spec fn sp_strbody(s: Seq<char>, i: int) -> Option<(Seq<char>, int)>
    decreases s.len() - i,
{
    if i < 0 || i >= s.len() {
        None
    } else if s[i] == '"' {
        Some((Seq::empty(), i + 1))
    } else if s[i] == '\\' {
        if i + 1 >= s.len() {
            None
        } else if s[i + 1] == '"' || s[i + 1] == '\\' {
            match sp_strbody(s, i + 2) {
                Some(t) => Some((seq![s[i + 1]] + t.0, t.1)),
                None => None,
            }
        } else if named_escape(s[i + 1]) is Some {
            match sp_strbody(s, i + 2) {
                Some(t) => Some((seq![named_escape(s[i + 1]).unwrap()] + t.0, t.1)),
                None => None,
            }
        } else if s[i + 1] == 'u' {
            if i + 6 > s.len() {
                None
            } else {
                match (hex_val(s[i + 2]), hex_val(s[i + 3]), hex_val(s[i + 4]), hex_val(s[i + 5])) {
                    (Some(d3), Some(d2), Some(d1), Some(d0)) => {
                        let v = 4096 * d3 + 256 * d2 + 16 * d1 + d0;
                        if v < 32 {
                            match sp_strbody(s, i + 6) {
                                Some(t) => Some((seq![control_char(v)] + t.0, t.1)),
                                None => None,
                            }
                        } else {
                            None
                        }
                    },
                    _ => None,
                }
            }
        } else {
            None
        }
    } else {
        match sp_strbody(s, i + 1) {
            Some(t) => Some((seq![s[i]] + t.0, t.1)),
            None => None,
        }
    }
}

/// Parses a serialized string (opening quote, body, closing quote) at `i`.
pub open spec fn sp_string(s: Seq<char>, i: int) -> Option<(Seq<char>, int)> {
    if 0 <= i && i < s.len() && s[i] == '"' {
        sp_strbody(s, i + 1)
    } else {
        None
    }
}

/// Parses a serialized optional string at `i`: `null` or a string.
pub open spec fn sp_opt_string(s: Seq<char>, i: int) -> Option<(Option<Seq<char>>, int)> {
    if lit_at(s, i, "null"@) {
        Some((None, i + "null"@.len()))
    } else {
        match sp_string(s, i) {
            Some(t) => Some((Some(t.0), t.1)),
            None => None,
        }
    }
}

/// Parses one serialized entry at `i`.
pub open spec fn sp_entry(s: Seq<char>, i: int) -> Option<(EntryView, int)> {
    if !lit_at(s, i, "{\"service\":"@) {
        None
    } else {
        match sp_string(s, i + "{\"service\":"@.len()) {
            None => None,
            Some(sv) => if !lit_at(s, sv.1, ",\"username\":"@) {
                None
            } else {
                match sp_opt_string(s, sv.1 + ",\"username\":"@.len()) {
                    None => None,
                    Some(uv) => if !lit_at(s, uv.1, ",\"password\":"@) {
                        None
                    } else {
                        match sp_string(s, uv.1 + ",\"password\":"@.len()) {
                            None => None,
                            Some(pv) => if 0 <= pv.1 && pv.1 < s.len() && s[pv.1] == '}' {
                                Some(
                                    (
                                        EntryView {
                                            service: sv.0,
                                            username: uv.0,
                                            password: pv.0,
                                        },
                                        pv.1 + 1,
                                    ),
                                )
                            } else {
                                None
                            },
                        }
                    },
                }
            },
        }
    }
}

/// Parses one or more comma-separated entries starting at `i`.
pub open spec fn sp_entry_list(s: Seq<char>, i: int) -> Option<(Seq<EntryView>, int)>
    decreases s.len() - i,
{
    match sp_entry(s, i) {
        None => None,
        Some(e) => {
            let j = e.1;
            if !(i < j && j <= s.len()) {
                None
            } else if j < s.len() && s[j] == ',' {
                match sp_entry_list(s, j + 1) {
                    Some(t) => Some((seq![e.0] + t.0, t.1)),
                    None => None,
                }
            } else {
                Some((seq![e.0], j))
            }
        },
    }
}

/// Parses a whole serialized credential list; the brackets must enclose the
/// entire input.
pub open spec fn sp_entries(s: Seq<char>) -> Option<Seq<EntryView>> {
    if s.len() == 2 && s[0] == '[' && s[1] == ']' {
        Some(Seq::empty())
    } else if s.len() >= 2 && s[0] == '[' {
        match sp_entry_list(s, 1) {
            Some(t) => if t.1 == s.len() - 1 && s[t.1] == ']' {
                Some(t.0)
            } else {
                None
            },
            None => None,
        }
    } else {
        None
    }
}

/// One character of a segment known to stand at position `i` of `s`.
proof fn lemma_seg_index(s: Seq<char>, i: int, seg: Seq<char>, k: int)
    requires
        0 <= i,
        i + seg.len() <= s.len(),
        s.subrange(i, i + seg.len()) == seg,
        0 <= k < seg.len(),
    ensures
        s[i + k] == seg[k],
{
    assert(s.subrange(i, i + seg.len())[k] == s[i + k]);
}

/// A slice of a segment known to stand at position `i` of `s`.
proof fn lemma_seg_sub(s: Seq<char>, i: int, seg: Seq<char>, a: int, b: int)
    requires
        0 <= i,
        i + seg.len() <= s.len(),
        s.subrange(i, i + seg.len()) == seg,
        0 <= a <= b <= seg.len(),
    ensures
        s.subrange(i + a, i + b) == seg.subrange(a, b),
{
    assert forall|k: int| 0 <= k < b - a implies s.subrange(i + a, i + b)[k] == seg.subrange(
        a,
        b,
    )[k] by {
        lemma_seg_index(s, i, seg, a + k);
    }
    assert(s.subrange(i + a, i + b) =~= seg.subrange(a, b));
}

/// The string-body parser inverts the escaper: where the escape of `x`
/// followed by a closing quote stands at `i`, it decodes exactly `x`.
proof fn lemma_parse_esc(s: Seq<char>, i: int, x: Seq<char>)
    requires
        0 <= i,
        i + esc(x).len() + 1 <= s.len(),
        s.subrange(i, i + esc(x).len() + 1) == esc(x) + seq!['"'],
    ensures
        sp_strbody(s, i) == Some((x, i + esc(x).len() + 1)),
    decreases x.len(),
{
    let seg = esc(x) + seq!['"'];
    if x.len() == 0 {
        assert(esc(x) =~= Seq::<char>::empty());
        lemma_seg_index(s, i, seg, 0);
        assert(s[i] == '"');
        assert(x =~= Seq::<char>::empty());
    } else {
        let c = x[0];
        let rest = x.drop_first();
        assert(esc(x) == esc_char(c) + esc(rest));
        let m = esc_char(c).len();
        assert(seg.subrange(m as int, seg.len() as int) =~= esc(rest) + seq!['"']);
        lemma_seg_sub(s, i, seg, m as int, seg.len() as int);
        lemma_parse_esc(s, i + m as int, rest);
        if c == '"' {
            lemma_seg_index(s, i, seg, 0);
            lemma_seg_index(s, i, seg, 1);
            assert(s[i] == '\\' && s[i + 1] == '"');
            assert(seq![s[i + 1]] + rest =~= x);
        } else if c == '\\' {
            lemma_seg_index(s, i, seg, 0);
            lemma_seg_index(s, i, seg, 1);
            assert(s[i] == '\\' && s[i + 1] == '\\');
            assert(seq![s[i + 1]] + rest =~= x);
        } else {
            lemma_seg_index(s, i, seg, 0);
            assert(s[i] == c);
            assert(seq![s[i]] + rest =~= x);
        }
    }
}

/// The string parser inverts the string serializer.
proof fn lemma_parse_ser_string(s: Seq<char>, i: int, x: Seq<char>)
    requires
        0 <= i,
        i + ser_string(x).len() <= s.len(),
        s.subrange(i, i + ser_string(x).len()) == ser_string(x),
    ensures
        sp_string(s, i) == Some((x, i + ser_string(x).len())),
{
    let seg = ser_string(x);
    lemma_seg_index(s, i, seg, 0);
    assert(s[i] == '"');
    assert(seg.subrange(1, seg.len() as int) =~= esc(x) + seq!['"']);
    lemma_seg_sub(s, i, seg, 1, seg.len() as int);
    lemma_parse_esc(s, i + 1, x);
}

/// The optional-string parser inverts the optional-string serializer.
proof fn lemma_parse_ser_opt(s: Seq<char>, i: int, u: Option<Seq<char>>)
    requires
        0 <= i,
        i + ser_opt_string(u).len() <= s.len(),
        s.subrange(i, i + ser_opt_string(u).len()) == ser_opt_string(u),
    ensures
        sp_opt_string(s, i) == Some((u, i + ser_opt_string(u).len())),
{
    match u {
        None => {
            assert(lit_at(s, i, "null"@));
        },
        Some(x) => {
            let seg = ser_string(x);
            lemma_seg_index(s, i, seg, 0);
            assert(s[i] == '"');
            if lit_at(s, i, "null"@) {
                reveal_strlit("null");
                assert(s.subrange(i, i + "null"@.len())[0] == s[i]);
                assert(s[i] == 'n');
                assert(false);
            }
            lemma_parse_ser_string(s, i, x);
        },
    }
}

/// The entry parser inverts the entry serializer.
proof fn lemma_parse_ser_entry(s: Seq<char>, i: int, e: EntryView)
    requires
        0 <= i,
        i + ser_entry(e).len() <= s.len(),
        s.subrange(i, i + ser_entry(e).len()) == ser_entry(e),
    ensures
        sp_entry(s, i) == Some((e, i + ser_entry(e).len())),
{
    let seg = ser_entry(e);
    let l1 = "{\"service\":"@;
    let a = ser_string(e.service);
    let l2 = ",\"username\":"@;
    let b = ser_opt_string(e.username);
    let l3 = ",\"password\":"@;
    let c = ser_string(e.password);
    let l4 = "}"@;
    let p1 = i + l1.len();
    let p2 = p1 + a.len();
    let p3 = p2 + l2.len();
    let p4 = p3 + b.len();
    let p5 = p4 + l3.len();
    let p6 = p5 + c.len();
    assert(seg.len() == l1.len() + a.len() + l2.len() + b.len() + l3.len() + c.len() + l4.len());

    assert(seg.subrange(0, l1.len() as int) =~= l1);
    lemma_seg_sub(s, i, seg, 0, l1.len() as int);
    assert(lit_at(s, i, l1));

    assert(seg.subrange(p1 - i, p2 - i) =~= a);
    lemma_seg_sub(s, i, seg, p1 - i, p2 - i);
    lemma_parse_ser_string(s, p1, e.service);

    assert(seg.subrange(p2 - i, p3 - i) =~= l2);
    lemma_seg_sub(s, i, seg, p2 - i, p3 - i);
    assert(lit_at(s, p2, l2));

    assert(seg.subrange(p3 - i, p4 - i) =~= b);
    lemma_seg_sub(s, i, seg, p3 - i, p4 - i);
    lemma_parse_ser_opt(s, p3, e.username);

    assert(seg.subrange(p4 - i, p5 - i) =~= l3);
    lemma_seg_sub(s, i, seg, p4 - i, p5 - i);
    assert(lit_at(s, p4, l3));

    assert(seg.subrange(p5 - i, p6 - i) =~= c);
    lemma_seg_sub(s, i, seg, p5 - i, p6 - i);
    lemma_parse_ser_string(s, p5, e.password);

    reveal_strlit("}");
    assert(l4.len() == 1);
    lemma_seg_index(s, i, seg, p6 - i);
    assert(seg[p6 - i] == l4[0]);
    assert(s[p6] == '}');

    assert(EntryView { service: e.service, username: e.username, password: e.password } == e);
}

/// A nonempty serialized list starts with its first entry, then either ends
/// or continues with a comma and the rest.
proof fn lemma_ser_list_head(es: Seq<EntryView>)
    requires
        es.len() >= 1,
    ensures
        ser_list(es) == ser_entry(es[0]) + (if es.len() == 1 {
            Seq::<char>::empty()
        } else {
            seq![','] + ser_list(es.drop_first())
        }),
    decreases es.len(),
{
    if es.len() == 1 {
        assert(ser_list(es) =~= ser_entry(es[0]) + Seq::<char>::empty());
    } else if es.len() == 2 {
        let dl = es.drop_last();
        assert(dl.len() == 1);
        assert(dl[0] == es[0]);
        assert(ser_list(dl) == ser_entry(es[0]));
        let df = es.drop_first();
        assert(df.len() == 1);
        assert(df[0] == es.last());
        assert(ser_list(df) == ser_entry(es.last()));
        assert(ser_list(es) =~= ser_entry(es[0]) + (seq![','] + ser_list(df)));
    } else {
        let dl = es.drop_last();
        lemma_ser_list_head(dl);
        assert(dl[0] == es[0]);
        let df = es.drop_first();
        assert(df.len() == es.len() - 1 >= 2);
        assert(df.drop_last() =~= dl.drop_first());
        assert(df.last() == es.last());
        assert(ser_list(df) == ser_list(df.drop_last()) + seq![','] + ser_entry(df.last()));
        assert(ser_list(es) == ser_list(dl) + seq![','] + ser_entry(es.last()));
        assert(ser_list(dl) == ser_entry(es[0]) + (seq![','] + ser_list(dl.drop_first())));
        assert(ser_list(es) =~= ser_entry(es[0]) + (seq![','] + ser_list(df)));
    }
}

/// Every entry's serialization is nonempty (it opens with its field label).
proof fn lemma_ser_entry_nonempty(e: EntryView)
    ensures
        ser_entry(e).len() >= 11,
{
    reveal_strlit("{\"service\":");
    assert(("{\"service\":"@).len() == 11);
}

/// The list parser inverts the list serializer, stopping at the first
/// position after the list where no comma follows.
proof fn lemma_parse_ser_list(s: Seq<char>, i: int, es: Seq<EntryView>)
    requires
        es.len() >= 1,
        0 <= i,
        i + ser_list(es).len() < s.len(),
        s.subrange(i, i + ser_list(es).len()) == ser_list(es),
        s[i + ser_list(es).len()] != ',',
    ensures
        sp_entry_list(s, i) == Some((es, i + ser_list(es).len())),
    decreases es.len(),
{
    lemma_ser_list_head(es);
    let e0 = ser_entry(es[0]);
    let seg = ser_list(es);
    lemma_ser_entry_nonempty(es[0]);
    assert(seg.subrange(0, e0.len() as int) =~= e0);
    lemma_seg_sub(s, i, seg, 0, e0.len() as int);
    lemma_parse_ser_entry(s, i, es[0]);
    let j = i + e0.len();
    if es.len() == 1 {
        assert(seg =~= e0);
        assert(s[j] != ',');
        assert(seq![es[0]] =~= es);
    } else {
        lemma_seg_index(s, i, seg, e0.len() as int);
        assert(seg[e0.len() as int] == ',');
        assert(s[j] == ',');
        let df = es.drop_first();
        assert(seg.subrange(e0.len() as int + 1, seg.len() as int) =~= ser_list(df));
        lemma_seg_sub(s, i, seg, e0.len() as int + 1, seg.len() as int);
        assert(i + seg.len() == (j + 1) + ser_list(df).len());
        lemma_parse_ser_list(s, j + 1, df);
        assert(seq![es[0]] + df =~= es);
    }
}

/// Parsing inverts serialization: the parser applied to the serialized form
/// of any credential list yields exactly that list.
pub proof fn lemma_parse_serialized(es: Seq<EntryView>)
    ensures
        sp_entries(ser_entries(es)) == Some(es),
{
    let s = ser_entries(es);
    if es.len() == 0 {
        assert(ser_list(es) =~= Seq::<char>::empty());
        assert(s.len() == 2);
        assert(s[0] == '[' && s[1] == ']');
        assert(es =~= Seq::<EntryView>::empty());
    } else {
        lemma_ser_list_head(es);
        lemma_ser_entry_nonempty(es[0]);
        assert(ser_list(es).len() >= 11);
        assert(s.len() >= 13);
        assert(s[0] == '[');
        let ll = ser_list(es).len() as int;
        assert(s.subrange(1, 1 + ll) =~= ser_list(es));
        assert(s[1 + ll] == ']');
        lemma_parse_ser_list(s, 1, es);
        assert(1 + ll == s.len() - 1);
    }
}


/// Whether the characters of `lit` stand at position `i` of `s`, checked
/// character by character.
fn match_literal(s: &str, i: usize, lit: &str) -> (r: bool)
    requires
        i <= s@.len(),
    ensures
        r == lit_at(s@, i as int, lit@),
{
    let n = s.unicode_len();
    let m = lit.unicode_len();
    if m > n - i {
        return false;
    }
    let mut k: usize = 0;
    while k < m
        invariant
            n == s@.len(),
            m == lit@.len(),
            i + m <= n,
            0 <= k <= m,
            forall|t: int| 0 <= t < k ==> s@[i + t] == lit@[t],
        decreases m - k,
    {
        if s.get_char(i + k) != lit.get_char(k) {
            proof {
                if lit_at(s@, i as int, lit@) {
                    lemma_seg_index(s@, i as int, lit@, k as int);
                }
            }
            return false;
        }
        k += 1;
    }
    proof {
        assert(s@.subrange(i as int, i + lit@.len()) =~= lit@);
    }
    true
}


/// The character a named control escape selects, mirroring `named_escape`.
fn named_escape_char(c: char) -> (r: Option<char>)
    ensures
        r == named_escape(c),
{
    if c == 'b' {
        Some('\u{8}')
    } else if c == 'f' {
        Some('\u{c}')
    } else if c == 'n' {
        Some('\n')
    } else if c == 'r' {
        Some('\r')
    } else if c == 't' {
        Some('\t')
    } else {
        None
    }
}

/// The value of a hexadecimal digit, mirroring `hex_val`.
fn hex_val_char(c: char) -> (r: Option<u32>)
    ensures
        match r {
            Some(v) => hex_val(c) == Some(v as int) && v < 16,
            None => hex_val(c) is None,
        },
{
    if c == '0' {
        Some(0)
    } else if c == '1' {
        Some(1)
    } else if c == '2' {
        Some(2)
    } else if c == '3' {
        Some(3)
    } else if c == '4' {
        Some(4)
    } else if c == '5' {
        Some(5)
    } else if c == '6' {
        Some(6)
    } else if c == '7' {
        Some(7)
    } else if c == '8' {
        Some(8)
    } else if c == '9' {
        Some(9)
    } else if c == 'a' || c == 'A' {
        Some(10)
    } else if c == 'b' || c == 'B' {
        Some(11)
    } else if c == 'c' || c == 'C' {
        Some(12)
    } else if c == 'd' || c == 'D' {
        Some(13)
    } else if c == 'e' || c == 'E' {
        Some(14)
    } else if c == 'f' || c == 'F' {
        Some(15)
    } else {
        None
    }
}

/// Parses a serialized string at `start`; yields the decoded string and the
/// position after its closing quote.
fn parse_string(s: &str, start: usize) -> (r: Option<(String, usize)>)
    requires
        start <= s@.len(),
    ensures
        match r {
            Some(t) => sp_string(s@, start as int) == Some((t.0@, t.1 as int)) && start < t.1
                <= s@.len(),
            None => sp_string(s@, start as int) is None,
        },
{
    let n = s.unicode_len();
    if start >= n || s.get_char(start) != '"' {
        return None;
    }
    let mut acc = String::new();
    let mut cur: usize = start + 1;
    loop
        invariant
            n == s@.len(),
            start < n,
            s@[start as int] == '"',
            start + 1 <= cur <= n,
            sp_strbody(s@, start + 1) == (match sp_strbody(s@, cur as int) {
                Some(t) => Some((acc@ + t.0, t.1)),
                None => None::<(Seq<char>, int)>,
            }),
        decreases n - cur,
    {
        if cur >= n {
            return None;
        }
        let c = s.get_char(cur);
        if c == '"' {
            proof {
                assert(acc@ + Seq::<char>::empty() =~= acc@);
            }
            return Some((acc, cur + 1));
        } else if c == '\\' {
            if cur + 1 >= n {
                return None;
            }
            let e = s.get_char(cur + 1);
            if e == '"' || e == '\\' {
                let ghost acc_old = acc@;
                push_char(&mut acc, e);
                proof {
                    match sp_strbody(s@, cur + 2) {
                        Some(t) => {
                            assert(acc_old + (seq![e] + t.0) =~= (acc_old + seq![e]) + t.0);
                        },
                        None => {},
                    }
                }
                cur = cur + 2;
            } else if let Some(decoded) = named_escape_char(e) {
                let ghost acc_old = acc@;
                push_char(&mut acc, decoded);
                proof {
                    match sp_strbody(s@, cur + 2) {
                        Some(t) => {
                            assert(acc_old + (seq![decoded] + t.0) =~= (acc_old + seq![decoded])
                                + t.0);
                        },
                        None => {},
                    }
                }
                cur = cur + 2;
            } else if e == 'u' {
                if n - cur < 6 {
                    return None;
                }
                let h3 = match hex_val_char(s.get_char(cur + 2)) {
                    Some(v) => v,
                    None => {
                        return None;
                    },
                };
                let h2 = match hex_val_char(s.get_char(cur + 3)) {
                    Some(v) => v,
                    None => {
                        return None;
                    },
                };
                let h1 = match hex_val_char(s.get_char(cur + 4)) {
                    Some(v) => v,
                    None => {
                        return None;
                    },
                };
                let h0 = match hex_val_char(s.get_char(cur + 5)) {
                    Some(v) => v,
                    None => {
                        return None;
                    },
                };
                let v: u32 = 4096 * h3 + 256 * h2 + 16 * h1 + h0;
                if v >= 32 {
                    return None;
                }
                let decoded = (v as u8) as char;
                let ghost acc_old = acc@;
                push_char(&mut acc, decoded);
                proof {
                    assert(decoded == control_char(v as int));
                    match sp_strbody(s@, cur + 6) {
                        Some(t) => {
                            assert(acc_old + (seq![decoded] + t.0) =~= (acc_old + seq![decoded])
                                + t.0);
                        },
                        None => {},
                    }
                }
                cur = cur + 6;
            } else {
                return None;
            }
        } else {
            let ghost acc_old = acc@;
            push_char(&mut acc, c);
            proof {
                match sp_strbody(s@, cur + 1) {
                    Some(t) => {
                        assert(acc_old + (seq![c] + t.0) =~= (acc_old + seq![c]) + t.0);
                    },
                    None => {},
                }
            }
            cur = cur + 1;
        }
    }
}

/// Parses a serialized optional string at `start`: `null` or a string.
fn parse_opt_string(s: &str, start: usize) -> (r: Option<(Option<String>, usize)>)
    requires
        start <= s@.len(),
    ensures
        match r {
            Some(t) => sp_opt_string(s@, start as int) == Some(
                (crate::pass::opt_view(t.0), t.1 as int),
            ) && start < t.1 <= s@.len(),
            None => sp_opt_string(s@, start as int) is None,
        },
{
    let n = s.unicode_len();
    if match_literal(s, start, "null") {
        proof {
            reveal_strlit("null");
        }
        return Some((None, start + 4));
    }
    match parse_string(s, start) {
        Some(t) => Some((Some(t.0), t.1)),
        None => None,
    }
}

/// Parses one serialized entry at `start`.
fn parse_entry(s: &str, start: usize) -> (r: Option<(PasswordEntry, usize)>)
    requires
        start <= s@.len(),
    ensures
        match r {
            Some(t) => sp_entry(s@, start as int) == Some((t.0@, t.1 as int)) && start < t.1
                <= s@.len(),
            None => sp_entry(s@, start as int) is None,
        },
{
    let n = s.unicode_len();
    if !match_literal(s, start, "{\"service\":") {
        return None;
    }
    proof {
        reveal_strlit("{\"service\":");
    }
    let p1 = start + 11;
    let (sv, p2) = match parse_string(s, p1) {
        Some(t) => t,
        None => {
            return None;
        },
    };
    if !match_literal(s, p2, ",\"username\":") {
        return None;
    }
    proof {
        reveal_strlit(",\"username\":");
    }
    let p3 = p2 + 12;
    let (uv, p4) = match parse_opt_string(s, p3) {
        Some(t) => t,
        None => {
            return None;
        },
    };
    if !match_literal(s, p4, ",\"password\":") {
        return None;
    }
    proof {
        reveal_strlit(",\"password\":");
    }
    let p5 = p4 + 12;
    let (pv, p6) = match parse_string(s, p5) {
        Some(t) => t,
        None => {
            return None;
        },
    };
    if p6 >= n {
        return None;
    }
    if s.get_char(p6) != '}' {
        return None;
    }
    let entry = PasswordEntry::new(sv, uv, pv);
    Some((entry, p6 + 1))
}

impl Passwords {
    /// Parses a serialized credential list back into entries; fails on any
    /// input that the serializer could not have produced.
    pub fn parse_passwords(raw: &str) -> (r: Result<Passwords, crate::store::StoreError>)
        ensures
            match sp_entries(raw@) {
                Some(es) => r matches Ok(p) && p@ == es,
                None => r == Err::<Passwords, crate::store::StoreError>(
                    crate::store::StoreError::ParseError,
                ),
            },
    {
        let n = raw.unicode_len();
        if n < 2 || raw.get_char(0) != '[' {
            return Err(crate::store::StoreError::ParseError);
        }
        if n == 2 {
            if raw.get_char(1) == ']' {
                let empty = Passwords::new();
                return Ok(empty);
            } else {
                proof {
                    reveal_strlit("{\"service\":");
                    if sp_entries(raw@) is Some {
                        assert(sp_entry(raw@, 1) is None);
                    }
                }
                return Err(crate::store::StoreError::ParseError);
            }
        }
        let mut entries: Vec<PasswordEntry> = Vec::new();
        let mut pos: usize = 1;
        loop
            invariant
                n == raw@.len(),
                n > 2,
                raw@[0] == '[',
                1 <= pos <= n,
                sp_entry_list(raw@, 1) == (match sp_entry_list(raw@, pos as int) {
                    Some(t) => Some(
                        (entries@.map_values(|pe: PasswordEntry| pe@) + t.0, t.1),
                    ),
                    None => None::<(Seq<EntryView>, int)>,
                }),
            decreases n - pos,
        {
            let (e, j) = match parse_entry(raw, pos) {
                Some(t) => t,
                None => {
                    return Err(crate::store::StoreError::ParseError);
                },
            };
            let ghost vs_old = entries@.map_values(|pe: PasswordEntry| pe@);
            entries.push(e);
            proof {
                assert(entries@.map_values(|pe: PasswordEntry| pe@) =~= vs_old + seq![e@]);
            }
            let continue_list = j < n && raw.get_char(j) == ',';
            if continue_list {
                proof {
                    match sp_entry_list(raw@, j + 1) {
                        Some(t) => {
                            assert(vs_old + (seq![e@] + t.0) =~= (vs_old + seq![e@]) + t.0);
                        },
                        None => {},
                    }
                }
                pos = j + 1;
            } else {
                proof {
                    assert(sp_entry_list(raw@, pos as int) == Some((seq![e@], j as int)));
                    assert(vs_old + seq![e@] =~= entries@.map_values(|pe: PasswordEntry| pe@));
                }
                if j == n - 1 && raw.get_char(j) == ']' {
                    let out = Passwords(entries);
                    proof {
                        assert(out@ =~= out.0@.map_values(|pe: PasswordEntry| pe@));
                    }
                    return Ok(out);
                } else {
                    return Err(crate::store::StoreError::ParseError);
                }
            }
        }
    }
}

} // verus!
