//! JSON documents, read and written by `serde_json`.

use vstd::prelude::*;

use crate::text;

verus! {

/// A `serde_json` document, carried through without looking inside.
#[verifier::external_type_specification]
#[verifier::external_body]
pub struct ExValue(serde_json::Value);

/// What a document holds, written as compact JSON text.
pub uninterp spec fn json_text(v: serde_json::Value) -> Seq<char>;

/// What `serde_json::from_str` makes of a text: the document it holds, as
/// compact JSON text, or the message of the syntax error.
pub uninterp spec fn json_document(text: Seq<char>) -> Result<Seq<char>, Seq<char>>;

/// `serde_json::from_str` into a document, an error being turned into its
/// message. The outcome is a function of the text alone.
#[verifier::external_body]
pub(crate) fn read_json(text: &str) -> (r: Result<serde_json::Value, String>)
    ensures
        match r {
            Ok(v) => json_document(text@) == Ok::<Seq<char>, Seq<char>>(json_text(v)),
            Err(e) => json_document(text@) == Err::<Seq<char>, Seq<char>>(e@),
        },
{
    serde_json::from_str(text).map_err(|e| e.to_string())
}

/// `serde_json::Value`'s `to_string`: the document as compact JSON text.
#[verifier::external_body]
pub(crate) fn write_json(v: &serde_json::Value) -> (r: String)
    ensures
        r@ == json_text(*v),
{
    v.to_string()
}

/// `serde_json::Value::Null`, the document that reads `null`.
#[verifier::external_body]
pub(crate) fn null_json() -> (v: serde_json::Value)
    ensures
        json_text(v) == "null"@,
{
    serde_json::Value::Null
}

/// `serde_json::Value::from` on an unsigned number: the document is that number
/// in decimal.
#[verifier::external_body]
pub(crate) fn number_json(n: u64) -> (v: serde_json::Value)
    ensures
        json_text(v) == text::decimal(n as nat),
{
    serde_json::Value::from(n)
}

// ── Strings ──

/// How one character stands inside a JSON string.
pub open spec fn escaped(c: char) -> Seq<char> {
    if c == '"' {
        seq!['\\', '"']
    } else if c == '\\' {
        seq!['\\', '\\']
    } else if c == '\u{8}' {
        seq!['\\', 'b']
    } else if c == '\t' {
        seq!['\\', 't']
    } else if c == '\n' {
        seq!['\\', 'n']
    } else if c == '\u{c}' {
        seq!['\\', 'f']
    } else if c == '\r' {
        seq!['\\', 'r']
    } else if (c as nat) < 32 {
        seq!['\\', 'u', '0', '0', text::hex_char(c as nat / 16), text::hex_char(c as nat % 16)]
    } else {
        seq![c]
    }
}

/// The inside of the JSON string for `s`.
pub open spec fn escaped_text(s: Seq<char>) -> Seq<char>
    decreases s.len(),
{
    if s.len() == 0 {
        Seq::empty()
    } else {
        escaped_text(s.drop_last()) + escaped(s.last())
    }
}

/// The JSON string for `s`, quotes included.
pub open spec fn json_string(s: Seq<char>) -> Seq<char> {
    seq!['"'] + escaped_text(s) + seq!['"']
}

/// `serde_json::to_string` on a string slice: its JSON string, with the quote,
/// the backslash and the control characters escaped and all else verbatim.
#[verifier::external_body]
pub(crate) fn quote_json(s: &str) -> (r: String)
    ensures
        r@ == json_string(s@),
{
    serde_json::to_string(s).unwrap_or_default()
}

/// A JSON string holds no control character, so it never breaks a line.
pub proof fn lemma_json_string_printable(s: Seq<char>)
    ensures
        forall|i: int| 0 <= i < json_string(s).len() ==> #[trigger] json_string(s)[i] >= ' ',
{
    lemma_escaped_printable(s);
    let q = json_string(s);
    assert forall|i: int| 0 <= i < q.len() implies #[trigger] q[i] >= ' ' by {
        if 0 < i < q.len() - 1 {
            assert(q[i] == escaped_text(s)[i - 1]);
        }
    }
}

proof fn lemma_escape_printable(c: char)
    ensures
        forall|j: int| 0 <= j < escaped(c).len() ==> #[trigger] escaped(c)[j] >= ' ',
{
    if (c as nat) < 32 {
        assert(text::hex_char(c as nat / 16) >= ' ');
        assert(text::hex_char(c as nat % 16) >= ' ');
    }
}

proof fn lemma_escaped_printable(s: Seq<char>)
    ensures
        forall|i: int| 0 <= i < escaped_text(s).len() ==> #[trigger] escaped_text(s)[i] >= ' ',
    decreases s.len(),
{
    if s.len() > 0 {
        let head = escaped_text(s.drop_last());
        lemma_escaped_printable(s.drop_last());
        let tail = escaped(s.last());
        lemma_escape_printable(s.last());
        assert forall|i: int| 0 <= i < escaped_text(s).len() implies #[trigger] escaped_text(s)[i]
            >= ' ' by {
            if i < head.len() {
                assert(escaped_text(s)[i] == head[i]);
            } else {
                assert(escaped_text(s)[i] == tail[i - head.len()]);
            }
        }
    }
}

/// The escapes may be read off from the front as well.
proof fn lemma_escaped_first(s: Seq<char>)
    requires
        s.len() > 0,
    ensures
        escaped_text(s) == escaped(s[0]) + escaped_text(s.skip(1)),
    decreases s.len(),
{
    if s.len() == 1 {
        assert(s.drop_last() =~= Seq::empty());
        assert(s.skip(1) =~= Seq::empty());
        assert(escaped_text(s) =~= escaped(s[0]) + escaped_text(s.skip(1)));
    } else {
        lemma_escaped_first(s.drop_last());
        assert(s.drop_last().skip(1) =~= s.skip(1).drop_last());
        assert(escaped_text(s) =~= escaped(s[0]) + escaped_text(s.skip(1)));
    }
}

proof fn lemma_hex_char_apart(a: nat, b: nat)
    requires
        a < 16,
        b < 16,
        text::hex_char(a) == text::hex_char(b),
    ensures
        a == b,
{
}

/// Which character an escape stands for can be told from its front.
proof fn lemma_escape_apart(a: char, x: Seq<char>, b: char, y: Seq<char>)
    requires
        escaped(a) + x == escaped(b) + y,
    ensures
        a == b,
        x == y,
{
    let ta = escaped(a) + x;
    let tb = escaped(b) + y;
    assert(ta[0] == escaped(a)[0]);
    assert(tb[0] == escaped(b)[0]);
    if escaped(a).len() > 1 && escaped(b).len() > 1 {
        assert(ta[1] == escaped(a)[1]);
        assert(tb[1] == escaped(b)[1]);
        if escaped(a).len() > 2 && escaped(b).len() > 2 {
            assert(ta[4] == escaped(a)[4]);
            assert(tb[4] == escaped(b)[4]);
            assert(ta[5] == escaped(a)[5]);
            assert(tb[5] == escaped(b)[5]);
            lemma_hex_char_apart(a as nat / 16, b as nat / 16);
            lemma_hex_char_apart(a as nat % 16, b as nat % 16);
        }
    }
    assert(a == b);
    assert(x =~= ta.skip(escaped(a).len() as int));
    assert(y =~= tb.skip(escaped(b).len() as int));
}

proof fn lemma_quoted_apart(a: Seq<char>, x: Seq<char>, b: Seq<char>, y: Seq<char>)
    requires
        escaped_text(a) + (seq!['"'] + x) == escaped_text(b) + (seq!['"'] + y),
    ensures
        a == b,
        x == y,
    decreases a.len(),
{
    let q = seq!['"'];
    let ta = escaped_text(a) + (q + x);
    let tb = escaped_text(b) + (q + y);
    if a.len() > 0 {
        lemma_escaped_first(a);
        assert(ta[0] == escaped(a[0])[0]);
    } else {
        assert(ta =~= q + x);
    }
    if b.len() > 0 {
        lemma_escaped_first(b);
        assert(tb[0] == escaped(b[0])[0]);
    } else {
        assert(tb =~= q + y);
    }
    if a.len() == 0 && b.len() == 0 {
        assert(x =~= ta.skip(1));
        assert(y =~= tb.skip(1));
        assert(a =~= b);
    } else {
        let a1 = a.skip(1);
        let b1 = b.skip(1);
        assert(ta =~= escaped(a[0]) + (escaped_text(a1) + (q + x)));
        assert(tb =~= escaped(b[0]) + (escaped_text(b1) + (q + y)));
        lemma_escape_apart(
            a[0],
            escaped_text(a1) + (q + x),
            b[0],
            escaped_text(b1) + (q + y),
        );
        lemma_quoted_apart(a1, x, b1, y);
        assert(a =~= seq![a[0]] + a1);
        assert(b =~= seq![b[0]] + b1);
    }
}

/// A JSON string ends where it ends: what it holds and what follows it can be
/// told from the text.
pub proof fn lemma_json_string_apart(a: Seq<char>, x: Seq<char>, b: Seq<char>, y: Seq<char>)
    requires
        json_string(a) + x == json_string(b) + y,
    ensures
        a == b,
        x == y,
{
    let q = seq!['"'];
    assert((json_string(a) + x).skip(1) =~= escaped_text(a) + (q + x));
    assert((json_string(b) + y).skip(1) =~= escaped_text(b) + (q + y));
    lemma_quoted_apart(a, x, b, y);
}

} // verus!
