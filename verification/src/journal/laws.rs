//! What holds of the journal as a whole: keys do not run together, and what was
//! written is read back.

use vstd::prelude::*;
use vstd::utf8::*;

use crate::journal;
use crate::journal::{EntryView, JournalEntry, JournalView, KeyInput, KeyView};
use crate::json;
use crate::text;

verus! {

// ── Keys ──

/// No NUL in the text.
pub open spec fn nul_free(s: Seq<char>) -> bool {
    forall|i: int| 0 <= i < s.len() ==> #[trigger] s[i] != '\0'
}

/// No NUL in an optional field.
pub open spec fn opt_nul_free(o: Option<Seq<char>>) -> bool {
    o matches Some(s) ==> nul_free(s)
}

/// Two texts whose last NUL begins their second halves split alike.
proof fn lemma_last_nul_splits(a: Seq<char>, x: Seq<char>, b: Seq<char>, y: Seq<char>)
    requires
        a + x == b + y,
        x.len() > 0,
        x[0] == '\0',
        nul_free(x.skip(1)),
        y.len() > 0,
        y[0] == '\0',
        nul_free(y.skip(1)),
    ensures
        a == b,
        x == y,
{
    let t = a + x;
    assert(t.len() == a.len() + x.len());
    assert((b + y).len() == b.len() + y.len());
    if a.len() < b.len() {
        let d = b.len() - a.len();
        assert(t[b.len() as int] == y[0]);
        assert(t[b.len() as int] == x[d]);
        assert(x.skip(1)[d - 1] == x[d]);
    } else if b.len() < a.len() {
        let d = a.len() - b.len();
        assert(t[a.len() as int] == x[0]);
        assert(t[a.len() as int] == (b + y)[a.len() as int]);
        assert((b + y)[a.len() as int] == y[d]);
        assert(y.skip(1)[d - 1] == y[d]);
    }
    assert(a =~= t.take(a.len() as int));
    assert(b =~= (b + y).take(b.len() as int));
    assert(x =~= t.skip(a.len() as int));
    assert(y =~= (b + y).skip(b.len() as int));
}

/// A tagged field starts with the tag's NUL and has no other.
proof fn lemma_tagged_shape(tag: Seq<char>, v: Option<Seq<char>>)
    requires
        tag.len() > 0,
        tag[0] == '\0',
        nul_free(tag.skip(1)),
        opt_nul_free(v),
    ensures
        journal::tagged(tag, v).len() > 0,
        journal::tagged(tag, v)[0] == '\0',
        nul_free(journal::tagged(tag, v).skip(1)),
{
    reveal_strlit("+");
    reveal_strlit("-");
    let t = journal::tagged(tag, v);
    assert forall|i: int| 0 <= i < t.skip(1).len() implies #[trigger] t.skip(1)[i] != '\0' by {
        assert(t.skip(1)[i] == t[i + 1]);
        if i + 1 < tag.len() {
            assert(tag.skip(1)[i] == tag[i + 1]);
        }
    }
}

/// Under one tag, the field can be told from its encoding.
proof fn lemma_tagged_injective(tag: Seq<char>, v: Option<Seq<char>>, w: Option<Seq<char>>)
    requires
        journal::tagged(tag, v) == journal::tagged(tag, w),
    ensures
        v == w,
{
    reveal_strlit("+");
    reveal_strlit("-");
    let t = journal::tagged(tag, v);
    let n = tag.len() as int;
    assert(v is Some ==> t[n] == '+');
    assert(v is None ==> t[n] == '-');
    assert(w is Some ==> t[n] == '+');
    assert(w is None ==> t[n] == '-');
    if v is Some {
        assert(v->0 =~= t.skip(n + 1));
        assert(w->0 =~= t.skip(n + 1));
    }
}

/// Distinct inputs have distinct encodings, across every field boundary and
/// between unset and empty, whatever the prompt holds; the other fields, which
/// become arguments of a process or JSON text, hold no NUL.
pub proof fn law_encoding_tells_inputs_apart(a: KeyView, b: KeyView)
    requires
        journal::key_text(a) == journal::key_text(b),
        opt_nul_free(a.model),
        opt_nul_free(a.sandbox),
        opt_nul_free(a.schema),
        opt_nul_free(a.cwd),
        opt_nul_free(b.model),
        opt_nul_free(b.sandbox),
        opt_nul_free(b.schema),
        opt_nul_free(b.cwd),
    ensures
        a == b,
{
    reveal_strlit("prompt=");
    reveal_strlit("\0model");
    reveal_strlit("\0sandbox");
    reveal_strlit("\0schema");
    reveal_strlit("\0cwd");
    reveal_strlit("\0isolate=");
    reveal_strlit("0");
    reveal_strlit("1");
    let one = |k: KeyView| "\0isolate="@ + if k.isolate {
        "1"@
    } else {
        "0"@
    };
    let a1 = "prompt="@ + a.prompt;
    let a2 = a1 + journal::tagged("\0model"@, a.model);
    let a3 = a2 + journal::tagged("\0sandbox"@, a.sandbox);
    let a4 = a3 + journal::tagged("\0schema"@, a.schema);
    let a5 = a4 + journal::tagged("\0cwd"@, a.cwd);
    let b1 = "prompt="@ + b.prompt;
    let b2 = b1 + journal::tagged("\0model"@, b.model);
    let b3 = b2 + journal::tagged("\0sandbox"@, b.sandbox);
    let b4 = b3 + journal::tagged("\0schema"@, b.schema);
    let b5 = b4 + journal::tagged("\0cwd"@, b.cwd);
    lemma_last_nul_splits(a5, one(a), b5, one(b));
    assert(one(a)[9] == one(b)[9]);
    lemma_tagged_shape("\0cwd"@, a.cwd);
    lemma_tagged_shape("\0cwd"@, b.cwd);
    lemma_last_nul_splits(
        a4,
        journal::tagged("\0cwd"@, a.cwd),
        b4,
        journal::tagged("\0cwd"@, b.cwd),
    );
    lemma_tagged_injective("\0cwd"@, a.cwd, b.cwd);
    lemma_tagged_shape("\0schema"@, a.schema);
    lemma_tagged_shape("\0schema"@, b.schema);
    lemma_last_nul_splits(
        a3,
        journal::tagged("\0schema"@, a.schema),
        b3,
        journal::tagged("\0schema"@, b.schema),
    );
    lemma_tagged_injective("\0schema"@, a.schema, b.schema);
    lemma_tagged_shape("\0sandbox"@, a.sandbox);
    lemma_tagged_shape("\0sandbox"@, b.sandbox);
    lemma_last_nul_splits(
        a2,
        journal::tagged("\0sandbox"@, a.sandbox),
        b2,
        journal::tagged("\0sandbox"@, b.sandbox),
    );
    lemma_tagged_injective("\0sandbox"@, a.sandbox, b.sandbox);
    lemma_tagged_shape("\0model"@, a.model);
    lemma_tagged_shape("\0model"@, b.model);
    lemma_last_nul_splits(
        a1,
        journal::tagged("\0model"@, a.model),
        b1,
        journal::tagged("\0model"@, b.model),
    );
    lemma_tagged_injective("\0model"@, a.model, b.model);
    assert(a.prompt =~= a1.skip(7));
    assert(b.prompt =~= b1.skip(7));
}

/// A key is sixteen characters long, whatever the inputs.
pub proof fn law_key_has_fixed_length(k: KeyView)
    ensures
        journal::key_of(k).len() == 16,
{
    lemma_hex_fixed_len(journal::fnv1a(encode_utf8(journal::key_text(k))) as nat, 16);
}

/// Two keys are the same exactly when what was hashed has the same hash.
pub proof fn law_key_is_the_hash(a: KeyView, b: KeyView)
    ensures
        journal::key_of(a) == journal::key_of(b) <==> journal::fnv1a(
            encode_utf8(journal::key_text(a)),
        ) == journal::fnv1a(encode_utf8(journal::key_text(b))),
{
    let x = journal::fnv1a(encode_utf8(journal::key_text(a)));
    let y = journal::fnv1a(encode_utf8(journal::key_text(b)));
    if journal::key_of(a) == journal::key_of(b) {
        reveal_with_fuel(text::laws::hex_range, 17);
        assert(text::laws::hex_range(16) == 0x1_0000_0000_0000_0000);
        text::laws::law_hex_digits_distinct(x as nat, y as nat, 16);
    }
}

/// What one byte does to a hash can be undone.
proof fn lemma_step_keeps_states_apart(g: u64, h: u64)
    requires
        (g as nat * 0x0000_0100_0000_01b3) % 0x1_0000_0000_0000_0000 == (h as nat
            * 0x0000_0100_0000_01b3) % 0x1_0000_0000_0000_0000,
    ensures
        g == h,
{
    let m = 0x1_0000_0000_0000_0000int;
    let p = 0x0000_0100_0000_01b3int;
    let inv = 0xce96_5057_aff6_957bint;
    let x = g as int;
    let y = h as int;
    assert(p * inv == 887285111055 * m + 1);
    assert((x * p * inv) % m == x) by {
        assert(x * p * inv == (887285111055 * x) * m + x) by (nonlinear_arith)
            requires
                p * inv == 887285111055 * m + 1,
        ;
        vstd::arithmetic::div_mod::lemma_mod_multiples_vanish(887285111055 * x, x, m);
        vstd::arithmetic::div_mod::lemma_small_mod(x as nat, m as nat);
        assert(m * (887285111055 * x) + x == (887285111055 * x) * m + x) by (nonlinear_arith);
    }
    assert((y * p * inv) % m == y) by {
        assert(y * p * inv == (887285111055 * y) * m + y) by (nonlinear_arith)
            requires
                p * inv == 887285111055 * m + 1,
        ;
        vstd::arithmetic::div_mod::lemma_mod_multiples_vanish(887285111055 * y, y, m);
        vstd::arithmetic::div_mod::lemma_small_mod(y as nat, m as nat);
        assert(m * (887285111055 * y) + y == (887285111055 * y) * m + y) by (nonlinear_arith);
    }
    vstd::arithmetic::div_mod::lemma_mul_mod_noop_left(x * p, inv, m);
    vstd::arithmetic::div_mod::lemma_mul_mod_noop_left(y * p, inv, m);
}

/// Folding the same bytes never brings two different hashes together.
pub proof fn law_same_tail_keeps_hashes_apart(g: u64, h: u64, bytes: Seq<u8>)
    requires
        g != h,
    ensures
        journal::fnv_fold(g, bytes) != journal::fnv_fold(h, bytes),
    decreases bytes.len(),
{
    if bytes.len() > 0 {
        let x = journal::fnv_fold(g, bytes.drop_last());
        let y = journal::fnv_fold(h, bytes.drop_last());
        let b = bytes.last() as u64;
        law_same_tail_keeps_hashes_apart(g, h, bytes.drop_last());
        if journal::fnv_fold(g, bytes) == journal::fnv_fold(h, bytes) {
            lemma_step_keeps_states_apart(x ^ b, y ^ b);
            assert(x ^ b == y ^ b ==> x == y) by (bit_vector);
        }
    }
}

/// Every byte counts: texts of bytes that differ in one place hash differently.
pub proof fn law_one_changed_byte_changes_the_hash(u: Seq<u8>, c: u8, d: u8, v: Seq<u8>)
    requires
        c != d,
    ensures
        journal::fnv1a(u + seq![c] + v) != journal::fnv1a(u + seq![d] + v),
{
    let start = 0xcbf2_9ce4_8422_2325u64;
    let h = journal::fnv_fold(start, u);
    journal::lemma_fnv_concat(start, u + seq![c], v);
    journal::lemma_fnv_concat(start, u + seq![d], v);
    assert((u + seq![c]).drop_last() =~= u);
    assert((u + seq![d]).drop_last() =~= u);
    let x = journal::fnv_step(h, c);
    let y = journal::fnv_step(h, d);
    if x == y {
        let cw = c as u64;
        let dw = d as u64;
        lemma_step_keeps_states_apart(h ^ cw, h ^ dw);
        assert(h ^ cw == h ^ dw ==> cw == dw) by (bit_vector);
    }
    law_same_tail_keeps_hashes_apart(x, y, v);
}

proof fn lemma_ascii_is_one_byte(c: char)
    requires
        c <= '~',
    ensures
        encode_utf8(seq![c]).len() == 1,
{
    assert(seq![c].drop_first() =~= Seq::<char>::empty());
    assert(encode_utf8(seq![c].drop_first()) =~= Seq::<u8>::empty());
    assert(encode_utf8(seq![c]) =~= encode_scalar(c as u32));
}

/// One ASCII character changed for another, anywhere in what is hashed, changes
/// the key.
pub proof fn law_one_changed_character_changes_the_key(
    a: KeyView,
    b: KeyView,
    u: Seq<char>,
    c: char,
    d: char,
    v: Seq<char>,
)
    requires
        c != d,
        c <= '~',
        d <= '~',
        journal::key_text(a) == u + seq![c] + v,
        journal::key_text(b) == u + seq![d] + v,
    ensures
        journal::key_of(a) != journal::key_of(b),
{
    let x = encode_utf8(seq![c]);
    let y = encode_utf8(seq![d]);
    lemma_ascii_is_one_byte(c);
    lemma_ascii_is_one_byte(d);
    assert(x =~= seq![x[0]]);
    assert(y =~= seq![y[0]]);
    if x == y {
        text::lemma_utf8_injective(seq![c], seq![d]);
        assert(seq![c][0] == seq![d][0]);
    }
    text::lemma_utf8_concat(u, seq![c]);
    text::lemma_utf8_concat(u, seq![d]);
    text::lemma_utf8_concat(u + seq![c], v);
    text::lemma_utf8_concat(u + seq![d], v);
    law_one_changed_byte_changes_the_hash(encode_utf8(u), x[0], y[0], encode_utf8(v));
    law_key_is_the_hash(a, b);
}

/// Whether an agent is isolated is part of its key, whatever else is.
pub proof fn law_isolation_is_hashed(a: KeyView, b: KeyView)
    requires
        a.prompt == b.prompt,
        a.model == b.model,
        a.sandbox == b.sandbox,
        a.schema == b.schema,
        a.cwd == b.cwd,
        a.isolate != b.isolate,
    ensures
        journal::key_of(a) != journal::key_of(b),
{
    reveal_strlit("0");
    reveal_strlit("1");
    let x = journal::key_text(a);
    let y = journal::key_text(b);
    let u = x.drop_last();
    let e = Seq::<char>::empty();
    assert(u =~= y.drop_last());
    assert(x =~= u + seq![x.last()] + e);
    assert(y =~= u + seq![y.last()] + e);
    law_one_changed_character_changes_the_key(a, b, u, x.last(), y.last(), e);
}

proof fn lemma_sign_changes_the_key(
    a: KeyView,
    b: KeyView,
    u: Seq<char>,
    tag: Seq<char>,
    v: Seq<char>,
)
    requires
        journal::key_text(a) == u + journal::tagged(tag, None) + v,
        journal::key_text(b) == u + journal::tagged(tag, Some(Seq::empty())) + v,
    ensures
        journal::key_of(a) != journal::key_of(b),
{
    reveal_strlit("+");
    reveal_strlit("-");
    assert("+"@ =~= seq!['+']);
    assert("-"@ =~= seq!['-']);
    assert(journal::key_text(a) =~= (u + tag) + seq!['-'] + v);
    assert(journal::key_text(b) =~= (u + tag) + seq!['+'] + v);
    law_one_changed_character_changes_the_key(a, b, u + tag, '-', '+', v);
}

proof fn lemma_regrouped(
    p: Seq<char>,
    m: Seq<char>,
    s: Seq<char>,
    h: Seq<char>,
    c: Seq<char>,
    z: Seq<char>,
)
    ensures
        p + m + s + h + c + z == p + m + (s + h + c + z),
        p + m + s + h + c + z == p + m + s + (h + c + z),
        p + m + s + h + c + z == p + m + s + h + (c + z),
{
    assert(p + m + s + h + c + z =~= p + m + (s + h + c + z));
    assert(p + m + s + h + c + z =~= p + m + s + (h + c + z));
    assert(p + m + s + h + c + z =~= p + m + s + h + (c + z));
}

/// An option that is set to nothing is another call than one left unset, under
/// every option.
pub proof fn law_unset_is_not_empty(a: KeyView)
    ensures
        a.model is None ==> journal::key_of(a) != journal::key_of(
            (KeyView { model: Some(Seq::empty()), ..a }),
        ),
        a.sandbox is None ==> journal::key_of(a) != journal::key_of(
            (KeyView { sandbox: Some(Seq::empty()), ..a }),
        ),
        a.schema is None ==> journal::key_of(a) != journal::key_of(
            (KeyView { schema: Some(Seq::empty()), ..a }),
        ),
        a.cwd is None ==> journal::key_of(a) != journal::key_of(
            (KeyView { cwd: Some(Seq::empty()), ..a }),
        ),
{
    let e = Some(Seq::<char>::empty());
    let p = "prompt="@ + a.prompt;
    let m = journal::tagged("\0model"@, a.model);
    let s = journal::tagged("\0sandbox"@, a.sandbox);
    let h = journal::tagged("\0schema"@, a.schema);
    let c = journal::tagged("\0cwd"@, a.cwd);
    let z = "\0isolate="@ + if a.isolate {
        "1"@
    } else {
        "0"@
    };
    if a.model is None {
        let b = KeyView { model: e, ..a };
        let t = journal::tagged("\0model"@, e);
        lemma_regrouped(p, m, s, h, c, z);
        lemma_regrouped(p, t, s, h, c, z);
        lemma_sign_changes_the_key(a, b, p, "\0model"@, s + h + c + z);
    }
    if a.sandbox is None {
        let b = KeyView { sandbox: e, ..a };
        let t = journal::tagged("\0sandbox"@, e);
        lemma_regrouped(p, m, s, h, c, z);
        lemma_regrouped(p, m, t, h, c, z);
        lemma_sign_changes_the_key(a, b, p + m, "\0sandbox"@, h + c + z);
    }
    if a.schema is None {
        let b = KeyView { schema: e, ..a };
        let t = journal::tagged("\0schema"@, e);
        lemma_regrouped(p, m, s, h, c, z);
        lemma_regrouped(p, m, s, t, c, z);
        lemma_sign_changes_the_key(a, b, p + m + s, "\0schema"@, c + z);
    }
    if a.cwd is None {
        let b = KeyView { cwd: e, ..a };
        lemma_sign_changes_the_key(a, b, p + m + s + h, "\0cwd"@, z);
    }
}

/// A key's input says everything it was made with, and so does an entry.
pub proof fn law_key_input_says_everything(k: KeyInput, e: JournalEntry)
    ensures
        k@.prompt == k.prompt@,
        k@.model == text::opt_str(k.model),
        k@.sandbox == text::opt_str(k.sandbox),
        k@.schema == text::opt_str(k.schema),
        k@.cwd == text::opt_str(k.cwd),
        k@.isolate == k.isolate,
        e@.key == e.key@,
        e@.occ == e.occ,
        e@.result == e.result@,
        journal::entry_view(Some(e)) == Some(e@),
        journal::entry_view(None) is None,
{
}

proof fn lemma_hex_fixed_len(n: nat, width: nat)
    ensures
        text::hex_fixed(n, width).len() == width,
    decreases width,
{
    if width > 0 {
        lemma_hex_fixed_len(n / 16, (width - 1) as nat);
    }
}

// ── Writing and reading back ──

/// The last byte of a file that holds this text.
pub open spec fn last_byte(content: Seq<char>) -> Option<u8> {
    if content.len() == 0 {
        None
    } else {
        Some(encode_utf8(content).last())
    }
}

/// A journal's text after one entry was appended.
pub open spec fn appended(content: Seq<char>, e: EntryView) -> Seq<char> {
    content + journal::separation(last_byte(content)) + journal::record_text(e) + "\n"@
}

/// The cache that loading a text gives when `decode` reads its records.
pub open spec fn loaded(
    decode: spec_fn(Seq<char>) -> Option<EntryView>,
    content: Seq<char>,
) -> Map<(Seq<char>, u32), Seq<char>> {
    journal::cache_of(journal::records(content).map_values(decode))
}

/// Reading a journal whose decoder is a function gives the cache that function
/// gives.
pub proof fn law_load_follows_the_decoder<F: Fn(&str) -> Option<JournalEntry>>(
    decode: F,
    function: spec_fn(Seq<char>) -> Option<EntryView>,
    content: Seq<char>,
    d: Seq<Option<JournalEntry>>,
)
    requires
        forall|t: &str, out: Option<JournalEntry>| #[trigger]
            decode.ensures((t,), out) ==> journal::entry_view(out) == function(t@),
        journal::decoded_by(decode, journal::records(content), d),
    ensures
        journal::cache_of(journal::entries_view(d)) == loaded(function, content),
{
    let lines = journal::records(content);
    assert forall|i: int| 0 <= i < lines.len() implies journal::entry_view(d[i]) == function(
        lines[i],
    ) by {
        assert(journal::decodes(decode, lines[i], d[i]));
    }
    assert(journal::entries_view(d) =~= lines.map_values(function));
}

/// A record is one line: no line feed in it, and no white space around it.
pub proof fn law_record_is_one_line(e: EntryView)
    ensures
        forall|i: int|
            0 <= i < journal::record_text(e).len() ==> #[trigger] journal::record_text(e)[i]
                != '\n',
        text::trimmed(journal::record_text(e)) == journal::record_text(e),
        journal::record_text(e).len() > 0,
{
    reveal_strlit("{\"key\":");
    reveal_strlit(",\"occ\":");
    reveal_strlit(",\"result\":");
    reveal_strlit("}");
    json::lemma_json_string_printable(e.key);
    json::lemma_json_string_printable(e.result);
    text::lemma_decimal_digits(e.occ as nat);
    let t = journal::record_text(e);
    assert(t[0] == '{');
    assert(t.last() == '}');
    text::lemma_trimmed_fixed(t);
    let p1 = "{\"key\":"@ + json::json_string(e.key);
    let p2 = p1 + ",\"occ\":"@ + text::decimal(e.occ as nat);
    let p3 = p2 + ",\"result\":"@ + json::json_string(e.result);
    assert forall|i: int| 0 <= i < p1.len() implies #[trigger] p1[i] != '\n' by {}
    assert forall|i: int| 0 <= i < p2.len() implies #[trigger] p2[i] != '\n' by {
        if i >= p1.len() + 7 {
            assert(p2[i] == text::decimal(e.occ as nat)[i - p1.len() - 7]);
        }
    }
    assert forall|i: int| 0 <= i < p3.len() implies #[trigger] p3[i] != '\n' by {}
}

/// Nothing of an entry is lost in its record: entries with the same record are the
/// same, so a record can be read back.
pub proof fn law_record_tells_entries_apart(a: EntryView, b: EntryView)
    requires
        journal::record_text(a) == journal::record_text(b),
    ensures
        a == b,
{
    reveal_strlit("{\"key\":");
    reveal_strlit(",\"occ\":");
    reveal_strlit(",\"result\":");
    reveal_strlit("}");
    let head = "{\"key\":"@;
    let occ = ",\"occ\":"@;
    let result = ",\"result\":"@;
    let close = "}"@;
    let na = text::decimal(a.occ as nat);
    let nb = text::decimal(b.occ as nat);
    let ra = result + json::json_string(a.result) + close;
    let rb = result + json::json_string(b.result) + close;
    let ta = journal::record_text(a);
    let tb = journal::record_text(b);
    assert(ta.skip(7) =~= json::json_string(a.key) + (occ + na + ra));
    assert(tb.skip(7) =~= json::json_string(b.key) + (occ + nb + rb));
    json::lemma_json_string_apart(a.key, occ + na + ra, b.key, occ + nb + rb);
    assert((occ + na + ra).skip(7) =~= na + ra);
    assert((occ + nb + rb).skip(7) =~= nb + rb);
    let t = na + ra;
    text::lemma_decimal_digits(a.occ as nat);
    text::lemma_decimal_digits(b.occ as nat);
    text::lemma_decimal_value(a.occ as nat);
    text::lemma_decimal_value(b.occ as nat);
    assert(t[na.len() as int] == ',');
    assert(t[nb.len() as int] == (nb + rb)[nb.len() as int]);
    if na.len() < nb.len() {
        assert(t[na.len() as int] == nb[na.len() as int]);
    } else if nb.len() < na.len() {
        assert(t[nb.len() as int] == na[nb.len() as int]);
    }
    assert(na =~= t.take(na.len() as int));
    assert(nb =~= t.take(nb.len() as int));
    assert(ra =~= t.skip(na.len() as int));
    assert(rb =~= t.skip(nb.len() as int));
    assert(ra.skip(10) =~= json::json_string(a.result) + close);
    assert(rb.skip(10) =~= json::json_string(b.result) + close);
    json::lemma_json_string_apart(a.result, close, b.result, close);
}

/// The entry a text is the record of, if it is one.
pub open spec fn recorded(t: Seq<char>) -> Option<EntryView> {
    if exists|e: EntryView| #[trigger] journal::record_text(e) == t {
        Some(choose|e: EntryView| #[trigger] journal::record_text(e) == t)
    } else {
        None
    }
}

/// Records can be read back: there is a reading under which each gives its entry,
/// as the laws on loading ask of a decoder.
pub proof fn law_records_can_be_read_back(e: EntryView)
    ensures
        recorded(journal::record_text(e)) == Some(e),
{
    let t = journal::record_text(e);
    let found = choose|x: EntryView| #[trigger] journal::record_text(x) == t;
    assert(journal::record_text(found) == t);
    law_record_tells_entries_apart(found, e);
}

/// Records on both sides of a line feed are read independently.
pub proof fn law_records_split_at_line_feeds(a: Seq<char>, b: Seq<char>)
    ensures
        journal::records(a + seq!['\n'] + b) == journal::records(a) + journal::records(b),
    decreases a.len(),
{
    let nl = seq!['\n'];
    let t = a + nl + b;
    text::lemma_line_break_bounds(a);
    let k = text::line_break(a);
    if k < a.len() {
        text::lemma_line_break(t, k);
        assert(t.take(k) =~= a.take(k));
        assert(t.skip(k + 1) =~= a.skip(k + 1) + nl + b);
        law_records_split_at_line_feeds(a.skip(k + 1), b);
        let head = text::trimmed(a.take(k));
        let first = if head.len() == 0 {
            Seq::empty()
        } else {
            seq![head]
        };
        assert(first + (journal::records(a.skip(k + 1)) + journal::records(b)) =~= (first
            + journal::records(a.skip(k + 1))) + journal::records(b));
    } else {
        text::lemma_line_break(t, k);
        assert(t.take(k) =~= a);
        assert(t.skip(k + 1) =~= b);
        assert(a.take(k) =~= a);
        if a.len() == 0 {
            assert(text::trimmed(a) =~= a);
            assert(journal::records(a) =~= Seq::empty());
        }
    }
}

/// Appending adds exactly one record, at the end, whatever stood in the file
/// before, a torn last line included.
pub proof fn law_append_adds_one_record(content: Seq<char>, e: EntryView)
    ensures
        journal::records(appended(content, e)) == journal::records(content).push(
            journal::record_text(e),
        ),
{
    reveal_strlit("\n");
    reveal_strlit("");
    let nl = seq!['\n'];
    let none = Seq::<char>::empty();
    let rec = journal::record_text(e);
    law_record_is_one_line(e);
    assert("\n"@ =~= nl);
    assert(journal::records(none) =~= Seq::empty());
    text::lemma_line_break(rec, rec.len() as int);
    assert(rec.take(rec.len() as int) =~= rec);
    assert(journal::records(rec) =~= seq![rec]);
    law_records_split_at_line_feeds(rec, none);
    assert(rec + nl + none =~= rec + nl);
    assert(journal::records(rec + nl) =~= seq![rec]);
    if content.len() == 0 {
        assert(appended(content, e) =~= rec + nl);
        assert(journal::records(content) =~= Seq::empty());
    } else {
        text::lemma_utf8_last_line_feed(content);
        if content.last() == '\n' {
            let front = content.drop_last();
            assert(content =~= front + nl + none);
            law_records_split_at_line_feeds(front, none);
            assert(appended(content, e) =~= front + nl + (rec + nl));
            law_records_split_at_line_feeds(front, rec + nl);
            assert(journal::records(front) + Seq::<Seq<char>>::empty() =~= journal::records(front));
        } else {
            assert(appended(content, e) =~= content + nl + (rec + nl));
            law_records_split_at_line_feeds(content, rec + nl);
        }
    }
    assert(journal::records(content) + seq![rec] =~= journal::records(content).push(rec));
}

/// A read gives back what a write wrote: after an entry is appended, loading
/// knows it, and everything loaded before is unchanged.
pub proof fn law_append_then_load(
    decode: spec_fn(Seq<char>) -> Option<EntryView>,
    content: Seq<char>,
    e: EntryView,
)
    requires
        decode(journal::record_text(e)) == Some(e),
    ensures
        loaded(decode, appended(content, e)) == loaded(decode, content).insert(
            (e.key, e.occ),
            e.result,
        ),
{
    law_append_adds_one_record(content, e);
    let before = journal::records(content).map_values(decode);
    let after = journal::records(appended(content, e)).map_values(decode);
    assert(after.drop_last() =~= before);
    assert(after.last() == Some(e));
}

/// A journal and the text of its file after an entry was appended. A call already
/// recorded is not written again.
pub open spec fn after_append(v: JournalView, content: Seq<char>, e: EntryView) -> (
    JournalView,
    Seq<char>,
) {
    (
        v.added(e),
        if v.result(e.key, e.occ) is Some {
            content
        } else {
            appended(content, e)
        },
    )
}

/// File and cache agree through every append: what a reload would give is what is
/// cached, the first result of a call stays, and the file gains a record exactly
/// when the call was not recorded.
pub proof fn law_file_and_cache_agree(
    decode: spec_fn(Seq<char>) -> Option<EntryView>,
    v: JournalView,
    content: Seq<char>,
    e: EntryView,
)
    requires
        decode(journal::record_text(e)) == Some(e),
        loaded(decode, content) == v.cache,
    ensures
        ({
            let (w, file) = after_append(v, content, e);
            &&& loaded(decode, file) == w.cache
            &&& journal::records(file) == if v.result(e.key, e.occ) is Some {
                journal::records(content)
            } else {
                journal::records(content).push(journal::record_text(e))
            }
        }),
{
    law_append_then_load(decode, content, e);
    law_append_adds_one_record(content, e);
}

/// A partial record left by a crash costs only itself: the entry appended after
/// it is loaded, and so is all that stood before it.
pub proof fn law_torn_tail_costs_only_itself(
    decode: spec_fn(Seq<char>) -> Option<EntryView>,
    content: Seq<char>,
    torn: Seq<char>,
    e: EntryView,
)
    requires
        content.len() > 0 ==> content.last() == '\n',
        forall|i: int| 0 <= i < torn.len() ==> #[trigger] torn[i] != '\n',
        decode(text::trimmed(torn)) is None,
        decode(journal::record_text(e)) == Some(e),
    ensures
        loaded(decode, appended(content + torn, e)) == loaded(decode, content).insert(
            (e.key, e.occ),
            e.result,
        ),
{
    law_append_then_load(decode, content + torn, e);
    let nl = seq!['\n'];
    let none = Seq::<char>::empty();
    assert(journal::records(none) =~= Seq::empty());
    text::lemma_line_break(torn, torn.len() as int);
    assert(torn.take(torn.len() as int) =~= torn);
    let head = text::trimmed(torn);
    if torn.len() == 0 {
        assert(content + torn =~= content);
    } else {
        let last = journal::records(torn);
        assert(last =~= if head.len() == 0 {
            Seq::empty()
        } else {
            seq![head]
        });
        let first = journal::records(content);
        if content.len() == 0 {
            assert(content + torn =~= torn);
            assert(first + last =~= last);
        } else {
            let front = content.drop_last();
            assert(content =~= front + nl + none);
            law_records_split_at_line_feeds(front, none);
            assert(content + torn =~= front + nl + torn);
            law_records_split_at_line_feeds(front, torn);
            assert(journal::records(front) + Seq::<Seq<char>>::empty() =~= journal::records(front));
        }
        assert(journal::records(content + torn) == first + last);
        let all = (first + last).map_values(decode);
        if head.len() == 0 {
            assert(first + last =~= first);
        } else {
            assert(all.drop_last() =~= first.map_values(decode));
            assert(all.last() is None);
        }
    }
}

/// The text of a journal to which these entries were appended, one by one.
pub open spec fn file_of(entries: Seq<EntryView>) -> Seq<char>
    decreases entries.len(),
{
    if entries.len() == 0 {
        Seq::empty()
    } else {
        appended(file_of(entries.drop_last()), entries.last())
    }
}

/// Loading a run's journal gives back every result of the run: each call's own,
/// where each key and occurrence was recorded once.
pub proof fn law_reload_gives_back_every_result(
    decode: spec_fn(Seq<char>) -> Option<EntryView>,
    entries: Seq<EntryView>,
    i: int,
)
    requires
        forall|a: int|
            0 <= a < entries.len() ==> decode(journal::record_text(#[trigger] entries[a])) == Some(
                entries[a],
            ),
        forall|a: int, b: int|
            0 <= a < b < entries.len() ==> (#[trigger] entries[a]).key != (
            #[trigger] entries[b]).key || entries[a].occ != entries[b].occ,
        0 <= i < entries.len(),
    ensures
        loaded(decode, file_of(entries)).contains_key((entries[i].key, entries[i].occ)),
        loaded(decode, file_of(entries))[(entries[i].key, entries[i].occ)] == entries[i].result,
    decreases entries.len(),
{
    let front = entries.drop_last();
    let e = entries.last();
    assert(e == entries[entries.len() - 1]);
    law_append_then_load(decode, file_of(front), e);
    if i < front.len() {
        assert(forall|a: int| 0 <= a < front.len() ==> #[trigger] front[a] == entries[a]);
        law_reload_gives_back_every_result(decode, front, i);
    }
}

// ── The cache in memory ──

/// What was added is found, a result already known is not replaced, and nothing
/// else changes; adding again changes nothing.
pub proof fn law_added_result_is_found(v: JournalView, e: EntryView, key: Seq<char>, occ: u32)
    ensures
        v.result(e.key, e.occ) is None ==> v.added(e).result(e.key, e.occ) == Some(e.result),
        v.result(e.key, e.occ) is Some ==> v.added(e) == v,
        (key, occ) != (e.key, e.occ) ==> v.added(e).result(key, occ) == v.result(key, occ),
        v.added(e).added(e) == v.added(e),
        v.added(e).seen == v.seen,
{
}

/// The journal after `n` more calls of one key.
pub open spec fn claimed_times(v: JournalView, key: Seq<char>, n: nat) -> JournalView
    decreases n,
{
    if n == 0 {
        v
    } else {
        claimed_times(v, key, (n - 1) as nat).claimed(key)
    }
}

/// Identical calls get the occurrences 0, 1, 2 and so on, never the same twice,
/// and calls of other keys do not count.
pub proof fn law_occurrences_count_up(v: JournalView, key: Seq<char>, n: nat, other: Seq<char>)
    requires
        v.count(key) + n <= u32::MAX,
        other != key,
    ensures
        claimed_times(v, key, n).count(key) == v.count(key) + n,
        claimed_times(v, key, n).count(other) == v.count(other),
        claimed_times(v, key, n).cache == v.cache,
    decreases n,
{
    if n > 0 {
        law_occurrences_count_up(v, key, (n - 1) as nat, other);
    }
}

// ── Run ids ──

/// Runs that start at another second or in another process have another id.
pub proof fn law_run_ids_distinct(s1: u64, p1: u32, s2: u64, p2: u32)
    requires
        journal::run_id(s1, p1) == journal::run_id(s2, p2),
    ensures
        s1 == s2,
        p1 == p2,
{
    let a = text::hex(s1 as nat);
    let b = text::hex(s2 as nat);
    let t = journal::run_id(s1, p1);
    text::lemma_hex_value(s1 as nat);
    text::lemma_hex_value(s2 as nat);
    text::lemma_hex_value(p1 as nat);
    text::lemma_hex_value(p2 as nat);
    assert(t[a.len() as int] == '-');
    assert(t[b.len() as int] == '-');
    if a.len() < b.len() {
        assert(t[a.len() as int] == b[a.len() as int]);
    } else if b.len() < a.len() {
        assert(t[b.len() as int] == a[b.len() as int]);
    }
    assert(a =~= t.take(a.len() as int));
    assert(b =~= t.take(b.len() as int));
    assert(text::hex(p1 as nat) =~= t.skip(a.len() as int + 1));
    assert(text::hex(p2 as nat) =~= t.skip(b.len() as int + 1));
}

/// A line feed is written before a record only after a torn line: a new file, or
/// one that ends a line, gets the record alone and its own line feed.
pub proof fn law_no_needless_separator(content: Seq<char>, e: EntryView)
    ensures
        content.len() == 0 || content.last() == '\n' ==> appended(content, e) == content
            + journal::record_text(e) + "\n"@,
        content.len() > 0 && content.last() != '\n' ==> appended(content, e) == content + "\n"@
            + journal::record_text(e) + "\n"@,
{
    reveal_strlit("");
    assert(content + ""@ =~= content);
    if content.len() > 0 {
        text::lemma_utf8_last_line_feed(content);
    }
}

/// A line that is not blank is a record, without the white space around it; a
/// blank one is none.
pub proof fn law_records_are_trimmed_lines(line: Seq<char>)
    requires
        forall|i: int| 0 <= i < line.len() ==> #[trigger] line[i] != '\n',
    ensures
        journal::records(line) == if text::trimmed(line).len() == 0 {
            Seq::<Seq<char>>::empty()
        } else {
            seq![text::trimmed(line)]
        },
{
    text::lemma_line_break(line, line.len() as int);
    assert(line.take(line.len() as int) =~= line);
    if line.len() == 0 {
        assert(text::trimmed(line) =~= line);
    }
}

/// Of the records for one call the last that could be decoded counts, and nothing
/// is known that no record says.
pub proof fn law_last_record_counts(entries: Seq<Option<EntryView>>, i: int, key: Seq<char>, occ: u32)
    ensures
        0 <= i < entries.len() && (entries[i] matches Some(e) && e.key == key && e.occ == occ) && (
        forall|j: int|
            i < j < entries.len() ==> !(#[trigger] entries[j] matches Some(e) && e.key == key
                && e.occ == occ)) ==> journal::cache_of(entries).contains_key((key, occ))
            && journal::cache_of(entries)[(key, occ)] == entries[i]->0.result,
        journal::cache_of(entries).contains_key((key, occ)) ==> exists|j: int|
            0 <= j < entries.len() && (#[trigger] entries[j] matches Some(e) && e.key == key
                && e.occ == occ && e.result == journal::cache_of(entries)[(key, occ)]),
    decreases entries.len(),
{
    if entries.len() > 0 {
        let front = entries.drop_last();
        law_last_record_counts(front, i, key, occ);
        assert(forall|j: int| 0 <= j < front.len() ==> #[trigger] front[j] == entries[j]);
        let last = entries.len() - 1;
        assert(entries.last() == entries[last]);
        if journal::cache_of(entries).contains_key((key, occ)) {
            if !(entries[last] matches Some(e) && e.key == key && e.occ == occ) {
                assert(journal::cache_of(front).contains_key((key, occ)));
                let j = choose|j: int|
                    0 <= j < front.len() && (#[trigger] front[j] matches Some(e) && e.key == key
                        && e.occ == occ && e.result == journal::cache_of(front)[(key, occ)]);
                assert(entries[j] == front[j]);
            }
        }
    }
}

/// A fresh journal knows no result and has counted no call.
pub proof fn law_fresh_journal_is_blank(key: Seq<char>, occ: u32)
    ensures
        JournalView::empty().result(key, occ) is None,
        JournalView::empty().count(key) == 0,
{
}

/// A run id is the start time, a hyphen and the process, in that order.
pub proof fn law_run_id_tells_time_and_process(secs: u64, pid: u32)
    ensures
        text::starts_with(journal::run_id(secs, pid), text::hex(secs as nat)),
        text::ends_with(journal::run_id(secs, pid), text::hex(pid as nat)),
        journal::run_id(secs, pid).len() == text::hex(secs as nat).len() + 1 + text::hex(
            pid as nat,
        ).len(),
        journal::run_id(secs, pid)[text::hex(secs as nat).len() as int] == '-',
{
    let a = text::hex(secs as nat);
    let b = text::hex(pid as nat);
    assert(journal::run_id(secs, pid) =~= a + (seq!['-'] + b));
    text::laws::law_part_is_contained(a, a, seq!['-'] + b);
    text::laws::law_part_is_contained(a + seq!['-'], b, b);
}

/// What is hashed starts with the prompt and ends with whether the agent is
/// isolated; every option that is set stands in it under its name.
pub proof fn law_encoding_names_every_field(k: KeyView, value: Seq<char>)
    ensures
        text::starts_with(journal::key_text(k), "prompt="@ + k.prompt),
        text::ends_with(
            journal::key_text(k),
            if k.isolate {
                "\0isolate="@ + "1"@
            } else {
                "\0isolate="@ + "0"@
            },
        ),
        k.model == Some(value) ==> text::contains_text(
            journal::key_text(k),
            "\0model"@ + "+"@ + value,
        ),
        k.sandbox == Some(value) ==> text::contains_text(
            journal::key_text(k),
            "\0sandbox"@ + "+"@ + value,
        ),
        k.schema == Some(value) ==> text::contains_text(
            journal::key_text(k),
            "\0schema"@ + "+"@ + value,
        ),
        k.cwd == Some(value) ==> text::contains_text(
            journal::key_text(k),
            "\0cwd"@ + "+"@ + value,
        ),
{
    let p = "prompt="@ + k.prompt;
    let m = journal::tagged("\0model"@, k.model);
    let s = journal::tagged("\0sandbox"@, k.sandbox);
    let h = journal::tagged("\0schema"@, k.schema);
    let c = journal::tagged("\0cwd"@, k.cwd);
    let z = "\0isolate="@ + if k.isolate {
        "1"@
    } else {
        "0"@
    };
    lemma_regrouped(p, m, s, h, c, z);
    assert(p + (m + s + h + c + z) =~= p + m + s + h + c + z);
    text::laws::law_part_is_contained(p, p, m + s + h + c + z);
    text::laws::law_part_is_contained(p + m + s + h + c, z, z);
    text::laws::law_part_is_contained(p, m, s + h + c + z);
    text::laws::law_part_is_contained(p + m, s, h + c + z);
    text::laws::law_part_is_contained(p + m + s, h, c + z);
    text::laws::law_part_is_contained(p + m + s + h, c, z);
}

/// What decoded records say is what each of them says, in order.
pub proof fn law_entries_say_everything(d: Seq<Option<JournalEntry>>, i: int)
    ensures
        journal::entries_view(d).len() == d.len(),
        0 <= i < d.len() && d[i] is None ==> journal::entries_view(d)[i] is None,
        0 <= i < d.len() && d[i] is Some ==> journal::entries_view(d)[i] == Some(d[i]->0@),
{
}

} // verus!
