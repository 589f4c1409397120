//! Run journal for resume: each successful agent result is one line of a file,
//! keyed by a deterministic hash of the inputs that make up its identity. Loading
//! the file gives a cache, so running the same workflow again replays what is
//! already known.
//!
//! The key is FNV-1a over a fixed-order encoding of the fields that matter.
//! Cosmetic and operational fields (id, label, step, group, timeout) are left out
//! so that they do not spoil the cache.

use vstd::hash_map::StringHashMap;
use vstd::prelude::*;
use vstd::utf8::*;

use crate::json;
use crate::text;

pub mod laws;

verus! {

// ── Keys ──

/// The agent properties that determine cache identity.
#[derive(Debug, Clone, Copy)]
pub struct KeyInput<'a> {
    pub prompt: &'a str,
    pub model: Option<&'a str>,
    pub sandbox: Option<&'a str>,
    pub schema: Option<&'a str>,
    pub cwd: Option<&'a str>,
    pub isolate: bool,
}

/// What a [`KeyInput`] says.
#[verifier::ext_equal]
pub struct KeyView {
    pub prompt: Seq<char>,
    pub model: Option<Seq<char>>,
    pub sandbox: Option<Seq<char>>,
    pub schema: Option<Seq<char>>,
    pub cwd: Option<Seq<char>>,
    pub isolate: bool,
}

impl<'a> View for KeyInput<'a> {
    type V = KeyView;

    open spec fn view(&self) -> KeyView {
        KeyView {
            prompt: self.prompt@,
            model: text::opt_str(self.model),
            sandbox: text::opt_str(self.sandbox),
            schema: text::opt_str(self.schema),
            cwd: text::opt_str(self.cwd),
            isolate: self.isolate,
        }
    }
}

/// One byte folded into an FNV-1a hash.
pub open spec fn fnv_step(h: u64, b: u8) -> u64 {
    (((h ^ (b as u64)) as nat * 0x0000_0100_0000_01b3) % 0x1_0000_0000_0000_0000) as u64
}

/// Bytes folded into an FNV-1a hash, first to last.
pub open spec fn fnv_fold(h: u64, bytes: Seq<u8>) -> u64
    decreases bytes.len(),
{
    if bytes.len() == 0 {
        h
    } else {
        fnv_step(fnv_fold(h, bytes.drop_last()), bytes.last())
    }
}

/// The 64-bit FNV-1a hash of some bytes.
pub open spec fn fnv1a(bytes: Seq<u8>) -> u64 {
    fnv_fold(0xcbf2_9ce4_8422_2325, bytes)
}

/// Hashing goes on where it left off.
pub proof fn lemma_fnv_concat(h: u64, a: Seq<u8>, b: Seq<u8>)
    ensures
        fnv_fold(h, a + b) == fnv_fold(fnv_fold(h, a), b),
    decreases b.len(),
{
    if b.len() == 0 {
        assert(a + b =~= a);
    } else {
        assert((a + b).drop_last() =~= a + b.drop_last());
        lemma_fnv_concat(h, a, b.drop_last());
    }
}

/// A running 64-bit FNV-1a hash. Unlike a randomly seeded hasher it gives the
/// same value in every process.
pub struct Fnv1a(pub u64);

impl Fnv1a {
    pub fn new() -> (r: Self)
        ensures
            r.0 == fnv1a(Seq::empty()),
    {
        Fnv1a(0xcbf2_9ce4_8422_2325)
    }

    pub fn update(&mut self, bytes: &[u8])
        ensures
            final(self).0 == fnv_fold(old(self).0, bytes@),
    {
        let mut i: usize = 0;
        proof {
            assert(bytes@.take(0) =~= Seq::<u8>::empty());
        }
        while i < bytes.len()
            invariant
                i <= bytes@.len(),
                self.0 == fnv_fold(old(self).0, bytes@.take(i as int)),
            decreases bytes@.len() - i,
        {
            proof {
                assert(bytes@.take(i as int + 1).drop_last() =~= bytes@.take(i as int));
            }
            self.0 = (self.0 ^ (bytes[i] as u64)).wrapping_mul(0x0000_0100_0000_01b3);
            i += 1;
        }
        proof {
            assert(bytes@.take(bytes@.len() as int) =~= bytes@);
        }
    }

    pub fn finish(&self) -> (r: u64)
        ensures
            r == self.0,
    {
        self.0
    }
}

/// An optional field: its tag, then `+` and the value, or `-` when unset, so that
/// an unset field never reads like an empty one.
pub open spec fn tagged(tag: Seq<char>, v: Option<Seq<char>>) -> Seq<char> {
    match v {
        Some(s) => tag + "+"@ + s,
        None => tag + "-"@,
    }
}

/// The fixed-order encoding of the fields: each one named, and set off from the
/// one before by a NUL.
pub open spec fn key_text(k: KeyView) -> Seq<char> {
    "prompt="@ + k.prompt + tagged("\0model"@, k.model) + tagged("\0sandbox"@, k.sandbox) + tagged(
        "\0schema"@,
        k.schema,
    ) + tagged("\0cwd"@, k.cwd) + ("\0isolate="@ + if k.isolate {
        "1"@
    } else {
        "0"@
    })
}

/// The key: the hash of the encoding, as sixteen hexadecimal digits.
pub open spec fn key_of(k: KeyView) -> Seq<char> {
    text::hex_fixed(fnv1a(encode_utf8(key_text(k))) as nat, 16)
}

/// Fold an optional field into the hash.
pub fn update_opt(h: &mut Fnv1a, tag: &str, v: Option<&str>)
    ensures
        final(h).0 == fnv_fold(old(h).0, encode_utf8(tagged(tag@, text::opt_str(v)))),
{
    let ghost start = h.0;
    h.update(tag.as_bytes());
    match v {
        Some(s) => {
            h.update("+".as_bytes());
            h.update(s.as_bytes());
            proof {
                text::lemma_utf8_concat(tag@, "+"@);
                text::lemma_utf8_concat(tag@ + "+"@, s@);
                lemma_fnv_concat(start, encode_utf8(tag@), encode_utf8("+"@));
                lemma_fnv_concat(start, encode_utf8(tag@ + "+"@), encode_utf8(s@));
            }
        },
        None => {
            h.update("-".as_bytes());
            proof {
                text::lemma_utf8_concat(tag@, "-"@);
                lemma_fnv_concat(start, encode_utf8(tag@), encode_utf8("-"@));
            }
        },
    }
}

proof fn lemma_hashed_more(so_far: Seq<char>, more: Seq<char>)
    ensures
        fnv1a(encode_utf8(so_far + more)) == fnv_fold(
            fnv1a(encode_utf8(so_far)),
            encode_utf8(more),
        ),
{
    text::lemma_utf8_concat(so_far, more);
    lemma_fnv_concat(0xcbf2_9ce4_8422_2325, encode_utf8(so_far), encode_utf8(more));
}

/// Deterministic cache key for one agent invocation.
pub fn journal_key(k: &KeyInput) -> (r: String)
    ensures
        r@ == key_of(k@),
{
    let mut h = Fnv1a::new();
    h.update("prompt=".as_bytes());
    h.update(k.prompt.as_bytes());
    let ghost t1 = "prompt="@ + k.prompt@;
    proof {
        lemma_hashed_more("prompt="@, k.prompt@);
    }
    update_opt(&mut h, "\0model", k.model);
    let ghost t2 = t1 + tagged("\0model"@, k@.model);
    proof {
        lemma_hashed_more(t1, tagged("\0model"@, k@.model));
    }
    update_opt(&mut h, "\0sandbox", k.sandbox);
    let ghost t3 = t2 + tagged("\0sandbox"@, k@.sandbox);
    proof {
        lemma_hashed_more(t2, tagged("\0sandbox"@, k@.sandbox));
    }
    update_opt(&mut h, "\0schema", k.schema);
    let ghost t4 = t3 + tagged("\0schema"@, k@.schema);
    proof {
        lemma_hashed_more(t3, tagged("\0schema"@, k@.schema));
    }
    update_opt(&mut h, "\0cwd", k.cwd);
    let ghost t5 = t4 + tagged("\0cwd"@, k@.cwd);
    proof {
        lemma_hashed_more(t4, tagged("\0cwd"@, k@.cwd));
    }
    h.update("\0isolate=".as_bytes());
    let digit = if k.isolate {
        "1"
    } else {
        "0"
    };
    h.update(digit.as_bytes());
    proof {
        lemma_hashed_more(t5, "\0isolate="@);
        lemma_hashed_more(t5 + "\0isolate="@, digit@);
        assert(t5 + "\0isolate="@ + digit@ =~= key_text(k@));
    }
    text::hex_fixed_text(h.finish(), 16)
}

// ── Records ──

/// One journal line: a cache key, its occurrence index, and the agent's final
/// text.
#[derive(Debug)]
pub struct JournalEntry {
    pub key: String,
    /// The how-manieth call with this key, in call order from zero. It keeps
    /// several identical calls several independent samples.
    pub occ: u32,
    pub result: String,
}

/// What a [`JournalEntry`] says.
#[verifier::ext_equal]
pub struct EntryView {
    pub key: Seq<char>,
    pub occ: u32,
    pub result: Seq<char>,
}

impl View for JournalEntry {
    type V = EntryView;

    open spec fn view(&self) -> EntryView {
        EntryView { key: self.key@, occ: self.occ, result: self.result@ }
    }
}

/// What an optional entry says.
pub open spec fn entry_view(e: Option<JournalEntry>) -> Option<EntryView> {
    match e {
        Some(e) => Some(e@),
        None => None,
    }
}

/// An entry as one JSON object.
pub open spec fn record_text(e: EntryView) -> Seq<char> {
    "{\"key\":"@ + json::json_string(e.key) + ",\"occ\":"@ + text::decimal(e.occ as nat)
        + ",\"result\":"@ + json::json_string(e.result) + "}"@
}

/// An entry as one JSON object.
fn record(key: &str, occ: u32, result: &str) -> (r: String)
    ensures
        r@ == record_text(EntryView { key: key@, occ, result: result@ }),
{
    let mut r = text::copied("{\"key\":");
    r.push_str(json::quote_json(key).as_str());
    r.push_str(",\"occ\":");
    r.push_str(text::decimal_text(occ as u128).as_str());
    r.push_str(",\"result\":");
    r.push_str(json::quote_json(result).as_str());
    r.push_str("}");
    r
}

/// What must come before a new record so that it starts a line of its own: a
/// line feed after a torn tail, nothing otherwise. `last` is the file's last
/// byte, if it has any.
pub open spec fn separation(last: Option<u8>) -> Seq<char> {
    match last {
        Some(b) => if b == 10 {
            ""@
        } else {
            "\n"@
        },
        None => ""@,
    }
}

/// What must be written before a new record, given the file's last byte. A
/// crashed run may have left a partial line; without this the new record would
/// glue onto it and both would be lost.
pub fn separator(last: Option<u8>) -> (r: &'static str)
    ensures
        r@ == separation(last),
{
    match last {
        Some(b) => if b == 10 {
            ""
        } else {
            "\n"
        },
        None => "",
    }
}

/// The records a journal's text holds: its lines without surrounding white
/// space, blank ones left out.
pub open spec fn records(s: Seq<char>) -> Seq<Seq<char>>
    decreases s.len(),
    via records_shrink
{
    if s.len() == 0 {
        Seq::empty()
    } else {
        let k = text::line_break(s);
        let head = text::trimmed(s.take(k));
        let first = if head.len() == 0 {
            Seq::empty()
        } else {
            seq![head]
        };
        if k >= s.len() {
            first
        } else {
            first + records(s.skip(k + 1))
        }
    }
}

#[via_fn]
proof fn records_shrink(s: Seq<char>) {
    text::lemma_line_break_bounds(s);
}

/// The records a journal's text holds.
pub fn split_records(content: &str) -> (r: Vec<String>)
    ensures
        text::texts(r@) == records(content@),
{
    let v = text::chars_of(content);
    let mut r: Vec<String> = Vec::new();
    let mut start: usize = 0;
    proof {
        assert(v@.skip(0) =~= v@);
        assert(text::texts(r@) =~= Seq::<Seq<char>>::empty());
        assert(Seq::<Seq<char>>::empty() + records(v@) =~= records(v@));
    }
    while start < v.len()
        invariant
            start <= v.len(),
            v@ == content@,
            text::texts(r@) + records(v@.skip(start as int)) == records(v@),
        decreases v.len() - start,
    {
        let ghost rest = v@.skip(start as int);
        let mut end: usize = start;
        while end < v.len() && v[end] != '\n'
            invariant
                start <= end <= v.len(),
                rest == v@.skip(start as int),
                forall|j: int| 0 <= j < end - start ==> rest[j] != '\n',
            decreases v.len() - end,
        {
            end += 1;
        }
        let ghost k = end - start;
        proof {
            text::lemma_line_break(rest, k);
            assert(rest.take(k) =~= v@.subrange(start as int, end as int));
        }
        let line = text::string_of(&v, start, end);
        let t = text::trim(line.as_str());
        let ghost before = text::texts(r@);
        if !t.is_empty() {
            text::push_copy(&mut r, t);
        }
        proof {
            let first = if t@.len() == 0 {
                Seq::<Seq<char>>::empty()
            } else {
                seq![t@]
            };
            assert(text::texts(r@) =~= before + first);
            if k < rest.len() {
                assert(rest.skip(k + 1) =~= v@.skip(end + 1));
                assert(before + (first + records(v@.skip(end + 1))) =~= (before + first) + records(
                    v@.skip(end + 1),
                ));
            } else {
                assert(v@.skip(v@.len() as int) =~= Seq::<char>::empty());
                assert(records(Seq::<char>::empty()) =~= Seq::<Seq<char>>::empty());
                assert((before + first) + Seq::<Seq<char>>::empty() =~= before + first);
            }
        }
        start = if end < v.len() { end + 1 } else { end };
    }
    proof {
        assert(v@.skip(v@.len() as int) =~= Seq::<char>::empty());
        assert(text::texts(r@) + Seq::<Seq<char>>::empty() =~= text::texts(r@));
    }
    r
}

// ── The cache ──

/// What a journal knows: results by key and occurrence, and how many calls each
/// key has had in this run.
#[verifier::ext_equal]
pub struct JournalView {
    pub cache: Map<(Seq<char>, u32), Seq<char>>,
    pub seen: Map<Seq<char>, u32>,
}

impl JournalView {
    /// A journal of a fresh run.
    pub open spec fn empty() -> Self {
        JournalView { cache: Map::empty(), seen: Map::empty() }
    }

    /// How many calls `key` has had.
    pub open spec fn count(self, key: Seq<char>) -> u32 {
        if self.seen.contains_key(key) {
            self.seen[key]
        } else {
            0
        }
    }

    /// The result known for a key and occurrence.
    pub open spec fn result(self, key: Seq<char>, occ: u32) -> Option<Seq<char>> {
        if self.cache.contains_key((key, occ)) {
            Some(self.cache[(key, occ)])
        } else {
            None
        }
    }

    /// One more call of `key` has been counted.
    pub open spec fn claimed(self, key: Seq<char>) -> Self {
        JournalView { seen: self.seen.insert(key, (self.count(key) + 1) as u32), ..self }
    }

    /// A result has been added; one already there stays.
    pub open spec fn added(self, e: EntryView) -> Self {
        if self.cache.contains_key((e.key, e.occ)) {
            self
        } else {
            JournalView { cache: self.cache.insert((e.key, e.occ), e.result), ..self }
        }
    }
}

/// The cache that decoded records give: what could not be decoded is skipped,
/// and of two records for one call the later counts.
pub open spec fn cache_of(entries: Seq<Option<EntryView>>) -> Map<(Seq<char>, u32), Seq<char>>
    decreases entries.len(),
{
    if entries.len() == 0 {
        Map::empty()
    } else {
        let before = cache_of(entries.drop_last());
        match entries.last() {
            Some(e) => before.insert((e.key, e.occ), e.result),
            None => before,
        }
    }
}

/// Where a key's occurrence is filed: one text for both.
spec fn slot(key: Seq<char>, occ: u32) -> Seq<char> {
    text::decimal(occ as nat) + seq![':'] + key
}

proof fn lemma_slot_injective(k1: Seq<char>, o1: u32, k2: Seq<char>, o2: u32)
    requires
        slot(k1, o1) == slot(k2, o2),
    ensures
        k1 == k2,
        o1 == o2,
{
    let d1 = text::decimal(o1 as nat);
    let d2 = text::decimal(o2 as nat);
    let s = slot(k1, o1);
    text::lemma_decimal_digits(o1 as nat);
    text::lemma_decimal_digits(o2 as nat);
    text::lemma_decimal_value(o1 as nat);
    text::lemma_decimal_value(o2 as nat);
    assert(s[d1.len() as int] == ':');
    assert(s[d2.len() as int] == ':');
    if d1.len() < d2.len() {
        assert(s[d1.len() as int] == d2[d1.len() as int]);
    } else if d2.len() < d1.len() {
        assert(s[d2.len() as int] == d1[d2.len() as int]);
    }
    assert(d1 =~= s.take(d1.len() as int));
    assert(d2 =~= s.take(d2.len() as int));
    assert(k1 =~= s.skip(d1.len() as int + 1));
    assert(k2 =~= s.skip(d2.len() as int + 1));
}

fn slot_text(key: &str, occ: u32) -> (r: String)
    ensures
        r@ == slot(key@, occ),
{
    let mut r = text::decimal_text(occ as u128);
    r.push_str(":");
    r.push_str(key);
    proof {
        reveal_strlit(":");
        assert(r@ =~= slot(key@, occ));
    }
    r
}

/// What came of reading a journal file.
pub enum FileRead {
    /// Its text.
    Text(String),
    /// There is no such file.
    Missing,
    /// It is there but could not be read.
    Failed(String),
}

/// `out` is what decoding `line` gave.
pub open spec fn decodes<F: Fn(&str) -> Option<JournalEntry>>(
    decode: F,
    line: Seq<char>,
    out: Option<JournalEntry>,
) -> bool {
    exists|t: &str| t@ == line && #[trigger] decode.ensures((t,), out)
}

/// `d` is what decoding each of `lines` gave.
pub open spec fn decoded_by<F: Fn(&str) -> Option<JournalEntry>>(
    decode: F,
    lines: Seq<Seq<char>>,
    d: Seq<Option<JournalEntry>>,
) -> bool {
    &&& d.len() == lines.len()
    &&& forall|i: int| 0 <= i < lines.len() ==> #[trigger] decodes(decode, lines[i], d[i])
}

/// What decoded records say.
pub open spec fn entries_view(d: Seq<Option<JournalEntry>>) -> Seq<Option<EntryView>> {
    Seq::new(d.len(), |i: int| entry_view(d[i]))
}

/// Cached results, and the call counters of this run.
pub struct Journal {
    cache: StringHashMap<String>,
    seen: StringHashMap<u32>,
}

impl View for Journal {
    type V = JournalView;

    closed spec fn view(&self) -> JournalView {
        JournalView {
            cache: Map::new(
                |k: (Seq<char>, u32)| self.cache@.contains_key(slot(k.0, k.1)),
                |k: (Seq<char>, u32)| self.cache@[slot(k.0, k.1)]@,
            ),
            seen: self.seen@,
        }
    }
}

impl Journal {
    pub fn new() -> (r: Self)
        ensures
            r@ == JournalView::empty(),
    {
        let r = Journal { cache: StringHashMap::new(), seen: StringHashMap::new() };
        assert(r@ =~= JournalView::empty());
        r
    }

    /// File a result, replacing one already there.
    fn put(&mut self, key: &str, occ: u32, result: String)
        ensures
            final(self)@ == (JournalView {
                cache: old(self)@.cache.insert((key@, occ), result@),
                ..old(self)@
            }),
    {
        let at = slot_text(key, occ);
        self.cache.insert(at, result);
        proof {
            let want = JournalView {
                cache: old(self)@.cache.insert((key@, occ), result@),
                ..old(self)@
            };
            assert forall|k: (Seq<char>, u32)| slot(k.0, k.1) == slot(key@, occ) implies k == (
                key@,
                occ,
            ) by {
                lemma_slot_injective(k.0, k.1, key@, occ);
            }
            assert(self@.cache =~= want.cache);
        }
    }

    /// Load a journal. A missing file is an empty journal (a fresh run); any
    /// other read error is surfaced, so that a resume never silently runs
    /// everything again. Lines that cannot be decoded are skipped: a torn tail
    /// must not stop a resume.
    pub fn load<F: Fn(&str) -> Option<JournalEntry>>(read: FileRead, decode: F) -> (r: Result<
        Self,
        String,
    >)
        requires
            read matches FileRead::Text(content) ==> forall|t: &str|
                records(content@).contains(t@) ==> #[trigger] decode.requires((t,)),
        ensures
            match read {
                FileRead::Failed(e) => r matches Err(m) && m@ == e@,
                FileRead::Missing => r matches Ok(j) && j@ == JournalView::empty(),
                FileRead::Text(content) => r matches Ok(j) && exists|d: Seq<Option<JournalEntry>>|
                    #[trigger] decoded_by(decode, records(content@), d) && j@ == (JournalView {
                        cache: cache_of(entries_view(d)),
                        seen: Map::empty(),
                    }),
            },
    {
        let content = match read {
            FileRead::Failed(e) => {
                return Err(e);
            },
            FileRead::Missing => {
                return Ok(Self::new());
            },
            FileRead::Text(t) => t,
        };
        let lines = split_records(content.as_str());
        let ghost all = records(content@);
        let mut j = Self::new();
        let ghost mut d: Seq<Option<JournalEntry>> = Seq::empty();
        let mut i: usize = 0;
        proof {
            assert(entries_view(d) =~= Seq::empty());
        }
        while i < lines.len()
            invariant
                i <= lines@.len(),
                all == text::texts(lines@),
                forall|t: &str| all.contains(t@) ==> #[trigger] decode.requires((t,)),
                d.len() == i,
                forall|k: int| 0 <= k < i ==> #[trigger] decodes(decode, all[k], d[k]),
                j@ == (JournalView { cache: cache_of(entries_view(d)), seen: Map::empty() }),
            decreases lines@.len() - i,
        {
            let t = lines[i].as_str();
            assert(all[i as int] == t@);
            let e = decode(t);
            let ghost d1 = d.push(e);
            proof {
                assert(decodes(decode, all[i as int], e));
                assert(entries_view(d1).drop_last() =~= entries_view(d));
                assert(entries_view(d1).last() == entry_view(e));
                assert forall|k: int| 0 <= k < i + 1 implies #[trigger] decodes(
                    decode,
                    all[k],
                    d1[k],
                ) by {
                    if k < i {
                        assert(decodes(decode, all[k], d[k]));
                    }
                }
                d = d1;
            }
            match e {
                Some(entry) => {
                    j.put(entry.key.as_str(), entry.occ, entry.result);
                },
                None => {},
            }
            i += 1;
        }
        proof {
            assert(decoded_by(decode, all, d));
        }
        Ok(j)
    }

    /// Whether one more call of `key` can be counted.
    pub fn can_claim(&self, key: &str) -> (r: bool)
        ensures
            r == (self@.count(key@) < u32::MAX),
    {
        match self.seen.get(key) {
            Some(n) => *n < u32::MAX,
            None => true,
        }
    }

    /// Claim the next occurrence index for `key`, from zero in call order. Called
    /// once per agent invocation, before [`Journal::get`].
    pub fn occurrence(&mut self, key: &str) -> (r: u32)
        requires
            old(self)@.count(key@) < u32::MAX,
        ensures
            r == old(self)@.count(key@),
            final(self)@ == old(self)@.claimed(key@),
    {
        let n: u32 = match self.seen.get(key) {
            Some(n) => *n,
            None => 0,
        };
        self.seen.insert(text::copied(key), n + 1);
        proof {
            assert(self@ =~= old(self)@.claimed(key@));
        }
        n
    }

    /// The cached result for a key and occurrence, if present.
    pub fn get(&self, key: &str, occ: u32) -> (r: Option<&str>)
        ensures
            text::opt_str(r) == self@.result(key@, occ),
    {
        match self.cache.get(slot_text(key, occ).as_str()) {
            Some(s) => Some(s.as_str()),
            None => None,
        }
    }

    /// Add one entry: `write` is handed its whole line, and the cache follows
    /// once that is written. A call already recorded is left alone, so a replayed
    /// result is never written twice.
    pub fn append<E, W: FnOnce(&str) -> Result<(), E>>(
        &mut self,
        key: String,
        occ: u32,
        result: String,
        write: W,
    ) -> (r: Result<(), E>)
        requires
            old(self)@.result(key@, occ) is None ==> forall|line: &str|
                line@ == record_text(EntryView { key: key@, occ, result: result@ }) + "\n"@
                    ==> #[trigger] write.requires((line,)),
        ensures
            old(self)@.result(key@, occ) is Some ==> r is Ok && final(self)@ == old(self)@,
            old(self)@.result(key@, occ) is None ==> exists|line: &str|
                line@ == record_text(EntryView { key: key@, occ, result: result@ }) + "\n"@
                    && #[trigger] write.ensures((line,), r),
            r is Ok ==> final(self)@ == old(self)@.added(
                EntryView { key: key@, occ, result: result@ },
            ),
            r is Err ==> final(self)@ == old(self)@,
    {
        if self.cache.contains_key(slot_text(key.as_str(), occ).as_str()) {
            return Ok(());
        }
        let mut line = record(key.as_str(), occ, result.as_str());
        line.push_str("\n");
        match write(line.as_str()) {
            Err(e) => Err(e),
            Ok(u) => {
                self.put(key.as_str(), occ, result);
                Ok(u)
            },
        }
    }
}

impl Default for Journal {
    fn default() -> (r: Self)
        ensures
            r@ == JournalView::empty(),
    {
        Self::new()
    }
}

// ── Names ──

/// The directory and the file name of a run's journal: the configured directory
/// or `runs`, and the run id with its extension.
pub fn journal_path(env: Option<String>, run_id: &str) -> (r: (String, String))
    ensures
        r.0@ == match env {
            Some(d) => d@,
            None => "runs"@,
        },
        r.1@ == run_id@ + ".jsonl"@,
{
    let dir = match env {
        Some(d) => d,
        None => text::copied("runs"),
    };
    (dir, text::concat2(run_id, ".jsonl"))
}

/// A run id: start time in seconds and process id, both hexadecimal.
pub open spec fn run_id(secs: u64, pid: u32) -> Seq<char> {
    text::hex(secs as nat) + seq!['-'] + text::hex(pid as nat)
}

/// The run id of a run that starts at `secs` in process `pid`.
pub fn new_run_id(secs: u64, pid: u32) -> (r: String)
    ensures
        r@ == run_id(secs, pid),
{
    let mut r = text::hex_text(secs);
    r.push_str("-");
    r.push_str(text::hex_text(pid as u64).as_str());
    proof {
        reveal_strlit("-");
        assert(r@ =~= run_id(secs, pid));
    }
    r
}

} // verus!
