//! Agent-type registry: an agent type is a markdown file whose body is put before
//! the agent's prompt as framing. A leading frontmatter block is dropped.

use vstd::prelude::*;
use vstd::string::*;

use crate::text;

verus! {

// ── Frontmatter ──

/// The text after an opening fence, if there is one.
pub open spec fn after_opening(c: Seq<char>) -> Option<Seq<char>> {
    if text::starts_with(c, "---\n"@) {
        Some(c.skip(4))
    } else if text::starts_with(c, "---\r\n"@) {
        Some(c.skip(5))
    } else {
        None
    }
}

/// The first position of `fence`, if it stands in the text.
pub open spec fn first_position(s: Seq<char>, fence: Seq<char>) -> Option<int> {
    if text::contains_text(s, fence) {
        Some(choose|i: int| text::first_at(s, fence, i))
    } else {
        None
    }
}

/// The text after the first closing fence, whichever line ending it has, if there
/// is one.
pub open spec fn after_closing(s: Seq<char>) -> Option<Seq<char>> {
    let plain = "\n---\n"@;
    let carriage = "\n---\r\n"@;
    match (first_position(s, plain), first_position(s, carriage)) {
        (Some(i), Some(j)) => if i < j {
            Some(s.skip(i + plain.len()))
        } else {
            Some(s.skip(j + carriage.len()))
        },
        (Some(i), None) => Some(s.skip(i + plain.len())),
        (None, Some(j)) => Some(s.skip(j + carriage.len())),
        (None, None) => None,
    }
}

/// The text without a leading frontmatter block, which ends at its first closing
/// fence. With no opening fence, or none that closes, it is whole; a closing fence
/// at the very end leaves nothing.
pub open spec fn stripped(c: Seq<char>) -> Seq<char> {
    match after_opening(c) {
        None => c,
        Some(rest) => match after_closing(rest) {
            Some(body) => body,
            None => if text::ends_with(rest, "\n---"@) || text::ends_with(rest, "\n---\r"@) {
                ""@
            } else {
                c
            },
        },
    }
}

/// The first position of `fence` in `h`.
fn find_fence(h: &Vec<char>, fence: &str) -> (r: Option<usize>)
    ensures
        match r {
            Some(i) => i + fence@.len() <= h@.len() && first_position(h@, fence@) == Some(
                i as int,
            ),
            None => first_position(h@, fence@) is None,
        },
{
    let p = text::chars_of(fence);
    match text::find(h, &p) {
        Some(i) => {
            proof {
                let at = choose|k: int| text::first_at(h@, fence@, k);
                assert(text::first_at(h@, fence@, i as int));
                assert(at == i) by {
                    if at < i {
                        assert(!text::occurs_at(h@, fence@, at));
                    } else if i < at {
                        assert(!text::occurs_at(h@, fence@, i as int));
                    }
                }
            }
            Some(i)
        },
        None => None,
    }
}

/// Where the text after the first closing fence in `h` begins.
fn find_body(h: &Vec<char>) -> (r: Option<usize>)
    ensures
        match r {
            Some(p) => p <= h@.len() && after_closing(h@) == Some(h@.skip(p as int)),
            None => after_closing(h@) is None,
        },
{
    proof {
        reveal_strlit("\n---\n");
        reveal_strlit("\n---\r\n");
    }
    assert(h@.len() == h.len());
    match (find_fence(h, "\n---\n"), find_fence(h, "\n---\r\n")) {
        (Some(i), Some(j)) => if i < j {
            Some(i + 5)
        } else {
            Some(j + 6)
        },
        (Some(i), None) => Some(i + 5),
        (None, Some(j)) => Some(j + 6),
        (None, None) => None,
    }
}

/// Drop a leading frontmatter block. Anything else, with no block or an
/// unterminated one, is returned whole, and so is what follows the block: content
/// is never lost.
pub fn strip_frontmatter(content: &str) -> (r: &str)
    ensures
        r@ == stripped(content@),
{
    proof {
        reveal_strlit("---\n");
        reveal_strlit("---\r\n");
        reveal_strlit("");
    }
    let open: usize = if text::text_starts_with(content, "---\n") {
        4
    } else if text::text_starts_with(content, "---\r\n") {
        5
    } else {
        return content;
    };
    let n: usize = content.unicode_len();
    let rest = content.substring_char(open, n);
    assert(rest@ =~= content@.skip(open as int));
    let v = text::chars_of(rest);
    match find_body(&v) {
        Some(p) => {
            let body = content.substring_char(open + p, n);
            assert(body@ =~= rest@.skip(p as int));
            return body;
        },
        None => {},
    }
    if text::text_ends_with(rest, "\n---") || text::text_ends_with(rest, "\n---\r") {
        return "";
    }
    content
}

// ── Types ──

/// A type name that stays within the registry directory.
pub open spec fn valid_type(t: Seq<char>) -> bool {
    t.len() > 0 && !text::contains_text(t, "/"@) && !text::contains_text(t, "\\"@)
        && !text::contains_text(t, ".."@)
}

/// What came of reading a type's file.
pub enum TypeFile {
    Text(String),
    /// It could not be read; `path` and `error` are how the system shows them.
    Unreadable { path: String, error: String },
}

/// The framing for a type whose file was read, or the error for one whose file
/// was not.
pub open spec fn framing(t: Seq<char>, f: TypeFile) -> Result<Seq<char>, Seq<char>> {
    match f {
        TypeFile::Text(c) => Ok(text::trimmed(stripped(c@))),
        TypeFile::Unreadable { path, error } => Err(
            "agentType "@ + text::debug_form(t) + ": cannot read "@ + path@ + ": "@ + error@,
        ),
    }
}

/// The framing for a type, its file having been read.
pub fn framing_from(agent_type: &str, f: TypeFile) -> (r: Result<String, String>)
    ensures
        text::result_text(r) == framing(agent_type@, f),
{
    match f {
        TypeFile::Text(c) => Ok(text::copied(text::trim(strip_frontmatter(c.as_str())))),
        TypeFile::Unreadable { path, error } => {
            let mut m = text::copied("agentType ");
            m.push_str(text::debug_text(agent_type).as_str());
            m.push_str(": cannot read ");
            m.push_str(path.as_str());
            m.push_str(": ");
            m.push_str(error.as_str());
            Err(m)
        },
    }
}

/// The framing for an agent type: the body of its file, which `read` is asked
/// for by name. A name that could leave the registry is refused before anything
/// is read, and a missing file is an error: a mistyped type must not silently run
/// with no framing.
pub fn agent_system_prefix<F: FnOnce(&str) -> TypeFile>(agent_type: &str, read: F) -> (r: Result<
    String,
    String,
>)
    requires
        valid_type(agent_type@) ==> forall|name: &str|
            name@ == agent_type@ + ".md"@ ==> #[trigger] read.requires((name,)),
    ensures
        !valid_type(agent_type@) ==> text::result_text(r) == Err::<Seq<char>, Seq<char>>(
            "agentType "@ + text::debug_form(agent_type@) + ": invalid type name"@,
        ),
        valid_type(agent_type@) ==> exists|name: &str, f: TypeFile|
            name@ == agent_type@ + ".md"@ && #[trigger] read.ensures((name,), f)
                && text::result_text(r) == framing(agent_type@, f),
{
    if agent_type.is_empty() || text::text_contains(agent_type, "/") || text::text_contains(
        agent_type,
        "\\",
    ) || text::text_contains(agent_type, "..") {
        let mut m = text::copied("agentType ");
        m.push_str(text::debug_text(agent_type).as_str());
        m.push_str(": invalid type name");
        return Err(m);
    }
    let name = text::concat2(agent_type, ".md");
    let f = read(name.as_str());
    framing_from(agent_type, f)
}

/// Where the registry lives, as path segments: the configured directory, or
/// `.codex-flow/agents` under the home directory (the current one if unset).
pub fn agents_dir(env: Option<String>, home: Option<String>) -> (r: Vec<String>)
    ensures
        text::texts(r@) == match env {
            Some(d) => seq![d@],
            None => seq![
                match home {
                    Some(h) => h@,
                    None => "."@,
                },
                ".codex-flow"@,
                "agents"@,
            ],
        },
{
    let mut r: Vec<String> = Vec::new();
    match env {
        Some(d) => {
            text::push_copy(&mut r, d.as_str());
            assert(text::texts(r@) =~= seq![d@]);
        },
        None => {
            let base = match home {
                Some(h) => h,
                None => text::copied("."),
            };
            text::push_copy(&mut r, base.as_str());
            text::push_copy(&mut r, ".codex-flow");
            text::push_copy(&mut r, "agents");
            assert(text::texts(r@) =~= seq![base@, ".codex-flow"@, "agents"@]);
        },
    }
    r
}

// ── Laws ──

/// A text that does not open with a fence is returned whole, whatever fences come
/// later.
pub proof fn law_no_frontmatter_kept_whole(c: Seq<char>)
    requires
        after_opening(c) is None,
    ensures
        stripped(c) == c,
{
}

/// A block that never closes is returned whole.
pub proof fn law_unterminated_frontmatter_kept_whole(c: Seq<char>)
    requires
        after_opening(c) matches Some(rest) ==> !text::contains_text(rest, "\n---"@),
    ensures
        stripped(c) == c,
{
    if let Some(rest) = after_opening(c) {
        reveal_strlit("\n---");
        reveal_strlit("\n---\n");
        reveal_strlit("\n---\r\n");
        reveal_strlit("\n---\r");
        let fence = "\n---"@;
        assert forall|i: int, longer: Seq<char>|
            longer.len() >= 4 && longer.take(4) == fence implies !#[trigger] text::occurs_at(
            rest,
            longer,
            i,
        ) by {
            if text::occurs_at(rest, longer, i) {
                assert(rest.subrange(i, i + 4) =~= rest.subrange(i, i + longer.len()).take(4));
                assert(text::occurs_at(rest, fence, i));
            }
        }
        assert("\n---\n"@.take(4) =~= fence);
        assert("\n---\r\n"@.take(4) =~= fence);
        assert("\n---\r"@.take(4) =~= fence);
        assert(fence.take(4) =~= fence);
    }
}

/// A closing fence, with either line ending, stands at `i`.
pub open spec fn closes_at(s: Seq<char>, i: int) -> bool {
    text::occurs_at(s, "\n---\n"@, i) || text::occurs_at(s, "\n---\r\n"@, i)
}

/// A block closes at its first fence, whichever line endings are used: a later
/// fence is body, and all of the body is kept.
pub proof fn law_block_ends_at_its_first_fence(c: Seq<char>, at: int, crlf: bool)
    requires
        after_opening(c) is Some,
        text::occurs_at(
            after_opening(c)->0,
            if crlf {
                "\n---\r\n"@
            } else {
                "\n---\n"@
            },
            at,
        ),
        forall|j: int| 0 <= j < at ==> !#[trigger] closes_at(after_opening(c)->0, j),
    ensures
        stripped(c) == after_opening(c)->0.skip(
            at + if crlf {
                6int
            } else {
                5int
            },
        ),
{
    reveal_strlit("\n---\n");
    reveal_strlit("\n---\r\n");
    let rest = after_opening(c)->0;
    let plain = "\n---\n"@;
    let carriage = "\n---\r\n"@;
    lemma_first_position(rest, plain);
    lemma_first_position(rest, carriage);
    let fence = if crlf {
        carriage
    } else {
        plain
    };
    assert(text::contains_text(rest, fence));
    assert(first_position(rest, fence) == Some(at)) by {
        let i = first_position(rest, fence)->0;
        assert(text::first_at(rest, fence, i));
        if i < at {
            assert(!closes_at(rest, i));
        } else if at < i {
            assert(!text::occurs_at(rest, fence, at));
        }
    }
    let other = if crlf {
        plain
    } else {
        carriage
    };
    if let Some(i) = first_position(rest, other) {
        assert(text::first_at(rest, other, i));
        if i < at {
            assert(!closes_at(rest, i));
        } else if i == at {
            assert(rest.subrange(at, at + plain.len())[4] == rest[at + 4]);
            assert(rest.subrange(at, at + carriage.len())[4] == rest[at + 4]);
        }
    }
}

/// Whatever is left is the end of the text as it stood: nothing is altered or
/// moved.
pub proof fn law_stripping_only_cuts_a_head(c: Seq<char>)
    ensures
        exists|k: int| 0 <= k <= c.len() && #[trigger] c.skip(k) == stripped(c),
{
    reveal_strlit("");
    reveal_strlit("---\n");
    reveal_strlit("---\r\n");
    assert(c.skip(0) =~= c);
    assert(c.skip(c.len() as int) =~= ""@);
    if let Some(rest) = after_opening(c) {
        let open = c.len() - rest.len();
        assert(rest =~= c.skip(open));
        lemma_first_position(rest, "\n---\n"@);
        lemma_first_position(rest, "\n---\r\n"@);
        if let Some(body) = after_closing(rest) {
            assert(body =~= c.skip(c.len() - body.len()));
        }
    }
}

proof fn lemma_first_position(s: Seq<char>, fence: Seq<char>)
    ensures
        first_position(s, fence) matches Some(i) ==> text::first_at(s, fence, i),
{
    if text::contains_text(s, fence) {
        let w = choose|i: int| text::occurs_at(s, fence, i);
        lemma_first_exists(s, fence, w);
    }
}

proof fn lemma_first_exists(s: Seq<char>, p: Seq<char>, i: int)
    requires
        text::occurs_at(s, p, i),
    ensures
        exists|k: int| text::first_at(s, p, k),
    decreases i,
{
    if exists|j: int| 0 <= j < i && text::occurs_at(s, p, j) {
        let j = choose|j: int| 0 <= j < i && text::occurs_at(s, p, j);
        lemma_first_exists(s, p, j);
    } else {
        assert(text::first_at(s, p, i));
    }
}

/// A block opens with three hyphens on the very first line, under either line
/// ending, and nothing else opens one.
pub proof fn law_only_a_fence_opens_a_block(rest: Seq<char>, c: Seq<char>)
    ensures
        after_opening(seq!['-', '-', '-', '\n'] + rest) == Some(rest),
        after_opening(seq!['-', '-', '-', '\r', '\n'] + rest) == Some(rest),
        after_opening(c) matches Some(r) ==> c == seq!['-', '-', '-', '\n'] + r || c
            == seq!['-', '-', '-', '\r', '\n'] + r,
{
    reveal_strlit("---\n");
    reveal_strlit("---\r\n");
    let plain = seq!['-', '-', '-', '\n'];
    let carriage = seq!['-', '-', '-', '\r', '\n'];
    assert("---\n"@ =~= plain);
    assert("---\r\n"@ =~= carriage);
    text::laws::law_part_is_contained(plain, plain, rest);
    text::laws::law_part_is_contained(carriage, carriage, rest);
    assert((plain + rest).skip(4) =~= rest);
    assert((carriage + rest).skip(5) =~= rest);
    assert((carriage + rest)[3] == '\r');
    if text::starts_with(carriage + rest, plain) {
        assert((carriage + rest).subrange(0, 4)[3] == plain[3]);
    }
    text::laws::law_ends_are_ends(c, plain);
    text::laws::law_ends_are_ends(c, carriage);
}

/// A block that closes with the text's last line, which has no line ending, leaves
/// nothing.
pub proof fn law_fence_at_the_end_leaves_nothing(c: Seq<char>)
    requires
        after_opening(c) is Some,
        text::ends_with(after_opening(c)->0, "\n---"@),
        forall|j: int| 0 <= j < after_opening(c)->0.len() ==> !#[trigger] closes_at(
            after_opening(c)->0,
            j,
        ),
    ensures
        stripped(c).len() == 0,
{
    reveal_strlit("");
    reveal_strlit("\n---\n");
    reveal_strlit("\n---\r\n");
    let rest = after_opening(c)->0;
    if text::contains_text(rest, "\n---\n"@) {
        let k = choose|k: int| text::occurs_at(rest, "\n---\n"@, k);
        assert(closes_at(rest, k));
    }
    if text::contains_text(rest, "\n---\r\n"@) {
        let k = choose|k: int| text::occurs_at(rest, "\n---\r\n"@, k);
        assert(closes_at(rest, k));
    }
}

/// A type's name is accepted exactly when it is there and holds no separator and
/// no two dots in a row, so it cannot lead out of the registry.
pub proof fn law_type_names_stay_inside(t: Seq<char>)
    ensures
        valid_type(t) <==> t.len() > 0 && (forall|i: int|
            0 <= i < t.len() ==> #[trigger] t[i] != '/' && t[i] != '\\') && (forall|i: int|
            0 <= i < t.len() - 1 ==> !(#[trigger] t[i] == '.' && t[i + 1] == '.')),
{
    reveal_strlit("/");
    reveal_strlit("\\");
    reveal_strlit("..");
    assert forall|i: int| 0 <= i < t.len() && valid_type(t) implies #[trigger] t[i] != '/' && t[i]
        != '\\' by {
        if t[i] == '/' {
            assert(t.subrange(i, i + 1) =~= "/"@);
            assert(text::occurs_at(t, "/"@, i));
        }
        if t[i] == '\\' {
            assert(t.subrange(i, i + 1) =~= "\\"@);
            assert(text::occurs_at(t, "\\"@, i));
        }
    }
    assert forall|i: int| 0 <= i < t.len() - 1 && valid_type(t) implies !(#[trigger] t[i] == '.'
        && t[i + 1] == '.') by {
        if t[i] == '.' && t[i + 1] == '.' {
            assert(t.subrange(i, i + 2) =~= ".."@);
            assert(text::occurs_at(t, ".."@, i));
        }
    }
    if text::contains_text(t, "/"@) {
        let k = choose|k: int| text::occurs_at(t, "/"@, k);
        assert(t.subrange(k, k + 1)[0] == "/"@[0]);
        assert(t[k] == '/');
    }
    if text::contains_text(t, "\\"@) {
        let k = choose|k: int| text::occurs_at(t, "\\"@, k);
        assert(t.subrange(k, k + 1)[0] == "\\"@[0]);
        assert(t[k] == '\\');
    }
    if text::contains_text(t, ".."@) {
        let k = choose|k: int| text::occurs_at(t, ".."@, k);
        assert(t.subrange(k, k + 2)[0] == ".."@[0]);
        assert(t.subrange(k, k + 2)[1] == ".."@[1]);
        assert(t[k] == '.' && t[k + 1] == '.');
    }
}

/// A file that was read gives its body without the white space around it; one that
/// was not is an error that names the file and the reason.
pub proof fn law_framing_is_the_body(t: Seq<char>, c: String, path: String, error: String)
    ensures
        framing(t, TypeFile::Text(c)) is Ok,
        framing(t, TypeFile::Text(c))->Ok_0.len() > 0 ==> !text::white_space(
            framing(t, TypeFile::Text(c))->Ok_0[0],
        ) && !text::white_space(framing(t, TypeFile::Text(c))->Ok_0.last()),
        text::contains_text(stripped(c@), framing(t, TypeFile::Text(c))->Ok_0),
        ({
            let r = framing(t, TypeFile::Unreadable { path, error });
            &&& r is Err
            &&& text::contains_text(r->Err_0, path@)
            &&& text::ends_with(r->Err_0, error@)
        }),
{
    let s = stripped(c@);
    text::laws::law_trim_cuts_exactly_the_white_space(s);
    let (a, b) = choose|a: int, b: int|
        0 <= a <= b <= s.len() && text::trimmed(s) == #[trigger] s.subrange(a, b);
    assert(text::occurs_at(s, text::trimmed(s), a));
    let lead = "agentType "@ + text::debug_form(t) + ": cannot read "@;
    text::laws::law_part_is_contained(lead, path@, ": "@ + error@);
    assert(lead + path@ + ": "@ + error@ =~= lead + path@ + (": "@ + error@));
    text::laws::law_part_is_contained(lead + path@ + ": "@, error@, error@);
}

/// All that framing leaves out of the body is white space around it.
pub proof fn law_framing_keeps_the_words(t: Seq<char>, c: String)
    ensures
        exists|a: int, b: int|
            0 <= a <= b <= stripped(c@).len() && framing(t, TypeFile::Text(c)) == Ok::<
                Seq<char>,
                Seq<char>,
            >(#[trigger] stripped(c@).subrange(a, b)) && (forall|i: int|
                0 <= i < a || b <= i < stripped(c@).len() ==> text::white_space(
                    #[trigger] stripped(c@)[i],
                )),
{
    text::laws::law_trim_cuts_exactly_the_white_space(stripped(c@));
}

} // verus!
