//! What the command line asks for.
//!
//! `codex-flow [--tui] [--concurrency N] [--resume RUN_ID] [workflow] [args-json]`
//! runs a workflow; `codex-flow bench [agents] [events]` measures rendering.

use vstd::prelude::*;

use crate::text;

verus! {

/// A workflow run.
pub struct RunArgs {
    /// Full-screen front-end instead of printed lines.
    pub tui: bool,
    pub concurrency: Option<usize>,
    /// The earlier run whose journal is reused.
    pub resume: Option<String>,
    pub workflow: String,
    pub args_json: Option<String>,
}

/// What to do.
pub enum Command {
    Bench { agents: usize, per: usize },
    Run(RunArgs),
}

/// What a [`RunArgs`] says.
#[verifier::ext_equal]
pub struct RunArgsView {
    pub tui: bool,
    pub concurrency: Option<nat>,
    pub resume: Option<Seq<char>>,
    pub workflow: Seq<char>,
    pub args_json: Option<Seq<char>>,
}

/// What a [`Command`] says.
pub enum CommandView {
    Bench { agents: nat, per: nat },
    Run(RunArgsView),
}

impl View for RunArgs {
    type V = RunArgsView;

    open spec fn view(&self) -> RunArgsView {
        RunArgsView {
            tui: self.tui,
            concurrency: match self.concurrency {
                Some(n) => Some(n as nat),
                None => None,
            },
            resume: text::opt_text(self.resume),
            workflow: self.workflow@,
            args_json: text::opt_text(self.args_json),
        }
    }
}

impl View for Command {
    type V = CommandView;

    open spec fn view(&self) -> CommandView {
        match *self {
            Command::Bench { agents, per } => CommandView::Bench {
                agents: agents as nat,
                per: per as nat,
            },
            Command::Run(r) => CommandView::Run(r@),
        }
    }
}

/// The argument at `i`, if there is one.
pub open spec fn arg(args: Seq<Seq<char>>, i: int) -> Option<Seq<char>> {
    if 0 <= i < args.len() {
        Some(args[i])
    } else {
        None
    }
}

/// The number at `i`, if the argument there is one.
pub open spec fn number_at(args: Seq<Seq<char>>, i: int) -> Option<nat> {
    match arg(args, i) {
        Some(s) => text::unsigned_value(s, usize::MAX as nat),
        None => None,
    }
}

/// The number at `i`, or `default`.
pub open spec fn number_or(args: Seq<Seq<char>>, i: int, default: nat) -> nat {
    match number_at(args, i) {
        Some(n) => n,
        None => default,
    }
}

/// The position of the first argument that reads `name`, or the length when none
/// does.
pub open spec fn position(args: Seq<Seq<char>>, name: Seq<char>) -> int
    decreases args.len(),
{
    if args.len() == 0 || args[0] == name {
        0
    } else {
        1 + position(args.drop_first(), name)
    }
}

/// The arguments without those that read `name`.
pub open spec fn without(args: Seq<Seq<char>>, name: Seq<char>) -> Seq<Seq<char>> {
    args.filter(|a: Seq<char>| a != name)
}

/// The concurrency asked for, and the arguments left. The token after the flag
/// goes with it only if it is a number, so that the flag never swallows a
/// workflow path.
pub open spec fn take_concurrency(args: Seq<Seq<char>>) -> (Option<nat>, Seq<Seq<char>>) {
    let i = position(args, "--concurrency"@);
    if i >= args.len() {
        (None, args)
    } else {
        match number_at(args, i + 1) {
            Some(n) => (Some(n), args.remove(i + 1).remove(i)),
            None => (None, args.remove(i)),
        }
    }
}

/// A run id, and not another flag or a workflow path.
pub open spec fn run_id_like(s: Seq<char>) -> bool {
    !text::starts_with(s, "-"@) && !text::ends_with(s, ".js"@)
}

/// The run to resume, and the arguments left; `None` when the flag lacks its run
/// id.
pub open spec fn take_resume(args: Seq<Seq<char>>) -> Option<
    (Option<Seq<char>>, Seq<Seq<char>>),
> {
    let i = position(args, "--resume"@);
    if i >= args.len() {
        Some((None, args))
    } else {
        match arg(args, i + 1) {
            Some(v) => if run_id_like(v) {
                Some((Some(v), args.remove(i + 1).remove(i)))
            } else {
                None
            },
            None => None,
        }
    }
}

/// What the arguments ask for; `None` when `--resume` lacks its run id.
pub open spec fn asked(args: Seq<Seq<char>>) -> Option<CommandView> {
    if arg(args, 0) == Some("bench"@) {
        Some(
            CommandView::Bench { agents: number_or(args, 1, 16), per: number_or(args, 2, 200) },
        )
    } else {
        let (concurrency, rest) = take_concurrency(without(args, "--tui"@));
        match take_resume(rest) {
            None => None,
            Some((resume, rest)) => Some(
                CommandView::Run(
                    RunArgsView {
                        tui: args.contains("--tui"@),
                        concurrency,
                        resume,
                        workflow: match arg(rest, 0) {
                            Some(w) => w,
                            None => "examples/hello.workflow.js"@,
                        },
                        args_json: arg(rest, 1),
                    },
                ),
            ),
        }
    }
}

/// What a `--resume` without a run id is told.
pub const RESUME_USAGE: &'static str =
    "--resume requires a run id: codex-flow --resume <run_id> <workflow.js>";

fn read_number(args: &Vec<String>, i: usize) -> (r: Option<usize>)
    ensures
        match r {
            Some(n) => number_at(text::texts(args@), i as int) == Some(n as nat),
            None => number_at(text::texts(args@), i as int) is None,
        },
{
    if i < args.len() {
        match text::parse_unsigned(args[i].as_str(), usize::MAX as u64) {
            Some(n) => Some(n as usize),
            None => None,
        }
    } else {
        None
    }
}

fn copy_arg(args: &Vec<String>, i: usize) -> (r: Option<String>)
    ensures
        text::opt_text(r) == arg(text::texts(args@), i as int),
{
    if i < args.len() {
        Some(args[i].clone())
    } else {
        None
    }
}

proof fn lemma_position(args: Seq<Seq<char>>, name: Seq<char>, i: int)
    requires
        0 <= i <= args.len(),
        i < args.len() ==> args[i] == name,
        forall|j: int| 0 <= j < i ==> args[j] != name,
    ensures
        position(args, name) == i,
    decreases args.len(),
{
    if i > 0 {
        let rest = args.drop_first();
        assert(args[0] != name);
        assert forall|j: int| 0 <= j < i - 1 implies rest[j] != name by {
            assert(rest[j] == args[j + 1]);
        }
        lemma_position(rest, name, i - 1);
    }
}

fn find_arg(args: &Vec<String>, name: &str) -> (r: usize)
    ensures
        r <= args@.len(),
        r == position(text::texts(args@), name@),
        r < args@.len() ==> args@[r as int]@ == name@,
{
    let mut i: usize = 0;
    while i < args.len()
        invariant
            i <= args@.len(),
            forall|j: int| 0 <= j < i ==> args@[j]@ != name@,
        decreases args@.len() - i,
    {
        if text::same_text(args[i].as_str(), name) {
            proof {
                lemma_position(text::texts(args@), name@, i as int);
            }
            return i;
        }
        i += 1;
    }
    proof {
        lemma_position(text::texts(args@), name@, i as int);
    }
    i
}

fn drop_all(args: &Vec<String>, name: &str) -> (r: (Vec<String>, bool))
    ensures
        text::texts(r.0@) == without(text::texts(args@), name@),
        r.1 == text::texts(args@).contains(name@),
{
    let mut kept: Vec<String> = Vec::new();
    let mut found = false;
    let mut i: usize = 0;
    let ghost all = text::texts(args@);
    proof {
        reveal(Seq::filter);
        assert(all.take(0) =~= Seq::empty());
        assert(text::texts(kept@) =~= without(all.take(0), name@));
    }
    while i < args.len()
        invariant
            i <= args@.len(),
            all == text::texts(args@),
            text::texts(kept@) == without(all.take(i as int), name@),
            found == exists|j: int| 0 <= j < i && #[trigger] all[j] == name@,
        decreases args@.len() - i,
    {
        proof {
            reveal(Seq::filter);
            assert(all.take(i as int + 1).drop_last() =~= all.take(i as int));
            assert(all.take(i as int + 1).last() == all[i as int]);
        }
        if text::same_text(args[i].as_str(), name) {
            found = true;
            assert(all[i as int] == name@);
        } else {
            text::push_copy(&mut kept, args[i].as_str());
        }
        i += 1;
    }
    proof {
        assert(all.take(args@.len() as int) =~= all);
    }
    (kept, found)
}

fn remove_arg(args: &mut Vec<String>, i: usize)
    requires
        i < old(args)@.len(),
    ensures
        text::texts(final(args)@) == text::texts(old(args)@).remove(i as int),
{
    args.remove(i);
    assert(text::texts(args@) =~= text::texts(old(args)@).remove(i as int));
}

/// Read the command line, program name not included. The error is what the user
/// is told.
pub fn parse_command(args: Vec<String>) -> (r: Result<Command, String>)
    ensures
        match asked(text::texts(args@)) {
            Some(c) => r matches Ok(x) && x@ == c,
            None => r matches Err(m) && m@ == RESUME_USAGE@,
        },
{
    if args.len() > 0 && text::same_text(args[0].as_str(), "bench") {
        let agents: usize = match read_number(&args, 1) {
            Some(n) => n,
            None => 16,
        };
        let per: usize = match read_number(&args, 2) {
            Some(n) => n,
            None => 200,
        };
        return Ok(Command::Bench { agents, per });
    }
    let (mut rest, tui) = drop_all(&args, "--tui");
    let ghost stripped = text::texts(rest@);
    let mut concurrency: Option<usize> = None;
    let i: usize = find_arg(&rest, "--concurrency");
    if i < rest.len() {
        assert(rest@.len() == rest.len());
        concurrency = read_number(&rest, i + 1);
        if concurrency.is_some() {
            remove_arg(&mut rest, i + 1);
        }
        remove_arg(&mut rest, i);
    }
    assert(text::texts(rest@) == take_concurrency(stripped).1);
    let ghost after = text::texts(rest@);
    let mut resume: Option<String> = None;
    let j: usize = find_arg(&rest, "--resume");
    if j < rest.len() {
        assert(rest@.len() == rest.len());
        let ok = j + 1 < rest.len() && !text::text_starts_with(rest[j + 1].as_str(), "-")
            && !text::text_ends_with(rest[j + 1].as_str(), ".js");
        if !ok {
            assert(take_resume(after) is None);
            return Err(text::copied(RESUME_USAGE));
        }
        resume = copy_arg(&rest, j + 1);
        remove_arg(&mut rest, j + 1);
        remove_arg(&mut rest, j);
    }
    let workflow = match copy_arg(&rest, 0) {
        Some(w) => w,
        None => text::copied("examples/hello.workflow.js"),
    };
    let args_json = copy_arg(&rest, 1);
    let run = RunArgs { tui, concurrency, resume, workflow, args_json };
    assert(asked(text::texts(args@)) == Some(CommandView::Run(run@)));
    Ok(Command::Run(run))
}

// ── Laws ──

/// What follows `--concurrency` and is no number, such as a workflow path, stays
/// where it was: only the flag is taken out.
pub proof fn law_concurrency_never_eats_the_workflow(
    before: Seq<Seq<char>>,
    after: Seq<Seq<char>>,
)
    requires
        !before.contains("--concurrency"@),
        number_at(after, 0) is None,
    ensures
        take_concurrency(before + seq!["--concurrency"@] + after) == (
            None::<nat>,
            before + after,
        ),
{
    let flag = "--concurrency"@;
    let args = before + seq![flag] + after;
    let i = before.len() as int;
    lemma_flag_position(before, flag, after);
    assert(arg(args, i + 1) == arg(after, 0));
    assert(args.remove(i) =~= before + after);
}

/// `--concurrency` and its number may stand anywhere, and leave the other
/// arguments as they were.
pub proof fn law_concurrency_leaves_the_rest(
    before: Seq<Seq<char>>,
    number: Seq<char>,
    after: Seq<Seq<char>>,
)
    requires
        !before.contains("--concurrency"@),
        text::unsigned_value(number, usize::MAX as nat) is Some,
    ensures
        take_concurrency(before + seq!["--concurrency"@] + (seq![number] + after)) == (
            text::unsigned_value(number, usize::MAX as nat),
            before + after,
        ),
{
    let flag = "--concurrency"@;
    let rest = seq![number] + after;
    let args = before + seq![flag] + rest;
    let i = before.len() as int;
    lemma_flag_position(before, flag, rest);
    assert(args[i + 1] == number);
    assert(args.remove(i + 1).remove(i) =~= before + after);
}

/// `--resume` and its run id may stand anywhere, and leave the other arguments as
/// they were.
pub proof fn law_resume_leaves_the_rest(
    before: Seq<Seq<char>>,
    id: Seq<char>,
    after: Seq<Seq<char>>,
)
    requires
        !before.contains("--resume"@),
        run_id_like(id),
    ensures
        take_resume(before + seq!["--resume"@] + (seq![id] + after)) == Some(
            (Some(id), before + after),
        ),
{
    let flag = "--resume"@;
    let rest = seq![id] + after;
    let args = before + seq![flag] + rest;
    let i = before.len() as int;
    lemma_flag_position(before, flag, rest);
    assert(args[i + 1] == id);
    assert(args.remove(i + 1).remove(i) =~= before + after);
}

proof fn lemma_flag_position(before: Seq<Seq<char>>, flag: Seq<char>, after: Seq<Seq<char>>)
    requires
        !before.contains(flag),
    ensures
        position(before + seq![flag] + after, flag) == before.len(),
{
    let args = before + seq![flag] + after;
    assert forall|j: int| 0 <= j < before.len() implies args[j] != flag by {
        assert(args[j] == before[j]);
        assert(before.contains(before[j]));
    }
    lemma_position(args, flag, before.len() as int);
}

proof fn lemma_without_absent(args: Seq<Seq<char>>, name: Seq<char>)
    requires
        !args.contains(name),
    ensures
        without(args, name) == args,
    decreases args.len(),
{
    reveal(Seq::filter);
    if args.len() > 0 {
        let front = args.drop_last();
        assert(args[args.len() - 1] != name);
        assert(!front.contains(name)) by {
            if front.contains(name) {
                let i = choose|i: int| 0 <= i < front.len() && front[i] == name;
                assert(args[i] == name);
            }
        }
        lemma_without_absent(front, name);
        assert(front.push(args.last()) =~= args);
    }
}

/// `--resume` without a run id is refused, whether the next token is a flag, a
/// workflow path or missing.
pub proof fn law_resume_needs_a_run_id(args: Seq<Seq<char>>)
    requires
        position(args, "--resume"@) < args.len(),
        arg(args, position(args, "--resume"@) + 1) matches Some(v) ==> !run_id_like(v),
    ensures
        take_resume(args) is None,
{
}

/// Without options, the first argument is the workflow and the second its
/// argument document.
pub proof fn law_positionals_keep_their_places(args: Seq<Seq<char>>)
    requires
        args.len() > 0 ==> args[0] != "bench"@,
        !args.contains("--tui"@),
        !args.contains("--concurrency"@),
        !args.contains("--resume"@),
    ensures
        asked(args) == Some(
            CommandView::Run(
                RunArgsView {
                    tui: false,
                    concurrency: None,
                    resume: None,
                    workflow: match arg(args, 0) {
                        Some(w) => w,
                        None => "examples/hello.workflow.js"@,
                    },
                    args_json: arg(args, 1),
                },
            ),
        ),
{
    lemma_without_absent(args, "--tui"@);
    let n = args.len() as int;
    assert forall|j: int, name: Seq<char>| 0 <= j < n && !args.contains(name) implies args[j]
        != name by {}
    lemma_position(args, "--concurrency"@, n);
    lemma_position(args, "--resume"@, n);
}

/// `--tui` may stand anywhere but in front of `bench`, and changes nothing else.
pub proof fn law_tui_may_stand_anywhere(before: Seq<Seq<char>>, after: Seq<Seq<char>>)
    requires
        arg(before + after, 0) != Some("bench"@),
    ensures
        ({
            let with_flag = asked(before + seq!["--tui"@] + after);
            match asked(before + after) {
                None => with_flag is None,
                Some(CommandView::Run(r)) => with_flag == Some(
                    CommandView::Run(RunArgsView { tui: true, ..r }),
                ),
                Some(CommandView::Bench { .. }) => false,
            }
        }),
{
    let flag = "--tui"@;
    let all = before + seq![flag] + after;
    let keep = |a: Seq<char>| a != flag;
    reveal_strlit("--tui");
    reveal_strlit("bench");
    reveal_with_fuel(Seq::filter, 2);
    assert(flag[0] == '-');
    assert("bench"@[0] == 'b');
    assert(arg(all, 0) != Some("bench"@)) by {
        if before.len() > 0 {
            assert(all[0] == before[0]);
            assert((before + after)[0] == before[0]);
        } else {
            assert(all[0] == flag);
        }
    }
    assert(seq![flag].drop_last() =~= Seq::empty());
    assert(seq![flag].filter(keep) =~= Seq::empty());
    Seq::filter_distributes_over_add(before, after, keep);
    Seq::filter_distributes_over_add(before + seq![flag], after, keep);
    Seq::filter_distributes_over_add(before, seq![flag], keep);
    assert(without(all, flag) =~= without(before + after, flag));
    assert(all[before.len() as int] == flag);
    assert(all.contains(flag));
}

/// The options and the measuring command are told apart by their names.
proof fn lemma_names_differ()
    ensures
        "--tui"@ != "--concurrency"@,
        "--tui"@ != "--resume"@,
        "--concurrency"@ != "--resume"@,
        "bench"@ != "--concurrency"@,
        "bench"@ != "--resume"@,
{
    reveal_strlit("--tui");
    reveal_strlit("--concurrency");
    reveal_strlit("--resume");
    reveal_strlit("bench");
    assert("--tui"@.len() == 5 && "--resume"@.len() == 8 && "--concurrency"@.len() == 13);
    assert("bench"@.len() == 5);
}

/// No argument is an option, and the first does not ask for the measurement.
pub open spec fn plain(args: Seq<Seq<char>>) -> bool {
    &&& !args.contains("--tui"@)
    &&& !args.contains("--concurrency"@)
    &&& !args.contains("--resume"@)
    &&& args.len() > 0 ==> args[0] != "bench"@
}

proof fn lemma_absent_in_parts(a: Seq<Seq<char>>, b: Seq<Seq<char>>, name: Seq<char>)
    requires
        !(a + b).contains(name),
    ensures
        !a.contains(name),
        !b.contains(name),
{
    if a.contains(name) {
        let k = choose|k: int| 0 <= k < a.len() && a[k] == name;
        assert((a + b)[k] == name);
    }
    if b.contains(name) {
        let k = choose|k: int| 0 <= k < b.len() && b[k] == name;
        assert((a + b)[a.len() + k] == name);
    }
}

proof fn lemma_absent_around(
    a: Seq<Seq<char>>,
    x: Seq<char>,
    y: Seq<char>,
    b: Seq<Seq<char>>,
    name: Seq<char>,
)
    requires
        !a.contains(name),
        !b.contains(name),
        x != name,
        y != name,
    ensures
        !(a + seq![x] + (seq![y] + b)).contains(name),
{
    let all = a + seq![x] + (seq![y] + b);
    if all.contains(name) {
        let k = choose|k: int| 0 <= k < all.len() && all[k] == name;
        if k < a.len() {
            assert(a[k] == name);
        } else if k > a.len() + 1 {
            assert(b[k - a.len() - 2] == name);
        }
    }
}

/// What a run is asked for, its options having been taken out.
proof fn lemma_asked(
    args: Seq<Seq<char>>,
    concurrency: Option<nat>,
    between: Seq<Seq<char>>,
    resume: Option<Seq<char>>,
    rest: Seq<Seq<char>>,
)
    requires
        arg(args, 0) != Some("bench"@),
        !args.contains("--tui"@),
        take_concurrency(args) == (concurrency, between),
        take_resume(between) == Some((resume, rest)),
    ensures
        asked(args) == Some(
            CommandView::Run(
                RunArgsView {
                    tui: false,
                    concurrency,
                    resume,
                    workflow: match arg(rest, 0) {
                        Some(w) => w,
                        None => "examples/hello.workflow.js"@,
                    },
                    args_json: arg(rest, 1),
                },
            ),
        ),
{
    lemma_without_absent(args, "--tui"@);
}

proof fn lemma_no_flag(args: Seq<Seq<char>>, name: Seq<char>)
    requires
        !args.contains(name),
    ensures
        position(args, name) == args.len(),
{
    assert forall|j: int| 0 <= j < args.len() implies args[j] != name by {
        assert(args.contains(args[j]));
    }
    lemma_position(args, name, args.len() as int);
}

/// `--resume` and its run id name the run to resume wherever they stand, and leave
/// the workflow and its arguments what they are without them.
pub proof fn law_resume_names_the_run(
    before: Seq<Seq<char>>,
    id: Seq<char>,
    after: Seq<Seq<char>>,
)
    requires
        plain(before + after),
        before.len() > 0 ==> before[0] != "bench"@,
        run_id_like(id),
        id != "--tui"@,
        id != "--concurrency"@,
    ensures
        ({
            let with_flag = asked(before + seq!["--resume"@] + (seq![id] + after));
            &&& asked(before + after) matches Some(CommandView::Run(r)) && with_flag == Some(
                CommandView::Run(RunArgsView { resume: Some(id), ..r }),
            )
        }),
{
    let flag = "--resume"@;
    let rest = before + after;
    let all = before + seq![flag] + (seq![id] + after);
    assert(!all.contains("--tui"@) && !all.contains("--concurrency"@)) by {
        lemma_names_differ();
        lemma_absent_in_parts(before, after, "--tui"@);
        lemma_absent_in_parts(before, after, "--concurrency"@);
        lemma_absent_around(before, flag, id, after, "--tui"@);
        lemma_absent_around(before, flag, id, after, "--concurrency"@);
    }
    assert(arg(all, 0) != Some("bench"@)) by {
        lemma_names_differ();
        if before.len() > 0 {
            assert(all[0] == before[0]);
        } else {
            assert(all[0] == flag);
        }
    }
    assert(take_concurrency(all) == (None::<nat>, all)) by {
        lemma_no_flag(all, "--concurrency"@);
    }
    assert(take_resume(all) == Some((Some(id), rest))) by {
        lemma_absent_in_parts(before, after, flag);
        law_resume_leaves_the_rest(before, id, after);
    }
    lemma_asked(all, None, all, Some(id), rest);
    lemma_plain(rest);
}

proof fn lemma_plain(args: Seq<Seq<char>>)
    requires
        plain(args),
    ensures
        take_concurrency(args) == (None::<nat>, args),
        take_resume(args) == Some((None::<Seq<char>>, args)),
        asked(args) == Some(
            CommandView::Run(
                RunArgsView {
                    tui: false,
                    concurrency: None,
                    resume: None,
                    workflow: match arg(args, 0) {
                        Some(w) => w,
                        None => "examples/hello.workflow.js"@,
                    },
                    args_json: arg(args, 1),
                },
            ),
        ),
{
    lemma_no_flag(args, "--concurrency"@);
    lemma_no_flag(args, "--resume"@);
    lemma_asked(args, None, args, None, args);
}

/// `--concurrency` and a number ask for that many agents at once wherever they
/// stand, and leave the workflow and its arguments what they are without them.
pub proof fn law_concurrency_asks_for_its_number(
    before: Seq<Seq<char>>,
    n: nat,
    after: Seq<Seq<char>>,
)
    requires
        plain(before + after),
        before.len() > 0 ==> before[0] != "bench"@,
        n <= usize::MAX,
    ensures
        ({
            let with_flag = asked(
                before + seq!["--concurrency"@] + (seq![text::decimal(n)] + after),
            );
            &&& asked(before + after) matches Some(CommandView::Run(r)) && with_flag == Some(
                CommandView::Run(RunArgsView { concurrency: Some(n), ..r }),
            )
        }),
{
    let flag = "--concurrency"@;
    let d = text::decimal(n);
    let rest = before + after;
    let all = before + seq![flag] + (seq![d] + after);
    assert(text::unsigned_value(d, usize::MAX as nat) == Some(n)) by {
        text::laws::law_decimal_is_read_back(n, usize::MAX as nat);
    }
    assert(d != "--tui"@) by {
        text::laws::law_decimal_has_no_leading_zero(n);
        reveal_strlit("--tui");
        assert("--tui"@[0] == '-');
        assert('0' <= d[0]);
    }
    assert(!all.contains("--tui"@)) by {
        lemma_names_differ();
        lemma_absent_in_parts(before, after, "--tui"@);
        lemma_absent_around(before, flag, d, after, "--tui"@);
    }
    assert(arg(all, 0) != Some("bench"@)) by {
        lemma_names_differ();
        if before.len() > 0 {
            assert(all[0] == before[0]);
        } else {
            assert(all[0] == flag);
        }
    }
    assert(take_concurrency(all) == (Some(n), rest)) by {
        lemma_absent_in_parts(before, after, flag);
        law_concurrency_leaves_the_rest(before, d, after);
    }
    lemma_plain(rest);
    lemma_asked(all, Some(n), rest, None, rest);
}

/// The measuring command takes the number of agents and then that of events; what
/// is missing or no number is sixteen and two hundred.
pub proof fn law_bench_reads_its_sizes(agents: nat, per: nat, x: Seq<char>, y: Seq<char>)
    requires
        agents <= usize::MAX,
        per <= usize::MAX,
        text::unsigned_value(x, usize::MAX as nat) is None,
        text::unsigned_value(y, usize::MAX as nat) is None,
    ensures
        asked(seq!["bench"@, text::decimal(agents), text::decimal(per)]) == Some(
            (CommandView::Bench { agents, per }),
        ),
        asked(seq!["bench"@, text::decimal(agents)]) == Some(
            (CommandView::Bench { agents, per: 200 }),
        ),
        asked(seq!["bench"@]) == Some((CommandView::Bench { agents: 16, per: 200 })),
        asked(seq!["bench"@, x, text::decimal(per)]) == Some(
            (CommandView::Bench { agents: 16, per }),
        ),
        asked(seq!["bench"@, text::decimal(agents), y]) == Some(
            (CommandView::Bench { agents, per: 200 }),
        ),
{
    text::laws::law_decimal_is_read_back(agents, usize::MAX as nat);
    text::laws::law_decimal_is_read_back(per, usize::MAX as nat);
}

/// A run id is anything but what starts like a flag or ends like a workflow file.
pub proof fn law_run_ids_are_no_flags_and_no_files(s: Seq<char>)
    ensures
        s.len() > 0 && s[0] == '-' ==> !run_id_like(s),
        s.len() >= 3 && s.skip(s.len() - 3) == seq!['.', 'j', 's'] ==> !run_id_like(s),
        s.len() == 0 ==> run_id_like(s),
        s.len() > 0 && s[0] != '-' && (s.len() < 3 || s.skip(s.len() - 3) != seq!['.', 'j', 's'])
            ==> run_id_like(s),
{
    reveal_strlit("-");
    reveal_strlit(".js");
    assert("-"@ =~= seq!['-']);
    assert(".js"@ =~= seq!['.', 'j', 's']);
    if s.len() > 0 {
        assert(s.subrange(0, 1) =~= seq![s[0]]);
        if text::starts_with(s, "-"@) {
            assert(s.subrange(0, 1)[0] == '-');
        }
    }
    if s.len() >= 3 {
        assert(s.subrange(s.len() - 3, s.len() as int) =~= s.skip(s.len() - 3));
    }
}

/// The first argument that reads like an option is the one that counts.
pub proof fn law_first_flag_counts(args: Seq<Seq<char>>, name: Seq<char>, i: int)
    requires
        0 <= i < args.len(),
        args[i] == name,
        forall|j: int| 0 <= j < i ==> #[trigger] args[j] != name,
    ensures
        position(args, name) == i,
{
    lemma_position(args, name, i);
}

/// A command says everything it was made with.
pub proof fn law_command_says_everything(r: RunArgs, c: Command)
    ensures
        r@.tui == r.tui,
        r@.concurrency is Some <==> r.concurrency is Some,
        r.concurrency matches Some(n) ==> r@.concurrency == Some(n as nat),
        r@.resume == text::opt_text(r.resume),
        r@.workflow == r.workflow@,
        r@.args_json == text::opt_text(r.args_json),
        c matches Command::Run(x) ==> c@ == CommandView::Run(x@),
        c is Bench ==> c@ is Bench && c@->agents == c->agents && c@->per == c->per,
{
}

/// Options may be given together, in either order, and each is read as it is
/// alone.
pub proof fn law_options_may_be_combined(n: nat, id: Seq<char>, rest: Seq<Seq<char>>)
    requires
        plain(rest),
        n <= usize::MAX,
        run_id_like(id),
        id != "--tui"@,
        id != "--concurrency"@,
    ensures
        ({
            let c = seq!["--concurrency"@, text::decimal(n)];
            let r = seq!["--resume"@, id];
            &&& asked(rest) matches Some(CommandView::Run(x)) && asked(c + r + rest) == Some(
                CommandView::Run(RunArgsView { concurrency: Some(n), resume: Some(id), ..x }),
            ) && asked(r + c + rest) == Some(
                CommandView::Run(RunArgsView { concurrency: Some(n), resume: Some(id), ..x }),
            )
        }),
{
    let none = Seq::<Seq<char>>::empty();
    let d = text::decimal(n);
    let c = seq!["--concurrency"@, d];
    let r = seq!["--resume"@, id];
    assert(text::unsigned_value(d, usize::MAX as nat) == Some(n)) by {
        text::laws::law_decimal_is_read_back(n, usize::MAX as nat);
    }
    assert(d != "--tui"@ && d != "--resume"@ && d != "--concurrency"@) by {
        text::laws::law_decimal_has_no_leading_zero(n);
        reveal_strlit("--tui");
        reveal_strlit("--resume");
        reveal_strlit("--concurrency");
        assert("--tui"@[0] == '-' && "--resume"@[0] == '-' && "--concurrency"@[0] == '-');
        assert('0' <= d[0]);
    }
    lemma_names_differ();
    assert(none + rest =~= rest);
    assert(!(r + rest).contains("--tui"@)) by {
        assert(none + seq!["--resume"@] + (seq![id] + rest) =~= r + rest);
        lemma_absent_around(none, "--resume"@, id, rest, "--tui"@);
    }
    assert(!(c + rest).contains("--tui"@)) by {
        assert(none + seq!["--concurrency"@] + (seq![d] + rest) =~= c + rest);
        lemma_absent_around(none, "--concurrency"@, d, rest, "--tui"@);
    }
    assert(take_resume(r + rest) == Some((Some(id), rest))) by {
        law_resume_leaves_the_rest(none, id, rest);
        assert(none + seq!["--resume"@] + (seq![id] + rest) =~= r + rest);
    }
    let first = c + r + rest;
    assert(first =~= none + seq!["--concurrency"@] + (seq![d] + (r + rest)));
    assert(!first.contains("--tui"@)) by {
        lemma_absent_around(none, "--concurrency"@, d, r + rest, "--tui"@);
    }
    assert(take_concurrency(first) == (Some(n), r + rest)) by {
        law_concurrency_leaves_the_rest(none, d, r + rest);
        assert(none + (r + rest) =~= r + rest);
    }
    assert(first[0] == "--concurrency"@);
    lemma_asked(first, Some(n), r + rest, Some(id), rest);
    let second = r + c + rest;
    assert(second =~= none + seq!["--resume"@] + (seq![id] + (c + rest)));
    assert(!second.contains("--tui"@)) by {
        lemma_absent_around(none, "--resume"@, id, c + rest, "--tui"@);
    }
    assert(take_concurrency(second) == (Some(n), r + rest)) by {
        assert(!r.contains("--concurrency"@));
        law_concurrency_leaves_the_rest(r, d, rest);
        assert(second =~= r + seq!["--concurrency"@] + (seq![d] + rest));
    }
    assert(second[0] == "--resume"@);
    lemma_asked(second, Some(n), r + rest, Some(id), rest);
    lemma_plain(rest);
}

} // verus!
