//! What holds of the settings of a run and of what is said of its failures.

use vstd::prelude::*;

use crate::cli;
use crate::cli::TrackerView;
use crate::event::{AgentId, AgentStatus, EventView, UpdateView};
use crate::text;

verus! {

// ── Concurrency ──

/// A number in the environment, one or more, is taken as it is, with white space
/// around it or not; anything else is as if it were not there.
pub proof fn law_environment_is_taken_at_its_word(n: nat, s: Seq<char>)
    ensures
        1 <= n <= usize::MAX ==> cli::env_cap(Some(text::decimal(n))) == Some(n),
        1 <= n <= usize::MAX && text::trimmed(s) == text::decimal(n) ==> cli::env_cap(Some(s))
            == Some(n),
        text::unsigned_value(text::trimmed(s), usize::MAX as nat) is None ==> cli::env_cap(Some(s))
            is None,
        cli::env_cap(Some(text::decimal(0))) is None,
        cli::env_cap(None) is None,
        cli::env_cap(Some(s)) matches Some(c) ==> c >= 1,
{
    text::laws::law_decimal_is_read_back(n, usize::MAX as nat);
    text::laws::law_decimal_is_read_back(0, usize::MAX as nat);
    lemma_decimal_is_trimmed(n);
    lemma_decimal_is_trimmed(0);
}

proof fn lemma_decimal_is_trimmed(n: nat)
    ensures
        text::trimmed(text::decimal(n)) == text::decimal(n),
{
    let d = text::decimal(n);
    text::laws::law_decimal_has_no_leading_zero(n);
    text::laws::law_ascii_white_space(d[0]);
    assert(d.last() == d[d.len() - 1]);
    text::laws::law_ascii_white_space(d.last());
    text::lemma_trimmed_fixed(d);
}

/// The default cap is between one and sixteen, leaves two cores free where it can,
/// and uses all the others up to that.
pub proof fn law_default_cap_leaves_two_cores(cores: nat)
    ensures
        1 <= cli::default_cap(cores) <= 16,
        cores >= 3 ==> cli::default_cap(cores) + 2 <= cores,
        3 <= cores <= 18 ==> cli::default_cap(cores) + 2 == cores,
        cores > 18 ==> cli::default_cap(cores) == 16,
        cores < 3 ==> cli::default_cap(cores) == 1,
{
}

// ── Names ──

/// An agent is shown by its label; one of a group by the group, a slash and the
/// label.
pub proof fn law_names_carry_the_group(g: Seq<char>, label: Seq<char>)
    ensures
        cli::display_name(None, label) == label,
        text::starts_with(cli::display_name(Some(g), label), g),
        text::ends_with(cli::display_name(Some(g), label), label),
        cli::display_name(Some(g), label).len() == g.len() + 1 + label.len(),
        cli::display_name(Some(g), label)[g.len() as int] == '/',
{
    reveal_strlit("/");
    assert(g + "/"@ + label =~= g + ("/"@ + label));
    text::laws::law_part_is_contained(g, g, "/"@ + label);
    text::laws::law_part_is_contained(g + "/"@, label, label);
}

// ── Failures ──

/// The event is a status of this agent.
pub open spec fn has_status(ev: EventView, id: AgentId, s: AgentStatus) -> bool {
    ev matches EventView::Agent { id: who, update } && who == id && update == UpdateView::Status(s)
}

/// The event is a note of this agent.
pub open spec fn is_note_of(ev: EventView, id: AgentId) -> bool {
    ev matches EventView::Agent { id: who, update } && who == id && update is Note
}

/// The event spawns this agent.
pub open spec fn spawns(ev: EventView, id: AgentId) -> bool {
    ev matches EventView::AgentSpawned { id: who, .. } && who == id
}

/// The agent fails here and is not done at any later point.
pub open spec fn fails_for_good(events: Seq<EventView>, id: AgentId, i: int) -> bool {
    &&& 0 <= i < events.len()
    &&& has_status(events[i], id, AgentStatus::Failed)
    &&& forall|j: int|
        i < j < events.len() ==> !has_status(#[trigger] events[j], id, AgentStatus::Done)
}

/// An agent is listed exactly when it failed at some point and was not done at any
/// later one: a retry that succeeds takes it off the list.
pub proof fn law_listed_until_it_is_done(events: Seq<EventView>, id: AgentId)
    ensures
        cli::observed_all(events).failed.contains(id) <==> exists|i: int|
            fails_for_good(events, id, i),
{
    cli::law_listed_iff_it_stands_failed(events, id);
    lemma_stands_failed(events, id);
}

proof fn lemma_stands_failed(events: Seq<EventView>, id: AgentId)
    ensures
        cli::stands_failed(events, id) <==> exists|i: int| fails_for_good(events, id, i),
    decreases events.len(),
{
    if events.len() > 0 {
        let front = events.drop_last();
        let n = events.len() - 1;
        lemma_stands_failed(front, id);
        assert(forall|j: int| 0 <= j < n ==> #[trigger] front[j] == events[j]);
        assert(events.last() == events[n]);
        if has_status(events[n], id, AgentStatus::Failed) {
            assert(fails_for_good(events, id, n));
            assert(cli::stands_failed(events, id));
        } else if has_status(events[n], id, AgentStatus::Done) {
            assert(!cli::stands_failed(events, id));
            assert forall|i: int| !fails_for_good(events, id, i) by {
                assert(i < n ==> has_status(events[n], id, AgentStatus::Done));
            }
        } else {
            assert(cli::stands_failed(events, id) == cli::stands_failed(front, id));
            if cli::stands_failed(front, id) {
                let i = choose|i: int| fails_for_good(front, id, i);
                assert(front[i] == events[i]);
                assert forall|j: int| i < j < events.len() implies !has_status(
                    #[trigger] events[j],
                    id,
                    AgentStatus::Done,
                ) by {
                    if j < n {
                        assert(front[j] == events[j]);
                    }
                }
                assert(fails_for_good(events, id, i));
            }
            if exists|i: int| fails_for_good(events, id, i) {
                let i = choose|i: int| fails_for_good(events, id, i);
                assert(i < n);
                assert(front[i] == events[i]);
                assert(fails_for_good(front, id, i));
            }
        }
    }
}

/// A new failure goes to the end of the list and leaves the others in place.
pub proof fn law_failures_are_listed_in_order(v: TrackerView, id: AgentId, ev: EventView)
    requires
        has_status(ev, id, AgentStatus::Failed),
    ensures
        !v.failed.contains(id) ==> cli::observed(v, ev).failed == v.failed.push(id),
        v.failed.contains(id) ==> cli::observed(v, ev).failed == v.failed,
        cli::observed(v, ev).labels == v.labels,
        cli::observed(v, ev).last_note == v.last_note,
{
}

proof fn lemma_without_absent(s: Seq<AgentId>, id: AgentId)
    requires
        !s.contains(id),
    ensures
        cli::without(s, id) == s,
    decreases s.len(),
{
    reveal(Seq::filter);
    if s.len() > 0 {
        let front = s.drop_last();
        assert(!front.contains(id)) by {
            if front.contains(id) {
                let k = choose|k: int| 0 <= k < front.len() && front[k] == id;
                assert(s[k] == id);
            }
        }
        lemma_without_absent(front, id);
        assert(s[s.len() - 1] != id);
        assert(s =~= front.push(s.last()));
    }
}

/// An agent that is done leaves the list, and the others keep their order; one
/// that was not listed changes nothing.
pub proof fn law_success_takes_off_the_list(
    v: TrackerView,
    id: AgentId,
    ev: EventView,
    a: Seq<AgentId>,
    b: Seq<AgentId>,
)
    requires
        has_status(ev, id, AgentStatus::Done),
        !a.contains(id),
        !b.contains(id),
    ensures
        v.failed == a + seq![id] + b ==> cli::observed(v, ev).failed == a + b,
        !v.failed.contains(id) ==> cli::observed(v, ev).failed == v.failed,
        cli::observed(v, ev).labels == v.labels,
        cli::observed(v, ev).last_note == v.last_note,
{
    assert(cli::observed(v, ev).failed == cli::without(v.failed, id));
    if !v.failed.contains(id) {
        lemma_without_absent(v.failed, id);
    }
    lemma_without_absent(a, id);
    lemma_without_absent(b, id);
    if v.failed == a + seq![id] + b {
        let one = seq![id];
        assert(cli::without(one, id) =~= Seq::<AgentId>::empty()) by {
            reveal_with_fuel(Seq::filter, 2);
            assert(one.drop_last() =~= Seq::<AgentId>::empty());
        }
        lemma_without_joins(a + one, b, id);
        lemma_without_joins(a, one, id);
        assert(a + Seq::<AgentId>::empty() =~= a);
    }
}

proof fn lemma_without_joins(a: Seq<AgentId>, b: Seq<AgentId>, id: AgentId)
    ensures
        cli::without(a + b, id) == cli::without(a, id) + cli::without(b, id),
    decreases b.len(),
{
    reveal(Seq::filter);
    if b.len() == 0 {
        assert(a + b =~= a);
        assert(cli::without(b, id) =~= Seq::<AgentId>::empty());
        assert(cli::without(a, id) + cli::without(b, id) =~= cli::without(a, id));
    } else {
        let front = b.drop_last();
        assert((a + b).drop_last() =~= a + front);
        assert((a + b).last() == b.last());
        lemma_without_joins(a, front, id);
        assert(cli::without(a + b, id) =~= cli::without(a, id) + cli::without(b, id));
    }
}

/// A failure is told with the latest note of that very agent, and without a reason
/// when it has left none.
pub proof fn law_reason_is_the_latest_note(
    events: Seq<EventView>,
    id: AgentId,
    i: int,
    n: Seq<char>,
)
    ensures
        0 <= i < events.len() && events[i] == (EventView::Agent { id, update: UpdateView::Note(n) })
            && (forall|j: int| i < j < events.len() ==> !is_note_of(#[trigger] events[j], id))
            ==> cli::failure(cli::observed_all(events), id).1 == Some(n),
        (forall|j: int| 0 <= j < events.len() ==> !is_note_of(#[trigger] events[j], id))
            ==> cli::failure(cli::observed_all(events), id).1 is None,
    decreases events.len(),
{
    if events.len() > 0 {
        let front = events.drop_last();
        law_reason_is_the_latest_note(front, id, i, n);
        assert(forall|j: int| 0 <= j < front.len() ==> #[trigger] front[j] == events[j]);
        assert(events.last() == events[events.len() - 1]);
    }
}

/// A failure is told under the name of the agent's latest spawn, and under its
/// number when it was never spawned.
pub proof fn law_name_is_the_latest_spawn(events: Seq<EventView>, id: AgentId, i: int)
    ensures
        0 <= i < events.len() && spawns(events[i], id) && (forall|j: int|
            i < j < events.len() ==> !spawns(#[trigger] events[j], id)) ==> cli::failure(
            cli::observed_all(events),
            id,
        ).0 == cli::display_name(events[i]->group, events[i]->label),
        (forall|j: int| 0 <= j < events.len() ==> !spawns(#[trigger] events[j], id))
            ==> text::ends_with(
            cli::failure(cli::observed_all(events), id).0,
            text::decimal(id as nat),
        ),
    decreases events.len(),
{
    text::laws::law_part_is_contained("agent-"@, text::decimal(id as nat), "agent-"@);
    if events.len() > 0 {
        let front = events.drop_last();
        law_name_is_the_latest_spawn(front, id, i);
        assert(forall|j: int| 0 <= j < front.len() ==> #[trigger] front[j] == events[j]);
        assert(events.last() == events[events.len() - 1]);
        if forall|j: int| 0 <= j < events.len() ==> !spawns(#[trigger] events[j], id) {
            lemma_never_spawned(events, id);
        }
    } else {
        lemma_never_spawned(events, id);
    }
}

proof fn lemma_never_spawned(events: Seq<EventView>, id: AgentId)
    requires
        forall|j: int| 0 <= j < events.len() ==> !spawns(#[trigger] events[j], id),
    ensures
        !cli::observed_all(events).labels.contains_key(id),
    decreases events.len(),
{
    if events.len() > 0 {
        let front = events.drop_last();
        assert forall|j: int| 0 <= j < front.len() implies !spawns(#[trigger] front[j], id) by {
            assert(front[j] == events[j]);
        }
        lemma_never_spawned(front, id);
        assert(!spawns(events[events.len() - 1], id));
    }
}

// ── The summary ──

/// A failure's line holds its name, and its reason if one is known.
pub proof fn law_line_tells_name_and_reason(name: Seq<char>, reason: Seq<char>)
    ensures
        text::contains_text(cli::failure_line((name, Some(reason))), name),
        text::ends_with(cli::failure_line((name, Some(reason))), reason),
        text::ends_with(cli::failure_line((name, None)), name),
        cli::failure_line((name, None))[0] == '\n',
        cli::failure_line((name, Some(reason)))[0] == '\n',
{
    reveal_strlit("\n  - ");
    let lead = "\n  - "@;
    let mid = ": "@;
    text::laws::law_part_is_contained(lead, name, mid + reason);
    assert(lead + name + mid + reason =~= lead + name + (mid + reason));
    text::laws::law_part_is_contained(lead + name + mid, reason, reason);
    text::laws::law_part_is_contained(lead, name, name);
}

/// The summary starts with how many failures there are and holds a line for each,
/// in order; nothing is said when there is none.
pub proof fn law_summary_tells_every_failure(
    items: Seq<(Seq<char>, Option<Seq<char>>)>,
    i: int,
)
    requires
        0 <= i < items.len(),
    ensures
        cli::summary(items) is Some,
        text::contains_text(cli::summary(items)->0, text::decimal(items.len())),
        text::contains_text(cli::summary(items)->0, cli::failure_line(items[i])),
{
    let head = "FAILURES ("@ + text::decimal(items.len()) + "):"@;
    let lines = cli::failure_lines(items);
    text::laws::law_part_is_contained("FAILURES ("@, text::decimal(items.len()), "):"@ + lines);
    assert(head + lines =~= "FAILURES ("@ + text::decimal(items.len()) + ("):"@ + lines));
    let (a, b) = lemma_line_is_there(items, i);
    text::laws::law_part_is_contained(head + a, cli::failure_line(items[i]), b);
    assert(head + lines =~= head + a + cli::failure_line(items[i]) + b);
}

proof fn lemma_line_is_there(items: Seq<(Seq<char>, Option<Seq<char>>)>, i: int) -> (r: (
    Seq<char>,
    Seq<char>,
))
    requires
        0 <= i < items.len(),
    ensures
        cli::failure_lines(items) == r.0 + cli::failure_line(items[i]) + r.1,
    decreases items.len(),
{
    let front = items.drop_last();
    let last = cli::failure_line(items.last());
    if i == items.len() - 1 {
        let e = Seq::<char>::empty();
        assert(cli::failure_lines(items) =~= cli::failure_lines(front) + last + e);
        (cli::failure_lines(front), e)
    } else {
        let (a, b) = lemma_line_is_there(front, i);
        assert(front[i] == items[i]);
        assert(cli::failure_lines(items) =~= a + cli::failure_line(items[i]) + (b + last));
        (a, b + last)
    }
}

/// One more failure adds its line at the end, and changes none before it.
pub proof fn law_lines_follow_one_another(
    items: Seq<(Seq<char>, Option<Seq<char>>)>,
    item: (Seq<char>, Option<Seq<char>>),
)
    ensures
        cli::failure_lines(Seq::empty()).len() == 0,
        cli::failure_lines(items.push(item)) == cli::failure_lines(items) + cli::failure_line(item),
{
    assert(items.push(item).drop_last() =~= items);
}

/// A failure list says everything it is made of, in order.
pub proof fn law_failure_list_says_everything(s: Seq<(String, Option<String>)>, i: int)
    ensures
        cli::failures_view(s).len() == s.len(),
        0 <= i < s.len() ==> cli::failures_view(s)[i] == (s[i].0@, text::opt_text(s[i].1)),
{
}

} // verus!
