//! The command line's decisions: concurrency, arguments, the lines printed for
//! events, and the summary of failed agents.

use std::collections::HashMap;

use vstd::prelude::*;

use crate::event::{
    AgentId, AgentStatus, AgentUpdate, AppEvent, EventView, UpdateView,
};
use crate::json;
use crate::text;

pub mod args;
pub mod laws;
pub mod output;

verus! {

broadcast use vstd::std_specs::hash::group_hash_axioms;

// ── Concurrency ──

/// The cap asked for by the environment, if it is a readable number of at least
/// one.
pub open spec fn env_cap(env: Option<Seq<char>>) -> Option<nat> {
    match env {
        Some(s) => match text::unsigned_value(text::trimmed(s), usize::MAX as nat) {
            Some(n) => if n >= 1 {
                Some(n)
            } else {
                None
            },
            None => None,
        },
        None => None,
    }
}

/// The cap when nothing usable is configured: two cores less than there are,
/// between one and sixteen.
pub open spec fn default_cap(cores: nat) -> nat {
    if cores <= 3 {
        1
    } else if cores >= 18 {
        16
    } else {
        (cores - 2) as nat
    }
}

/// The agent concurrency cap. The environment wins over the flag, the flag over
/// the default; what is asked for explicitly is honoured as it is.
pub fn resolve_concurrency(env: Option<String>, flag: Option<usize>, cores: usize) -> (r: usize)
    ensures
        r == match env_cap(text::opt_text(env)) {
            Some(n) => n,
            None => match flag {
                Some(n) => if n >= 1 {
                    n as nat
                } else {
                    default_cap(cores as nat)
                },
                None => default_cap(cores as nat),
            },
        },
{
    match env {
        Some(s) => match text::parse_unsigned(text::trim(s.as_str()), usize::MAX as u64) {
            Some(n) => if n >= 1 {
                return n as usize;
            },
            None => {},
        },
        None => {},
    }
    match flag {
        Some(n) => if n >= 1 {
            return n;
        },
        None => {},
    }
    if cores <= 3 {
        1
    } else if cores >= 18 {
        16
    } else {
        cores - 2
    }
}

// ── Workflow arguments ──

/// Parse the optional argument document. None at all is `null`; one that is no
/// JSON is an error rather than silently `null`.
pub fn parse_args_json(s: Option<&str>) -> (r: Result<serde_json::Value, String>)
    ensures
        match s {
            None => r matches Ok(v) && json::json_text(v) == "null"@,
            Some(t) => match json::json_document(t@) {
                Ok(d) => r matches Ok(v) && json::json_text(v) == d,
                Err(e) => r matches Err(m) && m@ == "invalid args JSON: "@ + e,
            },
        },
{
    match s {
        None => Ok(json::null_json()),
        Some(t) => match json::read_json(t) {
            Ok(v) => Ok(v),
            Err(e) => Err(text::concat2("invalid args JSON: ", e.as_str())),
        },
    }
}

/// The argument document of a workflow. The error names the workflow as well as
/// the cause.
pub fn workflow_args(workflow: &str, s: Option<&str>) -> (r: Result<serde_json::Value, String>)
    ensures
        match s {
            None => r matches Ok(v) && json::json_text(v) == "null"@,
            Some(t) => match json::json_document(t@) {
                Ok(d) => r matches Ok(v) && json::json_text(v) == d,
                Err(e) => r matches Err(m) && m@ == workflow@ + ": "@ + ("invalid args JSON: "@
                    + e),
            },
        },
{
    match parse_args_json(s) {
        Ok(v) => Ok(v),
        Err(e) => {
            let mut m = text::copied(workflow);
            m.push_str(": ");
            m.push_str(e.as_str());
            Err(m)
        },
    }
}

// ── Failures ──

/// What has been seen of a run: how agents are shown, their latest notes, and
/// which stand as failed, in the order they failed.
#[verifier::ext_equal]
pub struct TrackerView {
    pub labels: Map<AgentId, Seq<char>>,
    pub last_note: Map<AgentId, Seq<char>>,
    pub failed: Seq<AgentId>,
}

impl TrackerView {
    pub open spec fn empty() -> Self {
        TrackerView { labels: Map::empty(), last_note: Map::empty(), failed: Seq::empty() }
    }
}

/// How an agent is shown: its label, after the group it belongs to.
pub open spec fn display_name(group: Option<Seq<char>>, label: Seq<char>) -> Seq<char> {
    match group {
        Some(g) => g + "/"@ + label,
        None => label,
    }
}

/// How an agent is shown.
pub fn display_text(group: &Option<String>, label: &str) -> (r: String)
    ensures
        r@ == display_name(text::opt_text(*group), label@),
{
    match group {
        Some(g) => {
            let mut r = g.clone();
            r.push_str("/");
            r.push_str(label);
            r
        },
        None => text::copied(label),
    }
}

/// The list without `id`.
pub open spec fn without(failed: Seq<AgentId>, id: AgentId) -> Seq<AgentId> {
    failed.filter(|x: AgentId| x != id)
}

/// What has been seen after one more event. A spawn gives the name, a note the
/// reason; a failure is listed once, and an agent that is done after all leaves
/// the list.
pub open spec fn observed(v: TrackerView, ev: EventView) -> TrackerView {
    match ev {
        EventView::AgentSpawned { id, label, group, .. } => TrackerView {
            labels: v.labels.insert(id, display_name(group, label)),
            ..v
        },
        EventView::Agent { id, update } => match update {
            UpdateView::Note(n) => TrackerView { last_note: v.last_note.insert(id, n), ..v },
            UpdateView::Status(AgentStatus::Failed) => if v.failed.contains(id) {
                v
            } else {
                TrackerView { failed: v.failed.push(id), ..v }
            },
            UpdateView::Status(AgentStatus::Done) => TrackerView {
                failed: without(v.failed, id),
                ..v
            },
            _ => v,
        },
        _ => v,
    }
}

/// The line of one failed agent: its name, and the reason if one is known.
pub open spec fn failure(v: TrackerView, id: AgentId) -> (Seq<char>, Option<Seq<char>>) {
    (
        if v.labels.contains_key(id) {
            v.labels[id]
        } else {
            "agent-"@ + text::decimal(id as nat)
        },
        if v.last_note.contains_key(id) {
            Some(v.last_note[id])
        } else {
            None
        },
    )
}

/// What a failure list says.
pub open spec fn failures_view(s: Seq<(String, Option<String>)>) -> Seq<
    (Seq<char>, Option<Seq<char>>),
> {
    Seq::new(s.len(), |i: int| (s[i].0@, text::opt_text(s[i].1)))
}

/// Aggregates per-agent failures from the event stream so that a run can print
/// one consolidated summary.
pub struct FailureTracker {
    labels: HashMap<u64, String>,
    last_note: HashMap<u64, String>,
    failed: Vec<u64>,
}

impl View for FailureTracker {
    type V = TrackerView;

    closed spec fn view(&self) -> TrackerView {
        TrackerView {
            labels: self.labels@.map_values(|s: String| s@),
            last_note: self.last_note@.map_values(|s: String| s@),
            failed: self.failed@,
        }
    }
}

/// The list without `id`.
fn drop_id(failed: &Vec<u64>, id: u64) -> (r: Vec<u64>)
    ensures
        r@ == without(failed@, id),
{
    let mut r: Vec<u64> = Vec::new();
    let mut i: usize = 0;
    proof {
        assert(failed@.take(0) =~= Seq::<u64>::empty());
        reveal(Seq::filter);
        assert(r@ =~= without(failed@.take(0), id));
    }
    while i < failed.len()
        invariant
            i <= failed@.len(),
            r@ == without(failed@.take(i as int), id),
        decreases failed@.len() - i,
    {
        proof {
            reveal(Seq::filter);
            assert(failed@.take(i as int + 1).drop_last() =~= failed@.take(i as int));
        }
        if failed[i] != id {
            r.push(failed[i]);
        }
        i += 1;
    }
    proof {
        assert(failed@.take(failed@.len() as int) =~= failed@);
    }
    r
}

/// Whether `id` is listed.
fn lists(failed: &Vec<u64>, id: u64) -> (r: bool)
    ensures
        r == failed@.contains(id),
{
    let mut i: usize = 0;
    while i < failed.len()
        invariant
            i <= failed@.len(),
            forall|j: int| 0 <= j < i ==> failed@[j] != id,
        decreases failed@.len() - i,
    {
        if failed[i] == id {
            return true;
        }
        i += 1;
    }
    false
}

impl FailureTracker {
    pub fn new() -> (r: Self)
        ensures
            r@ == TrackerView::empty(),
    {
        let r = FailureTracker {
            labels: HashMap::new(),
            last_note: HashMap::new(),
            failed: Vec::new(),
        };
        assert(r@ =~= TrackerView::empty());
        r
    }

    /// Fold one event in.
    pub fn observe(&mut self, ev: &AppEvent)
        ensures
            final(self)@ == observed(old(self)@, ev@),
    {
        match ev {
            AppEvent::AgentSpawned { id, label, group, .. } => {
                let display = display_text(group, label.as_str());
                self.labels.insert(*id, display);
            },
            AppEvent::Agent { id, update } => match update {
                AgentUpdate::Note(n) => {
                    self.last_note.insert(*id, n.clone());
                },
                AgentUpdate::Status(AgentStatus::Failed) => {
                    if !lists(&self.failed, *id) {
                        self.failed.push(*id);
                    }
                },
                AgentUpdate::Status(AgentStatus::Done) => {
                    self.failed = drop_id(&self.failed, *id);
                },
                _ => {},
            },
            _ => {},
        }
        assert(self@ =~= observed(old(self)@, ev@));
    }

    /// Name and best-effort reason of each failed agent, in failure order.
    pub fn failures(&self) -> (r: Vec<(String, Option<String>)>)
        ensures
            failures_view(r@) == self@.failed.map_values(|id: AgentId| failure(self@, id)),
    {
        let mut r: Vec<(String, Option<String>)> = Vec::new();
        let mut i: usize = 0;
        while i < self.failed.len()
            invariant
                i <= self.failed@.len(),
                r@.len() == i,
                forall|j: int|
                    0 <= j < i ==> (#[trigger] r@[j]).0@ == failure(self@, self.failed@[j]).0
                        && text::opt_text(r@[j].1) == failure(self@, self.failed@[j]).1,
            decreases self.failed@.len() - i,
        {
            let id: u64 = self.failed[i];
            let label = match self.labels.get(&id) {
                Some(l) => l.clone(),
                None => text::concat2("agent-", text::decimal_text(id as u128).as_str()),
            };
            let note = match self.last_note.get(&id) {
                Some(n) => Some(n.clone()),
                None => None,
            };
            r.push((label, note));
            i += 1;
        }
        assert(failures_view(r@) =~= self@.failed.map_values(|id: AgentId| failure(self@, id)));
        r
    }
}

impl Default for FailureTracker {
    fn default() -> (r: Self)
        ensures
            r@ == TrackerView::empty(),
    {
        Self::new()
    }
}

/// One line of the summary.
pub open spec fn failure_line(item: (Seq<char>, Option<Seq<char>>)) -> Seq<char> {
    match item.1 {
        Some(e) => "\n  - "@ + item.0 + ": "@ + e,
        None => "\n  - "@ + item.0,
    }
}

/// The lines of the summary, one after the other.
pub open spec fn failure_lines(items: Seq<(Seq<char>, Option<Seq<char>>)>) -> Seq<char>
    decreases items.len(),
{
    if items.len() == 0 {
        Seq::empty()
    } else {
        failure_lines(items.drop_last()) + failure_line(items.last())
    }
}

/// The summary: a count and one line per failure, or nothing without failures.
pub open spec fn summary(items: Seq<(Seq<char>, Option<Seq<char>>)>) -> Option<Seq<char>> {
    if items.len() == 0 {
        None
    } else {
        Some("FAILURES ("@ + text::decimal(items.len()) + "):"@ + failure_lines(items))
    }
}

/// Render the failure summary, or `None` if there were no failures.
pub fn format_failures(items: &[(String, Option<String>)]) -> (r: Option<String>)
    ensures
        text::opt_text(r) == summary(failures_view(items@)),
{
    let n: usize = items.len();
    if n == 0 {
        return None;
    }
    let mut out = text::copied("FAILURES (");
    out.push_str(text::decimal_text(n as u128).as_str());
    out.push_str("):");
    let ghost head = out@;
    let ghost all = failures_view(items@);
    let mut i: usize = 0;
    proof {
        assert(all.take(0) =~= Seq::empty());
        assert(head + Seq::<char>::empty() =~= head);
    }
    while i < n
        invariant
            i <= n,
            n == items@.len(),
            all == failures_view(items@),
            out@ == head + failure_lines(all.take(i as int)),
        decreases n - i,
    {
        let ghost before = out@;
        out.push_str("\n  - ");
        out.push_str(items[i].0.as_str());
        match &items[i].1 {
            Some(e) => {
                out.push_str(": ");
                out.push_str(e.as_str());
            },
            None => {},
        }
        proof {
            assert(all.take(i as int + 1).drop_last() =~= all.take(i as int));
            assert(out@ =~= before + failure_line(all[i as int]));
            assert(out@ =~= head + failure_lines(all.take(i as int + 1)));
        }
        i += 1;
    }
    proof {
        assert(all.take(n as int) =~= all);
    }
    Some(out)
}

// ── Laws ──

/// What has been seen after a run of events.
pub open spec fn observed_all(events: Seq<EventView>) -> TrackerView
    decreases events.len(),
{
    if events.len() == 0 {
        TrackerView::empty()
    } else {
        observed(observed_all(events.drop_last()), events.last())
    }
}

/// Whether the last of an agent's failures has not been followed by success.
pub open spec fn stands_failed(events: Seq<EventView>, id: AgentId) -> bool
    decreases events.len(),
{
    if events.len() == 0 {
        false
    } else {
        match events.last() {
            EventView::Agent { id: who, update: UpdateView::Status(AgentStatus::Failed) } => who
                == id || stands_failed(events.drop_last(), id),
            EventView::Agent { id: who, update: UpdateView::Status(AgentStatus::Done) } => who
                != id && stands_failed(events.drop_last(), id),
            _ => stands_failed(events.drop_last(), id),
        }
    }
}

proof fn lemma_without(s: Seq<AgentId>, id: AgentId, x: AgentId)
    ensures
        without(s, id).contains(x) == (s.contains(x) && x != id),
        s.no_duplicates() ==> without(s, id).no_duplicates(),
    decreases s.len(),
{
    reveal(Seq::filter);
    if s.len() > 0 {
        let front = s.drop_last();
        let last = s.last();
        lemma_without(front, id, x);
        let w = without(front, id);
        assert(s =~= front.push(last));
        assert(s.contains(x) == (front.contains(x) || x == last)) by {
            if front.contains(x) {
                let i = choose|i: int| 0 <= i < front.len() && front[i] == x;
                assert(s[i] == x);
            }
            if x == last {
                assert(s[s.len() - 1] == x);
            }
        }
        if last != id {
            assert(without(s, id) =~= w.push(last));
            assert(w.push(last).contains(x) == (w.contains(x) || x == last)) by {
                if w.contains(x) {
                    let i = choose|i: int| 0 <= i < w.len() && w[i] == x;
                    assert(w.push(last)[i] == x);
                }
                if x == last {
                    assert(w.push(last)[w.len() as int] == x);
                }
            }
            if s.no_duplicates() {
                assert(front.no_duplicates());
                assert(!front.contains(last)) by {
                    if front.contains(last) {
                        let i = choose|i: int| 0 <= i < front.len() && front[i] == last;
                        assert(s[i] == s[s.len() - 1]);
                    }
                }
                lemma_without(front, id, last);
                assert(!w.contains(last));
                assert(w.push(last).no_duplicates());
            }
        } else {
            assert(without(s, id) =~= w);
        }
    }
}

/// The summary lists an agent exactly when its last failure was not followed by
/// success: a retry that recovers is never listed.
pub proof fn law_listed_iff_it_stands_failed(events: Seq<EventView>, id: AgentId)
    ensures
        observed_all(events).failed.contains(id) == stands_failed(events, id),
    decreases events.len(),
{
    if events.len() > 0 {
        law_listed_iff_it_stands_failed(events.drop_last(), id);
        let before = observed_all(events.drop_last()).failed;
        match events.last() {
            EventView::Agent { id: who, update: UpdateView::Status(AgentStatus::Failed) } => {
                if !before.contains(who) {
                    let after = before.push(who);
                    assert(after[before.len() as int] == who);
                    if before.contains(id) {
                        let i = choose|i: int| 0 <= i < before.len() && before[i] == id;
                        assert(after[i] == id);
                    }
                }
            },
            EventView::Agent { id: who, update: UpdateView::Status(AgentStatus::Done) } => {
                lemma_without(before, who, id);
            },
            _ => {},
        }
    }
}

/// No agent is listed twice.
pub proof fn law_listed_at_most_once(events: Seq<EventView>)
    ensures
        observed_all(events).failed.no_duplicates(),
    decreases events.len(),
{
    if events.len() > 0 {
        law_listed_at_most_once(events.drop_last());
        let before = observed_all(events.drop_last()).failed;
        match events.last() {
            EventView::Agent { id, update: UpdateView::Status(AgentStatus::Done) } => {
                lemma_without(before, id, id);
            },
            _ => {},
        }
    }
}

/// A failed agent of a group is listed as the group's.
pub proof fn law_failure_carries_group(v: TrackerView, ev: EventView, id: AgentId)
    requires
        ev matches EventView::AgentSpawned { id: who, .. } && who == id,
    ensures
        failure(observed(v, ev), id).0 == display_name(ev->group, ev->label),
{
}

/// There is a summary exactly when something failed.
pub proof fn law_summary_iff_failures(items: Seq<(Seq<char>, Option<Seq<char>>)>)
    ensures
        summary(items) is Some <==> items.len() > 0,
{
}

} // verus!
