//! The report that aggregates the operations of all resource pairs.

use vstd::prelude::*;
use crate::diff_op::{DiffOp, OpView, op_views};

verus! {

/// The operations of one resource pair, under the name of its state machine.
#[derive(Debug, Clone)]
pub struct DiffOpsForSs {
    pub state_name: String,
    pub diff_ops: Vec<DiffOp>,
}

/// The mathematical value of a [`DiffOpsForSs`]: the name and the operations.
pub open spec fn entry_view(e: DiffOpsForSs) -> (Seq<char>, Seq<OpView>) {
    (e.state_name@, op_views(e.diff_ops@))
}

/// The mathematical value of a list of [`DiffOpsForSs`].
pub open spec fn entries_view(v: Seq<DiffOpsForSs>) -> Seq<(Seq<char>, Seq<OpView>)> {
    v.map_values(|e: DiffOpsForSs| entry_view(e))
}

/// The entry of `es` that carries `name`, if any.
pub open spec fn entry_index(es: Seq<(Seq<char>, Seq<OpView>)>, name: Seq<char>) -> Option<int> {
    if exists|i: int| 0 <= i < es.len() && #[trigger] es[i].0 == name {
        Some(choose|i: int| 0 <= i < es.len() && #[trigger] es[i].0 == name)
    } else {
        None
    }
}

/// No two entries of `es` carry the same name.
pub open spec fn names_unique(es: Seq<(Seq<char>, Seq<OpView>)>) -> bool {
    forall|i: int, j: int| 0 <= i < j < es.len() ==> #[trigger] es[i].0 != #[trigger] es[j].0
}

/// `es` with `op` added at the end of the entry named `name`, which is
/// created where there is none.
pub open spec fn with_op(es: Seq<(Seq<char>, Seq<OpView>)>, name: Seq<char>, op: OpView) -> Seq<(Seq<char>, Seq<OpView>)> {
    match entry_index(es, name) {
        Some(i) => es.update(i, (name, es[i].1.push(op))),
        None => es.push((name, seq![op])),
    }
}

/// Whether the entry named `name` lacks `op` (or there is no such entry).
pub open spec fn lacks_op(es: Seq<(Seq<char>, Seq<OpView>)>, name: Seq<char>, op: OpView) -> bool {
    match entry_index(es, name) {
        Some(i) => !es[i].1.contains(op),
        None => true,
    }
}

/// `es` with `op` added to the entry named `name` unless it is there already.
pub open spec fn with_op_once(es: Seq<(Seq<char>, Seq<OpView>)>, name: Seq<char>, op: OpView) -> Seq<(Seq<char>, Seq<OpView>)> {
    if lacks_op(es, name, op) {
        with_op(es, name, op)
    } else {
        es
    }
}

/// The position, in the summary, of the count of a reported operation.
pub open spec fn summary_index(op: OpView) -> int {
    match op {
        OpView::CreateState => 0,
        OpView::UpdateState => 1,
        OpView::AddStateTag => 1,
        OpView::RemoveStateTag(_) => 1,
        OpView::DeleteState => 2,
        OpView::CreateSchedule => 3,
        OpView::UpdateSchedule => 4,
        OpView::DeleteSchedule => 5,
    }
}

/// The name of the count at position `i` of the summary.
pub open spec fn summary_name(i: int) -> Seq<char> {
    if i == 0 {
        "create_state"@
    } else if i == 1 {
        "update_state"@
    } else if i == 2 {
        "delete_state"@
    } else if i == 3 {
        "create_schedule"@
    } else if i == 4 {
        "update_schedule"@
    } else {
        "delete_schedule"@
    }
}

/// The aggregated result of diffing every resource pair.
///
/// `detail_diff_ops` holds every operation, per state machine, in the order
/// in which they were appended: it drives the apply. `diff_ops` holds the
/// same per state machine as reported, tag operations counted as an update
/// of the state machine, each reported operation once. `summary` counts the
/// reported operations by name. `no_change` holds exactly while no operation
/// was appended. `text_diff` holds the rendered diffs, free of terminal
/// styling.
#[derive(Debug, Clone)]
pub struct DiffResult {
    pub text_diff: Vec<String>,
    pub diff_ops: Vec<DiffOpsForSs>,
    pub detail_diff_ops: Vec<DiffOpsForSs>,
    pub no_change: bool,
    pub summary: Vec<(String, usize)>,
}

impl DiffResult {
    /// The invariant of the report.
    pub open spec fn wf(&self) -> bool {
        let detail = entries_view(self.detail_diff_ops@);
        let report = entries_view(self.diff_ops@);
        &&& self.summary@.len() == 6
        &&& forall|k: int| 0 <= k < 6 ==> (#[trigger] self.summary@[k]).0@ == summary_name(k)
        &&& names_unique(detail)
        &&& report.len() == detail.len()
        &&& forall|i: int| 0 <= i < detail.len() ==> #[trigger] report[i].0 == detail[i].0
        &&& forall|i: int| 0 <= i < detail.len() ==> (#[trigger] detail[i]).1.len() > 0
        &&& forall|i: int, j: int| 0 <= i < report.len() && 0 <= j < report[i].1.len()
            ==> (#[trigger] report[i].1[j]).for_report() == report[i].1[j]
        &&& forall|i: int, j: int, m: int| 0 <= i < report.len() && 0 <= j < m < report[i].1.len()
            ==> #[trigger] report[i].1[j] != #[trigger] report[i].1[m]
        &&& self.no_change == (detail.len() == 0)
    }

    /// The count at position `k` of the summary.
    pub open spec fn count(&self, k: int) -> int {
        self.summary@[k].1 as int
    }

    /// Whether every count can still grow by `n`.
    pub open spec fn counts_fit(&self, n: int) -> bool {
        forall|k: int| 0 <= k < 6 ==> #[trigger] self.count(k) + n <= usize::MAX
    }
}

impl Default for DiffResult {
    /// The empty report: no operation, every count zero.
    fn default() -> (r: DiffResult)
        ensures
            r.wf(),
            r.no_change,
            r.text_diff@.len() == 0,
            r.diff_ops@.len() == 0,
            r.detail_diff_ops@.len() == 0,
            forall|k: int| 0 <= k < 6 ==> #[trigger] r.count(k) == 0,
    {
        let mut summary: Vec<(String, usize)> = Vec::new();
        summary.push((String::from_str("create_state"), 0));
        summary.push((String::from_str("update_state"), 0));
        summary.push((String::from_str("delete_state"), 0));
        summary.push((String::from_str("create_schedule"), 0));
        summary.push((String::from_str("update_schedule"), 0));
        summary.push((String::from_str("delete_schedule"), 0));
        let r = DiffResult {
            text_diff: Vec::new(),
            diff_ops: Vec::new(),
            detail_diff_ops: Vec::new(),
            no_change: true,
            summary,
        };
        assert(entries_view(r.detail_diff_ops@) =~= Seq::empty());
        assert(entries_view(r.diff_ops@) =~= Seq::empty());
        r
    }
}

/// The entry of `entries` whose name is `name`, if any.
fn find_entry(entries: &Vec<DiffOpsForSs>, name: &String) -> (r: Option<usize>)
    requires
        names_unique(entries_view(entries@)),
    ensures
        match r {
            Some(i) => entry_index(entries_view(entries@), name@) == Some(i as int) && i < entries@.len(),
            None => entry_index(entries_view(entries@), name@) is None,
        },
{
    let ghost es = entries_view(entries@);
    let mut i: usize = 0;
    while i < entries.len()
        invariant
            0 <= i <= entries.len(),
            es == entries_view(entries@),
            names_unique(es),
            forall|j: int| 0 <= j < i ==> (#[trigger] es[j]).0 != name@,
        decreases entries.len() - i,
    {
        assert(es[i as int] == entry_view(entries@[i as int]));
        if entries[i].state_name == *name {
            proof {
                assert(es[i as int].0 == name@);
                let c = choose|j: int| 0 <= j < es.len() && #[trigger] es[j].0 == name@;
                assert(es[c].0 == name@);
                if c < i {
                    assert(es[c].0 != es[i as int].0);
                } else if c > i {
                    assert(es[i as int].0 != es[c].0);
                }
            }
            return Some(i);
        }
        i = i + 1;
    }
    None
}

/// Whether `ops`, all of which are as reported, holds `op`.
fn contains_reported(ops: &Vec<DiffOp>, op: &DiffOp) -> (r: bool)
    requires
        op@.for_report() == op@,
        forall|j: int| 0 <= j < ops@.len() ==> (#[trigger] ops@[j])@.for_report() == ops@[j]@,
    ensures
        r == op_views(ops@).contains(op@),
{
    let k = op.rank();
    let mut i: usize = 0;
    while i < ops.len()
        invariant
            0 <= i <= ops.len(),
            k as nat == op@.rank(),
            op@.for_report() == op@,
            forall|j: int| 0 <= j < ops@.len() ==> (#[trigger] ops@[j])@.for_report() == ops@[j]@,
            forall|j: int| 0 <= j < i ==> (#[trigger] ops@[j])@ != op@,
        decreases ops.len() - i,
    {
        if ops[i].rank() == k {
            assert(ops@[i as int]@ == op@);
            assert(op_views(ops@)[i as int] == op@);
            return true;
        }
        assert(ops@[i as int]@ != op@);
        i = i + 1;
    }
    proof {
        if op_views(ops@).contains(op@) {
            let j = choose|j: int| 0 <= j < op_views(ops@).len() && op_views(ops@)[j] == op@;
            assert(ops@[j]@ == op@);
        }
    }
    false
}

/// `entries` with `op` added to the entry named `name`, created where there is
/// none.
fn push_op(entries: &mut Vec<DiffOpsForSs>, name: &String, op: DiffOp, at: Option<usize>)
    requires
        match at {
            Some(i) => entry_index(entries_view(old(entries)@), name@) == Some(i as int) && i < old(entries)@.len(),
            None => entry_index(entries_view(old(entries)@), name@) is None,
        },
    ensures
        entries_view(final(entries)@) == with_op(entries_view(old(entries)@), name@, op@),
{
    let ghost es = entries_view(entries@);
    match at {
        Some(i) => {
            let mut e = entries.remove(i);
            assert(es[i as int] == entry_view(e));
            let ghost before = e.diff_ops@;
            e.diff_ops.push(op);
            assert(op_views(e.diff_ops@) =~= op_views(before).push(op@));
            let ghost prefix = entries@;
            entries.insert(i, e);
            assert(es[i as int].0 == name@) by {
                let c = choose|j: int| 0 <= j < es.len() && #[trigger] es[j].0 == name@;
                assert(c == i);
            }
            assert(entries_view(entries@) =~= es.update(i as int, (name@, es[i as int].1.push(op@))));
        },
        None => {
            let e = DiffOpsForSs { state_name: name.clone(), diff_ops: vec![op] };
            assert(op_views(e.diff_ops@) =~= seq![op@]);
            entries.push(e);
            assert(entries_view(entries@) =~= es.push((name@, seq![op@])));
        },
    }
}

impl DiffResult {
    /// Records `diff_op` for the state machine `state_name`: appended to its
    /// detailed operations; reported (tag operations as an update of the state
    /// machine) and counted unless already reported for it; and the report no
    /// longer says that nothing changes.
    pub fn append_diff_op(&mut self, state_name: &str, diff_op: &DiffOp)
        requires
            old(self).wf(),
            old(self).counts_fit(1),
        ensures
            final(self).wf(),
            entries_view(final(self).detail_diff_ops@) == with_op(entries_view(old(self).detail_diff_ops@), state_name@, diff_op@),
            entries_view(final(self).diff_ops@) == with_op_once(entries_view(old(self).diff_ops@), state_name@, diff_op@.for_report()),
            ({
                let report = entries_view(final(self).diff_ops@);
                exists|i: int| 0 <= i < report.len() && #[trigger] report[i].0 == state_name@
                    && report[i].1.contains(diff_op@.for_report())
            }),
            forall|k: int| 0 <= k < 6 ==> #[trigger] final(self).count(k) == old(self).count(k) + if k == summary_index(diff_op@)
                && lacks_op(entries_view(old(self).diff_ops@), state_name@, diff_op@.for_report()) { 1int } else { 0int },
            !final(self).no_change,
            final(self).text_diff@ == old(self).text_diff@,
    {
        let name = String::from_str(state_name);
        let ghost old_detail = entries_view(self.detail_diff_ops@);
        let ghost old_report = entries_view(self.diff_ops@);
        let at = find_entry(&self.detail_diff_ops, &name);
        proof {
            match at {
                Some(i) => {
                    assert(old_report[i as int].0 == name@);
                    let c = choose|j: int| 0 <= j < old_report.len() && #[trigger] old_report[j].0 == name@;
                    assert(old_detail[c].0 == name@);
                    assert(entry_index(old_report, name@) == Some(i as int));
                },
                None => {
                    if exists|j: int| 0 <= j < old_report.len() && #[trigger] old_report[j].0 == name@ {
                        let c = choose|j: int| 0 <= j < old_report.len() && #[trigger] old_report[j].0 == name@;
                        assert(old_detail[c].0 == name@);
                    }
                },
            }
        }
        push_op(&mut self.detail_diff_ops, &name, diff_op.duplicate(), at);
        let reported = diff_op.op_for_report();
        let fresh = match at {
            Some(i) => {
                proof {
                    assert(old_report[i as int] == entry_view(self.diff_ops@[i as int]));
                    let ops = self.diff_ops@[i as int].diff_ops@;
                    assert forall|j: int| 0 <= j < ops.len() implies (#[trigger] ops[j])@.for_report() == ops[j]@ by {
                        assert(old_report[i as int].1[j] == ops[j]@);
                    }
                }
                !contains_reported(&self.diff_ops[i].diff_ops, &reported)
            },
            None => true,
        };
        assert(fresh == lacks_op(old_report, name@, diff_op@.for_report()));
        let ghost before_count = self.summary@;
        assert(before_count == old(self).summary@);
        if fresh {
            push_op(&mut self.diff_ops, &name, reported, at);
            assert forall|k: int| 0 <= k < 6 implies #[trigger] self.count(k) + 1 <= usize::MAX by {
                assert(old(self).count(k) + 1 <= usize::MAX);
            }
            self.add_summary(diff_op);
        }
        let ghost after_count = self.summary@;
        assert forall|k: int| 0 <= k < 6 implies #[trigger] after_count[k].1 as int == before_count[k].1 as int + if k == summary_index(diff_op@) && fresh { 1int } else { 0int } by {
            assert(after_count[k].1 as int == self.count(k));
        }
        self.no_change = false;
        assert forall|k: int| 0 <= k < 6 implies #[trigger] self.count(k) == old(self).count(k) + if k == summary_index(diff_op@)
            && lacks_op(old_report, state_name@, diff_op@.for_report()) { 1int } else { 0int } by {
            assert(old(self).count(k) == before_count[k].1 as int);
            assert(self.count(k) == after_count[k].1 as int);
        }
        proof {
            let detail = entries_view(self.detail_diff_ops@);
            let report = entries_view(self.diff_ops@);
            assert forall|i: int, j: int| 0 <= i < j < detail.len() implies #[trigger] detail[i].0 != #[trigger] detail[j].0 by {
                if at is None && j == detail.len() - 1 {
                    assert(old_detail[i].0 == detail[i].0);
                } else {
                    assert(old_detail[i].0 == detail[i].0 && old_detail[j].0 == detail[j].0);
                }
            }
            assert forall|i: int| 0 <= i < detail.len() implies #[trigger] report[i].0 == detail[i].0 by {
                if at is None && i == detail.len() - 1 {
                } else {
                    assert(old_report[i].0 == report[i].0 || !fresh);
                }
            }
            assert forall|i: int| 0 <= i < detail.len() implies (#[trigger] detail[i]).1.len() > 0 by {
                if at is Some && i == at->Some_0 {
                } else if at is None && i == detail.len() - 1 {
                } else {
                    assert(old_detail[i] == detail[i]);
                }
            }
            assert forall|i: int, j: int| 0 <= i < report.len() && 0 <= j < report[i].1.len()
                implies (#[trigger] report[i].1[j]).for_report() == report[i].1[j] by {
                if fresh {
                    if at is Some && i == at->Some_0 {
                        if j < old_report[i].1.len() {
                            assert(report[i].1[j] == old_report[i].1[j]);
                        }
                    } else if at is None && i == report.len() - 1 {
                    } else {
                        assert(old_report[i] == report[i]);
                    }
                }
            }
            assert forall|i: int, j: int, m: int| 0 <= i < report.len() && 0 <= j < m < report[i].1.len()
                implies #[trigger] report[i].1[j] != #[trigger] report[i].1[m] by {
                if fresh {
                    if at is Some && i == at->Some_0 {
                        let p = diff_op@.for_report();
                        assert(report[i].1 == old_report[i].1.push(p));
                        if m < old_report[i].1.len() {
                            assert(report[i].1[j] == old_report[i].1[j]);
                            assert(report[i].1[m] == old_report[i].1[m]);
                        } else {
                            assert(report[i].1[j] == old_report[i].1[j]);
                            assert(report[i].1[m] == p);
                            assert(old_report[i].1.contains(old_report[i].1[j]));
                        }
                    } else if at is None && i == report.len() - 1 {
                    } else {
                        assert(old_report[i] == report[i]);
                    }
                }
            }
            let p = diff_op@.for_report();
            match at {
                Some(i) => {
                    assert(report[i as int].0 == name@);
                    if fresh {
                        assert(report[i as int].1 == old_report[i as int].1.push(p));
                        assert(report[i as int].1[report[i as int].1.len() - 1] == p);
                    } else {
                        assert(report[i as int] == old_report[i as int]);
                    }
                    assert(report[i as int].1.contains(p));
                    assert(report[i as int].0 == state_name@);
                },
                None => {
                    let last = report.len() - 1;
                    assert(report[last] == (name@, seq![p]));
                    assert(report[last].1[0] == p);
                    assert(report[last].1.contains(p));
                    assert(report[last].0 == state_name@);
                },
            }
            assert(exists|i: int| 0 <= i < report.len() && #[trigger] report[i].0 == state_name@
                && report[i].1.contains(diff_op@.for_report()));
        }
    }

    /// Counts one more reported `diff_op`.
    fn add_summary(&mut self, diff_op: &DiffOp)
        requires
            old(self).summary@.len() == 6,
            old(self).counts_fit(1),
        ensures
            final(self).summary@.len() == 6,
            forall|k: int| 0 <= k < 6 ==> (#[trigger] final(self).summary@[k]).0 == old(self).summary@[k].0,
            forall|k: int| 0 <= k < 6 ==> #[trigger] final(self).count(k) == old(self).count(k) + if k == summary_index(diff_op@) { 1int } else { 0int },
            final(self).text_diff == old(self).text_diff,
            final(self).diff_ops == old(self).diff_ops,
            final(self).detail_diff_ops == old(self).detail_diff_ops,
            final(self).no_change == old(self).no_change,
    {
        let k: usize = match diff_op.op_for_report() {
            DiffOp::CreateState => 0,
            DiffOp::UpdateState => 1,
            DiffOp::DeleteState => 2,
            DiffOp::CreateSchedule => 3,
            DiffOp::UpdateSchedule => 4,
            DiffOp::DeleteSchedule => 5,
            _ => 1,
        };
        assert(self.count(k as int) + 1 <= usize::MAX);
        let (name, n) = self.summary.remove(k);
        self.summary.insert(k, (name, n + 1));
    }
}

/// The text with its ANSI escape sequences removed.
pub uninterp spec fn ansi_stripped(s: Seq<char>) -> Seq<char>;

/// Relies on `console::strip_ansi_codes`: the text with its ANSI escape
/// sequences removed, which depends on the text alone; a text without an
/// escape character (`\u{1b}` or `\u{9b}`) comes back unchanged.
#[verifier::external_body]
fn strip_ansi(s: &str) -> (r: String)
    ensures
        r@ == ansi_stripped(s@),
        (forall|i: int| 0 <= i < s@.len() ==> #[trigger] s@[i] != '\u{1b}' && s@[i] != '\u{9b}') ==> r@ == s@,
{
    console::strip_ansi_codes(s).to_string()
}

/// The result of appending `ops`, in order, for the state machine `name`.
pub open spec fn with_ops(es: Seq<(Seq<char>, Seq<OpView>)>, name: Seq<char>, ops: Seq<OpView>) -> Seq<(Seq<char>, Seq<OpView>)>
    decreases ops.len(),
{
    if ops.len() == 0 {
        es
    } else {
        with_op(with_ops(es, name, ops.drop_last()), name, ops.last())
    }
}

/// The reported entries after appending `ops`, in order, for `name`.
pub open spec fn with_reported_ops(es: Seq<(Seq<char>, Seq<OpView>)>, name: Seq<char>, ops: Seq<OpView>) -> Seq<(Seq<char>, Seq<OpView>)>
    decreases ops.len(),
{
    if ops.len() == 0 {
        es
    } else {
        with_op_once(with_reported_ops(es, name, ops.drop_last()), name, ops.last().for_report())
    }
}

/// How much the count at position `k` of the summary grows when `ops` are
/// appended, in order, for `name` to a report whose entries are `es`.
pub open spec fn count_growth(es: Seq<(Seq<char>, Seq<OpView>)>, name: Seq<char>, ops: Seq<OpView>, k: int) -> int
    decreases ops.len(),
{
    if ops.len() == 0 {
        0
    } else {
        let prev = ops.drop_last();
        let op = ops.last();
        count_growth(es, name, prev, k) + if k == summary_index(op) && lacks_op(
            with_reported_ops(es, name, prev),
            name,
            op.for_report(),
        ) {
            1int
        } else {
            0int
        }
    }
}

impl DiffResult {
    /// Records a rendered diff, without its terminal styling.
    pub fn append_text_diff(&mut self, diff: String)
        ensures
            final(self).text_diff@ == old(self).text_diff@.push(final(self).text_diff@.last()),
            final(self).text_diff@.last()@ == ansi_stripped(diff@),
            final(self).diff_ops == old(self).diff_ops,
            final(self).detail_diff_ops == old(self).detail_diff_ops,
            final(self).summary == old(self).summary,
            final(self).no_change == old(self).no_change,
    {
        let stripped = strip_ansi(diff.as_str());
        self.text_diff.push(stripped);
    }

    /// Records the operations `diff_ops` of the state machine `state_name`,
    /// in order (see [`DiffResult::append_diff_op`]).
    pub fn append_diff_ops(&mut self, state_name: &str, diff_ops: &[DiffOp])
        requires
            old(self).wf(),
            old(self).counts_fit(diff_ops@.len() as int),
        ensures
            final(self).wf(),
            entries_view(final(self).detail_diff_ops@) == with_ops(entries_view(old(self).detail_diff_ops@), state_name@, op_views(diff_ops@)),
            entries_view(final(self).diff_ops@) == with_reported_ops(entries_view(old(self).diff_ops@), state_name@, op_views(diff_ops@)),
            forall|k: int| 0 <= k < 6 ==> #[trigger] final(self).count(k) == old(self).count(k) + count_growth(
                entries_view(old(self).diff_ops@), state_name@, op_views(diff_ops@), k),
            final(self).no_change == (old(self).no_change && diff_ops@.len() == 0),
            final(self).text_diff@ == old(self).text_diff@,
    {
        let mut i: usize = 0;
        while i < diff_ops.len()
            invariant
                0 <= i <= diff_ops.len(),
                self.wf(),
                self.counts_fit(diff_ops@.len() - i),
                entries_view(self.detail_diff_ops@) == with_ops(entries_view(old(self).detail_diff_ops@), state_name@, op_views(diff_ops@.subrange(0, i as int))),
                entries_view(self.diff_ops@) == with_reported_ops(entries_view(old(self).diff_ops@), state_name@, op_views(diff_ops@.subrange(0, i as int))),
                forall|k: int| 0 <= k < 6 ==> #[trigger] self.count(k) == old(self).count(k) + count_growth(
                    entries_view(old(self).diff_ops@), state_name@, op_views(diff_ops@.subrange(0, i as int)), k),
                self.no_change == (old(self).no_change && i == 0),
                self.text_diff@ == old(self).text_diff@,
            decreases diff_ops.len() - i,
        {
            proof {
                assert(op_views(diff_ops@.subrange(0, i as int + 1)).drop_last() =~= op_views(diff_ops@.subrange(0, i as int)));
                assert(op_views(diff_ops@.subrange(0, i as int + 1)).last() == diff_ops@[i as int]@);
                assert(self.counts_fit(1));
            }
            let ghost before = *self;
            self.append_diff_op(state_name, &diff_ops[i]);
            proof {
                let es = entries_view(old(self).diff_ops@);
                let done = op_views(diff_ops@.subrange(0, i as int + 1));
                assert forall|k: int| 0 <= k < 6 implies #[trigger] self.count(k) + (diff_ops@.len() - (i + 1)) <= usize::MAX by {
                    assert(before.count(k) + (diff_ops@.len() - i) <= usize::MAX);
                }
                assert forall|k: int| 0 <= k < 6 implies #[trigger] self.count(k) == old(self).count(k) + count_growth(es, state_name@, done, k) by {
                    assert(before.count(k) == old(self).count(k) + count_growth(es, state_name@, done.drop_last(), k));
                }
            }
            i = i + 1;
        }
        assert(diff_ops@.subrange(0, diff_ops@.len() as int) =~= diff_ops@);
    }
}

} // verus!
