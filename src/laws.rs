//! Properties that relate several parts of the engine.

use vstd::prelude::*;
use crate::diff_op::{DiffOp, OpView, op_views, sorted_by_rank, lemma_delete_schedule_before_delete_state};
use crate::diff_result::{DiffResult, entries_view, with_ops};
use crate::differ::{diff_ops_of, schedule_in_place, lemma_in_place_needs_no_ops};
use crate::schedule::Schedule;
use crate::ssconfig::SsConfig;
use crate::state_machine::StateMachine;
use vstd::std_specs::cmp::PartialEqSpec;

verus! {

broadcast use vstd::seq_lib::group_to_multiset_ensures;

/// Sorting keeps schedules before their targets: where the operations hold
/// both a `DeleteSchedule` and a `DeleteState`, any reordering of them into
/// apply order (as [`crate::diff_op::sort_diff_ops`] gives) holds both, and
/// every `DeleteSchedule` stands before every `DeleteState`.
pub proof fn lemma_sort_deletes_schedule_first(input: Seq<DiffOp>, output: Seq<DiffOp>, a: int, b: int)
    requires
        output.to_multiset() == input.to_multiset(),
        sorted_by_rank(op_views(output)),
        0 <= a < input.len(),
        0 <= b < input.len(),
        input[a]@ == OpView::DeleteSchedule,
        input[b]@ == OpView::DeleteState,
    ensures
        exists|i: int| 0 <= i < output.len() && #[trigger] output[i]@ == OpView::DeleteSchedule,
        exists|j: int| 0 <= j < output.len() && #[trigger] output[j]@ == OpView::DeleteState,
        forall|i: int, j: int|
            0 <= i < output.len() && 0 <= j < output.len() && #[trigger] output[i]@ == OpView::DeleteSchedule
                && #[trigger] output[j]@ == OpView::DeleteState ==> i < j,
{
    assert(input.contains(input[a]));
    assert(input.to_multiset().count(input[a]) > 0);
    assert(output.contains(input[a]));
    let i = choose|i: int| 0 <= i < output.len() && output[i] == input[a];
    assert(output[i]@ == OpView::DeleteSchedule);
    assert(input.contains(input[b]));
    assert(input.to_multiset().count(input[b]) > 0);
    assert(output.contains(input[b]));
    let j = choose|j: int| 0 <= j < output.len() && output[j] == input[b];
    assert(output[j]@ == OpView::DeleteState);
    assert forall|i: int, j: int|
        0 <= i < output.len() && 0 <= j < output.len() && #[trigger] output[i]@ == OpView::DeleteSchedule
            && #[trigger] output[j]@ == OpView::DeleteState implies i < j by {
        let v = op_views(output);
        assert(v[i] == output[i]@ && v[j] == output[j]@);
        lemma_delete_schedule_before_delete_state(v, i, j);
    }
}

/// Idempotence, through the report: a pair that is already in place yields
/// no operation, so recording its operations leaves a report as it was, and
/// a report that said that nothing changes still says so.
pub proof fn lemma_in_place_keeps_report(
    config: SsConfig,
    remote_state: StateMachine,
    remote_schedule: Option<Schedule>,
    report: DiffResult,
)
    requires
        !config.delete_all,
        !config.delete_schedule,
        PartialEqSpec::eq_spec(&config.state, &remote_state),
        schedule_in_place(config.schedule, remote_schedule),
        report.wf(),
    ensures
        diff_ops_of(config, Some(remote_state), remote_schedule) is Ok,
        with_ops(entries_view(report.detail_diff_ops@), config.state.name@,
            diff_ops_of(config, Some(remote_state), remote_schedule)->Ok_0) == entries_view(report.detail_diff_ops@),
        report.no_change ==> with_ops(entries_view(report.detail_diff_ops@), config.state.name@,
            diff_ops_of(config, Some(remote_state), remote_schedule)->Ok_0).len() == 0,
{
    lemma_in_place_needs_no_ops(config, remote_state, remote_schedule);
}

} // verus!
