//! One step of a plan: one resource pair diffed into the report.

use vstd::prelude::*;
use crate::diff_op::{OpView, op_views};
use crate::diff_result::{DiffResult, ansi_stripped, count_growth, entries_view, with_ops, with_reported_ops};
use crate::differ::{DiffError, build_diff_ops, diff_ops_of, schedule_ops, state_ops, tag_ops};
use crate::render::{DiffLine, changes_schedule, changes_state, config_diff_lines, deletes_schedule, deletes_state, format_config_diff, joined, lines_view, render_plain};
use crate::schedule::Schedule;
use crate::ssconfig::SsConfig;
use crate::state_machine::StateMachine;

verus! {

/// A pair never needs more than four operations.
pub proof fn lemma_diff_ops_len(config: SsConfig, remote_state: Option<StateMachine>, remote_schedule: Option<Schedule>)
    requires
        diff_ops_of(config, remote_state, remote_schedule) is Ok,
    ensures
        diff_ops_of(config, remote_state, remote_schedule)->Ok_0.len() <= 4,
{
    if let Some(r) = remote_state {
        assert(tag_ops(config.state.tags@, r.tags@).len() <= 2);
    }
    assert(state_ops(config.state, remote_state).len() <= 3);
    assert(schedule_ops(config, remote_schedule).len() <= 1);
}

/// Some rendered section is owed exactly when there is some operation.
pub proof fn lemma_some_section_iff_ops(ops: Seq<OpView>)
    ensures
        (changes_state(ops) || deletes_state(ops) || changes_schedule(ops) || deletes_schedule(ops)) <==> ops.len() > 0,
{
    if ops.len() > 0 {
        let r = ops[0].rank();
        if r <= 3 {
            assert(changes_state(ops));
        } else if r == 7 {
            assert(deletes_state(ops));
        } else if r == 6 {
            assert(deletes_schedule(ops));
        } else {
            assert(changes_schedule(ops));
        }
    }
}

/// Diffs the pair `ss_config` against its remote counterparts into `report`,
/// given the JSON texts of the four resources (see
/// [`crate::render::config_diff_lines`]).
///
/// Where the operations cannot be derived, the error comes back and the
/// report is left as it was. Otherwise the report records exactly the
/// operations of [`build_diff_ops`], in order, under the state machine's
/// name; the rendered lines come back where there is some operation (and
/// `None` where there is none), and exactly then their text, free of terminal
/// styling, is added to the report.
pub fn diff_pair(
    report: &mut DiffResult,
    ss_config: &SsConfig,
    remote_state: &Option<StateMachine>,
    remote_schedule: &Option<Schedule>,
    remote_state_json: &str,
    local_state_json: &str,
    remote_schedule_json: &str,
    local_schedule_json: &str,
) -> (r: Result<Option<Vec<DiffLine>>, DiffError>)
    requires
        old(report).wf(),
        old(report).counts_fit(4),
    ensures
        final(report).wf(),
        match diff_ops_of(*ss_config, *remote_state, *remote_schedule) {
            Err(e) => r == Err::<Option<Vec<DiffLine>>, DiffError>(e) && *final(report) == *old(report),
            Ok(ops) => {
                let name = ss_config.state.name@;
                let old_report = entries_view(old(report).diff_ops@);
                &&& r is Ok
                &&& entries_view(final(report).detail_diff_ops@) == with_ops(entries_view(old(report).detail_diff_ops@), name, ops)
                &&& entries_view(final(report).diff_ops@) == with_reported_ops(old_report, name, ops)
                &&& forall|k: int| 0 <= k < 6 ==> #[trigger] final(report).count(k) == old(report).count(k) + count_growth(old_report, name, ops, k)
                &&& final(report).no_change == (old(report).no_change && ops.len() == 0)
                &&& (r->Ok_0 is Some <==> ops.len() > 0)
                &&& match r->Ok_0 {
                    Some(v) => {
                        &&& config_diff_lines(*ss_config, *remote_state, *remote_schedule, ops, remote_state_json@,
                            local_state_json@, remote_schedule_json@, local_schedule_json@) == Some(lines_view(v@))
                        &&& final(report).text_diff@.len() == old(report).text_diff@.len() + 1
                        &&& final(report).text_diff@.subrange(0, old(report).text_diff@.len() as int) == old(report).text_diff@
                        &&& final(report).text_diff@.last()@ == ansi_stripped(joined(lines_view(v@)))
                    },
                    None => final(report).text_diff@ == old(report).text_diff@,
                }
            },
        },
{
    let ops = match build_diff_ops(ss_config, remote_state, remote_schedule) {
        Err(e) => {
            return Err(e);
        },
        Ok(ops) => ops,
    };
    let ghost expected = diff_ops_of(*ss_config, *remote_state, *remote_schedule)->Ok_0;
    proof {
        lemma_diff_ops_len(*ss_config, *remote_state, *remote_schedule);
        assert(op_views(ops@) == expected);
        assert forall|k: int| 0 <= k < 6 implies #[trigger] report.count(k) + ops@.len() <= usize::MAX by {
            assert(report.count(k) + 4 <= usize::MAX);
        }
        lemma_some_section_iff_ops(expected);
    }
    report.append_diff_ops(ss_config.state.name.as_str(), ops.as_slice());
    let ghost recorded = *report;
    let lines = format_config_diff(
        ss_config,
        remote_state,
        remote_schedule,
        ops.as_slice(),
        remote_state_json,
        local_state_json,
        remote_schedule_json,
        local_schedule_json,
    );
    match &lines {
        Some(v) => {
            let text = render_plain(v);
            report.append_text_diff(text);
            proof {
                assert(report.text_diff@.subrange(0, recorded.text_diff@.len() as int) =~= recorded.text_diff@);
                assert forall|k: int| 0 <= k < 6 implies #[trigger] report.count(k) == recorded.count(k) by {}
            }
        },
        None => {},
    }
    Ok(lines)
}

} // verus!
