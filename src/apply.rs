//! The apply sequencer: the calls, in order, that carry out a report.

use vstd::prelude::*;
use crate::diff_op::{DiffOp, OpView};
use crate::diff_result::{DiffResult, DiffOpsForSs, entries_view};
use crate::identity::state_arn;
use crate::ssconfig::{Config, SsConfig};

verus! {

/// Carries out the operations of a report.
pub struct ApplyCommand;

/// What to do with a report before applying it.
#[derive(Debug, Clone, Copy, PartialEq, Eq, Structural)]
pub enum ApplyGate {
    /// Nothing changes: there is nothing to apply.
    NothingToDo,
    /// The operator must confirm first.
    AskConfirmation,
    /// Apply at once.
    Proceed,
}

/// One call into the outside services: operation `op` on the resource pair
/// at position `pair` of the configuration, whose state machine has the ARN
/// `state_arn`.
#[derive(Debug, Clone)]
pub struct ApplyCall {
    pub pair: usize,
    pub state_arn: String,
    pub op: DiffOp,
}

/// Why a report cannot be applied.
#[derive(Debug, Clone)]
pub enum ApplyError {
    /// The report names a state machine that the configuration does not
    /// declare.
    UnknownStateMachine(String),
    /// The report holds a schedule operation for a pair that declares no
    /// schedule.
    MissingSchedule(String),
}

/// The mathematical value of an [`ApplyError`]: which kind, and the name.
pub open spec fn error_view(e: ApplyError) -> (bool, Seq<char>) {
    match e {
        ApplyError::UnknownStateMachine(n) => (true, n@),
        ApplyError::MissingSchedule(n) => (false, n@),
    }
}

/// The mathematical value of a list of calls.
pub open spec fn calls_view(v: Seq<ApplyCall>) -> Seq<(int, Seq<char>, OpView)> {
    v.map_values(|c: ApplyCall| (c.pair as int, c.state_arn@, c.op@))
}

/// The first pair of `configs` whose state machine is named `name`.
pub open spec fn pair_index(configs: Seq<SsConfig>, name: Seq<char>) -> Option<int> {
    if exists|i: int| 0 <= i < configs.len() && #[trigger] configs[i].state.name@ == name {
        Some(choose|i: int| 0 <= i < configs.len() && configs[i].state.name@ == name
            && forall|j: int| 0 <= j < i ==> #[trigger] configs[j].state.name@ != name)
    } else {
        None
    }
}

/// Whether an operation concerns the schedule.
pub open spec fn is_schedule_op(op: OpView) -> bool {
    op is CreateSchedule || op is UpdateSchedule || op is DeleteSchedule
}

/// The calls for the operations of one state machine, or why there are none.
#[verifier::opaque]
pub open spec fn entry_calls(
    configs: Seq<SsConfig>,
    prefix: Seq<char>,
    entry: (Seq<char>, Seq<OpView>),
) -> Result<Seq<(int, Seq<char>, OpView)>, (bool, Seq<char>)> {
    match pair_index(configs, entry.0) {
        None => Err((true, entry.0)),
        Some(p) => if configs[p].schedule is None && exists|j: int| 0 <= j < entry.1.len() && is_schedule_op(#[trigger] entry.1[j]) {
            Err((false, entry.0))
        } else {
            Ok(entry.1.map_values(|op: OpView| (p, prefix + entry.0, op)))
        },
    }
}

/// The calls for all entries in order, or the error of the first entry that
/// has one.
pub open spec fn all_calls(
    configs: Seq<SsConfig>,
    prefix: Seq<char>,
    entries: Seq<(Seq<char>, Seq<OpView>)>,
) -> Result<Seq<(int, Seq<char>, OpView)>, (bool, Seq<char>)>
    decreases entries.len(),
{
    if entries.len() == 0 {
        Ok(Seq::empty())
    } else {
        match all_calls(configs, prefix, entries.drop_last()) {
            Err(e) => Err(e),
            Ok(prev) => match entry_calls(configs, prefix, entries.last()) {
                Err(e) => Err(e),
                Ok(c) => Ok(prev + c),
            },
        }
    }
}

/// The first pair of `configs` whose state machine is named `name`.
fn find_pair(configs: &Vec<SsConfig>, name: &String) -> (r: Option<usize>)
    ensures
        match r {
            Some(i) => pair_index(configs@, name@) == Some(i as int) && i < configs@.len(),
            None => pair_index(configs@, name@) is None,
        },
{
    let mut i: usize = 0;
    while i < configs.len()
        invariant
            0 <= i <= configs.len(),
            forall|j: int| 0 <= j < i ==> #[trigger] configs@[j].state.name@ != name@,
        decreases configs.len() - i,
    {
        if configs[i].state.name == *name {
            proof {
                let c = choose|c: int| 0 <= c < configs@.len() && configs@[c].state.name@ == name@
                    && forall|j: int| 0 <= j < c ==> #[trigger] configs@[j].state.name@ != name@;
                if c < i {
                    assert(configs@[c].state.name@ != name@);
                } else if c > i {
                    assert(configs@[i as int].state.name@ != name@);
                }
            }
            return Some(i);
        }
        i = i + 1;
    }
    None
}

impl ApplyCommand {
    /// What to do before applying: nothing where nothing changes, else ask
    /// the operator unless approval is automatic.
    pub fn gate(no_change: bool, auto_approve: bool) -> (r: ApplyGate)
        ensures
            r == if no_change {
                ApplyGate::NothingToDo
            } else if !auto_approve {
                ApplyGate::AskConfirmation
            } else {
                ApplyGate::Proceed
            },
    {
        if no_change {
            ApplyGate::NothingToDo
        } else if !auto_approve {
            ApplyGate::AskConfirmation
        } else {
            ApplyGate::Proceed
        }
    }

    /// Whether the operator's answer approves the change: only the exact
    /// text `yes` does.
    pub fn is_approval(response: &str) -> (r: bool)
        ensures
            r == (response@ == "yes"@),
    {
        String::from_str(response) == String::from_str("yes")
    }

    /// The calls that carry out `diff_result` on the pairs of `config`, whose
    /// state machine ARNs start with `state_arn_prefix`: for each state
    /// machine of the report in turn, one call per operation, in the order of
    /// the report, on the first pair that declares it. A state machine that
    /// no pair declares, or a schedule operation on a pair that declares no
    /// schedule, is an error.
    pub fn plan_calls(diff_result: &DiffResult, config: &Config, state_arn_prefix: &str) -> (r: Result<Vec<ApplyCall>, ApplyError>)
        ensures
            match (r, all_calls(config.ss_configs@, state_arn_prefix@, entries_view(diff_result.detail_diff_ops@))) {
                (Ok(v), Ok(s)) => calls_view(v@) == s,
                (Err(e), Err(f)) => error_view(e) == f,
                _ => false,
            },
    {
        let entries = &diff_result.detail_diff_ops;
        let configs = &config.ss_configs;
        let ghost es = entries_view(entries@);
        let mut calls: Vec<ApplyCall> = Vec::new();
        let mut i: usize = 0;
        assert(calls_view(calls@) =~= Seq::empty());
        assert(es.subrange(0, 0).len() == 0);
        while i < entries.len()
            invariant
                0 <= i <= entries.len(),
                es == entries_view(entries@),
                es == entries_view(diff_result.detail_diff_ops@),
                configs@ == config.ss_configs@,
                all_calls(configs@, state_arn_prefix@, es.subrange(0, i as int)) == Ok::<Seq<(int, Seq<char>, OpView)>, (bool, Seq<char>)>(calls_view(calls@)),
            decreases entries.len() - i,
        {
            proof {
                let p = es.subrange(0, i as int + 1);
                assert(p.drop_last() =~= es.subrange(0, i as int));
                assert(p.last() == es[i as int]);
            }
            assert(es[i as int] == crate::diff_result::entry_view(entries@[i as int]));
            let res = push_entry_calls(&mut calls, configs, state_arn_prefix, &entries[i]);
            match res {
                Err(e) => {
                    proof {
                        let p = es.subrange(0, i as int + 1);
                        assert(p.drop_last() =~= es.subrange(0, i as int));
                        assert(p.last() == es[i as int]);
                        assert(entry_calls(configs@, state_arn_prefix@, es[i as int]) is Err);
                        assert(all_calls(configs@, state_arn_prefix@, p) == Err::<Seq<(int, Seq<char>, OpView)>, (bool, Seq<char>)>(error_view(e)));
                        lemma_error_stays(configs@, state_arn_prefix@, es, i as int + 1);
                        assert(all_calls(configs@, state_arn_prefix@, es) == Err::<Seq<(int, Seq<char>, OpView)>, (bool, Seq<char>)>(error_view(e)));
                        assert(es == entries_view(diff_result.detail_diff_ops@));
                    }
                    return Err(e);
                },
                Ok(()) => {},
            }
            i = i + 1;
        }
        assert(es.subrange(0, es.len() as int) =~= es);
        Ok(calls)
    }
}

/// Once a prefix of the entries has an error, so have all entries, with the
/// same error.
proof fn lemma_error_stays(
    configs: Seq<SsConfig>,
    prefix: Seq<char>,
    es: Seq<(Seq<char>, Seq<OpView>)>,
    n: int,
)
    requires
        0 <= n <= es.len(),
        all_calls(configs, prefix, es.subrange(0, n)) is Err,
    ensures
        all_calls(configs, prefix, es) == all_calls(configs, prefix, es.subrange(0, n)),
    decreases es.len() - n,
{
    if n < es.len() {
        let p = es.subrange(0, n + 1);
        assert(p.drop_last() =~= es.subrange(0, n));
        lemma_error_stays(configs, prefix, es, n + 1);
    } else {
        assert(es.subrange(0, n) =~= es);
    }
}

/// Appends to `calls` the calls for the operations of `entry`, or gives the
/// reason why there are none.
fn push_entry_calls(calls: &mut Vec<ApplyCall>, configs: &Vec<SsConfig>, state_arn_prefix: &str, entry: &DiffOpsForSs) -> (r: Result<(), ApplyError>)
    ensures
        match (r, entry_calls(configs@, state_arn_prefix@, crate::diff_result::entry_view(*entry))) {
            (Ok(_), Ok(c)) => calls_view(final(calls)@) == calls_view(old(calls)@) + c,
            (Err(e), Err(f)) => error_view(e) == f,
            _ => false,
        },
{
    let ghost ops = crate::diff_op::op_views(entry.diff_ops@);
    let pair = match find_pair(configs, &entry.state_name) {
        None => {
            proof {
                reveal(entry_calls);
            }
            return Err(ApplyError::UnknownStateMachine(entry.state_name.clone()));
        },
        Some(p) => p,
    };
    let arn = state_arn(state_arn_prefix, entry.state_name.as_str());
    let has_schedule = configs[pair].schedule.is_some();
    if !has_schedule {
        let mut j: usize = 0;
        while j < entry.diff_ops.len()
            invariant
                0 <= j <= entry.diff_ops.len(),
                ops == crate::diff_op::op_views(entry.diff_ops@),
                pair_index(configs@, entry.state_name@) == Some(pair as int),
                pair < configs@.len(),
                configs@[pair as int].schedule is None,
                forall|m: int| 0 <= m < j ==> !is_schedule_op(#[trigger] ops[m]),
            decreases entry.diff_ops.len() - j,
        {
            let k = entry.diff_ops[j].rank();
            assert(ops[j as int] == entry.diff_ops@[j as int]@);
            if 4 <= k && k <= 6 {
                assert(is_schedule_op(ops[j as int]));
                assert(crate::diff_result::entry_view(*entry).1 == ops);
                assert(exists|m: int| 0 <= m < ops.len() && is_schedule_op(#[trigger] ops[m]));
                proof {
                    reveal(entry_calls);
                }
                return Err(ApplyError::MissingSchedule(entry.state_name.clone()));
            }
            j = j + 1;
        }
    }
    let ghost before = calls_view(calls@);
    let mut j: usize = 0;
    while j < entry.diff_ops.len()
        invariant
            0 <= j <= entry.diff_ops.len(),
            ops == crate::diff_op::op_views(entry.diff_ops@),
            arn@ == state_arn_prefix@ + entry.state_name@,
            calls_view(calls@) == before + ops.subrange(0, j as int).map_values(
                |op: OpView| (pair as int, state_arn_prefix@ + entry.state_name@, op)),
        decreases entry.diff_ops.len() - j,
    {
        let op = &entry.diff_ops[j];
        let ghost prev = calls_view(calls@);
        calls.push(ApplyCall { pair, state_arn: arn.clone(), op: op.duplicate() });
        proof {
            assert(ops[j as int] == op@);
            assert(ops.subrange(0, j as int + 1) =~= ops.subrange(0, j as int).push(op@));
            assert(calls_view(calls@) =~= prev.push((pair as int, state_arn_prefix@ + entry.state_name@, op@)));
            assert(ops.subrange(0, j as int + 1).map_values(|op: OpView| (pair as int, state_arn_prefix@ + entry.state_name@, op))
                =~= ops.subrange(0, j as int).map_values(|op: OpView| (pair as int, state_arn_prefix@ + entry.state_name@, op)).push((pair as int, state_arn_prefix@ + entry.state_name@, op@)));
        }
        j = j + 1;
    }
    assert(ops.subrange(0, ops.len() as int) =~= ops);
    proof {
        reveal(entry_calls);
    }
    Ok(())
}

} // verus!
