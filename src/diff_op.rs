//! Change operations and their total order.

use vstd::prelude::*;
use crate::text::chars_of_all;

verus! {

broadcast use vstd::seq_lib::group_to_multiset_ensures;

/// One reconciliation action on one resource pair.
///
/// Operations are ordered by [`DiffOp::rank`]: the changes to the state
/// machine and its tags come first, then the schedule operations, and the
/// deletion of the state machine comes last, after the deletion of the
/// schedule that targets it.
#[derive(Debug, Clone, PartialEq, Eq, Hash, PartialOrd, Ord)]
pub enum DiffOp {
    CreateState,
    UpdateState,
    AddStateTag,
    /// Removes the tags with these keys.
    RemoveStateTag(Vec<String>),
    CreateSchedule,
    UpdateSchedule,
    DeleteSchedule,
    DeleteState,
}

/// The mathematical value of a [`DiffOp`].
pub enum OpView {
    CreateState,
    UpdateState,
    AddStateTag,
    RemoveStateTag(Seq<Seq<char>>),
    CreateSchedule,
    UpdateSchedule,
    DeleteSchedule,
    DeleteState,
}

impl View for DiffOp {
    type V = OpView;

    open spec fn view(&self) -> OpView {
        match self {
            DiffOp::CreateState => OpView::CreateState,
            DiffOp::UpdateState => OpView::UpdateState,
            DiffOp::AddStateTag => OpView::AddStateTag,
            DiffOp::RemoveStateTag(keys) => OpView::RemoveStateTag(chars_of_all(keys@)),
            DiffOp::CreateSchedule => OpView::CreateSchedule,
            DiffOp::UpdateSchedule => OpView::UpdateSchedule,
            DiffOp::DeleteSchedule => OpView::DeleteSchedule,
            DiffOp::DeleteState => OpView::DeleteState,
        }
    }
}

impl OpView {
    /// The position of the operation in the apply order.
    pub open spec fn rank(self) -> nat {
        match self {
            OpView::CreateState => 0,
            OpView::UpdateState => 1,
            OpView::AddStateTag => 2,
            OpView::RemoveStateTag(_) => 3,
            OpView::CreateSchedule => 4,
            OpView::UpdateSchedule => 5,
            OpView::DeleteSchedule => 6,
            OpView::DeleteState => 7,
        }
    }

    /// The operation as it is reported: tag changes count as an update of
    /// the state machine.
    pub open spec fn for_report(self) -> OpView {
        match self {
            OpView::AddStateTag => OpView::UpdateState,
            OpView::RemoveStateTag(_) => OpView::UpdateState,
            _ => self,
        }
    }

    /// The name under which the operation is reported and counted.
    pub open spec fn name(self) -> Seq<char> {
        match self {
            OpView::CreateState => "create_state"@,
            OpView::UpdateState => "update_state"@,
            OpView::AddStateTag => "add_state_tag"@,
            OpView::RemoveStateTag(_) => "remote_state_tag"@,
            OpView::CreateSchedule => "create_schedule"@,
            OpView::UpdateSchedule => "update_schedule"@,
            OpView::DeleteSchedule => "delete_schedule"@,
            OpView::DeleteState => "delete_state"@,
        }
    }
}

/// Whether the operations of `s` are in apply order.
pub open spec fn sorted_by_rank(s: Seq<OpView>) -> bool {
    forall|i: int, j: int| 0 <= i <= j < s.len() ==> #[trigger] s[i].rank() <= #[trigger] s[j].rank()
}

/// The views of a list of operations.
pub open spec fn op_views(s: Seq<DiffOp>) -> Seq<OpView> {
    s.map_values(|o: DiffOp| o@)
}

impl DiffOp {
    /// The position of the operation in the apply order.
    pub fn rank(&self) -> (r: u8)
        ensures
            r as nat == self@.rank(),
    {
        match self {
            DiffOp::CreateState => 0,
            DiffOp::UpdateState => 1,
            DiffOp::AddStateTag => 2,
            DiffOp::RemoveStateTag(_) => 3,
            DiffOp::CreateSchedule => 4,
            DiffOp::UpdateSchedule => 5,
            DiffOp::DeleteSchedule => 6,
            DiffOp::DeleteState => 7,
        }
    }

    /// The operation as it is reported: tag changes count as an update of
    /// the state machine.
    pub fn op_for_report(&self) -> (r: DiffOp)
        ensures
            r@ == self@.for_report(),
    {
        match self {
            DiffOp::CreateState => DiffOp::CreateState,
            DiffOp::UpdateState => DiffOp::UpdateState,
            DiffOp::AddStateTag => DiffOp::UpdateState,
            DiffOp::RemoveStateTag(_) => DiffOp::UpdateState,
            DiffOp::CreateSchedule => DiffOp::CreateSchedule,
            DiffOp::UpdateSchedule => DiffOp::UpdateSchedule,
            DiffOp::DeleteSchedule => DiffOp::DeleteSchedule,
            DiffOp::DeleteState => DiffOp::DeleteState,
        }
    }

    /// The name under which the operation is reported and counted.
    pub fn op_type(&self) -> (r: String)
        ensures
            r@ == self@.name(),
    {
        let s = match self {
            DiffOp::CreateState => "create_state",
            DiffOp::UpdateState => "update_state",
            DiffOp::AddStateTag => "add_state_tag",
            DiffOp::RemoveStateTag(_) => "remote_state_tag",
            DiffOp::CreateSchedule => "create_schedule",
            DiffOp::UpdateSchedule => "update_schedule",
            DiffOp::DeleteSchedule => "delete_schedule",
            DiffOp::DeleteState => "delete_state",
        };
        String::from_str(s)
    }

    /// A copy of this operation.
    pub fn duplicate(&self) -> (r: DiffOp)
        ensures
            r@ == self@,
    {
        match self {
            DiffOp::CreateState => DiffOp::CreateState,
            DiffOp::UpdateState => DiffOp::UpdateState,
            DiffOp::AddStateTag => DiffOp::AddStateTag,
            DiffOp::RemoveStateTag(keys) => DiffOp::RemoveStateTag(crate::text::copy_strs(keys)),
            DiffOp::CreateSchedule => DiffOp::CreateSchedule,
            DiffOp::UpdateSchedule => DiffOp::UpdateSchedule,
            DiffOp::DeleteSchedule => DiffOp::DeleteSchedule,
            DiffOp::DeleteState => DiffOp::DeleteState,
        }
    }
}

/// Puts `ops` in apply order: the same operations, sorted by rank.
pub fn sort_diff_ops(ops: Vec<DiffOp>) -> (r: Vec<DiffOp>)
    ensures
        r@.to_multiset() == ops@.to_multiset(),
        sorted_by_rank(op_views(r@)),
{
    let ghost orig = ops@;
    let mut rest = ops;
    let mut sorted: Vec<DiffOp> = Vec::new();
    while rest.len() > 0
        invariant
            sorted@.to_multiset().add(rest@.to_multiset()) == orig.to_multiset(),
            sorted_by_rank(op_views(sorted@)),
        decreases rest.len(),
    {
        let ghost before_rest = rest@;
        let ghost before_sorted = sorted@;
        let x = rest.remove(0);
        let k = x.rank();
        let mut pos: usize = sorted.len();
        while pos > 0 && sorted[pos - 1].rank() > k
            invariant
                0 <= pos <= sorted.len(),
                sorted@ == before_sorted,
                forall|j: int| pos <= j < sorted.len() ==> #[trigger] sorted@[j]@.rank() > k,
            decreases pos,
        {
            pos = pos - 1;
        }
        proof {
            assert(before_rest.remove(0) == rest@);
            let s = sorted@;
            assert(s =~= s.subrange(0, pos as int) + s.subrange(pos as int, s.len() as int));
            vstd::seq_lib::lemma_multiset_commutative(s.subrange(0, pos as int), s.subrange(pos as int, s.len() as int));
            vstd::seq_lib::lemma_multiset_commutative(s.subrange(0, pos as int).push(x), s.subrange(pos as int, s.len() as int));
        }
        sorted.insert(pos, x);
        proof {
            let v = op_views(sorted@);
            assert forall|i: int, j: int| 0 <= i <= j < v.len() implies #[trigger] v[i].rank() <= #[trigger] v[j].rank() by {
                if i < pos && j < pos {
                    assert(v[i] == op_views(before_sorted)[i]);
                    assert(v[j] == op_views(before_sorted)[j]);
                } else if i < pos && j == pos {
                    assert(v[i] == op_views(before_sorted)[i]);
                    if pos > 0 {
                        assert(v[pos as int - 1] == op_views(before_sorted)[pos as int - 1]);
                    }
                } else if i < pos {
                    assert(v[i] == op_views(before_sorted)[i]);
                    assert(v[j] == op_views(before_sorted)[j - 1]);
                } else if i == pos && j > pos {
                    assert(v[j] == op_views(before_sorted)[j - 1]);
                    assert(before_sorted[j - 1]@.rank() > k);
                } else if i > pos {
                    assert(v[i] == op_views(before_sorted)[i - 1]);
                    assert(v[j] == op_views(before_sorted)[j - 1]);
                }
            }
        }
    }
    sorted
}

/// A schedule is deleted before the state machine it targets: in any list
/// in apply order, every `DeleteSchedule` stands before every `DeleteState`.
pub proof fn lemma_delete_schedule_before_delete_state(s: Seq<OpView>, i: int, j: int)
    requires
        sorted_by_rank(s),
        0 <= i < s.len(),
        0 <= j < s.len(),
        s[i] == OpView::DeleteSchedule,
        s[j] == OpView::DeleteState,
    ensures
        i < j,
{
    if j <= i {
        assert(s[j].rank() <= s[i].rank());
    }
}

} // verus!
