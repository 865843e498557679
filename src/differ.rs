//! The diff engine: the ordered operations that bring a remote resource pair
//! to its declared state.

use vstd::prelude::*;
use vstd::std_specs::cmp::PartialEqSpec;
use crate::diff_op::{DiffOp, OpView, op_views};
use crate::resource_tag::{ResourceTag, has_key, has_pair, contains_key, contains_pair};
use crate::schedule::Schedule;
use crate::ssconfig::SsConfig;
use crate::state_machine::StateMachine;

verus! {

/// Why no operations can be derived for a resource pair.
#[derive(Debug, Clone, Copy, PartialEq, Eq, Structural)]
pub enum DiffError {
    /// `delete_schedule` is set but no schedule is declared, so there is
    /// nothing that names the schedule to delete.
    DeleteScheduleWithoutSchedule,
    /// `delete_all` is set and a schedule exists remotely, but no schedule is
    /// declared, so there is nothing that names the schedule to delete.
    DeleteAllWithoutSchedule,
}

impl DiffError {
    /// The message that describes the error.
    pub fn message(&self) -> (r: String)
        ensures
            r@ == match self {
                DiffError::DeleteScheduleWithoutSchedule => "delete schedule flag(deleteSchedule) is on, but can't identify schedule since schedule config is not exist."@,
                DiffError::DeleteAllWithoutSchedule => "delete all flag(deleteAll) is on and a schedule exists, but can't identify schedule since schedule config is not exist."@,
            },
    {
        match self {
            DiffError::DeleteScheduleWithoutSchedule => String::from_str("delete schedule flag(deleteSchedule) is on, but can't identify schedule since schedule config is not exist."),
            DiffError::DeleteAllWithoutSchedule => String::from_str("delete all flag(deleteAll) is on and a schedule exists, but can't identify schedule since schedule config is not exist."),
        }
    }
}

/// Some local tag has a key that no remote tag has.
pub open spec fn tag_keys_added(local: Seq<ResourceTag>, remote: Seq<ResourceTag>) -> bool {
    exists|i: int| 0 <= i < local.len() && !has_key(remote, #[trigger] local[i].key@)
}

/// Some local tag has a key that the remote tags have too, but not with its
/// value.
pub open spec fn tag_values_changed(local: Seq<ResourceTag>, remote: Seq<ResourceTag>) -> bool {
    exists|i: int|
        0 <= i < local.len() && has_key(remote, #[trigger] local[i].key@) && !has_pair(
            remote,
            local[i].key@,
            local[i].value@,
        )
}

/// The keys of the remote tags that no local tag has, in remote order, each
/// once.
pub open spec fn removed_tag_keys(local: Seq<ResourceTag>, remote: Seq<ResourceTag>) -> Seq<Seq<char>>
    decreases remote.len(),
{
    if remote.len() == 0 {
        Seq::empty()
    } else {
        let prev = removed_tag_keys(local, remote.drop_last());
        let k = remote.last().key@;
        if has_key(local, k) || prev.contains(k) {
            prev
        } else {
            prev.push(k)
        }
    }
}

/// The tag operations that make the remote tags equal the local ones: at most
/// one upsert (for new keys and changed values), then at most one removal.
pub open spec fn tag_ops(local: Seq<ResourceTag>, remote: Seq<ResourceTag>) -> Seq<OpView> {
    let add = if tag_keys_added(local, remote) || tag_values_changed(local, remote) {
        seq![OpView::AddStateTag]
    } else {
        Seq::empty()
    };
    let keys = removed_tag_keys(local, remote);
    let remove = if keys.len() > 0 {
        seq![OpView::RemoveStateTag(keys)]
    } else {
        Seq::empty()
    };
    add + remove
}

/// The operations on the state machine outside deletion: create it where it is
/// absent remotely (its tags come with it), else update its body where that
/// differs, then reconcile its tags.
pub open spec fn state_ops(local: StateMachine, remote: Option<StateMachine>) -> Seq<OpView> {
    match remote {
        None => seq![OpView::CreateState],
        Some(r) => {
            let update = if local.same_body(&r) {
                Seq::empty()
            } else {
                seq![OpView::UpdateState]
            };
            update + tag_ops(local.tags@, r.tags@)
        },
    }
}

/// The operations on the schedule outside deletion of the whole pair.
pub open spec fn schedule_ops(config: SsConfig, remote: Option<Schedule>) -> Seq<OpView> {
    if config.delete_schedule {
        if remote is Some {
            seq![OpView::DeleteSchedule]
        } else {
            Seq::empty()
        }
    } else {
        match config.schedule {
            None => Seq::empty(),
            Some(l) => match remote {
                None => seq![OpView::CreateSchedule],
                Some(r) => if PartialEqSpec::eq_spec(&l, &r) {
                    Seq::empty()
                } else {
                    seq![OpView::UpdateSchedule]
                },
            },
        }
    }
}

/// The operations, in apply order, that bring the remote pair to what
/// `config` declares, or why the declaration cannot name what to delete.
pub open spec fn diff_ops_of(
    config: SsConfig,
    remote_state: Option<StateMachine>,
    remote_schedule: Option<Schedule>,
) -> Result<Seq<OpView>, DiffError> {
    if config.delete_schedule && config.schedule is None {
        Err(DiffError::DeleteScheduleWithoutSchedule)
    } else if config.delete_all && config.schedule is None && remote_schedule is Some {
        Err(DiffError::DeleteAllWithoutSchedule)
    } else if config.delete_all {
        let schedule = if config.schedule is Some && remote_schedule is Some {
            seq![OpView::DeleteSchedule]
        } else {
            Seq::empty()
        };
        let state = if remote_state is Some {
            seq![OpView::DeleteState]
        } else {
            Seq::empty()
        };
        Ok(schedule + state)
    } else {
        Ok(state_ops(config.state, remote_state) + schedule_ops(config, remote_schedule))
    }
}

/// Whether `r` is what [`diff_ops_of`] gives.
pub open spec fn diff_result_matches(
    r: Result<Vec<DiffOp>, DiffError>,
    expected: Result<Seq<OpView>, DiffError>,
) -> bool {
    match (r, expected) {
        (Ok(v), Ok(s)) => op_views(v@) == s,
        (Err(e), Err(f)) => e == f,
        _ => false,
    }
}

/// The removal keys, computed.
fn removed_keys(local: &[ResourceTag], remote: &[ResourceTag]) -> (r: Vec<String>)
    ensures
        crate::text::chars_of_all(r@) == removed_tag_keys(local@, remote@),
{
    let mut r: Vec<String> = Vec::new();
    let mut i: usize = 0;
    while i < remote.len()
        invariant
            0 <= i <= remote.len(),
            crate::text::chars_of_all(r@) == removed_tag_keys(local@, remote@.subrange(0, i as int)),
        decreases remote.len() - i,
    {
        let ghost prev = crate::text::chars_of_all(r@);
        let key = &remote[i].key;
        proof {
            let s = remote@.subrange(0, i as int + 1);
            assert(s.drop_last() =~= remote@.subrange(0, i as int));
            assert(s.last() == remote@[i as int]);
        }
        let in_local = contains_key(local, key);
        let mut seen = false;
        let mut j: usize = 0;
        while j < r.len()
            invariant
                0 <= j <= r.len(),
                prev == crate::text::chars_of_all(r@),
                seen == (exists|m: int| 0 <= m < j && #[trigger] prev[m] == key@),
            decreases r.len() - j,
        {
            assert(prev[j as int] == r@[j as int]@);
            if r[j] == *key {
                seen = true;
            }
            j = j + 1;
        }
        assert(seen == prev.contains(key@));
        if !in_local && !seen {
            r.push(key.clone());
            assert(crate::text::chars_of_all(r@) =~= prev.push(key@));
        }
        i = i + 1;
    }
    assert(remote@.subrange(0, remote@.len() as int) =~= remote@);
    r
}

/// The tag operations that make `remote_state_tags` equal
/// `local_state_tags`, in apply order.
pub fn build_sfn_tags_diff_ops(
    local_state_tags: &[ResourceTag],
    remote_state_tags: &[ResourceTag],
) -> (r: Vec<DiffOp>)
    ensures
        op_views(r@) == tag_ops(local_state_tags@, remote_state_tags@),
{
    let mut upsert = false;
    let mut i: usize = 0;
    while i < local_state_tags.len()
        invariant
            0 <= i <= local_state_tags.len(),
            upsert == (exists|j: int| 0 <= j < i && !has_pair(remote_state_tags@, #[trigger] local_state_tags@[j].key@, local_state_tags@[j].value@)),
        decreases local_state_tags.len() - i,
    {
        let t = &local_state_tags[i];
        if !contains_pair(remote_state_tags, &t.key, &t.value) {
            upsert = true;
        }
        i = i + 1;
    }
    proof {
        let l = local_state_tags@;
        let rm = remote_state_tags@;
        if upsert {
            let j = choose|j: int| 0 <= j < l.len() && !has_pair(rm, #[trigger] l[j].key@, l[j].value@);
            if has_key(rm, l[j].key@) {
                assert(tag_values_changed(l, rm));
            } else {
                assert(tag_keys_added(l, rm));
            }
        } else {
            if tag_keys_added(l, rm) {
                let j = choose|j: int| 0 <= j < l.len() && !has_key(rm, #[trigger] l[j].key@);
                if has_pair(rm, l[j].key@, l[j].value@) {
                    let m = choose|m: int| 0 <= m < rm.len() && #[trigger] rm[m].key@ == l[j].key@ && rm[m].value@ == l[j].value@;
                    assert(rm[m].key@ == l[j].key@);
                }
            }
            if tag_values_changed(l, rm) {
                let j = choose|j: int| 0 <= j < l.len() && has_key(rm, #[trigger] l[j].key@) && !has_pair(rm, l[j].key@, l[j].value@);
                assert(!has_pair(rm, l[j].key@, l[j].value@));
            }
        }
    }
    let keys = removed_keys(local_state_tags, remote_state_tags);
    let mut r: Vec<DiffOp> = Vec::new();
    if upsert {
        r.push(DiffOp::AddStateTag);
    }
    if keys.len() > 0 {
        r.push(DiffOp::RemoveStateTag(keys));
    }
    proof {
        assert(op_views(r@) =~= tag_ops(local_state_tags@, remote_state_tags@));
    }
    r
}

/// The operations, in apply order, that bring the remote pair
/// (`remote_state`, `remote_schedule`; `None` where absent) to what
/// `local_config` declares.
///
/// `delete_schedule` without a declared schedule is an error, whatever
/// `delete_all` says. With `delete_all`, a schedule present remotely but not
/// declared is an error; otherwise the schedule is deleted where it is
/// declared and present remotely, and the state machine where it is present
/// remotely (nothing where neither exists). Without `delete_all`, the state
/// machine is created where absent (its tags with it), or updated where its
/// body differs and its tags reconciled; the schedule is deleted under
/// `delete_schedule` where present, else created where absent, or updated
/// where it differs; an undeclared schedule is left alone.
pub fn build_diff_ops(
    local_config: &SsConfig,
    remote_state: &Option<StateMachine>,
    remote_schedule: &Option<Schedule>,
) -> (r: Result<Vec<DiffOp>, DiffError>)
    ensures
        diff_result_matches(r, diff_ops_of(*local_config, *remote_state, *remote_schedule)),
{
    let mut ops: Vec<DiffOp> = Vec::new();
    if local_config.delete_schedule && local_config.schedule.is_none() {
        return Err(DiffError::DeleteScheduleWithoutSchedule);
    }
    if local_config.delete_all && local_config.schedule.is_none() && remote_schedule.is_some() {
        return Err(DiffError::DeleteAllWithoutSchedule);
    }
    if local_config.delete_all {
        if local_config.schedule.is_some() && remote_schedule.is_some() {
            ops.push(DiffOp::DeleteSchedule);
        }
        if remote_state.is_some() {
            ops.push(DiffOp::DeleteState);
        }
        proof {
            assert(op_views(ops@) =~= diff_ops_of(*local_config, *remote_state, *remote_schedule)->Ok_0);
        }
        return Ok(ops);
    }
    match remote_state {
        None => {
            ops.push(DiffOp::CreateState);
        },
        Some(remote) => {
            if !local_config.state.eq_ignoring_tags(remote) {
                ops.push(DiffOp::UpdateState);
            }
            let mut tag_ops = build_sfn_tags_diff_ops(local_config.state.tags.as_slice(), remote.tags.as_slice());
            let ghost before = ops@;
            ops.append(&mut tag_ops);
            proof {
                assert(op_views(ops@) =~= op_views(before) + op_views(ops@.subrange(before.len() as int, ops@.len() as int)));
            }
        },
    }
    let ghost state_part = ops@;
    if local_config.delete_schedule {
        if remote_schedule.is_some() {
            ops.push(DiffOp::DeleteSchedule);
        }
    } else {
        match &local_config.schedule {
            None => {},
            Some(local_schedule) => match remote_schedule {
                None => {
                    ops.push(DiffOp::CreateSchedule);
                },
                Some(remote) => {
                    if !(*local_schedule == *remote) {
                        ops.push(DiffOp::UpdateSchedule);
                    }
                },
            },
        }
    }
    proof {
        assert(op_views(state_part) =~= state_ops(local_config.state, *remote_state));
        assert(op_views(ops@) =~= op_views(state_part) + schedule_ops(*local_config, *remote_schedule));
    }
    Ok(ops)
}

/// When every remote tag key is also a local tag key, no key is removed.
pub proof fn lemma_no_removed_keys(local: Seq<ResourceTag>, remote: Seq<ResourceTag>)
    requires
        forall|i: int| 0 <= i < remote.len() ==> has_key(local, #[trigger] remote[i].key@),
    ensures
        removed_tag_keys(local, remote) == Seq::<Seq<char>>::empty(),
    decreases remote.len(),
{
    if remote.len() > 0 {
        let rest = remote.drop_last();
        assert forall|i: int| 0 <= i < rest.len() implies has_key(local, #[trigger] rest[i].key@) by {
            assert(rest[i] == remote[i]);
        }
        lemma_no_removed_keys(local, rest);
        assert(has_key(local, remote[remote.len() - 1].key@));
    }
}

/// Tag lists that are equal element by element need no tag operation.
pub proof fn lemma_equal_tags_need_no_ops(local: Seq<ResourceTag>, remote: Seq<ResourceTag>)
    requires
        local.len() == remote.len(),
        forall|i: int| 0 <= i < local.len() ==> #[trigger] local[i].key@ == remote[i].key@ && local[i].value@ == remote[i].value@,
    ensures
        tag_ops(local, remote) == Seq::<OpView>::empty(),
{
    assert forall|i: int| 0 <= i < local.len() implies has_pair(remote, #[trigger] local[i].key@, local[i].value@) by {
        assert(remote[i].key@ == local[i].key@);
    }
    assert forall|i: int| 0 <= i < remote.len() implies has_key(local, #[trigger] remote[i].key@) by {
        assert(local[i].key@ == remote[i].key@);
    }
    lemma_no_removed_keys(local, remote);
    if tag_keys_added(local, remote) {
        let j = choose|j: int| 0 <= j < local.len() && !has_key(remote, #[trigger] local[j].key@);
        assert(remote[j].key@ == local[j].key@);
    }
    assert(tag_ops(local, remote) =~= Seq::<OpView>::empty());
}

/// Whether the remote schedule is the declared one: both absent, or both
/// present and equal in every field.
pub open spec fn schedule_in_place(local: Option<Schedule>, remote: Option<Schedule>) -> bool {
    match (local, remote) {
        (None, None) => true,
        (Some(l), Some(r)) => PartialEqSpec::eq_spec(&l, &r),
        _ => false,
    }
}

/// Idempotence: a pair whose remote state machine equals the declared one,
/// tags included, and whose remote schedule is the declared one, needs no
/// operation.
pub proof fn lemma_in_place_needs_no_ops(
    config: SsConfig,
    remote_state: StateMachine,
    remote_schedule: Option<Schedule>,
)
    requires
        !config.delete_all,
        !config.delete_schedule,
        PartialEqSpec::eq_spec(&config.state, &remote_state),
        schedule_in_place(config.schedule, remote_schedule),
    ensures
        diff_ops_of(config, Some(remote_state), remote_schedule) == Ok::<Seq<OpView>, DiffError>(Seq::empty()),
{
    let l = config.state.tags@;
    let r = remote_state.tags@;
    assert forall|i: int| 0 <= i < l.len() implies #[trigger] l[i].key@ == r[i].key@ && l[i].value@ == r[i].value@ by {
        assert(PartialEqSpec::eq_spec(&config.state.tags[i], &remote_state.tags[i]));
    }
    lemma_equal_tags_need_no_ops(l, r);
    assert(state_ops(config.state, Some(remote_state)) =~= Seq::<OpView>::empty());
    assert(schedule_ops(config, remote_schedule) =~= Seq::<OpView>::empty());
    assert(state_ops(config.state, Some(remote_state)) + schedule_ops(config, remote_schedule) =~= Seq::<OpView>::empty());
}

/// Creation carries the tags: where the state machine is absent remotely (and
/// the pair is neither deleted nor in error), the operations create it and
/// hold no tag operation, whatever the tags.
pub proof fn lemma_create_skips_tag_ops(
    config: SsConfig,
    remote_schedule: Option<Schedule>,
)
    requires
        !config.delete_all,
        !(config.delete_schedule && config.schedule is None),
    ensures
        diff_ops_of(config, None, remote_schedule) is Ok,
        diff_ops_of(config, None, remote_schedule)->Ok_0.contains(OpView::CreateState),
        forall|i: int| 0 <= i < diff_ops_of(config, None, remote_schedule)->Ok_0.len() ==> {
            let op = #[trigger] diff_ops_of(config, None, remote_schedule)->Ok_0[i];
            !(op is AddStateTag) && !(op is RemoveStateTag)
        },
{
    let s = diff_ops_of(config, None, remote_schedule)->Ok_0;
    assert(s[0] == OpView::CreateState);
}

/// Deleting a pair: with `delete_all` and the state machine present remotely,
/// an absent remote schedule gives exactly the deletion of the state machine,
/// a declared schedule that is present remotely is deleted first, and a
/// remote schedule that is not declared is an error.
pub proof fn lemma_delete_all(config: SsConfig, remote_state: StateMachine, remote_schedule: Schedule)
    requires
        config.delete_all,
        !(config.delete_schedule && config.schedule is None),
    ensures
        diff_ops_of(config, Some(remote_state), None) == Ok::<Seq<OpView>, DiffError>(seq![OpView::DeleteState]),
        config.schedule is Some ==> diff_ops_of(config, Some(remote_state), Some(remote_schedule))
            == Ok::<Seq<OpView>, DiffError>(seq![OpView::DeleteSchedule, OpView::DeleteState]),
        config.schedule is None ==> diff_ops_of(config, Some(remote_state), Some(remote_schedule))
            == Err::<Seq<OpView>, DiffError>(DiffError::DeleteAllWithoutSchedule),
{
    assert(Seq::<OpView>::empty() + seq![OpView::DeleteState] =~= seq![OpView::DeleteState]);
    assert(seq![OpView::DeleteSchedule] + seq![OpView::DeleteState] =~= seq![OpView::DeleteSchedule, OpView::DeleteState]);
}

/// `delete_schedule` without a declared schedule is an error, whatever is
/// present remotely and whatever `delete_all` says.
pub proof fn lemma_delete_schedule_needs_schedule(
    config: SsConfig,
    remote_state: Option<StateMachine>,
    remote_schedule: Option<Schedule>,
)
    requires
        config.delete_schedule,
        config.schedule is None,
    ensures
        diff_ops_of(config, remote_state, remote_schedule) == Err::<Seq<OpView>, DiffError>(DiffError::DeleteScheduleWithoutSchedule),
{
}

/// The operations come in apply order.
pub proof fn lemma_diff_ops_sorted(
    config: SsConfig,
    remote_state: Option<StateMachine>,
    remote_schedule: Option<Schedule>,
)
    requires
        diff_ops_of(config, remote_state, remote_schedule) is Ok,
    ensures
        crate::diff_op::sorted_by_rank(diff_ops_of(config, remote_state, remote_schedule)->Ok_0),
{
    let s = diff_ops_of(config, remote_state, remote_schedule)->Ok_0;
    if !config.delete_all {
        let a = state_ops(config.state, remote_state);
        let b = schedule_ops(config, remote_schedule);
        assert(forall|i: int| 0 <= i < a.len() ==> #[trigger] a[i].rank() <= 3);
        assert(forall|i: int| 0 <= i < b.len() ==> #[trigger] b[i].rank() >= 4);
        if remote_state is Some {
            let r = remote_state->Some_0;
            let t = tag_ops(config.state.tags@, r.tags@);
            assert(forall|i: int| 0 <= i < t.len() ==> 2 <= #[trigger] t[i].rank() <= 3);
            assert(forall|i: int, j: int| 0 <= i < j < t.len() ==> #[trigger] t[i].rank() < #[trigger] t[j].rank());
        }
        assert forall|i: int, j: int| 0 <= i <= j < s.len() implies #[trigger] s[i].rank() <= #[trigger] s[j].rank() by {
            if j < a.len() {
                assert(s[i] == a[i] && s[j] == a[j]);
            } else if i < a.len() {
                assert(s[i] == a[i] && s[j] == b[j - a.len()]);
            } else {
                assert(s[i] == b[i - a.len()] && s[j] == b[j - a.len()]);
            }
        }
    }
}

/// Whether `i` is the first position of a tag with key `k`.
pub open spec fn first_key_at(tags: Seq<ResourceTag>, k: Seq<char>, i: int) -> bool {
    0 <= i < tags.len() && tags[i].key@ == k && forall|j: int| 0 <= j < i ==> #[trigger] tags[j].key@ != k
}

/// The first tag of `tags` with key `k`, if any.
pub open spec fn first_with_key(tags: Seq<ResourceTag>, k: Seq<char>) -> Option<ResourceTag> {
    if exists|i: int| first_key_at(tags, k, i) {
        Some(tags[choose|i: int| first_key_at(tags, k, i)])
    } else {
        None
    }
}

/// For each local tag in order, the first remote tag with its key, if any.
pub open spec fn tags_in_local_order(local: Seq<ResourceTag>, remote: Seq<ResourceTag>) -> Seq<ResourceTag>
    decreases local.len(),
{
    if local.len() == 0 {
        Seq::empty()
    } else {
        let prev = tags_in_local_order(local.drop_last(), remote);
        match first_with_key(remote, local.last().key@) {
            Some(t) => prev.push(t),
            None => prev,
        }
    }
}

/// The first remote tag of each key that no local tag has, in remote order.
pub open spec fn remote_only_tags(local: Seq<ResourceTag>, remote: Seq<ResourceTag>) -> Seq<ResourceTag>
    decreases remote.len(),
{
    if remote.len() == 0 {
        Seq::empty()
    } else {
        let prev = remote_only_tags(local, remote.drop_last());
        let t = remote.last();
        if has_key(local, t.key@) || has_key(remote.drop_last(), t.key@) {
            prev
        } else {
            prev.push(t)
        }
    }
}

/// Whether `a` and `b` agree on every field but the tags.
pub open spec fn same_but_tags(a: StateMachine, b: StateMachine) -> bool {
    &&& a.name == b.name
    &&& a.definition == b.definition
    &&& a.role_arn == b.role_arn
    &&& a.kind == b.kind
    &&& a.logging_configuration == b.logging_configuration
    &&& a.tracing_configuration == b.tracing_configuration
}

/// The first tag of `tags` with key `key`, copied.
fn find_first_with_key(tags: &Vec<ResourceTag>, key: &String) -> (r: Option<ResourceTag>)
    ensures
        r == first_with_key(tags@, key@),
{
    let mut i: usize = 0;
    while i < tags.len()
        invariant
            0 <= i <= tags.len(),
            forall|j: int| 0 <= j < i ==> #[trigger] tags@[j].key@ != key@,
        decreases tags.len() - i,
    {
        if tags[i].key == *key {
            proof {
                assert(first_key_at(tags@, key@, i as int));
                let c = choose|c: int| first_key_at(tags@, key@, c);
                if c < i {
                    assert(tags@[c].key@ != key@);
                } else if c > i {
                    assert(tags@[i as int].key@ != key@);
                }
            }
            return Some(tags[i].duplicate());
        }
        i = i + 1;
    }
    proof {
        if exists|c: int| first_key_at(tags@, key@, c) {
            let c = choose|c: int| first_key_at(tags@, key@, c);
            assert(tags@[c].key@ == key@);
        }
    }
    None
}

/// The remote state machine with its tags put in the order of `local_tags`:
/// first, for each local tag, the first remote tag with its key; then the
/// first remote tag of each key that no local tag has, in remote order. This
/// keeps the rendered diff of two equal tag sets free of changes.
pub fn sort_tags_by_local_tags_order(
    remote_state: Option<StateMachine>,
    local_tags: &[ResourceTag],
) -> (r: Option<StateMachine>)
    ensures
        match remote_state {
            None => r is None,
            Some(s) => r is Some && same_but_tags(r->Some_0, s) && r->Some_0.tags@
                == tags_in_local_order(local_tags@, s.tags@) + remote_only_tags(local_tags@, s.tags@),
        },
{
    match remote_state {
        None => None,
        Some(s) => {
            let mut s = s;
            let ghost remote = s.tags@;
            let mut sorted: Vec<ResourceTag> = Vec::new();
            let mut i: usize = 0;
            while i < local_tags.len()
                invariant
                    0 <= i <= local_tags.len(),
                    remote == s.tags@,
                    sorted@ == tags_in_local_order(local_tags@.subrange(0, i as int), remote),
                decreases local_tags.len() - i,
            {
                proof {
                    let p = local_tags@.subrange(0, i as int + 1);
                    assert(p.drop_last() =~= local_tags@.subrange(0, i as int));
                    assert(p.last() == local_tags@[i as int]);
                }
                match find_first_with_key(&s.tags, &local_tags[i].key) {
                    Some(t) => sorted.push(t),
                    None => {},
                }
                i = i + 1;
            }
            assert(local_tags@.subrange(0, local_tags@.len() as int) =~= local_tags@);
            let ghost aligned = sorted@;
            let mut j: usize = 0;
            while j < s.tags.len()
                invariant
                    0 <= j <= s.tags.len(),
                    remote == s.tags@,
                    sorted@ == aligned + remote_only_tags(local_tags@, remote.subrange(0, j as int)),
                decreases s.tags.len() - j,
            {
                proof {
                    let p = remote.subrange(0, j as int + 1);
                    assert(p.drop_last() =~= remote.subrange(0, j as int));
                    assert(p.last() == remote[j as int]);
                }
                let t = &s.tags[j];
                let in_local = contains_key(local_tags, &t.key);
                let mut seen = false;
                let mut m: usize = 0;
                while m < j
                    invariant
                        0 <= m <= j,
                        j < s.tags.len(),
                        remote == s.tags@,
                        seen == exists|n: int| 0 <= n < m && #[trigger] remote[n].key@ == remote[j as int].key@,
                    decreases j - m,
                {
                    if s.tags[m].key == s.tags[j].key {
                        seen = true;
                    }
                    m = m + 1;
                }
                proof {
                    let p = remote.subrange(0, j as int);
                    if seen {
                        let n = choose|n: int| 0 <= n < j && #[trigger] remote[n].key@ == remote[j as int].key@;
                        assert(p[n].key@ == remote[j as int].key@);
                    }
                    if has_key(p, remote[j as int].key@) {
                        let n = choose|n: int| 0 <= n < p.len() && #[trigger] p[n].key@ == remote[j as int].key@;
                        assert(remote[n].key@ == remote[j as int].key@);
                    }
                }
                if !in_local && !seen {
                    let c = s.tags[j].duplicate();
                    sorted.push(c);
                    assert(sorted@ =~= aligned + remote_only_tags(local_tags@, remote.subrange(0, j as int + 1)));
                }
                j = j + 1;
            }
            assert(remote.subrange(0, remote.len() as int) =~= remote);
            s.tags = sorted;
            Some(s)
        },
    }
}

} // verus!
