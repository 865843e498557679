//! Rendering of the differences of a resource pair as lines of text.

use vstd::prelude::*;
use crate::diff_op::{DiffOp, OpView, op_views};
use crate::schedule::Schedule;
use crate::ssconfig::SsConfig;
use crate::state_machine::StateMachine;

verus! {

/// How a line of a line diff relates the old text to the new one.
#[derive(Debug, Clone, Copy, PartialEq, Eq, Structural)]
pub enum LineTag {
    Equal,
    Delete,
    Insert,
}

/// One line of a line diff: its tag and its text, ended by a newline.
#[derive(Debug, Clone)]
pub struct LineChange {
    pub tag: LineTag,
    pub text: String,
}

/// The hunks of a unified line diff of `old` against `new`, each a list of
/// tagged lines.
pub uninterp spec fn unified_hunks(old: Seq<char>, new: Seq<char>) -> Seq<Seq<(LineTag, Seq<char>)>>;

/// The mathematical value of a list of hunks.
pub open spec fn hunks_view(h: Seq<Vec<LineChange>>) -> Seq<Seq<(LineTag, Seq<char>)>> {
    h.map_values(|v: Vec<LineChange>| v@.map_values(|c: LineChange| (c.tag, c.text@)))
}

/// Relies on `similar::TextDiff::from_lines` and its unified diff (three lines
/// of context, the missing-newline hint on): the hunks of the line diff of
/// `old` against `new`, each change with its tag and its text as `Change`
/// displays it (the line, with a newline added where it had none). The result
/// depends on the two texts alone.
#[verifier::external_body]
fn line_diff_hunks(old: &str, new: &str) -> (r: Vec<Vec<LineChange>>)
    ensures
        hunks_view(r@) == unified_hunks(old@, new@),
{
    let diff = similar::TextDiff::from_lines(old, new);
    let mut hunks = Vec::new();
    for hunk in diff.unified_diff().missing_newline_hint(true).iter_hunks() {
        let mut changes = Vec::new();
        for change in hunk.iter_changes() {
            let tag = match change.tag() {
                similar::ChangeTag::Equal => LineTag::Equal,
                similar::ChangeTag::Delete => LineTag::Delete,
                similar::ChangeTag::Insert => LineTag::Insert,
            };
            changes.push(LineChange { tag, text: change.to_string() });
        }
        hunks.push(changes);
    }
    hunks
}

/// What a rendered line shows.
#[derive(Debug, Clone, Copy, PartialEq, Eq, Structural)]
pub enum LineKind {
    /// The header of a hunk, naming the two sides.
    Header,
    Equal,
    Delete,
    Insert,
    /// Any other text.
    Plain,
}

/// One rendered line: what it shows and its text, with its newline.
#[derive(Debug, Clone)]
pub struct DiffLine {
    pub kind: LineKind,
    pub text: String,
}

/// The mathematical value of rendered lines.
pub open spec fn lines_view(v: Seq<DiffLine>) -> Seq<(LineKind, Seq<char>)> {
    v.map_values(|l: DiffLine| (l.kind, l.text@))
}

/// The kind of the rendered line of a diff line.
pub open spec fn kind_of(t: LineTag) -> LineKind {
    match t {
        LineTag::Equal => LineKind::Equal,
        LineTag::Delete => LineKind::Delete,
        LineTag::Insert => LineKind::Insert,
    }
}

/// The sign that starts the rendered line of a diff line.
pub open spec fn sign_of(t: LineTag) -> Seq<char> {
    match t {
        LineTag::Equal => " "@,
        LineTag::Delete => "-"@,
        LineTag::Insert => "+"@,
    }
}

/// The rendered lines of one hunk: the two headers, then each line with its
/// sign.
pub open spec fn hunk_lines(target: Seq<char>, hunk: Seq<(LineTag, Seq<char>)>) -> Seq<(LineKind, Seq<char>)> {
    seq![
        (LineKind::Header, "--- remote: "@ + target + "\n"@),
        (LineKind::Header, "+++ local:  "@ + target + "\n"@),
    ] + hunk.map_values(|c: (LineTag, Seq<char>)| (kind_of(c.0), sign_of(c.0) + c.1))
}

/// The rendered lines of all hunks, in order.
pub open spec fn resource_lines(target: Seq<char>, hunks: Seq<Seq<(LineTag, Seq<char>)>>) -> Seq<(LineKind, Seq<char>)>
    decreases hunks.len(),
{
    if hunks.len() == 0 {
        Seq::empty()
    } else {
        resource_lines(target, hunks.drop_last()) + hunk_lines(target, hunks.last())
    }
}

/// The rendered diff of the resource `target` from its remote text to its
/// local text: for each hunk, a `---`/`+++` header pair naming the two sides,
/// then each line preceded by its sign.
pub fn format_resource_diff(target: &str, remote: &str, local: &str) -> (r: Vec<DiffLine>)
    ensures
        lines_view(r@) == resource_lines(target@, unified_hunks(remote@, local@)),
{
    let hunks = line_diff_hunks(remote, local);
    let ghost hv = hunks_view(hunks@);
    let mut r: Vec<DiffLine> = Vec::new();
    let mut i: usize = 0;
    while i < hunks.len()
        invariant
            0 <= i <= hunks.len(),
            hv == hunks_view(hunks@),
            lines_view(r@) == resource_lines(target@, hv.subrange(0, i as int)),
        decreases hunks.len() - i,
    {
        let ghost before = lines_view(r@);
        let h = &hunks[i];
        let remote_header = String::from_str("--- remote: ").concat(target).concat("\n");
        let local_header = String::from_str("+++ local:  ").concat(target).concat("\n");
        r.push(DiffLine { kind: LineKind::Header, text: remote_header });
        r.push(DiffLine { kind: LineKind::Header, text: local_header });
        let mut j: usize = 0;
        while j < h.len()
            invariant
                0 <= j <= h.len(),
                hv == hunks_view(hunks@),
                i < hunks.len(),
                *h == hunks@[i as int],
                lines_view(r@) == before + hunk_lines(target@, hv[i as int].subrange(0, j as int)),
            decreases h.len() - j,
        {
            let c = &h[j];
            let (kind, sign) = match c.tag {
                LineTag::Equal => (LineKind::Equal, " "),
                LineTag::Delete => (LineKind::Delete, "-"),
                LineTag::Insert => (LineKind::Insert, "+"),
            };
            let text = String::from_str(sign).concat(c.text.as_str());
            let ghost prev = lines_view(r@);
            r.push(DiffLine { kind, text });
            proof {
                assert(hv[i as int][j as int] == (c.tag, c.text@));
                assert(hv[i as int].subrange(0, j as int + 1) =~= hv[i as int].subrange(0, j as int).push(hv[i as int][j as int]));
                assert(lines_view(r@) =~= prev.push((kind, sign@ + c.text@)));
                assert(hunk_lines(target@, hv[i as int].subrange(0, j as int + 1)) =~= hunk_lines(target@, hv[i as int].subrange(0, j as int)).push((kind_of(c.tag), sign_of(c.tag) + c.text@)));
            }
            j = j + 1;
        }
        proof {
            assert(hv[i as int].subrange(0, h@.len() as int) =~= hv[i as int]);
            let s = hv.subrange(0, i as int + 1);
            assert(s.drop_last() =~= hv.subrange(0, i as int));
            assert(s.last() == hv[i as int]);
        }
        i = i + 1;
    }
    assert(hv.subrange(0, hunks@.len() as int) =~= hv);
    r
}

/// Whether some operation creates, updates or retags the state machine.
pub open spec fn changes_state(ops: Seq<OpView>) -> bool {
    exists|i: int| 0 <= i < ops.len() && #[trigger] ops[i].rank() <= 3
}

/// Whether some operation deletes the state machine.
pub open spec fn deletes_state(ops: Seq<OpView>) -> bool {
    exists|i: int| 0 <= i < ops.len() && #[trigger] ops[i].rank() == 7
}

/// Whether some operation creates or updates the schedule.
pub open spec fn changes_schedule(ops: Seq<OpView>) -> bool {
    exists|i: int| 0 <= i < ops.len() && (#[trigger] ops[i].rank() == 4 || ops[i].rank() == 5)
}

/// Whether some operation deletes the schedule.
pub open spec fn deletes_schedule(ops: Seq<OpView>) -> bool {
    exists|i: int| 0 <= i < ops.len() && #[trigger] ops[i].rank() == 6
}

/// The name shown for the schedule of a pair: the declared one, else the
/// remote one.
pub open spec fn shown_schedule_name(local: Option<Schedule>, remote: Option<Schedule>) -> Seq<char> {
    match (local, remote) {
        (Some(l), _) => l.name@,
        (None, Some(r)) => r.name@,
        (None, None) => Seq::empty(),
    }
}

/// The name shown for a state machine that is deleted: the remote one, else
/// the declared one.
pub open spec fn shown_deleted_state_name(local: StateMachine, remote: Option<StateMachine>) -> Seq<char> {
    match remote {
        Some(r) => r.name@,
        None => local.name@,
    }
}

/// The name shown for a schedule that is deleted: the remote one, else the
/// declared one.
pub open spec fn shown_deleted_schedule_name(local: Option<Schedule>, remote: Option<Schedule>) -> Seq<char> {
    match (remote, local) {
        (Some(r), _) => r.name@,
        (None, Some(l)) => l.name@,
        (None, None) => Seq::empty(),
    }
}

/// The rendered differences of a pair, given its operations and the JSON
/// texts of the remote and local state machines and schedules: nothing where
/// there is no operation; else the line diff of the state machine where it
/// changes (or a notice where it is deleted), then the line diff of the
/// schedule where it changes (or a notice where it is deleted), each diff
/// followed by an empty line.
pub open spec fn config_diff_lines(
    config: SsConfig,
    remote_state: Option<StateMachine>,
    remote_schedule: Option<Schedule>,
    ops: Seq<OpView>,
    remote_state_json: Seq<char>,
    local_state_json: Seq<char>,
    remote_schedule_json: Seq<char>,
    local_schedule_json: Seq<char>,
) -> Option<Seq<(LineKind, Seq<char>)>> {
    if !changes_state(ops) && !deletes_state(ops) && !changes_schedule(ops) && !deletes_schedule(ops) {
        None
    } else {
        let state_part = if changes_state(ops) {
            resource_lines(config.state.name@, unified_hunks(remote_state_json, local_state_json))
                + seq![(LineKind::Plain, "\n"@)]
        } else if deletes_state(ops) {
            seq![(LineKind::Plain, "State machine("@ + shown_deleted_state_name(config.state, remote_state) + ") is going to be deleted\n"@)]
        } else {
            Seq::empty()
        };
        let schedule_part = if changes_schedule(ops) {
            resource_lines(shown_schedule_name(config.schedule, remote_schedule), unified_hunks(remote_schedule_json, local_schedule_json))
                + seq![(LineKind::Plain, "\n"@)]
        } else if deletes_schedule(ops) {
            seq![(LineKind::Plain, "Schedule("@ + shown_deleted_schedule_name(config.schedule, remote_schedule) + ") is going to be deleted\n"@)]
        } else {
            Seq::empty()
        };
        Some(state_part + schedule_part)
    }
}

/// A line of plain text.
fn plain_line(text: String) -> (r: DiffLine)
    ensures
        r.kind == LineKind::Plain,
        r.text@ == text@,
{
    DiffLine { kind: LineKind::Plain, text }
}

/// The rendered differences of the pair `local_config` with its remote
/// counterparts, given its operations `diff_ops` and the JSON texts of the
/// four resources (see [`config_diff_lines`]); `None` where nothing changes.
pub fn format_config_diff(
    local_config: &SsConfig,
    remote_state: &Option<StateMachine>,
    remote_schedule: &Option<Schedule>,
    diff_ops: &[DiffOp],
    remote_state_json: &str,
    local_state_json: &str,
    remote_schedule_json: &str,
    local_schedule_json: &str,
) -> (r: Option<Vec<DiffLine>>)
    ensures
        match (r, config_diff_lines(*local_config, *remote_state, *remote_schedule, op_views(diff_ops@),
            remote_state_json@, local_state_json@, remote_schedule_json@, local_schedule_json@)) {
            (Some(v), Some(s)) => lines_view(v@) == s,
            (None, None) => true,
            _ => false,
        },
{
    let ghost ops = op_views(diff_ops@);
    let mut change_state = false;
    let mut delete_state = false;
    let mut change_schedule = false;
    let mut delete_schedule = false;
    let mut i: usize = 0;
    while i < diff_ops.len()
        invariant
            0 <= i <= diff_ops.len(),
            ops == op_views(diff_ops@),
            change_state == exists|j: int| 0 <= j < i && #[trigger] ops[j].rank() <= 3,
            delete_state == exists|j: int| 0 <= j < i && #[trigger] ops[j].rank() == 7,
            change_schedule == exists|j: int| 0 <= j < i && (#[trigger] ops[j].rank() == 4 || ops[j].rank() == 5),
            delete_schedule == exists|j: int| 0 <= j < i && #[trigger] ops[j].rank() == 6,
        decreases diff_ops.len() - i,
    {
        let k = diff_ops[i].rank();
        assert(ops[i as int].rank() == k as nat);
        if k <= 3 {
            change_state = true;
        } else if k == 7 {
            delete_state = true;
        } else if k == 6 {
            delete_schedule = true;
        } else {
            change_schedule = true;
        }
        i = i + 1;
    }
    if !change_state && !delete_state && !change_schedule && !delete_schedule {
        return None;
    }
    let mut lines: Vec<DiffLine> = Vec::new();
    if change_state {
        lines = format_resource_diff(local_config.state.name.as_str(), remote_state_json, local_state_json);
        let ghost before = lines@;
        lines.push(plain_line(String::from_str("\n")));
        assert(lines_view(lines@) =~= lines_view(before).push((LineKind::Plain, "\n"@)));
    } else if delete_state {
        let name = match remote_state {
            Some(r) => r.name.as_str(),
            None => local_config.state.name.as_str(),
        };
        let text = String::from_str("State machine(").concat(name).concat(") is going to be deleted\n");
        lines.push(plain_line(text));
        assert(lines_view(lines@) =~= seq![(LineKind::Plain, text@)]);
    }
    let ghost state_part = lines_view(lines@);
    proof {
        reveal_strlit("");
        assert(""@ =~= Seq::<char>::empty());
    }
    proof {
        let expected = config_diff_lines(*local_config, *remote_state, *remote_schedule, ops,
            remote_state_json@, local_state_json@, remote_schedule_json@, local_schedule_json@);
        let sp = if changes_state(ops) {
            resource_lines(local_config.state.name@, unified_hunks(remote_state_json@, local_state_json@))
                + seq![(LineKind::Plain, "\n"@)]
        } else if deletes_state(ops) {
            seq![(LineKind::Plain, "State machine("@ + shown_deleted_state_name(local_config.state, *remote_state) + ") is going to be deleted\n"@)]
        } else {
            Seq::empty()
        };
        assert(state_part =~= sp);
    }
    if change_schedule {
        let name = match &local_config.schedule {
            Some(l) => l.name.as_str(),
            None => match remote_schedule {
                Some(r) => r.name.as_str(),
                None => "",
            },
        };
        assert(name@ == shown_schedule_name(local_config.schedule, *remote_schedule));
        let mut more = format_resource_diff(name, remote_schedule_json, local_schedule_json);
        more.push(plain_line(String::from_str("\n")));
        let ghost more_view = lines_view(more@);
        let ghost before = lines@;
        lines.append(&mut more);
        assert(lines_view(lines@) =~= lines_view(before) + more_view);
    } else if delete_schedule {
        let name = match remote_schedule {
            Some(r) => r.name.as_str(),
            None => match &local_config.schedule {
                Some(l) => l.name.as_str(),
                None => "",
            },
        };
        assert(name@ == shown_deleted_schedule_name(local_config.schedule, *remote_schedule));
        let text = String::from_str("Schedule(").concat(name).concat(") is going to be deleted\n");
        let ghost before = lines@;
        lines.push(plain_line(text));
        assert(lines_view(lines@) =~= lines_view(before).push((LineKind::Plain, text@)));
    }
    proof {
        let expected = config_diff_lines(*local_config, *remote_state, *remote_schedule, ops,
            remote_state_json@, local_state_json@, remote_schedule_json@, local_schedule_json@);
        let schp = if changes_schedule(ops) {
            resource_lines(shown_schedule_name(local_config.schedule, *remote_schedule), unified_hunks(remote_schedule_json@, local_schedule_json@))
                + seq![(LineKind::Plain, "\n"@)]
        } else if deletes_schedule(ops) {
            seq![(LineKind::Plain, "Schedule("@ + shown_deleted_schedule_name(local_config.schedule, *remote_schedule) + ") is going to be deleted\n"@)]
        } else {
            Seq::empty()
        };
        assert(lines_view(lines@) =~= state_part + schp);
        assert(lines_view(lines@) =~= expected->Some_0);
    }
    Some(lines)
}

/// The text of rendered lines, joined.
pub open spec fn joined(lines: Seq<(LineKind, Seq<char>)>) -> Seq<char>
    decreases lines.len(),
{
    if lines.len() == 0 {
        Seq::empty()
    } else {
        joined(lines.drop_last()) + lines.last().1
    }
}

/// The text of rendered lines, joined, without any styling.
pub fn render_plain(lines: &Vec<DiffLine>) -> (r: String)
    ensures
        r@ == joined(lines_view(lines@)),
{
    let mut r = String::new();
    let mut i: usize = 0;
    while i < lines.len()
        invariant
            0 <= i <= lines.len(),
            r@ == joined(lines_view(lines@).subrange(0, i as int)),
        decreases lines.len() - i,
    {
        proof {
            let s = lines_view(lines@).subrange(0, i as int + 1);
            assert(s.drop_last() =~= lines_view(lines@).subrange(0, i as int));
        }
        r.append(lines[i].text.as_str());
        i = i + 1;
    }
    assert(lines_view(lines@).subrange(0, lines@.len() as int) =~= lines_view(lines@));
    r
}

} // verus!
