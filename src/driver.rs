//! The decisions of the test driver and of the REPL: whether a run passed,
//! how an update or an edit changes a snapshot, what a delete marks, and
//! how keys edit the input line.

use crate::data::{
    DataManager, Snapshot, SnapshotData, SnapshotStatus, data_body, dead_bodies, opt_str_view, strs_view,
};
use crate::diff::lines_equal;
use crate::editor::EditResult;
use crate::parser::{Command, Filter, FilterModel, Target};
use crate::text::str_equal;
use crate::util::{ExecOutput, to_snapshot_data};
use crate::view::{View, keep_matching, reconciled, state_is};
use vstd::prelude::*;
use vstd::view::View as _;

verus! {

/// The result of a command execution, which may ask for termination or not.
pub enum ReplStatus {
    Exit,
    Continue,
}

/// What the REPL does after a command: only `quit` ends it.
pub fn repl_status(command: &Command) -> (r: ReplStatus)
    ensures
        r is Exit <==> *command is Quit,
{
    match command {
        Command::Quit => ReplStatus::Exit,
        _ => ReplStatus::Continue,
    }
}

/// The snapshot with another status.
pub open spec fn with_status(s: Snapshot, status: SnapshotStatus) -> Snapshot {
    Snapshot { status, ..s }
}

/// A run reproduces the snapshot: same stdout, stderr and exit code.
pub open spec fn reproduces(s: Snapshot, result: ExecOutput) -> bool {
    &&& result.stdout@ == data_body(s.stdout)
    &&& result.stderr@ == data_body(s.stderr)
    &&& result.exit_code == s.exit_code
}

fn body_of(d: &Option<SnapshotData>) -> (r: &[u8])
    ensures
        r@ == data_body(*d),
{
    match d {
        Some(data) => data.body.as_slice(),
        None => &[],
    }
}

fn same_code(a: Option<i32>, b: Option<i32>) -> (r: bool)
    ensures
        r == (a == b),
{
    match (a, b) {
        (Some(x), Some(y)) => x == y,
        (None, None) => true,
        _ => false,
    }
}

/// Checks a run of the snapshot's command against the snapshot and records
/// the outcome in its status. Returns whether it passed.
pub fn run_snapshot(snap: &mut Snapshot, result: &ExecOutput) -> (r: bool)
    ensures
        r == reproduces(*old(snap), *result),
        *final(snap) == with_status(
            *old(snap),
            if r {
                SnapshotStatus::Passed
            } else {
                SnapshotStatus::Failed
            },
        ),
{
    let stdout_eq = lines_equal(result.stdout.as_slice(), body_of(&snap.stdout));
    let stderr_eq = lines_equal(result.stderr.as_slice(), body_of(&snap.stderr));
    let code_eq = same_code(snap.exit_code, result.exit_code);
    let failed = !stdout_eq || !stderr_eq || !code_eq;
    if failed {
        snap.status = SnapshotStatus::Failed;
    } else {
        snap.status = SnapshotStatus::Passed;
    }
    !failed
}

/// The body reference that a fresh capture gives: none for an empty body.
pub open spec fn fresh_data(body: Seq<u8>, name: Seq<char>, ext: Seq<char>, d: Option<SnapshotData>) -> bool {
    &&& body.len() == 0 ==> d is None
    &&& body.len() > 0 ==> (d matches Some(x) && x.body@ == body && x.path@ == name + ext)
}

/// Two body references agree in path and body.
pub open spec fn same_data(a: Option<SnapshotData>, b: Option<SnapshotData>) -> bool {
    match (a, b) {
        (Some(x), Some(y)) => x.path@ == y.path@ && x.body@ == y.body@,
        (None, None) => true,
        _ => false,
    }
}

fn same_data_exec(a: &Option<SnapshotData>, b: &Option<SnapshotData>) -> (r: bool)
    ensures
        r == same_data(*a, *b),
{
    match (a, b) {
        (Some(x), Some(y)) => str_equal(x.path.as_str(), y.path.as_str()) && lines_equal(
            x.body.as_slice(),
            y.body.as_slice(),
        ),
        (None, None) => true,
        _ => false,
    }
}

/// Overwrites the snapshot's exit code, stdout and stderr with a fresh run,
/// and marks it passed. Returns whether anything changed.
pub fn update_snapshot(snap: &mut Snapshot, result: ExecOutput) -> (r: bool)
    ensures
        final(snap).exit_code == result.exit_code,
        fresh_data(result.stdout@, old(snap).name@, ".out"@, final(snap).stdout),
        fresh_data(result.stderr@, old(snap).name@, ".err"@, final(snap).stderr),
        final(snap).status == SnapshotStatus::Passed,
        final(snap).cmd == old(snap).cmd,
        final(snap).name == old(snap).name,
        final(snap).description == old(snap).description,
        final(snap).tags == old(snap).tags,
        final(snap).deleted == old(snap).deleted,
        r == (old(snap).exit_code != result.exit_code || !same_data(old(snap).stdout, final(snap).stdout)
            || !same_data(old(snap).stderr, final(snap).stderr)),
{
    let mut has_changed = false;
    let new_stdout = to_snapshot_data(result.stdout, snap.name.as_str(), ".out");
    let new_stderr = to_snapshot_data(result.stderr, snap.name.as_str(), ".err");
    if !same_code(snap.exit_code, result.exit_code) {
        snap.exit_code = result.exit_code;
        has_changed = true;
    }
    if !same_data_exec(&snap.stdout, &new_stdout) {
        snap.stdout = new_stdout;
        has_changed = true;
    }
    if !same_data_exec(&snap.stderr, &new_stderr) {
        snap.stderr = new_stderr;
        has_changed = true;
    }
    snap.status = SnapshotStatus::Passed;
    has_changed
}

fn same_opt_string(a: &Option<String>, b: &Option<String>) -> (r: bool)
    ensures
        r == (opt_str_view(*a) == opt_str_view(*b)),
{
    match (a, b) {
        (Some(x), Some(y)) => str_equal(x.as_str(), y.as_str()),
        (None, None) => true,
        _ => false,
    }
}

/// Applies what the user wrote in the editor: a new name if one was given
/// and differs; a new description, with its tags, if it differs. Returns
/// whether anything changed.
pub fn edit_snapshot(snap: &mut Snapshot, edit: EditResult) -> (r: bool)
    ensures
        ({
            let renamed = edit.name matches Some(n) && n@ != old(snap).name@;
            let redescribed = opt_str_view(edit.description) != opt_str_view(old(snap).description);
            &&& r == (renamed || redescribed)
            &&& renamed ==> (edit.name matches Some(n) && final(snap).name == n)
            &&& !renamed ==> final(snap).name == old(snap).name
            &&& redescribed ==> final(snap).description == edit.description && final(snap).tags
                == edit.tags
            &&& !redescribed ==> final(snap).description == old(snap).description
                && final(snap).tags == old(snap).tags
            &&& final(snap).cmd == old(snap).cmd
            &&& final(snap).exit_code == old(snap).exit_code
            &&& final(snap).stdout == old(snap).stdout
            &&& final(snap).stderr == old(snap).stderr
            &&& final(snap).status == old(snap).status
            &&& final(snap).deleted == old(snap).deleted
        }),
{
    let mut has_changed = false;
    match edit.name {
        Some(name) => {
            if !str_equal(name.as_str(), snap.name.as_str()) {
                snap.name = name;
                has_changed = true;
            }
        },
        None => {},
    }
    if !same_opt_string(&edit.description, &snap.description) {
        snap.description = edit.description;
        snap.tags = edit.tags;
        has_changed = true;
    }
    has_changed
}

/// `i` is an entry of `s`.
pub open spec fn listed(s: Seq<usize>, i: int) -> bool {
    exists|j: int| 0 <= j < s.len() && s[j] == i
}

/// The snapshot marked deleted.
pub open spec fn tombstone(s: Snapshot) -> Snapshot {
    Snapshot { deleted: true, ..s }
}

/// `after` is `before` with the target of the view marked deleted: the
/// selected snapshot, or every snapshot of the view.
pub open spec fn marked(before: Seq<Snapshot>, after: Seq<Snapshot>, view: View, target: Target) -> bool {
    &&& after.len() == before.len()
    &&& forall|i: int|
        0 <= i < before.len() ==> #[trigger] after[i] == if (target is All && listed(view.view_seq(), i))
            || (target is Selected && view.view_seq().len() > 0 && i == view.view_seq()[view.window.0
            + view.cursor]) {
            tombstone(before[i])
        } else {
            before[i]
        }
}

/// Marks deleted the selected snapshot of the view, or every snapshot of the
/// view. Returns how many were marked.
pub fn delete_target(data: &mut DataManager, view: &View, target: Target) -> (r: usize)
    requires
        view.wf(),
        view.refs_ok(old(data).snapshots_view().len() as int),
    ensures
        marked(old(data).snapshots_view(), final(data).snapshots_view(), *view, target),
        target is All ==> r == view.view_seq().len(),
        target is Selected ==> r == (if view.view_seq().len() > 0 {
            1usize
        } else {
            0usize
        }),
{
    match target {
        Target::Selected => match view.get_selected_mut() {
            Some(k) => {
                let snap = data.snapshot_mut(k);
                snap.deleted = true;
                1
            },
            None => 0,
        },
        Target::All => {
            let entries = view.get_view();
            let ghost before = data.snapshots_view();
            let mut count: usize = 0;
            while count < entries.len()
                invariant
                    entries@ == view.view_seq(),
                    view.refs_ok(before.len() as int),
                    count <= entries@.len(),
                    data.snapshots_view().len() == before.len(),
                    forall|i: int|
                        0 <= i < before.len() ==> #[trigger] data.snapshots_view()[i] == if listed(entries@.take(count as int), i) {
                            tombstone(before[i])
                        } else {
                            before[i]
                        },
                decreases entries@.len() - count,
            {
                let k = entries[count];
                let snap = data.snapshot_mut(k);
                snap.deleted = true;
                proof {
                    assert forall|i: int| 0 <= i < before.len() implies #[trigger] data.snapshots_view()[i]
                        == if listed(entries@.take(count + 1), i) {
                        tombstone(before[i])
                    } else {
                        before[i]
                    } by {
                        let t0 = entries@.take(count as int);
                        let t1 = entries@.take(count + 1);
                        assert(t1 =~= t0.push(k));
                        if i == k as int {
                            assert(t1[count as int] == k);
                        } else {
                            if listed(t1, i) {
                                let j = choose|j: int| 0 <= j < t1.len() && t1[j] == i;
                                assert(t0[j] == i);
                            }
                            if listed(t0, i) {
                                let j = choose|j: int| 0 <= j < t0.len() && t0[j] == i;
                                assert(t1[j] == i);
                            }
                        }
                    }
                }
                count += 1;
            }
            proof {
                assert(entries@.take(count as int) =~= entries@);
            }
            count
        },
    }
}

/// The REPL's delete: marks the target deleted, returns how many were
/// marked and the body files that garbage collection removes, and hides
/// the deleted snapshots from the view.
pub fn delete_step(data: &mut DataManager, view: &mut View, target: Target) -> (r: (usize, Vec<String>))
    requires
        old(view).wf(),
        old(view).refs_ok(old(data).snapshots_view().len() as int),
    ensures
        marked(old(data).snapshots_view(), final(data).snapshots_view(), *old(view), target),
        target is All ==> r.0 == old(view).view_seq().len(),
        target is Selected ==> r.0 == (if old(view).view_seq().len() > 0 {
            1usize
        } else {
            0usize
        }),
        strs_view(r.1@) == dead_bodies(final(data).snapshots_view()),
        final(view).wf(),
        final(view).refs_ok(final(data).snapshots_view().len() as int),
        final(view).data_seq() == old(view).data_seq(),
        final(view).view_seq() == keep_matching(
            old(view).view_seq(),
            final(data).snapshots_view(),
            FilterModel::Deleted,
        ),
        state_is(
            final(view).window,
            final(view).cursor,
            reconciled(
                old(view).window,
                old(view).cursor,
                old(view).height,
                final(view).view_seq().len() as int,
            ),
        ),
{
    let count = delete_target(data, view, target);
    let dead = data.gc();
    view.apply_filter(data.snapshots(), Filter::Deleted);
    (count, dead)
}

/// A key as the terminal's input decoder reports it.
pub enum Key {
    Up,
    Down,
    Esc,
    Backspace,
    Enter,
    Char(char),
    CtrlL,
    Other,
}

/// What the REPL hands back to the driver.
#[derive(Debug, PartialEq, Eq, Clone)]
pub enum Input {
    Up,
    Down,
    Quit,
    Command(String),
}

/// Relies on `FromIterator<char> for String`: the characters, in order.
#[verifier::external_body]
fn collect_chars(chars: &Vec<char>) -> (r: String)
    ensures
        r@ == chars@,
{
    chars.iter().collect()
}

/// The line that the user is typing in the REPL.
pub struct InputLine {
    chars: Vec<char>,
}

impl InputLine {
    pub closed spec fn text_view(&self) -> Seq<char> {
        self.chars@
    }

    pub fn new() -> (r: InputLine)
        ensures
            r.text_view().len() == 0,
    {
        InputLine { chars: Vec::new() }
    }

    /// The line typed so far.
    pub fn text(&self) -> (r: String)
        ensures
            r@ == self.text_view(),
    {
        collect_chars(&self.chars)
    }

    /// Takes one key: arrows and Esc go to the driver, Enter hands over a
    /// non-empty line, Backspace erases, a character is typed; anything
    /// else leaves the line alone.
    pub fn on_key(&mut self, key: Key) -> (r: Option<Input>)
        ensures
            ({
                let t = old(self).text_view();
                match key {
                    Key::Up => r == Some(Input::Up) && final(self).text_view() == t,
                    Key::Down => r == Some(Input::Down) && final(self).text_view() == t,
                    Key::Esc => r == Some(Input::Quit) && final(self).text_view() == t,
                    Key::Backspace => r is None && final(self).text_view() == (if t.len() > 0 {
                        t.drop_last()
                    } else {
                        t
                    }),
                    Key::Enter => if t.len() > 0 {
                        (r matches Some(Input::Command(c)) && c@ == t) && final(self).text_view().len()
                            == 0
                    } else {
                        r is None && final(self).text_view() == t
                    },
                    Key::Char(c) => r is None && final(self).text_view() == t.push(c),
                    _ => r is None && final(self).text_view() == t,
                }
            }),
    {
        match key {
            Key::Up => Some(Input::Up),
            Key::Down => Some(Input::Down),
            Key::Esc => Some(Input::Quit),
            Key::Backspace => {
                if self.chars.len() > 0 {
                    self.chars.pop();
                }
                None
            },
            Key::Enter => {
                if self.chars.len() > 0 {
                    let command = collect_chars(&self.chars);
                    self.chars = Vec::new();
                    Some(Input::Command(command))
                } else {
                    None
                }
            },
            Key::Char(c) => {
                self.chars.push(c);
                None
            },
            _ => None,
        }
    }
}

} // verus!
