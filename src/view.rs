//! The interactive view model: a filtered projection of the repository with
//! a window and a cursor used by the renderer.

use crate::data::{Snapshot, SnapshotStatus};
use crate::parser::{Filter, FilterModel};
use crate::text::{contains_seq, contains_str, str_equal};
use vstd::prelude::*;
use vstd::view::View as _;

verus! {

/// The height of the window.
pub const VIEW_HEIGHT: usize = 5;

/// Whether the snapshot passes the filter.
pub open spec fn matches_filter(s: Snapshot, f: FilterModel) -> bool {
    match f {
        FilterModel::Name(n) => contains_seq(s.name@, n),
        FilterModel::Tag(t) => exists|j: int| 0 <= j < s.tags@.len() && #[trigger] s.tags@[j]@ == t,
        FilterModel::Passed => s.status == SnapshotStatus::Passed,
        FilterModel::Failed => s.status == SnapshotStatus::Failed,
        FilterModel::Waiting => s.status == SnapshotStatus::Waiting,
        FilterModel::Deleted => !s.deleted,
    }
}

/// The entries of `v` whose snapshot passes the filter, in order.
pub open spec fn keep_matching(v: Seq<usize>, snaps: Seq<Snapshot>, f: FilterModel) -> Seq<usize>
    decreases v.len(),
{
    if v.len() == 0 {
        v
    } else if matches_filter(snaps[v.last() as int], f) {
        keep_matching(v.drop_last(), snaps, f).push(v.last())
    } else {
        keep_matching(v.drop_last(), snaps, f)
    }
}

pub open spec fn min_nat(a: int, b: int) -> int {
    if a < b {
        a
    } else {
        b
    }
}

/// The window and cursor are sane for a view of `n` entries: the window has
/// width `min(height, n)` inside `[0, n]` and the cursor lies inside it (or
/// both are empty).
pub open spec fn window_ok(window: (usize, usize), cursor: usize, height: usize, n: int) -> bool {
    &&& height > 0
    &&& window.0 <= window.1 <= n
    &&& window.1 - window.0 == min_nat(height as int, n)
    &&& (cursor < window.1 - window.0 || (cursor == 0 && window.0 == window.1))
}

/// The window and cursor once the view has `n` entries, from a window and
/// cursor that were sane for the earlier length.
pub open spec fn reconciled(window: (usize, usize), cursor: usize, height: usize, n: int) -> ((int, int), int) {
    let (min, max) = window;
    if max >= n {
        let new_min = if n < height {
            0
        } else {
            n - height
        };
        let new_cursor = if cursor + 1 >= n {
            if n == 0 {
                0
            } else {
                n - 1
            }
        } else {
            cursor as int
        };
        ((new_min, n), new_cursor)
    } else if max - min < height && max < n {
        ((min as int, min_nat(min + height, n)), cursor as int)
    } else {
        ((min as int, max as int), cursor as int)
    }
}

/// The window and cursor are those that `r` gives.
pub open spec fn state_is(window: (usize, usize), cursor: usize, r: ((int, int), int)) -> bool {
    window.0 == r.0.0 && window.1 == r.0.1 && cursor == r.1
}

/// Represents a view of the snapshots after filters have been applied.
/// Entries are indices into the repository's snapshots.
pub struct View {
    /// Every snapshot of the session that the view was made from
    pub data: Vec<usize>,
    /// The entries that pass the filters applied so far
    pub view: Vec<usize>,
    /// Height of the view window
    pub height: usize,
    /// Position of the cursor relative to the view window
    pub cursor: usize,
    /// Current window over the data view
    pub window: (usize, usize),
}

impl View {
    pub open spec fn data_seq(&self) -> Seq<usize> {
        self.data@
    }

    pub open spec fn view_seq(&self) -> Seq<usize> {
        self.view@
    }

    /// `0 <= min <= max <= |view| <= |data|`, `max - min <= height`, and the
    /// cursor lies inside the window, or both are empty.
    pub open spec fn wf(&self) -> bool {
        &&& window_ok(self.window, self.cursor, self.height, self.view_seq().len() as int)
        &&& self.view_seq().len() <= self.data_seq().len()
    }

    /// Every entry refers to one of `n` snapshots.
    pub open spec fn refs_ok(&self, n: int) -> bool {
        &&& forall|i: int| 0 <= i < self.data_seq().len() ==> #[trigger] self.data_seq()[i] < n
        &&& forall|i: int| 0 <= i < self.view_seq().len() ==> #[trigger] self.view_seq()[i] < n
    }

    pub fn new(data: Vec<usize>) -> (r: View)
        ensures
            r.wf(),
            r.data_seq() == data@,
            r.view_seq() == data@,
            r.height == VIEW_HEIGHT,
            r.cursor == 0,
            r.window == (0usize, min_nat(VIEW_HEIGHT as int, data@.len() as int) as usize),
    {
        let height = VIEW_HEIGHT;
        let n = data.len();
        let mut view: Vec<usize> = Vec::new();
        let mut i: usize = 0;
        while i < n
            invariant
                n == data@.len(),
                i <= n,
                view@ == data@.take(i as int),
            decreases n - i,
        {
            view.push(data[i]);
            i += 1;
            proof {
                assert(view@ =~= data@.take(i as int));
            }
        }
        proof {
            assert(data@.take(n as int) =~= data@);
        }
        let max = if height < n {
            height
        } else {
            n
        };
        View { data, view, window: (0, max), height, cursor: 0 }
    }

    /// Returns a view of the data.
    pub fn get_view(&self) -> (r: &Vec<usize>)
        ensures
            r@ == self.view_seq(),
    {
        &self.view
    }

    /// Returns the selected item.
    pub fn get_selected(&self) -> (r: Option<usize>)
        requires
            self.wf(),
        ensures
            self.view_seq().len() == 0 ==> r is None,
            self.view_seq().len() > 0 ==> r == Some(
                self.view_seq()[self.window.0 + self.cursor],
            ),
    {
        if self.view.len() == 0 {
            None
        } else {
            Some(self.view[self.window.0 + self.cursor])
        }
    }

    /// Returns the selected item, for the caller to mutate in the repository.
    pub fn get_selected_mut(&self) -> (r: Option<usize>)
        requires
            self.wf(),
        ensures
            self.view_seq().len() == 0 ==> r is None,
            self.view_seq().len() > 0 ==> r == Some(
                self.view_seq()[self.window.0 + self.cursor],
            ),
    {
        self.get_selected()
    }

    /// Moves the cursor up; at the top it wraps to the bottom.
    pub fn up(&mut self)
        requires
            old(self).wf(),
        ensures
            final(self).wf(),
            final(self).data_seq() == old(self).data_seq(),
            final(self).view_seq() == old(self).view_seq(),
            final(self).height == old(self).height,
            old(self).cursor > 0 ==> final(self).cursor == old(self).cursor - 1 && final(self).window
                == old(self).window,
            old(self).cursor == 0 && old(self).window.0 > 0 ==> final(self).cursor == 0
                && final(self).window.0 == old(self).window.0 - 1 && final(self).window.1
                == min_nat(old(self).window.0 - 1 + old(self).height, old(self).view_seq().len() as int),
            old(self).cursor == 0 && old(self).window.0 == 0 ==> {
                let n = old(self).view_seq().len() as int;
                let h = old(self).height as int;
                &&& final(self).window.1 == n
                &&& final(self).window.0 == (if n < h {
                    0
                } else {
                    n - h
                })
                &&& final(self).cursor == (if n > final(self).window.0 {
                    n - final(self).window.0 - 1
                } else {
                    0
                })
            },
    {
        let (min, _) = self.window;
        if self.cursor > 0 {
            self.cursor -= 1;
        } else if min > 0 {
            let n = self.view.len();
            let min = min - 1;
            let max = if min + self.height < n {
                min + self.height
            } else {
                n
            };
            self.window = (min, max);
        } else {
            let n = self.view.len();
            let h = self.height;
            let max = n;
            let min = if max < h {
                0
            } else {
                max - h
            };
            self.window = (min, max);
            if max > min {
                self.cursor = max - min - 1;
            }
        }
    }

    /// Moves the cursor down; at the bottom it wraps to the top.
    pub fn down(&mut self)
        requires
            old(self).wf(),
        ensures
            final(self).wf(),
            final(self).data_seq() == old(self).data_seq(),
            final(self).view_seq() == old(self).view_seq(),
            final(self).height == old(self).height,
            ({
                let n = old(self).view_seq().len() as int;
                let h = old(self).height as int;
                let c = old(self).cursor as int;
                let (min, max) = old(self).window;
                if c + 1 < h && c + 1 < n {
                    final(self).cursor == c + 1 && final(self).window == old(self).window
                } else if max < n {
                    final(self).cursor == c && final(self).window.1 == max + 1
                        && final(self).window.0 == (if max + 1 < h {
                        0
                    } else {
                        max + 1 - h
                    })
                } else {
                    final(self).cursor == 0 && final(self).window.0 == 0 && final(self).window.1
                        == min_nat(n, h)
                }
            }),
    {
        let n = self.view.len();
        let (_, max) = self.window;
        if self.cursor + 1 < self.height && self.cursor + 1 < n {
            self.cursor += 1;
        } else if max < n {
            let max = max + 1;
            let min = if max < self.height {
                0
            } else {
                max - self.height
            };
            self.window = (min, max);
        } else {
            let min: usize = 0;
            let max = if n < self.height {
                n
            } else {
                self.height
            };
            self.window = (min, max);
            self.cursor = 0;
        }
    }

    /// Applies a filter to the current view, then makes the window sane.
    pub fn apply_filter(&mut self, snaps: &Vec<Snapshot>, filter: Filter)
        requires
            old(self).wf(),
            old(self).refs_ok(snaps@.len() as int),
        ensures
            final(self).wf(),
            final(self).refs_ok(snaps@.len() as int),
            final(self).data_seq() == old(self).data_seq(),
            final(self).view_seq() == keep_matching(old(self).view_seq(), snaps@, filter@),
            final(self).height == old(self).height,
            state_is(
                final(self).window,
                final(self).cursor,
                reconciled(
                old(self).window,
                old(self).cursor,
                old(self).height,
                final(self).view_seq().len() as int,
            )),
    {
        let ghost n0 = self.view@.len() as int;
        let mut view: Vec<usize> = Vec::new();
        let mut i: usize = 0;
        while i < self.view.len()
            invariant
                i <= self.view@.len(),
                forall|j: int| 0 <= j < self.view@.len() ==> #[trigger] self.view@[j] < snaps@.len(),
                view@ == keep_matching(self.view@.take(i as int), snaps@, filter@),
                forall|j: int| 0 <= j < view@.len() ==> #[trigger] view@[j] < snaps@.len(),
                view@.len() <= i,
            decreases self.view@.len() - i,
        {
            proof {
                assert(self.view@.take(i + 1).drop_last() =~= self.view@.take(i as int));
            }
            let k = self.view[i];
            if snapshot_matches(&snaps[k], &filter) {
                view.push(k);
            }
            i += 1;
        }
        proof {
            assert(self.view@.take(self.view@.len() as int) =~= self.view@);
        }
        self.view = view;
        self.update_window(Ghost(n0));
    }

    /// Removes any filter currently applied: the view becomes every
    /// snapshot of the data that is not deleted, in order.
    pub fn clear_filters(&mut self, snaps: &Vec<Snapshot>)
        requires
            old(self).wf(),
            old(self).refs_ok(snaps@.len() as int),
        ensures
            final(self).wf(),
            final(self).refs_ok(snaps@.len() as int),
            final(self).data_seq() == old(self).data_seq(),
            final(self).view_seq() == keep_matching(old(self).data_seq(), snaps@, FilterModel::Deleted),
            final(self).height == old(self).height,
            state_is(
                final(self).window,
                final(self).cursor,
                reconciled(
                old(self).window,
                old(self).cursor,
                old(self).height,
                final(self).view_seq().len() as int,
            )),
    {
        let ghost n0 = self.view@.len() as int;
        let mut view: Vec<usize> = Vec::new();
        let mut i: usize = 0;
        while i < self.data.len()
            invariant
                i <= self.data@.len(),
                forall|j: int| 0 <= j < self.data@.len() ==> #[trigger] self.data@[j] < snaps@.len(),
                view@ == keep_matching(self.data@.take(i as int), snaps@, FilterModel::Deleted),
                forall|j: int| 0 <= j < view@.len() ==> #[trigger] view@[j] < snaps@.len(),
                view@.len() <= i,
            decreases self.data@.len() - i,
        {
            proof {
                assert(self.data@.take(i + 1).drop_last() =~= self.data@.take(i as int));
            }
            let k = self.data[i];
            if !snaps[k].deleted {
                view.push(k);
            }
            i += 1;
        }
        proof {
            assert(self.data@.take(self.data@.len() as int) =~= self.data@);
        }
        self.view = view;
        self.update_window(Ghost(n0));
    }

    /// Updates the position of the window to create a sane state after the
    /// view went from `n0` entries to its current length.
    fn update_window(&mut self, Ghost(n0): Ghost<int>)
        requires
            window_ok(old(self).window, old(self).cursor, old(self).height, n0),
            old(self).view@.len() <= old(self).data@.len(),
        ensures
            final(self).wf(),
            final(self).data@ == old(self).data@,
            final(self).view@ == old(self).view@,
            final(self).height == old(self).height,
            state_is(
                final(self).window,
                final(self).cursor,
                reconciled(
                old(self).window,
                old(self).cursor,
                old(self).height,
                old(self).view@.len() as int,
            )),
    {
        let (min, max) = self.window;
        let n = self.view.len();
        if max >= n {
            let max = n;
            let min = if max < self.height {
                0
            } else {
                max - self.height
            };
            self.window = (min, max);
            // If there are less items than the position of the cursor
            if self.cursor + 1 >= max {
                self.cursor = if max == 0 {
                    0
                } else {
                    max - 1
                };
            }
        } else if max - min < self.height && max < n {
            let max = if min + self.height < n {
                min + self.height
            } else {
                n
            };
            self.window = (min, max);
        }
    }
}

/// Whether the snapshot passes the filter.
pub fn snapshot_matches(snap: &Snapshot, filter: &Filter) -> (r: bool)
    ensures
        r == matches_filter(*snap, filter@),
{
    match filter {
        Filter::Tag(tag) => {
            let mut j: usize = 0;
            while j < snap.tags.len()
                invariant
                    filter@ == FilterModel::Tag(tag@),
                    j <= snap.tags@.len(),
                    forall|t: int| 0 <= t < j ==> (#[trigger] snap.tags@[t])@ != tag@,
                decreases snap.tags@.len() - j,
            {
                if str_equal(snap.tags[j].as_str(), tag.as_str()) {
                    assert(snap.tags@[j as int]@ == tag@);
                    return true;
                }
                j += 1;
            }
            false
        },
        Filter::Name(name) => contains_str(snap.name.as_str(), name.as_str()),
        Filter::Waiting => match snap.status {
            SnapshotStatus::Waiting => true,
            _ => false,
        },
        Filter::Passed => match snap.status {
            SnapshotStatus::Passed => true,
            _ => false,
        },
        Filter::Failed => match snap.status {
            SnapshotStatus::Failed => true,
            _ => false,
        },
        Filter::Deleted => !snap.deleted,
    }
}

/// Filtering twice by the same filter gives what filtering once gave.
pub proof fn lemma_filter_idempotent(v: Seq<usize>, snaps: Seq<Snapshot>, f: FilterModel)
    ensures
        keep_matching(keep_matching(v, snaps, f), snaps, f) == keep_matching(v, snaps, f),
    decreases v.len(),
{
    if v.len() > 0 {
        let r = keep_matching(v.drop_last(), snaps, f);
        lemma_filter_idempotent(v.drop_last(), snaps, f);
        if matches_filter(snaps[v.last() as int], f) {
            assert(r.push(v.last()).drop_last() =~= r);
        }
    }
}

/// When the view keeps its length, making the window sane changes neither
/// the window nor the cursor.
pub proof fn lemma_reconcile_stable(window: (usize, usize), cursor: usize, height: usize, n: int)
    requires
        window_ok(window, cursor, height, n),
    ensures
        reconciled(window, cursor, height, n) == ((window.0 as int, window.1 as int), cursor as int),
{
}

/// Applying the same filter a second time changes nothing: neither the
/// entries, nor the window, nor the cursor.
pub proof fn lemma_apply_filter_twice(
    view: Seq<usize>,
    snaps: Seq<Snapshot>,
    f: FilterModel,
    window: (usize, usize),
    cursor: usize,
    height: usize,
)
    requires
        window_ok(window, cursor, height, keep_matching(view, snaps, f).len() as int),
    ensures
        keep_matching(keep_matching(view, snaps, f), snaps, f) == keep_matching(view, snaps, f),
        reconciled(window, cursor, height, keep_matching(keep_matching(view, snaps, f), snaps, f).len() as int)
            == ((window.0 as int, window.1 as int), cursor as int),
{
    lemma_filter_idempotent(view, snaps, f);
    lemma_reconcile_stable(window, cursor, height, keep_matching(view, snaps, f).len() as int);
}

} // verus!
