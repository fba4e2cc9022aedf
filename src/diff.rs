//! Shortest edit script between two sequences of lines (Myers's algorithm).

use std::collections::HashMap;
use vstd::prelude::*;
use vstd::slice::slice_subrange;

verus! {

broadcast use vstd::std_specs::hash::group_hash_axioms;

/// One line of an edit script.
#[derive(Debug, PartialEq, Eq, Clone, Copy)]
pub enum DiffLine<'a> {
    Keep(&'a [u8]),
    Delete(&'a [u8]),
    Insert(&'a [u8]),
}

/// The mathematical content of a `DiffLine`.
pub enum Edit {
    Keep(Seq<u8>),
    Delete(Seq<u8>),
    Insert(Seq<u8>),
}

impl<'a> View for DiffLine<'a> {
    type V = Edit;

    open spec fn view(&self) -> Edit {
        match *self {
            DiffLine::Keep(l) => Edit::Keep(l@),
            DiffLine::Delete(l) => Edit::Delete(l@),
            DiffLine::Insert(l) => Edit::Insert(l@),
        }
    }
}

/// The contents of a sequence of line slices.
pub open spec fn lines(s: Seq<&[u8]>) -> Seq<Seq<u8>> {
    s.map_values(|l: &[u8]| l@)
}

/// The edits that a sequence of diff lines stands for.
pub open spec fn edits<'a>(s: Seq<DiffLine<'a>>) -> Seq<Edit> {
    s.map_values(|l: DiffLine<'a>| l@)
}

/// `s` turns the lines `a[x..]` into the lines `b[y..]`: each `Keep` and
/// `Delete` consumes the next line of `a` (a `Keep` also the equal next line
/// of `b`), each `Insert` produces the next line of `b`.
pub open spec fn transforms(s: Seq<Edit>, a: Seq<Seq<u8>>, b: Seq<Seq<u8>>, x: int, y: int) -> bool
    decreases s.len(),
{
    if s.len() == 0 {
        x == a.len() && y == b.len()
    } else {
        match s[0] {
            Edit::Keep(l) => 0 <= x < a.len() && 0 <= y < b.len() && a[x] == l && b[y] == l
                && transforms(s.drop_first(), a, b, x + 1, y + 1),
            Edit::Delete(l) => 0 <= x < a.len() && a[x] == l && transforms(s.drop_first(), a, b, x + 1, y),
            Edit::Insert(l) => 0 <= y < b.len() && b[y] == l && transforms(s.drop_first(), a, b, x, y + 1),
        }
    }
}

/// `s` is an edit script from `a` to `b`.
pub open spec fn is_edit_script(s: Seq<Edit>, a: Seq<Seq<u8>>, b: Seq<Seq<u8>>) -> bool {
    transforms(s, a, b, 0, 0)
}

/// Interprets `s` against `a`: `Keep` copies the next line of `a`, `Delete`
/// drops it, `Insert` emits its own line; lines of `a` left over are kept.
pub open spec fn apply(s: Seq<Edit>, a: Seq<Seq<u8>>) -> Seq<Seq<u8>>
    decreases s.len(),
{
    if s.len() == 0 {
        a
    } else {
        match s[0] {
            Edit::Keep(_) => if a.len() > 0 {
                seq![a[0]] + apply(s.drop_first(), a.drop_first())
            } else {
                apply(s.drop_first(), a)
            },
            Edit::Delete(_) => apply(s.drop_first(), a.drop_first()),
            Edit::Insert(l) => seq![l] + apply(s.drop_first(), a),
        }
    }
}

pub open spec fn count_keep(s: Seq<Edit>) -> nat
    decreases s.len(),
{
    if s.len() == 0 {
        0
    } else {
        (if s[0] is Keep { 1nat } else { 0nat }) + count_keep(s.drop_first())
    }
}

pub open spec fn count_delete(s: Seq<Edit>) -> nat
    decreases s.len(),
{
    if s.len() == 0 {
        0
    } else {
        (if s[0] is Delete { 1nat } else { 0nat }) + count_delete(s.drop_first())
    }
}

pub open spec fn count_insert(s: Seq<Edit>) -> nat
    decreases s.len(),
{
    if s.len() == 0 {
        0
    } else {
        (if s[0] is Insert { 1nat } else { 0nat }) + count_insert(s.drop_first())
    }
}

/// Applying an edit script from `a` to `b` to `a` gives `b`.
pub proof fn lemma_script_applies(s: Seq<Edit>, a: Seq<Seq<u8>>, b: Seq<Seq<u8>>, x: int, y: int)
    requires
        transforms(s, a, b, x, y),
        0 <= x <= a.len(),
        0 <= y <= b.len(),
    ensures
        apply(s, a.subrange(x, a.len() as int)) == b.subrange(y, b.len() as int),
    decreases s.len(),
{
    let ax = a.subrange(x, a.len() as int);
    let by = b.subrange(y, b.len() as int);
    if s.len() == 0 {
        assert(ax =~= Seq::<Seq<u8>>::empty());
        assert(by =~= Seq::<Seq<u8>>::empty());
    } else {
        match s[0] {
            Edit::Keep(l) => {
                lemma_script_applies(s.drop_first(), a, b, x + 1, y + 1);
                assert(ax.drop_first() =~= a.subrange(x + 1, a.len() as int));
                assert(by =~= seq![b[y]] + b.subrange(y + 1, b.len() as int));
            },
            Edit::Delete(l) => {
                lemma_script_applies(s.drop_first(), a, b, x + 1, y);
                assert(ax.drop_first() =~= a.subrange(x + 1, a.len() as int));
            },
            Edit::Insert(l) => {
                lemma_script_applies(s.drop_first(), a, b, x, y + 1);
                assert(by =~= seq![b[y]] + b.subrange(y + 1, b.len() as int));
            },
        }
    }
}

/// An edit script from `a[x..]` to `b[y..]` keeps or deletes each line of
/// `a[x..]` once, and keeps or inserts each line of `b[y..]` once.
pub proof fn lemma_script_counts(s: Seq<Edit>, a: Seq<Seq<u8>>, b: Seq<Seq<u8>>, x: int, y: int)
    requires
        transforms(s, a, b, x, y),
    ensures
        count_keep(s) + count_delete(s) == a.len() - x,
        count_keep(s) + count_insert(s) == b.len() - y,
    decreases s.len(),
{
    if s.len() > 0 {
        match s[0] {
            Edit::Keep(_) => lemma_script_counts(s.drop_first(), a, b, x + 1, y + 1),
            Edit::Delete(_) => lemma_script_counts(s.drop_first(), a, b, x + 1, y),
            Edit::Insert(_) => lemma_script_counts(s.drop_first(), a, b, x, y + 1),
        }
    }
}

/// The lines of `s` before position `i`, split on `\n`: the lines ended so
/// far and the line in progress.
pub open spec fn body_split_state(s: Seq<u8>, i: int) -> (Seq<Seq<u8>>, Seq<u8>)
    decreases i,
{
    if i <= 0 {
        (Seq::empty(), Seq::empty())
    } else {
        let (done, cur) = body_split_state(s, i - 1);
        if s[i - 1] == 10u8 {
            (done.push(cur), Seq::empty())
        } else {
            (done, cur.push(s[i - 1]))
        }
    }
}

/// A body split on `\n`; a trailing empty line is kept, so that two bodies
/// split alike.
pub open spec fn body_lines(s: Seq<u8>) -> Seq<Seq<u8>> {
    let (done, cur) = body_split_state(s, s.len() as int);
    done.push(cur)
}

/// Splits a body into its lines, the input of `get_diff`.
pub fn split_body<'a>(body: &'a [u8]) -> (r: Vec<&'a [u8]>)
    ensures
        lines(r@) == body_lines(body@),
{
    let len = body.len();
    let mut out: Vec<&'a [u8]> = Vec::new();
    let mut start: usize = 0;
    let mut i: usize = 0;
    while i < len
        invariant
            len == body@.len(),
            start <= i <= len,
            body_split_state(body@, i as int) == (lines(out@), body@.subrange(start as int, i as int)),
        decreases len - i,
    {
        if body[i] == 10u8 {
            let line = slice_subrange(body, start, i);
            let ghost before = out@;
            out.push(line);
            start = i + 1;
            proof {
                assert(lines(out@) =~= lines(before).push(line@));
            }
        }
        i += 1;
        proof {
            assert(body@.subrange(start as int, i as int) =~= body_split_state(body@, i as int).1);
            assert(lines(out@) =~= body_split_state(body@, i as int).0);
        }
    }
    let ghost before = out@;
    let last = slice_subrange(body, start, len);
    out.push(last);
    proof {
        assert(body@.subrange(start as int, len as int) =~= body_split_state(body@, len as int).1);
        assert(lines(out@) =~= lines(before).push(last@));
        assert(lines(out@) =~= body_lines(body@));
    }
    out
}

/// A node of the edit graph: a point `(x, y)`, or the root before `(0, 0)`.
#[derive(Clone, Copy)]
enum Node {
    N(usize, usize),
    Root,
}

/// The hash key of the point `(x, y)`.
spec fn key_of(x: usize, y: usize) -> u128 {
    (x as int * 0x1_0000_0000_0000_0000 + y as int) as u128
}

proof fn lemma_key_injective(x1: usize, y1: usize, x2: usize, y2: usize)
    ensures
        key_of(x1, y1) == key_of(x2, y2) ==> x1 == x2 && y1 == y2,
{
    assert((x1 as int) * 0x1_0000_0000_0000_0000 + (y1 as int) < 0x1_0000_0000_0000_0000_0000_0000_0000_0000)
        by (nonlinear_arith)
        requires
            x1 < 0x1_0000_0000_0000_0000,
            y1 < 0x1_0000_0000_0000_0000,
    ;
    assert((x2 as int) * 0x1_0000_0000_0000_0000 + (y2 as int) < 0x1_0000_0000_0000_0000_0000_0000_0000_0000)
        by (nonlinear_arith)
        requires
            x2 < 0x1_0000_0000_0000_0000,
            y2 < 0x1_0000_0000_0000_0000,
    ;
    if key_of(x1, y1) == key_of(x2, y2) {
        assert(x1 == x2 && y1 == y2) by (nonlinear_arith)
            requires
                x1 as int * 0x1_0000_0000_0000_0000 + y1 as int == x2 as int * 0x1_0000_0000_0000_0000
                    + y2 as int,
                y1 < 0x1_0000_0000_0000_0000,
                y2 < 0x1_0000_0000_0000_0000,
        ;
    }
}

fn node_key(x: usize, y: usize) -> (k: u128)
    ensures
        k == key_of(x, y),
{
    proof {
        lemma_key_injective(x, y, x, y);
    }
    x as u128 * 0x1_0000_0000_0000_0000 + y as u128
}

/// The point `(x, y)` has a recorded parent.
spec fn recorded(m: Map<u128, Node>, x: usize, y: usize) -> bool {
    m.contains_key(key_of(x, y))
}

/// One step of the edit graph from `(px, py)` to `(x, y)`.
spec fn step_ok(px: int, py: int, x: int, y: int, a: Seq<Seq<u8>>, b: Seq<Seq<u8>>) -> bool {
    ||| px == x && py + 1 == y
    ||| px + 1 == x && py == y
    ||| px + 1 == x && py + 1 == y && a[px] == b[py]
}

/// Every point of the grid recorded in the map has a recorded parent one
/// step before it, and only the origin hangs off the root.
spec fn parents_ok(m: Map<u128, Node>, a: Seq<Seq<u8>>, b: Seq<Seq<u8>>) -> bool {
    forall|x: usize, y: usize|
        #![trigger recorded(m, x, y)]
        x <= a.len() && y <= b.len() && recorded(m, x, y) ==> match m[key_of(x, y)] {
            Node::Root => x == 0 && y == 0,
            Node::N(px, py) => m.contains_key(key_of(px, py)) && step_ok(
                px as int,
                py as int,
                x as int,
                y as int,
                a,
                b,
            ),
        }
}

/// Every point of the grid recorded in the map hangs off the root or its
/// diagonal predecessor.
spec fn diagonal_only(m: Map<u128, Node>, a: Seq<Seq<u8>>, b: Seq<Seq<u8>>) -> bool {
    forall|x: usize, y: usize|
        #![trigger recorded(m, x, y)]
        x <= a.len() && y <= b.len() && recorded(m, x, y) ==> match m[key_of(x, y)] {
            Node::Root => true,
            Node::N(px, py) => px + 1 == x && py + 1 == y,
        }
}

/// The point stored for diagonal `k` after step `d` is valid.
spec fn point_ok(m: Map<u128, Node>, x: usize, k: int, bound: int, n: int, mm: int, d: int) -> bool {
    &&& x + bound >= k
    &&& x <= n + d
    &&& x + bound - k <= mm + d
    &&& x + bound - k < 0x1_0000_0000_0000_0000
    &&& m.contains_key(key_of(x, (x + bound - k) as usize))
}

/// The point stored for the `i`-th diagonal visited at step `d` is valid.
spec fn diagonal_ok(m: Map<u128, Node>, v: Seq<usize>, bound: int, n: int, mm: int, d: int, i: int) -> bool {
    point_ok(m, v[bound - d + 2 * i], bound - d + 2 * i, bound, n, mm, d)
}

/// Extracts the x and y coordinate of a node.
fn get_coordinates(node: Node) -> (r: (usize, usize))
    ensures
        node is Root ==> r == (0usize, 0usize),
        node matches Node::N(x, y) ==> r == (x, y),
{
    match node {
        Node::Root => (0, 0),
        Node::N(x, y) => (x, y),
    }
}

/// Byte-wise equality of two lines.
pub fn lines_equal(a: &[u8], b: &[u8]) -> (r: bool)
    ensures
        r == (a@ == b@),
{
    if a.len() != b.len() {
        return false;
    }
    let mut i: usize = 0;
    while i < a.len()
        invariant
            a@.len() == b@.len(),
            i <= a@.len(),
            forall|j: int| 0 <= j < i ==> a@[j] == b@[j],
        decreases a@.len() - i,
    {
        if a[i] != b[i] {
            return false;
        }
        i += 1;
    }
    assert(a@ =~= b@);
    true
}

/// Records `parent` as the parent of `(x, y)`.
fn record(
    nodes: &mut HashMap<u128, Node>,
    x: usize,
    y: usize,
    parent: Node,
    Ghost(a): Ghost<Seq<Seq<u8>>>,
    Ghost(b): Ghost<Seq<Seq<u8>>>,
)
    requires
        parents_ok(old(nodes)@, a, b),
        x <= a.len() && y <= b.len() ==> match parent {
            Node::Root => x == 0 && y == 0,
            Node::N(px, py) => old(nodes)@.contains_key(key_of(px, py)) && step_ok(
                px as int,
                py as int,
                x as int,
                y as int,
                a,
                b,
            ),
        },
    ensures
        final(nodes)@ == old(nodes)@.insert(key_of(x, y), parent),
        parents_ok(final(nodes)@, a, b),
        diagonal_only(old(nodes)@, a, b) && (parent is Root || parent == Node::N(
            (x - 1) as usize,
            (y - 1) as usize,
        ) && x > 0 && y > 0) ==> diagonal_only(final(nodes)@, a, b),
{
    let ghost before = nodes@;
    nodes.insert(node_key(x, y), parent);
    proof {
        assert forall|xx: usize, yy: usize|
            #![trigger recorded(nodes@, xx, yy)]
            xx <= a.len() && yy <= b.len() && recorded(nodes@, xx, yy) implies match nodes@[key_of(xx, yy)] {
                Node::Root => xx == 0 && yy == 0,
                Node::N(px, py) => nodes@.contains_key(key_of(px, py)) && step_ok(
                    px as int,
                    py as int,
                    xx as int,
                    yy as int,
                    a,
                    b,
                ),
            } by {
            lemma_key_injective(xx, yy, x, y);
            if key_of(xx, yy) != key_of(x, y) {
                assert(recorded(before, xx, yy));
            }
        }
        if diagonal_only(before, a, b) && (parent is Root || parent == Node::N(
            (x - 1) as usize,
            (y - 1) as usize,
        ) && x > 0 && y > 0) {
            assert forall|xx: usize, yy: usize|
                #![trigger recorded(nodes@, xx, yy)]
                xx <= a.len() && yy <= b.len() && recorded(nodes@, xx, yy) implies match nodes@[key_of(xx, yy)] {
                    Node::Root => true,
                    Node::N(px, py) => px + 1 == xx && py + 1 == yy,
                } by {
                lemma_key_injective(xx, yy, x, y);
                if key_of(xx, yy) != key_of(x, y) {
                    assert(recorded(before, xx, yy));
                }
            }
        }
    }
}

/// Follows the diagonal from `(x, y)` while the lines match, recording each
/// step; returns the last point reached.
fn slide(
    a_lines: &[&[u8]],
    b_lines: &[&[u8]],
    nodes: &mut HashMap<u128, Node>,
    x0: usize,
    y0: usize,
    Ghost(a): Ghost<Seq<Seq<u8>>>,
    Ghost(b): Ghost<Seq<Seq<u8>>>,
) -> (r: (usize, usize))
    requires
        a == lines(a_lines@),
        b == lines(b_lines@),
        parents_ok(old(nodes)@, a, b),
        old(nodes)@.contains_key(key_of(x0, y0)),
    ensures
        parents_ok(final(nodes)@, a, b),
        final(nodes)@.contains_key(key_of(r.0, r.1)),
        forall|key: u128| #[trigger] old(nodes)@.contains_key(key) ==> final(nodes)@.contains_key(key),
        r.0 >= x0,
        r.0 - x0 == r.1 - y0,
        r.0 == x0 || (r.0 <= a.len() && r.1 <= b.len()),
        diagonal_only(old(nodes)@, a, b) ==> diagonal_only(final(nodes)@, a, b),
        a == b && x0 == y0 && x0 <= a.len() ==> r.0 == a.len() && r.1 == a.len(),
{
    let n = a_lines.len();
    let m = b_lines.len();
    let mut x = x0;
    let mut y = y0;
    while x < n && y < m && lines_equal(a_lines[x], b_lines[y])
        invariant
            n == a_lines@.len(),
            m == b_lines@.len(),
            a == lines(a_lines@),
            b == lines(b_lines@),
            x0 <= x,
            x - x0 == y - y0,
            x == x0 || (x <= n && y <= m),
            parents_ok(nodes@, a, b),
            nodes@.contains_key(key_of(x, y)),
            forall|key: u128| #[trigger] old(nodes)@.contains_key(key) ==> nodes@.contains_key(key),
            diagonal_only(old(nodes)@, a, b) ==> diagonal_only(nodes@, a, b),
            a == b && x0 == y0 && x0 <= n ==> x == y && x <= n,
        decreases n - x,
    {
        proof {
            assert(a[x as int] == a_lines@[x as int]@);
            assert(b[y as int] == b_lines@[y as int]@);
        }
        record(nodes, x + 1, y + 1, Node::N(x, y), Ghost(a), Ghost(b));
        x += 1;
        y += 1;
    }
    proof {
        if a == b && x0 == y0 && x0 <= n && x < n {
            assert(a[x as int] == a_lines@[x as int]@);
            assert(b[y as int] == b_lines@[y as int]@);
        }
    }
    (x, y)
}

/// Visits diagonal `k` at step `d`: picks the better of the two neighbouring
/// diagonals of step `d - 1`, records the move, slides down the diagonal and
/// stores the furthest point reached in `v[k]`.
#[verifier::rlimit(100)]
fn visit(
    a_lines: &[&[u8]],
    b_lines: &[&[u8]],
    v: &mut Vec<usize>,
    nodes: &mut HashMap<u128, Node>,
    k: usize,
    d: usize,
    Ghost(ik): Ghost<int>,
    Ghost(a): Ghost<Seq<Seq<u8>>>,
    Ghost(b): Ghost<Seq<Seq<u8>>>,
) -> (r: (usize, usize))
    requires
        a == lines(a_lines@),
        b == lines(b_lines@),
        a_lines@.len() + b_lines@.len() < usize::MAX / 4,
        old(v)@.len() == 2 * (a_lines@.len() + b_lines@.len()) + 1,
        d <= a_lines@.len() + b_lines@.len(),
        0 <= ik <= d,
        k == a_lines@.len() + b_lines@.len() - d + 2 * ik,
        parents_ok(old(nodes)@, a, b),
        forall|i: int|
            0 <= i < d ==> #[trigger] diagonal_ok(
                old(nodes)@,
                old(v)@,
                (a_lines@.len() + b_lines@.len()) as int,
                a_lines@.len() as int,
                b_lines@.len() as int,
                d - 1,
                i,
            ),
    ensures
        parents_ok(final(nodes)@, a, b),
        final(v)@ == old(v)@.update(k as int, r.0),
        forall|key: u128| #[trigger] old(nodes)@.contains_key(key) ==> final(nodes)@.contains_key(key),
        point_ok(
            final(nodes)@,
            r.0,
            k as int,
            (a_lines@.len() + b_lines@.len()) as int,
            a_lines@.len() as int,
            b_lines@.len() as int,
            d as int,
        ),
        r.1 == r.0 + a_lines@.len() + b_lines@.len() - k,
        d == 0 && diagonal_only(old(nodes)@, a, b) ==> diagonal_only(final(nodes)@, a, b),
        d == 0 && a == b ==> r.0 == a.len() && r.1 == a.len(),
{
    let n = a_lines.len();
    let m = b_lines.len();
    let bound = n + m;
    proof {
        if d > 0 && ik < d {
            assert(diagonal_ok(nodes@, v@, bound as int, n as int, m as int, d - 1, ik));
        }
        if d > 0 && ik > 0 {
            assert(diagonal_ok(nodes@, v@, bound as int, n as int, m as int, d - 1, ik - 1));
        }
    }
    let (x, parent) = if d == 0 {
        // Initial state
        (0, Node::Root)
    } else if k == bound - d || (k != bound + d && v[k - 1] < v[k + 1]) {
        // Move downward
        let px = v[k + 1];
        (px, Node::N(px, px + bound - (k + 1)))
    } else {
        // Move rightward
        let px = v[k - 1];
        (px + 1, Node::N(px, px + bound - (k - 1)))
    };
    let y = x + bound - k;
    let ghost before = nodes@;
    record(nodes, x, y, parent, Ghost(a), Ghost(b));
    let ghost mid = nodes@;
    // Take as much diagonals as possible
    let (x, y) = slide(a_lines, b_lines, nodes, x, y, Ghost(a), Ghost(b));
    v.set(k, x);
    proof {
        assert forall|key: u128| #[trigger] before.contains_key(key) implies nodes@.contains_key(key) by {
            assert(mid.contains_key(key));
        }
    }
    (x, y)
}

/// Returns the shortest edit script (or diff) between two slices of byte
/// slices, by Myers's greedy search with parent-pointer backtracking.
///
/// Proved: the result turns `old` into `new` (each `Keep` and `Delete`
/// consumes the next line of `old`, each `Keep` and `Insert` produces the
/// next line of `new`), and on equal inputs it keeps every line.
pub fn get_diff<'a>(old: &[&'a [u8]], new: &[&'a [u8]]) -> (diff: Vec<DiffLine<'a>>)
    requires
        old@.len() + new@.len() < usize::MAX / 4,
    ensures
        is_edit_script(edits(diff@), lines(old@), lines(new@)),
        apply(edits(diff@), lines(old@)) == lines(new@),
        count_keep(edits(diff@)) + count_delete(edits(diff@)) == old@.len(),
        count_keep(edits(diff@)) + count_insert(edits(diff@)) == new@.len(),
        lines(old@) == lines(new@) ==> diff@.len() == old@.len() && forall|i: int|
            0 <= i < diff@.len() ==> #[trigger] diff@[i] is Keep,
{
    let ghost a = lines(old@);
    let ghost b = lines(new@);
    let ghost same = a == b;
    let n = old.len();
    let m = new.len();
    let bound = n + m;
    let width = 2 * bound + 1;
    let mut v: Vec<usize> = Vec::new();
    while v.len() < width
        invariant
            v@.len() <= width,
        decreases width - v@.len(),
    {
        v.push(0);
    }
    let mut nodes: HashMap<u128, Node> = HashMap::new();
    let mut done = false;
    let mut d: usize = 0;

    // Forward pass
    while d <= bound && !done
        invariant
            n == old@.len(),
            m == new@.len(),
            a == lines(old@),
            b == lines(new@),
            same == (a == b),
            bound == n + m,
            bound < usize::MAX / 4,
            v@.len() == 2 * bound + 1,
            d <= bound + 1,
            parents_ok(nodes@, a, b),
            !done ==> forall|i: int|
                0 <= i < d ==> #[trigger] diagonal_ok(nodes@, v@, bound as int, n as int, m as int, d - 1, i),
            same ==> diagonal_only(nodes@, a, b),
            same ==> d == 0 || done,
            same && done ==> nodes@.contains_key(key_of(n, m)),
        decreases bound + 1 - d,
    {
        let mut k = bound - d;
        let ghost mut ik: int = 0;
        while k <= bound + d && !done
            invariant
                n == old@.len(),
                m == new@.len(),
                a == lines(old@),
                b == lines(new@),
                same == (a == b),
                bound == n + m,
                bound < usize::MAX / 4,
                v@.len() == 2 * bound + 1,
                d <= bound,
                0 <= ik <= d + 1,
                k == bound - d + 2 * ik,
                parents_ok(nodes@, a, b),
                forall|i: int|
                    0 <= i < d ==> #[trigger] diagonal_ok(nodes@, v@, bound as int, n as int, m as int, d - 1, i),
                forall|i: int|
                    0 <= i < ik ==> #[trigger] diagonal_ok(nodes@, v@, bound as int, n as int, m as int, d as int, i),
                same ==> diagonal_only(nodes@, a, b),
                same ==> d == 0,
                same ==> k == bound || done,
                same && done ==> nodes@.contains_key(key_of(n, m)),
            decreases bound + d + 2 - k,
        {
            let ghost v_before = v@;
            let ghost nodes_before = nodes@;
            let (x, y) = visit(old, new, &mut v, &mut nodes, k, d, Ghost(ik), Ghost(a), Ghost(b));
            if x >= n && y >= m {
                // Done
                done = true;
            }
            proof {
                assert forall|i: int| 0 <= i < d implies #[trigger] diagonal_ok(
                    nodes@,
                    v@,
                    bound as int,
                    n as int,
                    m as int,
                    d - 1,
                    i,
                ) by {
                    assert(diagonal_ok(nodes_before, v_before, bound as int, n as int, m as int, d - 1, i));
                    let kk = bound - (d - 1) + 2 * i;
                    assert(v@[kk] == v_before[kk]);
                    assert(nodes_before.contains_key(key_of(v@[kk], (v@[kk] + bound - kk) as usize)));
                }
                assert forall|i: int| 0 <= i < ik + 1 implies #[trigger] diagonal_ok(
                    nodes@,
                    v@,
                    bound as int,
                    n as int,
                    m as int,
                    d as int,
                    i,
                ) by {
                    if i < ik {
                        assert(diagonal_ok(nodes_before, v_before, bound as int, n as int, m as int, d as int, i));
                        let kk = bound - d + 2 * i;
                        assert(v@[kk] == v_before[kk]);
                        assert(nodes_before.contains_key(key_of(v@[kk], (v@[kk] + bound - kk) as usize)));
                    }
                }
                ik = ik + 1;
            }
            k = k + 2;
        }
        d += 1;
    }

    // Backtrack from (n, m) along the recorded parents. The forward pass
    // stops on the first point with x >= n and y >= m, which is (n, m) in
    // Myers's analysis; that fact is not proved here, so should (n, m) have
    // no recorded parent the walk takes plain insertions, then deletions,
    // and the result is still an edit script from `old` to `new`.
    let ghost mut script: Seq<Edit> = Seq::empty();
    let mut rev: Vec<DiffLine<'a>> = Vec::new();
    let mut cx = n;
    let mut cy = m;
    let tracked_path = nodes.contains_key(&node_key(n, m));
    while cx > 0 || cy > 0
        invariant
            n == old@.len(),
            m == new@.len(),
            a == lines(old@),
            b == lines(new@),
            same == (a == b),
            cx <= n,
            cy <= m,
            transforms(script, a, b, cx as int, cy as int),
            parents_ok(nodes@, a, b),
            tracked_path ==> recorded(nodes@, cx, cy),
            rev@.len() == script.len(),
            forall|j: int| 0 <= j < rev@.len() ==> (#[trigger] rev@[j])@ == script[script.len() - 1 - j],
            same ==> tracked_path && diagonal_only(nodes@, a, b),
            same ==> forall|j: int| 0 <= j < script.len() ==> #[trigger] script[j] is Keep,
        decreases cx + cy,
    {
        let (px, py) = if tracked_path {
            match nodes.get(&node_key(cx, cy)) {
                Some(node) => {
                    let previous = *node;
                    proof {
                        if previous is Root {
                            assert(false);
                        }
                    }
                    get_coordinates(previous)
                },
                None => {
                    proof {
                        assert(false);
                    }
                    (0, 0)
                },
            }
        } else if cy > 0 {
            (cx, cy - 1)
        } else {
            (cx - 1, cy)
        };
        proof {
            if tracked_path {
                lemma_key_injective(px, py, px, py);
                assert(recorded(nodes@, px, py));
            }
        }
        let line = if px == cx {
            DiffLine::Insert(new[py])
        } else if py == cy {
            DiffLine::Delete(old[px])
        } else {
            DiffLine::Keep(old[px])
        };
        proof {
            let s2 = seq![line@] + script;
            assert(s2.drop_first() =~= script);
            if px < n {
                assert(a[px as int] == old@[px as int]@);
            }
            if py < m {
                assert(b[py as int] == new@[py as int]@);
            }
            assert(transforms(s2, a, b, px as int, py as int));
            assert forall|j: int| 0 <= j < rev@.len() + 1 implies (#[trigger] rev@.push(line)[j])@
                == s2[s2.len() - 1 - j] by {
                if j < rev@.len() {
                    assert(rev@.push(line)[j] == rev@[j]);
                }
            }
            script = s2;
        }
        rev.push(line);
        cx = px;
        cy = py;
    }

    let mut diff: Vec<DiffLine<'a>> = Vec::new();
    let mut i = rev.len();
    while i > 0
        invariant
            i <= rev@.len(),
            rev@.len() == script.len(),
            forall|j: int| 0 <= j < rev@.len() ==> (#[trigger] rev@[j])@ == script[script.len() - 1 - j],
            diff@.len() == rev@.len() - i,
            forall|j: int| 0 <= j < diff@.len() ==> (#[trigger] diff@[j])@ == script[j],
        decreases i,
    {
        i -= 1;
        diff.push(rev[i]);
    }
    proof {
        assert(edits(diff@) =~= script);
        lemma_script_applies(script, a, b, 0, 0);
        lemma_script_counts(script, a, b, 0, 0);
        assert(a.subrange(0, a.len() as int) =~= a);
        assert(b.subrange(0, b.len() as int) =~= b);
        if same {
            assert forall|i: int| 0 <= i < diff@.len() implies #[trigger] diff@[i] is Keep by {
                assert(edits(diff@)[i] is Keep);
            }
            lemma_all_keep_counts(script);
        }
    }
    diff
}

proof fn lemma_all_keep_counts(s: Seq<Edit>)
    requires
        forall|j: int| 0 <= j < s.len() ==> #[trigger] s[j] is Keep,
    ensures
        count_keep(s) == s.len(),
        count_delete(s) == 0,
    decreases s.len(),
{
    if s.len() > 0 {
        assert(s[0] is Keep);
        assert forall|j: int| 0 <= j < s.drop_first().len() implies #[trigger] s.drop_first()[j] is Keep by {
            assert(s.drop_first()[j] == s[j + 1]);
        }
        lemma_all_keep_counts(s.drop_first());
    }
}

} // verus!
