use parrot::diff::{get_diff, split_body, DiffLine};

#[test]
fn test_diff() {
    let old = vec![
        &[b'a'][..],
        &[b'b'],
        &[b'c'],
        &[b'a'],
        &[b'b'],
        &[b'b'],
        &[b'a'],
    ];
    let new = vec![&[b'c'][..], &[b'b'], &[b'a'], &[b'b'], &[b'a'], &[b'c']];
    let diff = get_diff(&old[..], &new[..]);
    let expected_diff = vec![
        DiffLine::Delete(old[0]),
        DiffLine::Delete(old[1]),
        DiffLine::Keep(old[2]),
        DiffLine::Insert(new[1]),
        DiffLine::Keep(old[3]),
        DiffLine::Keep(old[4]),
        DiffLine::Delete(old[5]),
        DiffLine::Keep(old[6]),
        DiffLine::Insert(new[5]),
    ];
    assert_eq!(diff, expected_diff);
}

fn apply<'a>(diff: &[DiffLine<'a>], old: &[&'a [u8]]) -> Vec<&'a [u8]> {
    let mut out = Vec::new();
    let mut i = 0;
    for line in diff {
        match line {
            DiffLine::Keep(l) => {
                assert_eq!(*l, old[i]);
                out.push(old[i]);
                i += 1;
            }
            DiffLine::Delete(l) => {
                assert_eq!(*l, old[i]);
                i += 1;
            }
            DiffLine::Insert(l) => out.push(*l),
        }
    }
    assert_eq!(i, old.len());
    out
}

#[test]
fn diff_applies_to_old_gives_new() {
    let old: Vec<&[u8]> = vec![b"x", b"hello", b"world", b"", b"tail"];
    let new: Vec<&[u8]> = vec![b"hello", b"there", b"world", b"tail", b"end"];
    let diff = get_diff(&old, &new);
    assert_eq!(apply(&diff, &old), new);
}

#[test]
fn diff_of_equal_inputs_keeps_every_line() {
    let old: Vec<&[u8]> = vec![b"a", b"b", b"a", b""];
    let diff = get_diff(&old, &old.clone());
    assert_eq!(diff.len(), old.len());
    for (i, line) in diff.iter().enumerate() {
        assert_eq!(*line, DiffLine::Keep(old[i]));
    }
}

#[test]
fn diff_line_counts() {
    let old: Vec<&[u8]> = vec![b"1", b"2", b"3", b"4"];
    let new: Vec<&[u8]> = vec![b"2", b"5", b"4", b"6", b"7"];
    let diff = get_diff(&old, &new);
    let keep = diff.iter().filter(|l| matches!(l, DiffLine::Keep(_))).count();
    let delete = diff.iter().filter(|l| matches!(l, DiffLine::Delete(_))).count();
    let insert = diff.iter().filter(|l| matches!(l, DiffLine::Insert(_))).count();
    assert_eq!(keep + delete, old.len());
    assert_eq!(keep + insert, new.len());
    assert_eq!(keep, 2);
}

#[test]
fn diff_with_empty_sides() {
    let some: Vec<&[u8]> = vec![b"a", b"b"];
    let none: Vec<&[u8]> = vec![];
    assert_eq!(get_diff(&none, &none), vec![]);
    assert_eq!(
        get_diff(&some, &none),
        vec![DiffLine::Delete(b"a"), DiffLine::Delete(b"b")]
    );
    assert_eq!(
        get_diff(&none, &some),
        vec![DiffLine::Insert(b"a"), DiffLine::Insert(b"b")]
    );
}

#[test]
fn diff_of_changed_body_marks_both_lines() {
    let old_body: &[u8] = b"hi\n";
    let new_body: &[u8] = b"HI\n";
    let old: Vec<&[u8]> = old_body.split(|b| *b == b'\n').collect();
    let new: Vec<&[u8]> = new_body.split(|b| *b == b'\n').collect();
    let diff = get_diff(&old, &new);
    assert_eq!(
        diff,
        vec![DiffLine::Delete(b"hi"), DiffLine::Insert(b"HI"), DiffLine::Keep(b"")]
    );
}

fn lcs(a: &[&[u8]], b: &[&[u8]]) -> usize {
    let mut t = vec![vec![0usize; b.len() + 1]; a.len() + 1];
    for i in (0..a.len()).rev() {
        for j in (0..b.len()).rev() {
            t[i][j] = if a[i] == b[j] {
                t[i + 1][j + 1] + 1
            } else {
                t[i + 1][j].max(t[i][j + 1])
            };
        }
    }
    t[0][0]
}

fn all_sequences(max_len: usize) -> Vec<Vec<&'static [u8]>> {
    let mut out: Vec<Vec<&'static [u8]>> = vec![vec![]];
    let mut frontier: Vec<Vec<&'static [u8]>> = vec![vec![]];
    for _ in 0..max_len {
        let mut next = Vec::new();
        for s in &frontier {
            for sym in [&b"a"[..], &b"b"[..]] {
                let mut t = s.clone();
                t.push(sym);
                next.push(t);
            }
        }
        out.extend(next.iter().cloned());
        frontier = next;
    }
    out
}

#[test]
fn diff_is_a_shortest_script_on_small_inputs() {
    let seqs = all_sequences(5);
    for old in &seqs {
        for new in &seqs {
            let diff = get_diff(old, new);
            assert_eq!(apply(&diff, old), *new);
            let keep = diff.iter().filter(|l| matches!(l, DiffLine::Keep(_))).count();
            assert_eq!(keep, lcs(old, new));
        }
    }
}

#[test]
fn split_body_keeps_trailing_empty_line() {
    let lines: Vec<&[u8]> = vec![b"hi", b""];
    assert_eq!(split_body(b"hi\n"), lines);
    let empty: Vec<&[u8]> = vec![b""];
    assert_eq!(split_body(b""), empty);
    let three: Vec<&[u8]> = vec![b"a", b"", b"b"];
    assert_eq!(split_body(b"a\n\nb"), three);
}
