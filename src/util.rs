//! Building snapshots from execution results, and snapshot names.

use crate::data::{Snapshot, SnapshotData, SnapshotStatus, opt_str_view, strs_view};
use crate::scanner::is_whitespace;
use vstd::prelude::*;
use vstd::string::*;

verus! {

/// What running a command gave back.
#[derive(Debug, PartialEq, Eq, Clone)]
pub struct ExecOutput {
    /// Absent when the process was terminated by a signal.
    pub exit_code: Option<i32>,
    pub stdout: Vec<u8>,
    pub stderr: Vec<u8>,
}

pub open spec fn is_ascii_alphanumeric(c: char) -> bool {
    ('a' <= c <= 'z') || ('A' <= c <= 'Z') || ('0' <= c <= '9')
}

/// Relies on rand's `Alphanumeric` distribution (`DistString::sample_string`):
/// `len` characters, each an ASCII letter or digit.
#[verifier::external_body]
fn random_alphanumeric(len: usize) -> (r: String)
    ensures
        r@.len() == len,
        forall|i: int| 0 <= i < len ==> is_ascii_alphanumeric(#[trigger] r@[i]),
{
    rand::distributions::DistString::sample_string(
        &rand::distributions::Alphanumeric,
        &mut rand::thread_rng(),
        len,
    )
}

/// The name made of `_` followed by `suffix`.
pub fn prefixed_name(suffix: &str) -> (r: String)
    ensures
        r@ == "_"@ + suffix@,
{
    "_".to_owned().concat(suffix)
}

/// Generates a random name: `_` followed by 30 ASCII letters and digits
/// drawn from the random source.
pub fn get_random_name() -> (r: String)
    ensures
        exists|suffix: Seq<char>|
            #![trigger "_"@ + suffix]
            r@ == "_"@ + suffix && suffix.len() == 30 && forall|i: int|
                0 <= i < 30 ==> is_ascii_alphanumeric(#[trigger] suffix[i]),
{
    let suffix = random_alphanumeric(30);
    let r = prefixed_name(suffix.as_str());
    assert(r@ == "_"@ + suffix@);
    r
}

/// A body reference for a non-empty body, at `path` followed by
/// `path_extension`.
pub fn to_snapshot_data(body: Vec<u8>, path: &str, path_extension: &str) -> (r: Option<SnapshotData>)
    ensures
        body@.len() == 0 ==> r is None,
        body@.len() > 0 ==> (r matches Some(d) && d.body@ == body@ && d.path@ == path@ + path_extension@),
{
    if body.len() > 0 {
        let path = path.to_owned().concat(path_extension);
        Some(SnapshotData { body, path })
    } else {
        None
    }
}

/// Creates a snapshot out of an execution result.
pub fn to_snapshot(
    name: String,
    description: Option<String>,
    tags: Vec<String>,
    cmd: String,
    snap: ExecOutput,
) -> (r: Snapshot)
    ensures
        r.name@ == name@,
        r.cmd@ == cmd@,
        r.description == description,
        r.tags == tags,
        r.exit_code == snap.exit_code,
        snap.stdout@.len() == 0 ==> r.stdout is None,
        snap.stdout@.len() > 0 ==> (r.stdout matches Some(d) && d.body@ == snap.stdout@ && d.path@
            == name@ + ".out"@),
        snap.stderr@.len() == 0 ==> r.stderr is None,
        snap.stderr@.len() > 0 ==> (r.stderr matches Some(d) && d.body@ == snap.stderr@ && d.path@
            == name@ + ".err"@),
        r.status == SnapshotStatus::Waiting,
        !r.deleted,
{
    let exit_code = snap.exit_code;
    let stdout = to_snapshot_data(snap.stdout, name.as_str(), ".out");
    let stderr = to_snapshot_data(snap.stderr, name.as_str(), ".err");
    Snapshot {
        cmd,
        name,
        description,
        tags,
        exit_code,
        stdout,
        stderr,
        status: SnapshotStatus::Waiting,
        deleted: false,
    }
}

/// The first position at or after `i` whose character is not white space.
pub open spec fn trim_start_at(s: Seq<char>, i: int) -> int
    decreases s.len() - i,
{
    if 0 <= i < s.len() && is_whitespace(s[i]) {
        trim_start_at(s, i + 1)
    } else {
        i
    }
}

/// The position after the last character before `j` that is not white
/// space, or `lo` if there is none from `lo` on.
pub open spec fn trim_end_at(s: Seq<char>, lo: int, j: int) -> int
    decreases j - lo,
{
    if lo < j && is_whitespace(s[j - 1]) {
        trim_end_at(s, lo, j - 1)
    } else {
        j
    }
}

/// `s` without leading and trailing white space.
pub open spec fn trimmed(s: Seq<char>) -> Seq<char> {
    let a = trim_start_at(s, 0);
    s.subrange(a, trim_end_at(s, a, s.len() as int))
}

/// `s` with each space and tab replaced by `_`.
pub open spec fn underscored(s: Seq<char>) -> Seq<char> {
    s.map_values(|c: char| if c == ' ' || c == '\t' { '_' } else { c })
}

/// Bounds of `s` without its leading and trailing white space.
pub fn trim_bounds(s: &str, len: usize) -> (r: (usize, usize))
    requires
        len == s@.len(),
    ensures
        r.0 == trim_start_at(s@, 0),
        r.1 == trim_end_at(s@, r.0 as int, len as int),
        r.0 <= r.1 <= len,
{
    let mut a: usize = 0;
    while a < len && crate::scanner::is_whitespace_char(s.get_char(a))
        invariant
            len == s@.len(),
            a <= len,
            trim_start_at(s@, 0) == trim_start_at(s@, a as int),
        decreases len - a,
    {
        a += 1;
    }
    let mut b: usize = len;
    while b > a && crate::scanner::is_whitespace_char(s.get_char(b - 1))
        invariant
            len == s@.len(),
            a <= b <= len,
            trim_end_at(s@, a as int, len as int) == trim_end_at(s@, a as int, b as int),
        decreases b,
    {
        b -= 1;
    }
    (a, b)
}

/// `s` without leading and trailing white space.
pub fn trim(s: &str) -> (r: &str)
    ensures
        r@ == trimmed(s@),
{
    let len = s.unicode_len();
    let (a, b) = trim_bounds(s, len);
    s.substring_char(a, b)
}

/// Normalizes a string for use as a file name: trimmed, with spaces and
/// tabs turned into underscores.
pub fn normalize_name(name: &str) -> (r: String)
    ensures
        r@ == underscored(trimmed(name@)),
{
    let t = trim(name);
    let len = t.unicode_len();
    let mut out = String::new();
    let mut i: usize = 0;
    while i < len
        invariant
            len == t@.len(),
            t@ == trimmed(name@),
            i <= len,
            out@ == underscored(t@.subrange(0, i as int)),
        decreases len - i,
    {
        let c = t.get_char(i);
        if c == ' ' || c == '\t' {
            out.append("_");
        } else {
            out.append(t.substring_char(i, i + 1));
        }
        proof {
            reveal_strlit("_");
            assert(underscored(t@.subrange(0, i + 1)) =~= underscored(t@.subrange(0, i as int))
                + seq![if c == ' ' || c == '\t' { '_' } else { c }]);
        }
        i += 1;
    }
    proof {
        assert(t@.subrange(0, len as int) =~= t@);
    }
    out
}

} // verus!
