//! The description file handed to the user's editor: its template, and how
//! the edited text is read back into a name, a description and tags.

use crate::data::strs_view;
use crate::parser::ident_end;
use crate::text::occurs_at;
use crate::util::{trim, trimmed};
use vstd::prelude::*;
use vstd::string::*;

verus! {

/// Hints written below the name and description.
pub const EDITOR_HINTS: &'static str = "// The first line will be used as snapshot name, the following as description.\n// If the first line is blank, a random name will be used.\n// Hashtags in the description (#example) will serve as tags for the snapshot.\n// Characters after '//' are ignored.\n//\n// Test command: ";

/// The pattern of a tag in a description.
pub const TAG_PATTERN: &'static str = "#[a-zA-Z0-9_-]+";

/// What the user wrote in the description file.
#[derive(Debug, PartialEq, Eq, Clone)]
pub struct EditResult {
    pub name: Option<String>,
    pub description: Option<String>,
    pub tags: Vec<String>,
}

/// The content of the description file for a snapshot.
pub fn edit_template(name: &str, description: &str, cmd: &str) -> (r: String)
    ensures
        r@ == name@ + "\n"@ + description@ + "\n\n"@ + EDITOR_HINTS@ + cmd@,
{
    name.to_owned().concat("\n").concat(description).concat("\n\n").concat(EDITOR_HINTS).concat(cmd)
}

/// The lines of `s` before position `i`, split on `\n`: the lines ended so
/// far and the line in progress.
pub open spec fn split_state(s: Seq<char>, i: int) -> (Seq<Seq<char>>, Seq<char>)
    decreases i,
{
    if i <= 0 {
        (Seq::empty(), Seq::empty())
    } else {
        let (done, cur) = split_state(s, i - 1);
        if s[i - 1] == '\n' {
            (done.push(cur), Seq::empty())
        } else {
            (done, cur.push(s[i - 1]))
        }
    }
}

/// `s` split on `\n` (a trailing empty line is kept).
pub open spec fn split_lines(s: Seq<char>) -> Seq<Seq<char>> {
    let (done, cur) = split_state(s, s.len() as int);
    done.push(cur)
}

/// The first position at or after `i` where `//` starts, if any.
pub open spec fn comment_from(line: Seq<char>, i: int) -> Option<int>
    decreases line.len() - i,
{
    if i < 0 || i + 2 > line.len() {
        None
    } else if occurs_at(line, i, "//"@) {
        Some(i)
    } else {
        comment_from(line, i + 1)
    }
}

/// The line up to its comment.
pub open spec fn uncommented(line: Seq<char>) -> Seq<char> {
    match comment_from(line, 0) {
        Some(p) => line.subrange(0, p),
        None => line,
    }
}

pub open spec fn has_comment(line: Seq<char>) -> bool {
    comment_from(line, 0) is Some
}

/// A line that holds nothing but a comment.
pub open spec fn comment_only(l: Seq<char>) -> bool {
    has_comment(l) && trimmed(uncommented(l)).len() == 0
}

/// Reads one more line: while no name was read, comment-only lines are
/// skipped and the first other line gives the name; after it, each line
/// adds its text up to the comment and a line break to the description,
/// except lines that held only a comment. The state is: name still to
/// read, name, description.
pub open spec fn read_step(st: (bool, Seq<char>, Seq<char>), l: Seq<char>) -> (bool, Seq<char>, Seq<char>) {
    let (title, name, desc) = st;
    if title {
        if comment_only(l) {
            st
        } else {
            (false, trimmed(uncommented(l)), desc)
        }
    } else if uncommented(l).len() > 0 || !has_comment(l) {
        (false, name, desc + uncommented(l) + "\n"@)
    } else {
        st
    }
}

/// The state after reading `lines[..k]`.
pub open spec fn read_lines(lines: Seq<Seq<char>>, k: int) -> (bool, Seq<char>, Seq<char>)
    decreases k,
{
    if k <= 0 {
        (true, Seq::empty(), Seq::empty())
    } else {
        read_step(read_lines(lines, k - 1), lines[k - 1])
    }
}

proof fn lemma_read_lines_push(lines: Seq<Seq<char>>, l: Seq<char>, k: int)
    requires
        0 <= k <= lines.len(),
    ensures
        read_lines(lines.push(l), k) == read_lines(lines, k),
    decreases k,
{
    if k > 0 {
        lemma_read_lines_push(lines, l, k - 1);
        assert(lines.push(l)[k - 1] == lines[k - 1]);
    }
}

/// The name: the first line that is not only a comment, up to its comment
/// and trimmed.
pub open spec fn edited_name(content: Seq<char>) -> Seq<char> {
    let lines = split_lines(content);
    read_lines(lines, lines.len() as int).1
}

/// The description: the lines below the name, trimmed.
pub open spec fn edited_description(content: Seq<char>) -> Seq<char> {
    let lines = split_lines(content);
    trimmed(read_lines(lines, lines.len() as int).2)
}

/// The matches of `#[a-zA-Z0-9_-]+` in `s` from `i` on, leftmost first and
/// without overlap.
pub open spec fn hashtags_from(s: Seq<char>, i: int) -> Seq<Seq<char>>
    decreases s.len() - i,
{
    if i < 0 || i >= s.len() {
        Seq::empty()
    } else if s[i] == '#' && i + 1 < ident_end(s, i + 1) <= s.len() {
        seq![s.subrange(i, ident_end(s, i + 1))] + hashtags_from(s, ident_end(s, i + 1))
    } else {
        hashtags_from(s, i + 1)
    }
}

/// The tags of a description: its hashtags without the `#`.
pub open spec fn tags_of(s: Seq<char>) -> Seq<Seq<char>> {
    hashtags_from(s, 0).map_values(|t: Seq<char>| t.drop_first())
}

/// Relies on regex's `Regex::new` and `Regex::find_iter`: for the pattern
/// `#[a-zA-Z0-9_-]+` (a valid one, so `new` succeeds), the leftmost-first
/// non-overlapping matches, in order.
#[verifier::external_body]
fn find_matches(pattern: &str, haystack: &str) -> (r: Vec<String>)
    requires
        pattern@ == TAG_PATTERN@,
    ensures
        strs_view(r@) == hashtags_from(haystack@, 0),
{
    let re = regex::Regex::new(pattern).unwrap();
    re.find_iter(haystack).map(|m| m.as_str().to_owned()).collect()
}

/// Returns the line stripped from the eventual comment, and whether a
/// comment was found.
pub fn strip_comment(line: &str) -> (r: (&str, bool))
    ensures
        r.0@ == uncommented(line@),
        r.1 == has_comment(line@),
{
    let len = line.unicode_len();
    let mut i: usize = 0;
    while len >= 2 && i <= len - 2
        invariant
            len == line@.len(),
            comment_from(line@, 0) == comment_from(line@, i as int),
        decreases len - i,
    {
        if line.get_char(i) == '/' && line.get_char(i + 1) == '/' {
            proof {
                reveal_strlit("//");
                assert(line@.subrange(i as int, i + 2) =~= "//"@);
            }
            return (line.substring_char(0, i), true);
        }
        proof {
            reveal_strlit("//");
            assert(!occurs_at(line@, i as int, "//"@)) by {
                if occurs_at(line@, i as int, "//"@) {
                    assert(line@.subrange(i as int, i + 2)[0] == line@[i as int]);
                    assert(line@.subrange(i as int, i + 2)[1] == line@[i + 1]);
                }
            }
        }
        i += 1;
    }
    proof {
        assert(line@.subrange(0, len as int) =~= line@);
    }
    (line.substring_char(0, len), false)
}

/// Takes in the next line of the file (see `read_step`).
fn take_line(line: &str, name: &mut String, description: &mut String, is_title: &mut bool)
    ensures
        (*final(is_title), final(name)@, final(description)@) == read_step(
            (*old(is_title), old(name)@, old(description)@),
            line@,
        ),
{
    let (text, commented) = strip_comment(line);
    if *is_title {
        let t = trim(text);
        if !(commented && t.unicode_len() == 0) {
            *name = t.to_owned();
            *is_title = false;
        }
    } else if text.unicode_len() > 0 || !commented {
        description.append(text);
        description.append("\n");
    }
}

/// Every hashtag starts with `#` and holds at least one more character.
proof fn lemma_hashtags_shape(s: Seq<char>, i: int)
    ensures
        forall|j: int|
            0 <= j < hashtags_from(s, i).len() ==> #[trigger] hashtags_from(s, i)[j].len() > 1,
    decreases s.len() - i,
{
    if 0 <= i < s.len() {
        if s[i] == '#' && i + 1 < ident_end(s, i + 1) <= s.len() {
            lemma_hashtags_shape(s, ident_end(s, i + 1));
            let h = hashtags_from(s, i);
            let e = ident_end(s, i + 1);
            assert(h == seq![s.subrange(i, e)] + hashtags_from(s, e));
            assert forall|j: int| 0 <= j < h.len() implies #[trigger] h[j].len() > 1 by {
                if j == 0 {
                    assert(h[0] == s.subrange(i, e));
                } else {
                    assert(h[j] == hashtags_from(s, ident_end(s, i + 1))[j - 1]);
                }
            }
        } else {
            lemma_hashtags_shape(s, i + 1);
            assert(hashtags_from(s, i) == hashtags_from(s, i + 1));
        }
    }
}

/// Parses the content of the description file into a name, a description
/// and tags; empty ones come back as `None`.
pub fn parse_file(content: &str) -> (r: EditResult)
    ensures
        edited_name(content@).len() == 0 ==> r.name is None,
        edited_name(content@).len() > 0 ==> (r.name matches Some(n) && n@ == edited_name(content@)),
        edited_description(content@).len() == 0 ==> r.description is None,
        edited_description(content@).len() > 0 ==> (r.description matches Some(d) && d@
            == edited_description(content@)),
        strs_view(r.tags@) == tags_of(edited_description(content@)),
{
    let len = content.unicode_len();
    let mut name = String::new();
    let mut description = String::new();
    let mut is_title = true;
    let mut start: usize = 0;
    let mut i: usize = 0;
    while i < len
        invariant
            len == content@.len(),
            start <= i <= len,
            split_state(content@, i as int).1 == content@.subrange(start as int, i as int),
            ({
                let done = split_state(content@, i as int).0;
                (is_title, name@, description@) == read_lines(done, done.len() as int)
            }),
        decreases len - i,
    {
        let ghost done = split_state(content@, i as int).0;
        if content.get_char(i) == '\n' {
            let line = content.substring_char(start, i);
            proof {
                lemma_read_lines_push(done, line@, done.len() as int);
            }
            take_line(line, &mut name, &mut description, &mut is_title);
            start = i + 1;
            proof {
                assert(content@.subrange(start as int, i + 1) =~= Seq::<char>::empty());
            }
        } else {
            proof {
                assert(content@.subrange(start as int, i + 1) =~= content@.subrange(
                    start as int,
                    i as int,
                ).push(content@[i as int]));
            }
        }
        i += 1;
    }
    let line = content.substring_char(start, len);
    proof {
        let done = split_state(content@, len as int).0;
        lemma_read_lines_push(done, line@, done.len() as int);
    }
    take_line(line, &mut name, &mut description, &mut is_title);
    let description = trim(description.as_str()).to_owned();
    let matches = find_matches(TAG_PATTERN, description.as_str());
    let mut tags: Vec<String> = Vec::new();
    proof {
        lemma_hashtags_shape(description@, 0);
    }
    let mut k: usize = 0;
    while k < matches.len()
        invariant
            strs_view(matches@) == hashtags_from(description@, 0),
            forall|j: int|
                0 <= j < hashtags_from(description@, 0).len() ==> #[trigger] hashtags_from(
                    description@,
                    0,
                )[j].len() > 1,
            k <= matches@.len(),
            tags@.len() == k,
            forall|j: int| 0 <= j < k ==> (#[trigger] tags@[j])@ == matches@[j]@.drop_first(),
        decreases matches@.len() - k,
    {
        let m = matches[k].as_str();
        let ml = m.unicode_len();
        proof {
            assert(strs_view(matches@)[k as int] == matches@[k as int]@);
        }
        let tag = m.substring_char(1, ml);
        tags.push(tag.to_owned());
        proof {
            assert(tag@ =~= matches@[k as int]@.drop_first());
        }
        k += 1;
    }
    let name = if name.unicode_len() > 0 {
        Some(name)
    } else {
        None
    };
    let description = if description.unicode_len() > 0 {
        Some(description)
    } else {
        None
    };
    EditResult { name, description, tags }
}

} // verus!
