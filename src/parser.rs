//! The REPL command language: one command per input string.
//!
//! ```text
//! command   := keyword args?
//! keyword   := "quit"|"q" | "clear"|"c" | "help"|"h" | "edit"|"e" | "run"|"r"
//!            | "show"|"s" | "update"|"u" | "delete"|"d" | "filter"|"f"
//! target    := "" | "*"
//! filter_arg:= "~" | "+" | "-" | "#" ident | ident
//! ident     := [A-Za-z0-9_-]+
//! ```

use vstd::prelude::*;
use vstd::string::*;

verus! {

#[derive(Debug, PartialEq, Eq, Clone, Copy)]
pub enum CommandKeyword {
    Quit,
    Clear,
    Help,
    Edit,
    Run,
    Show,
    Update,
    Delete,
    Filter,
}

#[derive(Debug, PartialEq, Eq, Clone, Copy)]
pub enum Target {
    Selected,
    All,
}

#[derive(Debug, PartialEq, Eq, Clone)]
pub enum Filter {
    Name(String),
    Tag(String),
    Passed,
    Failed,
    Waiting,
    Deleted,
}

#[derive(Debug, PartialEq, Eq, Clone)]
pub enum Command {
    Quit,
    Clear,
    Help,
    Edit,
    Run(Target),
    Show(Target),
    Update(Target),
    Delete(Target),
    Filter(Filter),
}

/// Why a command string was rejected.
#[derive(Debug, PartialEq, Eq, Clone)]
pub enum ErrorKind {
    UnknownCommand,
    TooManyArguments(Command),
    UnexpectedArgument(CommandKeyword),
}

/// The mathematical content of a `Filter`.
pub enum FilterModel {
    Name(Seq<char>),
    Tag(Seq<char>),
    Passed,
    Failed,
    Waiting,
    Deleted,
}

/// The mathematical content of a `Command`.
pub enum CommandModel {
    Quit,
    Clear,
    Help,
    Edit,
    Run(Target),
    Show(Target),
    Update(Target),
    Delete(Target),
    Filter(FilterModel),
}

/// The mathematical content of an `ErrorKind`.
pub enum ErrorModel {
    UnknownCommand,
    TooManyArguments(CommandModel),
    UnexpectedArgument(CommandKeyword),
}

impl View for Filter {
    type V = FilterModel;

    open spec fn view(&self) -> FilterModel {
        match self {
            Filter::Name(s) => FilterModel::Name(s@),
            Filter::Tag(s) => FilterModel::Tag(s@),
            Filter::Passed => FilterModel::Passed,
            Filter::Failed => FilterModel::Failed,
            Filter::Waiting => FilterModel::Waiting,
            Filter::Deleted => FilterModel::Deleted,
        }
    }
}

impl View for Command {
    type V = CommandModel;

    open spec fn view(&self) -> CommandModel {
        match self {
            Command::Quit => CommandModel::Quit,
            Command::Clear => CommandModel::Clear,
            Command::Help => CommandModel::Help,
            Command::Edit => CommandModel::Edit,
            Command::Run(t) => CommandModel::Run(*t),
            Command::Show(t) => CommandModel::Show(*t),
            Command::Update(t) => CommandModel::Update(*t),
            Command::Delete(t) => CommandModel::Delete(*t),
            Command::Filter(f) => CommandModel::Filter(f@),
        }
    }
}

impl View for ErrorKind {
    type V = ErrorModel;

    open spec fn view(&self) -> ErrorModel {
        match self {
            ErrorKind::UnknownCommand => ErrorModel::UnknownCommand,
            ErrorKind::TooManyArguments(c) => ErrorModel::TooManyArguments(c@),
            ErrorKind::UnexpectedArgument(k) => ErrorModel::UnexpectedArgument(*k),
        }
    }
}

pub open spec fn is_ws(c: char) -> bool {
    c == ' ' || c == '\t' || c == '\r' || c == '\n'
}

/// Characters that may follow a keyword.
pub open spec fn is_sep(c: char) -> bool {
    is_ws(c) || c == '#' || c == '+' || c == '-' || c == '*' || c == '~'
}

pub open spec fn is_ident_char(c: char) -> bool {
    ('a' <= c <= 'z') || ('A' <= c <= 'Z') || ('0' <= c <= '9') || c == '-' || c == '_'
}

/// The first position at or after `i` that holds no whitespace.
pub open spec fn skip_ws(s: Seq<char>, i: int) -> int
    decreases s.len() - i,
{
    if 0 <= i < s.len() && is_ws(s[i]) {
        skip_ws(s, i + 1)
    } else {
        i
    }
}

/// The end of the identifier that starts at `i` (`i` itself if none does).
pub open spec fn ident_end(s: Seq<char>, i: int) -> int
    decreases s.len() - i,
{
    if 0 <= i < s.len() && is_ident_char(s[i]) {
        ident_end(s, i + 1)
    } else {
        i
    }
}

pub open spec fn has_prefix_at(s: Seq<char>, i: int, w: Seq<char>) -> bool {
    0 <= i && i + w.len() <= s.len() && s.subrange(i, i + w.len()) == w
}

/// The end of input or a separator stands at `i`.
pub open spec fn sep_at(s: Seq<char>, i: int) -> bool {
    i >= s.len() || is_sep(s[i])
}

/// Where the keyword written `long` or `short` ends, if it stands at `i`
/// followed by a separator.
pub open spec fn keyword_end(s: Seq<char>, i: int, long: Seq<char>, short: Seq<char>) -> Option<int> {
    if has_prefix_at(s, i, long) {
        if sep_at(s, i + long.len()) {
            Some(i + long.len())
        } else {
            None
        }
    } else if has_prefix_at(s, i, short) {
        if sep_at(s, i + short.len()) {
            Some(i + short.len())
        } else {
            None
        }
    } else {
        None
    }
}

pub open spec fn long_name(k: CommandKeyword) -> Seq<char> {
    match k {
        CommandKeyword::Quit => "quit"@,
        CommandKeyword::Clear => "clear"@,
        CommandKeyword::Help => "help"@,
        CommandKeyword::Edit => "edit"@,
        CommandKeyword::Run => "run"@,
        CommandKeyword::Show => "show"@,
        CommandKeyword::Update => "update"@,
        CommandKeyword::Delete => "delete"@,
        CommandKeyword::Filter => "filter"@,
    }
}

pub open spec fn short_name(k: CommandKeyword) -> Seq<char> {
    match k {
        CommandKeyword::Quit => "q"@,
        CommandKeyword::Clear => "c"@,
        CommandKeyword::Help => "h"@,
        CommandKeyword::Edit => "e"@,
        CommandKeyword::Run => "r"@,
        CommandKeyword::Show => "s"@,
        CommandKeyword::Update => "u"@,
        CommandKeyword::Delete => "d"@,
        CommandKeyword::Filter => "f"@,
    }
}

pub open spec fn keyword_of(k: CommandKeyword, s: Seq<char>, i: int) -> Option<(CommandKeyword, int)> {
    match keyword_end(s, i, long_name(k), short_name(k)) {
        Some(e) => Some((k, e)),
        None => None,
    }
}

/// The first keyword, in the order of the grammar, that stands at `i`.
pub open spec fn spec_keyword(s: Seq<char>, i: int) -> Option<(CommandKeyword, int)> {
    if keyword_of(CommandKeyword::Quit, s, i) is Some {
        keyword_of(CommandKeyword::Quit, s, i)
    } else if keyword_of(CommandKeyword::Clear, s, i) is Some {
        keyword_of(CommandKeyword::Clear, s, i)
    } else if keyword_of(CommandKeyword::Help, s, i) is Some {
        keyword_of(CommandKeyword::Help, s, i)
    } else if keyword_of(CommandKeyword::Edit, s, i) is Some {
        keyword_of(CommandKeyword::Edit, s, i)
    } else if keyword_of(CommandKeyword::Run, s, i) is Some {
        keyword_of(CommandKeyword::Run, s, i)
    } else if keyword_of(CommandKeyword::Show, s, i) is Some {
        keyword_of(CommandKeyword::Show, s, i)
    } else if keyword_of(CommandKeyword::Update, s, i) is Some {
        keyword_of(CommandKeyword::Update, s, i)
    } else if keyword_of(CommandKeyword::Delete, s, i) is Some {
        keyword_of(CommandKeyword::Delete, s, i)
    } else {
        keyword_of(CommandKeyword::Filter, s, i)
    }
}

/// A target after optional whitespace: `*` or nothing.
pub open spec fn spec_target(s: Seq<char>, i: int) -> Option<(Target, int)> {
    let j = skip_ws(s, i);
    if j < s.len() && s[j] == '*' {
        Some((Target::All, j + 1))
    } else if j >= s.len() {
        Some((Target::Selected, j))
    } else {
        None
    }
}

/// A filter argument after optional whitespace.
pub open spec fn spec_filter_arg(s: Seq<char>, i: int) -> Option<(FilterModel, int)> {
    let j = skip_ws(s, i);
    if j >= s.len() {
        None
    } else if s[j] == '~' {
        Some((FilterModel::Waiting, j + 1))
    } else if s[j] == '+' {
        Some((FilterModel::Passed, j + 1))
    } else if s[j] == '-' {
        Some((FilterModel::Failed, j + 1))
    } else if s[j] == '#' && ident_end(s, j + 1) > j + 1 {
        Some((FilterModel::Tag(s.subrange(j + 1, ident_end(s, j + 1))), ident_end(s, j + 1)))
    } else if ident_end(s, j) > j {
        Some((FilterModel::Name(s.subrange(j, ident_end(s, j))), ident_end(s, j)))
    } else {
        None
    }
}

/// Only whitespace is left from `i` on.
pub open spec fn spec_no_args(s: Seq<char>, i: int) -> bool {
    skip_ws(s, i) >= s.len()
}

pub open spec fn finish(s: Seq<char>, i: int, c: CommandModel) -> Result<CommandModel, ErrorModel> {
    if spec_no_args(s, i) {
        Ok(c)
    } else {
        Err(ErrorModel::TooManyArguments(c))
    }
}

pub open spec fn with_target(s: Seq<char>, i: int, k: CommandKeyword) -> Result<CommandModel, ErrorModel> {
    match spec_target(s, i) {
        None => Err(ErrorModel::UnexpectedArgument(k)),
        Some((t, j)) => finish(
            s,
            j,
            match k {
                CommandKeyword::Run => CommandModel::Run(t),
                CommandKeyword::Show => CommandModel::Show(t),
                CommandKeyword::Update => CommandModel::Update(t),
                _ => CommandModel::Delete(t),
            },
        ),
    }
}

/// What the command string `s` means.
pub open spec fn spec_command(s: Seq<char>) -> Result<CommandModel, ErrorModel> {
    match spec_keyword(s, skip_ws(s, 0)) {
        None => Err(ErrorModel::UnknownCommand),
        Some((k, i)) => match k {
            CommandKeyword::Quit => finish(s, i, CommandModel::Quit),
            CommandKeyword::Clear => finish(s, i, CommandModel::Clear),
            CommandKeyword::Help => finish(s, i, CommandModel::Help),
            CommandKeyword::Edit => finish(s, i, CommandModel::Edit),
            CommandKeyword::Filter => match spec_filter_arg(s, i) {
                None => Err(ErrorModel::UnexpectedArgument(CommandKeyword::Filter)),
                Some((f, j)) => finish(s, j, CommandModel::Filter(f)),
            },
            _ => with_target(s, i, k),
        },
    }
}

pub open spec fn keyword_name(k: CommandKeyword) -> Seq<char> {
    long_name(k)
}

pub open spec fn command_keyword_of(c: CommandModel) -> CommandKeyword {
    match c {
        CommandModel::Quit => CommandKeyword::Quit,
        CommandModel::Clear => CommandKeyword::Clear,
        CommandModel::Help => CommandKeyword::Help,
        CommandModel::Edit => CommandKeyword::Edit,
        CommandModel::Run(_) => CommandKeyword::Run,
        CommandModel::Show(_) => CommandKeyword::Show,
        CommandModel::Update(_) => CommandKeyword::Update,
        CommandModel::Delete(_) => CommandKeyword::Delete,
        CommandModel::Filter(_) => CommandKeyword::Filter,
    }
}

/// The message shown for a rejected command.
pub open spec fn error_message(e: ErrorModel) -> Seq<char> {
    match e {
        ErrorModel::UnknownCommand => "Unknown command"@,
        ErrorModel::UnexpectedArgument(k) => "Unexpected argument in "@ + keyword_name(k),
        ErrorModel::TooManyArguments(c) => "Too many arguments in "@ + keyword_name(
            command_keyword_of(c),
        ),
    }
}

impl CommandKeyword {
    /// The keyword's long name.
    pub fn name(&self) -> (r: &'static str)
        ensures
            r@ == keyword_name(*self),
    {
        match self {
            CommandKeyword::Quit => "quit",
            CommandKeyword::Clear => "clear",
            CommandKeyword::Help => "help",
            CommandKeyword::Edit => "edit",
            CommandKeyword::Run => "run",
            CommandKeyword::Show => "show",
            CommandKeyword::Update => "update",
            CommandKeyword::Delete => "delete",
            CommandKeyword::Filter => "filter",
        }
    }
}

impl Command {
    /// The keyword that introduces the command.
    pub fn keyword(&self) -> (r: CommandKeyword)
        ensures
            r == command_keyword_of(self@),
    {
        match self {
            Command::Quit => CommandKeyword::Quit,
            Command::Clear => CommandKeyword::Clear,
            Command::Help => CommandKeyword::Help,
            Command::Edit => CommandKeyword::Edit,
            Command::Run(_) => CommandKeyword::Run,
            Command::Show(_) => CommandKeyword::Show,
            Command::Update(_) => CommandKeyword::Update,
            Command::Delete(_) => CommandKeyword::Delete,
            Command::Filter(_) => CommandKeyword::Filter,
        }
    }
}

impl ErrorKind {
    /// The message shown to the user.
    pub fn message(&self) -> (r: String)
        ensures
            r@ == error_message(self@),
    {
        match self {
            ErrorKind::UnknownCommand => "Unknown command".to_owned(),
            ErrorKind::UnexpectedArgument(k) => "Unexpected argument in ".to_owned().concat(k.name()),
            ErrorKind::TooManyArguments(c) => "Too many arguments in ".to_owned().concat(
                c.keyword().name(),
            ),
        }
    }
}

fn is_ws_char(c: char) -> (r: bool)
    ensures
        r == is_ws(c),
{
    c == ' ' || c == '\t' || c == '\r' || c == '\n'
}

fn is_ident(c: char) -> (r: bool)
    ensures
        r == is_ident_char(c),
{
    ('a' <= c && c <= 'z') || ('A' <= c && c <= 'Z') || ('0' <= c && c <= '9') || c == '-' || c
        == '_'
}

/// Consumes whitespace from `i` on.
fn whitespaces(s: &str, len: usize, i: usize) -> (j: usize)
    requires
        len == s@.len(),
        i <= len,
    ensures
        j == skip_ws(s@, i as int),
        i <= j <= len,
{
    let mut j = i;
    while j < len && is_ws_char(s.get_char(j))
        invariant
            len == s@.len(),
            i <= j <= len,
            skip_ws(s@, i as int) == skip_ws(s@, j as int),
        decreases len - j,
    {
        j += 1;
    }
    j
}

/// Consumes an identifier from `i` on.
fn name(s: &str, len: usize, i: usize) -> (j: usize)
    requires
        len == s@.len(),
        i <= len,
    ensures
        j == ident_end(s@, i as int),
        i <= j <= len,
{
    let mut j = i;
    while j < len && is_ident(s.get_char(j))
        invariant
            len == s@.len(),
            i <= j <= len,
            ident_end(s@, i as int) == ident_end(s@, j as int),
        decreases len - j,
    {
        j += 1;
    }
    j
}

/// Whether `w` stands in `s` at `i`.
fn prefix_at(s: &str, len: usize, i: usize, w: &str) -> (r: bool)
    requires
        len == s@.len(),
        i <= len,
    ensures
        r == has_prefix_at(s@, i as int, w@),
{
    let wl = w.unicode_len();
    if wl > len - i {
        return false;
    }
    let mut k: usize = 0;
    while k < wl
        invariant
            len == s@.len(),
            wl == w@.len(),
            i + wl <= len,
            k <= wl,
            forall|t: int| 0 <= t < k ==> s@[i + t] == w@[t],
        decreases wl - k,
    {
        if s.get_char(i + k) != w.get_char(k) {
            assert(s@.subrange(i as int, i + wl)[k as int] != w@[k as int]);
            return false;
        }
        k += 1;
    }
    assert(s@.subrange(i as int, i + wl) =~= w@);
    true
}

/// Looks for a separator at `i`, does not consume it. The end of input
/// counts as a separator.
fn peek_separator(s: &str, len: usize, i: usize) -> (r: bool)
    requires
        len == s@.len(),
        i <= len,
    ensures
        r == sep_at(s@, i as int),
{
    if i >= len {
        true
    } else {
        let c = s.get_char(i);
        is_ws_char(c) || c == '#' || c == '+' || c == '-' || c == '*' || c == '~'
    }
}

/// Matches the keyword written `long` or `short` at `i`.
fn keyword_at(s: &str, len: usize, i: usize, long: &str, short: &str) -> (r: Option<usize>)
    requires
        len == s@.len(),
        i <= len,
    ensures
        r matches Some(e) ==> keyword_end(s@, i as int, long@, short@) == Some(e as int) && e <= len,
        r is None ==> keyword_end(s@, i as int, long@, short@) is None,
{
    if prefix_at(s, len, i, long) {
        let e = i + long.unicode_len();
        if peek_separator(s, len, e) {
            Some(e)
        } else {
            None
        }
    } else if prefix_at(s, len, i, short) {
        let e = i + short.unicode_len();
        if peek_separator(s, len, e) {
            Some(e)
        } else {
            None
        }
    } else {
        None
    }
}

fn keyword_strs(k: CommandKeyword) -> (r: (&'static str, &'static str))
    ensures
        r.0@ == long_name(k),
        r.1@ == short_name(k),
{
    match k {
        CommandKeyword::Quit => ("quit", "q"),
        CommandKeyword::Clear => ("clear", "c"),
        CommandKeyword::Help => ("help", "h"),
        CommandKeyword::Edit => ("edit", "e"),
        CommandKeyword::Run => ("run", "r"),
        CommandKeyword::Show => ("show", "s"),
        CommandKeyword::Update => ("update", "u"),
        CommandKeyword::Delete => ("delete", "d"),
        CommandKeyword::Filter => ("filter", "f"),
    }
}

/// The keyword of the grammar that stands at `i`, and where it ends.
fn keyword(s: &str, len: usize, i: usize) -> (r: Option<(CommandKeyword, usize)>)
    requires
        len == s@.len(),
        i <= len,
    ensures
        r matches Some((k, e)) ==> spec_keyword(s@, i as int) == Some((k, e as int)) && e <= len,
        r is None ==> spec_keyword(s@, i as int) is None,
{
    let order = [
        CommandKeyword::Quit,
        CommandKeyword::Clear,
        CommandKeyword::Help,
        CommandKeyword::Edit,
        CommandKeyword::Run,
        CommandKeyword::Show,
        CommandKeyword::Update,
        CommandKeyword::Delete,
        CommandKeyword::Filter,
    ];
    let mut t: usize = 0;
    while t < 9
        invariant
            len == s@.len(),
            i <= len,
            order@ == seq![
                CommandKeyword::Quit,
                CommandKeyword::Clear,
                CommandKeyword::Help,
                CommandKeyword::Edit,
                CommandKeyword::Run,
                CommandKeyword::Show,
                CommandKeyword::Update,
                CommandKeyword::Delete,
                CommandKeyword::Filter,
            ],
            t <= 9,
            forall|u: int| 0 <= u < t ==> keyword_of(#[trigger] order@[u], s@, i as int) is None,
        decreases 9 - t,
    {
        let k = order[t];
        let (long, short) = keyword_strs(k);
        match keyword_at(s, len, i, long, short) {
            Some(e) => {
                proof {
                    assert(keyword_of(order@[0], s@, i as int) is None ==> t > 0);
                }
                return Some((k, e));
            },
            None => {},
        }
        t += 1;
    }
    proof {
        assert(keyword_of(order@[8], s@, i as int) is None);
    }
    None
}

/// Parses a target at `i`.
fn target_at(s: &str, len: usize, i: usize) -> (r: Option<(Target, usize)>)
    requires
        len == s@.len(),
        i <= len,
    ensures
        r matches Some((t, e)) ==> spec_target(s@, i as int) == Some((t, e as int)) && e <= len,
        r is None ==> spec_target(s@, i as int) is None,
{
    let j = whitespaces(s, len, i);
    if j < len && s.get_char(j) == '*' {
        Some((Target::All, j + 1))
    } else if j >= len {
        Some((Target::Selected, j))
    } else {
        None
    }
}

/// Parses a filter argument at `i`.
fn filter_arg_at(s: &str, len: usize, i: usize) -> (r: Option<(Filter, usize)>)
    requires
        len == s@.len(),
        i <= len,
    ensures
        r matches Some((f, e)) ==> spec_filter_arg(s@, i as int) == Some((f@, e as int)) && e <= len,
        r is None ==> spec_filter_arg(s@, i as int) is None,
{
    let j = whitespaces(s, len, i);
    if j >= len {
        return None;
    }
    let c = s.get_char(j);
    if c == '~' {
        Some((Filter::Waiting, j + 1))
    } else if c == '+' {
        Some((Filter::Passed, j + 1))
    } else if c == '-' {
        Some((Filter::Failed, j + 1))
    } else if c == '#' && name(s, len, j + 1) > j + 1 {
        let e = name(s, len, j + 1);
        Some((Filter::Tag(s.substring_char(j + 1, e).to_owned()), e))
    } else {
        let e = name(s, len, j);
        if e > j {
            Some((Filter::Name(s.substring_char(j, e).to_owned()), e))
        } else {
            None
        }
    }
}

/// Ensures that no arguments remain from `i` on.
fn finish_at(s: &str, len: usize, i: usize, cmd: Command) -> (r: Result<Command, ErrorKind>)
    requires
        len == s@.len(),
        i <= len,
    ensures
        r matches Ok(c) ==> finish(s@, i as int, cmd@) == Ok::<CommandModel, ErrorModel>(c@),
        r matches Err(e) ==> finish(s@, i as int, cmd@) == Err::<CommandModel, ErrorModel>(e@),
{
    if whitespaces(s, len, i) >= len {
        Ok(cmd)
    } else {
        Err(ErrorKind::TooManyArguments(cmd))
    }
}

/// Parses a whole command string.
fn parse_command(s: &str) -> (r: Result<Command, ErrorKind>)
    ensures
        r matches Ok(c) ==> spec_command(s@) == Ok::<CommandModel, ErrorModel>(c@),
        r matches Err(e) ==> spec_command(s@) == Err::<CommandModel, ErrorModel>(e@),
{
    let len = s.unicode_len();
    let start = whitespaces(s, len, 0);
    match keyword(s, len, start) {
        None => Err(ErrorKind::UnknownCommand),
        Some((k, i)) => match k {
            CommandKeyword::Quit => finish_at(s, len, i, Command::Quit),
            CommandKeyword::Clear => finish_at(s, len, i, Command::Clear),
            CommandKeyword::Help => finish_at(s, len, i, Command::Help),
            CommandKeyword::Edit => finish_at(s, len, i, Command::Edit),
            CommandKeyword::Filter => match filter_arg_at(s, len, i) {
                None => Err(ErrorKind::UnexpectedArgument(CommandKeyword::Filter)),
                Some((f, j)) => finish_at(s, len, j, Command::Filter(f)),
            },
            _ => match target_at(s, len, i) {
                None => Err(ErrorKind::UnexpectedArgument(k)),
                Some((t, j)) => {
                    let c = match k {
                        CommandKeyword::Run => Command::Run(t),
                        CommandKeyword::Show => Command::Show(t),
                        CommandKeyword::Update => Command::Update(t),
                        _ => Command::Delete(t),
                    };
                    finish_at(s, len, j, c)
                },
            },
        },
    }
}

/// The empty rest of an input that was consumed whole.
fn rest_from<'a>(s: &'a str, len: usize, i: usize) -> (r: &'a str)
    requires
        len == s@.len(),
        i <= len,
    ensures
        r@ == s@.subrange(i as int, len as int),
{
    s.substring_char(i, len)
}

/// Ensures that no arguments remain.
/// Returns `cmd` if no arguments are found, a `TooManyArguments` error
/// otherwise.
pub fn no_args_left<'a>(i: &'a str, cmd: Command) -> (r: Result<(&'a str, Command), ErrorKind>)
    ensures
        r matches Ok((rest, c)) ==> spec_no_args(i@, 0) && rest@.len() == 0 && c == cmd,
        r matches Err(e) ==> !spec_no_args(i@, 0) && e == ErrorKind::TooManyArguments(cmd),
{
    let len = i.unicode_len();
    let j = whitespaces(i, len, 0);
    if j >= len {
        Ok((rest_from(i, len, len), cmd))
    } else {
        Err(ErrorKind::TooManyArguments(cmd))
    }
}

/// Parses a target, that is either no argument or `*`.
/// If no argument is found, the target is assumed to be `Selected`.
pub fn target<'a>(i: &'a str, cmd: CommandKeyword) -> (r: Result<(&'a str, Target), ErrorKind>)
    ensures
        r matches Ok((rest, t)) ==> spec_target(i@, 0) matches Some((t2, e)) && t == t2 && rest@
            == i@.subrange(e, i@.len() as int),
        r matches Err(err) ==> spec_target(i@, 0) is None && err == ErrorKind::UnexpectedArgument(
            cmd,
        ),
{
    let len = i.unicode_len();
    match target_at(i, len, 0) {
        Some((t, e)) => Ok((rest_from(i, len, e), t)),
        None => Err(ErrorKind::UnexpectedArgument(cmd)),
    }
}

/// Parses a filter argument.
pub fn filter_arg<'a>(i: &'a str) -> (r: Result<(&'a str, Filter), ErrorKind>)
    ensures
        r matches Ok((rest, f)) ==> spec_filter_arg(i@, 0) matches Some((f2, e)) && f@ == f2
            && rest@ == i@.subrange(e, i@.len() as int),
        r matches Err(err) ==> spec_filter_arg(i@, 0) is None && err
            == ErrorKind::UnexpectedArgument(CommandKeyword::Filter),
{
    let len = i.unicode_len();
    match filter_arg_at(i, len, 0) {
        Some((f, e)) => Ok((rest_from(i, len, e), f)),
        None => Err(ErrorKind::UnexpectedArgument(CommandKeyword::Filter)),
    }
}

/// Matches, after optional whitespace, either `cmd_tag` or `cmd_shorthand`
/// followed by a separator, and returns `keyword`.
pub fn command_keyword<'a>(
    i: &'a str,
    cmd_tag: &str,
    cmd_shorthand: &str,
    keyword: CommandKeyword,
) -> (r: Result<(&'a str, CommandKeyword), ErrorKind>)
    ensures
        r matches Ok((rest, k)) ==> keyword_end(i@, skip_ws(i@, 0), cmd_tag@, cmd_shorthand@) matches Some(e)
            && k == keyword && rest@ == i@.subrange(e, i@.len() as int),
        r matches Err(err) ==> keyword_end(i@, skip_ws(i@, 0), cmd_tag@, cmd_shorthand@) is None
            && err == ErrorKind::UnknownCommand,
{
    let len = i.unicode_len();
    let j = whitespaces(i, len, 0);
    match keyword_at(i, len, j, cmd_tag, cmd_shorthand) {
        Some(e) => Ok((rest_from(i, len, e), keyword)),
        None => Err(ErrorKind::UnknownCommand),
    }
}

/// Parses a command; on success the whole input is consumed.
pub fn command<'a>(i: &'a str) -> (r: Result<(&'a str, Command), ErrorKind>)
    ensures
        r matches Ok((rest, c)) ==> spec_command(i@) == Ok::<CommandModel, ErrorModel>(c@)
            && rest@.len() == 0,
        r matches Err(e) ==> spec_command(i@) == Err::<CommandModel, ErrorModel>(e@),
{
    match parse_command(i) {
        Ok(c) => {
            let len = i.unicode_len();
            Ok((rest_from(i, len, len), c))
        },
        Err(e) => Err(e),
    }
}

/// Parses a REPL command; an error comes back as the message for the user.
pub fn parse(input: &str) -> (r: Result<Command, String>)
    ensures
        r matches Ok(c) ==> spec_command(input@) == Ok::<CommandModel, ErrorModel>(c@),
        r matches Err(msg) ==> spec_command(input@) matches Err(e) && msg@ == error_message(e),
{
    match parse_command(input) {
        Ok(c) => Ok(c),
        Err(e) => Err(e.message()),
    }
}

} // verus!
