//! A scanner that splits a script into keyword, literal and hashtag tokens.

use crate::text::str_equal;
use vstd::prelude::*;
use vstd::string::*;

verus! {

#[derive(Clone, PartialEq, Eq, Debug)]
pub enum Token {
    Quit,
    Filter,
    Edit,
    Clear,
    Update,
    Run,
    Show,
    Help,
    Star,
    Sha(String),
    Lit(String),
    /// End of script
    EOS,
}

/// The mathematical content of a `Token`.
pub enum TokenModel {
    Quit,
    Filter,
    Edit,
    Clear,
    Update,
    Run,
    Show,
    Help,
    Star,
    Sha(Seq<char>),
    Lit(Seq<char>),
    EOS,
}

impl View for Token {
    type V = TokenModel;

    open spec fn view(&self) -> TokenModel {
        match self {
            Token::Quit => TokenModel::Quit,
            Token::Filter => TokenModel::Filter,
            Token::Edit => TokenModel::Edit,
            Token::Clear => TokenModel::Clear,
            Token::Update => TokenModel::Update,
            Token::Run => TokenModel::Run,
            Token::Show => TokenModel::Show,
            Token::Help => TokenModel::Help,
            Token::Star => TokenModel::Star,
            Token::Sha(s) => TokenModel::Sha(s@),
            Token::Lit(s) => TokenModel::Lit(s@),
            Token::EOS => TokenModel::EOS,
        }
    }
}

pub open spec fn tokens_view(t: Seq<Token>) -> Seq<TokenModel> {
    t.map_values(|x: Token| x@)
}

/// Unicode's White_Space characters.
pub open spec fn is_whitespace(c: char) -> bool {
    ||| '\u{9}' <= c <= '\u{d}'
    ||| c == ' '
    ||| c == '\u{85}'
    ||| c == '\u{a0}'
    ||| c == '\u{1680}'
    ||| '\u{2000}' <= c <= '\u{200a}'
    ||| c == '\u{2028}'
    ||| c == '\u{2029}'
    ||| c == '\u{202f}'
    ||| c == '\u{205f}'
    ||| c == '\u{3000}'
}

/// The token a word stands for: a keyword, or else a literal.
pub open spec fn word_token(w: Seq<char>) -> TokenModel {
    if w == "quit"@ || w == "q"@ {
        TokenModel::Quit
    } else if w == "filter"@ || w == "f"@ {
        TokenModel::Filter
    } else if w == "edit"@ || w == "e"@ {
        TokenModel::Edit
    } else if w == "clear"@ || w == "c"@ {
        TokenModel::Clear
    } else if w == "update"@ || w == "u"@ {
        TokenModel::Update
    } else if w == "run"@ || w == "r"@ {
        TokenModel::Run
    } else if w == "show"@ || w == "s"@ {
        TokenModel::Show
    } else if w == "help"@ || w == "h"@ {
        TokenModel::Help
    } else {
        TokenModel::Lit(w)
    }
}

/// Emits the pending word, if any.
pub open spec fn flush(toks: Seq<TokenModel>, cur: Seq<char>, sha: bool) -> Seq<TokenModel> {
    if cur.len() > 0 {
        toks.push(if sha { TokenModel::Sha(cur) } else { word_token(cur) })
    } else {
        toks
    }
}

/// The scanner's state after the first `i` characters: tokens emitted, the
/// pending word, and whether that word follows a `#`.
pub open spec fn scan_state(s: Seq<char>, i: int) -> (Seq<TokenModel>, Seq<char>, bool)
    decreases i,
{
    if i <= 0 {
        (Seq::empty(), Seq::empty(), false)
    } else {
        let (toks, cur, sha) = scan_state(s, i - 1);
        let c = s[i - 1];
        if c == '#' {
            (flush(toks, cur, sha), Seq::empty(), true)
        } else if c == '*' {
            (flush(toks, cur, sha).push(TokenModel::Star), Seq::empty(), false)
        } else if is_whitespace(c) {
            (flush(toks, cur, sha), Seq::empty(), false)
        } else {
            (toks, cur.push(c), sha)
        }
    }
}

/// The tokens of a whole script, ended by `EOS`.
pub open spec fn scan_tokens(s: Seq<char>) -> Seq<TokenModel> {
    let (toks, cur, sha) = scan_state(s, s.len() as int);
    flush(toks, cur, sha).push(TokenModel::EOS)
}

pub fn is_whitespace_char(c: char) -> (r: bool)
    ensures
        r == is_whitespace(c),
{
    ('\u{9}' <= c && c <= '\u{d}') || c == ' ' || c == '\u{85}' || c == '\u{a0}' || c == '\u{1680}'
        || ('\u{2000}' <= c && c <= '\u{200a}') || c == '\u{2028}' || c == '\u{2029}' || c
        == '\u{202f}' || c == '\u{205f}' || c == '\u{3000}'
}

pub struct Scanner {}

impl Scanner {
    pub fn new() -> Scanner {
        Scanner {  }
    }

    /// Scans the input command to return a stream of tokens.
    pub fn scan(&mut self, cmd: String) -> (r: Vec<Token>)
        ensures
            tokens_view(r@) == scan_tokens(cmd@),
    {
        let s = cmd.as_str();
        let len = s.unicode_len();
        let mut tokens: Vec<Token> = Vec::new();
        let mut start: usize = 0;
        let mut is_sha = false;
        let mut i: usize = 0;
        while i < len
            invariant
                len == s@.len(),
                s@ == cmd@,
                start <= i <= len,
                scan_state(s@, i as int) == (tokens_view(tokens@), s@.subrange(start as int, i as int), is_sha),
            decreases len - i,
        {
            let c = s.get_char(i);
            let ghost cur = s@.subrange(start as int, i as int);
            if c == '#' {
                self.tokenize(&mut tokens, s, start, i, is_sha);
                is_sha = true;
                start = i + 1;
            } else if c == '*' {
                self.tokenize(&mut tokens, s, start, i, is_sha);
                tokens.push(Token::Star);
                is_sha = false;
                start = i + 1;
            } else if is_whitespace_char(c) {
                self.tokenize(&mut tokens, s, start, i, is_sha);
                is_sha = false;
                start = i + 1;
            }
            i += 1;
            proof {
                assert(s@.subrange(start as int, i as int) =~= (if start == i {
                    Seq::empty()
                } else {
                    cur.push(c)
                }));
                assert(tokens_view(tokens@) =~= scan_state(s@, i as int).0);
            }
        }
        self.tokenize(&mut tokens, s, start, len, is_sha);
        tokens.push(Token::EOS);
        proof {
            assert(tokens_view(tokens@) =~= scan_tokens(cmd@));
        }
        tokens
    }

    /// Converts the pending word `s[start..end]` to its token and pushes it.
    fn tokenize(&self, tokens: &mut Vec<Token>, s: &str, start: usize, end: usize, is_sha: bool)
        requires
            start <= end <= s@.len(),
        ensures
            tokens_view(final(tokens)@) == flush(
                tokens_view(old(tokens)@),
                s@.subrange(start as int, end as int),
                is_sha,
            ),
    {
        if end > start {
            let word = s.substring_char(start, end);
            let ghost before = tokens@;
            if is_sha {
                tokens.push(Token::Sha(word.to_owned()));
            } else {
                tokens.push(self.to_token(word));
            }
            proof {
                assert(tokens_view(tokens@) =~= tokens_view(before).push(tokens@.last()@));
            }
        }
    }

    /// Converts a word to the corresponding token.
    fn to_token(&self, token: &str) -> (r: Token)
        ensures
            r@ == word_token(token@),
    {
        if str_equal(token, "quit") || str_equal(token, "q") {
            Token::Quit
        } else if str_equal(token, "filter") || str_equal(token, "f") {
            Token::Filter
        } else if str_equal(token, "edit") || str_equal(token, "e") {
            Token::Edit
        } else if str_equal(token, "clear") || str_equal(token, "c") {
            Token::Clear
        } else if str_equal(token, "update") || str_equal(token, "u") {
            Token::Update
        } else if str_equal(token, "run") || str_equal(token, "r") {
            Token::Run
        } else if str_equal(token, "show") || str_equal(token, "s") {
            Token::Show
        } else if str_equal(token, "help") || str_equal(token, "h") {
            Token::Help
        } else {
            Token::Lit(token.to_owned())
        }
    }
}

impl Token {
    /// How the token is written.
    pub fn text(&self) -> (r: String)
        ensures
            r@ == token_text(self@),
    {
        match self {
            Token::Star => "*".to_owned(),
            Token::Run => "run".to_owned(),
            Token::EOS => "VOID".to_owned(),
            Token::Edit => "edit".to_owned(),
            Token::Show => "show".to_owned(),
            Token::Quit => "quit".to_owned(),
            Token::Help => "help".to_owned(),
            Token::Clear => "clear".to_owned(),
            Token::Lit(s) => s.as_str().to_owned(),
            Token::Sha(t) => "#".to_owned().concat(t.as_str()),
            Token::Update => "update".to_owned(),
            Token::Filter => "filter".to_owned(),
        }
    }
}

pub open spec fn token_text(t: TokenModel) -> Seq<char> {
    match t {
        TokenModel::Star => "*"@,
        TokenModel::Run => "run"@,
        TokenModel::EOS => "VOID"@,
        TokenModel::Edit => "edit"@,
        TokenModel::Show => "show"@,
        TokenModel::Quit => "quit"@,
        TokenModel::Help => "help"@,
        TokenModel::Clear => "clear"@,
        TokenModel::Lit(s) => s,
        TokenModel::Sha(t) => "#"@ + t,
        TokenModel::Update => "update"@,
        TokenModel::Filter => "filter"@,
    }
}

} // verus!
