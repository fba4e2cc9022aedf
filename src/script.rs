//! A parser for scripts that the scanner has split into tokens.

use crate::scanner::{Token, TokenModel, token_text, tokens_view};
use vstd::prelude::*;
use vstd::string::*;

verus! {

pub enum Script {
    Quit,
    Edit,
    Filter(Filter),
    Clear,
    Run(Target),
    Show(Target),
    Help,
}

#[derive(Debug, PartialEq, Eq, Clone)]
pub enum Filter {
    Name(String),
    Tag(String),
}

#[derive(Debug, PartialEq, Eq, Clone, Copy)]
pub enum Target {
    All,
    Selected,
}

/// The mathematical content of a `Script`.
pub enum ScriptModel {
    Quit,
    Edit,
    FilterName(Seq<char>),
    FilterTag(Seq<char>),
    Clear,
    Run(Target),
    Show(Target),
    Help,
}

impl View for Script {
    type V = ScriptModel;

    open spec fn view(&self) -> ScriptModel {
        match self {
            Script::Quit => ScriptModel::Quit,
            Script::Edit => ScriptModel::Edit,
            Script::Filter(Filter::Name(n)) => ScriptModel::FilterName(n@),
            Script::Filter(Filter::Tag(t)) => ScriptModel::FilterTag(t@),
            Script::Clear => ScriptModel::Clear,
            Script::Run(t) => ScriptModel::Run(*t),
            Script::Show(t) => ScriptModel::Show(*t),
            Script::Help => ScriptModel::Help,
        }
    }
}

pub struct ParserError {
    pub message: String,
}

impl ParserError {
    pub fn new(message: &str) -> (r: ParserError)
        ensures
            r.message@ == message@,
    {
        ParserError { message: message.to_owned() }
    }
}

/// The position after the token at `i`: the end of script is never passed.
pub open spec fn advance(t: Seq<TokenModel>, i: int) -> int {
    if t[i] is EOS {
        i
    } else {
        i + 1
    }
}

/// Only the end of script is left at `i`.
pub open spec fn ends_at(t: Seq<TokenModel>, i: int, s: ScriptModel, message: Seq<char>) -> Result<ScriptModel, Seq<char>> {
    if t[i] is EOS {
        Ok(s)
    } else {
        Err(message)
    }
}

/// A target at `i`, and the position after it.
pub open spec fn spec_target(t: Seq<TokenModel>, i: int) -> Result<(Target, int), Seq<char>> {
    if t[i] is EOS {
        Ok((Target::Selected, i))
    } else if t[i] is Star {
        Ok((Target::All, i + 1))
    } else {
        Err("Unexpected argument: "@ + token_text(t[i]) + "."@)
    }
}

/// What a script of tokens, ended by `EOS`, means; an error is its message.
pub open spec fn spec_script(t: Seq<TokenModel>) -> Result<ScriptModel, Seq<char>> {
    let i = advance(t, 0);
    match t[0] {
        TokenModel::Quit => ends_at(t, i, ScriptModel::Quit, "Quit takes no argument."@),
        TokenModel::Clear => ends_at(t, i, ScriptModel::Clear, "Clear takes no argument."@),
        TokenModel::Help => ends_at(t, i, ScriptModel::Help, "Help takes no argument."@),
        TokenModel::Edit => ends_at(t, i, ScriptModel::Edit, "Edit takes no argument."@),
        TokenModel::Filter => {
            let j = advance(t, i);
            match t[i] {
                TokenModel::Lit(n) => ends_at(
                    t,
                    j,
                    ScriptModel::FilterName(n),
                    "Filter takes only one argument."@,
                ),
                TokenModel::Sha(g) => ends_at(
                    t,
                    j,
                    ScriptModel::FilterTag(g),
                    "Filter takes only one argument."@,
                ),
                _ => Err("Filter expects a name or a tag as argument."@),
            }
        },
        TokenModel::Show => match spec_target(t, i) {
            Ok((target, j)) => ends_at(t, j, ScriptModel::Show(target), "Show takes one or zero argument."@),
            Err(m) => Err(m),
        },
        TokenModel::Run => match spec_target(t, i) {
            Ok((target, j)) => ends_at(t, j, ScriptModel::Run(target), "Run takes one or zero argument."@),
            Err(m) => Err(m),
        },
        TokenModel::EOS => Err("Please enter a valid command."@),
        other => Err("Unexpected token: "@ + token_text(other) + "."@),
    }
}

/// Tokens that a script may be made of: they end with the end of script.
pub open spec fn well_ended(t: Seq<TokenModel>) -> bool {
    t.len() > 0 && t.last() is EOS
}

pub struct Parser {
    /// Tokens are assumed to end with Token::EOS
    tokens: Vec<Token>,
    cursor: usize,
}

impl Parser {
    pub closed spec fn wf(&self) -> bool {
        well_ended(tokens_view(self.tokens@)) && self.cursor < self.tokens@.len()
    }

    pub fn new() -> (r: Parser)
        ensures
            r.wf(),
    {
        let mut tokens: Vec<Token> = Vec::new();
        tokens.push(Token::EOS);
        Parser { tokens, cursor: 0 }
    }

    pub fn parse(&mut self, tokens: Vec<Token>) -> (r: Result<Script, ParserError>)
        requires
            well_ended(tokens_view(tokens@)),
        ensures
            final(self).wf(),
            r matches Ok(s) ==> spec_script(tokens_view(tokens@)) == Ok::<ScriptModel, Seq<char>>(s@),
            r matches Err(e) ==> spec_script(tokens_view(tokens@)) == Err::<ScriptModel, Seq<char>>(
                e.message@,
            ),
    {
        self.tokens = tokens;
        self.cursor = 0;
        self.parse_command()
    }

    pub closed spec fn tokens_seq(&self) -> Seq<TokenModel> {
        tokens_view(self.tokens@)
    }

    /// Parses a single command for the stream of tokens.
    fn parse_command(&mut self) -> (r: Result<Script, ParserError>)
        requires
            old(self).wf(),
            old(self).cursor == 0,
        ensures
            final(self).wf(),
            r matches Ok(s) ==> spec_script(old(self).tokens_seq()) == Ok::<ScriptModel, Seq<char>>(s@),
            r matches Err(e) ==> spec_script(old(self).tokens_seq()) == Err::<ScriptModel, Seq<char>>(
                e.message@,
            ),
    {
        let ghost t = self.tokens_seq();
        let token = self.next();
        match token {
            Token::Quit => {
                if self.is_terminator() {
                    Ok(Script::Quit)
                } else {
                    Err(ParserError::new("Quit takes no argument."))
                }
            },
            Token::Clear => {
                if self.is_terminator() {
                    Ok(Script::Clear)
                } else {
                    Err(ParserError::new("Clear takes no argument."))
                }
            },
            Token::Help => {
                if self.is_terminator() {
                    Ok(Script::Help)
                } else {
                    Err(ParserError::new("Help takes no argument."))
                }
            },
            Token::Filter => {
                let args = match self.parse_filter_args() {
                    Ok(args) => args,
                    Err(e) => return Err(e),
                };
                if self.is_terminator() {
                    Ok(Script::Filter(args))
                } else {
                    Err(ParserError::new("Filter takes only one argument."))
                }
            },
            Token::Show => {
                let target = match self.parse_target() {
                    Ok(target) => target,
                    Err(e) => return Err(e),
                };
                if self.is_terminator() {
                    Ok(Script::Show(target))
                } else {
                    Err(ParserError::new("Show takes one or zero argument."))
                }
            },
            Token::Run => {
                let target = match self.parse_target() {
                    Ok(target) => target,
                    Err(e) => return Err(e),
                };
                if self.is_terminator() {
                    Ok(Script::Run(target))
                } else {
                    Err(ParserError::new("Run takes one or zero argument."))
                }
            },
            Token::Edit => {
                if self.is_terminator() {
                    Ok(Script::Edit)
                } else {
                    Err(ParserError::new("Edit takes no argument."))
                }
            },
            Token::EOS => Err(ParserError::new("Please enter a valid command.")),
            token => Err(
                ParserError { message: "Unexpected token: ".to_owned().concat(token.text().as_str()).concat(".") },
            ),
        }
    }

    /// Parses the arguments of the filter command.
    fn parse_filter_args(&mut self) -> (r: Result<Filter, ParserError>)
        requires
            old(self).wf(),
        ensures
            final(self).wf(),
            final(self).tokens_seq() == old(self).tokens_seq(),
            final(self).cursor == advance(old(self).tokens_seq(), old(self).cursor as int),
            ({
                let t = old(self).tokens_seq();
                match t[old(self).cursor as int] {
                    TokenModel::Lit(n) => r matches Ok(Filter::Name(m)) && m@ == n,
                    TokenModel::Sha(g) => r matches Ok(Filter::Tag(m)) && m@ == g,
                    _ => r matches Err(e) && e.message@ == "Filter expects a name or a tag as argument."@,
                }
            }),
    {
        let token = self.next();
        match token {
            Token::Lit(name) => Ok(Filter::Name(name.as_str().to_owned())),
            Token::Sha(tag) => Ok(Filter::Tag(tag.as_str().to_owned())),
            _ => Err(ParserError::new("Filter expects a name or a tag as argument.")),
        }
    }

    /// Parses the target, that is either all ('*') or the current selection if
    /// no argument is provided.
    fn parse_target(&mut self) -> (r: Result<Target, ParserError>)
        requires
            old(self).wf(),
        ensures
            final(self).wf(),
            final(self).tokens_seq() == old(self).tokens_seq(),
            match spec_target(old(self).tokens_seq(), old(self).cursor as int) {
                Ok((t, j)) => r == Ok::<Target, ParserError>(t) && final(self).cursor == j,
                Err(m) => r matches Err(e) && e.message@ == m,
            },
    {
        if self.is_terminator() {
            Ok(Target::Selected)
        } else {
            let token = self.next();
            match token {
                Token::Star => Ok(Target::All),
                _ => Err(
                    ParserError { message: "Unexpected argument: ".to_owned().concat(token.text().as_str()).concat(".") },
                ),
            }
        }
    }

    /// Returns the next token and advance the cursor.
    fn next(&mut self) -> (r: &Token)
        requires
            old(self).wf(),
        ensures
            final(self).wf(),
            final(self).tokens_seq() == old(self).tokens_seq(),
            r@ == old(self).tokens_seq()[old(self).cursor as int],
            final(self).cursor == advance(old(self).tokens_seq(), old(self).cursor as int),
    {
        let c = self.cursor;
        // Reading the length bounds the cursor's successor by `usize::MAX`.
        let _len = self.tokens.len();
        let is_end = match &self.tokens[c] {
            Token::EOS => true,
            _ => false,
        };
        proof {
            let t = tokens_view(self.tokens@);
            assert(t[c as int] == self.tokens@[c as int]@);
            assert(t.last() == t[t.len() - 1]);
        }
        if !is_end {
            self.cursor = c + 1;
        }
        &self.tokens[c]
    }

    /// Returns true if the next token is a script terminator.
    /// For now the only terminator is the end of script.
    fn is_terminator(&self) -> (r: bool)
        requires
            self.wf(),
        ensures
            r == (self.tokens_seq()[self.cursor as int] is EOS),
    {
        match &self.tokens[self.cursor] {
            Token::EOS => true,
            _ => false,
        }
    }
}

} // verus!
