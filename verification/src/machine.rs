//! The scanner as a mathematical state machine.
//!
//! A `Scan` is everything the tokenizer knows after some characters of
//! input: the commands that are complete, the tokens of the command in
//! progress, the characters of the token in progress and the lexical mode.
//! The functions here say how one character changes it and what a whole
//! line yields.

use vstd::prelude::*;
use crate::text::{is_token, is_white_space, trimmed};

verus! {

/// The lexical mode of the scanner.
#[derive(Clone, Copy, PartialEq, Eq, Debug, Structural)]
pub enum LexState {
    /// Outside quotes: white space, `|`, quotes and `\` are significant.
    Bare,
    /// Inside a quote opened by the given character, `'` or `"`.
    Quoted(char),
    /// After a `\` outside quotes: the next character is taken literally.
    Escaped,
    /// After a `\` inside the given quote: the next character is taken
    /// literally and the quote stays open.
    QuotedEscaped(char),
}

impl LexState {
    /// The character that opened the quote, if one is open.
    pub open spec fn quote(self) -> Option<char> {
        match self {
            LexState::Quoted(q) | LexState::QuotedEscaped(q) => Some(q),
            _ => None,
        }
    }

    /// A quote is opened by `'` or `"` only.
    pub open spec fn wf(self) -> bool {
        self.quote() matches Some(q) ==> q == '\'' || q == '"'
    }
}

impl Default for LexState {
    fn default() -> (state: Self)
        ensures
            state == LexState::Bare,
    {
        LexState::Bare
    }
}

/// The characters of one token.
pub type Token = Seq<char>;

/// The tokens of one command, from left to right.
pub type Command = Seq<Token>;

/// The commands of one line, from left to right.
pub type Pipeline = Seq<Command>;

/// A command as the scanner emits it: at least one token, and nothing in it
/// that is no token.
pub open spec fn is_command(command: Command) -> bool {
    &&& command.len() > 0
    &&& forall|i: int| 0 <= i < command.len() ==> is_token(#[trigger] command[i])
}

/// A pipeline as the scanner emits it: at least one command, and nothing in
/// it that is no command.
pub open spec fn is_pipeline(pipeline: Pipeline) -> bool {
    &&& pipeline.len() > 0
    &&& forall|i: int| 0 <= i < pipeline.len() ==> is_command(#[trigger] pipeline[i])
}

/// The state of a scan.
#[verifier::ext_equal]
pub struct Scan {
    /// The commands completed so far.
    pub pipeline: Pipeline,
    /// The tokens completed so far of the command in progress.
    pub command: Command,
    /// The characters so far of the token in progress.
    pub token: Token,
    /// The lexical mode.
    pub state: LexState,
}

impl Scan {
    /// The scan before any input: nothing collected, mode `Bare`.
    pub open spec fn fresh() -> Scan {
        Scan {
            pipeline: Seq::empty(),
            command: Seq::empty(),
            token: Seq::empty(),
            state: LexState::Bare,
        }
    }

    /// What was completed is well formed: each command holds a token, each
    /// token is trimmed and not empty, and an open quote was opened by `'`
    /// or `"`.
    pub open spec fn wf(self) -> bool {
        &&& forall|i: int|
            0 <= i < self.pipeline.len() ==> is_command(#[trigger] self.pipeline[i])
        &&& forall|i: int| 0 <= i < self.command.len() ==> is_token(#[trigger] self.command[i])
        &&& self.state.wf()
    }

    /// The token in progress grows by the literal `c`.
    pub open spec fn append(self, c: char) -> Scan {
        Scan { token: self.token.push(c), ..self }
    }

    /// The mode changes and nothing else.
    pub open spec fn enter(self, state: LexState) -> Scan {
        Scan { state, ..self }
    }

    /// The token in progress ends: trimmed, it joins the command in progress
    /// unless nothing is left of it.
    pub open spec fn finish_token(self) -> Scan {
        let token = trimmed(self.token);
        Scan {
            command: if token.len() == 0 { self.command } else { self.command.push(token) },
            token: Seq::empty(),
            ..self
        }
    }

    /// The command in progress ends: after its last token is finished, it
    /// joins the completed commands unless it holds no token.
    pub open spec fn finish_command(self) -> Scan {
        let flushed = self.finish_token();
        if flushed.command.len() == 0 {
            flushed
        } else {
            Scan {
                pipeline: flushed.pipeline.push(flushed.command),
                command: Seq::empty(),
                ..flushed
            }
        }
    }

    /// The scan after one more character.
    pub open spec fn step(self, c: char) -> Scan {
        match self.state {
            LexState::Bare => {
                if is_white_space(c) {
                    self.finish_token()
                } else if c == '|' {
                    self.finish_command()
                } else if c == '\'' || c == '"' {
                    self.enter(LexState::Quoted(c))
                } else if c == '\\' {
                    self.enter(LexState::Escaped)
                } else {
                    self.append(c)
                }
            },
            LexState::Quoted(q) => {
                if c == q {
                    self.enter(LexState::Bare)
                } else if c == '\\' {
                    self.enter(LexState::QuotedEscaped(q))
                } else {
                    self.append(c)
                }
            },
            LexState::Escaped => self.append(c).enter(LexState::Bare),
            LexState::QuotedEscaped(q) => self.append(c).enter(LexState::Quoted(q)),
        }
    }

    /// The scan after the characters of `text`, taken from left to right.
    pub open spec fn scan(self, text: Seq<char>) -> Scan
        decreases text.len(),
    {
        if text.len() == 0 {
            self
        } else {
            self.scan(text.drop_last()).step(text.last())
        }
    }

    /// What a line yields that left the scan in this state. In mode `Bare`
    /// the command in progress is finished, and the completed commands are
    /// the pipeline if there is one at all; in any other mode the line is
    /// incomplete and yields nothing.
    pub open spec fn yielded(self) -> Option<Pipeline> {
        if self.state == LexState::Bare && self.finish_command().pipeline.len() > 0 {
            Some(self.finish_command().pipeline)
        } else {
            None
        }
    }

    /// The scan that a line leaves behind for the next one. In mode `Bare`
    /// everything was flushed and handed out, so it is fresh again; in any
    /// other mode the open quote or escape and all that was collected stay.
    pub open spec fn carried(self) -> Scan {
        if self.state == LexState::Bare {
            Scan::fresh()
        } else {
            self
        }
    }
}

/// What a fresh parser makes of `line`.
pub open spec fn parse(line: Seq<char>) -> Option<Pipeline> {
    Scan::fresh().scan(line).yielded()
}

} // verus!
