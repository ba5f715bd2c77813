//! The tokenizer itself: the scanner that runs, with the state machine as
//! its view.

use vstd::prelude::*;
use crate::laws::{lemma_finish_command_keeps_wf, lemma_finish_token_keeps_wf};
use crate::machine::{is_pipeline, LexState, Scan};

verus! {

/// A scanner that is fed one line at a time.
///
/// Its view is the `Scan` it has reached. What it has completed is always
/// well formed: no command without a token, no token that is empty or has
/// white space at an end.
pub struct LineParser {
    result: Vec<Vec<String>>,
    current_command: Vec<String>,
    current_token: String,
    state: LexState,
}

impl View for LineParser {
    type V = Scan;

    closed spec fn view(&self) -> Scan {
        Scan {
            pipeline: self.result.deep_view(),
            command: self.current_command.deep_view(),
            token: self.current_token@,
            state: self.state,
        }
    }
}

impl Default for LineParser {
    fn default() -> (parser: Self)
        ensures
            parser@ == Scan::fresh(),
    {
        LineParser::new()
    }
}

impl LineParser {
    #[verifier::type_invariant]
    spec fn inv(self) -> bool {
        self@.wf()
    }

    /// A parser that has seen no input.
    pub fn new() -> (parser: Self)
        ensures
            parser@ == Scan::fresh(),
    {
        let parser = LineParser {
            result: Vec::new(),
            current_command: Vec::new(),
            current_token: String::new(),
            state: LexState::Bare,
        };
        assert(parser@ =~~= Scan::fresh());
        parser
    }

    /// Takes the token in progress and leaves an empty one behind.
    fn take_token(&mut self) -> (token: String)
        ensures
            token@ == old(self)@.token,
            final(self)@ == (Scan { token: Seq::empty(), ..old(self)@ }),
    {
        proof {
            use_type_invariant(&*self);
        }
        let mut token = String::new();
        core::mem::swap(&mut self.current_token, &mut token);
        token
    }

    /// Takes the command in progress and leaves an empty one behind.
    fn take_command(&mut self) -> (command: Vec<String>)
        ensures
            command.deep_view() == old(self)@.command,
            final(self)@ == (Scan { command: Seq::empty(), ..old(self)@ }),
    {
        proof {
            use_type_invariant(&*self);
        }
        let mut command = Vec::new();
        core::mem::swap(&mut self.current_command, &mut command);
        assert(self.current_command.deep_view() =~= Seq::empty());
        command
    }

    /// Takes the completed commands and leaves none behind.
    fn take_result(&mut self) -> (result: Vec<Vec<String>>)
        ensures
            result.deep_view() == old(self)@.pipeline,
            final(self)@ == (Scan { pipeline: Seq::empty(), ..old(self)@ }),
    {
        proof {
            use_type_invariant(&*self);
        }
        let mut result = Vec::new();
        core::mem::swap(&mut self.result, &mut result);
        assert(self.result.deep_view() =~= Seq::empty());
        result
    }

    /// Appends the literal `c` to the token in progress.
    fn push_literal(&mut self, c: char)
        ensures
            final(self)@ == old(self)@.append(c),
    {
        proof {
            use_type_invariant(&*self);
        }
        let mut token = self.take_token();
        token.push(c);
        self.current_token = token;
    }

    /// Takes one character of input: one step of the state machine.
    fn process_char(&mut self, c: char)
        ensures
            final(self)@ == old(self)@.step(c),
    {
        proof {
            use_type_invariant(&*self);
        }
        match self.state {
            LexState::Bare => {
                if c.is_whitespace() {
                    self.finish_token();
                } else if c == '|' {
                    self.finish_command();
                } else if c == '\'' {
                    self.state = LexState::Quoted(c);
                } else if c == '"' {
                    self.state = LexState::Quoted(c);
                } else if c == '\\' {
                    self.state = LexState::Escaped;
                } else {
                    self.push_literal(c);
                }
            },
            LexState::Quoted(q) => {
                if c == q {
                    self.state = LexState::Bare;
                } else if c == '\\' {
                    self.state = LexState::QuotedEscaped(q);
                } else {
                    self.push_literal(c);
                }
            },
            LexState::Escaped => {
                self.push_literal(c);
                proof {
                    use_type_invariant(&*self);
                }
                self.state = LexState::Bare;
            },
            LexState::QuotedEscaped(q) => {
                self.push_literal(c);
                proof {
                    use_type_invariant(&*self);
                }
                self.state = LexState::Quoted(q);
            },
        }
    }

    /// Ends the token in progress. Trimmed, it joins the command in
    /// progress unless nothing is left of it.
    fn finish_token(&mut self)
        ensures
            final(self)@ == old(self)@.finish_token(),
    {
        proof {
            use_type_invariant(&*self);
        }
        let token = self.take_token();
        let trimmed = token.as_str().trim();
        if !trimmed.is_empty() {
            let mut command = self.take_command();
            command.push(trimmed.to_owned());
            proof {
                lemma_finish_token_keeps_wf(old(self)@);
                assert(command.deep_view() =~= old(self)@.command.push(trimmed@));
            }
            self.current_command = command;
        }
    }

    /// Ends the command in progress, its last token first. It joins the
    /// completed commands unless it holds no token. A command can end in
    /// mode `Bare` only.
    fn finish_command(&mut self)
        requires
            old(self)@.state == LexState::Bare,
        ensures
            final(self)@ == old(self)@.finish_command(),
    {
        proof {
            use_type_invariant(&*self);
        }
        self.finish_token();
        if !self.current_command.is_empty() {
            let command = self.take_command();
            let mut result = self.take_result();
            result.push(command);
            proof {
                lemma_finish_command_keeps_wf(old(self)@);
                assert(result.deep_view() =~= old(self)@.finish_token().pipeline.push(
                    command.deep_view(),
                ));
            }
            self.result = result;
        }
    }

    /// Scans `line` to its end and hands out the pipeline it completes.
    ///
    /// The scan goes on from what an earlier, incomplete line left behind. A
    /// line that ends inside a quote or right after a `\` yields nothing and
    /// is kept; a line that ends in mode `Bare` leaves the parser fresh.
    pub fn parse_line(&mut self, line: &str) -> (pipeline: Option<Vec<Vec<String>>>)
        ensures
            pipeline.deep_view() == old(self)@.scan(line@).yielded(),
            final(self)@ == old(self)@.scan(line@).carried(),
            pipeline matches Some(commands) ==> is_pipeline(commands.deep_view()),
    {
        for c in iter: line.chars()
            invariant
                iter.seq() == line@,
                self@ == old(self)@.scan(line@.take(iter.index())),
        {
            proof {
                let prefix = line@.take(iter.index() + 1);
                assert(prefix.drop_last() == line@.take(iter.index()));
                assert(prefix.last() == c);
            }
            self.process_char(c);
        }
        proof {
            assert(line@.take(line@.len() as int) == line@);
            use_type_invariant(&*self);
        }
        match self.state {
            LexState::Bare => {
                self.finish_command();
                if self.result.is_empty() {
                    assert(self@ =~~= Scan::fresh());
                    None
                } else {
                    proof {
                        use_type_invariant(&*self);
                    }
                    let commands = self.take_result();
                    assert(self@ =~~= Scan::fresh());
                    Some(commands)
                }
            },
            _ => None,
        }
    }
}

} // verus!
