//! The operator console: a line to read and text to print.
//!
//! The terminal keeps the outcome of the last read from the console and
//! the texts that wait to be printed. Whoever owns the console feeds the
//! one and drains the other.

use crate::device::Shutdown;
use crate::request::{Error, Get, GetRequest, Put, SetRequest};
use crate::requests_and_responses::{Requests, Resource, Responses};
use vstd::pervasive::unreached;
use vstd::prelude::*;

verus! {

/// Time between two looks into the terminal's mailbox, in milliseconds.
pub const TICK_PERIOD: u64 = 250;

/// A text read from or printed to the console.
#[derive(Debug, Clone)]
pub struct Text(pub String);

/// What a terminal holds.
pub struct TerminalView {
    /// The line last read; none when nothing was read or the read failed.
    pub line: Option<Seq<char>>,
    /// The texts waiting to be printed, oldest first.
    pub printed: Seq<Seq<char>>,
}

/// The console as the requests see it.
pub struct Terminal {
    line: Option<String>,
    printed: Vec<String>,
}

impl View for Terminal {
    type V = TerminalView;

    closed spec fn view(&self) -> TerminalView {
        TerminalView {
            line: match self.line {
                Some(line) => Some(line@),
                None => None,
            },
            printed: self.printed@.map_values(|text: String| text@),
        }
    }
}

impl Terminal {
    /// A terminal that has read nothing and has nothing to print.
    pub fn new() -> (terminal: Terminal)
        ensures
            terminal@ == (TerminalView { line: None, printed: Seq::empty() }),
    {
        let terminal = Terminal { line: None, printed: Vec::new() };
        assert(terminal@.printed =~= Seq::<Seq<char>>::empty());
        terminal
    }

    /// Takes in the outcome of a read from the console: the line, which is
    /// empty at the end of input, or none when the read failed.
    pub fn feed(&mut self, line: Option<String>)
        ensures
            final(self)@ == (TerminalView {
                line: match line {
                    Some(text) => Some(text@),
                    None => None,
                },
                ..old(self)@
            }),
    {
        self.line = line;
    }

    /// Hands out the texts waiting to be printed and keeps none.
    pub fn take_output(&mut self) -> (texts: Vec<String>)
        ensures
            texts@.map_values(|text: String| text@) == old(self)@.printed,
            final(self)@ == (TerminalView { printed: Seq::empty(), ..old(self)@ }),
    {
        let mut texts: Vec<String> = Vec::new();
        std::mem::swap(&mut texts, &mut self.printed);
        assert(self@.printed =~= Seq::<Seq<char>>::empty());
        texts
    }
}

impl Put<Terminal, Text> for Terminal {
    /// Setting queues the text for printing and always succeeds.
    open spec fn may_set(&self, target: &Text, after: &Self, result: Result<(), Error>) -> bool {
        result is Ok && after@ == (TerminalView {
            printed: self@.printed.push(target.0@),
            ..self@
        })
    }

    fn set(&mut self, target: &Text) -> (result: Result<(), Error>) {
        self.printed.push(target.0.clone());
        assert(self@.printed =~= old(self)@.printed.push(target.0@));
        Ok(())
    }
}

impl Get<Terminal, Text> for Terminal {
    /// Reading answers with the line last read, and fails when there is
    /// none.
    open spec fn may_get(&self, result: Result<Text, Error>) -> bool {
        match self@.line {
            Some(line) => result matches Ok(text) && text.0@ == line,
            None => result matches Err(reason) && reason.0@ == "Could not read from terminal"@,
        }
    }

    fn get(&self) -> (result: Result<Text, Error>) {
        match &self.line {
            Some(line) => Ok(Text(line.clone())),
            None => Err(Error("Could not read from terminal".to_owned())),
        }
    }
}

impl Terminal {
    /// Answers a request for the terminal and goes on running. A read
    /// answers with the line last read; a write queues its text for
    /// printing. The response carries the request's identifier.
    pub fn handle_command(&mut self, request: Requests) -> (answer: (Responses, Shutdown))
        requires
            request.resource() == Resource::Terminal,
        ensures
            answer.0.id() == request.id(),
            answer.1 == Shutdown(false),
            match request {
                Requests::TerminalGetText(get) => {
                    &&& answer.0 matches Responses::TerminalGetText(response)
                    &&& old(self).may_get(response.1)
                    &&& final(self)@ == old(self)@
                },
                Requests::TerminalSetText(set) => {
                    &&& answer.0 matches Responses::TerminalSetText(response)
                    &&& response.1 == set.1
                    &&& old(self).may_set(&set.1, final(self), response.2)
                },
                _ => true,
            },
    {
        let response = match request {
            Requests::TerminalGetText(get) => Responses::TerminalGetText(get.get_response(&*self)),
            Requests::TerminalSetText(set) => Responses::TerminalSetText(set.get_response(self)),
            _ => unreached(),
        };
        (response, Shutdown(false))
    }
}

} // verus!
