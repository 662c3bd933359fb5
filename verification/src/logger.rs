//! Leveled, colored console lines.
//!
//! The logger decides whether a message is shown at the current verbosity
//! and what exactly is written for it; writing the text to the terminal is
//! left to the caller.

use vstd::prelude::*;

verus! {

pub const GREEN: &'static str = "\x1b[0;32m";

pub const RED: &'static str = "\x1b[0;31m";

pub const MAGENTA: &'static str = "\x1b[0;35m";

pub const CYAN: &'static str = "\x1b[0;96m";

/// Switches the color off again.
pub const NC: &'static str = "\x1b[0m";

/// Returns to the start of the line and erases it.
pub const CLEAR_LINE: &'static str = "\r\x1b[K";

/// A tagged message: the tag in its color, a space, the message.
pub open spec fn tagged(color: Seq<char>, tag: Seq<char>, msg: Seq<char>) -> Seq<char> {
    color + tag + NC@ + " "@ + msg
}

pub struct Logger {
    verbose: u8,
    spinner_active: bool,
}

impl Logger {
    /// The verbosity: 0 is quiet, 1 shows debug lines, 2 and more shows
    /// trace lines too.
    pub closed spec fn verbosity(&self) -> u8 {
        self.verbose
    }

    /// Whether a progress spinner currently occupies the terminal line.
    pub closed spec fn spinner_shown(&self) -> bool {
        self.spinner_active
    }

    /// What is written for one line `msg`: the line and a newline, after
    /// erasing the spinner if one is shown.
    pub open spec fn emitted(&self, msg: Seq<char>) -> Seq<char> {
        if self.spinner_shown() {
            CLEAR_LINE@ + msg + "\n"@
        } else {
            msg + "\n"@
        }
    }

    /// A logger without a spinner.
    pub fn new(verbose: u8) -> (log: Logger)
        ensures
            log.verbosity() == verbose,
            !log.spinner_shown(),
    {
        Logger { verbose, spinner_active: false }
    }

    pub fn verbose(&self) -> (v: u8)
        ensures
            v == self.verbosity(),
    {
        self.verbose
    }

    pub fn spinner_active(&self) -> (shown: bool)
        ensures
            shown == self.spinner_shown(),
    {
        self.spinner_active
    }

    /// Records whether a spinner occupies the terminal line.
    pub fn set_spinner_active(&mut self, shown: bool)
        ensures
            final(self).spinner_shown() == shown,
            final(self).verbosity() == old(self).verbosity(),
    {
        self.spinner_active = shown;
    }

    /// The text to write for the line `msg`.
    pub fn emit(&self, msg: &str) -> (text: String)
        ensures
            text@ == self.emitted(msg@),
    {
        if self.spinner_active {
            let mut text = CLEAR_LINE.to_owned();
            text.append(msg);
            text.append("\n");
            text
        } else {
            let mut text = msg.to_owned();
            text.append("\n");
            text
        }
    }

    /// The text to write for an informational message.
    pub fn info(&self, msg: &str) -> (text: String)
        ensures
            text@ == self.emitted(tagged(GREEN@, "[INFO]"@, msg@)),
    {
        let line = tag_line(GREEN, "[INFO]", msg);
        self.emit(line.as_str())
    }

    /// The text to write for an error message.
    pub fn error(&self, msg: &str) -> (text: String)
        ensures
            text@ == self.emitted(tagged(RED@, "[ERROR]"@, msg@)),
    {
        let line = tag_line(RED, "[ERROR]", msg);
        self.emit(line.as_str())
    }

    /// The text to write for a debug message: none when quiet.
    pub fn debug(&self, msg: &str) -> (text: Option<String>)
        ensures
            self.verbosity() >= 1 ==> text is Some && text->0@ == self.emitted(
                tagged(MAGENTA@, "[DEBUG]"@, msg@),
            ),
            self.verbosity() < 1 ==> text is None,
    {
        if self.verbose >= 1 {
            let line = tag_line(MAGENTA, "[DEBUG]", msg);
            Some(self.emit(line.as_str()))
        } else {
            None
        }
    }

    /// The text to write for a trace message: none below verbosity 2.
    pub fn trace(&self, msg: &str) -> (text: Option<String>)
        ensures
            self.verbosity() >= 2 ==> text is Some && text->0@ == self.emitted(
                tagged(CYAN@, "[TRACE]"@, msg@),
            ),
            self.verbosity() < 2 ==> text is None,
    {
        if self.verbose >= 2 {
            let line = tag_line(CYAN, "[TRACE]", msg);
            Some(self.emit(line.as_str()))
        } else {
            None
        }
    }
}

/// Builds a tagged message.
pub fn tag_line(color: &str, tag: &str, msg: &str) -> (line: String)
    ensures
        line@ == tagged(color@, tag@, msg@),
{
    let mut line = color.to_owned();
    line.append(tag);
    line.append(NC);
    line.append(" ");
    line.append(msg);
    line
}

} // verus!
