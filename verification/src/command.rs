//! What the command-line program decides: how much to log, and what to print.
use vstd::prelude::*;
use crate::sru_parser::{parse, parse_spec, ParseError};

verus! {

/// How much of the log is shown.
#[derive(Clone, Copy, Debug, PartialEq, Eq, Structural)]
pub enum LogLevel {
    /// Nothing.
    Off,
    /// Everything down to what helps to find faults.
    Debug,
    /// What a user wants to know.
    Info,
}

/// The file to check.
#[derive(Clone, Debug, PartialEq, Eq)]
pub struct ValidateOpt {
    pub file: String,
}

/// What the program is asked to do.
#[derive(Clone, Debug, PartialEq, Eq)]
pub enum Goal {
    /// Check that a file holds a document, and write the document out.
    Validate(ValidateOpt),
}

/// The command line of the program.
#[derive(Clone, Debug, PartialEq, Eq)]
pub struct MinSkatt {
    /// Show more of the log.
    pub verbose: bool,
    /// Show nothing of the log; this wins over `verbose`.
    pub quiet: bool,
    pub cmd: Goal,
}

/// What a run of the program comes to: how much of the log to show, and either the text
/// to print or why the input is no document.
#[derive(Debug, PartialEq, Eq)]
pub struct Report {
    pub level: LogLevel,
    pub outcome: Result<String, ParseError>,
}

/// What is printed for the text `contents`: the document that it holds, written out
/// again; or why it holds none.
pub open spec fn outcome_of(contents: Seq<char>) -> Result<Seq<char>, ParseError> {
    match parse_spec(contents) {
        Ok(document) => Ok(document.text()),
        Err(error) => Err(error),
    }
}

/// The characters of a printed text, or the error in its place.
pub open spec fn outcome_view(outcome: Result<String, ParseError>) -> Result<
    Seq<char>,
    ParseError,
> {
    match outcome {
        Ok(text) => Ok(text@),
        Err(error) => Err(error),
    }
}

/// How much of the log the flags ask for.
pub open spec fn level_of(verbose: bool, quiet: bool) -> LogLevel {
    if quiet {
        LogLevel::Off
    } else if verbose {
        LogLevel::Debug
    } else {
        LogLevel::Info
    }
}

impl ValidateOpt {
    /// Reads the contents of the file as a document and gives the text to print: the
    /// document written out again.
    pub fn validate(self, contents: String) -> (outcome: Result<String, ParseError>)
        ensures
            outcome_view(outcome) == outcome_of(contents@),
    {
        match parse(contents) {
            Ok(document) => Ok(document.to_text()),
            Err(error) => Err(error),
        }
    }
}

impl Goal {
    /// Carries the goal out on the contents of its file.
    pub fn run(self, contents: String) -> (outcome: Result<String, ParseError>)
        ensures
            outcome_view(outcome) == outcome_of(contents@),
    {
        match self {
            Goal::Validate(options) => options.validate(contents),
        }
    }

    /// The file that the goal is about.
    pub fn file(&self) -> (file: &String)
        ensures
            file == match self {
                Goal::Validate(options) => options.file,
            },
    {
        match self {
            Goal::Validate(options) => &options.file,
        }
    }
}

impl MinSkatt {
    /// How much of the log the flags ask for.
    pub fn level(&self) -> (level: LogLevel)
        ensures
            level == level_of(self.verbose, self.quiet),
    {
        if self.quiet {
            LogLevel::Off
        } else if self.verbose {
            LogLevel::Debug
        } else {
            LogLevel::Info
        }
    }

    /// Runs the program on the contents of the file that its goal names.
    pub fn run(self, contents: String) -> (report: Report)
        ensures
            report.level == level_of(self.verbose, self.quiet),
            outcome_view(report.outcome) == outcome_of(contents@),
    {
        let level = self.level();
        Report { level, outcome: self.cmd.run(contents) }
    }
}

} // verus!
