use vstd::prelude::*;

use crate::scanner::{error_models, scan_errors, scan_tokens, LexError, Scanner};
use crate::token::{token_models, Token};

verus! {

/// Exit status of a run whose input held lexical errors.
pub const EXIT_DATA_ERROR: i32 = 65;

/// Exit status of a run started with the wrong arguments.
pub const EXIT_USAGE: i32 = 64;

/// What one run of the scanner gave: its tokens and the errors it reported.
pub struct ScanReport {
    pub tokens: Vec<Token>,
    pub errors: Vec<LexError>,
}

/// The interpreter's session state: whether an error has been reported since
/// the flag was last cleared.
pub struct Lox {
    had_error: bool,
}

impl Lox {
    pub closed spec fn error_seen(&self) -> bool {
        self.had_error
    }

    pub fn new() -> (r: Self)
        ensures
            !r.error_seen(),
    {
        Lox { had_error: false }
    }

    /// Whether an error has been reported since the flag was last cleared.
    pub fn had_error(&self) -> (r: bool)
        ensures
            r == self.error_seen(),
    {
        self.had_error
    }

    /// Records that an error has been reported.
    pub fn report(&mut self)
        ensures
            final(self).error_seen(),
    {
        self.had_error = true;
    }

    /// Clears the error flag, as between two lines typed at the prompt.
    pub fn reset_error(&mut self)
        ensures
            !final(self).error_seen(),
    {
        self.had_error = false;
    }

    /// Scans `code` with a fresh scanner; the error flag is raised if any
    /// error was reported.
    pub fn run(&mut self, code: &str) -> (r: ScanReport)
        requires
            code@.len() < usize::MAX,
        ensures
            token_models(r.tokens@) == scan_tokens(code@),
            error_models(r.errors@) == scan_errors(code@),
            final(self).error_seen() == (old(self).error_seen() || r.errors@.len() > 0),
    {
        let mut scanner = Scanner::new(code);
        scanner.scan();
        let (tokens, errors) = scanner.into_parts();
        if errors.len() > 0 {
            self.report();
        }
        ScanReport { tokens, errors }
    }

    /// The status a run over a whole file ends with: `None` when nothing went
    /// wrong, otherwise the data-error status.
    pub fn exit_status(&self) -> (r: Option<i32>)
        ensures
            r == (if self.error_seen() {
                Some(EXIT_DATA_ERROR)
            } else {
                None::<i32>
            }),
    {
        if self.had_error {
            Some(EXIT_DATA_ERROR)
        } else {
            None
        }
    }
}

/// What the program does, given its command-line arguments.
#[derive(Debug, Clone, Copy, PartialEq, Eq, Structural)]
pub enum Mode {
    /// Read and run the script named by the one argument.
    RunFile,
    /// Read lines from standard input and run each.
    Prompt,
    /// Too many arguments: print the usage and exit with `EXIT_USAGE`.
    Usage,
}

/// Chooses the mode from the number of arguments, the program's name included.
pub fn mode_for(arg_count: usize) -> (r: Mode)
    ensures
        r == (if arg_count == 2 {
            Mode::RunFile
        } else if arg_count > 2 {
            Mode::Usage
        } else {
            Mode::Prompt
        }),
{
    if arg_count == 2 {
        Mode::RunFile
    } else if arg_count > 2 {
        Mode::Usage
    } else {
        Mode::Prompt
    }
}

/// What the prompt does with a line it has read.
#[derive(Debug, Clone, Copy, PartialEq, Eq, Structural)]
pub enum PromptAction {
    /// Nothing was read: the input has ended.
    Stop,
    /// A bare newline: ask again.
    Skip,
    /// Scan the line, then clear the error flag.
    Run,
}

/// Decides what to do with one line read at the prompt (its newline included).
pub fn prompt_action(line: &str) -> (r: PromptAction)
    ensures
        r == (if line@.len() == 0 {
            PromptAction::Stop
        } else if line@ == seq!['\n'] {
            PromptAction::Skip
        } else {
            PromptAction::Run
        }),
{
    let n = line.unicode_len();
    if n == 0 {
        PromptAction::Stop
    } else if n == 1 && line.get_char(0) == '\n' {
        assert(line@ =~= seq!['\n']);
        PromptAction::Skip
    } else {
        PromptAction::Run
    }
}

} // verus!
