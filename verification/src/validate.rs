//! What the commands decide: how a batch validation goes on after each
//! file, and how much a command says.

use vstd::prelude::*;

verus! {

/// How much a command writes to the console.
#[derive(Clone, Copy, PartialEq, Eq, Debug)]
pub enum Level {
    Warn,
    Info,
    Debug,
    Trace,
}

/// The console level for a verbosity: warnings without any `-v`, and one
/// level more for each `-v`, up to traces.
pub fn console_level(verbosity: u64) -> (level: Level)
    ensures
        level == match verbosity {
            0 => Level::Warn,
            1 => Level::Info,
            2 => Level::Debug,
            _ => Level::Trace,
        },
{
    if verbosity == 0 {
        Level::Warn
    } else if verbosity == 1 {
        Level::Info
    } else if verbosity == 2 {
        Level::Debug
    } else {
        Level::Trace
    }
}

/// The files that a validation has checked so far, and how many of them
/// were bad.
#[derive(Clone, Copy, PartialEq, Eq, Debug)]
pub struct Tally {
    pub checked: u64,
    pub bad: u64,
}

/// What a validation does after a file.
#[derive(Clone, Copy, PartialEq, Eq, Debug)]
pub enum Next {
    /// It goes on with the next file.
    Continue,
    /// It stops and hands the file's error on.
    Abort,
}

impl Tally {
    /// The tally before the first file.
    pub fn new() -> (tally: Tally)
        ensures
            tally == (Tally { checked: 0, bad: 0 }),
    {
        Tally { checked: 0, bad: 0 }
    }

    /// Whether any file was bad.
    pub fn has_bad(&self) -> (any: bool)
        ensures
            any == (self.bad > 0),
    {
        self.bad > 0
    }

    /// Whether the report speaks of one bad file and not of several.
    pub fn is_singular(&self) -> (one: bool)
        ensures
            one == (self.bad == 1),
    {
        self.bad == 1
    }
}

/// The validation of every specification file under a path.
#[derive(Debug)]
pub struct Validate {
    pub glob_path: String,
    pub do_abort: bool,
    pub syntax_only: bool,
    pub is_recursive: bool,
    pub verbosity: u64,
}

impl Validate {
    /// A validation.  Its verbosity is the larger of the two counts, that of
    /// `-v` and that of `-l`.
    pub fn new(
        glob_path: String,
        do_abort: bool,
        syntax_only: bool,
        is_recursive: bool,
        verbose: u64,
        log: u64,
    ) -> (command: Validate)
        ensures
            command.glob_path == glob_path,
            command.do_abort == do_abort,
            command.syntax_only == syntax_only,
            command.is_recursive == is_recursive,
            command.verbosity == if verbose >= log {
                verbose
            } else {
                log
            },
    {
        let verbosity: u64 = if verbose >= log {
            verbose
        } else {
            log
        };
        Validate { glob_path, do_abort, syntax_only, is_recursive, verbosity }
    }

    /// Whether the path of each file is shown.
    pub fn shows_paths(&self) -> (shown: bool)
        ensures
            shown == (self.verbosity >= 1),
    {
        self.verbosity >= 1
    }

    /// Whether the model of each good file is shown.
    pub fn shows_models(&self) -> (shown: bool)
        ensures
            shown == (self.verbosity >= 2),
    {
        self.verbosity >= 2
    }

    /// Counts a file that was parsed, well (`good`) or not, and says how the
    /// validation goes on.  A bad file ends a validation that aborts on
    /// errors, and is not counted as bad then; any other validation counts
    /// it and goes on.
    pub fn record(&self, tally: Tally, good: bool) -> (after: (Tally, Next))
        requires
            tally.bad <= tally.checked < u64::MAX,
        ensures
            after.0.checked == tally.checked + 1,
            after.0.bad == if good || self.do_abort {
                tally.bad as int
            } else {
                tally.bad + 1
            },
            after.0.bad <= after.0.checked,
            after.1 == if !good && self.do_abort {
                Next::Abort
            } else {
                Next::Continue
            },
    {
        let checked: u64 = tally.checked + 1;
        if good {
            (Tally { checked, bad: tally.bad }, Next::Continue)
        } else if self.do_abort {
            (Tally { checked, bad: tally.bad }, Next::Abort)
        } else {
            (Tally { checked, bad: tally.bad + 1 }, Next::Continue)
        }
    }
}

} // verus!
