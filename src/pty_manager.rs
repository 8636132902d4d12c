//! The decisions of the process supervisor: what to spawn, how output is
//! chunked, and the once-only steps of its lifecycle.

use vstd::prelude::*;
use vstd::string::StringExecFns;

verus! {

/// Largest chunk of terminal output handed to the fan-out channel.
pub const READ_CHUNK: usize = 1024;

/// The shell run when none is configured.
pub const DEFAULT_SHELL: &'static str = "bash";

/// Environment given to every shell, for terminal capability negotiation.
pub const TERM_VAR: &'static str = "TERM";
pub const TERM_VALUE: &'static str = "xterm-256color";
pub const COLORTERM_VAR: &'static str = "COLORTERM";
pub const COLORTERM_VALUE: &'static str = "truecolor";
pub const LANG_VAR: &'static str = "LANG";
pub const LANG_VALUE: &'static str = "C.UTF-8";

/// The program to spawn: the configured shell, else the default one.
pub fn shell_program(configured: Option<String>) -> (r: String)
    ensures
        r@ == (match configured {
            Some(s) => s@,
            None => DEFAULT_SHELL@,
        }),
{
    match configured {
        Some(s) => s,
        None => String::from_str(DEFAULT_SHELL),
    }
}

/// The variables set in the shell's environment, as (name, value) pairs.
pub fn terminal_environment() -> (r: Vec<(String, String)>)
    ensures
        r@.len() == 3,
        r@[0].0@ == TERM_VAR@ && r@[0].1@ == TERM_VALUE@,
        r@[1].0@ == COLORTERM_VAR@ && r@[1].1@ == COLORTERM_VALUE@,
        r@[2].0@ == LANG_VAR@ && r@[2].1@ == LANG_VALUE@,
{
    let mut r: Vec<(String, String)> = Vec::new();
    r.push((String::from_str(TERM_VAR), String::from_str(TERM_VALUE)));
    r.push((String::from_str(COLORTERM_VAR), String::from_str(COLORTERM_VALUE)));
    r.push((String::from_str(LANG_VAR), String::from_str(LANG_VALUE)));
    r
}

/// What the reader does after one read of the terminal.
pub enum ReaderStep {
    /// Hand these bytes to the channel and read again.
    Forward(Vec<u8>),
    /// Output has ended: hand the empty chunk to the channel and stop.
    Finish,
}

/// Decides the reader's next step from a read into `buf`: `Some(n)` when
/// `n` bytes were read, `None` when the read failed.
pub fn reader_step(buf: &[u8], outcome: Option<usize>) -> (r: ReaderStep)
    requires
        outcome matches Some(n) ==> n <= buf@.len(),
    ensures
        match outcome {
            Some(n) => if n > 0 {
                r matches ReaderStep::Forward(b) && b@ == buf@.subrange(0, n as int)
            } else {
                r is Finish
            },
            None => r is Finish,
        },
{
    match outcome {
        Some(n) => {
            if n == 0 {
                ReaderStep::Finish
            } else {
                let mut out: Vec<u8> = Vec::with_capacity(n);
                let mut i: usize = 0;
                while i < n
                    invariant
                        n <= buf@.len(),
                        i <= n,
                        out@ == buf@.subrange(0, i as int),
                    decreases n - i,
                {
                    out.push(buf[i]);
                    i = i + 1;
                    assert(out@ =~= buf@.subrange(0, i as int));
                }
                ReaderStep::Forward(out)
            }
        },
        None => ReaderStep::Finish,
    }
}

/// The target of the kill signal that ends the shell's whole process
/// group: the negated group id. None for a pid that names no group of its
/// own (zero, or beyond the signed range), where a signal could reach
/// other processes.
pub fn group_signal_target(pid: u32) -> (r: Option<i32>)
    ensures
        0 < pid <= i32::MAX ==> r == Some((-(pid as int)) as i32),
        !(0 < pid <= i32::MAX) ==> r is None,
{
    if pid > 0 && pid <= 0x7fff_ffff {
        let p: i32 = pid as i32;
        Some(-p)
    } else {
        None
    }
}

/// What shutting down has to do now.
pub enum ShutdownPlan {
    /// Shut down before: nothing to do.
    AlreadyDone,
    /// Signal the group, if there is a target, then reap the child.
    KillAndReap { group: Option<i32> },
}

/// The once-only steps of a supervised process: starting the reader and
/// shutting down.
pub struct Lifecycle {
    reader_started: bool,
    shut_down: bool,
}

impl Lifecycle {
    pub closed spec fn is_reader_started(&self) -> bool {
        self.reader_started
    }

    pub closed spec fn is_shut_down(&self) -> bool {
        self.shut_down
    }

    pub fn new() -> (r: Lifecycle)
        ensures
            !r.is_reader_started(),
            !r.is_shut_down(),
    {
        Lifecycle { reader_started: false, shut_down: false }
    }

    /// Whether the reader should start now: true exactly once.
    pub fn claim_reader(&mut self) -> (r: bool)
        ensures
            r == !old(self).is_reader_started(),
            final(self).is_reader_started(),
            final(self).is_shut_down() == old(self).is_shut_down(),
    {
        let r = !self.reader_started;
        self.reader_started = true;
        r
    }

    /// Plans a shutdown of the process `pid`; after the first call every
    /// later one has nothing to do.
    pub fn begin_shutdown(&mut self, pid: Option<u32>) -> (r: ShutdownPlan)
        ensures
            final(self).is_shut_down(),
            final(self).is_reader_started() == old(self).is_reader_started(),
            old(self).is_shut_down() ==> r is AlreadyDone,
            !old(self).is_shut_down() ==> (r matches ShutdownPlan::KillAndReap { group } && group == (
            match pid {
                Some(p) => if 0 < p <= i32::MAX {
                    Some((-(p as int)) as i32)
                } else {
                    None::<i32>
                },
                None => None::<i32>,
            })),
    {
        if self.shut_down {
            return ShutdownPlan::AlreadyDone;
        }
        self.shut_down = true;
        let group = match pid {
            Some(p) => group_signal_target(p),
            None => None,
        };
        ShutdownPlan::KillAndReap { group }
    }
}

} // verus!
