//! Configuration of the multi-threaded runtime.
use vstd::prelude::*;

verus! {

/// `num_cpus::get`: the number of logical CPUs this process may use. The
/// crate documents that the result is always at least 1; which number it
/// is depends on the machine and is not stated.
#[verifier::external_body]
fn available_cpus() -> (n: usize)
    ensures
        n >= 1,
{
    num_cpus::get()
}

/// Builds a runtime; by default it runs one worker thread per CPU.
pub struct Builder {
    threads: Option<usize>,
}

impl Default for Builder {
    fn default() -> (b: Self)
        ensures
            b.configured_threads() is None,
    {
        Builder { threads: None }
    }
}

impl Builder {
    /// The number of worker threads asked for, if any.
    pub closed spec fn configured_threads(self) -> Option<usize> {
        self.threads
    }

    /// A builder that asks for no particular number of threads.
    pub fn new() -> (b: Self)
        ensures
            b.configured_threads() is None,
    {
        Self::default()
    }

    /// Asks for `threads` worker threads.
    pub fn threads(self, threads: usize) -> (b: Self)
        ensures
            b.configured_threads() == Some(threads),
    {
        let mut b = self;
        b.threads = Some(threads);
        b
    }

    /// The number of worker threads when `available` CPUs can be used: the
    /// number asked for, or else one per CPU.
    pub fn threads_for(&self, available: usize) -> (n: usize)
        ensures
            n == match self.configured_threads() {
                Some(t) => t,
                None => available,
            },
    {
        match self.threads {
            Some(t) => t,
            None => available,
        }
    }

    /// The number of worker threads the runtime starts: the number asked
    /// for, or else the number of CPUs of this machine (at least 1).
    pub fn worker_threads(&self) -> (n: usize)
        ensures
            self.configured_threads() matches Some(t) ==> n == t,
            self.configured_threads() is None ==> n >= 1,
    {
        match self.threads {
            Some(t) => t,
            None => self.threads_for(available_cpus()),
        }
    }
}

} // verus!
