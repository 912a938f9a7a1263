//! The capability that makes a file a program: a behaviour that the host
//! supplies, called with a handle to the host and a list of arguments, and
//! answering with an exit code.
use vstd::prelude::*;

verus! {

/// What an executable answers with.
pub type ExitCode = i32;

/// A behaviour that a file can be bound to.
///
/// `H` is the type of the handle that the host passes to every invocation.
/// The store hands it on and never looks into it.
pub trait ExecutableFunction<H>: Send + Sync {
    /// The runs that the behaviour can make: called with the handle in the
    /// state `before` and with `args`, it can leave the handle in the state
    /// `after` and answer `code`. An implementation that does not say what
    /// its runs are allows every run.
    open spec fn outcome(&self, before: H, args: Seq<Seq<char>>, after: H, code: ExitCode) -> bool {
        true
    }

    /// Runs the behaviour to its end.
    fn execute(&self, api: &mut H, args: Vec<String>) -> (code: ExitCode)
        ensures
            self.outcome(*old(api), args.deep_view(), *final(api), code),
    ;
}

/// The exit code that stands for a code of eight bits: the same number.
pub fn widen_exit_code(code: u8) -> (wide: ExitCode)
    ensures
        wide == code,
{
    code as ExitCode
}

} // verus!
