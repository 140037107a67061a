//! Small helpers on `Result` and on the program's settings.

use vstd::prelude::*;

verus! {

/// The unit value.
fn unit() -> (r: ())
    ensures
        r == (),
{
    ()
}

/// Dropping the success value of a result, keeping its error.
pub trait MapToUnit<E>: Sized {
    /// `Ok(())` where `self` is `Ok`, and the same error where it is `Err`.
    spec fn unit_result(&self) -> Result<(), E>;

    fn map_to_unit(self) -> (r: Result<(), E>)
        ensures
            r == self.unit_result();
}

impl<U, E> MapToUnit<E> for Result<U, E> {
    open spec fn unit_result(&self) -> Result<(), E> {
        match self {
            Ok(_) => Ok(()),
            Err(e) => Err(*e),
        }
    }

    fn map_to_unit(self) -> (r: Result<(), E>) {
        match self {
            Ok(_) => Ok(unit()),
            Err(e) => Err(e),
        }
    }
}

/// How much the program logs.
#[derive(Clone, Copy, Debug, PartialEq, Eq, Structural)]
pub enum LogLevel {
    Error,
    Info,
    Debug,
    Trace,
}

/// The log level for a verbosity count (the number of `-v` flags): errors
/// only by default, then info, debug and trace; counts above 3 act as 3.
pub fn int_to_log_level(count: u64) -> (r: LogLevel)
    ensures
        count == 0 ==> r == LogLevel::Error,
        count == 1 ==> r == LogLevel::Info,
        count == 2 ==> r == LogLevel::Debug,
        count >= 3 ==> r == LogLevel::Trace,
{
    let capped = if count < 3 { count } else { 3 };
    match capped {
        1 => LogLevel::Info,
        2 => LogLevel::Debug,
        3 => LogLevel::Trace,
        _ => LogLevel::Error,
    }
}

} // verus!
