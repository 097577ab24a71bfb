//! Diagnostic codes of a boot that cannot go on.
//!
//! Nothing in this crate halts the machine. Where a stage would stop with a
//! one-character code, the function returns that code as a `Failure`, and
//! the caller prints it and halts.

use vstd::prelude::*;

verus! {

/// The character that precedes the code when a stage behind the boot sector
/// stops.
pub const FAIL_PREFIX: u8 = 0x25;

/// The character that precedes the code when the boot sector stops.
pub const BOOT_SECTOR_FAIL_PREFIX: u8 = 0x46;

/// The character that the boot sector repeats for a failure it reports
/// without halting.
pub const BOOT_SECTOR_REPEAT_PREFIX: u8 = 0x23;

/// The code of a panic in the boot sector.
pub const PANIC_CODE: u8 = 0x50;

/// A fatal condition, named by the character that is shown for it.
#[derive(Clone, Copy, Debug, PartialEq, Eq, Structural)]
pub struct Failure {
    /// The character shown after the prefix.
    pub code: u8,
}

/// A value that may be absent, where absence stops the boot.
pub trait UnwrapOrFail: Sized {
    /// The value when it is there.
    type Out;

    /// The value held, if any.
    spec fn held(self) -> Option<Self::Out>;

    /// The value, or the failure with the given code when there is none.
    fn unwrap_or_fail(self, code: u8) -> (r: Result<Self::Out, Failure>)
        ensures
            r == match self.held() {
                Some(v) => Ok::<Self::Out, Failure>(v),
                None => Err::<Self::Out, Failure>(Failure { code }),
            },
    ;
}

impl<T> UnwrapOrFail for Option<T> {
    type Out = T;

    open spec fn held(self) -> Option<T> {
        self
    }

    fn unwrap_or_fail(self, code: u8) -> (r: Result<T, Failure>) {
        match self {
            Some(v) => Ok(v),
            None => Err(Failure { code }),
        }
    }
}

impl<T, E> UnwrapOrFail for Result<T, E> {
    type Out = T;

    open spec fn held(self) -> Option<T> {
        match self {
            Ok(v) => Some(v),
            Err(_) => None,
        }
    }

    fn unwrap_or_fail(self, code: u8) -> (r: Result<T, Failure>) {
        match self {
            Ok(v) => Ok(v),
            Err(_) => Err(Failure { code }),
        }
    }
}

/// The register value that asks the firmware's teletype service to print the
/// character `c`: the service number 0x0e in the high byte, `c` in the low.
pub fn teletype_request(c: u8) -> (ax: u16)
    ensures
        ax == 0x0e00 + c,
{
    let wide: u16 = c as u16;
    assert(wide | 0x0e00 == 0x0e00 + wide) by (bit_vector)
        requires
            wide < 0x100,
    ;
    wide | 0x0e00
}

/// The two characters shown when a stage behind the boot sector stops with
/// `failure`.
pub fn fail(failure: Failure) -> (shown: [u8; 2])
    ensures
        shown@ == seq![FAIL_PREFIX, failure.code],
{
    let shown = [FAIL_PREFIX, failure.code];
    assert(shown@ =~= seq![FAIL_PREFIX, failure.code]);
    shown
}

/// The failure that a panic in the boot sector stands for.
pub fn panic() -> (failure: Failure)
    ensures
        failure.code == PANIC_CODE,
{
    Failure { code: PANIC_CODE }
}

} // verus!
