//! Sizes of values on the wire, time arithmetic, and non-blocking read results.
use vstd::prelude::*;
use crate::wire::length_string;

verus! {

/// How many bytes a value takes on the wire.
pub trait ByteCount {
    /// The number of bytes the value takes on the wire.
    spec fn spec_byte_count(&self) -> nat;

    /// The number of bytes the value takes on the wire.
    fn byte_count(&self) -> (n: usize)
        requires
            self.spec_byte_count() <= usize::MAX,
        ensures
            n == self.spec_byte_count(),
    ;
}

impl ByteCount for String {
    /// A presence byte, a length byte and the UTF-8 encoding.
    open spec fn spec_byte_count(&self) -> nat {
        length_string(self@).len()
    }

    fn byte_count(&self) -> (n: usize) {
        1 + 1 + self.as_str().as_bytes().len()
    }
}

impl ByteCount for i64 {
    open spec fn spec_byte_count(&self) -> nat {
        8
    }

    fn byte_count(&self) -> (n: usize) {
        8
    }
}

impl ByteCount for u32 {
    open spec fn spec_byte_count(&self) -> nat {
        4
    }

    fn byte_count(&self) -> (n: usize) {
        4
    }
}

impl ByteCount for i32 {
    open spec fn spec_byte_count(&self) -> nat {
        4
    }

    fn byte_count(&self) -> (n: usize) {
        4
    }
}

impl ByteCount for u16 {
    open spec fn spec_byte_count(&self) -> nat {
        2
    }

    fn byte_count(&self) -> (n: usize) {
        2
    }
}

impl ByteCount for i16 {
    open spec fn spec_byte_count(&self) -> nat {
        2
    }

    fn byte_count(&self) -> (n: usize) {
        2
    }
}

impl ByteCount for u8 {
    open spec fn spec_byte_count(&self) -> nat {
        1
    }

    fn byte_count(&self) -> (n: usize) {
        1
    }
}

/// A point in time on one monotonic clock, in nanoseconds from an origin that
/// the caller chooses once.
#[derive(Clone, Copy, Debug, PartialEq, Eq, Structural)]
pub struct Instant {
    pub nanos: u64,
}

/// A span of time in nanoseconds.
#[derive(Clone, Copy, Debug, PartialEq, Eq, Structural)]
pub struct Duration {
    pub nanos: u64,
}

impl Duration {
    /// A span of `ms` milliseconds.
    pub fn from_millis(ms: u64) -> (d: Duration)
        requires
            ms * 1_000_000 <= u64::MAX,
        ensures
            d.nanos == ms * 1_000_000,
    {
        Duration { nanos: ms * 1_000_000 }
    }
}

impl Instant {
    /// The time passed from `self` until `now`; none if `now` is not later.
    pub fn elapsed_at(self, now: Instant) -> (d: Duration)
        ensures
            d.nanos == if now.nanos > self.nanos { now.nanos - self.nanos } else { 0 },
    {
        if now.nanos > self.nanos {
            Duration { nanos: now.nanos - self.nanos }
        } else {
            Duration { nanos: 0 }
        }
    }
}

/// The distance between two points in time, whichever comes first.
pub open spec fn spec_time_diff(a: Instant, b: Instant) -> nat {
    if a.nanos > b.nanos {
        (a.nanos - b.nanos) as nat
    } else {
        (b.nanos - a.nanos) as nat
    }
}

/// The distance between two points in time, whichever comes first.
pub fn time_diff(a: Instant, b: Instant) -> (d: Duration)
    ensures
        d.nanos == spec_time_diff(a, b),
{
    if a.nanos > b.nanos {
        Duration { nanos: a.nanos - b.nanos }
    } else {
        Duration { nanos: b.nanos - a.nanos }
    }
}

/// The distance between two points in time does not depend on their order, and
/// is zero exactly when they are the same point.
pub proof fn lemma_time_diff_symmetric(a: Instant, b: Instant)
    ensures
        spec_time_diff(a, b) == spec_time_diff(b, a),
        spec_time_diff(a, b) == 0 <==> a == b,
{
}

/// The result of a non-blocking operation with "it would have had to wait" turned
/// into `Ok(None)`: a value `s` becomes `Ok(Some(s))`; an error becomes `Ok(None)`
/// when `would_block` says it only reports having to wait, and is handed on as it
/// is otherwise.
pub open spec fn spec_nonblock_outcome<T, E>(res: Result<T, E>, would_block: bool) -> Result<Option<T>, E> {
    match res {
        Ok(s) => Ok(Some(s)),
        Err(e) => if would_block {
            Ok(None)
        } else {
            Err(e)
        },
    }
}

/// Turns the result of a non-blocking operation into one where "it would have
/// had to wait" is no error but `Ok(None)`, given `would_block`: whether the
/// error, if there is one, is of that kind. Any other error is handed on unchanged.
pub fn nonblock_outcome<T, E>(res: Result<T, E>, would_block: bool) -> (r: Result<Option<T>, E>)
    ensures
        r == spec_nonblock_outcome(res, would_block),
{
    match res {
        Ok(s) => Ok(Some(s)),
        Err(e) => {
            if would_block {
                Ok(None)
            } else {
                Err(e)
            }
        },
    }
}

#[verifier::external_type_specification]
#[verifier::external_body]
pub struct ExIoError(std::io::Error);

/// Whether the error `e` is of kind `ErrorKind::WouldBlock` (what
/// `std::io::Error::kind` says of it): the operation failed only because it would
/// have had to wait.
pub uninterp spec fn is_would_block(e: std::io::Error) -> bool;

/// `std::io::Error::kind` of std, compared with `ErrorKind::WouldBlock`. The kind
/// is a property of the error value alone; the contract names the answer
/// `is_would_block` and says no more of it.
#[verifier::external_body]
fn io_error_would_block(e: &std::io::Error) -> (r: bool)
    ensures
        r == is_would_block(*e),
{
    e.kind() == std::io::ErrorKind::WouldBlock
}

/// Turns the result of a non-blocking I/O operation into one where "it would have
/// had to wait" is no error but `Ok(None)`; any other error is handed on
/// unchanged.
pub fn nonblock_unwrap<T>(res: std::io::Result<T>) -> (r: std::io::Result<Option<T>>)
    ensures
        r == spec_nonblock_outcome(
            res,
            match res {
                Ok(_) => false,
                Err(e) => is_would_block(e),
            },
        ),
{
    let would_block = match &res {
        Ok(_) => false,
        Err(e) => io_error_would_block(e),
    };
    nonblock_outcome(res, would_block)
}

} // verus!
