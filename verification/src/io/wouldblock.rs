//! Turning the `WouldBlock` error of a non-blocking operation into a
//! pending poll, so that the task waits and tries again.
use vstd::prelude::*;

use std::io;
use std::task::Context;

verus! {

#[verifier::external_type_specification]
#[verifier::external_body]
pub struct ExContext<'a>(std::task::Context<'a>);

/// What polling a non-blocking operation gives: its result, or that the
/// task has to wait and poll again.
pub enum IoPoll<R> {
    /// The operation finished, with a value or with an error other than
    /// `WouldBlock`.
    Ready(io::Result<R>),
    /// The operation would block.
    Pending,
}

/// Whether an error is of kind `io::ErrorKind::WouldBlock`: a function of
/// the error value alone.
pub uninterp spec fn error_would_block(err: io::Error) -> bool;

/// `io::Error::kind` compared with `io::ErrorKind::WouldBlock`.
#[verifier::external_body]
fn is_would_block(err: &io::Error) -> (r: bool)
    ensures
        r == error_would_block(*err),
{
    err.kind() == io::ErrorKind::WouldBlock
}

/// The poll result for the outcome `r` of an operation, where `blocked`
/// says whether its error is a `WouldBlock`: a value is ready, a
/// `WouldBlock` error leaves the task pending, any other error is ready.
pub fn would_block_outcome<R>(r: io::Result<R>, blocked: bool) -> (p: IoPoll<R>)
    ensures
        match r {
            Ok(v) => p == IoPoll::Ready(Ok::<R, io::Error>(v)),
            Err(e) => if blocked {
                p is Pending
            } else {
                p == IoPoll::Ready(Err::<R, io::Error>(e))
            },
        },
{
    match r {
        Ok(v) => IoPoll::Ready(Ok(v)),
        Err(e) => if blocked {
            IoPoll::Pending
        } else {
            IoPoll::Ready(Err(e))
        },
    }
}

/// Turns the result of one attempt into a poll result: a value is ready,
/// a `WouldBlock` error leaves the task pending, any other error is ready.
pub fn poll_result<R>(r: io::Result<R>) -> (p: IoPoll<R>)
    ensures
        match r {
            Ok(v) => p == IoPoll::Ready(Ok::<R, io::Error>(v)),
            Err(e) => if error_would_block(e) {
                p is Pending
            } else {
                p == IoPoll::Ready(Err::<R, io::Error>(e))
            },
        },
{
    let blocked = match &r {
        Ok(_) => false,
        Err(e) => is_would_block(e),
    };
    would_block_outcome(r, blocked)
}

/// Calls `f` once and turns a `WouldBlock` error into `IoPoll::Pending`.
/// A value is handed on as ready; an error is handed on as ready unless it
/// is a `WouldBlock`.
pub fn poll_would_block<F, R>(f: F) -> (p: IoPoll<R>)
    where
        F: FnOnce() -> io::Result<R> + Unpin,
    requires
        f.requires(()),
    ensures
        exists|r: io::Result<R>|
            #![auto]
            f.ensures((), r) && match r {
                Ok(v) => p == IoPoll::Ready(Ok::<R, io::Error>(v)),
                Err(e) => if error_would_block(e) {
                    p is Pending
                } else {
                    p == IoPoll::Ready(Err::<R, io::Error>(e))
                },
            },
{
    let r = f();
    poll_result(r)
}

/// A future that calls `f` each time it is polled until `f` returns
/// something other than a `WouldBlock` error.
pub struct WouldBlock<F> {
    f: F,
}

impl<F> WouldBlock<F> {
    /// The operation that the future retries.
    pub closed spec fn operation(&self) -> F {
        self.f
    }

    /// Hands the operation back, so that a task can call it on each poll
    /// and pass what it returns to [`poll_result`].
    pub fn into_operation(self) -> (f: F)
        ensures
            f == self.operation(),
    {
        self.f
    }
}

/// Creates the future that retries `f` while it would block.
pub fn would_block<F, R>(f: F) -> (w: WouldBlock<F>)
    where
        F: FnMut(&mut Context) -> io::Result<R> + Unpin,
    ensures
        w.operation() == f,
{
    WouldBlock { f }
}

} // verus!
