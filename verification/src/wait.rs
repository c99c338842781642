//! Waiting for an event descriptor.

use vstd::prelude::*;

verus! {

/// What came of an attempt to read an event descriptor that was reported ready.
#[derive(Copy, Clone, Debug, PartialEq, Eq, Structural)]
pub enum ReadAttempt {
    /// The counter was read.
    Value(u64),
    /// The read failed, with this error number.
    Errno(i32),
    /// There was nothing to read after all.
    WouldBlock,
}

/// What to do after such an attempt.
#[derive(Copy, Clone, Debug, PartialEq, Eq)]
pub enum WaitAction {
    /// The wait is over: the counter, or an error number.
    Return(Result<u64, i32>),
    /// Wait until the descriptor is ready, and read again.
    Retry,
}

pub open spec fn wait_step(attempt: ReadAttempt) -> WaitAction {
    match attempt {
        ReadAttempt::Value(n) => WaitAction::Return(Ok(n)),
        ReadAttempt::Errno(e) => WaitAction::Return(Err(e)),
        ReadAttempt::WouldBlock => WaitAction::Retry,
    }
}

/// Only an attempt that finds the descriptor empty is repeated.
pub fn wait_next(attempt: ReadAttempt) -> (r: WaitAction)
    ensures
        r == wait_step(attempt),
{
    match attempt {
        ReadAttempt::Value(n) => WaitAction::Return(Ok(n)),
        ReadAttempt::Errno(e) => WaitAction::Return(Err(e)),
        ReadAttempt::WouldBlock => WaitAction::Retry,
    }
}

/// What a wait returns, where `attempts` is what comes of its attempts in turn,
/// if it has returned by the last of them.
pub open spec fn wait_whole(attempts: Seq<ReadAttempt>) -> Option<Result<u64, i32>>
    decreases attempts.len(),
{
    if attempts.len() == 0 {
        None
    } else {
        match wait_step(attempts[0]) {
            WaitAction::Return(result) => Some(result),
            WaitAction::Retry => wait_whole(attempts.drop_first()),
        }
    }
}

/// A wait ends with the first attempt that does not find the descriptor empty,
/// and returns the counter or the error number of that attempt. Later attempts,
/// if there were any, make no difference.
pub proof fn lemma_wait_ends_with_first(attempts: Seq<ReadAttempt>, n: int)
    requires
        0 <= n < attempts.len(),
        forall|k: int| 0 <= k < n ==> #[trigger] attempts[k] is WouldBlock,
        !(attempts[n] is WouldBlock),
    ensures
        attempts[n] matches ReadAttempt::Value(v) ==> wait_whole(attempts) == Some(
            Ok::<u64, i32>(v),
        ),
        attempts[n] matches ReadAttempt::Errno(e) ==> wait_whole(attempts) == Some(
            Err::<u64, i32>(e),
        ),
    decreases n,
{
    if n > 0 {
        assert(attempts[0] is WouldBlock);
        let later = attempts.drop_first();
        assert forall|k: int| 0 <= k < n - 1 implies #[trigger] later[k] is WouldBlock by {
            assert(later[k] == attempts[k + 1]);
        }
        lemma_wait_ends_with_first(later, n - 1);
    }
}

/// A wait goes on as long as the descriptor is found empty.
pub proof fn lemma_wait_goes_on(attempts: Seq<ReadAttempt>)
    requires
        forall|k: int| 0 <= k < attempts.len() ==> #[trigger] attempts[k] is WouldBlock,
    ensures
        wait_whole(attempts) is None,
    decreases attempts.len(),
{
    if attempts.len() > 0 {
        assert(attempts[0] is WouldBlock);
        let later = attempts.drop_first();
        assert forall|k: int| 0 <= k < later.len() implies #[trigger] later[k] is WouldBlock by {
            assert(later[k] == attempts[k + 1]);
        }
        lemma_wait_goes_on(later);
    }
}

} // verus!
