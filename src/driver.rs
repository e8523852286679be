//! Decisions of the inference driver and of the boundary operations: which
//! requests are served, when the chunked submission loop stops, when the
//! caller's buffer receives the distribution, and which sentinel each
//! outcome becomes.
use vstd::prelude::*;
use crate::error::FfiError;
use crate::slot::RuntimeSlot;

verus! {

/// How many tokens the engine consumes per submission turn.
pub const TOKEN_CHUNK: usize = 128;

/// Bytes of one distribution element (a 32-bit float).
pub const ELEMENT_BYTES: usize = 4;

/// The state of the chunked submission loop.
#[derive(PartialEq, Eq, Structural, Debug, Clone, Copy)]
pub enum Phase {
    /// Tokens remain to be consumed; the residual request is submitted again.
    AwaitingOutput,
    /// The last chunk held the distribution at the final position.
    Done,
}

/// The phase after a turn that handed back a chunk of `chunk_len` elements:
/// an empty chunk means more tokens remain.
pub fn next_phase(chunk_len: usize) -> (r: Phase)
    ensures
        r == (if chunk_len > 0 { Phase::Done } else { Phase::AwaitingOutput }),
{
    if chunk_len > 0 {
        Phase::Done
    } else {
        Phase::AwaitingOutput
    }
}

/// Whether an inference request is served: a runtime must be loaded and the
/// token sequence must not be empty, checked in that order.
pub open spec fn request_check(loaded: bool, n_tokens: nat) -> Result<(), FfiError> {
    if !loaded {
        Err(FfiError::NotLoaded)
    } else if n_tokens == 0 {
        Err(FfiError::InvalidInput)
    } else {
        Ok(())
    }
}

/// The runtime that serves an inference on `tokens`, or why none does.
/// The slot is only read.
pub fn begin_infer<'a, T>(slot: &'a RuntimeSlot<T>, tokens: &Vec<u16>) -> (r: Result<&'a T, FfiError>)
    ensures
        r is Ok <==> request_check(slot@ is Some, tokens@.len()) is Ok,
        r is Ok ==> slot@ == Some(*r->Ok_0),
        r is Err ==> request_check(slot@ is Some, tokens@.len()) == Err::<(), FfiError>(r->Err_0),
{
    let runtime = slot.snapshot();
    match runtime {
        Err(e) => Err(e),
        Ok(rt) => {
            if tokens.len() == 0 {
                Err(FfiError::InvalidInput)
            } else {
                Ok(rt)
            }
        },
    }
}

/// The byte size of a distribution of `n` elements.
pub open spec fn byte_size(n: nat) -> nat {
    n * (ELEMENT_BYTES as nat)
}

/// Copies the distribution `dist` (elements as bit patterns) into the
/// caller's buffer `buf`. The byte sizes must be equal: otherwise the result
/// is `SizeMismatch` and nothing is written.
pub fn write_logits(dist: &Vec<u32>, buf: &mut Vec<u32>) -> (r: Result<(), FfiError>)
    ensures
        r is Ok <==> byte_size(dist@.len()) == byte_size(old(buf)@.len()),
        r is Ok ==> final(buf)@ == dist@,
        r is Err ==> r == Err::<(), FfiError>(FfiError::SizeMismatch) && final(buf)@ == old(buf)@,
{
    if dist.len() != buf.len() {
        return Err(FfiError::SizeMismatch);
    }
    let n = buf.len();
    let mut i: usize = 0;
    while i < n
        invariant
            n == buf@.len(),
            n == dist@.len(),
            i <= n,
            forall|j: int| 0 <= j < i ==> buf@[j] == dist@[j],
        decreases n - i,
    {
        buf.set(i, dist[i]);
        i += 1;
    }
    assert(buf@ =~= dist@);
    Ok(())
}

/// The token that the boundary returns for an inference outcome: 0 on any
/// failure.
pub open spec fn token_code(r: Result<u16, FfiError>) -> u16 {
    match r {
        Ok(t) => t,
        Err(_) => 0,
    }
}

/// The status that the boundary returns: 0 on success, -1 on any failure.
pub open spec fn status(r: Result<(), FfiError>) -> i32 {
    match r {
        Ok(_) => 0i32,
        Err(_) => -1i32,
    }
}

/// The token id that crosses the boundary for an inference outcome.
pub fn infer_code(r: Result<u16, FfiError>) -> (code: u16)
    ensures
        code == token_code(r),
{
    match r {
        Ok(t) => t,
        Err(_) => 0,
    }
}

/// The status code that crosses the boundary for an outcome.
pub fn status_code(r: Result<(), FfiError>) -> (code: i32)
    ensures
        code == status(r),
{
    match r {
        Ok(_) => 0,
        Err(_) => -1,
    }
}

/// Ends a load: a built runtime replaces the current one as a whole and the
/// status is 0; a failed build leaves the slot as it was and the status is -1.
/// The superseded runtime, if any, is handed back for the caller to release.
pub fn finish_load<T>(slot: &mut RuntimeSlot<T>, built: Result<T, FfiError>) -> (r: (i32, Option<T>))
    ensures
        built is Ok ==> r.0 == 0 && final(slot)@ == Some(built->Ok_0) && r.1 == old(slot)@,
        built is Err ==> r.0 == -1 && final(slot)@ == old(slot)@ && r.1 is None,
{
    match built {
        Ok(runtime) => {
            let prev = slot.install(runtime);
            (0, prev)
        },
        Err(_) => (-1, None),
    }
}

/// An inference on an empty token sequence fails, loaded or not, and the
/// boundary returns token 0 and status -1 for it.
pub proof fn lemma_empty_input_sentinel(loaded: bool)
    ensures
        request_check(loaded, 0) is Err,
        token_code(Err(request_check(loaded, 0)->Err_0)) == 0,
        status(request_check(loaded, 0)) == -1,
{
}

/// Before any load every inference fails with `NotLoaded`, whatever the
/// tokens: the boundary returns token 0 and status -1.
pub proof fn lemma_not_loaded_sentinel(n_tokens: nat)
    ensures
        request_check(false, n_tokens) == Err::<(), FfiError>(FfiError::NotLoaded),
        token_code(Err(FfiError::NotLoaded)) == 0,
        status(request_check(false, n_tokens)) == -1,
{
}

} // verus!
