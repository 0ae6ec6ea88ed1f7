//! The decisions of the text generation loop: when to stop, and which token
//! is fed back at which position. Running the model and sampling are the
//! caller's work; it hands the sampled token in and follows the answer.

use vstd::prelude::*;

verus! {

/// Why generation ended.
#[derive(Debug, Clone, Copy, PartialEq, Eq, Structural)]
pub enum StopReason {
    /// As many tokens as were asked for have been produced.
    Budget,
    /// The next position would lie beyond the model's context.
    ContextLimit,
    /// The model produced the end-of-text token.
    EndOfText,
}

/// What to do with a sampled token.
#[derive(Debug, Clone, Copy, PartialEq, Eq, Structural)]
pub enum GenStep {
    /// Append `token` to the output, then run the model on it at `pos`.
    Continue { token: u32, pos: usize },
    /// Append `token` to the output and stop.
    Last { token: u32, reason: StopReason },
    /// Stop without appending anything.
    Stop(StopReason),
}

/// Whether the model may run at position `pos` after `produced` tokens:
/// `None` if so, else why not. The token budget is checked first.
pub open spec fn spec_may_continue(pos: usize, n_ctx: usize, produced: usize, n_predict: usize) -> Option<StopReason> {
    if produced >= n_predict {
        Some(StopReason::Budget)
    } else if pos >= n_ctx {
        Some(StopReason::ContextLimit)
    } else {
        None
    }
}

/// The decision after the model, run at `pos` with `produced` tokens already
/// generated, sampled `next`.
pub open spec fn spec_generation_step(
    pos: usize,
    n_ctx: usize,
    produced: usize,
    n_predict: usize,
    next: u32,
    eos: u32,
) -> GenStep {
    if next == eos {
        GenStep::Stop(StopReason::EndOfText)
    } else {
        match spec_may_continue((pos + 1) as usize, n_ctx, (produced + 1) as usize, n_predict) {
            None => GenStep::Continue { token: next, pos: (pos + 1) as usize },
            Some(reason) => GenStep::Last { token: next, reason },
        }
    }
}

/// Whether the model may run at position `pos` after `produced` tokens.
pub fn may_continue(pos: usize, n_ctx: usize, produced: usize, n_predict: usize) -> (r: Option<StopReason>)
    ensures
        r == spec_may_continue(pos, n_ctx, produced, n_predict),
        r is None <==> (produced < n_predict && pos < n_ctx),
{
    if produced >= n_predict {
        Some(StopReason::Budget)
    } else if pos >= n_ctx {
        Some(StopReason::ContextLimit)
    } else {
        None
    }
}

/// Decide what follows the sampling of `next` at position `pos`.
///
/// The end-of-text token stops generation and is not part of the output.
/// Any other token is output; it is fed back at the following position
/// while the budget and the context allow.
pub fn generation_step(
    pos: usize,
    n_ctx: usize,
    produced: usize,
    n_predict: usize,
    next: u32,
    eos: u32,
) -> (a: GenStep)
    requires
        pos < n_ctx,
        produced < n_predict,
    ensures
        a == spec_generation_step(pos, n_ctx, produced, n_predict, next, eos),
        a matches GenStep::Continue { token, pos: p } ==> token == next && p == pos + 1
            && p < n_ctx && produced + 1 < n_predict,
{
    if next == eos {
        GenStep::Stop(StopReason::EndOfText)
    } else {
        match may_continue(pos + 1, n_ctx, produced + 1, n_predict) {
            None => GenStep::Continue { token: next, pos: pos + 1 },
            Some(reason) => GenStep::Last { token: next, reason },
        }
    }
}

/// What a generation step decides: the end token is never output and ends
/// generation; any other token is output; it is fed back at the next
/// position exactly when that position lies inside the context and the
/// output stays below the budget; otherwise generation ends, for the
/// budget when that is used up, else for the context.
pub proof fn lemma_generation_step(
    pos: usize,
    n_ctx: usize,
    produced: usize,
    n_predict: usize,
    next: u32,
    eos: u32,
)
    requires
        pos < n_ctx,
        produced < n_predict,
    ensures
        ({
            let a = spec_generation_step(pos, n_ctx, produced, n_predict, next, eos);
            &&& (a == GenStep::Stop(StopReason::EndOfText)) <==> next == eos
            &&& a is Stop ==> next == eos
            &&& a matches GenStep::Continue { token, pos: p } ==> token == next && p == pos + 1
            &&& a matches GenStep::Last { token, .. } ==> token == next
            &&& next != eos ==> (a is Continue <==> (pos + 1 < n_ctx && produced + 1 < n_predict))
            &&& a matches GenStep::Last { reason, .. } ==> (reason == StopReason::Budget
                <==> produced + 1 >= n_predict) && (reason == StopReason::ContextLimit
                <==> produced + 1 < n_predict)
        }),
{
}

} // verus!
