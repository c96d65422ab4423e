//! What is done about a block, given how it fits the blocks that came before it.

use vstd::prelude::*;
use crate::text::{decimal, decimal_text};

verus! {

/// How a block fails to extend the chain of known blocks.
#[derive(Debug, PartialEq, Eq)]
pub enum ReorgError {
    DuplicateBlock { height: u32, hash: String },
    Unrecoverable,
    BlockNotFoundInState { height: u32 },
    Recoverable { height: u32, depth: u32 },
}

/// What is to be done about a block.
#[derive(Debug, PartialEq, Eq)]
pub enum BlockStep {
    /// Take the block in.
    Accept,
    /// Undo the blocks of the abandoned branch, then take the block in.
    HandleReorg { height: u32, depth: u32 },
    /// Refuse the block, with this message.
    Refuse(String),
}

/// What is to be done about a block of which `detected` was found.
pub open spec fn block_step_is(detected: Result<(), ReorgError>, step: BlockStep) -> bool {
    match detected {
        Ok(_) => step is Accept,
        Err(ReorgError::DuplicateBlock { .. }) => step is Accept,
        Err(ReorgError::Unrecoverable) => step is Refuse && step->Refuse_0@
            == "Unrecoverable reorg detected"@,
        Err(ReorgError::BlockNotFoundInState { height }) => step is Refuse && step->Refuse_0@
            == "Block not found in state at height "@ + decimal(height as nat),
        Err(ReorgError::Recoverable { height, depth }) => step == (BlockStep::HandleReorg {
            height,
            depth,
        }),
    }
}

/// Decides what is to be done about a block.
pub fn judge_block(detected: &Result<(), ReorgError>) -> (res: BlockStep)
    ensures
        block_step_is(*detected, res),
{
    match detected {
        Ok(()) => BlockStep::Accept,
        Err(ReorgError::DuplicateBlock { .. }) => BlockStep::Accept,
        Err(ReorgError::Unrecoverable) => BlockStep::Refuse(
            "Unrecoverable reorg detected".to_string(),
        ),
        Err(ReorgError::BlockNotFoundInState { height }) => BlockStep::Refuse(
            "Block not found in state at height ".to_string().concat(
                decimal_text(*height as u64).as_str(),
            ),
        ),
        Err(ReorgError::Recoverable { height, depth }) => BlockStep::HandleReorg {
            height: *height,
            depth: *depth,
        },
    }
}

} // verus!
