//! Plain-value types observed on the chain: slots, transactions and raw
//! program logs, together with the client-side configuration.

use vstd::prelude::*;

verus! {

/// Identifier of a chain instance; passed to persistence and handler events.
pub type ChainId = u64;

/// A slot as the chain client reports it. `parent` and `block_time` may be
/// absent because the chain may omit them.
pub struct SolanaSlot {
    pub slot: u64,
    pub parent: Option<u64>,
    pub blockhash: String,
    pub block_time: Option<i64>,
    pub transactions: Vec<SolanaTransaction>,
    pub chain_id: ChainId,
}

/// The parent slot number the poller compares against: the reported parent,
/// or zero when the chain omitted it.
pub open spec fn parent_or_zero(s: SolanaSlot) -> u64 {
    match s.parent {
        Some(p) => p,
        None => 0u64,
    }
}

/// The block time as an unsigned count of seconds, zero when absent.
pub open spec fn block_time_or_zero(s: SolanaSlot) -> u64 {
    match s.block_time {
        Some(t) => t as u64,
        None => 0u64,
    }
}

impl Clone for SolanaSlot {
    /// Clones the slot; every field the poller reasons about is preserved
    /// exactly.
    fn clone(&self) -> (r: Self)
        ensures
            r.slot == self.slot,
            r.parent == self.parent,
            r.blockhash == self.blockhash,
            r.block_time == self.block_time,
            r.chain_id == self.chain_id,
            r.transactions@.len() == self.transactions@.len(),
    {
        SolanaSlot {
            slot: self.slot,
            parent: self.parent,
            blockhash: self.blockhash.clone(),
            block_time: self.block_time,
            transactions: self.transactions.clone(),
            chain_id: self.chain_id,
        }
    }
}

#[derive(Clone)]
pub struct SolanaTransaction {
    pub signature: String,
    pub slot: u64,
    pub block_time: Option<i64>,
    pub fee: u64,
    pub success: bool,
    pub account_keys: Vec<String>,
    pub program_ids: Vec<String>,
    pub log_messages: Vec<String>,
    pub pre_balances: Vec<u64>,
    pub post_balances: Vec<u64>,
    pub inner_instructions: Vec<SolanaInnerInstruction>,
}

#[derive(Clone)]
pub struct SolanaInnerInstruction {
    pub index: usize,
    pub instructions: Vec<SolanaInstruction>,
}

#[derive(Clone)]
pub struct SolanaInstruction {
    pub program_id_index: usize,
    pub accounts: Vec<usize>,
    pub data: String,
}

/// One raw log line attributed to a program within a slot.
pub struct SolanaProgramLog {
    pub program_id: String,
    pub log_index: u64,
    pub signature: String,
    pub slot: u64,
    pub block_time: Option<i64>,
    pub log_message: String,
    pub instruction_index: usize,
}

impl Clone for SolanaProgramLog {
    fn clone(&self) -> (r: Self)
        ensures
            r == *self,
    {
        SolanaProgramLog {
            program_id: self.program_id.clone(),
            log_index: self.log_index,
            signature: self.signature.clone(),
            slot: self.slot,
            block_time: self.block_time,
            log_message: self.log_message.clone(),
            instruction_index: self.instruction_index,
        }
    }
}

/// Commitment level the client queries the chain at.
#[derive(Clone, Copy, PartialEq, Eq, Structural)]
pub enum BlockCommitment {
    Finalized,
    Confirmed,
    Processed,
}

impl BlockCommitment {
    /// The wire name of the commitment level.
    pub open spec fn spec_str(self) -> Seq<char> {
        match self {
            BlockCommitment::Finalized => "finalized"@,
            BlockCommitment::Confirmed => "confirmed"@,
            BlockCommitment::Processed => "processed"@,
        }
    }

    pub fn as_str(&self) -> (r: &'static str)
        ensures
            r@ == self.spec_str(),
    {
        match self {
            BlockCommitment::Finalized => "finalized",
            BlockCommitment::Confirmed => "confirmed",
            BlockCommitment::Processed => "processed",
        }
    }
}

impl Default for BlockCommitment {
    fn default() -> (r: Self)
        ensures
            r == BlockCommitment::Finalized,
    {
        BlockCommitment::Finalized
    }
}

/// Configuration of a chain client: the RPC endpoint and the commitment
/// level requested on every call.
pub struct SolanaClientConfig {
    pub base_url: String,
    pub block_commitment: BlockCommitment,
}

impl Default for SolanaClientConfig {
    fn default() -> (r: Self)
        ensures
            r.base_url@ == Seq::<char>::empty(),
            r.block_commitment == BlockCommitment::Finalized,
    {
        SolanaClientConfig { base_url: String::new(), block_commitment: BlockCommitment::Finalized }
    }
}

} // verus!
