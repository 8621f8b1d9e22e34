//! Blocks, and the vote transactions in them.

use crate::text;
use vstd::prelude::*;

verus! {

/// A block, by its transactions.
#[derive(Debug)]
pub struct BlockResult {
    pub transactions: Vec<Transaction>,
}

/// A transaction and what its execution left behind.
#[derive(Debug)]
pub struct Transaction {
    pub transaction: TransactionData,
    pub meta: Option<TransactionMeta>,
}

/// The signed part of a transaction.
#[derive(Debug)]
pub struct TransactionData {
    pub signatures: Vec<String>,
    pub message: TransactionMessage,
}

/// The message of a transaction.
#[derive(Debug)]
pub struct TransactionMessage {
    pub account_keys: Vec<String>,
}

/// What the execution of a transaction left behind.
#[derive(Debug)]
pub struct TransactionMeta {
    pub log_messages: Option<Vec<String>>,
}

/// The log line with which the vote program starts.
pub open spec fn is_vote_log(line: Seq<char>) -> bool {
    text::occurs_at(line, "Program Vote111111111111111111111111111111111111111 invoke"@, 0)
}

impl Transaction {
    /// The log says that the vote program ran.
    pub open spec fn is_vote(self) -> bool {
        match self.meta {
            Some(meta) => match meta.log_messages {
                Some(logs) => exists|i: int|
                    0 <= i < logs@.len() && is_vote_log(#[trigger] logs@[i]@),
                None => false,
            },
            None => false,
        }
    }

    /// The account that the transaction names first.
    pub open spec fn first_account(self) -> Option<Seq<char>> {
        let keys = self.transaction.message.account_keys@;
        if keys.len() == 0 {
            None
        } else {
            Some(keys[0]@)
        }
    }

    /// Whether the log says that the vote program ran.
    fn runs_vote_program(&self) -> (vote: bool)
        ensures
            vote == self.is_vote(),
    {
        match &self.meta {
            Some(meta) => match &meta.log_messages {
                Some(logs) => has_vote_log(logs),
                None => false,
            },
            None => false,
        }
    }
}

/// Whether one of the log lines is the one with which the vote program starts.
fn has_vote_log(logs: &Vec<String>) -> (found: bool)
    ensures
        found == exists|i: int| 0 <= i < logs@.len() && is_vote_log(#[trigger] logs@[i]@),
{
    let mut i: usize = 0;
    while i < logs.len()
        invariant
            i <= logs.len(),
            forall|j: int| 0 <= j < i ==> !is_vote_log(#[trigger] logs@[j]@),
        decreases logs.len() - i,
    {
        if text::begins_with(
            logs[i].as_str(),
            "Program Vote111111111111111111111111111111111111111 invoke",
        ) {
            return true;
        }
        i += 1;
    }
    false
}

impl BlockResult {
    /// The vote transactions of the block, in block order.
    pub open spec fn votes(self) -> Seq<Transaction> {
        self.transactions@.filter(|tx: Transaction| tx.is_vote())
    }
}

/// The transactions behind a list of references.
pub open spec fn targets(list: Seq<&Transaction>) -> Seq<Transaction> {
    Seq::new(list.len(), |i: int| *list[i])
}

/// The vote transactions of a block, in block order.
pub fn extract_vote_transactions(block: &BlockResult) -> (votes: Vec<&Transaction>)
    ensures
        targets(votes@) == block.votes(),
{
    let mut votes: Vec<&Transaction> = Vec::new();
    let mut i: usize = 0;
    let ghost is_vote = |tx: Transaction| tx.is_vote();
    assert(block.transactions@.take(0).filter(is_vote) =~= Seq::empty()) by {
        reveal(Seq::filter);
    }
    while i < block.transactions.len()
        invariant
            i <= block.transactions.len(),
            is_vote == (|tx: Transaction| tx.is_vote()),
            targets(votes@) == block.transactions@.take(i as int).filter(is_vote),
        decreases block.transactions.len() - i,
    {
        let tx = &block.transactions[i];
        let ghost before = block.transactions@.take(i as int);
        proof {
            before.lemma_filter_push(*tx, is_vote);
            assert(before.push(*tx) == block.transactions@.take(i + 1));
        }
        if tx.runs_vote_program() {
            let ghost found = targets(votes@);
            votes.push(tx);
            assert(targets(votes@) =~= found.push(*tx));
        }
        i += 1;
    }
    assert(block.transactions@.take(i as int) == block.transactions@);
    votes
}

} // verus!
