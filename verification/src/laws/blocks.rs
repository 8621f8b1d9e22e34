//! Laws of the vote transactions of a block.

use crate::block::{self, BlockResult, Transaction};
use vstd::prelude::*;

verus! {

/// One log line with which the vote program starts makes a transaction of the
/// block a vote, whichever line it is and whatever the others are.
pub proof fn law_any_line_makes_a_vote(block: BlockResult, k: int, i: int)
    requires
        0 <= k < block.transactions@.len(),
        block.transactions@[k].meta is Some,
        block.transactions@[k].meta->0.log_messages is Some,
        0 <= i < block.transactions@[k].meta->0.log_messages->0@.len(),
        "Program Vote111111111111111111111111111111111111111 invoke"@.is_prefix_of(
            block.transactions@[k].meta->0.log_messages->0@[i]@,
        ),
    ensures
        block.votes().contains(block.transactions@[k]),
{
    let tx = block.transactions@[k];
    let logs = tx.meta->0.log_messages->0@;
    crate::laws::texts::law_begins_with_prefix(
        logs[i]@,
        "Program Vote111111111111111111111111111111111111111 invoke"@,
    );
    assert(block::is_vote_log(logs[i]@));
    assert(tx.is_vote());
    lemma_votes_contain(block.transactions@, k);
}

/// A transaction without such a line is no vote.
pub proof fn law_no_line_no_vote(block: BlockResult, tx: Transaction)
    requires
        tx.meta is Some && tx.meta->0.log_messages is Some ==> forall|i: int|
            0 <= i < tx.meta->0.log_messages->0@.len()
                ==> !"Program Vote111111111111111111111111111111111111111 invoke"@.is_prefix_of(
                #[trigger] tx.meta->0.log_messages->0@[i]@,
            ),
    ensures
        !block.votes().contains(tx),
{
    if tx.is_vote() {
        let logs = tx.meta->0.log_messages->0@;
        let i = choose|i: int| 0 <= i < logs.len() && block::is_vote_log(#[trigger] logs[i]@);
        crate::laws::texts::law_begins_with_prefix(
            logs[i]@,
            "Program Vote111111111111111111111111111111111111111 invoke"@,
        );
    }
    if block.votes().contains(tx) {
        let at = choose|at: int| 0 <= at < block.votes().len() && block.votes()[at] == tx;
        block.transactions@.lemma_filter_pred(|tx: Transaction| tx.is_vote(), at);
    }
}

/// The votes of two runs of transactions one after the other are the votes of
/// the first and then those of the second.
pub proof fn law_votes_keep_block_order(
    first: BlockResult,
    second: BlockResult,
    whole: BlockResult,
)
    requires
        whole.transactions@ == first.transactions@ + second.transactions@,
    ensures
        whole.votes() == first.votes() + second.votes(),
{
    Seq::filter_distributes_over_add(
        first.transactions@,
        second.transactions@,
        |tx: Transaction| tx.is_vote(),
    );
}

/// A block of one transaction has that one as its votes, or none.
pub proof fn law_votes_of_one_transaction(block: BlockResult)
    requires
        block.transactions@.len() == 1,
    ensures
        block.votes().len() <= 1,
        block.votes().len() == 1 ==> block.votes()[0] == block.transactions@[0],
        block.votes().contains(block.transactions@[0]) <==> block.votes().len() == 1,
{
    reveal(Seq::filter);
    let pred = |tx: Transaction| tx.is_vote();
    assert(block.transactions@.drop_last() =~= Seq::empty());
    assert(block.transactions@.drop_last().filter(pred).len() == 0);
    if block.votes().len() == 1 {
        assert(block.votes()[0] == block.transactions@[0]);
    }
}

/// A transaction is taken for the account that it names first.
pub proof fn law_first_account(tx: Transaction)
    ensures
        match tx.first_account() {
            Some(account) => tx.transaction.message.account_keys@.len() > 0 && account
                == tx.transaction.message.account_keys@[0]@,
            None => tx.transaction.message.account_keys@.len() == 0,
        },
{
}

/// A list of references stands for the transactions behind them, in order.
pub proof fn law_targets(list: Seq<&Transaction>, i: int)
    requires
        0 <= i < list.len(),
    ensures
        block::targets(list).len() == list.len(),
        block::targets(list)[i] == *list[i],
{
}

proof fn lemma_votes_contain(transactions: Seq<Transaction>, k: int)
    requires
        0 <= k < transactions.len(),
        transactions[k].is_vote(),
    ensures
        transactions.filter(|tx: Transaction| tx.is_vote()).contains(transactions[k]),
{
    transactions.lemma_filter_contains(|tx: Transaction| tx.is_vote(), k);
}

} // verus!
