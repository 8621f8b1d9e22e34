//! Laws of counting missed votes.

use crate::accounts;
use crate::block::{self, BlockResult, Transaction};
use crate::monitor::{self, BlockOutcome, Monitor, SlotLine};
use crate::text;
use vstd::prelude::*;

verus! {

/// An account has voted in a block exactly where the block holds a transaction
/// that names it first and in whose log a line begins as the vote program does.
pub proof fn law_who_has_voted(block: BlockResult, account: Seq<char>)
    ensures
        monitor::voted(block, account) <==> exists|k: int, i: int|
            #![trigger block.transactions@[k], block.transactions@[k].meta->0.log_messages->0@[i]]
            {
                let tx = block.transactions@[k];
                &&& 0 <= k < block.transactions@.len()
                &&& tx.transaction.message.account_keys@.len() > 0
                &&& tx.transaction.message.account_keys@[0]@ == account
                &&& tx.meta is Some
                &&& tx.meta->0.log_messages is Some
                &&& 0 <= i < tx.meta->0.log_messages->0@.len()
                &&& "Program Vote111111111111111111111111111111111111111 invoke"@.is_prefix_of(
                    tx.meta->0.log_messages->0@[i]@,
                )
            },
{
    let all = block.transactions@;
    let is_vote = |tx: Transaction| tx.is_vote();
    let invoke = "Program Vote111111111111111111111111111111111111111 invoke"@;
    if monitor::voted(block, account) {
        let at = choose|at: int|
            0 <= at < block.votes().len() && (#[trigger] block.votes()[at]).first_account()
                == Some(account);
        let tx = block.votes()[at];
        assert(all.filter(is_vote).contains(tx));
        all.lemma_filter_pred(is_vote, at);
        lemma_filter_keeps_nothing_new(all, is_vote, tx);
        let k = choose|k: int| 0 <= k < all.len() && all[k] == tx;
        let logs = tx.meta->0.log_messages->0@;
        let i = choose|i: int| 0 <= i < logs.len() && block::is_vote_log(#[trigger] logs[i]@);
        crate::laws::texts::law_begins_with_prefix(logs[i]@, invoke);
        assert(block.transactions@[k].meta->0.log_messages->0@[i] == logs[i]);
    }
    if exists|k: int, i: int|
        #![trigger block.transactions@[k], block.transactions@[k].meta->0.log_messages->0@[i]]
        {
            let tx = block.transactions@[k];
            &&& 0 <= k < block.transactions@.len()
            &&& tx.transaction.message.account_keys@.len() > 0
            &&& tx.transaction.message.account_keys@[0]@ == account
            &&& tx.meta is Some
            &&& tx.meta->0.log_messages is Some
            &&& 0 <= i < tx.meta->0.log_messages->0@.len()
            &&& invoke.is_prefix_of(tx.meta->0.log_messages->0@[i]@)
        } {
        let (k, i) = choose|k: int, i: int|
            #![trigger block.transactions@[k], block.transactions@[k].meta->0.log_messages->0@[i]]
            {
                let tx = block.transactions@[k];
                &&& 0 <= k < block.transactions@.len()
                &&& tx.transaction.message.account_keys@.len() > 0
                &&& tx.transaction.message.account_keys@[0]@ == account
                &&& tx.meta is Some
                &&& tx.meta->0.log_messages is Some
                &&& 0 <= i < tx.meta->0.log_messages->0@.len()
                &&& invoke.is_prefix_of(tx.meta->0.log_messages->0@[i]@)
            };
        let tx = all[k];
        crate::laws::blocks::law_any_line_makes_a_vote(block, k, i);
        let at = choose|at: int| 0 <= at < block.votes().len() && block.votes()[at] == tx;
        assert(block.votes()[at].first_account() == Some(account));
    }
}

proof fn lemma_filter_keeps_nothing_new(
    list: Seq<Transaction>,
    keep: spec_fn(Transaction) -> bool,
    tx: Transaction,
)
    requires
        list.filter(keep).contains(tx),
    ensures
        list.contains(tx),
    decreases list.len(),
{
    reveal(Seq::filter);
    if list.len() > 0 {
        let shorter = list.drop_last();
        assert(list[list.len() - 1] == list.last());
        if tx != list.last() {
            let kept = list.filter(keep);
            let at = choose|at: int| 0 <= at < kept.len() && kept[at] == tx;
            assert(shorter.filter(keep)[at] == tx);
            lemma_filter_keeps_nothing_new(shorter, keep, tx);
            let place = choose|place: int| 0 <= place < shorter.len() && shorter[place] == tx;
            assert(list[place] == tx);
        }
    }
}

/// The accounts of two lists that missed a vote are those of the first and then
/// those of the second, so they come in the order in which they are checked.
pub proof fn law_misses_keep_order(
    block: BlockResult,
    first: Seq<Seq<char>>,
    second: Seq<Seq<char>>,
)
    ensures
        monitor::missed_in(block, first + second) == monitor::missed_in(block, first)
            + monitor::missed_in(block, second),
{
    Seq::filter_distributes_over_add(
        first,
        second,
        |account: Seq<char>| !monitor::voted(block, account),
    );
}

/// One account is reported alone where it has no vote in the block, and not at
/// all where it has one.
pub proof fn law_miss_of_one_account(block: BlockResult, account: Seq<char>)
    ensures
        monitor::voted(block, account) ==> monitor::missed_in(block, seq![account]) == Seq::<
            Seq<char>,
        >::empty(),
        !monitor::voted(block, account) ==> monitor::missed_in(block, seq![account]) == seq![
            account,
        ],
{
    reveal(Seq::filter);
    let absent = |account: Seq<char>| !monitor::voted(block, account);
    assert(seq![account].drop_last() =~= Seq::empty());
    assert(Seq::<Seq<char>>::empty().filter(absent) =~= Seq::empty());
    assert(Seq::<Seq<char>>::empty().push(account) =~= seq![account]);
}

/// The accounts that a request shows to have missed a vote are those that are
/// checked and have no vote in its block; without a block there are none.
pub proof fn law_who_has_missed(
    monitor: Monitor,
    block: BlockResult,
    failure: String,
    account: Seq<char>,
)
    ensures
        monitor::missed_by(monitor, BlockOutcome::Block(block)).contains(account)
            <==> monitor.accounts().contains(account) && !monitor::voted(block, account),
        monitor::missed_by(monitor, BlockOutcome::Missing).len() == 0,
        monitor::missed_by(monitor, BlockOutcome::Failed(failure)).len() == 0,
{
    monitor::law_missed_or_voted(block, monitor.accounts(), account);
}

/// A miss can be counted for each account whose count is below the last number
/// of 32 bits.
pub proof fn law_room_to_count(monitor: Monitor, outcome: BlockOutcome)
    ensures
        monitor::has_room(monitor, outcome) <==> forall|account: Seq<char>| #[trigger]
            monitor::missed_by(monitor, outcome).contains(account) ==> monitor.count(account)
                <= 0xffff_fffe,
{
}

/// One recorded list raises the count of each of its accounts by one, and leaves
/// the other counts and the accounts as they were.
pub proof fn law_record_adds_one(
    before: Monitor,
    after: Monitor,
    missed: Seq<Seq<char>>,
    account: Seq<char>,
)
    requires
        monitor::recorded(before, after, missed),
    ensures
        after.accounts() == before.accounts(),
        missed.contains(account) ==> after.count(account) == before.count(account) + 1,
        !missed.contains(account) ==> after.count(account) == before.count(account),
{
}

/// What is told of a slot with a block: how many votes the block holds, the
/// accounts that are checked and have none, in order, and the slot's leader.
pub proof fn law_line_of_a_block(
    before: Monitor,
    leaders: Map<u64, String>,
    slot: u64,
    block: BlockResult,
    line: SlotLine,
)
    requires
        monitor::line_for(before, leaders, slot, BlockOutcome::Block(block), line),
    ensures
        line is Checked,
        line->report.votes == block.votes().len(),
        text::views(line->report.missed@) == monitor::missed_in(block, before.accounts()),
        leaders.contains_key(slot) ==> line->Checked_leader@ == leaders[slot]@,
        !leaders.contains_key(slot) ==> line->Checked_leader@ == "unknown"@,
{
}

/// What is told of a slot without a block: its number, its leader, the failure
/// where there was one, and the pause where there was none.
pub proof fn law_line_without_a_block(
    before: Monitor,
    leaders: Map<u64, String>,
    slot: u64,
    outcome: BlockOutcome,
    line: SlotLine,
)
    requires
        monitor::line_for(before, leaders, slot, outcome, line),
        outcome !is Block,
    ensures
        line is Unchecked,
        line->info@ == "No block found for "@ + text::decimal(slot as nat),
        leaders.contains_key(slot) ==> line->Unchecked_leader@ == leaders[slot]@,
        !leaders.contains_key(slot) ==> line->Unchecked_leader@ == "unknown"@,
        outcome is Missing ==> line->failure is None && line->pause_ms == 300,
        outcome is Failed ==> line->failure is Some && line->failure->0@ == outcome->Failed_0@
            && line->pause_ms == 0,
{
}

/// The summary's entries name no account twice where none is checked twice.
pub proof fn law_entries_are_distinct(monitor: Monitor, i: int, j: int)
    requires
        monitor.accounts().no_duplicates(),
        0 <= i < j < monitor.entries().len(),
    ensures
        monitor.entries()[i].0 != monitor.entries()[j].0,
{
    let late = |account: Seq<char>| monitor.count(account) > 0;
    lemma_filter_is_distinct(monitor.accounts(), late);
}

proof fn lemma_filter_is_distinct(list: Seq<Seq<char>>, keep: spec_fn(Seq<char>) -> bool)
    requires
        list.no_duplicates(),
    ensures
        list.filter(keep).no_duplicates(),
        forall|i: int| 0 <= i < list.filter(keep).len() ==> list.contains(
            #[trigger] list.filter(keep)[i],
        ),
    decreases list.len(),
{
    reveal(Seq::filter);
    if list.len() > 0 {
        let shorter = list.drop_last();
        let kept = shorter.filter(keep);
        lemma_filter_is_distinct(shorter, keep);
        assert(list[list.len() - 1] == list.last());
        assert forall|i: int| 0 <= i < kept.len() implies list.contains(#[trigger] kept[i])
            && kept[i] != list.last() by {
            assert(shorter.contains(kept[i]));
            let at = choose|at: int| 0 <= at < shorter.len() && shorter[at] == kept[i];
            assert(list[at] == kept[i]);
        }
        assert(list.contains(list.last()));
    }
}

/// At the start every account of the list is checked, none of them twice, no
/// other account is, and no vote is missed.
pub proof fn law_start(monitor: Monitor, list: Seq<Seq<char>>, account: Seq<char>)
    requires
        monitor::started(monitor, list),
    ensures
        monitor.accounts().contains(account) <==> list.contains(account),
        monitor.accounts().no_duplicates(),
        monitor.count(account) == 0,
{
    accounts::law_unique_keeps_accounts(list, account);
    accounts::law_unique_has_no_duplicates(list);
}

/// A ranking names an account with a count exactly where the account is checked
/// and has missed that many votes, and at least one; it names none twice, and an
/// account with more missed votes never comes after one with fewer.
pub proof fn law_ranking(ranking: Seq<(Seq<char>, u32)>, monitor: Monitor)
    requires
        monitor::is_ranking(ranking, monitor),
        monitor.accounts().no_duplicates(),
    ensures
        forall|account: Seq<char>, count: u32| #[trigger]
            ranking.contains((account, count)) <==> monitor.accounts().contains(account)
                && monitor.count(account) == count && count > 0,
        forall|i: int, j: int|
            0 <= i < j < ranking.len() ==> (#[trigger] ranking[i]).0 != (#[trigger] ranking[j]).0
                && ranking[i].1 >= ranking[j].1,
{
    let entries = monitor.entries();
    ranking.to_multiset_ensures();
    entries.to_multiset_ensures();
    assert forall|account: Seq<char>, count: u32| #[trigger]
        ranking.contains((account, count)) <==> monitor.accounts().contains(account)
            && monitor.count(account) == count && count > 0 by {
        monitor::law_entries_are_the_misses(monitor, account, count);
        assert(ranking.contains((account, count)) <==> ranking.to_multiset().count(
            (account, count),
        ) > 0);
        assert(entries.contains((account, count)) <==> entries.to_multiset().count(
            (account, count),
        ) > 0);
    }
    assert forall|i: int, j: int| 0 <= i < j < entries.len() implies entries[i] != entries[j] by {
        law_entries_are_distinct(monitor, i, j);
    }
    assert(entries.no_duplicates());
    entries.lemma_multiset_has_no_duplicates();
    assert forall|i: int, j: int| 0 <= i < j < ranking.len() implies (#[trigger] ranking[i]).0 != (
    #[trigger] ranking[j]).0 by {
        if ranking[i].0 == ranking[j].0 {
            let entry = ranking[i];
            assert(ranking.contains((ranking[i].0, ranking[i].1)));
            assert(ranking.contains((ranking[j].0, ranking[j].1)));
            assert(ranking[j] == entry);
            let shorter = ranking.remove(j);
            vstd::seq_lib::to_multiset_remove(ranking, j);
            assert(shorter[i] == entry);
            assert(shorter.contains(entry));
            shorter.to_multiset_ensures();
            assert(shorter.to_multiset().count(entry) > 0);
            assert(ranking.to_multiset().count(entry) > 1);
            assert(entries.to_multiset().contains(entry));
        }
    }
}

/// The entries of a ranking say which account they name and its count, in order.
pub proof fn law_ranking_entries(entries: Seq<(String, u32)>)
    ensures
        monitor::entry_views(entries).len() == entries.len(),
        forall|i: int|
            0 <= i < entries.len() ==> #[trigger] monitor::entry_views(entries)[i] == (
                entries[i].0@,
                entries[i].1,
            ),
{
}

} // verus!
