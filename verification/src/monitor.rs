//! Which accounts miss votes, block by block and over all.

use crate::accounts;
use crate::block::{self, BlockResult, Transaction};
use crate::leaders;
use crate::pacing;
use crate::slots;
use crate::text;
use std::collections::HashMap;
use vstd::hash_map::StringHashMap;
use vstd::hash_set::StringHashSet;
use vstd::prelude::*;

verus! {

/// The block holds a vote transaction that names the account first.
pub open spec fn voted(block: BlockResult, account: Seq<char>) -> bool {
    exists|i: int|
        0 <= i < block.votes().len() && (#[trigger] block.votes()[i]).first_account() == Some(
            account,
        )
}

/// The accounts without a vote in a block, in their order.
pub open spec fn missed_in(block: BlockResult, accounts: Seq<Seq<char>>) -> Seq<Seq<char>> {
    accounts.filter(|account: Seq<char>| !voted(block, account))
}

/// What one block shows.
#[derive(Debug)]
pub struct SlotReport {
    /// How many vote transactions the block holds.
    pub votes: usize,
    /// The accounts without a vote, in the order in which they are checked.
    pub missed: Vec<String>,
}

/// An account and how many votes it missed, for each entry of a list.
pub open spec fn entry_views(entries: Seq<(String, u32)>) -> Seq<(Seq<char>, u32)> {
    Seq::new(entries.len(), |i: int| (entries[i].0@, entries[i].1))
}

/// The accounts that votes are checked of, and how many each has missed.
pub struct Monitor {
    accounts: Vec<String>,
    missed: StringHashMap<u32>,
}

impl Monitor {
    #[verifier::type_invariant]
    spec fn consistent(self) -> bool {
        &&& text::views(self.accounts@).no_duplicates()
        &&& forall|account: Seq<char>| #[trigger]
            self.missed@.contains_key(account) ==> text::views(self.accounts@).contains(account)
                && self.missed@[account] > 0
    }

    /// The accounts that are checked, in order.
    pub closed spec fn accounts(self) -> Seq<Seq<char>> {
        text::views(self.accounts@)
    }

    /// How many votes an account has missed.
    pub closed spec fn count(self, account: Seq<char>) -> u32 {
        count_in(self.missed@, account)
    }

    /// The accounts that have missed votes, in order, with their counts.
    pub open spec fn entries(self) -> Seq<(Seq<char>, u32)> {
        let late = self.accounts().filter(|account: Seq<char>| self.count(account) > 0);
        Seq::new(late.len(), |i: int| (late[i], self.count(late[i])))
    }
}

/// The accounts of a list are checked, and none has missed a vote.
pub open spec fn started(monitor: Monitor, list: Seq<Seq<char>>) -> bool {
    &&& monitor.accounts() == accounts::first_occurrences(list)
    &&& forall|account: Seq<char>| #[trigger] monitor.count(account) == 0
}

/// The list holds the accounts that have missed votes with their counts, most
/// first.
pub open spec fn is_ranking(ranking: Seq<(Seq<char>, u32)>, monitor: Monitor) -> bool {
    &&& ranking.to_multiset() == monitor.entries().to_multiset()
    &&& forall|i: int, j: int|
        0 <= i < j < ranking.len() ==> (#[trigger] ranking[i]).1 >= (#[trigger] ranking[j]).1
}

/// Between the two states the given accounts have missed one vote each.
pub open spec fn recorded(before: Monitor, after: Monitor, missed: Seq<Seq<char>>) -> bool {
    &&& after.accounts() == before.accounts()
    &&& forall|account: Seq<char>| #[trigger]
        after.count(account) == before.count(account) + if missed.contains(account) {
            1int
        } else {
            0
        }
}

/// The accounts that vote transactions name first.
fn first_accounts(votes: &Vec<&Transaction>) -> (found: StringHashSet)
    ensures
        forall|account: Seq<char>| #[trigger]
            found@.contains(account) <==> exists|i: int|
                0 <= i < votes@.len() && (#[trigger] votes@[i]).first_account() == Some(account),
{
    let mut found = StringHashSet::new();
    let mut i: usize = 0;
    while i < votes.len()
        invariant
            i <= votes.len(),
            forall|account: Seq<char>| #[trigger]
                found@.contains(account) <==> exists|j: int|
                    0 <= j < i && (#[trigger] votes@[j]).first_account() == Some(account),
        decreases votes.len() - i,
    {
        let ghost before = found@;
        let keys = &votes[i].transaction.message.account_keys;
        if keys.len() > 0 {
            found.insert(keys[0].clone());
        }
        assert forall|account: Seq<char>| #[trigger]
            found@.contains(account) <==> exists|j: int|
                0 <= j < i + 1 && (#[trigger] votes@[j]).first_account() == Some(account) by {
            if found@.contains(account) {
                if before.contains(account) {
                    let j = choose|j: int|
                        0 <= j < i && (#[trigger] votes@[j]).first_account() == Some(account);
                    assert(votes@[j].first_account() == Some(account));
                } else {
                    assert(votes@[i as int].first_account() == Some(account));
                }
            }
        }
        i += 1;
    }
    found
}

impl Monitor {
    /// Starts with no missed votes; an account that is listed again counts once.
    pub fn new(accounts: &Vec<String>) -> (monitor: Monitor)
        ensures
            monitor.accounts() == accounts::first_occurrences(text::views(accounts@)),
            forall|account: Seq<char>| #[trigger] monitor.count(account) == 0,
            started(monitor, text::views(accounts@)),
    {
        proof {
            accounts::law_unique_has_no_duplicates(text::views(accounts@));
        }
        Monitor { accounts: accounts::unique_accounts(accounts), missed: StringHashMap::new() }
    }

    /// How many votes an account has missed.
    pub fn missed_votes(&self, account: &str) -> (count: u32)
        ensures
            count == self.count(account@),
    {
        match self.missed.get(account) {
            Some(count) => *count,
            None => 0,
        }
    }

    /// What a block shows: its vote transactions, and which accounts have none.
    pub fn inspect(&self, block: &BlockResult) -> (report: SlotReport)
        ensures
            report.votes == block.votes().len(),
            text::views(report.missed@) == missed_in(*block, self.accounts()),
            text::views(report.missed@).no_duplicates(),
            forall|account: Seq<char>| #[trigger]
                text::views(report.missed@).contains(account) ==> self.accounts().contains(
                    account,
                ),
    {
        proof {
            use_type_invariant(self);
        }
        let votes = block::extract_vote_transactions(block);
        let found = first_accounts(&votes);
        let ghost absent = |account: Seq<char>| !voted(*block, account);
        let ghost all = self.accounts();
        proof {
            assert(block::targets(votes@) == block.votes());
            assert forall|account: Seq<char>| #[trigger]
                found@.contains(account) <==> voted(*block, account) by {
                if found@.contains(account) {
                    let i = choose|i: int|
                        0 <= i < votes@.len() && (#[trigger] votes@[i]).first_account() == Some(
                            account,
                        );
                    assert(block.votes()[i] == *votes@[i]);
                }
                if voted(*block, account) {
                    let i = choose|i: int|
                        0 <= i < block.votes().len() && (
                        #[trigger] block.votes()[i]).first_account() == Some(account);
                    assert(block.votes()[i] == *votes@[i]);
                }
            }
            assert(all.take(0).filter(absent) =~= Seq::empty()) by {
                reveal(Seq::filter);
            }
        }
        let mut missed: Vec<String> = Vec::new();
        let mut i: usize = 0;
        assert(text::views(missed@) =~= all.take(0).filter(absent));
        while i < self.accounts.len()
            invariant
                i <= self.accounts.len(),
                all == text::views(self.accounts@),
                absent == (|account: Seq<char>| !voted(*block, account)),
                forall|account: Seq<char>| #[trigger]
                    found@.contains(account) <==> voted(*block, account),
                text::views(missed@) == all.take(i as int).filter(absent),
            decreases self.accounts.len() - i,
        {
            let account = &self.accounts[i];
            let ghost before = text::views(missed@);
            proof {
                all.take(i as int).lemma_filter_push(account@, absent);
                assert(all.take(i as int).push(account@) == all.take(i + 1));
            }
            if !found.contains(account.as_str()) {
                missed.push(account.clone());
                assert(text::views(missed@) =~= before.push(account@));
            }
            i += 1;
        }
        assert(all.take(i as int) == all);
        proof {
            lemma_filter_keeps_no_duplicates(all, absent);
            assert forall|account: Seq<char>| #[trigger]
                text::views(missed@).contains(account) implies all.contains(account) by {
                lemma_filter_contains(all, absent, account);
            }
        }
        SlotReport { votes: votes.len(), missed }
    }
}

impl Monitor {
    /// Counts one more missed vote for each of the given accounts.
    pub fn record(&mut self, missed: &Vec<String>)
        requires
            text::views(missed@).no_duplicates(),
            forall|account: Seq<char>| #[trigger]
                text::views(missed@).contains(account) ==> old(self).accounts().contains(account)
                    && old(self).count(account) < u32::MAX,
        ensures
            recorded(*old(self), *final(self), text::views(missed@)),
    {
        proof {
            use_type_invariant(&*self);
        }
        let ghost list = text::views(missed@);
        let ghost start = self.missed@;
        let ghost all = self.accounts();
        let mut counts: StringHashMap<u32> = StringHashMap::new();
        std::mem::swap(&mut counts, &mut self.missed);
        let mut i: usize = 0;
        while i < missed.len()
            invariant
                i <= missed.len(),
                list == text::views(missed@),
                list.no_duplicates(),
                forall|account: Seq<char>| #[trigger]
                    list.contains(account) ==> all.contains(account) && count_in(start, account)
                        < u32::MAX,
                forall|account: Seq<char>| #[trigger]
                    start.contains_key(account) ==> all.contains(account) && start[account] > 0,
                forall|account: Seq<char>| #[trigger]
                    counts@.contains_key(account) ==> all.contains(account) && counts@[account] > 0,
                forall|account: Seq<char>| #[trigger]
                    count_in(counts@, account) == count_in(start, account) + if list.take(
                        i as int,
                    ).contains(account) {
                        1int
                    } else {
                        0
                    },
            decreases missed.len() - i,
        {
            let account = &missed[i];
            let ghost before = counts@;
            proof {
                assert(list[i as int] == account@);
                assert(list.contains(account@));
                if list.take(i as int).contains(account@) {
                    let at = choose|at: int|
                        0 <= at < list.take(i as int).len() && #[trigger] list.take(i as int)[at]
                            == account@;
                    assert(list[at] == list[i as int]);
                }
                assert(count_in(before, account@) == count_in(start, account@));
            }
            let count: u32 = match counts.get(account.as_str()) {
                Some(count) => *count,
                None => 0,
            };
            counts.insert(account.clone(), count + 1);
            assert forall|other: Seq<char>| #[trigger]
                count_in(counts@, other) == count_in(start, other) + if list.take(i + 1).contains(
                    other,
                ) {
                    1int
                } else {
                    0
                } by {
                assert(count_in(before, other) == count_in(start, other) + if list.take(
                    i as int,
                ).contains(other) {
                    1int
                } else {
                    0
                });
                assert(list.take(i + 1) == list.take(i as int).push(account@));
                lemma_push_contains(list.take(i as int), account@, other);
            }
            i += 1;
        }
        assert(list.take(i as int) == list);
        self.missed = counts;
        assert forall|account: Seq<char>| #[trigger]
            self.count(account) == old(self).count(account) + if list.contains(account) {
                1int
            } else {
                0
            } by {
            assert(self.count(account) == count_in(counts@, account));
            assert(old(self).count(account) == count_in(start, account));
        }
    }

    /// The accounts that have missed votes with how many, most first.
    pub fn summary(&self) -> (ranking: Vec<(String, u32)>)
        ensures
            entry_views(ranking@).to_multiset() == self.entries().to_multiset(),
            forall|i: int, j: int|
                0 <= i < j < ranking@.len() ==> (#[trigger] ranking@[i]).1 >= (
                #[trigger] ranking@[j]).1,
            is_ranking(entry_views(ranking@), *self),
    {
        let ghost late = |account: Seq<char>| self.count(account) > 0;
        let ghost all = self.accounts();
        let mut ranking: Vec<(String, u32)> = Vec::new();
        let mut i: usize = 0;
        proof {
            assert(all.take(0).filter(late) =~= Seq::empty()) by {
                reveal(Seq::filter);
            }
            assert(with_counts(*self, all.take(0).filter(late)) =~= entry_views(ranking@));
        }
        while i < self.accounts.len()
            invariant
                i <= self.accounts.len(),
                all == text::views(self.accounts@),
                late == (|account: Seq<char>| self.count(account) > 0),
                entry_views(ranking@).to_multiset() == with_counts(
                    *self,
                    all.take(i as int).filter(late),
                ).to_multiset(),
                forall|a: int, b: int|
                    0 <= a < b < ranking@.len() ==> (#[trigger] ranking@[a]).1 >= (
                    #[trigger] ranking@[b]).1,
            decreases self.accounts.len() - i,
        {
            let account = &self.accounts[i];
            let ghost shorter = all.take(i as int).filter(late);
            proof {
                all.take(i as int).lemma_filter_push(account@, late);
                assert(all.take(i as int).push(account@) == all.take(i + 1));
            }
            let count: u32 = self.missed_votes(account.as_str());
            if count > 0 {
                let ghost before = entry_views(ranking@);
                let place: usize = place_of(&ranking, count);
                ranking.insert(place, (account.clone(), count));
                proof {
                    let entry = (account@, count);
                    assert(entry_views(ranking@) =~= before.insert(place as int, entry));
                    lemma_insert_to_multiset(before, place as int, entry);
                    assert(with_counts(*self, shorter.push(account@)) =~= with_counts(
                        *self,
                        shorter,
                    ).push(entry));
                    vstd::seq_lib::to_multiset_build(with_counts(*self, shorter), entry);
                }
            }
            i += 1;
        }
        assert(all.take(i as int) == all);
        assert(with_counts(*self, all.filter(late)) =~= self.entries());
        assert forall|a: int, b: int| 0 <= a < b < ranking@.len() implies (
        #[trigger] entry_views(ranking@)[a]).1 >= (#[trigger] entry_views(ranking@)[b]).1 by {
            assert(ranking@[a].1 >= ranking@[b].1);
        }
        ranking
    }
}

/// How the request for the block of a slot ended.
#[derive(Debug)]
pub enum BlockOutcome {
    /// With the block.
    Block(BlockResult),
    /// Without a block: the node has none for the slot.
    Missing,
    /// With a failure.
    Failed(String),
}

/// What is to be told of a slot.
#[derive(Debug)]
pub enum SlotLine {
    /// The slot has a block, and this is what it shows.
    Checked { report: SlotReport, leader: String },
    /// There is no block to look at. Before going on there is a pause.
    Unchecked { info: String, leader: String, failure: Option<String>, pause_ms: u64 },
}

/// The name under which the leader of a slot is reported.
pub open spec fn leader_view(leaders: Map<u64, String>, slot: u64) -> Seq<char> {
    match leaders::known_leader(leaders, slot) {
        Some(leader) => leader,
        None => "unknown"@,
    }
}

/// The accounts that missed a vote in the block with which a request ended.
pub open spec fn missed_by(monitor: Monitor, outcome: BlockOutcome) -> Seq<Seq<char>> {
    match outcome {
        BlockOutcome::Block(block) => missed_in(block, monitor.accounts()),
        _ => Seq::empty(),
    }
}

/// One more missed vote can be counted for every account that missed one.
pub open spec fn has_room(monitor: Monitor, outcome: BlockOutcome) -> bool {
    forall|account: Seq<char>| #[trigger]
        missed_by(monitor, outcome).contains(account) ==> monitor.count(account) < u32::MAX
}

/// The line that is due for a slot after the request for its block ended.
pub open spec fn line_for(
    before: Monitor,
    leaders: Map<u64, String>,
    slot: u64,
    outcome: BlockOutcome,
    line: SlotLine,
) -> bool {
    match (outcome, line) {
        (BlockOutcome::Block(block), SlotLine::Checked { report, leader }) => {
            &&& report.votes == block.votes().len()
            &&& text::views(report.missed@) == missed_in(block, before.accounts())
            &&& leader@ == leader_view(leaders, slot)
        },
        (BlockOutcome::Missing, SlotLine::Unchecked { info, leader, failure, pause_ms }) => {
            &&& info@ == "No block found for "@ + text::decimal(slot as nat)
            &&& leader@ == leader_view(leaders, slot)
            &&& failure is None
            &&& pause_ms == pacing::MISSING_BLOCK_PAUSE_MS
        },
        (BlockOutcome::Failed(reason), SlotLine::Unchecked { info, leader, failure, pause_ms }) => {
            &&& info@ == "No block found for "@ + text::decimal(slot as nat)
            &&& leader@ == leader_view(leaders, slot)
            &&& failure is Some
            &&& failure->0@ == reason@
            &&& pause_ms == 0
        },
        _ => false,
    }
}

impl Monitor {
    /// Whether one more missed vote can be counted for every account that missed
    /// one.
    pub fn can_count(&self, outcome: &BlockOutcome) -> (room: bool)
        ensures
            room == has_room(*self, *outcome),
    {
        match outcome {
            BlockOutcome::Block(block) => {
                let report = self.inspect(block);
                let ghost list = text::views(report.missed@);
                let mut i: usize = 0;
                while i < report.missed.len()
                    invariant
                        i <= report.missed.len(),
                        list == text::views(report.missed@),
                        list == missed_by(*self, *outcome),
                        forall|j: int|
                            0 <= j < i ==> self.count(#[trigger] list[j]) < u32::MAX,
                    decreases report.missed.len() - i,
                {
                    if self.missed_votes(report.missed[i].as_str()) == u32::MAX {
                        assert(list[i as int] == report.missed@[i as int]@);
                        assert(list.contains(list[i as int]));
                        return false;
                    }
                    assert(list[i as int] == report.missed@[i as int]@);
                    i += 1;
                }
                true
            },
            _ => true,
        }
    }

    /// Takes in how the request for the block of a slot ended: counts the votes
    /// that the block misses, and says what is to be told of the slot.
    pub fn after_slot(
        &mut self,
        leaders: &HashMap<u64, String>,
        slot: u64,
        outcome: &BlockOutcome,
    ) -> (line: SlotLine)
        requires
            has_room(*old(self), *outcome),
        ensures
            line_for(*old(self), leaders@, slot, *outcome, line),
            recorded(*old(self), *final(self), missed_by(*old(self), *outcome)),
    {
        let leader = leaders::leader_name(leaders, slot);
        match outcome {
            BlockOutcome::Block(block) => {
                let report = self.inspect(block);
                assert(text::views(report.missed@) == missed_by(*self, *outcome));
                assert forall|account: Seq<char>| #[trigger]
                    text::views(report.missed@).contains(account) implies self.count(account)
                    < u32::MAX by {
                    assert(missed_by(*self, *outcome).contains(account));
                }
                self.record(&report.missed);
                SlotLine::Checked { report, leader }
            },
            BlockOutcome::Missing => SlotLine::Unchecked {
                info: slots::missing_block_info(slot),
                leader,
                failure: None,
                pause_ms: pacing::MISSING_BLOCK_PAUSE_MS,
            },
            BlockOutcome::Failed(reason) => SlotLine::Unchecked {
                info: slots::missing_block_info(slot),
                leader,
                failure: Some(reason.clone()),
                pause_ms: 0,
            },
        }
    }
}

/// How many votes an account has missed, by a table of counts.
spec fn count_in(counts: Map<Seq<char>, u32>, account: Seq<char>) -> u32 {
    if counts.contains_key(account) {
        counts[account]
    } else {
        0
    }
}

/// Each account of a list with how many votes it has missed.
spec fn with_counts(monitor: Monitor, list: Seq<Seq<char>>) -> Seq<(Seq<char>, u32)> {
    Seq::new(list.len(), |i: int| (list[i], monitor.count(list[i])))
}

/// The first place in a ranking whose count is lower than the given one.
fn place_of(ranking: &Vec<(String, u32)>, count: u32) -> (place: usize)
    requires
        forall|i: int, j: int|
            0 <= i < j < ranking@.len() ==> (#[trigger] ranking@[i]).1 >= (
            #[trigger] ranking@[j]).1,
    ensures
        place <= ranking@.len(),
        forall|i: int| 0 <= i < place ==> (#[trigger] ranking@[i]).1 >= count,
        forall|i: int| place <= i < ranking@.len() ==> (#[trigger] ranking@[i]).1 < count,
{
    let mut place: usize = 0;
    while place < ranking.len() && ranking[place].1 >= count
        invariant
            place <= ranking.len(),
            forall|i: int| 0 <= i < place ==> (#[trigger] ranking@[i]).1 >= count,
        decreases ranking.len() - place,
    {
        place += 1;
    }
    place
}

proof fn lemma_push_contains(list: Seq<Seq<char>>, item: Seq<char>, wanted: Seq<char>)
    ensures
        list.push(item).contains(wanted) <==> list.contains(wanted) || wanted == item,
{
    let longer = list.push(item);
    assert(longer[list.len() as int] == item);
    if list.contains(wanted) {
        let at = choose|at: int| 0 <= at < list.len() && list[at] == wanted;
        assert(longer[at] == wanted);
    }
    if longer.contains(wanted) && wanted != item {
        let at = choose|at: int| 0 <= at < longer.len() && longer[at] == wanted;
        assert(list[at] == wanted);
    }
}

proof fn lemma_insert_to_multiset<A>(list: Seq<A>, place: int, item: A)
    requires
        0 <= place <= list.len(),
    ensures
        list.insert(place, item).to_multiset() == list.to_multiset().insert(item),
{
    let longer = list.insert(place, item);
    assert(longer.remove(place) =~= list);
    vstd::seq_lib::to_multiset_remove(longer, place);
    assert(longer[place] == item);
    longer.to_multiset_ensures();
    assert(longer.contains(item));
    assert(longer.to_multiset().count(item) > 0);
    assert(longer.to_multiset() =~= list.to_multiset().insert(item));
}

/// An account is reported for a block exactly where it is checked and the block
/// holds no vote of it.
pub proof fn law_missed_or_voted(
    block: BlockResult,
    accounts: Seq<Seq<char>>,
    account: Seq<char>,
)
    ensures
        missed_in(block, accounts).contains(account) <==> accounts.contains(account) && !voted(
            block,
            account,
        ),
{
    lemma_filter_contains(accounts, |account: Seq<char>| !voted(block, account), account);
}

/// The summary is drawn from the accounts that are checked and have missed
/// votes, each with its count.
pub proof fn law_entries_are_the_misses(monitor: Monitor, account: Seq<char>, count: u32)
    ensures
        monitor.entries().contains((account, count)) <==> monitor.accounts().contains(account)
            && monitor.count(account) == count && count > 0,
{
    let late = |account: Seq<char>| monitor.count(account) > 0;
    let listed = monitor.accounts().filter(late);
    lemma_filter_contains(monitor.accounts(), late, account);
    if monitor.entries().contains((account, count)) {
        let at = choose|at: int|
            0 <= at < monitor.entries().len() && #[trigger] monitor.entries()[at] == (
                account,
                count,
            );
        assert(listed[at] == account);
    }
    if listed.contains(account) && monitor.count(account) == count {
        let at = choose|at: int| 0 <= at < listed.len() && listed[at] == account;
        assert(monitor.entries()[at] == (account, count));
    }
}

/// The lists in which an account stands.
pub open spec fn lists_with(lists: Seq<Seq<Seq<char>>>, account: Seq<char>) -> Seq<
    Seq<Seq<char>>,
> {
    lists.filter(|list: Seq<Seq<char>>| list.contains(account))
}

/// The count of an account is the number of recorded lists in which it stands,
/// so it does not pass the number of recorded lists.
pub proof fn law_count_is_number_of_misses(
    history: Seq<Monitor>,
    lists: Seq<Seq<Seq<char>>>,
    account: Seq<char>,
)
    requires
        history.len() == lists.len() + 1,
        history[0].count(account) == 0,
        forall|i: int|
            0 <= i < lists.len() ==> recorded(history[i], #[trigger] history[i + 1], lists[i]),
    ensures
        history.last().count(account) == lists_with(lists, account).len(),
        history.last().count(account) <= lists.len(),
    decreases lists.len(),
{
    reveal(Seq::filter);
    if lists.len() > 0 {
        let last = lists.len() - 1;
        law_count_is_number_of_misses(history.drop_last(), lists.drop_last(), account);
        assert(recorded(history[last], history[last + 1], lists[last]));
        assert(history.drop_last().last() == history[last]);
    }
}

/// There is nothing to summarise exactly where no account that is checked has
/// missed a vote.
pub proof fn law_summary_is_empty_without_misses(monitor: Monitor)
    ensures
        monitor.entries().len() == 0 <==> forall|account: Seq<char>| #[trigger]
            monitor.accounts().contains(account) ==> monitor.count(account) == 0,
{
    let late = |account: Seq<char>| monitor.count(account) > 0;
    let listed = monitor.accounts().filter(late);
    if listed.len() == 0 {
        assert forall|account: Seq<char>| #[trigger]
            monitor.accounts().contains(account) implies monitor.count(account) == 0 by {
            lemma_filter_contains(monitor.accounts(), late, account);
        }
    } else {
        assert(listed.contains(listed[0]));
        lemma_filter_contains(monitor.accounts(), late, listed[0]);
    }
}

/// A request ended with a block that holds no vote of the account.
pub open spec fn shows_a_miss(outcome: BlockOutcome, account: Seq<char>) -> bool {
    match outcome {
        BlockOutcome::Block(block) => !voted(block, account),
        _ => false,
    }
}

/// After a number of slots the count of an account that is checked is the number
/// of those slots whose block holds no vote of it. A slot without a block counts
/// for nobody, and the accounts that are checked stay the same.
pub proof fn law_count_is_blocks_without_vote(
    history: Seq<Monitor>,
    outcomes: Seq<BlockOutcome>,
    account: Seq<char>,
)
    requires
        history.len() == outcomes.len() + 1,
        history[0].accounts().contains(account),
        history[0].count(account) == 0,
        forall|i: int|
            0 <= i < outcomes.len() ==> recorded(
                history[i],
                #[trigger] history[i + 1],
                missed_by(history[i], outcomes[i]),
            ),
    ensures
        history.last().accounts() == history[0].accounts(),
        history.last().count(account) == outcomes.filter(
            |outcome: BlockOutcome| shows_a_miss(outcome, account),
        ).len(),
    decreases outcomes.len(),
{
    reveal(Seq::filter);
    if outcomes.len() > 0 {
        let last = outcomes.len() - 1;
        let before = history[last];
        law_count_is_blocks_without_vote(history.drop_last(), outcomes.drop_last(), account);
        assert(history.drop_last().last() == before);
        assert(recorded(before, history[last + 1], missed_by(before, outcomes[last])));
        if let BlockOutcome::Block(block) = outcomes[last] {
            law_missed_or_voted(block, before.accounts(), account);
        }
    }
}

proof fn lemma_filter_contains(
    list: Seq<Seq<char>>,
    keep: spec_fn(Seq<char>) -> bool,
    item: Seq<char>,
)
    ensures
        list.filter(keep).contains(item) <==> list.contains(item) && keep(item),
    decreases list.len(),
{
    reveal(Seq::filter);
    if list.len() > 0 {
        let shorter = list.drop_last();
        lemma_filter_contains(shorter, keep, item);
        assert(list[list.len() - 1] == list.last());
        if list.contains(item) && item != list.last() {
            let at = choose|at: int| 0 <= at < list.len() && list[at] == item;
            assert(shorter[at] == item);
        }
        if shorter.contains(item) {
            let at = choose|at: int| 0 <= at < shorter.len() && shorter[at] == item;
            assert(list[at] == item);
        }
        let kept = shorter.filter(keep);
        if kept.contains(item) {
            let at = choose|at: int| 0 <= at < kept.len() && kept[at] == item;
            assert(kept.push(list.last())[at] == item);
        }
        assert(kept.push(list.last())[kept.len() as int] == list.last());
    }
}

proof fn lemma_filter_keeps_no_duplicates(
    list: Seq<Seq<char>>,
    keep: spec_fn(Seq<char>) -> bool,
)
    requires
        list.no_duplicates(),
    ensures
        list.filter(keep).no_duplicates(),
    decreases list.len(),
{
    reveal(Seq::filter);
    if list.len() > 0 {
        let shorter = list.drop_last();
        let kept = shorter.filter(keep);
        lemma_filter_keeps_no_duplicates(shorter, keep);
        lemma_filter_contains(shorter, keep, list.last());
        if shorter.contains(list.last()) {
            let at = choose|at: int| 0 <= at < shorter.len() && shorter[at] == list.last();
            assert(list[at] == list[list.len() - 1]);
        }
        assert forall|i: int| 0 <= i < kept.len() implies kept.contains(#[trigger] kept[i]) by {}
    }
}

} // verus!
