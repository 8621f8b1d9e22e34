//! Laws of choosing accounts and slots.

use crate::accounts::{self, AccountsError, AccountsErrorView};
use crate::slots::{self, SlotsError, SlotsErrorView};
use crate::text;
use vstd::prelude::*;

verus! {

/// There is nothing to check exactly where neither an account was given nor one
/// is listed; else every account that was given or listed is checked, and none
/// twice.
pub proof fn law_all_accounts_are_checked(given: Seq<Seq<char>>, listed: Seq<Seq<char>>)
    ensures
        accounts::merged(given, listed) is Err <==> given.len() == 0 && listed.len() == 0,
        accounts::merged(given, listed) is Err ==> accounts::merged(given, listed)->Err_0
            == AccountsErrorView::NoneGiven,
        accounts::merged(given, listed) is Ok ==> {
            let all = accounts::merged(given, listed)->Ok_0;
            &&& all.no_duplicates()
            &&& forall|account: Seq<char>| #[trigger]
                all.contains(account) <==> given.contains(account) || listed.contains(account)
        },
{
    let list = given + listed;
    if list.len() > 0 {
        let all = accounts::merged(given, listed)->Ok_0;
        accounts::law_unique_has_no_duplicates(list);
        assert forall|account: Seq<char>| #[trigger]
            all.contains(account) <==> given.contains(account) || listed.contains(account) by {
            accounts::law_unique_keeps_accounts(list, account);
            if list.contains(account) {
                let at = choose|at: int| 0 <= at < list.len() && list[at] == account;
                if at < given.len() {
                    assert(given[at] == account);
                } else {
                    assert(listed[at - given.len()] == account);
                }
            }
            if given.contains(account) {
                let at = choose|at: int| 0 <= at < given.len() && given[at] == account;
                assert(list[at] == account);
            }
            if listed.contains(account) {
                let at = choose|at: int| 0 <= at < listed.len() && listed[at] == account;
                assert(list[at + given.len()] == account);
            }
        }
    }
}

/// Accounts are checked in the order in which they first occur, the given ones
/// before the listed ones: where one comes before another, it stands at a place
/// up to which the other does not.
pub proof fn law_accounts_are_checked_in_order(
    given: Seq<Seq<char>>,
    listed: Seq<Seq<char>>,
    i: int,
    j: int,
)
    requires
        accounts::merged(given, listed) is Ok,
        0 <= i < j < accounts::merged(given, listed)->Ok_0.len(),
    ensures
        exists|at: int|
            0 <= at < (given + listed).len() && #[trigger] (given + listed)[at]
                == accounts::merged(given, listed)->Ok_0[i] && !(given + listed).take(
                at + 1,
            ).contains(accounts::merged(given, listed)->Ok_0[j]),
{
    accounts::law_unique_keeps_order(given + listed, i, j);
}

/// Accounts among which none occurs twice are checked as they are.
pub proof fn law_distinct_accounts_are_kept(given: Seq<Seq<char>>, listed: Seq<Seq<char>>)
    requires
        (given + listed).no_duplicates(),
        (given + listed).len() > 0,
    ensures
        accounts::merged(given, listed) == Ok::<Seq<Seq<char>>, AccountsErrorView>(given + listed),
{
    accounts::law_unique_is_idempotent(given + listed);
}

/// The accounts of a file count as listed; a file that cannot be read is a
/// failure, and without a file nothing is listed.
pub proof fn law_accounts_of_a_file(
    given: Seq<Seq<char>>,
    document: Seq<char>,
    listed: Seq<Seq<char>>,
    failure: Seq<char>,
)
    ensures
        accounts::json_strings(document) == Ok::<Seq<Seq<char>>, Seq<char>>(listed)
            ==> accounts::collected(given, Some(document)) == accounts::merged(given, listed),
        accounts::json_strings(document) == Err::<Seq<Seq<char>>, Seq<char>>(failure)
            ==> accounts::collected(given, Some(document)) == Err::<
            Seq<Seq<char>>,
            AccountsErrorView,
        >(AccountsErrorView::Unreadable(failure)),
        accounts::collected(given, None) == accounts::merged(given, Seq::empty()),
{
}

/// The outcome of collecting accounts says which they are, or what went wrong.
pub proof fn law_account_outcomes(list: Vec<String>, failure: String)
    ensures
        accounts::accounts_view(Ok(list)) == Ok::<Seq<Seq<char>>, AccountsErrorView>(
            Seq::new(list@.len(), |i: int| list@[i]@),
        ),
        accounts::accounts_view(Err(AccountsError::Unreadable(failure))) == Err::<
            Seq<Seq<char>>,
            AccountsErrorView,
        >(AccountsErrorView::Unreadable(failure@)),
        accounts::accounts_view(Err(AccountsError::NoneGiven)) == Err::<
            Seq<Seq<char>>,
            AccountsErrorView,
        >(AccountsErrorView::NoneGiven),
        AccountsErrorView::Unreadable(failure@).message() == failure@,
        AccountsErrorView::NoneGiven.message()
            == "No accounts specified. Use --account or --accounts to specify at least one account."@,
{
    assert(text::views(list@) =~= Seq::new(list@.len(), |i: int| list@[i]@));
}

/// A range that can be read is checked slot by slot, from its first to its last,
/// whatever else is given.
pub proof fn law_range_is_checked_as_it_is(
    range: Seq<u64>,
    slot: Option<u64>,
    distance: Option<u64>,
)
    ensures
        slots::planned(Some(Ok(range)), slot, distance) is Ok,
        slots::planned(Some(Ok(range)), slot, distance)->Ok_0.len() == range.len(),
        forall|i: int|
            0 <= i < range.len() ==> #[trigger] slots::planned(
                Some(Ok(range)),
                slot,
                distance,
            )->Ok_0[i] == range[i],
{
}

/// Without a range the slot and the `distance` slots before it are checked,
/// newest first; 0 stands for what would lie before slot 0.
pub proof fn law_slot_and_distance(slot: u64, distance: u64)
    ensures
        slots::planned(None, Some(slot), Some(distance)) is Ok,
        slots::planned(None, Some(slot), Some(distance))->Ok_0.len() == distance + 1,
        forall|i: int|
            0 <= i <= distance && i <= slot ==> #[trigger] slots::planned(
                None,
                Some(slot),
                Some(distance),
            )->Ok_0[i] == slot - i,
        forall|i: int|
            slot < i <= distance ==> #[trigger] slots::planned(
                None,
                Some(slot),
                Some(distance),
            )->Ok_0[i] == 0,
{
}

/// A plan fails exactly where the range cannot be read, or where there is none
/// and the slot or the distance is missing, in this order.
pub proof fn law_plan_failures(
    range: Option<Result<Seq<u64>, Seq<char>>>,
    slot: Option<u64>,
    distance: Option<u64>,
)
    ensures
        slots::planned(range, slot, distance) is Err <==> {
            ||| range is Some && range->0 is Err
            ||| range is None && (slot is None || distance is None)
        },
        range is Some && range->0 is Err ==> slots::planned(range, slot, distance)->Err_0
            == SlotsErrorView::Unreadable(range->0->Err_0),
        range is None && slot is None ==> slots::planned(range, slot, distance)->Err_0
            == SlotsErrorView::SlotMissing,
        range is None && slot is Some && distance is None ==> slots::planned(
            range,
            slot,
            distance,
        )->Err_0 == SlotsErrorView::DistanceMissing,
{
}

/// The leaders are taken from the epoch of the first slot of a range, or of the
/// slot where there is no range.
pub proof fn law_reference(range: Seq<u64>, slot: Option<u64>, failure: Seq<char>)
    ensures
        range.len() > 0 ==> slots::referenced(Some(Ok(range)), slot) == Ok::<u64, SlotsErrorView>(
            range[0],
        ),
        range.len() == 0 ==> slots::referenced(Some(Ok(range)), slot) == Err::<
            u64,
            SlotsErrorView,
        >(SlotsErrorView::RangeEmpty),
        slots::referenced(Some(Err(failure)), slot) == Err::<u64, SlotsErrorView>(
            SlotsErrorView::Unreadable(failure),
        ),
        slot is Some ==> slots::referenced(None, slot) == Ok::<u64, SlotsErrorView>(slot->0),
        slot is None ==> slots::referenced(None, slot) == Err::<u64, SlotsErrorView>(
            SlotsErrorView::SlotMissing,
        ),
{
}

/// A range, and the outcome of looking for slots, say which slots they hold or
/// what went wrong.
pub proof fn law_slot_outcomes(list: Vec<u64>, slot: u64, failure: String)
    ensures
        slots::range_view(None) is None,
        slots::range_view(Some(Ok(list))) == Some(Ok::<Seq<u64>, Seq<char>>(list@)),
        slots::range_view(Some(Err(failure))) == Some(Err::<Seq<u64>, Seq<char>>(failure@)),
        slots::slots_view(Ok(list)) == Ok::<Seq<u64>, SlotsErrorView>(list@),
        slots::slots_view(Err(SlotsError::Unreadable(failure))) == Err::<
            Seq<u64>,
            SlotsErrorView,
        >(SlotsErrorView::Unreadable(failure@)),
        slots::slots_view(Err(SlotsError::SlotMissing)) == Err::<Seq<u64>, SlotsErrorView>(
            SlotsErrorView::SlotMissing,
        ),
        slots::slots_view(Err(SlotsError::DistanceMissing)) == Err::<Seq<u64>, SlotsErrorView>(
            SlotsErrorView::DistanceMissing,
        ),
        slots::slot_view(Ok(slot)) == Ok::<u64, SlotsErrorView>(slot),
        slots::slot_view(Err(SlotsError::Unreadable(failure))) == Err::<u64, SlotsErrorView>(
            SlotsErrorView::Unreadable(failure@),
        ),
        slots::slot_view(Err(SlotsError::SlotMissing)) == Err::<u64, SlotsErrorView>(
            SlotsErrorView::SlotMissing,
        ),
        slots::slot_view(Err(SlotsError::RangeEmpty)) == Err::<u64, SlotsErrorView>(
            SlotsErrorView::RangeEmpty,
        ),
        SlotsErrorView::Unreadable(failure@).message() == failure@,
        SlotsErrorView::SlotMissing.message() == "--slot is required when not using --range"@,
        SlotsErrorView::DistanceMissing.message()
            == "--distance is required when not using --range"@,
        SlotsErrorView::RangeEmpty.message() == "Range file is empty"@,
{
}

/// The range of a file is what the file lists.
pub proof fn law_range_of_a_file(document: &String)
    ensures
        slots::range_in(Some(document)) == Some(slots::json_numbers(document@)),
        slots::range_in(None) is None,
{
}

/// What is checked is said by the name of the range file, or else by slot and
/// distance, a missing one being written as 0.
pub proof fn law_selection_text(
    file: Seq<char>,
    slot: u64,
    distance: u64,
    any_slot: Option<u64>,
    any_distance: Option<u64>,
)
    ensures
        slots::selection_text(Some(file), any_slot, any_distance) == "Range file: "@ + file,
        slots::selection_text(None, Some(slot), Some(distance)) == "Slot: "@ + text::decimal(
            slot as nat,
        ) + " Distance: "@ + text::decimal(distance as nat),
        slots::selection_text(None, None, any_distance) == slots::selection_text(
            None,
            Some(0u64),
            any_distance,
        ),
        slots::selection_text(None, any_slot, None) == slots::selection_text(
            None,
            any_slot,
            Some(0u64),
        ),
{
}

} // verus!
