//! The slots to check.

use crate::text;
use vstd::prelude::*;

verus! {

/// Why it is not known which slots to check.
#[derive(Debug)]
pub enum SlotsError {
    /// The range is not a JSON array of slot numbers.
    Unreadable(String),
    /// There is neither a range nor a slot.
    SlotMissing,
    /// There is neither a range nor a distance.
    DistanceMissing,
    /// The range has no slot.
    RangeEmpty,
}

/// What a failure to find the slots says.
pub enum SlotsErrorView {
    Unreadable(Seq<char>),
    SlotMissing,
    DistanceMissing,
    RangeEmpty,
}

impl View for SlotsError {
    type V = SlotsErrorView;

    open spec fn view(&self) -> SlotsErrorView {
        match self {
            SlotsError::Unreadable(failure) => SlotsErrorView::Unreadable(failure@),
            SlotsError::SlotMissing => SlotsErrorView::SlotMissing,
            SlotsError::DistanceMissing => SlotsErrorView::DistanceMissing,
            SlotsError::RangeEmpty => SlotsErrorView::RangeEmpty,
        }
    }
}

impl SlotsErrorView {
    /// The failure in words.
    pub open spec fn message(self) -> Seq<char> {
        match self {
            SlotsErrorView::Unreadable(failure) => failure,
            SlotsErrorView::SlotMissing => "--slot is required when not using --range"@,
            SlotsErrorView::DistanceMissing => "--distance is required when not using --range"@,
            SlotsErrorView::RangeEmpty => "Range file is empty"@,
        }
    }
}

impl SlotsError {
    /// The failure in words.
    pub fn message(&self) -> (message: String)
        ensures
            message@ == self@.message(),
    {
        match self {
            SlotsError::Unreadable(failure) => failure.clone(),
            SlotsError::SlotMissing => "--slot is required when not using --range".to_owned(),
            SlotsError::DistanceMissing => {
                "--distance is required when not using --range".to_owned()
            },
            SlotsError::RangeEmpty => "Range file is empty".to_owned(),
        }
    }
}

/// The slot and the `distance` slots before it, newest first; slot 0 stands for
/// what would lie before it.
pub open spec fn slots_back(slot: u64, distance: u64) -> Seq<u64> {
    Seq::new(
        (distance + 1) as nat,
        |i: int|
            if i <= slot {
                (slot - i) as u64
            } else {
                0
            },
    )
}

/// What a range that may be missing or unreadable says.
pub open spec fn range_view(range: Option<Result<Vec<u64>, String>>) -> Option<
    Result<Seq<u64>, Seq<char>>,
> {
    match range {
        None => None,
        Some(Ok(slots)) => Some(Ok(slots@)),
        Some(Err(failure)) => Some(Err(failure@)),
    }
}

/// The slots to check: those of the range where there is one, else the slot and
/// those before it.
pub open spec fn planned(
    range: Option<Result<Seq<u64>, Seq<char>>>,
    slot: Option<u64>,
    distance: Option<u64>,
) -> Result<Seq<u64>, SlotsErrorView> {
    match range {
        Some(Ok(slots)) => Ok(slots),
        Some(Err(failure)) => Err(SlotsErrorView::Unreadable(failure)),
        None => match slot {
            None => Err(SlotsErrorView::SlotMissing),
            Some(slot) => match distance {
                None => Err(SlotsErrorView::DistanceMissing),
                Some(distance) => Ok(slots_back(slot, distance)),
            },
        },
    }
}

/// The slot whose epoch the leaders are taken from: the first of the range where
/// there is one, else the slot.
pub open spec fn referenced(
    range: Option<Result<Seq<u64>, Seq<char>>>,
    slot: Option<u64>,
) -> Result<u64, SlotsErrorView> {
    match range {
        Some(Ok(slots)) => if slots.len() == 0 {
            Err(SlotsErrorView::RangeEmpty)
        } else {
            Ok(slots[0])
        },
        Some(Err(failure)) => Err(SlotsErrorView::Unreadable(failure)),
        None => match slot {
            None => Err(SlotsErrorView::SlotMissing),
            Some(slot) => Ok(slot),
        },
    }
}

/// What an attempt to find the slots says.
pub open spec fn slots_view(slots: Result<Vec<u64>, SlotsError>) -> Result<
    Seq<u64>,
    SlotsErrorView,
> {
    match slots {
        Ok(slots) => Ok(slots@),
        Err(failure) => Err(failure@),
    }
}

/// What an attempt to find one slot says.
pub open spec fn slot_view(slot: Result<u64, SlotsError>) -> Result<u64, SlotsErrorView> {
    match slot {
        Ok(slot) => Ok(slot),
        Err(failure) => Err(failure@),
    }
}

fn count_back(slot: u64, distance: u64) -> (slots: Vec<u64>)
    requires
        distance < usize::MAX,
    ensures
        slots@ == slots_back(slot, distance),
{
    let mut slots: Vec<u64> = Vec::new();
    let mut offset: u64 = 0;
    while offset < distance
        invariant
            offset <= distance,
            slots@ == slots_back(slot, distance).take(offset as int),
        decreases distance - offset,
    {
        slots.push(slot.saturating_sub(offset));
        assert(slots@ =~= slots_back(slot, distance).take(offset + 1));
        offset += 1;
    }
    slots.push(slot.saturating_sub(offset));
    assert(slots@ =~= slots_back(slot, distance));
    slots
}

/// The slots to check.
pub fn plan_slots(
    range: Option<Result<Vec<u64>, String>>,
    slot: Option<u64>,
    distance: Option<u64>,
) -> (slots: Result<Vec<u64>, SlotsError>)
    requires
        range is None && slot is Some && distance is Some ==> distance->0 < usize::MAX,
    ensures
        slots_view(slots) == planned(range_view(range), slot, distance),
{
    match range {
        Some(Ok(slots)) => Ok(slots),
        Some(Err(failure)) => Err(SlotsError::Unreadable(failure)),
        None => match slot {
            None => Err(SlotsError::SlotMissing),
            Some(slot) => match distance {
                None => Err(SlotsError::DistanceMissing),
                Some(distance) => Ok(count_back(slot, distance)),
            },
        },
    }
}

/// The slot whose epoch the leaders are taken from.
pub fn reference_slot(range: Option<Result<Vec<u64>, String>>, slot: Option<u64>) -> (reference:
    Result<u64, SlotsError>)
    ensures
        slot_view(reference) == referenced(range_view(range), slot),
{
    match range {
        Some(Ok(slots)) => if slots.len() == 0 {
            Err(SlotsError::RangeEmpty)
        } else {
            Ok(slots[0])
        },
        Some(Err(failure)) => Err(SlotsError::Unreadable(failure)),
        None => match slot {
            None => Err(SlotsError::SlotMissing),
            Some(slot) => Ok(slot),
        },
    }
}

/// What `serde_json::from_str` makes of a text as a list of 64-bit numbers: the
/// numbers, or how the error reads.
pub uninterp spec fn json_numbers(document: Seq<char>) -> Result<Seq<u64>, Seq<char>>;

/// Calls `serde_json::from_str` for a `Vec<u64>`.
///
/// Trusted: the outcome depends on the text alone. Which numbers a text lists,
/// and how the error reads, is left to `serde_json`.
#[verifier::external_body]
fn parse_numbers(document: &str) -> (list: Result<Vec<u64>, String>)
    ensures
        match list {
            Ok(list) => json_numbers(document@) == Ok::<Seq<u64>, Seq<char>>(list@),
            Err(failure) => json_numbers(document@) == Err::<Seq<u64>, Seq<char>>(failure@),
        },
{
    match serde_json::from_str::<Vec<u64>>(document) {
        Ok(list) => Ok(list),
        Err(err) => Err(err.to_string()),
    }
}

/// The range that the text of a JSON file holds.
pub open spec fn range_in(document: Option<&String>) -> Option<Result<Seq<u64>, Seq<char>>> {
    match document {
        Some(document) => Some(json_numbers(document@)),
        None => None,
    }
}

fn parse_range(document: Option<&String>) -> (range: Option<Result<Vec<u64>, String>>)
    ensures
        range_view(range) == range_in(document),
{
    match document {
        Some(document) => Some(parse_numbers(document.as_str())),
        None => None,
    }
}

/// The slots to check, where the range is the text of a JSON file.
pub fn read_slots(
    document: Option<&String>,
    slot: Option<u64>,
    distance: Option<u64>,
) -> (slots: Result<Vec<u64>, SlotsError>)
    requires
        document is None && slot is Some && distance is Some ==> distance->0 < usize::MAX,
    ensures
        slots_view(slots) == planned(range_in(document), slot, distance),
{
    plan_slots(parse_range(document), slot, distance)
}

/// The slot whose epoch the leaders are taken from, where the range is the text
/// of a JSON file.
pub fn read_reference_slot(document: Option<&String>, slot: Option<u64>) -> (reference: Result<
    u64,
    SlotsError,
>)
    ensures
        slot_view(reference) == referenced(range_in(document), slot),
{
    reference_slot(parse_range(document), slot)
}

/// An optional number, or 0.
pub open spec fn or_zero(number: Option<u64>) -> nat {
    match number {
        Some(number) => number as nat,
        None => 0,
    }
}

/// The words that say what is checked.
pub open spec fn selection_text(
    range_file: Option<Seq<char>>,
    slot: Option<u64>,
    distance: Option<u64>,
) -> Seq<char> {
    match range_file {
        Some(file) => "Range file: "@ + file,
        None => "Slot: "@ + text::decimal(or_zero(slot)) + " Distance: "@ + text::decimal(
            or_zero(distance),
        ),
    }
}

/// The words that say what is checked.
pub fn slot_info(range_file: Option<&String>, slot: Option<u64>, distance: Option<u64>) -> (info:
    String)
    ensures
        info@ == selection_text(
            match range_file {
                Some(file) => Some(file@),
                None => None,
            },
            slot,
            distance,
        ),
{
    match range_file {
        Some(file) => {
            let mut info = "Range file: ".to_owned();
            info.append(file.as_str());
            info
        },
        None => {
            let mut info = "Slot: ".to_owned();
            text::push_decimal(&mut info, slot.unwrap_or(0));
            info.append(" Distance: ");
            text::push_decimal(&mut info, distance.unwrap_or(0));
            info
        },
    }
}

/// The words that say that a slot has no block.
pub fn missing_block_info(slot: u64) -> (info: String)
    ensures
        info@ == "No block found for "@ + text::decimal(slot as nat),
{
    let mut info = "No block found for ".to_owned();
    text::push_decimal(&mut info, slot);
    info
}

/// The leaders are taken from the epoch of the first slot that is checked; where
/// the plan has no slot, there is no such slot.
pub proof fn law_reference_is_first(
    range: Option<Result<Seq<u64>, Seq<char>>>,
    slot: Option<u64>,
    distance: Option<u64>,
)
    requires
        planned(range, slot, distance) is Ok,
    ensures
        planned(range, slot, distance)->Ok_0.len() > 0 ==> referenced(range, slot) == Ok::<
            u64,
            SlotsErrorView,
        >(planned(range, slot, distance)->Ok_0[0]),
        planned(range, slot, distance)->Ok_0.len() == 0 ==> referenced(range, slot) == Err::<
            u64,
            SlotsErrorView,
        >(SlotsErrorView::RangeEmpty),
{
}

/// Without a range the slots go down one by one from the given one, and stay at
/// 0 once there.
pub proof fn law_slots_go_back(slot: u64, distance: u64, i: int)
    requires
        0 <= i < distance,
    ensures
        slots_back(slot, distance)[0] == slot,
        slots_back(slot, distance)[i] > 0 ==> slots_back(slot, distance)[i + 1] == slots_back(
            slot,
            distance,
        )[i] - 1,
        slots_back(slot, distance)[i] == 0 ==> slots_back(slot, distance)[i + 1] == 0,
{
}

} // verus!
