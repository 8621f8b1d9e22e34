//! Epochs, and the leaders of their slots.

use std::collections::HashMap;
use vstd::arithmetic::logarithm;
use vstd::arithmetic::power2;
use vstd::prelude::*;

verus! {

/// How slots are divided into epochs.
///
/// A cluster may start with short epochs that double in length, beginning with
/// 32 slots; from `first_normal_slot` on every epoch has `slots_per_epoch`
/// slots.
#[derive(Debug, Clone, Copy, PartialEq, Eq, Structural)]
pub struct EpochSchedule {
    pub slots_per_epoch: u64,
    pub leader_schedule_slot_offset: u64,
    pub warmup: bool,
    pub first_normal_epoch: u64,
    pub first_normal_slot: u64,
}

/// A number, or the largest one that 64 bits hold.
pub open spec fn capped(value: int) -> int {
    if value > u64::MAX {
        u64::MAX as int
    } else {
        value
    }
}

/// The first slot of a short epoch: before epoch `n` lie `2^n - 1` times 32
/// slots.
pub open spec fn short_epoch_start(epoch: nat) -> int {
    (power2::pow2(epoch) - 1) * 32
}

impl EpochSchedule {
    /// The epoch of a slot.
    pub open spec fn epoch_of(self, slot: u64) -> int {
        if slot < self.first_normal_slot {
            logarithm::log(2, (slot + 32) / 32)
        } else if self.slots_per_epoch == 0 {
            self.first_normal_epoch as int
        } else {
            capped(
                self.first_normal_epoch + (slot - self.first_normal_slot) / (
                self.slots_per_epoch as int),
            )
        }
    }

    /// The first slot of an epoch. Of the number of a short epoch only the low
    /// 32 bits count.
    pub open spec fn first_slot_of(self, epoch: int) -> int {
        if epoch <= self.first_normal_epoch {
            capped(short_epoch_start((epoch % 0x1_0000_0000) as nat))
        } else {
            capped(
                (epoch - self.first_normal_epoch) * self.slots_per_epoch + self.first_normal_slot,
            )
        }
    }

    /// The first slot of the epoch in which a slot lies.
    pub open spec fn start_of(self, slot: u64) -> int {
        self.first_slot_of(self.epoch_of(slot))
    }

    /// The slot lies in a normal epoch, or is small enough for its short epoch
    /// to be computed.
    pub open spec fn covers(self, slot: u64) -> bool {
        slot < self.first_normal_slot ==> slot + 33 <= 0x8000_0000_0000_0000
    }

    /// The short epochs end where the normal ones begin.
    pub open spec fn is_regular(self) -> bool {
        &&& self.slots_per_epoch > 0
        &&& self.first_normal_slot == short_epoch_start(self.first_normal_epoch as nat)
    }
}

impl EpochSchedule {
    /// Whether the epoch of a slot can be computed.
    pub fn can_place(&self, slot: u64) -> (possible: bool)
        ensures
            possible == self.covers(slot),
    {
        slot >= self.first_normal_slot || slot <= 0x8000_0000_0000_0000 - 33
    }
}

/// Calls `get_epoch` of `solana_program`'s `EpochSchedule`.
///
/// Trusted: a slot before the normal epochs lies in the short epoch `n` for
/// which `2^n` is the largest power of two that is at most `(slot + 32) / 32`;
/// any other slot lies as many epochs after the first normal one as whole
/// epochs fit before it, up to the largest number of 64 bits.
#[verifier::external_body]
fn epoch_of_slot(schedule: &EpochSchedule, slot: u64) -> (epoch: u64)
    requires
        schedule.covers(slot),
    ensures
        epoch == schedule.epoch_of(slot),
{
    solana_program::epoch_schedule::EpochSchedule {
        slots_per_epoch: schedule.slots_per_epoch,
        leader_schedule_slot_offset: schedule.leader_schedule_slot_offset,
        warmup: schedule.warmup,
        first_normal_epoch: schedule.first_normal_epoch,
        first_normal_slot: schedule.first_normal_slot,
    }.get_epoch(slot)
}

/// Calls `get_first_slot_in_epoch` of `solana_program`'s `EpochSchedule`.
///
/// Trusted: up to the first normal epoch the result counts the slots of the
/// short epochs before, for later ones whole epochs after `first_normal_slot`,
/// up to the largest number of 64 bits.
#[verifier::external_body]
fn first_slot_of_epoch(schedule: &EpochSchedule, epoch: u64) -> (slot: u64)
    ensures
        slot == schedule.first_slot_of(epoch as int),
{
    solana_program::epoch_schedule::EpochSchedule {
        slots_per_epoch: schedule.slots_per_epoch,
        leader_schedule_slot_offset: schedule.leader_schedule_slot_offset,
        warmup: schedule.warmup,
        first_normal_epoch: schedule.first_normal_epoch,
        first_normal_slot: schedule.first_normal_slot,
    }.get_first_slot_in_epoch(epoch)
}

/// The first slot of the epoch in which a slot lies.
pub fn get_epoch_start_slot(schedule: &EpochSchedule, slot: u64) -> (start: u64)
    requires
        schedule.covers(slot),
    ensures
        start == schedule.first_slot_of(schedule.epoch_of(slot)),
        start == schedule.start_of(slot),
{
    let epoch: u64 = epoch_of_slot(schedule, slot);
    first_slot_of_epoch(schedule, epoch)
}

proof fn lemma_log_bounds(value: int)
    requires
        value >= 1,
    ensures
        logarithm::log(2, value) >= 0,
        power2::pow2(logarithm::log(2, value) as nat) <= value,
        value < power2::pow2((logarithm::log(2, value) + 1) as nat),
    decreases value,
{
    power2::lemma2_to64();
    if value < 2 {
        logarithm::lemma_log0(2, value);
    } else {
        logarithm::lemma_log_s(2, value);
        lemma_log_bounds(value / 2);
        let half = logarithm::log(2, value / 2);
        power2::lemma_pow2_unfold((half + 1) as nat);
        power2::lemma_pow2_unfold((half + 2) as nat);
    }
}

proof fn lemma_log_unique(value: int, exponent: nat)
    requires
        power2::pow2(exponent) <= value < power2::pow2(exponent + 1),
    ensures
        logarithm::log(2, value) == exponent,
{
    power2::lemma_pow2_pos(exponent);
    lemma_log_bounds(value);
    let found = logarithm::log(2, value) as nat;
    if found + 1 < exponent {
        power2::lemma_pow2_strictly_increases(found + 1, exponent);
    }
    if exponent + 1 < found {
        power2::lemma_pow2_strictly_increases(exponent + 1, found);
    }
}

proof fn lemma_short_epochs_are_long_enough(epoch: nat)
    ensures
        epoch <= short_epoch_start(epoch),
    decreases epoch,
{
    power2::lemma2_to64();
    if epoch > 0 {
        lemma_short_epochs_are_long_enough((epoch - 1) as nat);
        power2::lemma_pow2_unfold(epoch);
        power2::lemma_pow2_pos((epoch - 1) as nat);
    }
}

proof fn lemma_few_short_epochs(schedule: EpochSchedule)
    requires
        schedule.is_regular(),
    ensures
        schedule.first_normal_epoch <= 64,
{
    power2::lemma2_to64();
    if schedule.first_normal_epoch > 64 {
        power2::lemma_pow2_strictly_increases(64, schedule.first_normal_epoch as nat);
    }
}

proof fn lemma_short_epoch(schedule: EpochSchedule, slot: u64)
    requires
        schedule.is_regular(),
        slot < schedule.first_normal_slot,
    ensures
        0 <= schedule.epoch_of(slot) < schedule.first_normal_epoch,
        short_epoch_start(schedule.epoch_of(slot) as nat) <= slot < short_epoch_start(
            (schedule.epoch_of(slot) + 1) as nat,
        ),
        schedule.first_slot_of(schedule.epoch_of(slot)) == short_epoch_start(
            schedule.epoch_of(slot) as nat,
        ),
{
    let epoch = schedule.epoch_of(slot);
    lemma_log_bounds((slot + 32) / 32);
    lemma_few_short_epochs(schedule);
    if epoch >= schedule.first_normal_epoch {
        if epoch > schedule.first_normal_epoch {
            power2::lemma_pow2_strictly_increases(
                schedule.first_normal_epoch as nat,
                epoch as nat,
            );
        }
    }
}

proof fn lemma_normal_epoch(schedule: EpochSchedule, slot: u64)
    requires
        schedule.is_regular(),
        slot >= schedule.first_normal_slot,
    ensures
        schedule.epoch_of(slot) == schedule.first_normal_epoch + (slot
            - schedule.first_normal_slot) / (schedule.slots_per_epoch as int),
        schedule.first_slot_of(schedule.epoch_of(slot)) == schedule.first_normal_slot + ((slot
            - schedule.first_normal_slot) / (schedule.slots_per_epoch as int))
            * schedule.slots_per_epoch,
        schedule.first_slot_of(schedule.epoch_of(slot)) <= slot,
{
    let offset = slot - schedule.first_normal_slot;
    let length = schedule.slots_per_epoch as int;
    let whole = offset / length;
    lemma_few_short_epochs(schedule);
    lemma_short_epochs_are_long_enough(schedule.first_normal_epoch as nat);
    vstd::arithmetic::div_mod::lemma_fundamental_div_mod(offset, length);
    assert(0 <= whole <= offset && whole * length <= offset) by (nonlinear_arith)
        requires
            offset >= 0,
            length >= 1,
            offset == length * whole + offset % length,
            0 <= offset % length,
            whole == offset / length,
    ;
    assert(whole == 0 ==> whole * length == 0);
}

/// In a regular schedule the epoch of a slot begins no later than the slot, and
/// the next one begins after it.
pub proof fn law_epoch_holds_slot(schedule: EpochSchedule, slot: u64)
    requires
        schedule.is_regular(),
    ensures
        schedule.first_slot_of(schedule.epoch_of(slot)) <= slot,
        slot < u64::MAX ==> slot < schedule.first_slot_of(schedule.epoch_of(slot) + 1),
{
    let epoch = schedule.epoch_of(slot);
    lemma_few_short_epochs(schedule);
    if slot < schedule.first_normal_slot {
        lemma_short_epoch(schedule, slot);
    } else {
        lemma_normal_epoch(schedule, slot);
        let offset = slot - schedule.first_normal_slot;
        let length = schedule.slots_per_epoch as int;
        vstd::arithmetic::div_mod::lemma_fundamental_div_mod(offset, length);
        assert(offset < (offset / length + 1) * length) by (nonlinear_arith)
            requires
                length >= 1,
                offset == length * (offset / length) + offset % length,
                offset % length < length,
        ;
        assert(offset >= 0 && length >= 1 ==> offset / length >= 0) by (nonlinear_arith);
        assert(epoch + 1 - schedule.first_normal_epoch == offset / length + 1);
    }
}

/// In a regular schedule all slots from the start of an epoch up to one of its
/// slots lie in that epoch, the start itself among them.
pub proof fn law_epoch_start_is_shared(schedule: EpochSchedule, slot: u64, earlier: u64)
    requires
        schedule.is_regular(),
        schedule.first_slot_of(schedule.epoch_of(slot)) <= earlier <= slot,
    ensures
        schedule.epoch_of(earlier) == schedule.epoch_of(slot),
{
    if slot < schedule.first_normal_slot {
        lemma_short_epoch(schedule, slot);
        lemma_log_unique((earlier + 32) / 32, schedule.epoch_of(slot) as nat);
    } else {
        lemma_normal_epoch(schedule, slot);
        let offset = slot - schedule.first_normal_slot;
        let before = earlier - schedule.first_normal_slot;
        let length = schedule.slots_per_epoch as int;
        let whole = offset / length;
        vstd::arithmetic::div_mod::lemma_fundamental_div_mod(offset, length);
        assert(0 <= whole * length) by (nonlinear_arith)
            requires
                offset >= 0,
                length >= 1,
                whole == offset / length,
        ;
        assert(before / length == whole) by (nonlinear_arith)
            requires
                length >= 1,
                whole * length <= before <= offset,
                offset == length * whole + offset % length,
                offset % length < length,
        ;
        lemma_normal_epoch(schedule, earlier);
    }
}

/// An entry of a leader schedule: a validator, and where in the epoch the slots
/// are that it leads.
pub open spec fn entry_view(entry: (String, Vec<usize>)) -> (Seq<char>, Seq<usize>) {
    (entry.0@, entry.1@)
}

/// The entries of a leader schedule.
pub open spec fn schedule_view(schedule: Seq<(String, Vec<usize>)>) -> Seq<
    (Seq<char>, Seq<usize>),
> {
    Seq::new(schedule.len(), |i: int| entry_view(schedule[i]))
}

/// The entry holds the slot, for an epoch that begins at `epoch_start`.
pub open spec fn leads(entry: (Seq<char>, Seq<usize>), epoch_start: u64, slot: u64) -> bool {
    exists|i: int| 0 <= i < entry.1.len() && epoch_start + #[trigger] entry.1[i] == slot
}

/// The validator that leads a slot. Should several entries hold the slot, the
/// last of them counts.
pub open spec fn leader_at(
    schedule: Seq<(Seq<char>, Seq<usize>)>,
    epoch_start: u64,
    slot: u64,
) -> Option<Seq<char>>
    decreases schedule.len(),
{
    if schedule.len() == 0 {
        None
    } else if leads(schedule.last(), epoch_start, slot) {
        Some(schedule.last().0)
    } else {
        leader_at(schedule.drop_last(), epoch_start, slot)
    }
}

/// What a table of leaders says of a slot.
pub open spec fn known_leader(leaders: Map<u64, String>, slot: u64) -> Option<Seq<char>> {
    if leaders.contains_key(slot) {
        Some(leaders[slot]@)
    } else {
        None
    }
}

/// The table holds the leader of every slot.
pub open spec fn follows(
    leaders: Map<u64, String>,
    schedule: Seq<(Seq<char>, Seq<usize>)>,
    epoch_start: u64,
) -> bool {
    forall|slot: u64| #[trigger]
        known_leader(leaders, slot) == leader_at(schedule, epoch_start, slot)
}

/// Every slot of the schedule has a number of 64 bits.
pub open spec fn fits(schedule: Seq<(Seq<char>, Seq<usize>)>, epoch_start: u64) -> bool {
    forall|i: int, j: int|
        0 <= i < schedule.len() && 0 <= j < schedule[i].1.len() ==> epoch_start
            + #[trigger] schedule[i].1[j] <= u64::MAX
}

/// Whether every slot of a schedule has a number of 64 bits.
pub fn schedule_fits(epoch_start: u64, schedule: &Vec<(String, Vec<usize>)>) -> (all: bool)
    ensures
        all == fits(schedule_view(schedule@), epoch_start),
{
    let ghost entries = schedule_view(schedule@);
    let mut i: usize = 0;
    while i < schedule.len()
        invariant
            i <= schedule.len(),
            entries == schedule_view(schedule@),
            forall|a: int, b: int|
                0 <= a < i && 0 <= b < entries[a].1.len() ==> epoch_start
                    + #[trigger] entries[a].1[b] <= u64::MAX,
        decreases schedule.len() - i,
    {
        let places = &schedule[i].1;
        assert(entries[i as int].1 == places@);
        let mut j: usize = 0;
        while j < places.len()
            invariant
                j <= places.len(),
                i < entries.len(),
                entries == schedule_view(schedule@),
                entries[i as int].1 == places@,
                forall|b: int|
                    0 <= b < j ==> epoch_start + #[trigger] entries[i as int].1[b] <= u64::MAX,
            decreases places.len() - j,
        {
            assert(entries[i as int].1[j as int] == places@[j as int]);
            if places[j] as u64 > u64::MAX - epoch_start {
                return false;
            }
            j += 1;
        }
        i += 1;
    }
    true
}

/// Enters the slots that one validator leads.
fn enter_slots(
    leaders: &mut HashMap<u64, String>,
    epoch_start: u64,
    validator: &String,
    places: &Vec<usize>,
)
    requires
        forall|j: int| 0 <= j < places@.len() ==> epoch_start + #[trigger] places@[j] <= u64::MAX,
    ensures
        forall|slot: u64| #[trigger]
            known_leader(final(leaders)@, slot) == if leads(
                (validator@, places@),
                epoch_start,
                slot,
            ) {
                Some(validator@)
            } else {
                known_leader(old(leaders)@, slot)
            },
{
    broadcast use vstd::std_specs::hash::group_hash_axioms;

    let mut j: usize = 0;
    while j < places.len()
        invariant
            j <= places.len(),
            forall|k: int|
                0 <= k < places@.len() ==> epoch_start + #[trigger] places@[k] <= u64::MAX,
            forall|slot: u64| #[trigger]
                known_leader(leaders@, slot) == if leads(
                    (validator@, places@.take(j as int)),
                    epoch_start,
                    slot,
                ) {
                    Some(validator@)
                } else {
                    known_leader(old(leaders)@, slot)
                },
        decreases places.len() - j,
    {
        let ghost before = leaders@;
        let abs_slot: u64 = epoch_start + places[j] as u64;
        leaders.insert(abs_slot, validator.clone());
        proof {
            let shorter = (validator@, places@.take(j as int));
            let longer = (validator@, places@.take(j + 1));
            assert forall|slot: u64| #[trigger]
                known_leader(leaders@, slot) == if leads(longer, epoch_start, slot) {
                    Some(validator@)
                } else {
                    known_leader(old(leaders)@, slot)
                } by {
                assert(known_leader(before, slot) == if leads(shorter, epoch_start, slot) {
                    Some(validator@)
                } else {
                    known_leader(old(leaders)@, slot)
                });
                assert(longer.1[j as int] == places@[j as int]);
                if leads(shorter, epoch_start, slot) {
                    let k = choose|k: int|
                        0 <= k < shorter.1.len() && epoch_start + #[trigger] shorter.1[k] == slot;
                    assert(longer.1[k] == shorter.1[k]);
                }
                if leads(longer, epoch_start, slot) && slot != abs_slot {
                    let k = choose|k: int|
                        0 <= k < longer.1.len() && epoch_start + #[trigger] longer.1[k] == slot;
                    assert(longer.1[k] == shorter.1[k]);
                }
            }
        }
        j += 1;
    }
    assert(places@.take(j as int) == places@);
}

/// The leader of every slot of an epoch, from where in the epoch each validator
/// leads; a missing schedule is a failure.
pub fn map_leader_slots(
    epoch_start: u64,
    schedule: Option<&Vec<(String, Vec<usize>)>>,
) -> (outcome: Result<HashMap<u64, String>, String>)
    requires
        schedule is Some ==> fits(schedule_view(schedule->0@), epoch_start),
    ensures
        match outcome {
            Ok(leaders) => schedule is Some && forall|slot: u64| #[trigger]
                known_leader(leaders@, slot) == leader_at(
                    schedule_view(schedule->0@),
                    epoch_start,
                    slot,
                ),
            Err(failure) => schedule is None && failure@ == "No leader schedule found"@,
        },
        outcome is Ok ==> follows(outcome->Ok_0@, schedule_view(schedule->0@), epoch_start),
{
    let schedule = match schedule {
        Some(schedule) => schedule,
        None => return Err("No leader schedule found".to_owned()),
    };
    let ghost entries = schedule_view(schedule@);
    let mut leaders: HashMap<u64, String> = HashMap::new();
    let mut i: usize = 0;
    while i < schedule.len()
        invariant
            i <= schedule.len(),
            entries == schedule_view(schedule@),
            fits(entries, epoch_start),
            forall|slot: u64| #[trigger]
                known_leader(leaders@, slot) == leader_at(
                    entries.take(i as int),
                    epoch_start,
                    slot,
                ),
        decreases schedule.len() - i,
    {
        let ghost before = leaders@;
        let entry = &schedule[i];
        proof {
            assert(entries[i as int] == entry_view(*entry));
            assert forall|j: int| 0 <= j < entry.1@.len() implies epoch_start
                + #[trigger] entry.1@[j] <= u64::MAX by {
                assert(entries[i as int].1[j] == entry.1@[j]);
            }
        }
        enter_slots(&mut leaders, epoch_start, &entry.0, &entry.1);
        proof {
            let longer = entries.take(i + 1);
            assert(longer.drop_last() == entries.take(i as int));
            assert(longer.last() == entry_view(*entry));
            assert forall|slot: u64| #[trigger]
                known_leader(leaders@, slot) == leader_at(longer, epoch_start, slot) by {
                assert(known_leader(before, slot) == leader_at(
                    entries.take(i as int),
                    epoch_start,
                    slot,
                ));
            }
        }
        i += 1;
    }
    assert(entries.take(i as int) == entries);
    Ok(leaders)
}

/// The name under which the leader of a slot is reported.
pub fn leader_name(leaders: &HashMap<u64, String>, slot: u64) -> (name: String)
    ensures
        name@ == match known_leader(leaders@, slot) {
            Some(leader) => leader,
            None => "unknown"@,
        },
{
    broadcast use vstd::std_specs::hash::group_hash_axioms;

    match leaders.get(&slot) {
        Some(leader) => leader.clone(),
        None => "unknown".to_owned(),
    }
}

proof fn lemma_leader_at(
    schedule: Seq<(Seq<char>, Seq<usize>)>,
    epoch_start: u64,
    slot: u64,
    entry: (Seq<char>, Seq<usize>),
)
    requires
        schedule.contains(entry),
        leads(entry, epoch_start, slot),
        forall|other: (Seq<char>, Seq<usize>)| #[trigger]
            schedule.contains(other) && leads(other, epoch_start, slot) ==> other == entry,
    ensures
        leader_at(schedule, epoch_start, slot) == Some(entry.0),
    decreases schedule.len(),
{
    let shorter = schedule.drop_last();
    let last = schedule.last();
    assert(schedule[schedule.len() - 1] == last);
    assert(schedule.contains(last));
    if !leads(last, epoch_start, slot) {
        let at = choose|at: int| 0 <= at < schedule.len() && schedule[at] == entry;
        assert(shorter[at] == entry);
        assert forall|other: (Seq<char>, Seq<usize>)| #[trigger]
            shorter.contains(other) && leads(other, epoch_start, slot) implies other == entry by {
            let place = choose|place: int| 0 <= place < shorter.len() && shorter[place] == other;
            assert(schedule[place] == other);
            assert(schedule.contains(other));
        }
        lemma_leader_at(shorter, epoch_start, slot, entry);
    }
}

proof fn lemma_no_leader(
    schedule: Seq<(Seq<char>, Seq<usize>)>,
    epoch_start: u64,
    slot: u64,
)
    requires
        forall|other: (Seq<char>, Seq<usize>)| #[trigger]
            schedule.contains(other) ==> !leads(other, epoch_start, slot),
    ensures
        leader_at(schedule, epoch_start, slot) is None,
    decreases schedule.len(),
{
    if schedule.len() > 0 {
        let shorter = schedule.drop_last();
        assert(schedule[schedule.len() - 1] == schedule.last());
        assert(schedule.contains(schedule.last()));
        assert forall|other: (Seq<char>, Seq<usize>)| #[trigger]
            shorter.contains(other) implies !leads(other, epoch_start, slot) by {
            let place = choose|place: int| 0 <= place < shorter.len() && shorter[place] == other;
            assert(schedule[place] == other);
            assert(schedule.contains(other));
        }
        lemma_no_leader(shorter, epoch_start, slot);
    }
}

/// Where no two entries hold the same slot, the leader of a slot does not
/// depend on the order in which the schedule lists its entries.
pub proof fn law_schedule_order_is_irrelevant(
    schedule: Seq<(Seq<char>, Seq<usize>)>,
    reordered: Seq<(Seq<char>, Seq<usize>)>,
    epoch_start: u64,
    slot: u64,
)
    requires
        forall|entry: (Seq<char>, Seq<usize>)|
            #![trigger schedule.contains(entry)]
            #![trigger reordered.contains(entry)]
            schedule.contains(entry) == reordered.contains(entry),
        forall|one: (Seq<char>, Seq<usize>), other: (Seq<char>, Seq<usize>)|
            #![trigger schedule.contains(one), schedule.contains(other)]
            schedule.contains(one) && schedule.contains(other) && leads(one, epoch_start, slot)
                && leads(other, epoch_start, slot) ==> one == other,
    ensures
        leader_at(schedule, epoch_start, slot) == leader_at(reordered, epoch_start, slot),
{
    if exists|entry: (Seq<char>, Seq<usize>)| #[trigger]
        schedule.contains(entry) && leads(entry, epoch_start, slot) {
        let entry = choose|entry: (Seq<char>, Seq<usize>)| #[trigger]
            schedule.contains(entry) && leads(entry, epoch_start, slot);
        lemma_leader_at(schedule, epoch_start, slot, entry);
        lemma_leader_at(reordered, epoch_start, slot, entry);
    } else {
        lemma_no_leader(schedule, epoch_start, slot);
        lemma_no_leader(reordered, epoch_start, slot);
    }
}

/// A slot `k` whole epochs and `r` slots after the normal epochs begin lies `k`
/// epochs after the first normal one, and that epoch begins `r` slots earlier.
pub proof fn law_normal_epochs_are_counted(schedule: EpochSchedule, slot: u64, k: nat, r: nat)
    requires
        slot == schedule.first_normal_slot + k * schedule.slots_per_epoch + r,
        r < schedule.slots_per_epoch,
        schedule.first_normal_epoch + k <= u64::MAX,
    ensures
        schedule.epoch_of(slot) == schedule.first_normal_epoch + k,
        k > 0 ==> schedule.first_slot_of(schedule.epoch_of(slot)) == slot - r,
{
    let length = schedule.slots_per_epoch as int;
    let offset = slot - schedule.first_normal_slot;
    assert(0 <= k * length) by (nonlinear_arith)
        requires
            length > 0,
    ;
    assert(offset / length == k) by (nonlinear_arith)
        requires
            offset == k * length + r,
            0 <= r < length,
    ;
}

/// Short epoch `n` is made of the `32 * 2^n` slots from `32 * (2^n - 1)` on.
pub proof fn law_short_epochs_are_counted(schedule: EpochSchedule, slot: u64, n: nat)
    requires
        slot < schedule.first_normal_slot,
        32 * (power2::pow2(n) - 1) <= slot,
        slot < 32 * (power2::pow2(n + 1) - 1),
    ensures
        schedule.epoch_of(slot) == n,
        n <= schedule.first_normal_epoch ==> schedule.first_slot_of(n as int) == 32 * (
        power2::pow2(n) - 1),
{
    lemma_log_unique((slot + 32) / 32, n);
    power2::lemma2_to64();
    if n >= 64 {
        if n > 64 {
            power2::lemma_pow2_strictly_increases(64, n);
        }
    }
}

/// The epoch of a slot begins `r` slots before a slot that lies `r` slots into a
/// later normal epoch, where the normal epochs begin for one of the first of
/// them, and at `32 * (2^n - 1)` for one of the short epoch `n`.
pub proof fn law_epoch_starts(schedule: EpochSchedule, slot: u64, n: nat, r: nat)
    requires
        schedule.is_regular(),
    ensures
        slot == schedule.first_normal_slot + n * schedule.slots_per_epoch + r && r
            < schedule.slots_per_epoch ==> schedule.start_of(slot) == slot - r,
        slot < schedule.first_normal_slot && 32 * (power2::pow2(n) - 1) <= slot && slot < 32 * (
        power2::pow2(n + 1) - 1) ==> schedule.start_of(slot) == 32 * (power2::pow2(n) - 1),
{
    let length = schedule.slots_per_epoch as int;
    assert(0 <= n * length) by (nonlinear_arith)
        requires
            length > 0,
    ;
    if slot == schedule.first_normal_slot + n * schedule.slots_per_epoch + r && r
        < schedule.slots_per_epoch {
        lemma_normal_epoch(schedule, slot);
        let offset = slot - schedule.first_normal_slot;
        assert(offset / length == n) by (nonlinear_arith)
            requires
                offset == n * length + r,
                0 <= r < length,
        ;
    }
    if slot < schedule.first_normal_slot && 32 * (power2::pow2(n) - 1) <= slot && slot < 32 * (
    power2::pow2(n + 1) - 1) {
        lemma_short_epoch(schedule, slot);
        law_short_epochs_are_counted(schedule, slot, n);
    }
}

/// Where an epoch would begin past the last number of 64 bits, that number
/// stands for its first slot.
pub proof fn law_first_slots_are_capped(schedule: EpochSchedule, epoch: u64)
    ensures
        0 <= schedule.first_slot_of(epoch as int) <= u64::MAX,
        epoch > schedule.first_normal_epoch ==> {
            let begin = schedule.first_normal_slot + (epoch - schedule.first_normal_epoch)
                * schedule.slots_per_epoch;
            schedule.first_slot_of(epoch as int) == if begin <= u64::MAX {
                begin
            } else {
                u64::MAX as int
            }
        },
        epoch <= schedule.first_normal_epoch ==> {
            let begin = 32 * (power2::pow2((epoch % 0x1_0000_0000) as nat) - 1);
            schedule.first_slot_of(epoch as int) == if begin <= u64::MAX {
                begin
            } else {
                u64::MAX as int
            }
        },
{
    power2::lemma_pow2_pos((epoch % 0x1_0000_0000) as nat);
    if epoch > schedule.first_normal_epoch {
        let later = epoch - schedule.first_normal_epoch;
        let length = schedule.slots_per_epoch as int;
        assert(later * length >= 0) by (nonlinear_arith)
            requires
                later >= 0,
                length >= 0,
        ;
    }
}

/// Epochs without slots are not counted, and an epoch past the last number of 64
/// bits is given that number.
pub proof fn law_odd_epochs(schedule: EpochSchedule, slot: u64)
    requires
        slot >= schedule.first_normal_slot,
    ensures
        schedule.slots_per_epoch == 0 ==> schedule.epoch_of(slot) == schedule.first_normal_epoch,
        schedule.slots_per_epoch > 0 && schedule.first_normal_epoch + (slot
            - schedule.first_normal_slot) / (schedule.slots_per_epoch as int) > u64::MAX
            ==> schedule.epoch_of(slot) == u64::MAX,
{
}

/// The epoch of a slot can be computed for every slot of a normal epoch, and for
/// an earlier one up to 33 below the sixty-third power of two.
pub proof fn law_which_slots_are_covered(schedule: EpochSchedule, slot: u64)
    ensures
        schedule.covers(slot) <==> slot >= schedule.first_normal_slot || slot
            <= 0x8000_0000_0000_0000 - 33,
{
}

/// A schedule says who its entries name and which places they list, in order.
pub proof fn law_schedule_entries(schedule: Seq<(String, Vec<usize>)>)
    ensures
        schedule_view(schedule).len() == schedule.len(),
        forall|i: int|
            0 <= i < schedule.len() ==> (#[trigger] schedule_view(schedule)[i]).0
                == schedule[i].0@ && schedule_view(schedule)[i].1 == schedule[i].1@,
{
}

/// A table that holds the leader of every slot holds, at the start of the epoch
/// plus any listed place, the validator that lists the place; where several
/// entries list it, the last of them.
pub proof fn law_listed_places_are_led(
    leaders: Map<u64, String>,
    schedule: Seq<(Seq<char>, Seq<usize>)>,
    epoch_start: u64,
    slot: u64,
    i: int,
    j: int,
)
    requires
        follows(leaders, schedule, epoch_start),
        0 <= i < schedule.len(),
        0 <= j < schedule[i].1.len(),
        slot == epoch_start + schedule[i].1[j],
        forall|later: int, k: int|
            i < later < schedule.len() && 0 <= k < schedule[later].1.len()
                ==> #[trigger] schedule[later].1[k] != schedule[i].1[j],
    ensures
        leaders.contains_key(slot),
        leaders[slot]@ == schedule[i].0,
{
    lemma_last_entry_leads(schedule, epoch_start, slot, i, j);
    assert(known_leader(leaders, slot) == Some(schedule[i].0));
}

/// Where no place is listed by two entries, every listed place is led by the
/// validator that lists it.
pub proof fn law_disjoint_schedule_is_followed(
    leaders: Map<u64, String>,
    schedule: Seq<(Seq<char>, Seq<usize>)>,
    epoch_start: u64,
    slot: u64,
    i: int,
    j: int,
)
    requires
        follows(leaders, schedule, epoch_start),
        forall|a: int, b: int, x: int, y: int|
            #![trigger schedule[a].1[x], schedule[b].1[y]]
            0 <= a < b < schedule.len() && 0 <= x < schedule[a].1.len() && 0 <= y
                < schedule[b].1.len() ==> schedule[a].1[x] != schedule[b].1[y],
        0 <= i < schedule.len(),
        0 <= j < schedule[i].1.len(),
        slot == epoch_start + schedule[i].1[j],
    ensures
        leaders.contains_key(slot),
        leaders[slot]@ == schedule[i].0,
{
    assert(schedule[i].1[j] == schedule[i].1[j]);
    law_listed_places_are_led(leaders, schedule, epoch_start, slot, i, j);
}

/// A slot that is the start of the epoch plus no listed place is not in the
/// table.
pub proof fn law_unlisted_slots_are_not_led(
    leaders: Map<u64, String>,
    schedule: Seq<(Seq<char>, Seq<usize>)>,
    epoch_start: u64,
    slot: u64,
)
    requires
        follows(leaders, schedule, epoch_start),
        forall|i: int, j: int|
            0 <= i < schedule.len() && 0 <= j < schedule[i].1.len() ==> slot != epoch_start
                + #[trigger] schedule[i].1[j],
    ensures
        !leaders.contains_key(slot),
{
    assert forall|other: (Seq<char>, Seq<usize>)| #[trigger]
        schedule.contains(other) implies !leads(other, epoch_start, slot) by {
        let at = choose|at: int| 0 <= at < schedule.len() && schedule[at] == other;
        if leads(other, epoch_start, slot) {
            let k = choose|k: int|
                0 <= k < other.1.len() && epoch_start + #[trigger] other.1[k] == slot;
            assert(schedule[at].1[k] == other.1[k]);
        }
    }
    lemma_no_leader(schedule, epoch_start, slot);
    assert(known_leader(leaders, slot) is None);
}

proof fn lemma_last_entry_leads(
    schedule: Seq<(Seq<char>, Seq<usize>)>,
    epoch_start: u64,
    slot: u64,
    i: int,
    j: int,
)
    requires
        0 <= i < schedule.len(),
        0 <= j < schedule[i].1.len(),
        slot == epoch_start + schedule[i].1[j],
        forall|later: int, k: int|
            i < later < schedule.len() && 0 <= k < schedule[later].1.len()
                ==> #[trigger] schedule[later].1[k] != schedule[i].1[j],
    ensures
        leader_at(schedule, epoch_start, slot) == Some(schedule[i].0),
    decreases schedule.len(),
{
    let last = schedule.len() - 1;
    if i == last {
        assert(epoch_start + schedule[i].1[j] == slot);
        assert(leads(schedule.last(), epoch_start, slot));
    } else {
        if leads(schedule.last(), epoch_start, slot) {
            let k = choose|k: int|
                0 <= k < schedule.last().1.len() && epoch_start + #[trigger] schedule.last().1[k]
                    == slot;
            assert(schedule[last].1[k] == schedule.last().1[k]);
        }
        let shorter = schedule.drop_last();
        assert(shorter[i] == schedule[i]);
        assert forall|later: int, k: int|
            i < later < shorter.len() && 0 <= k < shorter[later].1.len() implies
            #[trigger] shorter[later].1[k] != shorter[i].1[j] by {
            assert(schedule[later].1[k] == shorter[later].1[k]);
        }
        lemma_last_entry_leads(shorter, epoch_start, slot, i, j);
    }
}

/// A schedule fits exactly where the start of the epoch plus each listed place
/// is a number of 64 bits.
pub proof fn law_which_schedules_fit(
    schedule: Seq<(Seq<char>, Seq<usize>)>,
    epoch_start: u64,
)
    ensures
        fits(schedule, epoch_start) <==> forall|i: int, j: int|
            0 <= i < schedule.len() && 0 <= j < schedule[i].1.len()
                ==> #[trigger] schedule[i].1[j] <= 0xffff_ffff_ffff_ffff - epoch_start,
{
}

/// A table knows exactly the leaders that it holds.
pub proof fn law_known_leaders(leaders: Map<u64, String>, slot: u64)
    ensures
        match known_leader(leaders, slot) {
            Some(leader) => leaders.contains_key(slot) && leaders[slot]@ == leader,
            None => !leaders.contains_key(slot),
        },
{
}

} // verus!
