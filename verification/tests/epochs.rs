use vote_checker::leaders::{
    get_epoch_start_slot, leader_name, map_leader_slots, schedule_fits, EpochSchedule,
};

fn mainnet() -> EpochSchedule {
    EpochSchedule {
        slots_per_epoch: 432_000,
        leader_schedule_slot_offset: 432_000,
        warmup: false,
        first_normal_epoch: 0,
        first_normal_slot: 0,
    }
}

fn warming() -> EpochSchedule {
    EpochSchedule {
        slots_per_epoch: 432_000,
        leader_schedule_slot_offset: 432_000,
        warmup: true,
        first_normal_epoch: 14,
        first_normal_slot: 524_256,
    }
}

fn schedule(entries: &[(&str, &[usize])]) -> Vec<(String, Vec<usize>)> {
    entries.iter().map(|(name, slots)| (name.to_string(), slots.to_vec())).collect()
}

#[test]
fn normal_epochs_start_at_multiples() {
    assert_eq!(get_epoch_start_slot(&mainnet(), 0), 0);
    assert_eq!(get_epoch_start_slot(&mainnet(), 431_999), 0);
    assert_eq!(get_epoch_start_slot(&mainnet(), 432_000), 432_000);
    assert_eq!(get_epoch_start_slot(&mainnet(), 356_400_123), 356_400_000);
}

#[test]
fn short_epochs_double() {
    for (slot, start) in [
        (0, 0),
        (31, 0),
        (32, 32),
        (95, 32),
        (96, 96),
        (223, 96),
        (224, 224),
        (524_255, 262_112),
        (524_256, 524_256),
        (956_255, 524_256),
        (956_256, 956_256),
    ] {
        assert_eq!(get_epoch_start_slot(&warming(), slot), start, "slot {}", slot);
    }
}

#[test]
fn starts_agree_with_the_schedule_of_the_cluster() {
    let outside = solana_program::epoch_schedule::EpochSchedule::custom(432_000, 432_000, true);
    assert_eq!(outside.first_normal_epoch, warming().first_normal_epoch);
    assert_eq!(outside.first_normal_slot, warming().first_normal_slot);
    for slot in (0..2_000_000).step_by(977) {
        let start = get_epoch_start_slot(&warming(), slot);
        assert!(start <= slot);
        assert_eq!(get_epoch_start_slot(&warming(), start), start);
    }
}

#[test]
fn odd_schedules_do_not_overflow() {
    let empty = EpochSchedule { slots_per_epoch: 0, ..mainnet() };
    assert_eq!(get_epoch_start_slot(&empty, 99), 0);
    let late = EpochSchedule { first_normal_epoch: 70, first_normal_slot: 10, ..mainnet() };
    assert_eq!(get_epoch_start_slot(&late, 10), u64::MAX);
    let wrapped = EpochSchedule {
        first_normal_epoch: (1 << 32) + 1,
        first_normal_slot: 10,
        ..mainnet()
    };
    assert_eq!(get_epoch_start_slot(&wrapped, 10), 32);
}

#[test]
fn slots_beyond_the_short_epochs_are_told_apart() {
    let endless = EpochSchedule { first_normal_slot: u64::MAX, first_normal_epoch: 64, ..mainnet() };
    assert!(endless.can_place((1 << 63) - 33));
    assert!(!endless.can_place((1 << 63) - 32));
    assert!(mainnet().can_place(u64::MAX));
    assert_eq!(get_epoch_start_slot(&endless, (1 << 63) - 33), (1 << 62) - 32);
}

#[test]
fn leaders_stand_at_their_slots() {
    let entries = schedule(&[("alice", &[0, 2]), ("bob", &[1, 3])]);
    assert!(schedule_fits(1000, &entries));
    let leaders = map_leader_slots(1000, Some(&entries)).unwrap();
    assert_eq!(leaders.len(), 4);
    assert_eq!(leader_name(&leaders, 1000), "alice");
    assert_eq!(leader_name(&leaders, 1001), "bob");
    assert_eq!(leader_name(&leaders, 1002), "alice");
    assert_eq!(leader_name(&leaders, 1003), "bob");
    assert_eq!(leader_name(&leaders, 1004), "unknown");
    assert_eq!(leader_name(&leaders, 0), "unknown");
}

#[test]
fn the_order_of_the_schedule_does_not_matter() {
    let one = schedule(&[("alice", &[0, 2]), ("bob", &[1, 3])]);
    let other = schedule(&[("bob", &[1, 3]), ("alice", &[0, 2])]);
    assert_eq!(
        map_leader_slots(1000, Some(&one)).unwrap(),
        map_leader_slots(1000, Some(&other)).unwrap()
    );
}

#[test]
fn of_two_entries_for_a_slot_the_later_counts() {
    let entries = schedule(&[("alice", &[0]), ("bob", &[0])]);
    let leaders = map_leader_slots(5, Some(&entries)).unwrap();
    assert_eq!(leader_name(&leaders, 5), "bob");
}

#[test]
fn a_missing_schedule_is_a_failure() {
    assert_eq!(map_leader_slots(5, None), Err("No leader schedule found".to_string()));
}

#[test]
fn slots_past_the_last_number_do_not_fit() {
    assert!(!schedule_fits(u64::MAX, &schedule(&[("alice", &[0]), ("bob", &[1])])));
    assert!(schedule_fits(u64::MAX, &schedule(&[("alice", &[0])])));
    assert!(schedule_fits(u64::MAX, &schedule(&[])));
}
