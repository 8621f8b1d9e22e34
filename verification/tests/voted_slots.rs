#![allow(deprecated)]

use solana_program::vote::instruction::VoteInstruction as Instruction;
use solana_program::vote::state::{TowerSync, Vote};
use vote_checker::json::{entry, Json};
use vote_checker::voted_slot::{
    decode_instruction, extract_voted_slot, judge_instruction, DecodeError, Gap, Lockout,
    VoteInstruction,
};

const VOTE_PROGRAM: &str = "Vote111111111111111111111111111111111111111";

fn encoded(instruction: &Instruction) -> String {
    bs58::encode(bincode::serialize(instruction).unwrap()).into_string()
}

fn vote(slots: &[u64]) -> Instruction {
    Instruction::Vote(Vote::new(slots.to_vec(), solana_program::hash::Hash::default()))
}

fn tower(lockouts: &[(u64, u32)]) -> Instruction {
    Instruction::TowerSync(TowerSync::from(lockouts.to_vec()))
}

fn instruction(program: i128, data: &str) -> Json {
    Json::Object(vec![
        entry("programIdIndex", Json::Int(program)),
        entry("data", Json::text(data)),
    ])
}

fn reply(instructions: Vec<Json>) -> Json {
    let keys = vec![Json::text("payer"), Json::text(VOTE_PROGRAM), Json::Null];
    Json::Object(vec![entry(
        "result",
        Json::Object(vec![entry(
            "transaction",
            Json::Object(vec![entry(
                "message",
                Json::Object(vec![
                    entry("accountKeys", Json::Array(keys)),
                    entry("instructions", Json::Array(instructions)),
                ]),
            )]),
        )]),
    )])
}

fn search(reply: &Json) -> (Option<u64>, Vec<Gap>) {
    let found = extract_voted_slot(reply).unwrap();
    (found.slot, found.notes.iter().map(|n| n.gap).collect())
}

#[test]
fn votes_are_decoded() {
    match decode_instruction(&encoded(&vote(&[10, 11, 15]))) {
        Ok(VoteInstruction::Vote(slots)) => assert_eq!(slots, vec![10, 11, 15]),
        other => panic!("{:?}", other),
    }
}

#[test]
fn towers_are_decoded() {
    match decode_instruction(&encoded(&tower(&[(5, 3), (6, 2), (9, 1)]))) {
        Ok(VoteInstruction::TowerSync(lockouts)) => assert_eq!(
            lockouts,
            vec![
                Lockout { slot: 5, confirmation_count: 3 },
                Lockout { slot: 6, confirmation_count: 2 },
                Lockout { slot: 9, confirmation_count: 1 },
            ]
        ),
        other => panic!("{:?}", other),
    }
}

#[test]
fn other_instructions_are_printed() {
    match decode_instruction(&encoded(&Instruction::UpdateCommission(7))) {
        Ok(VoteInstruction::Other(printed)) => assert_eq!(printed, "UpdateCommission(7)"),
        other => panic!("{:?}", other),
    }
}

#[test]
fn unreadable_data_is_a_failure() {
    match decode_instruction("0") {
        Err(DecodeError::Base58(failure)) => assert_eq!(
            failure,
            "provided string contained invalid character '0' at byte 0"
        ),
        other => panic!("{:?}", other),
    }
    match decode_instruction("2") {
        Err(DecodeError::Instruction(failure)) => {
            assert_eq!(failure, "io error: unexpected end of file")
        }
        other => panic!("{:?}", other),
    }
}

#[test]
fn the_newest_slot_is_taken() {
    let judged = judge_instruction(&Ok(VoteInstruction::Vote(vec![10, 11, 15])));
    assert_eq!(judged.0, Some(15));
    assert!(judged.1.is_none());
    let judged = judge_instruction(&Ok(VoteInstruction::Vote(vec![])));
    assert_eq!(judged.0, None);
    assert!(judged.1.is_none());
    let lockouts = vec![
        Lockout { slot: 5, confirmation_count: 2 },
        Lockout { slot: 6, confirmation_count: 1 },
        Lockout { slot: 7, confirmation_count: 1 },
    ];
    assert_eq!(judge_instruction(&Ok(VoteInstruction::TowerSync(lockouts))).0, Some(6));
    let lockouts = vec![Lockout { slot: 5, confirmation_count: 2 }];
    let judged = judge_instruction(&Ok(VoteInstruction::TowerSync(lockouts)));
    assert_eq!(judged.0, None);
    assert!(judged.1.is_none());
}

#[test]
fn the_search_finds_the_voted_slot() {
    let data = encoded(&vote(&[10, 11, 15]));
    let later = encoded(&vote(&[99]));
    assert_eq!(
        search(&reply(vec![instruction(0, &later), instruction(1, &data), instruction(1, &later)])),
        (Some(15), vec![])
    );
    let data = encoded(&tower(&[(5, 2), (6, 1)]));
    assert_eq!(search(&reply(vec![instruction(1, &data)])), (Some(6), vec![]));
}

#[test]
fn the_search_notes_what_it_meets() {
    let good = encoded(&vote(&[8]));
    let instructions = vec![
        Json::Object(vec![entry("data", Json::text("x"))]),
        instruction(-1, &good),
        instruction(2, &good),
        instruction(3, &good),
        Json::Object(vec![entry("programIdIndex", Json::Int(1))]),
        instruction(1, "0"),
        instruction(1, &encoded(&Instruction::UpdateCommission(7))),
        instruction(1, "2"),
        instruction(1, &encoded(&vote(&[]))),
        instruction(1, &good),
        instruction(1, "0"),
    ];
    assert_eq!(
        search(&reply(instructions)),
        (
            Some(8),
            vec![
                Gap::ProgramIndex,
                Gap::ProgramIndex,
                Gap::ProgramId,
                Gap::ProgramId,
                Gap::Data,
                Gap::Base58,
                Gap::OtherInstruction,
                Gap::Bincode,
            ]
        )
    );
}

#[test]
fn an_empty_search_says_so() {
    assert_eq!(search(&reply(vec![])), (None, vec![Gap::NoMatch]));
    assert_eq!(
        search(&reply(vec![instruction(1, "0")])),
        (None, vec![Gap::Base58, Gap::NoMatch])
    );
}

#[test]
fn missing_parts_are_noted() {
    assert_eq!(search(&Json::Null), (None, vec![Gap::Message]));
    let message = |fields: Vec<(String, Json)>| {
        Json::Object(vec![entry(
            "result",
            Json::Object(vec![entry(
                "transaction",
                Json::Object(vec![entry("message", Json::Object(fields))]),
            )]),
        )])
    };
    assert_eq!(search(&message(vec![])), (None, vec![Gap::Instructions]));
    let fields = vec![entry("instructions", Json::Array(vec![]))];
    assert_eq!(search(&message(fields)), (None, vec![Gap::AccountKeys]));
}

#[test]
fn too_many_requests_is_a_failure() {
    let limited = |code: Json| {
        Json::Object(vec![entry("error", Json::Object(vec![entry("code", code)]))])
    };
    assert_eq!(extract_voted_slot(&limited(Json::Int(429))).unwrap_err(), "429");
    assert_eq!(search(&limited(Json::Int(430))), (None, vec![Gap::Message]));
    assert_eq!(search(&limited(Json::text("429"))), (None, vec![Gap::Message]));
}

#[test]
fn notes_are_reported() {
    let found = extract_voted_slot(&reply(vec![instruction(1, "0")])).unwrap();
    assert_eq!(
        found.notes[0].report("5sig", "{}"),
        "Failed to decode base58: provided string contained invalid character '0' at byte 0\n\
         DEBUG: Could not extract voted slot for signature 5sig (base58 decode failed). \
         Full transaction JSON:\n{}"
    );
    assert_eq!(
        found.notes[1].report("5sig", "{}"),
        "DEBUG: Could not extract voted slot for signature 5sig (no matching instruction found). \
         Full transaction JSON:\n{}"
    );
    let reasons: Vec<&str> = [
        Gap::Message,
        Gap::Instructions,
        Gap::AccountKeys,
        Gap::ProgramIndex,
        Gap::ProgramId,
        Gap::Data,
        Gap::OtherInstruction,
        Gap::Bincode,
    ]
    .iter()
    .map(|g| g.reason())
    .collect();
    assert_eq!(
        reasons,
        vec![
            "missing transaction/message",
            "missing instructions",
            "missing accountKeys",
            "missing programIdIndex",
            "missing program_id in account_keys",
            "missing data in instruction",
            "decoded but not Vote or TowerSync",
            "bincode deserialize failed",
        ]
    );
}
