//! The slot that a vote transaction votes for.

use crate::json::{self, Json, JsonView};
use crate::text;
use vstd::prelude::*;

verus! {

/// A slot in a validator's tower, with the number of votes that confirm it.
#[derive(Debug, Clone, Copy, PartialEq, Eq, Structural)]
pub struct Lockout {
    pub slot: u64,
    pub confirmation_count: u32,
}

/// An instruction of the vote program.
#[derive(Debug)]
pub enum VoteInstruction {
    /// A vote, by the slots it names.
    Vote(Vec<u64>),
    /// A tower, by its lockouts.
    TowerSync(Vec<Lockout>),
    /// Any other instruction, as it prints.
    Other(String),
}

/// What an instruction of the vote program says.
pub enum VoteInstructionView {
    Vote(Seq<u64>),
    TowerSync(Seq<Lockout>),
    Other(Seq<char>),
}

impl View for VoteInstruction {
    type V = VoteInstructionView;

    open spec fn view(&self) -> VoteInstructionView {
        match self {
            VoteInstruction::Vote(slots) => VoteInstructionView::Vote(slots@),
            VoteInstruction::TowerSync(lockouts) => VoteInstructionView::TowerSync(lockouts@),
            VoteInstruction::Other(printed) => VoteInstructionView::Other(printed@),
        }
    }
}

/// Why the data of an instruction could not be read.
#[derive(Debug)]
pub enum DecodeError {
    /// The data is not base58.
    Base58(String),
    /// The bytes are no instruction of the vote program.
    Instruction(String),
}

/// What a decoding failure says.
pub enum DecodeErrorView {
    Base58(Seq<char>),
    Instruction(Seq<char>),
}

impl View for DecodeError {
    type V = DecodeErrorView;

    open spec fn view(&self) -> DecodeErrorView {
        match self {
            DecodeError::Base58(failure) => DecodeErrorView::Base58(failure@),
            DecodeError::Instruction(failure) => DecodeErrorView::Instruction(failure@),
        }
    }
}

/// What `bs58::decode` makes of a text: its bytes, or how the error reads.
pub uninterp spec fn base58_bytes(encoded: Seq<char>) -> Result<Seq<u8>, Seq<char>>;

/// What `bincode::deserialize` makes of some bytes as an instruction of the
/// vote program: the instruction, or how the error reads.
pub uninterp spec fn bincode_instruction(data: Seq<u8>) -> Result<VoteInstructionView, Seq<char>>;

/// Calls `bs58::decode` with its default alphabet and collects the bytes.
///
/// Trusted: the outcome depends on the text alone. Which bytes a text stands
/// for, and how the error reads, is left to `bs58`.
#[verifier::external_body]
fn decode_base58(encoded: &str) -> (bytes: Result<Vec<u8>, String>)
    ensures
        match bytes {
            Ok(bytes) => base58_bytes(encoded@) == Ok::<Seq<u8>, Seq<char>>(bytes@),
            Err(failure) => base58_bytes(encoded@) == Err::<Seq<u8>, Seq<char>>(failure@),
        },
{
    match bs58::decode(encoded).into_vec() {
        Ok(bytes) => Ok(bytes),
        Err(err) => Err(err.to_string()),
    }
}

/// Calls `bincode::deserialize` for a `VoteInstruction` of `solana_program` and
/// keeps what the checker reads: the slots of a vote, the lockouts of a tower,
/// and of any other instruction how it prints.
///
/// Trusted: the outcome depends on the bytes alone. Which instruction the bytes
/// stand for, and how the error reads, is left to `bincode`.
#[verifier::external_body]
fn decode_bincode(data: &Vec<u8>) -> (instruction: Result<VoteInstruction, String>)
    ensures
        match instruction {
            Ok(instruction) => bincode_instruction(data@) == Ok::<
                VoteInstructionView,
                Seq<char>,
            >(instruction@),
            Err(failure) => bincode_instruction(data@) == Err::<VoteInstructionView, Seq<char>>(
                failure@,
            ),
        },
{
    match bincode::deserialize::<solana_program::vote::instruction::VoteInstruction>(data) {
        Ok(solana_program::vote::instruction::VoteInstruction::Vote(vote)) => {
            Ok(VoteInstruction::Vote(vote.slots))
        },
        Ok(solana_program::vote::instruction::VoteInstruction::TowerSync(sync)) => {
            Ok(VoteInstruction::TowerSync(sync.lockouts.iter().map(|l| Lockout {
                slot: l.slot(),
                confirmation_count: l.confirmation_count(),
            }).collect()))
        },
        Ok(other) => Ok(VoteInstruction::Other(format!("{:?}", other))),
        Err(err) => Err(err.to_string()),
    }
}

/// What the data of an instruction stands for: base58 of the bytes of an
/// instruction of the vote program.
pub open spec fn decoded_instruction(encoded: Seq<char>) -> Result<
    VoteInstructionView,
    DecodeErrorView,
> {
    match base58_bytes(encoded) {
        Ok(bytes) => match bincode_instruction(bytes) {
            Ok(instruction) => Ok(instruction),
            Err(failure) => Err(DecodeErrorView::Instruction(failure)),
        },
        Err(failure) => Err(DecodeErrorView::Base58(failure)),
    }
}

/// What an attempt to decode says.
pub open spec fn decoded_view(decoded: Result<VoteInstruction, DecodeError>) -> Result<
    VoteInstructionView,
    DecodeErrorView,
> {
    match decoded {
        Ok(instruction) => Ok(instruction@),
        Err(failure) => Err(failure@),
    }
}

/// Reads the data of an instruction of the vote program.
pub fn decode_instruction(encoded: &str) -> (decoded: Result<VoteInstruction, DecodeError>)
    ensures
        decoded_view(decoded) == decoded_instruction(encoded@),
{
    match decode_base58(encoded) {
        Ok(bytes) => match decode_bincode(&bytes) {
            Ok(instruction) => Ok(instruction),
            Err(failure) => Err(DecodeError::Instruction(failure)),
        },
        Err(failure) => Err(DecodeError::Base58(failure)),
    }
}

/// Where the search for a voted slot came to nothing.
#[derive(Debug, Clone, Copy, PartialEq, Eq, Structural)]
pub enum Gap {
    Message,
    Instructions,
    AccountKeys,
    ProgramIndex,
    ProgramId,
    Data,
    Base58,
    OtherInstruction,
    Bincode,
    NoMatch,
}

impl Gap {
    /// The reason as it is reported.
    pub open spec fn reason_view(self) -> Seq<char> {
        match self {
            Gap::Message => "missing transaction/message"@,
            Gap::Instructions => "missing instructions"@,
            Gap::AccountKeys => "missing accountKeys"@,
            Gap::ProgramIndex => "missing programIdIndex"@,
            Gap::ProgramId => "missing program_id in account_keys"@,
            Gap::Data => "missing data in instruction"@,
            Gap::Base58 => "base58 decode failed"@,
            Gap::OtherInstruction => "decoded but not Vote or TowerSync"@,
            Gap::Bincode => "bincode deserialize failed"@,
            Gap::NoMatch => "no matching instruction found"@,
        }
    }

    /// The reason as it is reported.
    pub fn reason(&self) -> (reason: &'static str)
        ensures
            reason@ == self.reason_view(),
    {
        match self {
            Gap::Message => "missing transaction/message",
            Gap::Instructions => "missing instructions",
            Gap::AccountKeys => "missing accountKeys",
            Gap::ProgramIndex => "missing programIdIndex",
            Gap::ProgramId => "missing program_id in account_keys",
            Gap::Data => "missing data in instruction",
            Gap::Base58 => "base58 decode failed",
            Gap::OtherInstruction => "decoded but not Vote or TowerSync",
            Gap::Bincode => "bincode deserialize failed",
            Gap::NoMatch => "no matching instruction found",
        }
    }

    /// How the line that goes before the report of this gap begins.
    pub open spec fn lead_view(self) -> Seq<char> {
        match self {
            Gap::Base58 => "Failed to decode base58: "@,
            Gap::OtherInstruction => "Decoded but not Vote or TowerSync: "@,
            Gap::Bincode => "Failed to deserialize vote instruction: "@,
            _ => ""@,
        }
    }
}

/// A gap that the search met, with what the decoder had to say.
#[derive(Debug)]
pub struct Note {
    pub gap: Gap,
    pub detail: Option<String>,
}

/// What a note says.
pub struct NoteView {
    pub gap: Gap,
    pub detail: Option<Seq<char>>,
}

impl View for Note {
    type V = NoteView;

    open spec fn view(&self) -> NoteView {
        NoteView {
            gap: self.gap,
            detail: match self.detail {
                Some(detail) => Some(detail@),
                None => None,
            },
        }
    }
}

impl NoteView {
    /// A note of a gap alone.
    pub open spec fn plain(gap: Gap) -> NoteView {
        NoteView { gap, detail: None }
    }

    /// A note of a gap and of what the decoder had to say.
    pub open spec fn detailed(gap: Gap, detail: Seq<char>) -> NoteView {
        NoteView { gap, detail: Some(detail) }
    }

    /// The report of the note: a line for the detail where there is one, then
    /// the reason with the whole document.
    pub open spec fn report(self, signature: Seq<char>, document: Seq<char>) -> Seq<char> {
        let head = match self.detail {
            Some(detail) => self.gap.lead_view() + detail + "\n"@,
            None => ""@,
        };
        head + "DEBUG: Could not extract voted slot for signature "@ + signature + " ("@
            + self.gap.reason_view() + "). Full transaction JSON:\n"@ + document
    }
}

impl Note {
    fn plain(gap: Gap) -> (note: Note)
        ensures
            note@ == NoteView::plain(gap),
    {
        Note { gap, detail: None }
    }

    fn detailed(gap: Gap, detail: &String) -> (note: Note)
        ensures
            note@ == NoteView::detailed(gap, detail@),
    {
        Note { gap, detail: Some(detail.clone()) }
    }

    /// The report of the note: a line for the detail where there is one, then
    /// the reason with the whole document.
    pub fn report(&self, signature: &str, document: &str) -> (report: String)
        ensures
            report@ == self@.report(signature@, document@),
    {
        let mut report = "".to_owned();
        if let Some(detail) = &self.detail {
            report = match self.gap {
                Gap::Base58 => "Failed to decode base58: ".to_owned(),
                Gap::OtherInstruction => "Decoded but not Vote or TowerSync: ".to_owned(),
                Gap::Bincode => "Failed to deserialize vote instruction: ".to_owned(),
                _ => "".to_owned(),
            };
            report.append(detail.as_str());
            report.append("\n");
        }
        report.append("DEBUG: Could not extract voted slot for signature ");
        report.append(signature);
        report.append(" (");
        report.append(self.gap.reason());
        report.append("). Full transaction JSON:\n");
        report.append(document);
        report
    }
}

/// What each note of a list says.
pub open spec fn note_views(notes: Seq<Note>) -> Seq<NoteView> {
    Seq::new(notes.len(), |i: int| notes[i]@)
}

/// The first lockout that a single vote confirms.
pub open spec fn newest_lockout(lockouts: Seq<Lockout>) -> Option<u64>
    decreases lockouts.len(),
{
    if lockouts.len() == 0 {
        None
    } else if lockouts[0].confirmation_count == 1 {
        Some(lockouts[0].slot)
    } else {
        newest_lockout(lockouts.drop_first())
    }
}

/// The slot that an instruction votes for, and what there is to note.
///
/// The slots of a vote are confirmed by one vote more each towards the front,
/// so the one that a single vote confirms is the last.
pub open spec fn judged(decoded: Result<VoteInstructionView, DecodeErrorView>) -> (
    Option<u64>,
    Option<NoteView>,
) {
    match decoded {
        Ok(VoteInstructionView::Vote(slots)) => (
            if slots.len() == 0 {
                None
            } else {
                Some(slots.last())
            },
            None,
        ),
        Ok(VoteInstructionView::TowerSync(lockouts)) => (newest_lockout(lockouts), None),
        Ok(VoteInstructionView::Other(printed)) => (
            None,
            Some(NoteView::detailed(Gap::OtherInstruction, printed)),
        ),
        Err(DecodeErrorView::Base58(failure)) => (
            None,
            Some(NoteView::detailed(Gap::Base58, failure)),
        ),
        Err(DecodeErrorView::Instruction(failure)) => (
            None,
            Some(NoteView::detailed(Gap::Bincode, failure)),
        ),
    }
}

/// What a note that may be missing says.
pub open spec fn optional_note(note: Option<Note>) -> Option<NoteView> {
    match note {
        Some(note) => Some(note@),
        None => None,
    }
}

fn find_newest_lockout(lockouts: &Vec<Lockout>) -> (slot: Option<u64>)
    ensures
        slot == newest_lockout(lockouts@),
{
    let mut i: usize = 0;
    assert(lockouts@.skip(0) == lockouts@);
    while i < lockouts.len()
        invariant
            i <= lockouts.len(),
            newest_lockout(lockouts@) == newest_lockout(lockouts@.skip(i as int)),
        decreases lockouts.len() - i,
    {
        assert(lockouts@.skip(i as int).drop_first() == lockouts@.skip(i + 1));
        if lockouts[i].confirmation_count == 1 {
            return Some(lockouts[i].slot);
        }
        i += 1;
    }
    None
}

/// The slot that a decoded instruction votes for, and what there is to note.
pub fn judge_instruction(decoded: &Result<VoteInstruction, DecodeError>) -> (verdict: (
    Option<u64>,
    Option<Note>,
))
    ensures
        (verdict.0, optional_note(verdict.1)) == judged(decoded_view(*decoded)),
{
    match decoded {
        Ok(VoteInstruction::Vote(slots)) => if slots.len() == 0 {
            (None, None)
        } else {
            (Some(slots[slots.len() - 1]), None)
        },
        Ok(VoteInstruction::TowerSync(lockouts)) => (find_newest_lockout(lockouts), None),
        Ok(VoteInstruction::Other(printed)) => (
            None,
            Some(Note::detailed(Gap::OtherInstruction, printed)),
        ),
        Err(DecodeError::Base58(failure)) => (None, Some(Note::detailed(Gap::Base58, failure))),
        Err(DecodeError::Instruction(failure)) => (
            None,
            Some(Note::detailed(Gap::Bincode, failure)),
        ),
    }
}

/// What an instruction holds for the search.
#[derive(Debug)]
pub enum VoteData {
    /// The instruction is not one of the vote program.
    Foreign,
    /// Something is missing.
    Missing(Gap),
    /// The data of an instruction of the vote program.
    Encoded(String),
}

/// What the search finds in an instruction.
pub enum VoteDataView {
    Foreign,
    Missing(Gap),
    Encoded(Seq<char>),
}

impl View for VoteData {
    type V = VoteDataView;

    open spec fn view(&self) -> VoteDataView {
        match self {
            VoteData::Foreign => VoteDataView::Foreign,
            VoteData::Missing(gap) => VoteDataView::Missing(*gap),
            VoteData::Encoded(data) => VoteDataView::Encoded(data@),
        }
    }
}

/// The place in the account keys where the program of an instruction stands.
pub open spec fn program_index(instruction: JsonView) -> Option<usize> {
    match instruction.field("programIdIndex"@) {
        Some(index) => match index.as_u64() {
            Some(index) => Some(index as usize),
            None => None,
        },
        None => None,
    }
}

/// The account key at a place, where it is a string.
pub open spec fn key_at(account_keys: Seq<JsonView>, index: usize) -> Option<Seq<char>> {
    if index < account_keys.len() {
        account_keys[index as int].as_text()
    } else {
        None
    }
}

/// What an instruction holds for the search.
pub open spec fn vote_data(instruction: JsonView, account_keys: Seq<JsonView>) -> VoteDataView {
    match program_index(instruction) {
        None => VoteDataView::Missing(Gap::ProgramIndex),
        Some(index) => match key_at(account_keys, index) {
            None => VoteDataView::Missing(Gap::ProgramId),
            Some(program) => if program != "Vote111111111111111111111111111111111111111"@ {
                VoteDataView::Foreign
            } else {
                match instruction.field("data"@) {
                    Some(data) => match data.as_text() {
                        Some(data) => VoteDataView::Encoded(data),
                        None => VoteDataView::Missing(Gap::Data),
                    },
                    None => VoteDataView::Missing(Gap::Data),
                }
            },
        },
    }
}

/// What an instruction holds for the search.
pub fn find_vote_data(instruction: &Json, account_keys: &Vec<Json>) -> (data: VoteData)
    ensures
        data@ == vote_data(instruction@, json::json_views(account_keys@)),
{
    let index: usize = match instruction.get("programIdIndex") {
        Some(index) => match index.as_u64() {
            Some(index) => index as usize,
            None => return VoteData::Missing(Gap::ProgramIndex),
        },
        None => return VoteData::Missing(Gap::ProgramIndex),
    };
    if index >= account_keys.len() {
        return VoteData::Missing(Gap::ProgramId);
    }
    match account_keys[index].as_text() {
        Some(program) => if !text::same_text(
            program.as_str(),
            "Vote111111111111111111111111111111111111111",
        ) {
            return VoteData::Foreign;
        },
        None => return VoteData::Missing(Gap::ProgramId),
    }
    match instruction.get("data") {
        Some(data) => match data.as_text() {
            Some(data) => VoteData::Encoded(data.clone()),
            None => VoteData::Missing(Gap::Data),
        },
        None => VoteData::Missing(Gap::Data),
    }
}

/// What one instruction contributes to the search.
pub open spec fn verdict_on(instruction: JsonView, account_keys: Seq<JsonView>) -> (
    Option<u64>,
    Option<NoteView>,
) {
    match vote_data(instruction, account_keys) {
        VoteDataView::Foreign => (None, None),
        VoteDataView::Missing(gap) => (None, Some(NoteView::plain(gap))),
        VoteDataView::Encoded(data) => judged(decoded_instruction(data)),
    }
}

/// What one instruction contributes to the search.
pub fn judge_json_instruction(instruction: &Json, account_keys: &Vec<Json>) -> (verdict: (
    Option<u64>,
    Option<Note>,
))
    ensures
        (verdict.0, optional_note(verdict.1)) == verdict_on(
            instruction@,
            json::json_views(account_keys@),
        ),
{
    match find_vote_data(instruction, account_keys) {
        VoteData::Foreign => (None, None),
        VoteData::Missing(gap) => (None, Some(Note::plain(gap))),
        VoteData::Encoded(data) => judge_instruction(&decode_instruction(data.as_str())),
    }
}

/// The notes before the search ends, and the slot of the first instruction that
/// has one.
pub open spec fn searched(instructions: Seq<JsonView>, account_keys: Seq<JsonView>) -> (
    Option<u64>,
    Seq<NoteView>,
)
    decreases instructions.len(),
{
    if instructions.len() == 0 {
        (None, seq![NoteView::plain(Gap::NoMatch)])
    } else {
        let (slot, note) = verdict_on(instructions[0], account_keys);
        let here = match note {
            Some(note) => seq![note],
            None => Seq::empty(),
        };
        if slot is Some {
            (slot, here)
        } else {
            let (slot, later) = searched(instructions.drop_first(), account_keys);
            (slot, here + later)
        }
    }
}

/// The message of the transaction that a reply holds.
pub open spec fn reply_message(reply: JsonView) -> Option<JsonView> {
    match reply.field("result"@) {
        Some(result) => match result.field("transaction"@) {
            Some(transaction) => transaction.field("message"@),
            None => None,
        },
        None => None,
    }
}

/// The array in a field.
pub open spec fn array_field(document: JsonView, name: Seq<char>) -> Option<Seq<JsonView>> {
    match document.field(name) {
        Some(field) => field.as_array(),
        None => None,
    }
}

/// The reply says that there were too many requests.
pub open spec fn is_rate_limited(reply: JsonView) -> bool {
    match reply.field("error"@) {
        Some(error) => error.field("code"@) == Some(JsonView::Int(429)),
        None => false,
    }
}

/// The slot that the transaction in a reply votes for, with the notes of the
/// search, where the reply does not say that there were too many requests.
pub open spec fn found_slot(reply: JsonView) -> (Option<u64>, Seq<NoteView>) {
    match reply_message(reply) {
        None => (None, seq![NoteView::plain(Gap::Message)]),
        Some(message) => match array_field(message, "instructions"@) {
            None => (None, seq![NoteView::plain(Gap::Instructions)]),
            Some(instructions) => match array_field(message, "accountKeys"@) {
                None => (None, seq![NoteView::plain(Gap::AccountKeys)]),
                Some(account_keys) => searched(instructions, account_keys),
            },
        },
    }
}

/// What a reply says of the slot that its transaction votes for, or the failure
/// where it says that there were too many requests.
pub open spec fn extracted(reply: JsonView) -> Result<(Option<u64>, Seq<NoteView>), Seq<char>> {
    if is_rate_limited(reply) {
        Err("429"@)
    } else {
        Ok(found_slot(reply))
    }
}

/// The outcome of the search for the slot that a transaction votes for.
#[derive(Debug)]
pub struct VotedSlot {
    pub slot: Option<u64>,
    pub notes: Vec<Note>,
}

impl View for VotedSlot {
    type V = (Option<u64>, Seq<NoteView>);

    open spec fn view(&self) -> (Option<u64>, Seq<NoteView>) {
        (self.slot, note_views(self.notes@))
    }
}

fn nothing_found(gap: Gap) -> (found: VotedSlot)
    ensures
        found@ == (None::<u64>, seq![NoteView::plain(gap)]),
{
    let notes: Vec<Note> = vec![Note::plain(gap)];
    assert(note_views(notes@) =~= seq![NoteView::plain(gap)]);
    VotedSlot { slot: None, notes }
}

/// Searches the instructions of a message, in order, for one of the vote
/// program that names a slot.
pub fn search_instructions(instructions: &Vec<Json>, account_keys: &Vec<Json>) -> (found: VotedSlot)
    ensures
        found@ == searched(json::json_views(instructions@), json::json_views(account_keys@)),
{
    let ghost all = json::json_views(instructions@);
    let ghost keys = json::json_views(account_keys@);
    let mut notes: Vec<Note> = Vec::new();
    let mut i: usize = 0;
    assert(all.skip(0) == all);
    assert(note_views(notes@) + searched(all, keys).1 =~= searched(all, keys).1);
    while i < instructions.len()
        invariant
            i <= instructions.len(),
            all == json::json_views(instructions@),
            keys == json::json_views(account_keys@),
            searched(all, keys).0 == searched(all.skip(i as int), keys).0,
            searched(all, keys).1 == note_views(notes@) + searched(all.skip(i as int), keys).1,
        decreases instructions.len() - i,
    {
        let ghost before = note_views(notes@);
        assert(all.skip(i as int)[0] == instructions@[i as int]@);
        assert(all.skip(i as int).drop_first() == all.skip(i + 1));
        let (slot, note) = judge_json_instruction(&instructions[i], account_keys);
        let ghost here = match optional_note(note) {
            Some(note) => seq![note],
            None => Seq::empty(),
        };
        if let Some(note) = note {
            notes.push(note);
        }
        assert(note_views(notes@) =~= before + here);
        if slot.is_some() {
            return VotedSlot { slot, notes };
        }
        assert(before + here + searched(all.skip(i + 1), keys).1 =~= before + (here + searched(
            all.skip(i + 1),
            keys,
        ).1));
        i += 1;
    }
    let ghost before = note_views(notes@);
    notes.push(Note::plain(Gap::NoMatch));
    assert(note_views(notes@) =~= before + seq![NoteView::plain(Gap::NoMatch)]);
    VotedSlot { slot: None, notes }
}

/// The slot that the transaction in a reply votes for, with the notes of the
/// search; a reply that says that there were too many requests is a failure.
pub fn extract_voted_slot(reply: &Json) -> (outcome: Result<VotedSlot, String>)
    ensures
        match outcome {
            Ok(found) => !is_rate_limited(reply@) && found@ == found_slot(reply@),
            Err(failure) => is_rate_limited(reply@) && failure@ == "429"@,
        },
        match outcome {
            Ok(found) => extracted(reply@) == Ok::<(Option<u64>, Seq<NoteView>), Seq<char>>(found@),
            Err(failure) => extracted(reply@) == Err::<(Option<u64>, Seq<NoteView>), Seq<char>>(
                failure@,
            ),
        },
{
    if let Some(error) = reply.get("error") {
        if let Some(Json::Int(code)) = error.get("code") {
            if *code == 429 {
                return Err("429".to_owned());
            }
        }
    }
    let message = match reply.get("result") {
        Some(result) => match result.get("transaction") {
            Some(transaction) => transaction.get("message"),
            None => None,
        },
        None => None,
    };
    let message = match message {
        Some(message) => message,
        None => return Ok(nothing_found(Gap::Message)),
    };
    let instructions = match message.get("instructions") {
        Some(field) => match field.as_array() {
            Some(instructions) => instructions,
            None => return Ok(nothing_found(Gap::Instructions)),
        },
        None => return Ok(nothing_found(Gap::Instructions)),
    };
    let account_keys = match message.get("accountKeys") {
        Some(field) => match field.as_array() {
            Some(account_keys) => account_keys,
            None => return Ok(nothing_found(Gap::AccountKeys)),
        },
        None => return Ok(nothing_found(Gap::AccountKeys)),
    };
    Ok(search_instructions(instructions, account_keys))
}

/// The slots of a vote are confirmed once more each towards the front; the slot
/// that is found is the one that a single vote confirms.
pub proof fn law_vote_names_its_newest_slot(slots: Seq<u64>, i: int)
    requires
        0 <= i < slots.len(),
        slots.len() - i == 1,
    ensures
        judged(Ok(VoteInstructionView::Vote(slots))) == (Some(slots[i]), None::<NoteView>),
{
}

/// Of a tower the first lockout that a single vote confirms is found, and none
/// where there is no such lockout.
pub proof fn law_tower_names_its_newest_slot(lockouts: Seq<Lockout>, i: int)
    requires
        0 <= i <= lockouts.len(),
        forall|j: int| 0 <= j < i ==> (#[trigger] lockouts[j]).confirmation_count != 1,
        i < lockouts.len() ==> lockouts[i].confirmation_count == 1,
    ensures
        judged(Ok(VoteInstructionView::TowerSync(lockouts))) == (
            if i < lockouts.len() {
                Some(lockouts[i].slot)
            } else {
                None
            },
            None::<NoteView>,
        ),
    decreases lockouts.len(),
{
    if lockouts.len() > 0 && i > 0 {
        let rest = lockouts.drop_first();
        assert(lockouts[0].confirmation_count != 1);
        assert forall|j: int| 0 <= j < i - 1 implies (#[trigger] rest[j]).confirmation_count
            != 1 by {
            assert(rest[j] == lockouts[j + 1]);
        }
        law_tower_names_its_newest_slot(rest, i - 1);
    }
}

/// The search ends with the first instruction that names a slot.
pub proof fn law_first_voting_instruction_decides(
    instructions: Seq<JsonView>,
    account_keys: Seq<JsonView>,
    i: int,
)
    requires
        0 <= i < instructions.len(),
        forall|j: int| 0 <= j < i ==> verdict_on(#[trigger] instructions[j], account_keys).0 is None,
        verdict_on(instructions[i], account_keys).0 is Some,
    ensures
        searched(instructions, account_keys).0 == verdict_on(instructions[i], account_keys).0,
    decreases instructions.len(),
{
    if i > 0 {
        let rest = instructions.drop_first();
        assert(verdict_on(instructions[0], account_keys).0 is None);
        assert forall|j: int| 0 <= j < i - 1 implies verdict_on(
            #[trigger] rest[j],
            account_keys,
        ).0 is None by {
            assert(rest[j] == instructions[j + 1]);
        }
        law_first_voting_instruction_decides(rest, account_keys, i - 1);
    }
}

/// Where no instruction names a slot none is found, and the last note says so.
pub proof fn law_no_voting_instruction(instructions: Seq<JsonView>, account_keys: Seq<JsonView>)
    requires
        forall|j: int|
            0 <= j < instructions.len() ==> verdict_on(
                #[trigger] instructions[j],
                account_keys,
            ).0 is None,
    ensures
        searched(instructions, account_keys).0 is None,
        searched(instructions, account_keys).1.len() > 0,
        searched(instructions, account_keys).1.last() == NoteView::plain(Gap::NoMatch),
    decreases instructions.len(),
{
    if instructions.len() > 0 {
        let rest = instructions.drop_first();
        assert(verdict_on(instructions[0], account_keys).0 is None);
        assert forall|j: int| 0 <= j < rest.len() implies verdict_on(
            #[trigger] rest[j],
            account_keys,
        ).0 is None by {
            assert(rest[j] == instructions[j + 1]);
        }
        law_no_voting_instruction(rest, account_keys);
    }
}

} // verus!
