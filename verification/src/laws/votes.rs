//! Laws of the search for the slot that a transaction votes for.

use crate::json::JsonView;
use crate::voted_slot::{
    self, DecodeError, DecodeErrorView, Gap, Lockout, Note, NoteView, VoteData, VoteDataView,
    VoteInstruction, VoteInstructionView, VotedSlot,
};
use vstd::prelude::*;

verus! {

/// An instruction of the vote program is judged by what its data decodes to,
/// wherever among the account keys the program stands, the last place included.
pub proof fn law_vote_instruction_is_judged(
    instruction: JsonView,
    account_keys: Seq<JsonView>,
    n: int,
    data: Seq<char>,
)
    requires
        instruction.field("programIdIndex"@) == Some(JsonView::Int(n)),
        0 <= n < account_keys.len(),
        n <= usize::MAX,
        account_keys[n] == JsonView::Text("Vote111111111111111111111111111111111111111"@),
        instruction.field("data"@) == Some(JsonView::Text(data)),
    ensures
        voted_slot::vote_data(instruction, account_keys) == VoteDataView::Encoded(data),
        voted_slot::verdict_on(instruction, account_keys) == voted_slot::judged(
            voted_slot::decoded_instruction(data),
        ),
{
    assert((n as u64) as usize == n);
}

/// An instruction of another program says nothing, whatever its data.
pub proof fn law_foreign_instruction_is_passed_over(
    instruction: JsonView,
    account_keys: Seq<JsonView>,
    n: int,
    program: Seq<char>,
)
    requires
        instruction.field("programIdIndex"@) == Some(JsonView::Int(n)),
        0 <= n < account_keys.len(),
        n <= usize::MAX,
        account_keys[n] == JsonView::Text(program),
        program != "Vote111111111111111111111111111111111111111"@,
    ensures
        voted_slot::vote_data(instruction, account_keys) == VoteDataView::Foreign,
        voted_slot::verdict_on(instruction, account_keys) == (None::<u64>, None::<NoteView>),
{
    assert((n as u64) as usize == n);
}

/// An instruction without a number for its program is noted for that.
pub proof fn law_missing_program_index(instruction: JsonView, account_keys: Seq<JsonView>)
    requires
        match instruction.field("programIdIndex"@) {
            Some(JsonView::Int(n)) => n < 0 || n > 0xffff_ffff_ffff_ffff,
            _ => true,
        },
    ensures
        voted_slot::vote_data(instruction, account_keys) == VoteDataView::Missing(
            Gap::ProgramIndex,
        ),
{
}

/// An instruction whose program is not among the account keys, or is no text
/// there, is noted for that.
pub proof fn law_missing_program(instruction: JsonView, account_keys: Seq<JsonView>, n: int)
    requires
        instruction.field("programIdIndex"@) == Some(JsonView::Int(n)),
        0 <= n <= usize::MAX,
        n >= account_keys.len() || account_keys[n] !is Text,
    ensures
        voted_slot::vote_data(instruction, account_keys) == VoteDataView::Missing(Gap::ProgramId),
{
    assert((n as u64) as usize == n);
}

/// An instruction of the vote program without a text as its data is noted for
/// that.
pub proof fn law_missing_data(instruction: JsonView, account_keys: Seq<JsonView>, n: int)
    requires
        instruction.field("programIdIndex"@) == Some(JsonView::Int(n)),
        0 <= n < account_keys.len(),
        n <= usize::MAX,
        account_keys[n] == JsonView::Text("Vote111111111111111111111111111111111111111"@),
        match instruction.field("data"@) {
            Some(data) => data !is Text,
            None => true,
        },
    ensures
        voted_slot::vote_data(instruction, account_keys) == VoteDataView::Missing(Gap::Data),
{
    assert((n as u64) as usize == n);
}

/// What is missing is noted, without a slot.
pub proof fn law_missing_parts_are_noted(
    instruction: JsonView,
    account_keys: Seq<JsonView>,
    gap: Gap,
)
    requires
        voted_slot::vote_data(instruction, account_keys) == VoteDataView::Missing(gap),
    ensures
        voted_slot::verdict_on(instruction, account_keys) == (
            None::<u64>,
            Some(NoteView { gap, detail: None }),
        ),
{
}

/// Data is decoded from base58 to bytes and from the bytes to an instruction,
/// and the step that fails is told.
pub proof fn law_decoding(
    data: Seq<char>,
    bytes: Seq<u8>,
    instruction: VoteInstructionView,
    failure: Seq<char>,
)
    ensures
        voted_slot::base58_bytes(data) == Ok::<Seq<u8>, Seq<char>>(bytes)
            && voted_slot::bincode_instruction(bytes) == Ok::<VoteInstructionView, Seq<char>>(
            instruction,
        ) ==> voted_slot::decoded_instruction(data) == Ok::<VoteInstructionView, DecodeErrorView>(
            instruction,
        ),
        voted_slot::base58_bytes(data) == Ok::<Seq<u8>, Seq<char>>(bytes)
            && voted_slot::bincode_instruction(bytes) == Err::<VoteInstructionView, Seq<char>>(
            failure,
        ) ==> voted_slot::decoded_instruction(data) == Err::<VoteInstructionView, DecodeErrorView>(
            DecodeErrorView::Instruction(failure),
        ),
        voted_slot::base58_bytes(data) == Err::<Seq<u8>, Seq<char>>(failure)
            ==> voted_slot::decoded_instruction(data) == Err::<
            VoteInstructionView,
            DecodeErrorView,
        >(DecodeErrorView::Base58(failure)),
{
}

/// A vote without slots names none, and nothing is noted of it, nor of any vote
/// or tower.
pub proof fn law_votes_without_a_slot(slots: Seq<u64>, lockouts: Seq<Lockout>)
    ensures
        voted_slot::judged(Ok(VoteInstructionView::Vote(slots))).1 is None,
        voted_slot::judged(Ok(VoteInstructionView::Vote(Seq::empty()))) == (
            None::<u64>,
            None::<NoteView>,
        ),
        voted_slot::judged(Ok(VoteInstructionView::TowerSync(lockouts))).1 is None,
{
}

/// Whatever else the data turns out to be is noted as such, with what the
/// decoder had to say.
pub proof fn law_undecided_data_is_noted(detail: Seq<char>)
    ensures
        voted_slot::judged(Ok(VoteInstructionView::Other(detail))) == (
            None::<u64>,
            Some(NoteView { gap: Gap::OtherInstruction, detail: Some(detail) }),
        ),
        voted_slot::judged(Err(DecodeErrorView::Base58(detail))) == (
            None::<u64>,
            Some(NoteView { gap: Gap::Base58, detail: Some(detail) }),
        ),
        voted_slot::judged(Err(DecodeErrorView::Instruction(detail))) == (
            None::<u64>,
            Some(NoteView { gap: Gap::Bincode, detail: Some(detail) }),
        ),
{
}

/// The search over one instruction, or none: a slot ends it with what there is to
/// note of the instruction; else the last note says that none was found.
pub proof fn law_search_of_few(instruction: JsonView, account_keys: Seq<JsonView>)
    ensures
        voted_slot::searched(Seq::empty(), account_keys) == (
            None::<u64>,
            seq![NoteView { gap: Gap::NoMatch, detail: None }],
        ),
        ({
            let (slot, note) = voted_slot::verdict_on(instruction, account_keys);
            let nothing = NoteView { gap: Gap::NoMatch, detail: None };
            let found = voted_slot::searched(seq![instruction], account_keys);
            &&& found.0 == slot
            &&& slot is Some && note is Some ==> found.1 == seq![note->0]
            &&& slot is Some && note is None ==> found.1.len() == 0
            &&& slot is None && note is Some ==> found.1 == seq![note->0, nothing]
            &&& slot is None && note is None ==> found.1 == seq![nothing]
        }),
{
    reveal_with_fuel(voted_slot::searched, 2);
    let (slot, note) = voted_slot::verdict_on(instruction, account_keys);
    let nothing = NoteView { gap: Gap::NoMatch, detail: None };
    let one = seq![instruction];
    assert(one.drop_first() =~= Seq::empty());
    assert(one[0] == instruction);
    if note is Some {
        assert(seq![note->0] + seq![nothing] =~= seq![note->0, nothing]);
    } else {
        assert(Seq::<NoteView>::empty() + seq![nothing] =~= seq![nothing]);
    }
}

/// Where the first instructions name no slot, the search goes on behind them, and
/// their notes come first.
pub proof fn law_search_goes_on(
    first: Seq<JsonView>,
    rest: Seq<JsonView>,
    account_keys: Seq<JsonView>,
)
    requires
        voted_slot::searched(first, account_keys).0 is None,
    ensures
        voted_slot::searched(first + rest, account_keys).0 == voted_slot::searched(
            rest,
            account_keys,
        ).0,
        voted_slot::searched(first + rest, account_keys).1 == voted_slot::searched(
            first,
            account_keys,
        ).1.drop_last() + voted_slot::searched(rest, account_keys).1,
        voted_slot::searched(first, account_keys).1.len() > 0,
    decreases first.len(),
{
    let later = voted_slot::searched(rest, account_keys).1;
    if first.len() == 0 {
        assert(first + rest =~= rest);
        assert(voted_slot::searched(first, account_keys).1.drop_last() + later =~= later);
    } else {
        let tail = first.drop_first();
        assert((first + rest).drop_first() =~= tail + rest);
        assert((first + rest)[0] == first[0]);
        law_search_goes_on(tail, rest, account_keys);
        let note = voted_slot::verdict_on(first[0], account_keys).1;
        let here = match note {
            Some(note) => seq![note],
            None => Seq::empty(),
        };
        let inner = voted_slot::searched(tail, account_keys).1;
        assert(voted_slot::searched(first, account_keys).1 == here + inner);
        assert((here + inner).drop_last() =~= here + inner.drop_last());
        assert(here + (inner.drop_last() + later) =~= (here + inner.drop_last()) + later);
    }
}

/// Where the first instructions name a slot, what follows is not looked at.
pub proof fn law_search_ends(
    first: Seq<JsonView>,
    rest: Seq<JsonView>,
    account_keys: Seq<JsonView>,
)
    requires
        voted_slot::searched(first, account_keys).0 is Some,
    ensures
        voted_slot::searched(first + rest, account_keys) == voted_slot::searched(
            first,
            account_keys,
        ),
    decreases first.len(),
{
    if first.len() > 0 {
        let tail = first.drop_first();
        assert((first + rest).drop_first() =~= tail + rest);
        assert((first + rest)[0] == first[0]);
        if voted_slot::verdict_on(first[0], account_keys).0 is None {
            law_search_ends(tail, rest, account_keys);
        }
    }
}

/// The instructions and account keys of the message in the transaction of a
/// reply's result are searched.
pub proof fn law_reply_is_searched(
    reply: JsonView,
    result: JsonView,
    transaction: JsonView,
    message: JsonView,
    instructions: Seq<JsonView>,
    account_keys: Seq<JsonView>,
)
    requires
        reply.field("result"@) == Some(result),
        result.field("transaction"@) == Some(transaction),
        transaction.field("message"@) == Some(message),
        message.field("instructions"@) == Some(JsonView::Array(instructions)),
        message.field("accountKeys"@) == Some(JsonView::Array(account_keys)),
    ensures
        voted_slot::found_slot(reply) == voted_slot::searched(instructions, account_keys),
{
}

/// A reply without a message is noted for that, as is a message without an array
/// of instructions, or else of account keys.
pub proof fn law_incomplete_replies(
    reply: JsonView,
    result: JsonView,
    transaction: JsonView,
    message: JsonView,
)
    ensures
        reply.field("result"@) is None || (reply.field("result"@) == Some(result) && (
        result.field("transaction"@) is None || (result.field("transaction"@) == Some(transaction)
            && transaction.field("message"@) is None))) ==> voted_slot::found_slot(reply) == (
            None::<u64>,
            seq![NoteView { gap: Gap::Message, detail: None }],
        ),
        reply.field("result"@) == Some(result) && result.field("transaction"@) == Some(transaction)
            && transaction.field("message"@) == Some(message) ==> {
            let listed = match message.field("instructions"@) {
                Some(field) => field is Array,
                None => false,
            };
            let keyed = match message.field("accountKeys"@) {
                Some(field) => field is Array,
                None => false,
            };
            &&& !listed ==> voted_slot::found_slot(reply) == (
                None::<u64>,
                seq![NoteView { gap: Gap::Instructions, detail: None }],
            )
            &&& listed && !keyed ==> voted_slot::found_slot(reply) == (
                None::<u64>,
                seq![NoteView { gap: Gap::AccountKeys, detail: None }],
            )
        },
{
}

/// A reply is refused for its rate exactly where its error has the code 429.
pub proof fn law_rate_limited_replies(reply: JsonView, error: JsonView)
    ensures
        reply.field("error"@) is None ==> !voted_slot::is_rate_limited(reply),
        reply.field("error"@) == Some(error) ==> (voted_slot::is_rate_limited(reply)
            <==> error.field("code"@) == Some(JsonView::Int(429))),
{
}

/// A reply whose error has the code 429 is a failure of that name; every other
/// reply is searched, one with another error too.
pub proof fn law_extraction(reply: JsonView, error: JsonView)
    ensures
        reply.field("error"@) is None ==> voted_slot::extracted(reply) == Ok::<
            (Option<u64>, Seq<NoteView>),
            Seq<char>,
        >(voted_slot::found_slot(reply)),
        reply.field("error"@) == Some(error) && error.field("code"@) != Some(JsonView::Int(429))
            ==> voted_slot::extracted(reply) == Ok::<(Option<u64>, Seq<NoteView>), Seq<char>>(
            voted_slot::found_slot(reply),
        ),
        reply.field("error"@) == Some(error) && error.field("code"@) == Some(JsonView::Int(429))
            ==> voted_slot::extracted(reply) == Err::<(Option<u64>, Seq<NoteView>), Seq<char>>(
            "429"@,
        ),
{
}

/// The report of a note names the signature and the reason and holds the whole
/// document; what a decoder had to say goes on a line before.
pub proof fn law_reports(
    gap: Gap,
    detail: Seq<char>,
    signature: Seq<char>,
    document: Seq<char>,
)
    ensures
        ({
            let body = "DEBUG: Could not extract voted slot for signature "@ + signature + " ("@
                + gap.reason_view() + "). Full transaction JSON:\n"@ + document;
            &&& (NoteView { gap, detail: None }).report(signature, document) == body
            &&& gap is Base58 ==> (NoteView { gap, detail: Some(detail) }).report(
                signature,
                document,
            ) == "Failed to decode base58: "@ + detail + "\n"@ + body
            &&& gap is OtherInstruction ==> (NoteView { gap, detail: Some(detail) }).report(
                signature,
                document,
            ) == "Decoded but not Vote or TowerSync: "@ + detail + "\n"@ + body
            &&& gap is Bincode ==> (NoteView { gap, detail: Some(detail) }).report(
                signature,
                document,
            ) == "Failed to deserialize vote instruction: "@ + detail + "\n"@ + body
        }),
{
    reveal_strlit("");
    let intro = "DEBUG: Could not extract voted slot for signature "@;
    let outro = "). Full transaction JSON:\n"@;
    let reason = gap.reason_view();
    let body = intro + signature + " ("@ + reason + outro + document;
    assert(""@ + intro + signature + " ("@ + reason + outro + document =~= body);
    let lead = gap.lead_view() + detail + "\n"@;
    assert(lead + intro + signature + " ("@ + reason + outro + document =~= lead + body);
}

/// Each gap is reported by its reason, whatever the signature and the document.
pub proof fn law_reasons(signature: Seq<char>, document: Seq<char>)
    ensures
        forall|gap: Gap|
            (#[trigger] (NoteView { gap, detail: None }).report(signature, document))
                == "DEBUG: Could not extract voted slot for signature "@ + signature + " ("@
                + match gap {
                Gap::Message => "missing transaction/message"@,
                Gap::Instructions => "missing instructions"@,
                Gap::AccountKeys => "missing accountKeys"@,
                Gap::ProgramIndex => "missing programIdIndex"@,
                Gap::ProgramId => "missing program_id in account_keys"@,
                Gap::Data => "missing data in instruction"@,
                Gap::Base58 => "base58 decode failed"@,
                Gap::OtherInstruction => "decoded but not Vote or TowerSync"@,
                Gap::Bincode => "bincode deserialize failed"@,
                Gap::NoMatch => "no matching instruction found"@,
            } + "). Full transaction JSON:\n"@ + document,
{
    assert forall|gap: Gap|
        (#[trigger] (NoteView { gap, detail: None }).report(signature, document))
            == "DEBUG: Could not extract voted slot for signature "@ + signature + " ("@
            + gap.reason_view() + "). Full transaction JSON:\n"@ + document by {
        law_reports(gap, Seq::empty(), signature, document);
    }
}

/// Instructions, failures, data and notes say what they hold.
pub proof fn law_parts_say_what_they_hold(
    slots: Vec<u64>,
    lockouts: Vec<Lockout>,
    text: String,
    gap: Gap,
)
    ensures
        VoteInstruction::Vote(slots)@ == VoteInstructionView::Vote(slots@),
        VoteInstruction::TowerSync(lockouts)@ == VoteInstructionView::TowerSync(lockouts@),
        VoteInstruction::Other(text)@ == VoteInstructionView::Other(text@),
        DecodeError::Base58(text)@ == DecodeErrorView::Base58(text@),
        DecodeError::Instruction(text)@ == DecodeErrorView::Instruction(text@),
        VoteData::Foreign@ == VoteDataView::Foreign,
        VoteData::Missing(gap)@ == VoteDataView::Missing(gap),
        VoteData::Encoded(text)@ == VoteDataView::Encoded(text@),
        (Note { gap, detail: None })@ == (NoteView { gap, detail: None }),
        (Note { gap, detail: Some(text) })@ == (NoteView { gap, detail: Some(text@) }),
{
}

/// Outcomes say what they hold: the slot, each note in order, and what a decoder
/// made of the data.
pub proof fn law_outcomes_say_what_they_hold(
    found: VotedSlot,
    note: Note,
    instruction: VoteInstruction,
    failure: DecodeError,
)
    ensures
        found@.0 == found.slot,
        found@.1.len() == found.notes@.len(),
        forall|i: int| 0 <= i < found.notes@.len() ==> #[trigger] found@.1[i] == found.notes@[i]@,
        voted_slot::optional_note(Some(note)) == Some(note@),
        voted_slot::optional_note(None) is None,
        voted_slot::decoded_view(Ok(instruction)) == Ok::<VoteInstructionView, DecodeErrorView>(
            instruction@,
        ),
        voted_slot::decoded_view(Err(failure)) == Err::<VoteInstructionView, DecodeErrorView>(
            failure@,
        ),
{
}

} // verus!
