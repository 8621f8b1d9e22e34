//! The JSON-RPC calls of the checker: what is asked, and how a reply is read.

use crate::json::{self, entry, Json, JsonView};
use crate::text;
use vstd::prelude::*;

verus! {

/// The body of a call of `method` with two parameters.
pub open spec fn call_view(method: Seq<char>, subject: JsonView, options: JsonView) -> JsonView {
    JsonView::Object(
        seq![
            ("jsonrpc"@, JsonView::Text("2.0"@)),
            ("id"@, JsonView::Int(1)),
            ("method"@, JsonView::Text(method)),
            ("params"@, JsonView::Array(seq![subject, options])),
        ],
    )
}

/// What a call for the block of a slot asks for.
pub open spec fn block_options() -> JsonView {
    JsonView::Object(
        seq![
            ("encoding"@, JsonView::Text("json"@)),
            ("transactionDetails"@, JsonView::Text("full"@)),
            ("rewards"@, JsonView::Bool(false)),
            ("maxSupportedTransactionVersion"@, JsonView::Int(0)),
        ],
    )
}

/// What a call for one transaction asks for.
pub open spec fn transaction_options() -> JsonView {
    JsonView::Object(
        seq![
            ("encoding"@, JsonView::Text("json"@)),
            ("commitment"@, JsonView::Text("confirmed"@)),
        ],
    )
}

/// The body of the call for the block of a slot.
pub open spec fn block_call(slot: u64) -> JsonView {
    call_view("getBlock"@, JsonView::Int(slot as int), block_options())
}

/// The body of the call for the transaction with a signature.
pub open spec fn transaction_call(signature: Seq<char>) -> JsonView {
    call_view("getTransaction"@, JsonView::Text(signature), transaction_options())
}

fn call(method: &str, subject: Json, options: Json) -> (body: Json)
    ensures
        body@ == call_view(method@, subject@, options@),
{
    let params: Vec<Json> = vec![subject, options];
    assert(json::json_views(params@) =~= seq![subject@, options@]);
    let params_field = Json::Array(params);
    assert(params_field@ == JsonView::Array(seq![subject@, options@]));
    let fields: Vec<(String, Json)> = vec![
        entry("jsonrpc", Json::text("2.0")),
        entry("id", Json::Int(1)),
        entry("method", Json::text(method)),
        entry("params", params_field),
    ];
    assert(json::field_views(fields@) =~= call_view(method@, subject@, options@)->Object_0);
    Json::Object(fields)
}

/// The body of the call for the block of a slot.
pub fn block_request(slot: u64) -> (body: Json)
    ensures
        body@ == call_view("getBlock"@, JsonView::Int(slot as int), block_options()),
        body@ == block_call(slot),
{
    let fields: Vec<(String, Json)> = vec![
        entry("encoding", Json::text("json")),
        entry("transactionDetails", Json::text("full")),
        entry("rewards", Json::Bool(false)),
        entry("maxSupportedTransactionVersion", Json::Int(0)),
    ];
    assert(json::field_views(fields@) =~= block_options()->Object_0);
    let options = Json::Object(fields);
    assert(options@ == block_options());
    call("getBlock", Json::Int(slot as i128), options)
}

/// The body of the call for the transaction with a signature.
pub fn transaction_request(signature: &str) -> (body: Json)
    ensures
        body@ == call_view(
            "getTransaction"@,
            JsonView::Text(signature@),
            transaction_options(),
        ),
        body@ == transaction_call(signature@),
{
    let fields: Vec<(String, Json)> = vec![
        entry("encoding", Json::text("json")),
        entry("commitment", Json::text("confirmed")),
    ];
    assert(json::field_views(fields@) =~= transaction_options()->Object_0);
    let options = Json::Object(fields);
    assert(options@ == transaction_options());
    call("getTransaction", Json::text(signature), options)
}

/// How a node answered the call for a block, where it did not report a failure.
#[derive(Debug, PartialEq, Eq, Structural)]
pub enum BlockReply {
    /// The node has no block for the slot.
    Missing,
    /// The reply's `result` holds the block.
    Decode,
}

/// The code that a reply's `error` field gives.
pub open spec fn error_code(error: JsonView) -> Option<i64> {
    match error.field("code"@) {
        Some(code) => code.as_i64(),
        None => None,
    }
}

/// The message that a reply's `error` field gives.
pub open spec fn error_message(error: JsonView) -> Seq<char> {
    match error.field("message"@) {
        Some(message) => match message.as_text() {
            Some(text) => text,
            None => "Unknown error"@,
        },
        None => "Unknown error"@,
    }
}

/// How the reply to a call for a block is to be taken, or what the failure it
/// reports is called.
pub open spec fn block_reply(reply: JsonView) -> Result<BlockReply, Seq<char>> {
    match reply.field("error"@) {
        None => Ok(BlockReply::Decode),
        Some(error) => match error_code(error) {
            None => Err(error_message(error)),
            Some(code) => if code == -32009 || code == -32007 {
                Ok(BlockReply::Missing)
            } else if code == 429 {
                Err("429"@)
            } else {
                Err("error "@ + text::signed_decimal(code as int) + ": "@ + error_message(error))
            },
        },
    }
}

/// Reads the reply to a call for a block.
///
/// A slot that was skipped or is missing from long-term storage has no block;
/// any other `error` field is a failure, whatever it holds.
pub fn read_block_reply(reply: &Json) -> (outcome: Result<BlockReply, String>)
    ensures
        match outcome {
            Ok(taken) => block_reply(reply@) == Ok::<BlockReply, Seq<char>>(taken),
            Err(failure) => block_reply(reply@) == Err::<BlockReply, Seq<char>>(failure@),
        },
{
    let error = match reply.get("error") {
        Some(error) => error,
        None => return Ok(BlockReply::Decode),
    };
    let code: Option<i64> = match error.get("code") {
        Some(code) => code.as_i64(),
        None => None,
    };
    assert(code == error_code(error@));
    if let Some(code) = code {
        if code == -32009 || code == -32007 {
            return Ok(BlockReply::Missing);
        }
        if code == 429 {
            return Err("429".to_owned());
        }
    }
    let mut failure = String::new();
    if let Some(code) = code {
        failure.append("error ");
        text::push_signed(&mut failure, code);
        failure.append(": ");
    }
    let ghost head = failure@;
    let message = match error.get("message") {
        Some(message) => message.as_text(),
        None => None,
    };
    match message {
        Some(text) => failure.append(text.as_str()),
        None => failure.append("Unknown error"),
    }
    assert(failure@ == head + error_message(error@));
    assert(code is None ==> failure@ =~= error_message(error@));
    Err(failure)
}

} // verus!
