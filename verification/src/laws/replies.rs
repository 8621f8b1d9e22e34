//! Laws of the RPC calls and their replies.

use crate::json::JsonView;
use crate::laws::documents;
use crate::rpc::{self, BlockReply};
use crate::text;
use vstd::prelude::*;

verus! {

/// Every call names the protocol, its number and its method, and hands over the
/// subject and then the options.
pub proof fn law_call_fields(method: Seq<char>, subject: JsonView, options: JsonView)
    ensures
        rpc::call_view(method, subject, options) is Object,
        rpc::call_view(method, subject, options)->Object_0.len() == 4,
        rpc::call_view(method, subject, options).field("jsonrpc"@) == Some(
            JsonView::Text("2.0"@),
        ),
        rpc::call_view(method, subject, options).field("id"@) == Some(JsonView::Int(1)),
        rpc::call_view(method, subject, options).field("method"@) == Some(
            JsonView::Text(method),
        ),
        rpc::call_view(method, subject, options).field("params"@) == Some(
            JsonView::Array(seq![subject, options]),
        ),
{
    reveal_strlit("jsonrpc");
    reveal_strlit("id");
    reveal_strlit("method");
    reveal_strlit("params");
    assert("jsonrpc"@.len() == 7 && "id"@.len() == 2 && "method"@.len() == 6);
    assert("params"@.len() == 6 && "method"@[0] != "params"@[0]);
    let fields = rpc::call_view(method, subject, options)->Object_0;
    documents::law_field_is_found(fields, "jsonrpc"@, 0);
    documents::law_field_is_found(fields, "id"@, 1);
    documents::law_field_is_found(fields, "method"@, 2);
    documents::law_field_is_found(fields, "params"@, 3);
}

/// A call for a block asks for full transactions as JSON, without rewards, of
/// version 0 at most.
pub proof fn law_block_options()
    ensures
        rpc::block_options() is Object,
        rpc::block_options()->Object_0.len() == 4,
        rpc::block_options().field("encoding"@) == Some(JsonView::Text("json"@)),
        rpc::block_options().field("transactionDetails"@) == Some(JsonView::Text("full"@)),
        rpc::block_options().field("rewards"@) == Some(JsonView::Bool(false)),
        rpc::block_options().field("maxSupportedTransactionVersion"@) == Some(JsonView::Int(0)),
{
    reveal_strlit("encoding");
    reveal_strlit("transactionDetails");
    reveal_strlit("rewards");
    reveal_strlit("maxSupportedTransactionVersion");
    assert("encoding"@.len() == 8 && "transactionDetails"@.len() == 18);
    assert("rewards"@.len() == 7 && "maxSupportedTransactionVersion"@.len() == 30);
    let fields = rpc::block_options()->Object_0;
    documents::law_field_is_found(fields, "encoding"@, 0);
    documents::law_field_is_found(fields, "transactionDetails"@, 1);
    documents::law_field_is_found(fields, "rewards"@, 2);
    documents::law_field_is_found(fields, "maxSupportedTransactionVersion"@, 3);
}

/// A call for a transaction asks for it as JSON once it is confirmed.
pub proof fn law_transaction_options()
    ensures
        rpc::transaction_options() is Object,
        rpc::transaction_options()->Object_0.len() == 2,
        rpc::transaction_options().field("encoding"@) == Some(JsonView::Text("json"@)),
        rpc::transaction_options().field("commitment"@) == Some(JsonView::Text("confirmed"@)),
{
    reveal_strlit("encoding");
    reveal_strlit("commitment");
    assert("encoding"@.len() == 8 && "commitment"@.len() == 10);
    let fields = rpc::transaction_options()->Object_0;
    documents::law_field_is_found(fields, "encoding"@, 0);
    documents::law_field_is_found(fields, "commitment"@, 1);
}

/// The call for a block names the method for that, and hands over the slot
/// itself.
pub proof fn law_block_call(slot: u64)
    ensures
        rpc::block_call(slot).field("method"@) == Some(JsonView::Text("getBlock"@)),
        rpc::block_call(slot).field("params"@) == Some(
            JsonView::Array(seq![JsonView::Int(slot as int), rpc::block_options()]),
        ),
{
    law_call_fields("getBlock"@, JsonView::Int(slot as int), rpc::block_options());
}

/// The call for a transaction names the method for that, and hands over the
/// signature itself.
pub proof fn law_transaction_call(signature: Seq<char>)
    ensures
        rpc::transaction_call(signature).field("method"@) == Some(
            JsonView::Text("getTransaction"@),
        ),
        rpc::transaction_call(signature).field("params"@) == Some(
            JsonView::Array(seq![JsonView::Text(signature), rpc::transaction_options()]),
        ),
{
    law_call_fields("getTransaction"@, JsonView::Text(signature), rpc::transaction_options());
}

/// A reply is decoded as a block exactly where it has no error field, whatever
/// else it holds.
pub proof fn law_reply_without_error_is_decoded(reply: JsonView)
    ensures
        rpc::block_reply(reply) == Ok::<BlockReply, Seq<char>>(BlockReply::Decode)
            <==> reply.field("error"@) is None,
{
}

/// A reply that is an object none of whose fields is called `error` is decoded
/// as a block.
pub proof fn law_result_is_decoded(fields: Seq<(Seq<char>, JsonView)>)
    requires
        forall|j: int| 0 <= j < fields.len() ==> (#[trigger] fields[j]).0 != "error"@,
    ensures
        rpc::block_reply(JsonView::Object(fields)) == Ok::<BlockReply, Seq<char>>(
            BlockReply::Decode,
        ),
{
    documents::law_field_is_missing(fields, "error"@);
}

/// A slot has no block exactly where the reply has an error field whose code is
/// one of the two for skipped slots.
pub proof fn law_missing_block(reply: JsonView)
    ensures
        rpc::block_reply(reply) == Ok::<BlockReply, Seq<char>>(BlockReply::Missing) <==> {
            &&& reply.field("error"@) is Some
            &&& {
                ||| reply.field("error"@)->0.field("code"@) == Some(JsonView::Int(-32009))
                ||| reply.field("error"@)->0.field("code"@) == Some(JsonView::Int(-32007))
            }
        },
{
}

/// Any other error with a code is a failure that names the code and the message,
/// but for the code of a rate limit, which stands for itself.
pub proof fn law_coded_failure(reply: JsonView, error: JsonView, code: int)
    requires
        reply.field("error"@) == Some(error),
        error.field("code"@) == Some(JsonView::Int(code)),
        -0x8000_0000_0000_0000 <= code <= 0x7fff_ffff_ffff_ffff,
        code != -32009,
        code != -32007,
    ensures
        rpc::block_reply(reply) is Err,
        code == 429 ==> rpc::block_reply(reply)->Err_0 == "429"@,
        code != 429 ==> match error.field("message"@) {
            Some(JsonView::Text(message)) => rpc::block_reply(reply)->Err_0 == "error "@
                + text::signed_decimal(code) + ": "@ + message,
            _ => rpc::block_reply(reply)->Err_0 == "error "@ + text::signed_decimal(code)
                + ": Unknown error"@,
        },
{
    reveal_strlit(": ");
    reveal_strlit("Unknown error");
    reveal_strlit(": Unknown error");
    assert(": Unknown error"@ =~= ": "@ + "Unknown error"@);
    let head = "error "@ + text::signed_decimal(code);
    assert(head + ": "@ + "Unknown error"@ =~= head + ": Unknown error"@);
}

/// An error without a code, or with one that is no number of 64 bits, is a
/// failure by its message alone.
pub proof fn law_uncoded_failure(reply: JsonView, error: JsonView)
    requires
        reply.field("error"@) == Some(error),
        match error.field("code"@) {
            Some(JsonView::Int(code)) => code < -0x8000_0000_0000_0000 || code
                > 0x7fff_ffff_ffff_ffff,
            _ => true,
        },
    ensures
        rpc::block_reply(reply) is Err,
        match error.field("message"@) {
            Some(JsonView::Text(message)) => rpc::block_reply(reply)->Err_0 == message,
            _ => rpc::block_reply(reply)->Err_0 == "Unknown error"@,
        },
{
}

} // verus!
