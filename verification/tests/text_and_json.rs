use vote_checker::json::{entry, Json};
use vote_checker::rpc::{block_request, read_block_reply, transaction_request, BlockReply};
use vote_checker::text;

fn texts(list: &[&str]) -> Vec<String> {
    list.iter().map(|s| s.to_string()).collect()
}

fn same(left: &Json, right: &Json) -> bool {
    match (left, right) {
        (Json::Null, Json::Null) => true,
        (Json::Bool(a), Json::Bool(b)) => a == b,
        (Json::Int(a), Json::Int(b)) => a == b,
        (Json::Text(a), Json::Text(b)) => a == b,
        (Json::Array(a), Json::Array(b)) => {
            a.len() == b.len() && a.iter().zip(b).all(|(x, y)| same(x, y))
        }
        (Json::Object(a), Json::Object(b)) => {
            a.len() == b.len() && a.iter().zip(b).all(|(x, y)| x.0 == y.0 && same(&x.1, &y.1))
        }
        _ => false,
    }
}

fn error_reply(fields: Vec<(String, Json)>) -> Json {
    Json::Object(vec![
        entry("jsonrpc", Json::text("2.0")),
        entry("error", Json::Object(fields)),
    ])
}

#[test]
fn begins_with_looks_at_the_start_only() {
    assert!(text::begins_with("Program Vote", "Program"));
    assert!(text::begins_with("abc", ""));
    assert!(text::begins_with("abc", "abc"));
    assert!(!text::begins_with("abc", "abcd"));
    assert!(!text::begins_with("xabc", "abc"));
    assert!(text::begins_with("äöü", "äö"));
}

#[test]
fn has_text_looks_everywhere() {
    assert!(text::has_text("HTTP status 429", "429"));
    assert!(text::has_text("429", "429"));
    assert!(text::has_text("", ""));
    assert!(text::has_text("abc", ""));
    assert!(text::has_text("4429", "429"));
    assert!(!text::has_text("42", "429"));
    assert!(!text::has_text("4 2 9", "429"));
}

#[test]
fn join_puts_the_separator_between() {
    assert_eq!(text::join(&texts(&[]), ", "), "");
    assert_eq!(text::join(&texts(&["a"]), ", "), "a");
    assert_eq!(text::join(&texts(&["a", "b", "c"]), ", "), "a, b, c");
}

#[test]
fn repeat_and_numbers() {
    assert_eq!(text::repeat("=", 5), "=====");
    assert_eq!(text::repeat("ab", 0), "");
    let mut line = String::from("n=");
    text::push_decimal(&mut line, 0);
    line.push(' ');
    text::push_decimal(&mut line, u64::MAX);
    line.push(' ');
    text::push_signed(&mut line, i64::MIN);
    line.push(' ');
    text::push_signed(&mut line, 120);
    assert_eq!(line, "n=0 18446744073709551615 -9223372036854775808 120");
    assert!(text::same_text("x", "x"));
    assert!(!text::same_text("x", "X"));
}

#[test]
fn json_accessors_tell_kinds_apart() {
    let object = Json::Object(vec![
        entry("a", Json::Int(-1)),
        entry("b", Json::text("t")),
        entry("c", Json::Array(vec![Json::Null])),
        entry("d", Json::Int(1i128 << 63)),
        entry("e", Json::Float),
    ]);
    assert_eq!(object.get("a").unwrap().as_i64(), Some(-1));
    assert_eq!(object.get("a").unwrap().as_u64(), None);
    assert_eq!(object.get("b").unwrap().as_text().unwrap(), "t");
    assert_eq!(object.get("b").unwrap().as_i64(), None);
    assert_eq!(object.get("c").unwrap().as_array().unwrap().len(), 1);
    assert_eq!(object.get("d").unwrap().as_i64(), None);
    assert_eq!(object.get("d").unwrap().as_u64(), Some(1u64 << 63));
    assert_eq!(object.get("e").unwrap().as_u64(), None);
    assert!(object.get("f").is_none());
    assert!(Json::Array(vec![]).get("a").is_none());
    assert!(Json::text("a").get("a").is_none());
}

#[test]
fn block_request_has_the_documented_body() {
    let expected = Json::Object(vec![
        entry("jsonrpc", Json::text("2.0")),
        entry("id", Json::Int(1)),
        entry("method", Json::text("getBlock")),
        entry(
            "params",
            Json::Array(vec![
                Json::Int(349_000_123),
                Json::Object(vec![
                    entry("encoding", Json::text("json")),
                    entry("transactionDetails", Json::text("full")),
                    entry("rewards", Json::Bool(false)),
                    entry("maxSupportedTransactionVersion", Json::Int(0)),
                ]),
            ]),
        ),
    ]);
    assert!(same(&block_request(349_000_123), &expected));
}

#[test]
fn transaction_request_has_the_documented_body() {
    let expected = Json::Object(vec![
        entry("jsonrpc", Json::text("2.0")),
        entry("id", Json::Int(1)),
        entry("method", Json::text("getTransaction")),
        entry(
            "params",
            Json::Array(vec![
                Json::text("5sig"),
                Json::Object(vec![
                    entry("encoding", Json::text("json")),
                    entry("commitment", Json::text("confirmed")),
                ]),
            ]),
        ),
    ]);
    assert!(same(&transaction_request("5sig"), &expected));
}

#[test]
fn reply_without_error_is_decoded() {
    let reply = Json::Object(vec![entry("result", Json::Null)]);
    assert_eq!(read_block_reply(&reply), Ok(BlockReply::Decode));
    assert_eq!(read_block_reply(&Json::Null), Ok(BlockReply::Decode));
}

#[test]
fn skipped_slots_have_no_block() {
    for code in [-32009, -32007] {
        let reply = error_reply(vec![
            entry("code", Json::Int(code)),
            entry("message", Json::text("Slot was skipped")),
        ]);
        assert_eq!(read_block_reply(&reply), Ok(BlockReply::Missing));
    }
}

#[test]
fn other_errors_are_failures() {
    let limited = error_reply(vec![
        entry("code", Json::Int(429)),
        entry("message", Json::text("Too many requests")),
    ]);
    assert_eq!(read_block_reply(&limited), Err("429".to_string()));
    let coded = error_reply(vec![
        entry("code", Json::Int(-32004)),
        entry("message", Json::text("Block not available")),
    ]);
    assert_eq!(
        read_block_reply(&coded),
        Err("error -32004: Block not available".to_string())
    );
    let silent = error_reply(vec![entry("code", Json::Int(5))]);
    assert_eq!(read_block_reply(&silent), Err("error 5: Unknown error".to_string()));
    let uncoded = error_reply(vec![
        entry("code", Json::text("429")),
        entry("message", Json::text("odd")),
    ]);
    assert_eq!(read_block_reply(&uncoded), Err("odd".to_string()));
    let null = Json::Object(vec![entry("error", Json::Null)]);
    assert_eq!(read_block_reply(&null), Err("Unknown error".to_string()));
}
