use std::collections::HashMap;
use vote_checker::block::{
    extract_vote_transactions, BlockResult, Transaction, TransactionData, TransactionMessage,
    TransactionMeta,
};
use vote_checker::monitor::{BlockOutcome, Monitor, SlotLine};

const VOTE_LOG: &str = "Program Vote111111111111111111111111111111111111111 invoke [1]";

fn texts(list: &[&str]) -> Vec<String> {
    list.iter().map(|s| s.to_string()).collect()
}

fn tx(keys: &[&str], logs: Option<&[&str]>) -> Transaction {
    Transaction {
        transaction: TransactionData {
            signatures: texts(&["sig"]),
            message: TransactionMessage { account_keys: texts(keys) },
        },
        meta: Some(TransactionMeta { log_messages: logs.map(texts) }),
    }
}

fn vote(account: &str) -> Transaction {
    tx(&[account, "other"], Some(&["Program log: x", VOTE_LOG]))
}

fn block(transactions: Vec<Transaction>) -> BlockResult {
    BlockResult { transactions }
}

fn leaders() -> HashMap<u64, String> {
    HashMap::from([(7, "alice".to_string())])
}

#[test]
fn vote_transactions_are_known_by_their_log() {
    let mut bare = vote("no-meta");
    bare.meta = None;
    let block = block(vec![
        vote("a"),
        tx(&["b"], Some(&["Program ComputeBudget111 invoke [1]"])),
        tx(&["c"], None),
        bare,
        tx(&["d"], Some(&["log: Program Vote111111111111111111111111111111111111111 invoke"])),
        tx(&["e"], Some(&["Program Vote111111111111111111111111111111111111111 success"])),
        vote("f"),
        tx(&[], Some(&[VOTE_LOG])),
    ]);
    let votes = extract_vote_transactions(&block);
    let first: Vec<Option<&String>> =
        votes.iter().map(|t| t.transaction.message.account_keys.first()).collect();
    assert_eq!(first, vec![Some(&"a".to_string()), Some(&"f".to_string()), None]);
}

#[test]
fn inspect_reports_accounts_without_a_vote() {
    let monitor = Monitor::new(&texts(&["x", "a", "y", "other", "a"]));
    let report = monitor.inspect(&block(vec![vote("a"), vote("z")]));
    assert_eq!(report.votes, 2);
    assert_eq!(report.missed, texts(&["x", "y", "other"]));
    let report = monitor.inspect(&block(vec![]));
    assert_eq!(report.votes, 0);
    assert_eq!(report.missed, texts(&["x", "a", "y", "other"]));
}

#[test]
fn misses_are_counted_over_slots() {
    let mut monitor = Monitor::new(&texts(&["a", "b", "c"]));
    let outcomes = vec![
        BlockOutcome::Block(block(vec![vote("a")])),
        BlockOutcome::Block(block(vec![vote("a"), vote("b")])),
        BlockOutcome::Missing,
        BlockOutcome::Failed("x".to_string()),
        BlockOutcome::Block(block(vec![vote("a"), vote("b")])),
    ];
    for outcome in &outcomes {
        assert!(monitor.can_count(outcome));
        monitor.after_slot(&leaders(), 7, outcome);
    }
    assert_eq!(monitor.missed_votes("a"), 0);
    assert_eq!(monitor.missed_votes("b"), 1);
    assert_eq!(monitor.missed_votes("c"), 3);
    assert_eq!(monitor.missed_votes("unlisted"), 0);
    assert_eq!(monitor.summary(), vec![("c".to_string(), 3), ("b".to_string(), 1)]);
}

#[test]
fn the_summary_puts_most_misses_first() {
    let mut monitor = Monitor::new(&texts(&["a", "b", "c", "d"]));
    monitor.record(&texts(&["b", "d"]));
    monitor.record(&texts(&["d", "a"]));
    monitor.record(&texts(&["a", "d"]));
    let summary = monitor.summary();
    let counts: Vec<u32> = summary.iter().map(|e| e.1).collect();
    assert_eq!(counts, vec![3, 2, 1]);
    assert_eq!(summary[0].0, "d");
    assert_eq!(summary[1].0, "a");
    assert_eq!(summary[2].0, "b");
}

#[test]
fn without_misses_there_is_no_summary() {
    let mut monitor = Monitor::new(&texts(&["a"]));
    monitor.after_slot(&leaders(), 7, &BlockOutcome::Block(block(vec![vote("a")])));
    assert!(monitor.summary().is_empty());
}

#[test]
fn a_checked_slot_is_told() {
    let mut monitor = Monitor::new(&texts(&["a", "b"]));
    match monitor.after_slot(&leaders(), 7, &BlockOutcome::Block(block(vec![vote("b")]))) {
        SlotLine::Checked { report, leader } => {
            assert_eq!(report.votes, 1);
            assert_eq!(report.missed, texts(&["a"]));
            assert_eq!(leader, "alice");
        }
        other => panic!("{:?}", other),
    }
}

#[test]
fn a_slot_without_a_block_is_told() {
    let mut monitor = Monitor::new(&texts(&["a"]));
    match monitor.after_slot(&leaders(), 7, &BlockOutcome::Missing) {
        SlotLine::Unchecked { info, leader, failure, pause_ms } => {
            assert_eq!(info, "No block found for 7");
            assert_eq!(leader, "alice");
            assert_eq!(failure, None);
            assert_eq!(pause_ms, 300);
        }
        other => panic!("{:?}", other),
    }
    match monitor.after_slot(&leaders(), 8, &BlockOutcome::Failed("429".to_string())) {
        SlotLine::Unchecked { info, leader, failure, pause_ms } => {
            assert_eq!(info, "No block found for 8");
            assert_eq!(leader, "unknown");
            assert_eq!(failure, Some("429".to_string()));
            assert_eq!(pause_ms, 0);
        }
        other => panic!("{:?}", other),
    }
    assert_eq!(monitor.missed_votes("a"), 0);
}
