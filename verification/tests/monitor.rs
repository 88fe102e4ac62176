use goose_agent::monitor::{make_fingerprint, ToolMonitor};
use goose_agent::tool::ToolCall;

fn call(name: &str, arguments: &str) -> ToolCall {
    ToolCall::new(name.to_string(), arguments.to_string())
}

#[test]
fn third_repetition_is_rejected() {
    let mut monitor = ToolMonitor::new(Some(2));
    let shell = call("shell", "{\"b\": 1, \"a\": 2}");
    assert!(monitor.check_tool_call(&shell));
    assert!(monitor.check_tool_call(&shell));
    assert!(!monitor.check_tool_call(&shell));
    let stats = monitor.get_stats();
    assert_eq!(stats, vec![("shell:{\"a\":2,\"b\":1}".to_string(), 3u32)]);
}

#[test]
fn every_call_beyond_the_limit_is_rejected() {
    let mut monitor = ToolMonitor::new(Some(1));
    let shell = call("shell", "{}");
    assert!(monitor.check_tool_call(&shell));
    for _ in 0..5 {
        assert!(!monitor.check_tool_call(&shell));
    }
    assert_eq!(monitor.count("shell:{}"), 6);
}

#[test]
fn a_maximum_of_zero_rejects_the_first_call() {
    let mut monitor = ToolMonitor::new(Some(0));
    assert!(!monitor.check_tool_call(&call("shell", "{}")));
    assert_eq!(monitor.count("shell:{}"), 1);
}

#[test]
fn other_fingerprints_are_unaffected() {
    let mut monitor = ToolMonitor::new(Some(1));
    let list = call("shell", "{\"cmd\":\"ls\"}");
    let show = call("shell", "{\"cmd\":\"cat\"}");
    let edit = call("edit", "{\"cmd\":\"ls\"}");
    assert!(monitor.check_tool_call(&list));
    assert!(!monitor.check_tool_call(&list));
    assert!(monitor.check_tool_call(&show));
    assert!(monitor.check_tool_call(&edit));
    assert!(!monitor.check_tool_call(&list));
    assert_eq!(monitor.count("shell:{\"cmd\":\"ls\"}"), 3);
    assert_eq!(monitor.count("shell:{\"cmd\":\"cat\"}"), 1);
    assert_eq!(monitor.count("edit:{\"cmd\":\"ls\"}"), 1);
    assert_eq!(monitor.count("never:{}"), 0);
}

#[test]
fn without_a_maximum_nothing_is_rejected() {
    let mut monitor = ToolMonitor::new(None);
    let shell = call("shell", "{}");
    for _ in 0..100 {
        assert!(monitor.check_tool_call(&shell));
    }
    assert_eq!(monitor.count("shell:{}"), 100);
    assert_eq!(monitor.max_repetitions(), None);
}

#[test]
fn arguments_are_counted_in_canonical_form() {
    let mut monitor = ToolMonitor::new(Some(1));
    assert!(monitor.check_tool_call(&call("shell", "{\"a\": 1, \"b\": [1, 2]}")));
    assert!(!monitor.check_tool_call(&call("shell", "{ \"b\":[1,2],\"a\":1 }")));
    assert_eq!(call("shell", " { \"b\" : true , \"a\" : null } ").fingerprint(), "shell:{\"a\":null,\"b\":true}");
}

#[test]
fn arguments_that_are_no_json_stand_for_themselves() {
    let broken = call("shell", "{not json");
    assert_eq!(broken.fingerprint(), "shell:{not json");
    let mut monitor = ToolMonitor::new(Some(1));
    assert!(monitor.check_tool_call(&broken));
    assert!(!monitor.check_tool_call(&broken));
}

#[test]
fn fingerprint_joins_name_and_arguments() {
    assert_eq!(make_fingerprint("a", "b"), "a:b");
    assert_eq!(make_fingerprint("", ""), ":");
}

#[test]
fn reset_clears_the_counts_and_keeps_the_maximum() {
    let mut monitor = ToolMonitor::new(Some(1));
    let shell = call("shell", "{}");
    assert!(monitor.check_tool_call(&shell));
    assert!(!monitor.check_tool_call(&shell));
    monitor.reset();
    assert!(monitor.get_stats().is_empty());
    assert_eq!(monitor.max_repetitions(), Some(1));
    assert!(monitor.check_tool_call(&shell));
    assert!(!monitor.check_tool_call(&shell));
}

#[test]
fn stats_keep_the_order_of_first_occurrence() {
    let mut monitor = ToolMonitor::new(None);
    monitor.check_fingerprint("b".to_string());
    monitor.check_fingerprint("a".to_string());
    monitor.check_fingerprint("b".to_string());
    assert_eq!(monitor.get_stats(), vec![("b".to_string(), 2u32), ("a".to_string(), 1u32)]);
}
