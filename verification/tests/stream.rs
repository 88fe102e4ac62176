use goose_agent::lists::reversed;
use goose_agent::message::JsonRpcMessage;
use goose_agent::stream::{tool_stream, Arrival, ToolStreamItem};

fn note(text: &str) -> Arrival<u8> {
    Arrival::Notification(JsonRpcMessage { text: text.to_string() })
}

fn message(text: &str) -> ToolStreamItem<u8> {
    ToolStreamItem::Message(JsonRpcMessage { text: text.to_string() })
}

#[test]
fn notifications_come_before_the_one_result() {
    let items = tool_stream(vec![note("a"), note("b"), Arrival::Done(7)]);
    assert_eq!(items, vec![message("a"), message("b"), ToolStreamItem::Result(7)]);
}

#[test]
fn nothing_is_emitted_after_the_result() {
    let items = tool_stream(vec![note("a"), Arrival::Done(1), note("b"), Arrival::Done(2), note("c")]);
    assert_eq!(items, vec![message("a"), ToolStreamItem::Result(1)]);
}

#[test]
fn a_result_alone_is_the_whole_sequence() {
    assert_eq!(tool_stream(vec![Arrival::Done(3)]), vec![ToolStreamItem::Result(3)]);
}

#[test]
fn without_a_result_the_sequence_has_not_ended() {
    assert_eq!(tool_stream(vec![note("a"), note("b")]), vec![message("a"), message("b")]);
    assert_eq!(tool_stream(Vec::<Arrival<u8>>::new()), vec![]);
}

#[test]
fn reversed_turns_the_order_round() {
    assert_eq!(reversed(vec![1, 2, 3]), vec![3, 2, 1]);
    assert_eq!(reversed(Vec::<u8>::new()), Vec::<u8>::new());
}
