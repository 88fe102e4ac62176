//! One tool call's notifications and its result, combined into one sequence.
use vstd::prelude::*;
use crate::lists::reversed;
use crate::message::JsonRpcMessage;

verus! {

/// One item of a tool call's combined sequence.
#[derive(Debug, PartialEq, Eq)]
pub enum ToolStreamItem<T> {
    Message(JsonRpcMessage),
    Result(T),
}

/// What one tool call's two sources deliver: a notification, or the call's result.
#[derive(Debug, PartialEq, Eq)]
pub enum Arrival<T> {
    Notification(JsonRpcMessage),
    Done(T),
}

/// The combined sequence for what arrived, in the order of arrival: every notification up to
/// the result, then the result, and nothing after it. While no result has arrived the sequence
/// has not ended.
pub open spec fn combined<T>(arrivals: Seq<Arrival<T>>) -> Seq<ToolStreamItem<T>>
    decreases arrivals.len(),
{
    if arrivals.len() == 0 {
        Seq::empty()
    } else {
        match arrivals.first() {
            Arrival::Notification(m) => seq![ToolStreamItem::Message(m)] + combined(
                arrivals.drop_first(),
            ),
            Arrival::Done(r) => seq![ToolStreamItem::Result(r)],
        }
    }
}

/// Whether the combined sequence has ended: a result has arrived.
pub open spec fn has_ended<T>(arrivals: Seq<Arrival<T>>) -> bool {
    exists|i: int| 0 <= i < arrivals.len() && #[trigger] arrivals[i] is Done
}

/// The combined sequence of the first `n` arrivals is that of all of them once the result is
/// among those, and else it grows by the next notification.
proof fn lemma_combined_step<T>(arrivals: Seq<Arrival<T>>, n: int)
    requires
        0 <= n < arrivals.len(),
    ensures
        has_ended(arrivals.take(n)) ==> combined(arrivals.take(n + 1)) == combined(
            arrivals.take(n),
        ),
        !has_ended(arrivals.take(n)) ==> combined(arrivals.take(n + 1)) == combined(
            arrivals.take(n),
        ).push(
            match arrivals[n] {
                Arrival::Notification(m) => ToolStreamItem::Message(m),
                Arrival::Done(r) => ToolStreamItem::Result(r),
            },
        ),
    decreases n,
{
    let short = arrivals.take(n);
    let long = arrivals.take(n + 1);
    if n == 0 {
        assert(!has_ended(short));
        assert(short.len() == 0);
        assert(long.first() == arrivals[0]);
        assert(long.drop_first() =~= Seq::empty());
        assert(combined(long.drop_first()) =~= Seq::empty());
        assert(combined(short) =~= Seq::empty());
        assert(combined(long) =~= combined(short).push(
            match arrivals[n] {
                Arrival::Notification(m) => ToolStreamItem::Message(m),
                Arrival::Done(r) => ToolStreamItem::Result(r),
            },
        ));
    } else {
        assert(short.first() == arrivals[0]);
        assert(long.first() == arrivals[0]);
        match arrivals[0] {
            Arrival::Done(r) => {
                assert(short[0] is Done);
            },
            Arrival::Notification(m) => {
                let rest = arrivals.drop_first();
                lemma_combined_step(rest, n - 1);
                assert(short.drop_first() =~= rest.take(n - 1));
                assert(long.drop_first() =~= rest.take(n));
                if has_ended(short) {
                    let i = choose|i: int| 0 <= i < short.len() && #[trigger] short[i] is Done;
                    assert(rest.take(n - 1)[i - 1] is Done);
                } else {
                    if has_ended(rest.take(n - 1)) {
                        let i = choose|i: int|
                            0 <= i < rest.take(n - 1).len() && #[trigger] rest.take(n - 1)[i] is Done;
                        assert(short[i + 1] is Done);
                    }
                    assert(combined(long) =~= combined(short).push(
                        match arrivals[n] {
                            Arrival::Notification(m) => ToolStreamItem::Message(m),
                            Arrival::Done(r) => ToolStreamItem::Result(r),
                        },
                    ));
                }
            },
        }
    }
}

/// Combines what one tool call delivered into its sequence of items: each notification that
/// arrived before the result, in order, then the one result; what arrived after the result is
/// dropped.
pub fn tool_stream<T>(arrivals: Vec<Arrival<T>>) -> (items: Vec<ToolStreamItem<T>>)
    ensures
        items@ == combined(arrivals@),
{
    let mut items: Vec<ToolStreamItem<T>> = Vec::new();
    let mut ended = false;
    let ghost all = arrivals@;
    assert(all.len() <= usize::MAX) by {
        assert(arrivals.len() == all.len());
    }
    let mut n: usize = 0;
    let mut rest = reversed(arrivals);
    assert(all.take(0) =~= Seq::empty());
    while rest.len() > 0
        invariant
            0 <= n <= all.len() <= usize::MAX,
            rest@.len() == all.len() - n,
            forall|j: int| 0 <= j < rest@.len() ==> rest@[j] == all[all.len() - 1 - j],
            items@ == combined(all.take(n as int)),
            ended == has_ended(all.take(n as int)),
        decreases rest.len(),
    {
        let next = rest.pop().unwrap();
        assert(next == all[n as int]);
        proof {
            lemma_combined_step(all, n as int);
            let short = all.take(n as int);
            let long = all.take(n + 1);
            if has_ended(short) {
                let i = choose|i: int| 0 <= i < short.len() && #[trigger] short[i] is Done;
                assert(long[i] is Done);
            }
            if next is Done {
                assert(long[n as int] is Done);
            }
            if has_ended(long) && !has_ended(short) {
                let i = choose|i: int| 0 <= i < long.len() && #[trigger] long[i] is Done;
                if i < n {
                    assert(short[i] is Done);
                }
            }
        }
        if !ended {
            match next {
                Arrival::Notification(m) => {
                    items.push(ToolStreamItem::Message(m));
                },
                Arrival::Done(r) => {
                    items.push(ToolStreamItem::Result(r));
                    ended = true;
                },
            }
        }
        n += 1;
    }
    assert(all.take(n as int) =~= all);
    items
}

/// A combined sequence that has ended holds exactly one result, as its last item; one that has
/// not ended holds none.
pub proof fn law_one_result_last<T>(arrivals: Seq<Arrival<T>>)
    ensures
        forall|i: int|
            0 <= i < combined(arrivals).len() - 1 ==> #[trigger] combined(arrivals)[i] is Message,
        has_ended(arrivals) ==> combined(arrivals).len() > 0 && combined(arrivals).last() is Result,
        !has_ended(arrivals) ==> combined(arrivals).len() == arrivals.len() && forall|i: int|
            0 <= i < combined(arrivals).len() ==> #[trigger] combined(arrivals)[i] is Message,
    decreases arrivals.len(),
{
    if arrivals.len() > 0 {
        match arrivals.first() {
            Arrival::Done(r) => {
                assert(arrivals[0] is Done);
            },
            Arrival::Notification(m) => {
                let rest = arrivals.drop_first();
                law_one_result_last(rest);
                if has_ended(arrivals) {
                    let i = choose|i: int| 0 <= i < arrivals.len() && #[trigger] arrivals[i] is Done;
                    assert(rest[i - 1] is Done);
                }
                if has_ended(rest) {
                    let i = choose|i: int| 0 <= i < rest.len() && #[trigger] rest[i] is Done;
                    assert(arrivals[i + 1] is Done);
                }
                let c = combined(arrivals);
                assert forall|i: int| 0 <= i < c.len() - 1 implies #[trigger] c[i] is Message by {
                    if i > 0 {
                        assert(c[i] == combined(rest)[i - 1]);
                    }
                }
                if !has_ended(arrivals) {
                    assert forall|i: int| 0 <= i < c.len() implies #[trigger] c[i] is Message by {
                        if i > 0 {
                            assert(c[i] == combined(rest)[i - 1]);
                        }
                    }
                }
            },
        }
    }
}

} // verus!
