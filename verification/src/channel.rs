//! A bounded channel of values that each carry a request id. The sender is turned away while the
//! channel is full; the receiver asks for the value of one id, whatever order values came in.
use vstd::prelude::*;

verus! {

/// The capacity of the engine's channels.
pub const CHANNEL_CAPACITY: usize = 32;

/// The first position in `items` whose id is `id`, or `None`.
pub open spec fn first_with<T>(items: Seq<(String, T)>, id: Seq<char>) -> Option<int>
    decreases items.len(),
{
    if items.len() == 0 {
        None
    } else if items.first().0@ == id {
        Some(0)
    } else {
        match first_with(items.drop_first(), id) {
            Some(i) => Some(i + 1),
            None => None,
        }
    }
}

pub proof fn lemma_first_with<T>(items: Seq<(String, T)>, id: Seq<char>)
    ensures
        match first_with(items, id) {
            Some(i) => 0 <= i < items.len() && items[i].0@ == id && forall|j: int|
                0 <= j < i ==> (#[trigger] items[j]).0@ != id,
            None => forall|j: int| 0 <= j < items.len() ==> (#[trigger] items[j]).0@ != id,
        },
    decreases items.len(),
{
    if items.len() > 0 && items.first().0@ != id {
        let rest = items.drop_first();
        lemma_first_with(rest, id);
        assert forall|j: int| 1 <= j < items.len() implies items[j] == rest[j - 1] by {}
        match first_with(rest, id) {
            Some(i) => {
                assert forall|j: int| 0 <= j < i + 1 implies (#[trigger] items[j]).0@ != id by {
                    if j > 0 {
                        assert(items[j] == rest[j - 1]);
                    }
                }
            },
            None => {
                assert forall|j: int| 0 <= j < items.len() implies (#[trigger] items[j]).0@
                    != id by {
                    if j > 0 {
                        assert(items[j] == rest[j - 1]);
                    }
                }
            },
        }
    }
}

/// Where `i` is the first position that holds `id`, it is what `first_with` finds.
pub proof fn lemma_first_with_is<T>(items: Seq<(String, T)>, id: Seq<char>, i: int)
    requires
        0 <= i < items.len(),
        items[i].0@ == id,
        forall|j: int| 0 <= j < i ==> (#[trigger] items[j]).0@ != id,
    ensures
        first_with(items, id) == Some(i),
{
    lemma_first_with(items, id);
}

pub struct Channel<T> {
    capacity: usize,
    items: Vec<(String, T)>,
}

impl<T> View for Channel<T> {
    type V = Seq<(String, T)>;

    /// What was sent and not yet taken, oldest first.
    closed spec fn view(&self) -> Seq<(String, T)> {
        self.items@
    }
}

impl<T> Channel<T> {
    /// How many values the channel holds at most.
    pub closed spec fn bound(&self) -> nat {
        self.capacity as nat
    }

    /// The channel never holds more than its capacity.
    pub open spec fn wf(&self) -> bool {
        self@.len() <= self.bound()
    }

    pub fn new(capacity: usize) -> (channel: Channel<T>)
        ensures
            channel.wf(),
            channel@ == Seq::<(String, T)>::empty(),
            channel.bound() == capacity,
    {
        Channel { capacity, items: Vec::new() }
    }

    /// How many values wait in the channel.
    pub fn len(&self) -> (n: usize)
        ensures
            n == self@.len(),
    {
        self.items.len()
    }

    /// Whether a value can be sent now.
    pub fn has_room(&self) -> (room: bool)
        ensures
            room == (self@.len() < self.bound()),
    {
        self.items.len() < self.capacity
    }

    /// Puts a value at the end of the channel. A full channel takes nothing and hands the
    /// value back: the sender has to wait until a value was taken.
    pub fn send(&mut self, id: String, value: T) -> (sent: Result<(), (String, T)>)
        requires
            old(self).wf(),
        ensures
            final(self).wf(),
            final(self).bound() == old(self).bound(),
            old(self)@.len() < old(self).bound() ==> sent is Ok && final(self)@ == old(self)@.push(
                (id, value),
            ),
            old(self)@.len() >= old(self).bound() ==> sent == Err::<(), (String, T)>((id, value))
                && final(self)@ == old(self)@,
    {
        if self.items.len() < self.capacity {
            self.items.push((id, value));
            Ok(())
        } else {
            Err((id, value))
        }
    }

    /// Takes the oldest value sent under `id` out of the channel; the others keep their order.
    /// `None` where no value waits under `id`: the receiver has to wait for one.
    pub fn take(&mut self, id: &str) -> (taken: Option<T>)
        requires
            old(self).wf(),
        ensures
            final(self).wf(),
            final(self).bound() == old(self).bound(),
            match first_with(old(self)@, id@) {
                Some(i) => taken == Some(old(self)@[i].1) && final(self)@ == old(self)@.remove(i),
                None => taken is None && final(self)@ == old(self)@,
            },
    {
        let wanted = String::from_str(id);
        let mut i: usize = 0;
        proof {
            lemma_first_with(self@, id@);
        }
        while i < self.items.len()
            invariant
                0 <= i <= self.items.len(),
                *self == *old(self),
                self.wf(),
                wanted@ == id@,
                forall|j: int| 0 <= j < i ==> (#[trigger] self@[j]).0@ != id@,
            decreases self.items.len() - i,
        {
            if self.items[i].0 == wanted {
                proof {
                    lemma_first_with_is(self@, id@, i as int);
                }
                let entry = self.items.remove(i);
                return Some(entry.1);
            }
            i += 1;
        }
        None
    }
}

} // verus!
