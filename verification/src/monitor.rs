//! The repetition monitor: counts how often each call fingerprint was seen and turns a call away
//! once its fingerprint was seen more often than the configured maximum allows.
use vstd::prelude::*;
use crate::json::{canonical_json, canonical_text};
use crate::tool::ToolCall;

verus! {

/// The fingerprint of a call: its name, a colon, and its arguments in canonical form. Arguments
/// that are no JSON stand for themselves.
pub open spec fn fingerprint_of(name: Seq<char>, arguments: Seq<char>) -> Seq<char> {
    name + seq![':'] + canonical_or_same(arguments, canonical_json(arguments))
}

/// The canonical form where there is one, else the text itself.
pub open spec fn canonical_or_same(arguments: Seq<char>, canonical: Option<Seq<char>>) -> Seq<
    char,
> {
    match canonical {
        Some(c) => c,
        None => arguments,
    }
}

/// The fingerprint built from a name and the already canonical arguments.
pub open spec fn join_fingerprint(name: Seq<char>, canonical: Seq<char>) -> Seq<char> {
    name + seq![':'] + canonical
}

/// Joins a name and canonical arguments into a fingerprint.
pub fn make_fingerprint(name: &str, canonical: &str) -> (fp: String)
    ensures
        fp@ == join_fingerprint(name@, canonical@),
{
    let mut fp = String::from_str(name);
    fp.append(":");
    proof {
        reveal_strlit(":");
        assert(":"@ =~= seq![':']);
    }
    fp.append(canonical);
    fp
}

impl ToolCall {
    /// The fingerprint under which the monitor counts this call.
    pub open spec fn spec_fingerprint(&self) -> Seq<char> {
        fingerprint_of(self.name@, self.arguments@)
    }

    /// Computes the fingerprint under which the monitor counts this call.
    pub fn fingerprint(&self) -> (fp: String)
        ensures
            fp@ == self.spec_fingerprint(),
    {
        match canonical_text(self.arguments.as_str()) {
            Some(canonical) => make_fingerprint(self.name.as_str(), canonical.as_str()),
            None => make_fingerprint(self.name.as_str(), self.arguments.as_str()),
        }
    }
}

/// The largest count the monitor stores.
pub open spec fn count_cap() -> nat {
    0xffff_ffff
}

/// A count raised by one occurrence; it stays at the cap once it has reached it.
pub open spec fn bump(count: nat) -> nat {
    if count < count_cap() {
        count + 1
    } else {
        count
    }
}

/// The position of `fp` among the recorded fingerprints, or `None`.
pub open spec fn position(entries: Seq<(Seq<char>, nat)>, fp: Seq<char>) -> Option<int>
    decreases entries.len(),
{
    if entries.len() == 0 {
        None
    } else if entries.last().0 == fp {
        Some(entries.len() - 1)
    } else {
        position(entries.drop_last(), fp)
    }
}

/// How often `fp` was recorded: 0 where it never was.
pub open spec fn count_in(entries: Seq<(Seq<char>, nat)>, fp: Seq<char>) -> nat {
    match position(entries, fp) {
        Some(i) => entries[i].1,
        None => 0,
    }
}

/// The records after one more occurrence of `fp`.
pub open spec fn record(entries: Seq<(Seq<char>, nat)>, fp: Seq<char>) -> Seq<(Seq<char>, nat)> {
    match position(entries, fp) {
        Some(i) => entries.update(i, (fp, bump(entries[i].1))),
        None => entries.push((fp, 1)),
    }
}

/// No fingerprint is recorded twice.
pub open spec fn distinct_keys(entries: Seq<(Seq<char>, nat)>) -> bool {
    forall|i: int, j: int|
        0 <= i < j < entries.len() ==> (#[trigger] entries[i]).0 != (#[trigger] entries[j]).0
}

/// Whether an occurrence that brings a fingerprint from `seen` earlier occurrences to one more
/// is still within the limit. Without a limit every occurrence is.
pub open spec fn admits(seen: nat, max: Option<u32>) -> bool {
    match max {
        Some(m) => seen + 1 <= m,
        None => true,
    }
}

/// The records after `n` occurrences of `fp` in a row.
pub open spec fn record_times(entries: Seq<(Seq<char>, nat)>, fp: Seq<char>, n: nat) -> Seq<
    (Seq<char>, nat),
>
    decreases n,
{
    if n == 0 {
        entries
    } else {
        record(record_times(entries, fp, (n - 1) as nat), fp)
    }
}

pub proof fn lemma_position(entries: Seq<(Seq<char>, nat)>, fp: Seq<char>)
    ensures
        match position(entries, fp) {
            Some(i) => 0 <= i < entries.len() && entries[i].0 == fp && forall|j: int|
                i < j < entries.len() ==> (#[trigger] entries[j]).0 != fp,
            None => forall|j: int| 0 <= j < entries.len() ==> (#[trigger] entries[j]).0 != fp,
        },
    decreases entries.len(),
{
    if entries.len() > 0 && entries.last().0 != fp {
        lemma_position(entries.drop_last(), fp);
        assert forall|j: int| 0 <= j < entries.len() - 1 implies entries[j]
            == entries.drop_last()[j] by {}
    }
}

/// Where no fingerprint is recorded twice, the one place that holds `fp` is its position.
pub proof fn lemma_position_unique(entries: Seq<(Seq<char>, nat)>, fp: Seq<char>, i: int)
    requires
        distinct_keys(entries),
        0 <= i < entries.len(),
        entries[i].0 == fp,
    ensures
        position(entries, fp) == Some(i),
{
    lemma_position(entries, fp);
}

/// Recording an occurrence raises the count of that fingerprint by one (up to the cap), leaves
/// the count of every other fingerprint as it was, and keeps the fingerprints distinct.
pub proof fn lemma_record(entries: Seq<(Seq<char>, nat)>, fp: Seq<char>, other: Seq<char>)
    requires
        distinct_keys(entries),
    ensures
        distinct_keys(record(entries, fp)),
        count_in(record(entries, fp), fp) == bump(count_in(entries, fp)),
        other != fp ==> count_in(record(entries, fp), other) == count_in(entries, other),
{
    lemma_position(entries, fp);
    lemma_position(entries, other);
    let after = record(entries, fp);
    match position(entries, fp) {
        Some(i) => {
            assert forall|a: int, b: int| 0 <= a < b < after.len() implies (#[trigger] after[a]).0
                != (#[trigger] after[b]).0 by {
                assert(after[a].0 == entries[a].0);
                assert(after[b].0 == entries[b].0);
            }
            lemma_position_unique(after, fp, i);
            if other != fp {
                match position(entries, other) {
                    Some(k) => {
                        assert(after[k] == entries[k]);
                        lemma_position_unique(after, other, k);
                    },
                    None => {
                        lemma_position(after, other);
                        if position(after, other).is_some() {
                            let k = position(after, other).unwrap();
                            assert(after[k].0 == entries[k].0);
                        }
                    },
                }
            }
        },
        None => {
            assert forall|a: int, b: int| 0 <= a < b < after.len() implies (#[trigger] after[a]).0
                != (#[trigger] after[b]).0 by {
                if b < entries.len() {
                    assert(after[a] == entries[a]);
                    assert(after[b] == entries[b]);
                } else {
                    assert(after[a] == entries[a]);
                }
            }
            lemma_position_unique(after, fp, entries.len() as int);
            if other != fp {
                assert(after.drop_last() =~= entries);
            }
        },
    }
}

/// The repetition monitor.
pub struct ToolMonitor {
    max_repetitions: Option<u32>,
    entries: Vec<(String, u32)>,
}

/// The records of a list of entries: each fingerprint with its count.
pub open spec fn records_of(entries: Seq<(String, u32)>) -> Seq<(Seq<char>, nat)> {
    Seq::new(entries.len(), |i: int| (entries[i].0@, entries[i].1 as nat))
}

impl View for ToolMonitor {
    type V = Seq<(Seq<char>, nat)>;

    /// The fingerprints seen so far, in the order in which each was first seen, with its count.
    closed spec fn view(&self) -> Seq<(Seq<char>, nat)> {
        records_of(self.entries@)
    }
}

impl ToolMonitor {
    /// The configured maximum; `None` is no limit.
    pub closed spec fn max(&self) -> Option<u32> {
        self.max_repetitions
    }

    /// No fingerprint is recorded twice and no count is above the cap.
    pub open spec fn wf(&self) -> bool {
        &&& distinct_keys(self@)
        &&& forall|i: int| 0 <= i < self@.len() ==> (#[trigger] self@[i]).1 <= count_cap()
    }

    /// How often `fp` was seen since the last reset.
    pub open spec fn count_of(&self, fp: Seq<char>) -> nat {
        count_in(self@, fp)
    }

    pub fn new(max_repetitions: Option<u32>) -> (monitor: ToolMonitor)
        ensures
            monitor.wf(),
            monitor@ == Seq::<(Seq<char>, nat)>::empty(),
            monitor.max() == max_repetitions,
    {
        let monitor = ToolMonitor { max_repetitions, entries: Vec::new() };
        assert(monitor@ =~= Seq::<(Seq<char>, nat)>::empty());
        monitor
    }

    /// The configured maximum.
    pub fn max_repetitions(&self) -> (max: Option<u32>)
        ensures
            max == self.max(),
    {
        self.max_repetitions
    }

    /// Records one occurrence of `fingerprint` and says whether it is within the limit.
    pub fn check_fingerprint(&mut self, fingerprint: String) -> (allowed: bool)
        requires
            old(self).wf(),
        ensures
            final(self).wf(),
            final(self).max() == old(self).max(),
            final(self)@ == record(old(self)@, fingerprint@),
            allowed == admits(old(self).count_of(fingerprint@), old(self).max()),
    {
        let ghost before = self@;
        let mut i: usize = 0;
        let mut found: Option<usize> = None;
        while i < self.entries.len()
            invariant_except_break
                found is None,
                forall|j: int| 0 <= j < i ==> (#[trigger] before[j]).0 != fingerprint@,
            invariant
                0 <= i <= self.entries.len(),
                self@ == before,
                self.max() == old(self).max(),
            ensures
                self@ == before,
                self.max() == old(self).max(),
                match found {
                    Some(k) => k < before.len() && before[k as int].0 == fingerprint@,
                    None => forall|j: int|
                        0 <= j < before.len() ==> (#[trigger] before[j]).0 != fingerprint@,
                },
            decreases self.entries.len() - i,
        {
            if self.entries[i].0 == fingerprint {
                found = Some(i);
                break ;
            }
            i += 1;
        }
        proof {
            lemma_position(before, fingerprint@);
            lemma_record(before, fingerprint@, fingerprint@);
        }
        match found {
            Some(k) => {
                proof {
                    lemma_position_unique(before, fingerprint@, k as int);
                }
                let seen: u32 = self.entries[k].1;
                let next: u32 = if seen < u32::MAX {
                    seen + 1
                } else {
                    seen
                };
                self.entries.set(k, (fingerprint, next));
                assert(self@ =~= record(before, fingerprint@));
                match self.max_repetitions {
                    Some(m) => seen < m,
                    None => true,
                }
            },
            None => {
                self.entries.push((fingerprint, 1));
                assert(self@ =~= record(before, fingerprint@));
                match self.max_repetitions {
                    Some(m) => 1 <= m,
                    None => true,
                }
            },
        }
    }

    /// Records one occurrence of `call` under its fingerprint and says whether the call is
    /// within the limit.
    pub fn check_tool_call(&mut self, call: &ToolCall) -> (allowed: bool)
        requires
            old(self).wf(),
        ensures
            final(self).wf(),
            final(self).max() == old(self).max(),
            final(self)@ == record(old(self)@, call.spec_fingerprint()),
            allowed == admits(old(self).count_of(call.spec_fingerprint()), old(self).max()),
    {
        let fp = call.fingerprint();
        self.check_fingerprint(fp)
    }

    /// The count of one fingerprint.
    pub fn count(&self, fingerprint: &str) -> (n: u32)
        requires
            self.wf(),
        ensures
            n == self.count_of(fingerprint@),
    {
        let wanted = String::from_str(fingerprint);
        let mut i: usize = 0;
        proof {
            lemma_position(self@, fingerprint@);
        }
        while i < self.entries.len()
            invariant
                0 <= i <= self.entries.len(),
                self.wf(),
                wanted@ == fingerprint@,
                forall|j: int| 0 <= j < i ==> (#[trigger] self@[j]).0 != fingerprint@,
            decreases self.entries.len() - i,
        {
            if self.entries[i].0 == wanted {
                proof {
                    lemma_position_unique(self@, fingerprint@, i as int);
                }
                return self.entries[i].1;
            }
            i += 1;
        }
        0
    }

    /// Every fingerprint seen since the last reset with its count, in the order of first
    /// occurrence.
    pub fn get_stats(&self) -> (stats: Vec<(String, u32)>)
        ensures
            records_of(stats@) == self@,
    {
        let mut stats: Vec<(String, u32)> = Vec::new();
        let mut i: usize = 0;
        while i < self.entries.len()
            invariant
                0 <= i <= self.entries.len(),
                stats@.len() == i,
                forall|j: int|
                    0 <= j < i ==> (#[trigger] stats@[j]).0@ == self.entries@[j].0@ && stats@[j].1
                        == self.entries@[j].1,
            decreases self.entries.len() - i,
        {
            let name = self.entries[i].0.clone();
            let n: u32 = self.entries[i].1;
            stats.push((name, n));
            i += 1;
        }
        assert(records_of(stats@) =~= self@);
        stats
    }

    /// Forgets every count. The maximum stays.
    pub fn reset(&mut self)
        ensures
            final(self).wf(),
            final(self)@ == Seq::<(Seq<char>, nat)>::empty(),
            final(self).max() == old(self).max(),
    {
        self.entries = Vec::new();
        assert(self@ =~= Seq::<(Seq<char>, nat)>::empty());
    }
}

/// After `n` more occurrences of a fingerprint its count has grown by `n`, up to the cap; the
/// count of every other fingerprint is as it was.
pub proof fn lemma_record_times(
    entries: Seq<(Seq<char>, nat)>,
    fp: Seq<char>,
    n: nat,
    other: Seq<char>,
)
    requires
        distinct_keys(entries),
        count_in(entries, fp) <= count_cap(),
    ensures
        distinct_keys(record_times(entries, fp, n)),
        count_in(record_times(entries, fp, n), fp) == if count_in(entries, fp) + n <= count_cap() {
            count_in(entries, fp) + n
        } else {
            count_cap()
        },
        other != fp ==> count_in(record_times(entries, fp, n), other) == count_in(entries, other),
    decreases n,
{
    if n > 0 {
        lemma_record_times(entries, fp, (n - 1) as nat, other);
        lemma_record(record_times(entries, fp, (n - 1) as nat), fp, other);
    }
}

/// With a maximum of `max`, the `n`-th call of a fingerprint that was not seen before is let
/// pass exactly where `n` is not above `max`: every call beyond the limit is turned away.
pub proof fn law_calls_beyond_limit_are_rejected(
    entries: Seq<(Seq<char>, nat)>,
    fp: Seq<char>,
    max: u32,
    n: nat,
)
    requires
        distinct_keys(entries),
        count_in(entries, fp) == 0,
        n >= 1,
    ensures
        admits(count_in(record_times(entries, fp, (n - 1) as nat), fp), Some(max)) <==> n <= max,
{
    lemma_record_times(entries, fp, (n - 1) as nat, fp);
}

/// A call of one fingerprint leaves the count of every other fingerprint as it was, and with
/// it the answer that the monitor gives to the next call of that other fingerprint.
pub proof fn law_fingerprints_are_independent(
    entries: Seq<(Seq<char>, nat)>,
    fp: Seq<char>,
    other: Seq<char>,
    max: Option<u32>,
)
    requires
        distinct_keys(entries),
        other != fp,
    ensures
        count_in(record(entries, fp), other) == count_in(entries, other),
        admits(count_in(record(entries, fp), other), max) == admits(count_in(entries, other), max),
{
    lemma_record(entries, fp, other);
}

/// A fingerprint that was once turned away is turned away ever after, whatever is recorded in
/// between, until the monitor is reset.
pub proof fn law_rejection_is_final(
    entries: Seq<(Seq<char>, nat)>,
    fp: Seq<char>,
    next: Seq<char>,
    max: Option<u32>,
)
    requires
        distinct_keys(entries),
        !admits(count_in(entries, fp), max),
    ensures
        !admits(count_in(record(entries, next), fp), max),
{
    lemma_record(entries, next, fp);
    lemma_record(entries, fp, fp);
}

} // verus!
