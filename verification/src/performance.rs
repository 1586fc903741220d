//! Counters for the operations of a service, the rules that find an
//! operation wanting, and the tidying of inputs before they are processed.
//!
//! Averages and rates are given as the counts they are made of.

use crate::store::KeyedStore;
use crate::text::{
    chars_of, fields, split_fields, split_words, string_push, trim, trimmed, views, words,
};
use vstd::prelude::*;

verus! {

/// How urgent a suggestion is.
#[derive(Clone, Copy, Debug, PartialEq, Eq, Structural)]
pub enum OptimizationPriority {
    LOW,
    MEDIUM,
    HIGH,
    CRITICAL,
}

/// What was counted of one operation. The average duration is
/// `total_duration_ms / total_calls`, the cache hit rate
/// `cache_hits / total_calls`, the error rate `errors / total_calls`.
#[derive(Clone, Copy, Debug, PartialEq, Eq, Structural)]
pub struct OperationCounts {
    pub total_calls: u64,
    pub total_duration_ms: u128,
    pub min_duration_ms: u64,
    pub max_duration_ms: u64,
    pub cache_hits: u64,
    pub errors: u64,
}

/// The counts of an operation with its name.
#[derive(Debug)]
pub struct PerformanceProfile {
    pub operation_name: String,
    pub counts: OperationCounts,
}

impl OperationCounts {
    /// The counts are those of at least one call, and of no more hits,
    /// errors or time than that many calls can have.
    pub open spec fn well_formed(&self) -> bool {
        &&& self.total_calls >= 1
        &&& self.cache_hits <= self.total_calls
        &&& self.errors <= self.total_calls
        &&& self.total_duration_ms <= self.total_calls * u64::MAX
        &&& self.min_duration_ms <= self.max_duration_ms
    }

    /// The counts after the first call of an operation.
    pub open spec fn first(duration_ms: u64, cache_hit: bool, success: bool) -> OperationCounts {
        OperationCounts {
            total_calls: 1,
            total_duration_ms: duration_ms as u128,
            min_duration_ms: duration_ms,
            max_duration_ms: duration_ms,
            cache_hits: if cache_hit {
                1
            } else {
                0
            },
            errors: if success {
                0
            } else {
                1
            },
        }
    }

    /// The counts after one more call.
    pub open spec fn with(self, duration_ms: u64, cache_hit: bool, success: bool) -> OperationCounts {
        OperationCounts {
            total_calls: (self.total_calls + 1) as u64,
            total_duration_ms: (self.total_duration_ms + duration_ms) as u128,
            min_duration_ms: if duration_ms < self.min_duration_ms {
                duration_ms
            } else {
                self.min_duration_ms
            },
            max_duration_ms: if duration_ms > self.max_duration_ms {
                duration_ms
            } else {
                self.max_duration_ms
            },
            cache_hits: if cache_hit {
                (self.cache_hits + 1) as u64
            } else {
                self.cache_hits
            },
            errors: if success {
                self.errors
            } else {
                (self.errors + 1) as u64
            },
        }
    }

    /// Whether the operation is slow: it takes more than a second on
    /// average.
    pub fn is_slow(&self) -> (slow: bool)
        ensures
            slow == (self.total_duration_ms > 1000 * self.total_calls),
    {
        self.total_duration_ms > 1000 * (self.total_calls as u128)
    }

    /// Whether the cache serves the operation badly: fewer than half of its
    /// calls were hits.
    pub fn has_low_hit_rate(&self) -> (low: bool)
        ensures
            low == (2 * self.cache_hits < self.total_calls),
    {
        2 * (self.cache_hits as u128) < self.total_calls as u128
    }

    /// Whether the operation fails often: more than a tenth of its calls
    /// failed.
    pub fn has_high_error_rate(&self) -> (high: bool)
        ensures
            high == (10 * self.errors > self.total_calls),
    {
        10 * (self.errors as u128) > self.total_calls as u128
    }
}

/// The counts of every operation of a service.
pub struct PerformanceOptimizer {
    profiles: KeyedStore<OperationCounts>,
}

impl PerformanceOptimizer {
    /// The counts by the name of the operation.
    pub closed spec fn profiles(&self) -> Map<Seq<char>, OperationCounts> {
        self.profiles@
    }

    /// The names of the operations in the order in which
    /// `get_performance_profiles` lists them.
    pub closed spec fn order(&self) -> Seq<Seq<char>> {
        self.profiles.keys()
    }

    /// The table of counts is well formed, and so are the counts of every
    /// operation.
    pub closed spec fn well_formed(&self) -> bool {
        &&& self.profiles.well_formed()
        &&& forall|i: int| 0 <= i < self.profiles.values().len() ==> (#[trigger] self.profiles.values()[i]).well_formed()
    }

    /// Whether one more call of the operation can be counted.
    pub open spec fn can_count(&self, operation_name: Seq<char>) -> bool {
        self.profiles().contains_key(operation_name) ==> self.profiles()[operation_name].total_calls < u64::MAX
    }

    /// What holds of every well-formed optimizer: the counts of each
    /// operation are well formed, and the list of operations names each
    /// once.
    pub proof fn lemma_well_formed(&self)
        requires
            self.well_formed(),
        ensures
            forall|name: Seq<char>| #[trigger]
                self.profiles().contains_key(name) ==> self.profiles()[name].well_formed(),
            self.order().no_duplicates(),
            self.order().to_set() == self.profiles().dom(),
    {
        self.profiles.lemma_slots_are_the_map();
        assert forall|name: Seq<char>| #[trigger] self.profiles().contains_key(name) implies self.profiles()[name].well_formed() by {
            let i = self.profiles.position_of(name).unwrap();
            assert(self.profiles.values()[i].well_formed());
        }
    }

    /// An optimizer that has counted nothing.
    pub fn new() -> (optimizer: Self)
        ensures
            optimizer.well_formed(),
            optimizer.profiles() == Map::<Seq<char>, OperationCounts>::empty(),
    {
        PerformanceOptimizer { profiles: KeyedStore::new() }
    }

    /// The counts of an operation, if any of its calls was counted.
    pub fn get_counts(&self, operation_name: &str) -> (counts: Option<OperationCounts>)
        requires
            self.well_formed(),
        ensures
            counts == (if self.profiles().contains_key(operation_name@) {
                Some(self.profiles()[operation_name@])
            } else {
                None
            }),
    {
        match self.profiles.get(operation_name) {
            Some(counts) => Some(*counts),
            None => None,
        }
    }

    /// Counts one call of an operation.
    pub fn record_operation(&mut self, operation_name: &str, duration_ms: u64, cache_hit: bool, success: bool)
        requires
            old(self).well_formed(),
            old(self).can_count(operation_name@),
        ensures
            final(self).well_formed(),
            final(self).profiles() == old(self).profiles().insert(
                operation_name@,
                if old(self).profiles().contains_key(operation_name@) {
                    old(self).profiles()[operation_name@].with(duration_ms, cache_hit, success)
                } else {
                    OperationCounts::first(duration_ms, cache_hit, success)
                },
            ),
    {
        let known = match self.profiles.position(operation_name) {
            Some(i) => Some(*self.profiles.value_at(i)),
            None => None,
        };
        let next = match known {
            Some(counts) => {
                assert(counts.well_formed());
                assert((counts.total_calls + 1) * u64::MAX == counts.total_calls * u64::MAX + u64::MAX)
                    by (nonlinear_arith);
                assert(counts.total_calls * u64::MAX + u64::MAX <= u64::MAX * u64::MAX + u64::MAX)
                    by (nonlinear_arith)
                    requires
                        counts.total_calls <= u64::MAX,
                ;
                OperationCounts {
                    total_calls: counts.total_calls + 1,
                    total_duration_ms: counts.total_duration_ms + duration_ms as u128,
                    min_duration_ms: if duration_ms < counts.min_duration_ms {
                        duration_ms
                    } else {
                        counts.min_duration_ms
                    },
                    max_duration_ms: if duration_ms > counts.max_duration_ms {
                        duration_ms
                    } else {
                        counts.max_duration_ms
                    },
                    cache_hits: if cache_hit {
                        counts.cache_hits + 1
                    } else {
                        counts.cache_hits
                    },
                    errors: if success {
                        counts.errors
                    } else {
                        counts.errors + 1
                    },
                }
            },
            None => OperationCounts {
                total_calls: 1,
                total_duration_ms: duration_ms as u128,
                min_duration_ms: duration_ms,
                max_duration_ms: duration_ms,
                cache_hits: if cache_hit {
                    1
                } else {
                    0
                },
                errors: if success {
                    0
                } else {
                    1
                },
            },
        };
        assert(next.well_formed()) by {
            assert(1 * u64::MAX == u64::MAX) by (nonlinear_arith);
        }
        let _ = self.profiles.insert(operation_name, next);
    }

    /// The counts of every operation, each operation once.
    pub fn get_performance_profiles(&self) -> (profiles: Vec<PerformanceProfile>)
        requires
            self.well_formed(),
        ensures
            profiles@.len() == self.order().len(),
            forall|i: int|
                0 <= i < profiles@.len() ==> (#[trigger] profiles@[i]).operation_name@ == self.order()[i]
                    && profiles@[i].counts == self.profiles()[self.order()[i]],
    {
        proof {
            self.profiles.lemma_slots_are_the_map();
        }
        let mut profiles: Vec<PerformanceProfile> = Vec::new();
        let mut i: usize = 0;
        while i < self.profiles.len()
            invariant
                i <= self.profiles.keys().len(),
                self.profiles.keys().len() == self.profiles.values().len(),
                profiles@.len() == i,
                forall|j: int|
                    0 <= j < i ==> (#[trigger] profiles@[j]).operation_name@ == self.profiles.keys()[j]
                        && profiles@[j].counts == self.profiles.values()[j],
            decreases self.profiles.keys().len() - i,
        {
            profiles.push(
                PerformanceProfile {
                    operation_name: self.profiles.key_at(i).to_owned(),
                    counts: *self.profiles.value_at(i),
                },
            );
            i = i + 1;
        }
        profiles
    }

    /// A text with its words parted by single spaces and nothing else.
    pub fn optimize_text_processing(&self, text: &str) -> (tidy: String)
        ensures
            tidy@ == joined(words(text@), ' '),
    {
        tidy_text(text)
    }

    /// Numeric data with its fields trimmed, the empty ones left out, and
    /// the others parted by single commas.
    pub fn optimize_data_processing(&self, data: &str) -> (tidy: String)
        ensures
            tidy@ == joined(filled_fields(data@), ','),
    {
        tidy_data(data)
    }
}

/// The words with `between` between each two of them.
pub open spec fn joined(parts: Seq<Seq<char>>, between: char) -> Seq<char>
    decreases parts.len(),
{
    if parts.len() == 0 {
        Seq::empty()
    } else if parts.len() == 1 {
        parts[0]
    } else {
        joined(parts.drop_last(), between).push(between) + parts.last()
    }
}

/// The fields of numeric data that are not empty once trimmed, trimmed and
/// in their order.
pub open spec fn filled_fields(data: Seq<char>) -> Seq<Seq<char>> {
    filled(fields(data))
}

/// The texts that are not empty once trimmed, trimmed and in their order.
pub open spec fn filled(parts: Seq<Seq<char>>) -> Seq<Seq<char>>
    decreases parts.len(),
{
    if parts.len() == 0 {
        Seq::empty()
    } else if trimmed(parts.last()).len() == 0 {
        filled(parts.drop_last())
    } else {
        filled(parts.drop_last()).push(trimmed(parts.last()))
    }
}

fn push_all(text: &mut String, chars: &[char])
    ensures
        final(text)@ == old(text)@ + chars@,
{
    let mut i: usize = 0;
    assert(text@ =~= old(text)@ + chars@.take(0));
    while i < chars.len()
        invariant
            i <= chars@.len(),
            text@ == old(text)@ + chars@.take(i as int),
        decreases chars@.len() - i,
    {
        string_push(text, chars[i]);
        assert(old(text)@ + chars@.take(i + 1) =~= (old(text)@ + chars@.take(i as int)).push(chars@[i as int]));
        i = i + 1;
    }
    assert(chars@.take(i as int) =~= chars@);
}

fn join(parts: &Vec<Vec<char>>, between: char) -> (text: String)
    ensures
        text@ == joined(views(parts@), between),
{
    let mut text = String::new();
    let mut i: usize = 0;
    assert(views(parts@).take(0) =~= Seq::<Seq<char>>::empty());
    while i < parts.len()
        invariant
            i <= parts@.len(),
            text@ == joined(views(parts@).take(i as int), between),
        decreases parts@.len() - i,
    {
        proof {
            let next = views(parts@).take(i + 1);
            assert(next.drop_last() =~= views(parts@).take(i as int));
            assert(next.last() == parts@[i as int]@);
            if i == 0 {
                assert(next[0] == parts@[0]@);
            }
        }
        if i > 0 {
            string_push(&mut text, between);
        }
        let ghost before = text@;
        push_all(&mut text, parts[i].as_slice());
        assert(before + parts@[i as int]@ =~= text@);
        if i == 0 {
            assert(Seq::<char>::empty() + parts@[0]@ =~= parts@[0]@);
        }
        i = i + 1;
    }
    assert(views(parts@).take(i as int) =~= views(parts@));
    text
}

fn tidy_text(text: &str) -> (tidy: String)
    ensures
        tidy@ == joined(words(text@), ' '),
{
    let chars = chars_of(text);
    let found = split_words(chars.as_slice());
    join(&found, ' ')
}

fn tidy_data(data: &str) -> (tidy: String)
    ensures
        tidy@ == joined(filled_fields(data@), ','),
{
    let chars = chars_of(data);
    let parts = split_fields(chars.as_slice());
    let mut kept: Vec<Vec<char>> = Vec::new();
    let mut i: usize = 0;
    assert(views(kept@) =~= filled(views(parts@).take(0)));
    while i < parts.len()
        invariant
            i <= parts@.len(),
            views(kept@) == filled(views(parts@).take(i as int)),
        decreases parts@.len() - i,
    {
        proof {
            assert(views(parts@).take(i + 1).drop_last() =~= views(parts@).take(i as int));
            assert(views(parts@).take(i + 1).last() == parts@[i as int]@);
        }
        let inner = trim(parts[i].as_slice());
        if inner.len() > 0 {
            let ghost before = views(kept@);
            kept.push(inner);
            assert(views(kept@) =~= before.push(inner@));
        }
        i = i + 1;
    }
    assert(views(parts@).take(i as int) =~= views(parts@));
    join(&kept, ',')
}

/// A text with its words parted by single spaces and nothing else.
pub fn optimize_text_processing(text: &str) -> (tidy: String)
    ensures
        tidy@ == joined(words(text@), ' '),
{
    tidy_text(text)
}

/// Numeric data with its fields trimmed, the empty ones left out, and the
/// others parted by single commas.
pub fn optimize_data_processing(data: &str) -> (tidy: String)
    ensures
        tidy@ == joined(filled_fields(data@), ','),
{
    tidy_data(data)
}

/// Counts one call of an operation.
pub fn record_operation_performance(
    optimizer: &mut PerformanceOptimizer,
    operation_name: &str,
    duration_ms: u64,
    cache_hit: bool,
    success: bool,
)
    requires
        old(optimizer).well_formed(),
        old(optimizer).can_count(operation_name@),
    ensures
        final(optimizer).well_formed(),
        final(optimizer).profiles() == old(optimizer).profiles().insert(
            operation_name@,
            if old(optimizer).profiles().contains_key(operation_name@) {
                old(optimizer).profiles()[operation_name@].with(duration_ms, cache_hit, success)
            } else {
                OperationCounts::first(duration_ms, cache_hit, success)
            },
        ),
{
    optimizer.record_operation(operation_name, duration_ms, cache_hit, success)
}

/// The counts of every operation, each operation once.
pub fn get_performance_profiles(optimizer: &PerformanceOptimizer) -> (profiles: Vec<PerformanceProfile>)
    requires
        optimizer.well_formed(),
    ensures
        profiles@.len() == optimizer.order().len(),
        forall|i: int|
            0 <= i < profiles@.len() ==> (#[trigger] profiles@[i]).operation_name@ == optimizer.order()[i]
                && profiles@[i].counts == optimizer.profiles()[optimizer.order()[i]],
{
    optimizer.get_performance_profiles()
}

} // verus!
