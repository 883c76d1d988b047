//! The statistics of one measured invocation: a map from the name of a
//! statistic to its value, and the data the compiler reports about itself.

use std::time::Duration;
use vstd::prelude::*;
use vstd::string::StringExecFns;

verus! {

/// The value of a statistic. A count is kept as the integer it is; a
/// measured quantity is kept as the numeral that the tool printed, which
/// denotes a real number.
#[derive(Clone, Debug, PartialEq, Eq)]
pub enum StatValue {
    Integer(u64),
    Numeral(String),
}

/// What a `StatValue` stands for in contracts.
pub enum StatNumber {
    Integer(u64),
    Numeral(Seq<char>),
}

impl View for StatValue {
    type V = StatNumber;

    open spec fn view(&self) -> StatNumber {
        match self {
            StatValue::Integer(n) => StatNumber::Integer(*n),
            StatValue::Numeral(s) => StatNumber::Numeral(s@),
        }
    }
}

impl StatValue {
    pub fn clone_value(&self) -> (r: StatValue)
        ensures
            r@ == self@,
    {
        match self {
            StatValue::Integer(n) => StatValue::Integer(*n),
            StatValue::Numeral(s) => StatValue::Numeral(s.clone()),
        }
    }
}

/// The map that a list of named values denotes: a later entry replaces an
/// earlier one of the same name.
pub open spec fn entries_map(es: Seq<(String, StatValue)>) -> Map<Seq<char>, StatNumber>
    decreases es.len(),
{
    if es.len() == 0 {
        Map::empty()
    } else {
        entries_map(es.drop_last()).insert(es.last().0@, es.last().1@)
    }
}

/// No name occurs twice in the list.
pub open spec fn distinct_names(es: Seq<(String, StatValue)>) -> bool {
    forall|i: int, j: int| 0 <= i < j < es.len() ==> (#[trigger] es[i]).0@ != (#[trigger] es[j]).0@
}

proof fn lemma_entries_map_keys(es: Seq<(String, StatValue)>, k: Seq<char>)
    ensures
        entries_map(es).contains_key(k) <==> exists|i: int|
            0 <= i < es.len() && (#[trigger] es[i]).0@ == k,
    decreases es.len(),
{
    if es.len() > 0 {
        let d = es.drop_last();
        lemma_entries_map_keys(d, k);
        if entries_map(es).contains_key(k) {
            if es.last().0@ == k {
                assert(es[es.len() - 1].0@ == k);
            } else {
                let i = choose|i: int| 0 <= i < d.len() && (#[trigger] d[i]).0@ == k;
                assert(es[i].0@ == k);
            }
        } else {
            assert forall|i: int| 0 <= i < es.len() implies (#[trigger] es[i]).0@ != k by {
                if i < d.len() {
                    assert(d[i].0@ != k);
                }
            }
        }
    }
}

proof fn lemma_entries_map_value(es: Seq<(String, StatValue)>, i: int)
    requires
        distinct_names(es),
        0 <= i < es.len(),
    ensures
        entries_map(es).contains_key(es[i].0@),
        entries_map(es)[es[i].0@] == es[i].1@,
    decreases es.len(),
{
    let d = es.drop_last();
    if i < es.len() - 1 {
        assert(distinct_names(d)) by {
            assert forall|a: int, b: int| 0 <= a < b < d.len() implies (#[trigger] d[a]).0@ != (
            #[trigger] d[b]).0@ by {
                assert(es[a].0@ != es[b].0@);
            }
        }
        lemma_entries_map_value(d, i);
        assert(es[i].0@ != es[es.len() - 1].0@);
        assert(d[i] == es[i]);
    }
}

proof fn lemma_entries_map_update(es: Seq<(String, StatValue)>, i: int, e: (String, StatValue))
    requires
        distinct_names(es),
        0 <= i < es.len(),
        e.0@ == es[i].0@,
    ensures
        distinct_names(es.update(i, e)),
        entries_map(es.update(i, e)) == entries_map(es).insert(e.0@, e.1@),
    decreases es.len(),
{
    let u = es.update(i, e);
    assert(distinct_names(u)) by {
        assert forall|a: int, b: int| 0 <= a < b < u.len() implies (#[trigger] u[a]).0@ != (
        #[trigger] u[b]).0@ by {
            assert(es[a].0@ != es[b].0@);
        }
    }
    let d = es.drop_last();
    if i == es.len() - 1 {
        assert(u.drop_last() == d);
        assert(entries_map(u) =~= entries_map(es).insert(e.0@, e.1@));
    } else {
        assert(distinct_names(d)) by {
            assert forall|a: int, b: int| 0 <= a < b < d.len() implies (#[trigger] d[a]).0@ != (
            #[trigger] d[b]).0@ by {
                assert(es[a].0@ != es[b].0@);
            }
        }
        lemma_entries_map_update(d, i, e);
        assert(u.drop_last() == d.update(i, e));
        assert(u.last() == es.last());
        assert(es[i].0@ != es[es.len() - 1].0@);
        assert(d[i] == es[i]);
        assert(entries_map(u) =~= entries_map(es).insert(e.0@, e.1@));
    }
}

proof fn lemma_entries_map_same(a: Seq<(String, StatValue)>, b: Seq<(String, StatValue)>)
    requires
        a.len() == b.len(),
        forall|j: int| 0 <= j < a.len() ==> (#[trigger] a[j]).0@ == b[j].0@ && a[j].1@ == b[j].1@,
    ensures
        entries_map(a) == entries_map(b),
    decreases a.len(),
{
    if a.len() > 0 {
        lemma_entries_map_same(a.drop_last(), b.drop_last());
        assert(a[a.len() - 1].0@ == b[a.len() - 1].0@);
    }
}

/// Statistics by name. Each name has one value, and the order in which the
/// statistics were collected carries no meaning.
#[derive(Debug)]
pub struct Stats {
    stats: Vec<(String, StatValue)>,
}

impl View for Stats {
    type V = Map<Seq<char>, StatNumber>;

    closed spec fn view(&self) -> Map<Seq<char>, StatNumber> {
        entries_map(self.stats@)
    }
}

impl Clone for Stats {
    fn clone(&self) -> (r: Stats)
        ensures
            r@ == self@,
    {
        proof {
            use_type_invariant(self);
        }
        let mut list: Vec<(String, StatValue)> = Vec::new();
        let mut i: usize = 0;
        while i < self.stats.len()
            invariant
                i <= self.stats@.len(),
                list@.len() == i,
                forall|j: int|
                    0 <= j < i ==> (#[trigger] list@[j]).0@ == self.stats@[j].0@ && list@[j].1@
                        == self.stats@[j].1@,
            decreases self.stats@.len() - i,
        {
            list.push((self.stats[i].0.clone(), self.stats[i].1.clone_value()));
            i += 1;
        }
        proof {
            lemma_entries_map_same(list@, self.stats@);
            assert(distinct_names(list@)) by {
                assert forall|a: int, b: int| 0 <= a < b < list@.len() implies (
                #[trigger] list@[a]).0@ != (#[trigger] list@[b]).0@ by {
                    assert(self.stats@[a].0@ != self.stats@[b].0@);
                }
            }
        }
        Stats { stats: list }
    }
}

impl Default for Stats {
    fn default() -> (r: Stats)
        ensures
            r@ == Map::<Seq<char>, StatNumber>::empty(),
    {
        Stats::new()
    }
}

impl Stats {
    #[verifier::type_invariant]
    spec fn names_are_distinct(self) -> bool {
        distinct_names(self.stats@)
    }

    pub fn new() -> (r: Stats)
        ensures
            r@ == Map::<Seq<char>, StatNumber>::empty(),
    {
        Stats { stats: Vec::new() }
    }

    /// The position of the statistic `stat`, if there is one.
    fn position(&self, stat: &String) -> (r: Option<usize>)
        ensures
            match r {
                Some(i) => i < self.stats@.len() && self.stats@[i as int].0@ == stat@,
                None => forall|i: int| 0 <= i < self.stats@.len() ==> (#[trigger] self.stats@[i]).0@
                    != stat@,
            },
    {
        let mut i: usize = 0;
        while i < self.stats.len()
            invariant
                i <= self.stats@.len(),
                forall|j: int| 0 <= j < i ==> (#[trigger] self.stats@[j]).0@ != stat@,
            decreases self.stats@.len() - i,
        {
            if self.stats[i].0 == *stat {
                return Some(i);
            }
            i += 1;
        }
        None
    }

    /// The statistics as a list, each name once.
    pub fn iter(&self) -> (r: &Vec<(String, StatValue)>)
        ensures
            distinct_names(r@),
            entries_map(r@) == self@,
            forall|i: int|
                0 <= i < r@.len() ==> self@.contains_key((#[trigger] r@[i]).0@) && self@[r@[i].0@]
                    == r@[i].1@,
            forall|k: Seq<char>|
                self@.contains_key(k) ==> exists|i: int|
                    0 <= i < r@.len() && (#[trigger] r@[i]).0@ == k,
    {
        proof {
            use_type_invariant(self);
            assert forall|i: int| 0 <= i < self.stats@.len() implies self@.contains_key(
                (#[trigger] self.stats@[i]).0@,
            ) && self@[self.stats@[i].0@] == self.stats@[i].1@ by {
                lemma_entries_map_value(self.stats@, i);
            }
            assert forall|k: Seq<char>| self@.contains_key(k) implies exists|i: int|
                0 <= i < self.stats@.len() && (#[trigger] self.stats@[i]).0@ == k by {
                lemma_entries_map_keys(self.stats@, k);
            }
        }
        &self.stats
    }

    pub fn is_empty(&self) -> (r: bool)
        ensures
            r == (self@ == Map::<Seq<char>, StatNumber>::empty()),
    {
        proof {
            if self.stats@.len() > 0 {
                assert(self@.contains_key(self.stats@.last().0@));
            }
        }
        self.stats.is_empty()
    }

    /// The value of the statistic `stat`.
    pub fn get(&self, stat: &str) -> (r: Option<&StatValue>)
        ensures
            match r {
                Some(v) => self@.contains_key(stat@) && self@[stat@] == v@,
                None => !self@.contains_key(stat@),
            },
    {
        proof {
            use_type_invariant(self);
            lemma_entries_map_keys(self.stats@, stat@);
        }
        let name: String = stat.to_owned();
        match self.position(&name) {
            Some(i) => {
                proof {
                    lemma_entries_map_value(self.stats@, i as int);
                }
                Some(&self.stats[i].1)
            },
            None => None,
        }
    }

    /// Sets the statistic `stat` to `value`, whether or not it had one.
    pub fn insert(&mut self, stat: String, value: StatValue)
        ensures
            final(self)@ == old(self)@.insert(stat@, value@),
    {
        proof {
            use_type_invariant(&*self);
        }
        let found = self.position(&stat);
        let ghost before = self.stats@;
        let mut list: Vec<(String, StatValue)> = Vec::new();
        core::mem::swap(&mut self.stats, &mut list);
        match found {
            Some(i) => {
                proof {
                    lemma_entries_map_update(before, i as int, (stat, value));
                }
                list.set(i, (stat, value));
            },
            None => {
                list.push((stat, value));
                proof {
                    assert(list@.drop_last() == before);
                    assert(distinct_names(list@)) by {
                        assert forall|a: int, b: int| 0 <= a < b < list@.len() implies (
                        #[trigger] list@[a]).0@ != (#[trigger] list@[b]).0@ by {
                            if b < before.len() {
                                assert(before[a].0@ != before[b].0@);
                            } else {
                                assert(before[a].0@ != stat@);
                            }
                        }
                    }
                }
            },
        }
        core::mem::swap(&mut self.stats, &mut list);
    }
}

/// `Duration::clone` hands back the same duration: the type is `Copy`.
pub assume_specification[ <Duration as Clone>::clone ](d: &Duration) -> (r: Duration)
    ensures
        r == *d,
;

/// The label of a compiler query or of an artifact.
#[derive(Clone, Debug, PartialEq, Eq)]
pub struct QueryLabel(pub String);

/// What the compiler reports about itself for one invocation.
#[derive(Clone, Debug, PartialEq, Eq)]
pub struct SelfProfile {
    pub query_data: Vec<QueryData>,
    pub artifact_sizes: Vec<ArtifactSize>,
}

/// The size in bytes of one artifact of the compilation.
#[derive(Clone, Debug, PartialEq, Eq)]
pub struct ArtifactSize {
    pub label: QueryLabel,
    pub size: u64,
}

/// The time and the cache use of one compiler query.
#[derive(Clone, Debug, PartialEq, Eq)]
pub struct QueryData {
    pub label: QueryLabel,
    pub self_time: Duration,
    pub number_of_cache_hits: u32,
    pub invocation_count: u32,
    pub blocked_time: Duration,
    pub incremental_load_time: Duration,
}

/// The name of the statistic that holds the size of the artifact `label`.
pub open spec fn artifact_stat_name(label: Seq<char>) -> Seq<char> {
    "size:"@ + label
}

/// `m` with the size of each artifact, in the order of the list, under the
/// artifact's statistic name.
pub open spec fn with_artifact_sizes(
    m: Map<Seq<char>, StatNumber>,
    sizes: Seq<ArtifactSize>,
) -> Map<Seq<char>, StatNumber>
    decreases sizes.len(),
{
    if sizes.len() == 0 {
        m
    } else {
        with_artifact_sizes(m, sizes.drop_last()).insert(
            artifact_stat_name(sizes.last().label.0@),
            StatNumber::Integer(sizes.last().size),
        )
    }
}

/// Records the size of each artifact of the compilation as a statistic.
pub fn store_artifact_sizes_into_stats(stats: &mut Stats, profile: &SelfProfile)
    ensures
        final(stats)@ == with_artifact_sizes(old(stats)@, profile.artifact_sizes@),
{
    let mut i: usize = 0;
    proof {
        assert(profile.artifact_sizes@.take(0) == Seq::<ArtifactSize>::empty());
    }
    while i < profile.artifact_sizes.len()
        invariant
            i <= profile.artifact_sizes@.len(),
            stats@ == with_artifact_sizes(old(stats)@, profile.artifact_sizes@.take(i as int)),
        decreases profile.artifact_sizes@.len() - i,
    {
        let artifact = &profile.artifact_sizes[i];
        let mut name: String = "size:".to_owned();
        name.append(artifact.label.0.as_str());
        stats.insert(name, StatValue::Integer(artifact.size));
        proof {
            let next = profile.artifact_sizes@.take(i + 1);
            assert(next.drop_last() == profile.artifact_sizes@.take(i as int));
            assert(next.last() == profile.artifact_sizes@[i as int]);
        }
        i += 1;
    }
    proof {
        assert(profile.artifact_sizes@.take(i as int) == profile.artifact_sizes@);
    }
}

/// `m` with the number and the total size of the files of the generated
/// documentation, where they could be measured.
pub open spec fn with_documentation_size(
    m: Map<Seq<char>, StatNumber>,
    measured: Option<(u64, u64)>,
) -> Map<Seq<char>, StatNumber> {
    match measured {
        Some((count, size)) => m.insert(
            "size:doc_files_count"@,
            StatNumber::Integer(count),
        ).insert("size:doc_bytes"@, StatNumber::Integer(size)),
        None => m,
    }
}

/// Records the number of files of the generated documentation and their
/// total size in bytes. Where the directory could not be measured, the
/// statistics stay as they are.
pub fn store_documentation_size_into_stats(stats: &mut Stats, measured: Option<(u64, u64)>)
    ensures
        final(stats)@ == with_documentation_size(old(stats)@, measured),
{
    match measured {
        Some((count, size)) => {
            stats.insert("size:doc_files_count".to_owned(), StatValue::Integer(count));
            stats.insert("size:doc_bytes".to_owned(), StatValue::Integer(size));
        },
        None => {},
    }
}

} // verus!
