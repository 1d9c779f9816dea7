//! The race-resolution tracker: records the first arrival of each event key
//! and issues a winner/margin verdict for every later arrival of that key.
//!
//! First writer wins. A stored record is never updated, even if an event with
//! an earlier clock reading arrives later (out-of-order delivery due to
//! network jitter): this is a deliberate policy, not a bug. The structure is
//! sequential; concurrent callers are expected to serialize each `observe`
//! call through one mutual-exclusion domain, so an interleaving of calls is
//! exactly a sequence of observations, which the lemmas below reason over.

use vstd::prelude::*;
use crate::key::EventKey;

verus! {

/// The stored first arrival for one key: who reported it and the monotonic
/// clock reading, in milliseconds, at which it reached the tracker.
pub struct ArrivalRecord {
    pub reporter: String,
    pub instant_ms: u64,
}

/// Mathematical image of an `ArrivalRecord`.
pub struct Arrival {
    pub reporter: Seq<char>,
    pub instant_ms: u64,
}

impl View for ArrivalRecord {
    type V = Arrival;

    open spec fn view(&self) -> Arrival {
        Arrival { reporter: self.reporter@, instant_ms: self.instant_ms }
    }
}

/// The outcome of racing one arrival against the stored record for its key.
#[derive(Debug, PartialEq, Eq)]
pub enum Verdict {
    FirstArrival,
    Loser { winner: String, delta_ms: u64 },
}

/// Mathematical image of a `Verdict`.
pub enum SpecVerdict {
    First,
    Loser { winner: Seq<char>, delta_ms: u64 },
}

impl View for Verdict {
    type V = SpecVerdict;

    open spec fn view(&self) -> SpecVerdict {
        match self {
            Verdict::FirstArrival => SpecVerdict::First,
            Verdict::Loser { winner, delta_ms } => SpecVerdict::Loser {
                winner: winner@,
                delta_ms: *delta_ms,
            },
        }
    }
}

/// One arrival as the specification sees it.
pub struct Observation {
    pub key: EventKey,
    pub reporter: Seq<char>,
    pub instant_ms: u64,
}

/// Margin, in milliseconds, by which a later arrival trails the stored first
/// arrival. Saturating: under a correctly monotonic clock the difference is
/// already non-negative, and an out-of-order reading yields zero rather than
/// wrapping.
pub open spec fn spec_delta_ms(now_ms: u64, first_ms: u64) -> u64 {
    if now_ms >= first_ms {
        (now_ms - first_ms) as u64
    } else {
        0u64
    }
}

/// Executable form of `spec_delta_ms`.
pub fn delta_ms(now_ms: u64, first_ms: u64) -> (r: u64)
    ensures
        r == spec_delta_ms(now_ms, first_ms),
{
    if now_ms >= first_ms {
        now_ms - first_ms
    } else {
        0
    }
}

/// Whether an observation is the first arrival for its key.
pub open spec fn is_first(m: Map<EventKey, Arrival>, o: Observation) -> bool {
    !m.dom().contains(o.key)
}

/// How one observation changes the stored state: a first arrival is recorded,
/// a later arrival leaves the stored record untouched.
pub open spec fn step_map(m: Map<EventKey, Arrival>, o: Observation) -> Map<EventKey, Arrival> {
    if is_first(m, o) {
        m.insert(o.key, Arrival { reporter: o.reporter, instant_ms: o.instant_ms })
    } else {
        m
    }
}

/// The verdict one observation receives against stored state `m`.
pub open spec fn spec_verdict(m: Map<EventKey, Arrival>, o: Observation) -> SpecVerdict {
    if is_first(m, o) {
        SpecVerdict::First
    } else {
        SpecVerdict::Loser {
            winner: m[o.key].reporter,
            delta_ms: spec_delta_ms(o.instant_ms, m[o.key].instant_ms),
        }
    }
}

/// Stored state after a whole sequence of observations.
pub open spec fn run_map(m: Map<EventKey, Arrival>, s: Seq<Observation>) -> Map<EventKey, Arrival>
    decreases s.len(),
{
    if s.len() == 0 {
        m
    } else {
        run_map(step_map(m, s[0]), s.drop_first())
    }
}

/// The verdict each observation in a sequence receives, in order.
pub open spec fn run_verdicts(m: Map<EventKey, Arrival>, s: Seq<Observation>) -> Seq<SpecVerdict>
    decreases s.len(),
{
    if s.len() == 0 {
        Seq::empty()
    } else {
        seq![spec_verdict(m, s[0])] + run_verdicts(step_map(m, s[0]), s.drop_first())
    }
}

/// How many observations in a sequence receive a `First` verdict for key `k`.
pub open spec fn firsts_for(m: Map<EventKey, Arrival>, s: Seq<Observation>, k: EventKey) -> nat
    decreases s.len(),
{
    if s.len() == 0 {
        0nat
    } else {
        (if s[0].key == k && is_first(m, s[0]) {
            1nat
        } else {
            0nat
        }) + firsts_for(step_map(m, s[0]), s.drop_first(), k)
    }
}

/// Whether a sequence of entries carries pairwise-distinct keys.
pub open spec fn keys_unique(s: Seq<(EventKey, ArrivalRecord)>) -> bool {
    forall|i: int, j: int|
        0 <= i < j < s.len() ==> (#[trigger] s[i]).0 != (#[trigger] s[j]).0
}

/// The map an entry sequence denotes.
pub open spec fn assoc_view(s: Seq<(EventKey, ArrivalRecord)>) -> Map<EventKey, Arrival>
    decreases s.len(),
{
    if s.len() == 0 {
        Map::empty()
    } else {
        assoc_view(s.drop_last()).insert(s.last().0, s.last().1@)
    }
}

/// The race-resolution tracker: a map from event key to the arrival record of
/// the first source that reported it. Entries are only ever added, never
/// updated or evicted; the map grows for the life of the process, which is
/// acceptable only because a probe run is bounded.
pub struct RaceTracker {
    entries: Vec<(EventKey, ArrivalRecord)>,
}

impl View for RaceTracker {
    type V = Map<EventKey, Arrival>;

    closed spec fn view(&self) -> Map<EventKey, Arrival> {
        assoc_view(self.entries@)
    }
}

impl RaceTracker {
    /// Internal well-formedness: each key is stored at most once.
    pub closed spec fn wf(&self) -> bool {
        keys_unique(self.entries@)
    }

    /// An empty tracker: no key has been seen.
    pub fn new() -> (t: RaceTracker)
        ensures
            t.wf(),
            t@ == Map::<EventKey, Arrival>::empty(),
    {
        RaceTracker { entries: Vec::new() }
    }

    /// How many distinct keys have been seen.
    pub fn len(&self) -> (n: usize)
        requires
            self.wf(),
        ensures
            n == self@.dom().len(),
    {
        proof {
            lemma_assoc_view_len(self.entries@);
        }
        self.entries.len()
    }

    /// Race one arrival against the stored record for its key.
    ///
    /// A key never seen before is recorded with this reporter and instant and
    /// the call returns `FirstArrival`; exactly one such verdict is ever
    /// produced per key. A key already seen leaves the stored record
    /// untouched and the call returns `Loser` naming the stored reporter and
    /// the margin in milliseconds. The operation cannot fail.
    pub fn observe(&mut self, key: EventKey, reporter: &str, instant_ms: u64) -> (v: Verdict)
        requires
            old(self).wf(),
            reporter@.len() > 0,
        ensures
            final(self).wf(),
            final(self)@ == step_map(old(self)@, (Observation { key, reporter: reporter@, instant_ms })),
            v@ == spec_verdict(old(self)@, (Observation { key, reporter: reporter@, instant_ms })),
            !old(self)@.dom().contains(key) ==> v is FirstArrival && final(self)@ == old(self)@.insert(
                key,
                (Arrival { reporter: reporter@, instant_ms }),
            ),
            old(self)@.dom().contains(key) ==> final(self)@ == old(self)@ && (v matches Verdict::Loser {
                winner,
                delta_ms,
            } && winner@ == old(self)@[key].reporter && delta_ms == spec_delta_ms(
                instant_ms,
                old(self)@[key].instant_ms,
            )),
            old(self)@.dom().contains(key) && instant_ms >= old(self)@[key].instant_ms ==> (
            v matches Verdict::Loser { delta_ms, .. } && delta_ms == instant_ms - old(
                self,
            )@[key].instant_ms),
    {
        let n = self.entries.len();
        let mut i: usize = 0;
        while i < n
            invariant
                n == self.entries@.len(),
                i <= n,
                self == old(self),
                self.wf(),
                forall|j: int| 0 <= j < i ==> (#[trigger] self.entries@[j]).0 != key,
            decreases n - i,
        {
            if self.entries[i].0 == key {
                proof {
                    lemma_assoc_view_index(self.entries@, i as int, key);
                }
                let stored = &self.entries[i].1;
                let winner = stored.reporter.clone();
                let d = delta_ms(instant_ms, stored.instant_ms);
                return Verdict::Loser { winner, delta_ms: d };
            }
            i += 1;
        }
        proof {
            lemma_assoc_view_absent(self.entries@, key);
        }
        let record = ArrivalRecord { reporter: reporter.to_owned(), instant_ms };
        self.entries.push((key, record));
        proof {
            assert(self.entries@.drop_last() =~= old(self).entries@);
            assert(self@ =~= old(self)@.insert(
                key,
                Arrival { reporter: reporter@, instant_ms },
            ));
        }
        Verdict::FirstArrival
    }
}

/// A key already recorded keeps its record, untouched, through any further
/// sequence of observations: a stored first arrival is never corrected.
pub proof fn lemma_record_immutable(m: Map<EventKey, Arrival>, s: Seq<Observation>, k: EventKey)
    requires
        m.dom().contains(k),
    ensures
        run_map(m, s).dom().contains(k),
        run_map(m, s)[k] == m[k],
    decreases s.len(),
{
    if s.len() > 0 {
        lemma_record_immutable(step_map(m, s[0]), s.drop_first(), k);
    }
}

/// Once a key is recorded, no later observation of it receives a `First`
/// verdict.
pub proof fn lemma_no_first_when_recorded(
    m: Map<EventKey, Arrival>,
    s: Seq<Observation>,
    k: EventKey,
)
    requires
        m.dom().contains(k),
    ensures
        firsts_for(m, s, k) == 0,
    decreases s.len(),
{
    if s.len() > 0 {
        lemma_no_first_when_recorded(step_map(m, s[0]), s.drop_first(), k);
    }
}

/// Exactly-once-first: across any sequence of observations of a key not yet
/// recorded, exactly one observation of that key receives a `First` verdict
/// if the key appears at all, and none otherwise.
pub proof fn lemma_exactly_once_first(m: Map<EventKey, Arrival>, s: Seq<Observation>, k: EventKey)
    requires
        !m.dom().contains(k),
    ensures
        firsts_for(m, s, k) == if (exists|i: int| 0 <= i < s.len() && s[i].key == k) {
            1nat
        } else {
            0nat
        },
    decreases s.len(),
{
    if s.len() > 0 {
        if s[0].key == k {
            lemma_no_first_when_recorded(step_map(m, s[0]), s.drop_first(), k);
        } else {
            lemma_exactly_once_first(step_map(m, s[0]), s.drop_first(), k);
            if exists|i: int| 0 <= i < s.len() && s[i].key == k {
                let i = choose|i: int| 0 <= i < s.len() && s[i].key == k;
                assert(s.drop_first()[i - 1].key == k);
            }
            if exists|i: int| 0 <= i < s.drop_first().len() && s.drop_first()[i].key == k {
                let i = choose|i: int| 0 <= i < s.drop_first().len() && s.drop_first()[i].key
                    == k;
                assert(s[i + 1].key == k);
            }
        }
    }
}

/// Once a key is recorded, every later observation of it receives a `Loser`
/// verdict naming the recorded reporter, with the margin computed from the
/// recorded instant.
pub proof fn lemma_loser_after_recorded(
    m: Map<EventKey, Arrival>,
    s: Seq<Observation>,
    k: EventKey,
    j: int,
)
    requires
        m.dom().contains(k),
        0 <= j < s.len(),
        s[j].key == k,
    ensures
        run_verdicts(m, s).len() == s.len(),
        run_verdicts(m, s)[j] matches SpecVerdict::Loser { winner, delta_ms }
            && winner == m[k].reporter
            && delta_ms == spec_delta_ms(s[j].instant_ms, m[k].instant_ms),
    decreases s.len(),
{
    lemma_run_verdicts_len(m, s);
    if j == 0 {
    } else {
        lemma_loser_after_recorded(step_map(m, s[0]), s.drop_first(), k, j - 1);
    }
}

/// Every observation gets a verdict.
pub proof fn lemma_run_verdicts_len(m: Map<EventKey, Arrival>, s: Seq<Observation>)
    ensures
        run_verdicts(m, s).len() == s.len(),
    decreases s.len(),
{
    if s.len() > 0 {
        lemma_run_verdicts_len(step_map(m, s[0]), s.drop_first());
    }
}

/// The race is decided by the first observation of a key: it gets the one
/// `First` verdict, and every later observation of the key gets a `Loser`
/// verdict naming that observation's reporter, with the margin measured from
/// that observation's instant — not from the order of later calls.
pub proof fn lemma_losers_reference_first(
    m: Map<EventKey, Arrival>,
    s: Seq<Observation>,
    k: EventKey,
    i0: int,
    j: int,
)
    requires
        !m.dom().contains(k),
        0 <= i0 < s.len(),
        s[i0].key == k,
        forall|l: int| 0 <= l < i0 ==> s[l].key != k,
        i0 < j < s.len(),
        s[j].key == k,
    ensures
        run_verdicts(m, s).len() == s.len(),
        run_verdicts(m, s)[i0] is First,
        run_verdicts(m, s)[j] matches SpecVerdict::Loser { winner, delta_ms }
            && winner == s[i0].reporter
            && delta_ms == spec_delta_ms(s[j].instant_ms, s[i0].instant_ms),
    decreases s.len(),
{
    lemma_run_verdicts_len(m, s);
    if i0 == 0 {
        lemma_loser_after_recorded(step_map(m, s[0]), s.drop_first(), k, j - 1);
    } else {
        assert(forall|l: int| 0 <= l < i0 - 1 ==> s.drop_first()[l].key != k);
        lemma_losers_reference_first(step_map(m, s[0]), s.drop_first(), k, i0 - 1, j - 1);
    }
}

/// No double counting: a duplicate delivery of a key — from any source, the
/// original winner included — after its first arrival receives a `Loser`
/// verdict naming the first arrival's reporter, with a margin that is zero or
/// more whenever the clock reading did not go backwards.
pub proof fn lemma_no_double_counting(m: Map<EventKey, Arrival>, o1: Observation, o2: Observation)
    requires
        is_first(m, o1),
        o2.key == o1.key,
    ensures
        spec_verdict(m, o1) is First,
        spec_verdict(step_map(m, o1), o2) matches SpecVerdict::Loser { winner, delta_ms }
            && winner == o1.reporter
            && delta_ms == spec_delta_ms(o2.instant_ms, o1.instant_ms),
        o2.instant_ms >= o1.instant_ms ==> spec_verdict(step_map(m, o1), o2)->Loser_delta_ms
            == o2.instant_ms - o1.instant_ms,
{
}

/// The run records the first observation of each key, exactly as it arrived.
pub proof fn lemma_run_records_first(
    m: Map<EventKey, Arrival>,
    s: Seq<Observation>,
    k: EventKey,
    i0: int,
)
    requires
        !m.dom().contains(k),
        0 <= i0 < s.len(),
        s[i0].key == k,
        forall|l: int| 0 <= l < i0 ==> s[l].key != k,
    ensures
        run_map(m, s).dom().contains(k),
        run_map(m, s)[k] == (Arrival {
            reporter: s[i0].reporter,
            instant_ms: s[i0].instant_ms,
        }),
    decreases s.len(),
{
    if i0 == 0 {
        lemma_record_immutable(step_map(m, s[0]), s.drop_first(), k);
    } else {
        assert(forall|l: int| 0 <= l < i0 - 1 ==> s.drop_first()[l].key != k);
        lemma_run_records_first(step_map(m, s[0]), s.drop_first(), k, i0 - 1);
    }
}

/// Under a monotonic clock — observations arrive with non-decreasing clock
/// readings — the stored instant for a key is the minimum of every instant
/// ever observed for it.
#[verifier::rlimit(50)]
pub proof fn lemma_stored_is_minimum(m: Map<EventKey, Arrival>, s: Seq<Observation>, k: EventKey)
    requires
        !m.dom().contains(k),
        forall|i: int, j: int| 0 <= i < j < s.len() ==> (#[trigger] s[i]).instant_ms <= (
        #[trigger] s[j]).instant_ms,
    ensures
        forall|i: int|
            0 <= i < s.len() && (#[trigger] s[i]).key == k ==> run_map(m, s).dom().contains(k)
                && run_map(m, s)[k].instant_ms <= s[i].instant_ms,
{
    assert forall|i: int|
        0 <= i < s.len() && (#[trigger] s[i]).key == k implies run_map(m, s).dom().contains(k)
        && run_map(m, s)[k].instant_ms <= s[i].instant_ms by {
        let i0 = first_occurrence(s, k);
        lemma_first_occurrence(s, k, i);
        lemma_run_records_first(m, s, k, i0);
        assert(run_map(m, s)[k].instant_ms == s[i0].instant_ms);
        if i0 < i {
            assert(s[i0].instant_ms <= s[i].instant_ms);
        }
    }
}

/// The least index at which a key occurs in a sequence of observations.
pub open spec fn first_occurrence(s: Seq<Observation>, k: EventKey) -> int {
    choose|i0: int|
        0 <= i0 < s.len() && (#[trigger] s[i0]).key == k && forall|l: int|
            0 <= l < i0 ==> s[l].key != k
}

/// If a key occurs at all, `first_occurrence` names its least index, which is
/// no later than any occurrence.
pub proof fn lemma_first_occurrence(s: Seq<Observation>, k: EventKey, i: int)
    requires
        0 <= i < s.len(),
        s[i].key == k,
    ensures
        ({
            let i0 = first_occurrence(s, k);
            &&& 0 <= i0 < s.len()
            &&& s[i0].key == k
            &&& forall|l: int| 0 <= l < i0 ==> s[l].key != k
            &&& i0 <= i
        }),
    decreases s.len(),
{
    let exists_first = |s: Seq<Observation>, k: EventKey|
        exists|i0: int|
            0 <= i0 < s.len() && (#[trigger] s[i0]).key == k && forall|l: int|
                0 <= l < i0 ==> s[l].key != k;
    if s[0].key == k {
        assert(0 <= 0 < s.len() && s[0].key == k && forall|l: int| 0 <= l < 0 ==> s[l].key != k);
    } else {
        lemma_first_occurrence(s.drop_first(), k, i - 1);
        let j0 = first_occurrence(s.drop_first(), k);
        assert(s[j0 + 1].key == k);
        assert(forall|l: int| 0 <= l < j0 + 1 ==> s[l].key != k) by {
            assert(forall|l: int| 1 <= l < j0 + 1 ==> s[l].key == s.drop_first()[l - 1].key);
        }
    }
    let i0 = first_occurrence(s, k);
    if i0 > i {
        assert(s[i].key != k);
    }
}

/// A well-formed entry sequence has as many entries as its map has keys.
proof fn lemma_assoc_view_len(s: Seq<(EventKey, ArrivalRecord)>)
    requires
        keys_unique(s),
    ensures
        assoc_view(s).dom().finite(),
        assoc_view(s).dom().len() == s.len(),
    decreases s.len(),
{
    if s.len() > 0 {
        lemma_assoc_view_len(s.drop_last());
        lemma_assoc_view_absent(s.drop_last(), s.last().0);
    }
}

/// An entry's key is in the denoted map, bound to that entry's record,
/// provided keys are unique.
proof fn lemma_assoc_view_index(s: Seq<(EventKey, ArrivalRecord)>, i: int, k: EventKey)
    requires
        keys_unique(s),
        0 <= i < s.len(),
        s[i].0 == k,
    ensures
        assoc_view(s).dom().contains(k),
        assoc_view(s)[k] == s[i].1@,
    decreases s.len(),
{
    if i == s.len() - 1 {
    } else {
        assert(s[i] == s.drop_last()[i]);
        lemma_assoc_view_index(s.drop_last(), i, k);
        assert(s.last().0 != k);
    }
}

/// A key no entry carries is not in the denoted map.
proof fn lemma_assoc_view_absent(s: Seq<(EventKey, ArrivalRecord)>, k: EventKey)
    requires
        forall|j: int| 0 <= j < s.len() ==> (#[trigger] s[j]).0 != k,
    ensures
        !assoc_view(s).dom().contains(k),
    decreases s.len(),
{
    if s.len() > 0 {
        assert(forall|j: int|
            0 <= j < s.drop_last().len() ==> (#[trigger] s.drop_last()[j]).0 != k);
        lemma_assoc_view_absent(s.drop_last(), k);
    }
}

} // verus!
