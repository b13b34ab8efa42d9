use vstd::prelude::*;
use dashmap::DashMap;

verus! {

/// Incidents older than this many seconds no longer lower a score.
pub const INCIDENT_WINDOW_SECS: u64 = 3600;
/// Score of a fully trusted address, in thousandths.
pub const FULL_TRUST: u32 = 1000;

/// One recorded incident: when (seconds), and how much it costs the score
/// (thousandths).
#[derive(Clone, Debug)]
pub struct Incident {
    pub timestamp: u64,
    pub severity: u32,
    pub reason: String,
}

/// The trust held in one address: score in thousandths (1000 = fully
/// trusted), the time it was last recomputed, and its incidents.
pub struct ReputationScore {
    pub score: u32,
    pub last_updated: u64,
    pub incidents: Vec<Incident>,
}

/// The incident counts at `now`: it is less than an hour old (or dated later).
pub open spec fn recent(i: Incident, now: u64) -> bool {
    !(now >= i.timestamp && now - i.timestamp >= INCIDENT_WINDOW_SECS)
}

/// Sum of the severities of the incidents that count at `now`.
pub open spec fn penalty(s: Seq<Incident>, now: u64) -> nat
    decreases s.len(),
{
    if s.len() == 0 {
        0
    } else {
        penalty(s.drop_last(), now) + if recent(s.last(), now) { s.last().severity as nat } else { 0nat }
    }
}

/// `max(0, 1000 - penalty)`: the score of an address with incidents `s` at `now`.
pub open spec fn score_at(s: Seq<Incident>, now: u64) -> nat {
    if penalty(s, now) >= FULL_TRUST { 0 } else { (FULL_TRUST - penalty(s, now)) as nat }
}

/// Reputation records keyed by IPv4 number.
pub type ScoreTable = DashMap<u32, ReputationScore>;

/// The entries of a reputation table.
pub uninterp spec fn score_entries(m: ScoreTable) -> Map<u32, ReputationScore>;

/// Relies on `DashMap::new`: an empty map.
#[verifier::external_body]
fn score_table_new() -> (r: ScoreTable)
    ensures
        score_entries(r).dom() == Set::<u32>::empty(),
{
    DashMap::new()
}

/// Relies on `DashMap::remove`: the key's entry is taken out and its value
/// returned, if there was one.
#[verifier::external_body]
fn score_table_remove(m: &mut ScoreTable, addr: u32) -> (r: Option<ReputationScore>)
    ensures
        r == (if score_entries(*old(m)).dom().contains(addr) {
            Some(score_entries(*old(m))[addr])
        } else {
            None::<ReputationScore>
        }),
        score_entries(*final(m)) == score_entries(*old(m)).remove(addr),
{
    m.remove(&addr).map(|(_, v)| v)
}

/// Relies on `DashMap::insert`: the key now maps to the value, other
/// entries stay.
#[verifier::external_body]
fn score_table_insert(m: &mut ScoreTable, addr: u32, v: ReputationScore)
    ensures
        score_entries(*final(m)) == score_entries(*old(m)).insert(addr, v),
{
    m.insert(addr, v);
}

/// Reputation of every address seen in an incident, keyed by IPv4 number.
pub struct ReputationTracker {
    pub scores: ScoreTable,
}

impl ReputationTracker {
    pub open spec fn wf(&self) -> bool {
        forall|a: u32| #[trigger] score_entries(self.scores).dom().contains(a) ==>
            score_entries(self.scores)[a].score == score_at(score_entries(self.scores)[a].incidents@, score_entries(self.scores)[a].last_updated)
    }

    pub open spec fn has(&self, addr: u32) -> bool {
        score_entries(self.scores).dom().contains(addr)
    }

    pub open spec fn entry(&self, addr: u32) -> ReputationScore
        recommends
            self.has(addr),
    {
        score_entries(self.scores)[addr]
    }

    /// Incidents recorded for `addr` (none for an address never seen).
    pub open spec fn incidents_of(&self, addr: u32) -> Seq<Incident> {
        if self.has(addr) { self.entry(addr).incidents@ } else { Seq::empty() }
    }

    /// The score stored for `addr`, or full trust for an address never seen.
    pub open spec fn stored_score(&self, addr: u32) -> nat {
        if self.has(addr) { self.entry(addr).score as nat } else { FULL_TRUST as nat }
    }

    /// The score of `addr` as of `now`.
    pub open spec fn reputation_at(&self, addr: u32, now: u64) -> nat {
        score_at(self.incidents_of(addr), now)
    }

    pub fn new() -> (r: Self)
        ensures
            r.wf(),
            score_entries(r.scores).dom() == Set::<u32>::empty(),
    {
        ReputationTracker { scores: score_table_new() }
    }

    /// Reputation of `addr` at `now` in thousandths: full trust less the
    /// severities of the incidents of the last hour, never below 0; full
    /// trust for an address never seen. The entry is taken out to be read
    /// and put back unchanged.
    pub fn get_reputation(&mut self, addr: u32, now: u64) -> (r: u32)
        requires
            old(self).wf(),
        ensures
            final(self).wf(),
            score_entries(final(self).scores) == score_entries(old(self).scores),
            r == old(self).reputation_at(addr, now),
            r <= FULL_TRUST,
    {
        proof {
            lemma_score_bounds(self.incidents_of(addr), now);
        }
        match score_table_remove(&mut self.scores, addr) {
            Some(entry) => {
                let r = calculate_score(&entry.incidents, now);
                let ghost e = entry;
                score_table_insert(&mut self.scores, addr, entry);
                proof {
                    assert(score_entries(self.scores) =~= score_entries(old(self).scores));
                }
                r
            },
            None => {
                proof {
                    assert(score_entries(self.scores) =~= score_entries(old(self).scores));
                }
                FULL_TRUST
            },
        }
    }

    /// Appends an incident to `addr`'s history (creating it on the first
    /// incident) and recomputes its score at the incident's time.
    pub fn update_reputation(&mut self, addr: u32, incident: Incident)
        requires
            old(self).wf(),
        ensures
            final(self).wf(),
            final(self).incidents_of(addr) == old(self).incidents_of(addr).push(incident),
            final(self).stored_score(addr) == score_at(final(self).incidents_of(addr), incident.timestamp),
            forall|a: u32| a != addr ==> final(self).incidents_of(a) == old(self).incidents_of(a)
                && final(self).stored_score(a) == old(self).stored_score(a),
    {
        let now = incident.timestamp;
        let mut entry = match score_table_remove(&mut self.scores, addr) {
            Some(e) => e,
            None => ReputationScore { score: FULL_TRUST, last_updated: now, incidents: Vec::new() },
        };
        let ghost before = entry.incidents@;
        proof {
            assert(before == old(self).incidents_of(addr));
        }
        entry.incidents.push(incident);
        entry.score = calculate_score(&entry.incidents, now);
        entry.last_updated = now;
        score_table_insert(&mut self.scores, addr, entry);
        proof {
            assert forall|a: u32| #[trigger] score_entries(self.scores).dom().contains(a) implies
                score_entries(self.scores)[a].score == score_at(score_entries(self.scores)[a].incidents@, score_entries(self.scores)[a].last_updated) by {
                if a != addr {
                    assert(score_entries(old(self).scores).dom().contains(a));
                }
            }
            assert forall|a: u32| a != addr implies self.incidents_of(a) == old(self).incidents_of(a)
                && self.stored_score(a) == old(self).stored_score(a) by {
                assert(self.has(a) == old(self).has(a));
            }
        }
    }
}

/// `max(0, 1000 - sum of the severities of the last hour's incidents)`.
pub fn calculate_score(incidents: &Vec<Incident>, now: u64) -> (r: u32)
    ensures
        r == score_at(incidents@, now),
{
    let mut acc: u32 = 0;
    let mut i: usize = 0;
    while i < incidents.len()
        invariant
            0 <= i <= incidents@.len(),
            acc == if penalty(incidents@.subrange(0, i as int), now) >= FULL_TRUST {
                FULL_TRUST as nat
            } else {
                penalty(incidents@.subrange(0, i as int), now)
            },
        decreases incidents@.len() - i,
    {
        let inc = &incidents[i];
        assert(incidents@.subrange(0, i as int + 1).drop_last() =~= incidents@.subrange(0, i as int));
        if !(now >= inc.timestamp && now - inc.timestamp >= INCIDENT_WINDOW_SECS) {
            if inc.severity >= FULL_TRUST - acc {
                acc = FULL_TRUST;
            } else {
                acc = acc + inc.severity;
            }
        }
        i = i + 1;
    }
    assert(incidents@.subrange(0, incidents@.len() as int) =~= incidents@);
    FULL_TRUST - acc
}

/// A score is always between 0 and full trust.
pub proof fn lemma_score_bounds(s: Seq<Incident>, now: u64)
    ensures
        0 <= score_at(s, now) <= FULL_TRUST,
{
}

/// Recording one more incident never raises an address's score at any given
/// time, and the score stays between 0 and full trust.
pub proof fn lemma_incident_never_raises(s: Seq<Incident>, incident: Incident, now: u64)
    ensures
        score_at(s.push(incident), now) <= score_at(s, now),
        0 <= score_at(s.push(incident), now) <= FULL_TRUST,
{
    assert(s.push(incident).drop_last() =~= s);
}

/// Recording an incident for an address never raises that address's
/// score as of any time, and every score stays between 0 and full trust.
pub proof fn lemma_update_never_raises(
    before: ReputationTracker,
    after: ReputationTracker,
    addr: u32,
    incident: Incident,
    now: u64,
)
    requires
        before.wf(),
        after.wf(),
        after.incidents_of(addr) == before.incidents_of(addr).push(incident),
    ensures
        after.reputation_at(addr, now) <= before.reputation_at(addr, now),
        after.reputation_at(addr, now) <= FULL_TRUST,
        after.stored_score(addr) <= FULL_TRUST,
{
    lemma_incident_never_raises(before.incidents_of(addr), incident, now);
    if after.has(addr) {
        lemma_score_bounds(after.entry(addr).incidents@, after.entry(addr).last_updated);
    }
}

} // verus!
