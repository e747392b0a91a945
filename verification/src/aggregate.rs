use vstd::prelude::*;
use crate::check::CheckResult;

verus! {

/// One failing target together with the error text its probe produced.
struct Entry {
    target: String,
    description: String,
}

/// The keys of a run of entries, in order.
spec fn keys_of(s: Seq<Entry>) -> Seq<Seq<char>> {
    s.map_values(|e: Entry| e.target@)
}

/// No two entries share a target.
spec fn unique_keys(s: Seq<Entry>) -> bool {
    forall|i: int, j: int| 0 <= i < j < s.len() ==> s[i].target@ != s[j].target@
}

/// The mapping that a run of entries denotes, inserted left to right.
spec fn map_of(s: Seq<Entry>) -> Map<Seq<char>, Seq<char>>
    decreases s.len(),
{
    if s.len() == 0 {
        Map::empty()
    } else {
        map_of(s.drop_last()).insert(s.last().target@, s.last().description@)
    }
}

proof fn lemma_map_of_dom(s: Seq<Entry>)
    ensures
        forall|k: Seq<char>| map_of(s).dom().contains(k) <==> keys_of(s).contains(k),
    decreases s.len(),
{
    if s.len() > 0 {
        lemma_map_of_dom(s.drop_last());
        assert forall|k: Seq<char>| map_of(s).dom().contains(k) <==> keys_of(s).contains(k) by {
            if map_of(s).dom().contains(k) {
                if k == s.last().target@ {
                    assert(keys_of(s)[s.len() - 1] == k);
                    assert(keys_of(s).contains(k));
                } else {
                    assert(map_of(s.drop_last()).dom().contains(k));
                    assert(keys_of(s.drop_last()).contains(k));
                    let i = choose|i: int|
                        0 <= i < keys_of(s.drop_last()).len() && keys_of(s.drop_last())[i] == k;
                    assert(keys_of(s)[i] == k);
                    assert(keys_of(s).contains(k));
                }
            }
            if keys_of(s).contains(k) {
                let i = choose|i: int| 0 <= i < keys_of(s).len() && keys_of(s)[i] == k;
                if i < s.len() - 1 {
                    assert(keys_of(s.drop_last())[i] == k);
                    assert(keys_of(s.drop_last()).contains(k));
                    assert(map_of(s.drop_last()).dom().contains(k));
                } else {
                    assert(k == s.last().target@);
                }
            }
        }
    }
}

/// Replacing the description of entry `i` (keeping its target) turns the
/// denoted map into an insert of the new description at that target.
proof fn lemma_map_of_update(s: Seq<Entry>, i: int, e: Entry)
    requires
        unique_keys(s),
        0 <= i < s.len(),
        e.target@ == s[i].target@,
    ensures
        map_of(s.update(i, e)) == map_of(s).insert(e.target@, e.description@),
    decreases s.len(),
{
    let t = s.update(i, e);
    if i == s.len() - 1 {
        assert(t.drop_last() =~= s.drop_last());
        assert(map_of(s).insert(e.target@, e.description@) =~= map_of(
            s.drop_last(),
        ).insert(e.target@, e.description@));
    } else {
        assert(t.drop_last() =~= s.drop_last().update(i, e));
        assert(unique_keys(s.drop_last()));
        lemma_map_of_update(s.drop_last(), i, e);
        assert(t.last() == s.last());
        assert(s.last().target@ != e.target@);
        assert(map_of(s.drop_last()).insert(e.target@, e.description@).insert(
            s.last().target@,
            s.last().description@,
        ) =~= map_of(s.drop_last()).insert(s.last().target@, s.last().description@).insert(
            e.target@,
            e.description@,
        ));
    }
}

/// Per-cycle mapping from failing target to error description: unique keys,
/// first-failure order, last write wins on a repeated target.
pub struct FailureSet {
    entries: Vec<Entry>,
}

impl FailureSet {
    /// The mapping this set denotes.
    pub closed spec fn view(&self) -> Map<Seq<char>, Seq<char>> {
        map_of(self.entries@)
    }

    /// The failing targets, in the order they were first recorded.
    pub closed spec fn key_seq(&self) -> Seq<Seq<char>> {
        keys_of(self.entries@)
    }

    /// Well-formed: one entry per target.
    pub closed spec fn wf(&self) -> bool {
        unique_keys(self.entries@)
    }

    /// The recorded targets are exactly the domain of the denoted map.
    pub proof fn lemma_key_seq_matches_dom(&self)
        ensures
            forall|k: Seq<char>| self@.dom().contains(k) <==> self.key_seq().contains(k),
    {
        lemma_map_of_dom(self.entries@);
    }

    pub fn new() -> (fs: FailureSet)
        ensures
            fs.wf(),
            fs@ == Map::<Seq<char>, Seq<char>>::empty(),
            fs.key_seq() == Seq::<Seq<char>>::empty(),
    {
        let fs = FailureSet { entries: Vec::new() };
        proof {
            assert(fs.key_seq() =~= Seq::<Seq<char>>::empty());
        }
        fs
    }

    /// Index of the entry for `target`, if one exists.
    fn find_index(&self, target: &String) -> (r: Option<usize>)
        ensures
            match r {
                Some(i) => i < self.entries@.len() && self.entries@[i as int].target@ == target@,
                None => !self.key_seq().contains(target@),
            },
    {
        let mut idx: usize = 0;
        while idx < self.entries.len()
            invariant
                idx <= self.entries@.len(),
                forall|i: int| 0 <= i < idx as int ==> (#[trigger] self.entries@[i]).target@ != target@,
            decreases self.entries@.len() - idx,
        {
            if self.entries[idx].target == *target {
                return Some(idx);
            }
            idx += 1;
        }
        proof {
            assert forall|i: int| 0 <= i < self.key_seq().len()
                implies self.key_seq()[i] != target@ by {
                assert(self.entries@[i].target@ != target@);
            }
        }
        None
    }

    /// Record a failure. A target already present keeps its place in the
    /// order but takes the new description: last write wins.
    pub fn insert(&mut self, target: String, description: String)
        requires
            old(self).wf(),
        ensures
            final(self).wf(),
            final(self)@ == old(self)@.insert(target@, description@),
            old(self).key_seq().contains(target@) ==> final(self).key_seq() == old(self).key_seq(),
            !old(self).key_seq().contains(target@) ==> final(self).key_seq() == old(
                self,
            ).key_seq().push(target@),
    {
        proof {
            self.lemma_key_seq_matches_dom();
        }
        let found = self.find_index(&target);
        match found {
            Some(i) => {
                let ghost old_entries = self.entries@;
                self.entries[i].description = description;
                proof {
                    let e = self.entries@[i as int];
                    assert(self.entries@ =~= old_entries.update(i as int, e));
                    lemma_map_of_update(old_entries, i as int, e);
                    assert(self.key_seq() =~= old(self).key_seq());
                    assert(old(self).key_seq()[i as int] == target@);
                }
            },
            None => {
                let ghost old_entries = self.entries@;
                self.entries.push(Entry { target, description });
                proof {
                    assert(self.entries@.drop_last() =~= old_entries);
                    assert(self.key_seq() =~= old(self).key_seq().push(
                        self.entries@.last().target@,
                    ));
                    assert forall|i: int, j: int| 0 <= i < j < self.entries@.len()
                        implies self.entries@[i].target@ != self.entries@[j].target@ by {
                        if j == self.entries@.len() - 1 {
                            assert(old(self).key_seq()[i] == self.entries@[i].target@);
                        }
                    }
                }
            },
        }
    }

    /// How many targets failed this cycle.
    pub fn len(&self) -> (n: usize)
        ensures
            n == self.key_seq().len(),
    {
        self.entries.len()
    }

    /// Healthy cycle: nothing failed.
    pub fn is_empty(&self) -> (r: bool)
        ensures
            r <==> self.key_seq().len() == 0,
            r <==> self@ == Map::<Seq<char>, Seq<char>>::empty(),
    {
        proof {
            self.lemma_key_seq_matches_dom();
            if self.key_seq().len() == 0 {
                assert(self@ =~= Map::<Seq<char>, Seq<char>>::empty());
            } else {
                assert(self.key_seq().contains(self.key_seq()[0]));
                assert(self@.dom().contains(self.key_seq()[0]));
            }
        }
        self.entries.len() == 0
    }

    /// The failing targets, in recorded order.
    pub fn targets(&self) -> (v: Vec<String>)
        ensures
            v@.map_values(|s: String| s@) == self.key_seq(),
    {
        let mut v: Vec<String> = Vec::new();
        let mut idx: usize = 0;
        while idx < self.entries.len()
            invariant
                idx <= self.entries@.len(),
                v@.len() == idx,
                forall|i: int| 0 <= i < idx as int ==> (#[trigger] v@[i])@ == self.entries@[i].target@,
            decreases self.entries@.len() - idx,
        {
            v.push(self.entries[idx].target.clone());
            idx += 1;
        }
        proof {
            assert(v@.map_values(|s: String| s@) =~= self.key_seq());
        }
        v
    }

    /// The recorded description for a target, if that target failed.
    pub fn get(&self, target: &String) -> (r: Option<&String>)
        requires
            self.wf(),
        ensures
            match r {
                Some(d) => self@.dom().contains(target@) && d@ == self@[target@],
                None => !self@.dom().contains(target@),
            },
    {
        proof {
            self.lemma_key_seq_matches_dom();
        }
        let found = self.find_index(target);
        match found {
            Some(i) => {
                proof {
                    lemma_map_of_at(self.entries@, i as int);
                    assert(self.key_seq()[i as int] == target@);
                }
                Some(&self.entries[i].description)
            },
            None => None,
        }
    }
}

/// With unique keys, the map takes each entry to its own description.
proof fn lemma_map_of_at(s: Seq<Entry>, i: int)
    requires
        unique_keys(s),
        0 <= i < s.len(),
    ensures
        map_of(s).dom().contains(s[i].target@),
        map_of(s)[s[i].target@] == s[i].description@,
    decreases s.len(),
{
    lemma_map_of_dom(s);
    assert(keys_of(s)[i] == s[i].target@);
    if i == s.len() - 1 {
    } else {
        assert(unique_keys(s.drop_last()));
        lemma_map_of_at(s.drop_last(), i);
        assert(s.last().target@ != s[i].target@);
    }
}

/// The mapping from failing target to error description that a result
/// sequence denotes: failures only, later results overwrite earlier ones.
pub open spec fn failure_map(results: Seq<CheckResult>) -> Map<Seq<char>, Seq<char>>
    decreases results.len(),
{
    if results.len() == 0 {
        Map::empty()
    } else {
        let rest = failure_map(results.drop_last());
        let last = results.last();
        if last.is_failure() {
            rest.insert(last.target@, last.description_view())
        } else {
            rest
        }
    }
}

/// The failing targets in first-failure order: a target failing twice keeps
/// its first position.
pub open spec fn failure_keys(results: Seq<CheckResult>) -> Seq<Seq<char>>
    decreases results.len(),
{
    if results.len() == 0 {
        Seq::empty()
    } else {
        let rest = failure_keys(results.drop_last());
        let last = results.last();
        if last.is_failure() && !rest.contains(last.target@) {
            rest.push(last.target@)
        } else {
            rest
        }
    }
}

/// Law: a cycle in which every probe succeeded denotes an empty failure set.
pub proof fn lemma_all_success_empty(results: Seq<CheckResult>)
    requires
        forall|i: int| 0 <= i < results.len() ==> !(#[trigger] results[i]).is_failure(),
    ensures
        failure_map(results) == Map::<Seq<char>, Seq<char>>::empty(),
        failure_keys(results) == Seq::<Seq<char>>::empty(),
    decreases results.len(),
{
    if results.len() > 0 {
        assert(!results[results.len() - 1].is_failure());
        lemma_all_success_empty(results.drop_last());
    }
}

/// Law: the failure set's keys are exactly the targets of the failing
/// results — no failing target is dropped, no healthy target appears.
pub proof fn lemma_failure_map_domain(results: Seq<CheckResult>)
    ensures
        forall|t: Seq<char>|
            failure_map(results).dom().contains(t) <==> exists|i: int|
                0 <= i < results.len() && (#[trigger] results[i]).is_failure()
                    && results[i].target@ == t,
    decreases results.len(),
{
    if results.len() > 0 {
        lemma_failure_map_domain(results.drop_last());
        assert forall|t: Seq<char>|
            failure_map(results).dom().contains(t) <==> exists|i: int|
                0 <= i < results.len() && (#[trigger] results[i]).is_failure()
                    && results[i].target@ == t by {
            let rest = failure_map(results.drop_last());
            let last = results.last();
            if failure_map(results).dom().contains(t) {
                if last.is_failure() && t == last.target@ {
                    assert(results[results.len() - 1].is_failure() && results[results.len()
                        - 1].target@ == t);
                } else {
                    assert(rest.dom().contains(t));
                    let i = choose|i: int|
                        0 <= i < results.drop_last().len() && (#[trigger] results.drop_last()[i]).is_failure()
                            && results.drop_last()[i].target@ == t;
                    assert(results[i].is_failure() && results[i].target@ == t);
                }
            }
            if exists|i: int|
                0 <= i < results.len() && (#[trigger] results[i]).is_failure()
                    && results[i].target@ == t {
                let i = choose|i: int|
                    0 <= i < results.len() && (#[trigger] results[i]).is_failure()
                        && results[i].target@ == t;
                if i < results.len() - 1 {
                    assert(results.drop_last()[i].is_failure() && results.drop_last()[i].target@
                        == t);
                    assert(rest.dom().contains(t));
                }
                assert(failure_map(results).dom().contains(t));
            }
        }
    }
}

/// Law: last write wins. If result `j` failed and no later result for the
/// same target failed, the failure set maps that target to result `j`'s
/// description.
pub proof fn lemma_last_write_wins(results: Seq<CheckResult>, j: int)
    requires
        0 <= j < results.len(),
        results[j].is_failure(),
        forall|k: int|
            j < k < results.len() && (#[trigger] results[k]).target@ == results[j].target@
                ==> !results[k].is_failure(),
    ensures
        failure_map(results).dom().contains(results[j].target@),
        failure_map(results)[results[j].target@] == results[j].description_view(),
    decreases results.len(),
{
    let t = results[j].target@;
    if j < results.len() - 1 {
        assert forall|k: int|
            j < k < results.drop_last().len() && (#[trigger] results.drop_last()[k]).target@
                == results.drop_last()[j].target@ implies !results.drop_last()[k].is_failure() by {
            assert(results[k].target@ == results[j].target@);
        }
        lemma_last_write_wins(results.drop_last(), j);
        let last = results.last();
        if last.is_failure() {
            assert(results[results.len() - 1].is_failure());
            assert(last.target@ != t);
        }
    }
}

/// Law: `aggregate` is deterministic and idempotent. Its contract pins both
/// the denoted map and the key order as functions of the input results
/// alone, so any two calls on equal inputs agree.
pub proof fn lemma_aggregate_deterministic(results: Seq<CheckResult>, a: FailureSet, b: FailureSet)
    requires
        a@ == failure_map(results),
        a.key_seq() == failure_keys(results),
        b@ == failure_map(results),
        b.key_seq() == failure_keys(results),
    ensures
        a@ == b@,
        a.key_seq() == b.key_seq(),
{
}

/// Reduce one cycle's results to its failure set: exactly the failing
/// targets, each with the description of its (last) failing probe, in
/// first-failure order. A pure function of the input.
pub fn aggregate(results: &Vec<CheckResult>) -> (fs: FailureSet)
    ensures
        fs.wf(),
        fs@ == failure_map(results@),
        fs.key_seq() == failure_keys(results@),
{
    let mut fs = FailureSet::new();
    let mut idx: usize = 0;
    while idx < results.len()
        invariant
            idx <= results@.len(),
            fs.wf(),
            fs@ == failure_map(results@.take(idx as int)),
            fs.key_seq() == failure_keys(results@.take(idx as int)),
        decreases results@.len() - idx,
    {
        let ghost prefix = results@.take(idx as int);
        proof {
            fs.lemma_key_seq_matches_dom();
            assert(results@.take(idx + 1).drop_last() =~= prefix);
            assert(results@.take(idx + 1).last() == results@[idx as int]);
        }
        let r = &results[idx];
        match &r.outcome {
            crate::check::Outcome::Failure { description, .. } => {
                fs.insert(r.target.clone(), description.clone());
            },
            crate::check::Outcome::Success { .. } => {},
        }
        idx += 1;
    }
    proof {
        assert(results@.take(results@.len() as int) =~= results@);
    }
    fs
}

} // verus!
