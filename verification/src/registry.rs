//! The registry: the record definitions known by name.

use crate::model::{RecordDefinition, RecordView};
use vstd::prelude::*;

verus! {

/// The views of a sequence of record definitions.
pub open spec fn records_view(records: Seq<RecordDefinition>) -> Seq<RecordView> {
    records.map_values(|r: RecordDefinition| r@)
}

/// Whether no two records of `s` have the same name.
pub open spec fn distinct_names(s: Seq<RecordView>) -> bool {
    forall|i: int, j: int| 0 <= i < j < s.len() ==> s[i].name != s[j].name
}

/// The map from name to record that the sequence `s` stands for; of two
/// records with one name the later one counts.
pub open spec fn records_map(s: Seq<RecordView>) -> Map<Seq<char>, RecordView>
    decreases s.len(),
{
    if s.len() == 0 {
        Map::empty()
    } else {
        records_map(s.drop_last()).insert(s.last().name, s.last())
    }
}

/// The map of a sequence holds exactly the names that occur in it, and is finite.
pub proof fn lemma_records_map_dom(s: Seq<RecordView>)
    ensures
        records_map(s).dom().finite(),
        forall|n: Seq<char>| #[trigger]
            records_map(s).contains_key(n) <==> exists|i: int|
                0 <= i < s.len() && #[trigger] s[i].name == n,
    decreases s.len(),
{
    if s.len() > 0 {
        let init = s.drop_last();
        lemma_records_map_dom(init);
        assert forall|n: Seq<char>| #[trigger]
            records_map(s).contains_key(n) <==> exists|i: int|
                0 <= i < s.len() && #[trigger] s[i].name == n by {
            if exists|i: int| 0 <= i < s.len() && #[trigger] s[i].name == n {
                let i = choose|i: int| 0 <= i < s.len() && #[trigger] s[i].name == n;
                if i < s.len() - 1 {
                    assert(init[i].name == n);
                }
            }
        }
    }
}

/// Where names are distinct, each record is found under its own name.
pub proof fn lemma_records_map_at(s: Seq<RecordView>, i: int)
    requires
        distinct_names(s),
        0 <= i < s.len(),
    ensures
        records_map(s).contains_key(s[i].name),
        records_map(s)[s[i].name] == s[i],
    decreases s.len(),
{
    if i < s.len() - 1 {
        let init = s.drop_last();
        assert(distinct_names(init));
        lemma_records_map_at(init, i);
    }
}

/// Where names are distinct, the map has as many entries as the sequence.
pub proof fn lemma_records_map_len(s: Seq<RecordView>)
    requires
        distinct_names(s),
    ensures
        records_map(s).dom().finite(),
        records_map(s).dom().len() == s.len(),
    decreases s.len(),
{
    lemma_records_map_dom(s);
    if s.len() > 0 {
        let init = s.drop_last();
        assert(distinct_names(init));
        lemma_records_map_len(init);
        lemma_records_map_dom(init);
    }
}

/// Replacing a record by one of the same name replaces its entry in the map.
pub proof fn lemma_records_map_update(s: Seq<RecordView>, i: int, r: RecordView)
    requires
        distinct_names(s),
        0 <= i < s.len(),
        s[i].name == r.name,
    ensures
        distinct_names(s.update(i, r)),
        records_map(s.update(i, r)) == records_map(s).insert(r.name, r),
    decreases s.len(),
{
    let u = s.update(i, r);
    let init = s.drop_last();
    if i == s.len() - 1 {
        assert(u.drop_last() =~= init);
    } else {
        assert(distinct_names(init));
        lemma_records_map_update(init, i, r);
        assert(u.drop_last() =~= init.update(i, r));
    }
}

/// The record definitions known by name. No two of them share a name.
pub struct Registry {
    records: Vec<RecordDefinition>,
}

impl View for Registry {
    type V = Map<Seq<char>, RecordView>;

    closed spec fn view(&self) -> Map<Seq<char>, RecordView> {
        records_map(records_view(self.records@))
    }
}

impl Registry {
    #[verifier::type_invariant]
    spec fn wf(self) -> bool {
        distinct_names(records_view(self.records@))
    }

    /// A registry holds finitely many records.
    pub proof fn lemma_finite(&self)
        ensures
            self@.dom().finite(),
    {
        lemma_records_map_dom(records_view(self.records@));
    }

    /// An empty registry.
    pub fn new() -> (registry: Registry)
        ensures
            registry@ == Map::<Seq<char>, RecordView>::empty(),
    {
        Registry { records: Vec::new() }
    }

    /// Finds the place of the record called `name`.
    fn position(&self, name: &String) -> (at: Option<usize>)
        ensures
            match at {
                Some(i) => i < self.records.len() && self.records[i as int].name@ == name@,
                None => !self@.contains_key(name@),
            },
    {
        let mut i: usize = 0;
        while i < self.records.len()
            invariant
                i <= self.records.len(),
                forall|k: int| 0 <= k < i ==> self.records[k].name@ != name@,
            decreases self.records.len() - i,
        {
            if self.records[i].name == *name {
                return Some(i);
            }
            i += 1;
        }
        proof {
            let s = records_view(self.records@);
            lemma_records_map_dom(s);
            if self@.contains_key(name@) {
                let k = choose|k: int| 0 <= k < s.len() && #[trigger] s[k].name == name@;
                assert(self.records[k].name@ == name@);
            }
        }
        None
    }

    /// Whether a record called `name` is known.
    pub fn contains(&self, name: &str) -> (known: bool)
        ensures
            known == self@.contains_key(name@),
    {
        self.get(name).is_some()
    }

    /// The record called `name`, if one is known.
    pub fn get(&self, name: &str) -> (found: Option<&RecordDefinition>)
        ensures
            match found {
                Some(record) => self@.contains_key(name@) && self@[name@] == record@,
                None => !self@.contains_key(name@),
            },
    {
        let key = name.to_owned();
        match self.position(&key) {
            Some(i) => {
                proof {
                    use_type_invariant(self);
                    let s = records_view(self.records@);
                    lemma_records_map_at(s, i as int);
                }
                Some(&self.records[i])
            },
            None => None,
        }
    }

    /// How many records are known.
    pub fn len(&self) -> (n: usize)
        ensures
            self@.dom().finite(),
            n == self@.dom().len(),
    {
        proof {
            use_type_invariant(self);
            lemma_records_map_len(records_view(self.records@));
        }
        self.records.len()
    }

    /// Adds `record` under its name; a record already known by that name is
    /// replaced.
    pub fn insert(&mut self, record: RecordDefinition)
        ensures
            final(self)@ == old(self)@.insert(record.name@, record@),
    {
        proof {
            use_type_invariant(&*self);
        }
        let ghost before = records_view(self.records@);
        let at = self.position(&record.name);
        let mut records: Vec<RecordDefinition> = Vec::new();
        std::mem::swap(&mut records, &mut self.records);
        match at {
            Some(i) => {
                proof {
                    lemma_records_map_update(before, i as int, record@);
                }
                records.set(i, record);
                assert(records_view(records@) =~= before.update(i as int, record@));
            },
            None => {
                proof {
                    lemma_records_map_dom(before);
                }
                records.push(record);
                let ghost after = records_view(records@);
                assert(after.drop_last() =~= before);
                assert forall|a: int, b: int| 0 <= a < b < after.len() implies after[a].name
                    != after[b].name by {
                    assert(after[a] == before[a]);
                    if b < before.len() {
                        assert(after[b] == before[b]);
                    }
                }
            },
        }
        self.records = records;
    }
}

} // verus!
