//! A table from version identifiers to texts, held in a hash map under the
//! versions' integer keys.

use crate::version::{key_spec, lemma_key_bound, lemma_key_injective, GodotVersion};
use std::collections::HashMap;
use vstd::std_specs::hash::spec_hash_map_iter;
use vstd::std_specs::iter::IteratorSpec;
use vstd::prelude::*;

verus! {

/// A finite map from versions to texts with at most one entry per version.
pub struct VersionTable {
    entries: HashMap<u64, (GodotVersion, String)>,
}

impl View for VersionTable {
    type V = Map<GodotVersion, Seq<char>>;

    /// The text filed under each version.
    closed spec fn view(&self) -> Map<GodotVersion, Seq<char>> {
        Map::new(
            |v: GodotVersion| self.entries@.contains_key(key_spec(v) as u64),
            |v: GodotVersion| self.entries@[key_spec(v) as u64].1@,
        )
    }
}

impl VersionTable {
    /// Every entry is filed under the key of the version it holds.
    pub closed spec fn wf(&self) -> bool {
        forall|k: u64| #[trigger]
            self.entries@.contains_key(k) ==> key_spec(self.entries@[k].0) == k
    }

    /// An empty table.
    pub fn new() -> (t: VersionTable)
        ensures
            t.wf(),
            t@ == Map::<GodotVersion, Seq<char>>::empty(),
    {
        let t = VersionTable { entries: HashMap::new() };
        assert(t@ =~= Map::<GodotVersion, Seq<char>>::empty());
        t
    }

    /// Whether the table has an entry for `version`.
    pub fn contains(&self, version: &GodotVersion) -> (b: bool)
        requires
            self.wf(),
        ensures
            b == self@.contains_key(*version),
    {
        let k = version.key();
        self.entries.contains_key(&k)
    }

    /// The text filed under `version`, if there is one.
    pub fn get(&self, version: &GodotVersion) -> (r: Option<&String>)
        requires
            self.wf(),
        ensures
            match r {
                Some(text) => self@.contains_key(*version) && text@ == self@[*version],
                None => !self@.contains_key(*version),
            },
    {
        let k = version.key();
        match self.entries.get(&k) {
            Some(entry) => Some(&entry.1),
            None => None,
        }
    }

    /// Files `text` under `version`, in place of what was filed there.
    pub fn insert(&mut self, version: GodotVersion, text: String)
        requires
            old(self).wf(),
        ensures
            final(self).wf(),
            final(self)@ == old(self)@.insert(version, text@),
    {
        let k = version.key();
        self.entries.insert(k, (version, text));
        proof {
            assert forall|v: GodotVersion|
                key_spec(v) as u64 == k implies v == version by {
                lemma_key_bound(v);
                lemma_key_bound(version);
                lemma_key_injective(v, version);
            }
            assert(self@ =~= old(self)@.insert(version, text@));
        }
    }

    /// All entries, each version once, in no particular order.
    pub fn entries(&self) -> (list: Vec<(GodotVersion, String)>)
        requires
            self.wf(),
        ensures
            lists(list@, self@),
    {
        let mut list: Vec<(GodotVersion, String)> = Vec::new();
        let ghost seq = spec_hash_map_iter(&self.entries).remaining();
        let ghost table = self@;
        proof {
            assert forall|i: int| 0 <= i < seq.len() implies table.contains_key(
                (#[trigger] seq[i]).1.0,
            ) && table[seq[i].1.0] == seq[i].1.1@ by {
                let k = *seq[i].0;
                assert(self.entries@.contains_key(k));
                lemma_key_bound(seq[i].1.0);
            }
            assert forall|v: GodotVersion| #[trigger] table.contains_key(v) implies exists|i: int|
                0 <= i < seq.len() && (#[trigger] seq[i]).1.0 == v by {
                let k = key_spec(v) as u64;
                assert(self.entries@.contains_key(k));
                let pair = (&k, &self.entries@[k]);
                assert(seq.contains(pair));
                let i = choose|i: int| 0 <= i < seq.len() && seq[i] == pair;
                lemma_key_bound(v);
                lemma_key_bound(seq[i].1.0);
                lemma_key_injective(seq[i].1.0, v);
            }
        }
        for pair in it: self.entries.iter()
            invariant
                it.seq() == seq,
                seq.no_duplicates(),
                list@.len() == it.index(),
                forall|i: int|
                    0 <= i < list@.len() ==> (#[trigger] list@[i]).0 == seq[i].1.0 && list@[i].1@
                        == seq[i].1.1@,
        {
            let (_, entry) = pair;
            list.push((entry.0, entry.1.clone()));
        }
        proof {
            assert(list@.len() == seq.len());
            assert forall|i: int, j: int| 0 <= i < j < seq.len() implies (#[trigger] seq[i]).1.0
                != (#[trigger] seq[j]).1.0 by {
                if seq[i].1.0 == seq[j].1.0 {
                    let ki = *seq[i].0;
                    let kj = *seq[j].0;
                    assert(self.entries@.contains_key(ki));
                    assert(self.entries@.contains_key(kj));
                    assert(ki == kj);
                    assert(seq[i] == seq[j]);
                }
            }
            assert forall|v: GodotVersion| #[trigger] table.contains_key(v) implies exists|i: int|
                0 <= i < list@.len() && (#[trigger] list@[i]).0 == v by {
                let i = choose|i: int| 0 <= i < seq.len() && (#[trigger] seq[i]).1.0 == v;
                assert(list@[i].0 == v);
            }
        }
        list
    }
}

/// `list` holds exactly the entries of `table`, each version once.
pub open spec fn lists(list: Seq<(GodotVersion, String)>, table: Map<GodotVersion, Seq<char>>) -> bool {
    &&& forall|i: int|
        0 <= i < list.len() ==> table.contains_key((#[trigger] list[i]).0) && table[list[i].0]
            == list[i].1@
    &&& forall|v: GodotVersion| #[trigger]
        table.contains_key(v) ==> exists|i: int| 0 <= i < list.len() && (#[trigger] list[i]).0 == v
    &&& forall|i: int, j: int|
        0 <= i < j < list.len() ==> (#[trigger] list[i]).0 != (#[trigger] list[j]).0
}

} // verus!
