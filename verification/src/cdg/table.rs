//! The result of stratification: a table from claim ids to strata.

use vstd::prelude::*;
use crate::cdg::types::ClaimStratum;

verus! {

/// A finite map from claim ids to strata, in which every id stands once.
///
/// The entries keep the order in which the ids were entered.
pub struct StratumTable {
    ids: Vec<String>,
    strata: Vec<ClaimStratum>,
}

impl StratumTable {
    #[verifier::type_invariant]
    spec fn well_formed(&self) -> bool {
        &&& self.ids.len() == self.strata.len()
        &&& forall|i: int, j: int|
            0 <= i < j < self.ids.len() ==> (#[trigger] self.ids[i])@ != (#[trigger] self.ids[j])@
    }

    /// The ids of the entries, in order.
    pub closed spec fn ids(&self) -> Seq<Seq<char>> {
        Seq::new(self.ids.len() as nat, |i: int| self.ids[i]@)
    }

    /// The strata of the entries, in order.
    pub closed spec fn strata(&self) -> Seq<ClaimStratum> {
        self.strata@
    }

    /// The table as a map: each id of an entry, with the stratum of the first
    /// entry that holds it.
    pub open spec fn view(&self) -> Map<Seq<char>, ClaimStratum> {
        Map::new(
            |id: Seq<char>| self.ids().contains(id),
            |id: Seq<char>| self.strata()[self.ids().index_of(id)],
        )
    }

    /// In a table that is well formed no id stands twice, every entry has
    /// its stratum, and the stratum that the table gives an id is that of the
    /// entry of the id.
    proof fn lemma_entries(self)
        requires
            self.well_formed(),
        ensures
            self.ids().no_duplicates(),
            self.ids().len() == self.strata().len(),
            forall|p: int|
                0 <= p < self.ids().len() ==> self@.contains_key(#[trigger] self.ids()[p]) && self@[self.ids()[p]]
                    == self.strata()[p],
    {
        assert forall|i: int, j: int|
            0 <= i < self.ids().len() && 0 <= j < self.ids().len() && i != j implies self.ids()[i]
            != self.ids()[j] by {
            if i < j {
                assert(self.ids[i]@ != self.ids[j]@);
            } else {
                assert(self.ids[j]@ != self.ids[i]@);
            }
        }
        assert forall|p: int| 0 <= p < self.ids().len() implies self@.contains_key(
            #[trigger] self.ids()[p],
        ) && self@[self.ids()[p]] == self.strata()[p] by {
            let id = self.ids()[p];
            assert(self.ids().contains(id));
            let first = self.ids().index_of(id);
            assert(self.ids()[first] == id);
        }
    }

    /// A table without entries.
    pub fn new() -> (table: Self)
        ensures
            table.ids() == Seq::<Seq<char>>::empty(),
            table.strata() == Seq::<ClaimStratum>::empty(),
            table@ == Map::<Seq<char>, ClaimStratum>::empty(),
            table.ids().no_duplicates(),
    {
        let table = StratumTable { ids: Vec::new(), strata: Vec::new() };
        assert(table.ids() =~= Seq::<Seq<char>>::empty());
        assert(table@ =~= Map::<Seq<char>, ClaimStratum>::empty());
        table
    }

    /// The number of entries: one for each id of the table.
    pub fn len(&self) -> (n: usize)
        ensures
            n == self.ids().len(),
            n == self.strata().len(),
            n == self@.dom().len(),
            self.ids().no_duplicates(),
    {
        proof {
            use_type_invariant(self);
            self.lemma_entries();
            self.ids().unique_seq_to_set();
            assert(self@.dom() =~= self.ids().to_set());
        }
        self.ids.len()
    }

    /// The id of the entry at `position`.
    pub fn id_at(&self, position: usize) -> (id: &String)
        requires
            position < self.ids().len(),
        ensures
            id@ == self.ids()[position as int],
            self@.contains_key(id@),
    {
        proof {
            use_type_invariant(self);
            self.lemma_entries();
        }
        &self.ids[position]
    }

    /// The stratum of the entry at `position`: the stratum that the table
    /// gives the id at that position.
    pub fn stratum_at(&self, position: usize) -> (stratum: ClaimStratum)
        requires
            position < self.strata().len(),
        ensures
            stratum == self.strata()[position as int],
            stratum == self@[self.ids()[position as int]],
    {
        proof {
            use_type_invariant(self);
            self.lemma_entries();
        }
        self.strata[position]
    }

    /// The stratum of the claim `id`; nothing where the table does not hold
    /// the id.
    pub fn get(&self, id: &str) -> (stratum: Option<ClaimStratum>)
        ensures
            stratum == if self@.contains_key(id@) {
                Some(self@[id@])
            } else {
                None
            },
    {
        proof {
            use_type_invariant(self);
        }
        let wanted: String = id.to_owned();
        let mut i: usize = 0;
        while i < self.ids.len()
            invariant
                i <= self.ids.len(),
                self.well_formed(),
                wanted@ == id@,
                forall|j: int| 0 <= j < i ==> self.ids()[j] != id@,
            decreases self.ids.len() - i,
        {
            if self.ids[i] == wanted {
                proof {
                    assert(self.ids()[i as int] == id@);
                    let first = self.ids().index_of(id@);
                    assert(self.ids()[first] == id@);
                    if first != i as int {
                        if first < i {
                            assert(self.ids[first]@ != self.ids[i as int]@);
                        } else {
                            assert(self.ids[i as int]@ != self.ids[first]@);
                        }
                    }
                }
                return Some(self.strata[i]);
            }
            i += 1;
        }
        None
    }

    /// The table with one entry more. The id must not yet stand in the table.
    pub fn with_entry(self, id: String, stratum: ClaimStratum) -> (table: Self)
        requires
            !self.ids().contains(id@),
        ensures
            table.ids() == self.ids().push(id@),
            table.strata() == self.strata().push(stratum),
            table@ == self@.insert(id@, stratum),
            table.ids().no_duplicates(),
            table.ids().len() == table.strata().len(),
    {
        proof {
            use_type_invariant(&self);
        }
        let ghost before = self;
        let ghost name = id@;
        let mut ids = self.ids;
        let mut strata = self.strata;
        ids.push(id);
        strata.push(stratum);
        proof {
            assert forall|i: int, j: int| 0 <= i < j < ids.len() implies (#[trigger] ids[i])@
                != (#[trigger] ids[j])@ by {
                if j == ids.len() - 1 {
                    assert(before.ids()[i] == ids[i]@);
                }
            }
        }
        let table = StratumTable { ids, strata };
        proof {
            table.lemma_entries();
            assert(table.ids() =~= before.ids().push(name));
            assert(table@ =~= before@.insert(name, stratum)) by {
                assert forall|other: Seq<char>| table.ids().contains(other) <==> (other == name
                    || before.ids().contains(other)) by {
                    if before.ids().contains(other) {
                        let p = choose|p: int| 0 <= p < before.ids().len() && before.ids()[p] == other;
                        assert(table.ids()[p] == other);
                    }
                    if other == name {
                        assert(table.ids()[table.ids().len() - 1] == other);
                    }
                }
                assert forall|other: Seq<char>| table.ids().contains(other) implies #[trigger] table@[other]
                    == before@.insert(name, stratum)[other] by {
                    let p = table.ids().index_of(other);
                    assert(table.ids()[p] == other);
                    if other != name {
                        let q = before.ids().index_of(other);
                        assert(before.ids()[q] == other);
                        assert(table.ids()[q] == other);
                        if p != q {
                            if p < q {
                                assert(table.ids[p]@ != table.ids[q]@);
                            } else {
                                assert(table.ids[q]@ != table.ids[p]@);
                            }
                        }
                    } else {
                        let last = table.ids().len() - 1;
                        if p != last {
                            assert(table.ids[p]@ != table.ids[last]@);
                        }
                    }
                }
            }
        }
        table
    }
}

} // verus!
