//! The cached token records and the queries over them.
use itertools::Itertools;
use vstd::prelude::*;

use crate::record::{records_of, Record, ARL};

verus! {

/// The persisted state: when it must be fetched again, the digest of the document it came
/// from, and the records, in the order the document gives them.
#[derive(Debug)]
pub struct Data {
    /// Seconds since the Unix epoch after which the records are fetched again.
    pub expiry: i64,
    /// Lower-case hexadecimal SHA-256 digest of the last document read.
    pub sha256: String,
    pub arls: Vec<ARL>,
}

/// The mathematical value of a [`Data`].
pub struct DataView {
    pub expiry: int,
    pub sha256: Seq<char>,
    pub arls: Seq<Record>,
}

impl View for Data {
    type V = DataView;

    open spec fn view(&self) -> DataView {
        DataView { expiry: self.expiry as int, sha256: self.sha256@, arls: records_of(self.arls@) }
    }
}

/// The text of an optional region.
pub open spec fn selector_of(region: Option<String>) -> Option<Seq<char>> {
    match region {
        Some(r) => Some(r@),
        None => None,
    }
}

/// The strings of `s`, each kept at its first occurrence only, in order.
pub open spec fn distinct(s: Seq<Seq<char>>) -> Seq<Seq<char>>
    decreases s.len(),
{
    if s.len() == 0 {
        s
    } else {
        let d = distinct(s.drop_last());
        if d.contains(s.last()) {
            d
        } else {
            d.push(s.last())
        }
    }
}

/// The distinct regions of some records, in the order they first occur.
pub open spec fn regions_of(rs: Seq<Record>) -> Seq<Seq<char>> {
    distinct(rs.map_values(|r: Record| r.region))
}

/// The index of the first record at or after `i` whose region is `region`, or the number of
/// records if there is none.
pub open spec fn region_index_from(rs: Seq<Record>, region: Seq<char>, i: int) -> int
    decreases rs.len() - i,
{
    if i < 0 || i >= rs.len() {
        rs.len() as int
    } else if rs[i].region == region {
        i
    } else {
        region_index_from(rs, region, i + 1)
    }
}

/// The index of the record that a selector picks: the first one for no region, else the
/// first one of that region.
pub open spec fn selected(rs: Seq<Record>, sel: Option<Seq<char>>) -> Option<int> {
    match sel {
        None => if rs.len() > 0 {
            Some(0)
        } else {
            None
        },
        Some(r) => if region_index_from(rs, r, 0) < rs.len() {
            Some(region_index_from(rs, r, 0))
        } else {
            None
        },
    }
}

/// Why a lookup found no record.
#[derive(Debug)]
pub enum LookupError {
    /// There are no records at all.
    Empty,
    /// No record serves the region asked for; these are the regions that have one.
    NotFound(Vec<String>),
}

/// The mathematical outcome of a lookup.
pub enum Lookup {
    Found(Record),
    Empty,
    NotFound(Seq<Seq<char>>),
}

/// The outcome of a lookup in `rs` by a selector.
pub open spec fn lookup(rs: Seq<Record>, sel: Option<Seq<char>>) -> Lookup {
    match selected(rs, sel) {
        Some(i) => Lookup::Found(rs[i]),
        None => match sel {
            None => Lookup::Empty,
            Some(_) => Lookup::NotFound(regions_of(rs)),
        },
    }
}

/// The mathematical value of what [`Data::get`] returns.
pub open spec fn outcome(r: Result<ARL, LookupError>) -> Lookup {
    match r {
        Ok(a) => Lookup::Found(a@),
        Err(LookupError::Empty) => Lookup::Empty,
        Err(LookupError::NotFound(names)) => Lookup::NotFound(names@.map_values(|s: String| s@)),
    }
}

/// The records left once a selector's record is removed; unchanged if it picks none.
pub open spec fn removed(rs: Seq<Record>, sel: Option<Seq<char>>) -> Seq<Record> {
    match selected(rs, sel) {
        Some(i) => rs.remove(i),
        None => rs,
    }
}

/// Relies on `Itertools::unique`, which yields each item that was not yielded before, in the
/// order of its input.
#[verifier::external_body]
fn unique_strings(v: Vec<String>) -> (r: Vec<String>)
    ensures
        r@.map_values(|s: String| s@) == distinct(v@.map_values(|s: String| s@)),
{
    v.into_iter().unique().collect()
}

impl Data {
    /// The distinct regions of the records, in the order they first occur.
    pub fn regions(&self) -> (r: Vec<String>)
        ensures
            r@.map_values(|s: String| s@) == regions_of(self@.arls),
    {
        let mut names: Vec<String> = Vec::new();
        let mut i: usize = 0;
        while i < self.arls.len()
            invariant
                0 <= i <= self.arls.len(),
                names@.len() == i,
                forall|j: int| 0 <= j < i ==> #[trigger] names@[j]@ == self.arls@[j].region@,
            decreases self.arls.len() - i,
        {
            names.push(self.arls[i].region.clone());
            i = i + 1;
        }
        assert(names@.map_values(|s: String| s@) =~= self@.arls.map_values(|r: Record| r.region));
        unique_strings(names)
    }

    /// The index of the record that a selector picks.
    fn position(&self, region: &Option<String>) -> (r: Option<usize>)
        ensures
            match r {
                Some(i) => selected(self@.arls, selector_of(*region)) == Some(i as int),
                None => selected(self@.arls, selector_of(*region)) is None,
            },
    {
        match region {
            None => if self.arls.len() > 0 {
                Some(0)
            } else {
                None
            },
            Some(name) => {
                let ghost rs = self@.arls;
                let mut i: usize = 0;
                while i < self.arls.len()
                    invariant
                        rs == self@.arls,
                        selector_of(*region) == Some(name@),
                        0 <= i <= self.arls.len(),
                        region_index_from(rs, name@, 0) == region_index_from(rs, name@, i as int),
                    decreases self.arls.len() - i,
                {
                    assert(rs[i as int] == self.arls@[i as int]@);
                    if self.arls[i].region == *name {
                        assert(region_index_from(rs, name@, i as int) == i);
                        return Some(i);
                    }
                    i = i + 1;
                }
                None
            },
        }
    }

    /// The record that a selector picks: the first record for no region, else the first
    /// record of that region.
    pub fn get(&self, region: &Option<String>) -> (r: Result<ARL, LookupError>)
        ensures
            outcome(r) == lookup(self@.arls, selector_of(*region)),
    {
        match self.position(region) {
            Some(i) => Ok(self.arls[i].duplicate()),
            None => if region.is_none() {
                Err(LookupError::Empty)
            } else {
                Err(LookupError::NotFound(self.regions()))
            },
        }
    }

    /// Removes the record that a selector picks; does nothing if it picks none.
    pub fn invalidate(&mut self, region: Option<String>)
        ensures
            final(self)@.arls == removed(old(self)@.arls, selector_of(region)),
            final(self).expiry == old(self).expiry,
            final(self).sha256 == old(self).sha256,
    {
        match self.position(&region) {
            Some(i) => {
                let ghost before = self.arls@;
                self.arls.remove(i);
                assert(records_of(self.arls@) =~= records_of(before).remove(i as int));
            },
            None => {},
        }
    }
}

/// With records `[a, b, ...]`, the default record is `a`, and once it is invalidated it is `b`.
pub proof fn lemma_invalidate_default_advances(rs: Seq<Record>)
    requires
        rs.len() >= 2,
    ensures
        lookup(rs, None) == Lookup::Found(rs[0]),
        lookup(removed(rs, None), None) == Lookup::Found(rs[1]),
{
}

/// A lookup of a region that no record serves fails and lists exactly the regions that
/// have a record.
pub proof fn lemma_missing_region_lists_regions(rs: Seq<Record>, region: Seq<char>)
    requires
        forall|i: int| 0 <= i < rs.len() ==> rs[i].region != region,
    ensures
        lookup(rs, Some(region)) == Lookup::NotFound(regions_of(rs)),
{
    lemma_no_region_index(rs, region, 0);
}

proof fn lemma_no_region_index(rs: Seq<Record>, region: Seq<char>, i: int)
    requires
        0 <= i,
        forall|j: int| 0 <= j < rs.len() ==> rs[j].region != region,
    ensures
        region_index_from(rs, region, i) == rs.len(),
    decreases rs.len() - i,
{
    if i < rs.len() {
        lemma_no_region_index(rs, region, i + 1);
    }
}

} // verus!
