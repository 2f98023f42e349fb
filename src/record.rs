//! Token records.
use vstd::prelude::*;

use crate::date::Date;

verus! {

/// One token: the region it serves, its value and the last date it can be used on.
#[derive(Debug)]
pub struct ARL {
    pub region: String,
    pub value: String,
    pub expiry: Date,
}

/// The mathematical value of an [`ARL`].
pub struct Record {
    pub region: Seq<char>,
    pub value: Seq<char>,
    pub expiry: Date,
}

impl View for ARL {
    type V = Record;

    open spec fn view(&self) -> Record {
        Record { region: self.region@, value: self.value@, expiry: self.expiry }
    }
}

/// The records that a sequence of [`ARL`]s holds.
pub open spec fn records_of(arls: Seq<ARL>) -> Seq<Record> {
    arls.map_values(|a: ARL| a@)
}

impl ARL {
    pub fn new(region: String, value: String, expiry: Date) -> (r: ARL)
        ensures
            r.region == region,
            r.value == value,
            r.expiry == expiry,
    {
        ARL { region, value, expiry }
    }

    /// A copy of this record.
    pub fn duplicate(&self) -> (r: ARL)
        ensures
            r@ == self@,
    {
        ARL { region: self.region.clone(), value: self.value.clone(), expiry: self.expiry }
    }
}

} // verus!
