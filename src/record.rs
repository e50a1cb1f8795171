//! The directory record: one tribal government, five text fields.
use crate::text::views;
use vstd::prelude::*;

verus! {

/// One entry of the directory. An absent piece of data is an empty string, so a
/// record always has all five fields.
#[derive(Debug, PartialEq, Eq)]
pub struct Nation {
    /// Name of the nation, without its region qualifier.
    pub nation: String,
    /// Region qualifier that followed the name in brackets.
    pub region: String,
    /// Recognition status, `Federal` or `State`.
    pub recognition: String,
    /// Street, city, state and zip.
    pub address: String,
    /// Address of the nation's website.
    pub website: String,
}

impl Nation {
    /// The five fields in table order: nation, region, recognition, address, website.
    pub open spec fn fields(self) -> Seq<Seq<char>> {
        seq![self.nation@, self.region@, self.recognition@, self.address@, self.website@]
    }

    /// A field-for-field copy.
    pub fn duplicate(&self) -> (r: Nation)
        ensures
            r == *self,
    {
        Nation {
            nation: self.nation.clone(),
            region: self.region.clone(),
            recognition: self.recognition.clone(),
            address: self.address.clone(),
            website: self.website.clone(),
        }
    }

    /// The record as a table row.
    pub fn to_row(&self) -> (r: Vec<String>)
        ensures
            views(r@) == self.fields(),
    {
        let r = vec![
            self.nation.clone(),
            self.region.clone(),
            self.recognition.clone(),
            self.address.clone(),
            self.website.clone(),
        ];
        assert(views(r@) =~= self.fields());
        r
    }
}

} // verus!
