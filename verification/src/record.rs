//! The extracted record: receiver, description and code. Once built, a
//! record's three fields are never changed.

use vstd::prelude::*;

verus! {

/// One parcel record, either pre-loaded from the dataset (code typically
/// blank) or extracted live from a results row's detail view.
#[derive(Debug, PartialEq, Eq)]
pub struct ParcelRecord {
    pub receiver: String,
    pub description: String,
    pub code: String,
}

impl Clone for ParcelRecord {
    fn clone(&self) -> (res: Self)
        ensures
            res == *self,
    {
        ParcelRecord {
            receiver: self.receiver.clone(),
            description: self.description.clone(),
            code: self.code.clone(),
        }
    }
}

/// Mathematical model of a `ParcelRecord`: its fields as character sequences.
pub struct ParcelRecordModel {
    pub receiver: Seq<char>,
    pub description: Seq<char>,
    pub code: Seq<char>,
}

impl View for ParcelRecord {
    type V = ParcelRecordModel;

    open spec fn view(&self) -> ParcelRecordModel {
        ParcelRecordModel {
            receiver: self.receiver@,
            description: self.description@,
            code: self.code@,
        }
    }
}

impl DeepView for ParcelRecord {
    type V = ParcelRecordModel;

    open spec fn deep_view(&self) -> ParcelRecordModel {
        self.view()
    }
}

} // verus!
