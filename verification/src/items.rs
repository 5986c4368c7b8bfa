//! The sole entity of the service: an item with an optional identifier, a
//! name and a description. The identifier is absent on client-submitted
//! create payloads and present on every stored record.

use vstd::prelude::*;

use crate::ids::ItemId;

verus! {

/// The mathematical value of an `Item`.
pub ghost struct ItemView {
    pub id: Option<Seq<u8>>,
    pub name: Seq<char>,
    pub description: Seq<char>,
}

/// One item: an optional store-assigned identifier and two free-form text
/// fields. Empty strings are permitted in both text fields.
pub struct Item {
    pub id: Option<ItemId>,
    pub name: String,
    pub description: String,
}

impl View for Item {
    type V = ItemView;

    open spec fn view(&self) -> ItemView {
        ItemView {
            id: match self.id {
                Some(i) => Some(i@),
                None => None,
            },
            name: self.name@,
            description: self.description@,
        }
    }
}

impl Clone for Item {
    /// A clone denotes the same record.
    fn clone(&self) -> (r: Self)
        ensures
            r@ == self@,
    {
        Item {
            id: match &self.id {
                Some(i) => Some(i.clone()),
                None => None,
            },
            name: self.name.clone(),
            description: self.description.clone(),
        }
    }
}

} // verus!
