//! The document collection and its four operations.
//!
//! `Store` is the service's model of the backing collection: an ordered
//! sequence of records whose identifiers are all present, well formed and
//! pairwise distinct. The four operations mirror the service's routes:
//! create inserts a record under a caller-supplied fresh identifier (the
//! store's stand-in for backend identifier generation), read-all hands the
//! whole sequence out, update applies a field-level set of `name` and
//! `description` to the record matching a wire identifier and returns the
//! post-update record, and delete removes at most one matching record.

use vstd::prelude::*;

use crate::errors::ItemError;
use crate::ids::{id_bytes_of, is_valid_id_string, parse_id, ItemId, ID_BYTES};
use crate::items::{Item, ItemView};

verus! {

/// Every record's identifier is present and holds `ID_BYTES` bytes.
pub open spec fn wf_ids(s: Seq<ItemView>) -> bool {
    forall|i: int| 0 <= i < s.len() ==> ((#[trigger] s[i].id) matches Some(b) && b.len() == ID_BYTES)
}

/// No two records share an identifier.
pub open spec fn distinct_ids(s: Seq<ItemView>) -> bool {
    forall|i: int, j: int| 0 <= i < j < s.len() ==> (#[trigger] s[i].id) != (#[trigger] s[j].id)
}

/// Does some record carry the identifier `id`?
pub open spec fn contains_id(s: Seq<ItemView>, id: Seq<u8>) -> bool {
    exists|i: int| 0 <= i < s.len() && (#[trigger] s[i].id) == Some(id)
}

/// The index of the record carrying `id` (meaningful when `contains_id`
/// holds; unique under `distinct_ids`).
pub open spec fn index_of_id(s: Seq<ItemView>, id: Seq<u8>) -> int {
    choose|i: int| 0 <= i < s.len() && (#[trigger] s[i].id) == Some(id)
}

/// The record stored for a create of payload `p` under identifier `id`:
/// the payload's text fields under the assigned identifier. Any identifier
/// the payload itself carries is discarded.
pub open spec fn record_of(id: Seq<u8>, p: ItemView) -> ItemView {
    ItemView { id: Some(id), name: p.name, description: p.description }
}

/// The collection after a field-level set of `name` and `description` on
/// the record carrying `id`; records carrying other identifiers are
/// untouched, and a missing identifier leaves the collection as it was.
pub open spec fn updated(s: Seq<ItemView>, id: Seq<u8>, name: Seq<char>, description: Seq<char>) -> Seq<ItemView> {
    Seq::new(s.len(), |i: int|
        if s[i].id == Some(id) { ItemView { id: Some(id), name, description } } else { s[i] })
}

/// The collection after deleting the record carrying `id`, if any.
pub open spec fn deleted(s: Seq<ItemView>, id: Seq<u8>) -> Seq<ItemView> {
    if contains_id(s, id) { s.remove(index_of_id(s, id)) } else { s }
}

/// The document collection.
pub struct Store {
    items: Vec<Item>,
}

impl View for Store {
    type V = Seq<ItemView>;

    closed spec fn view(&self) -> Seq<ItemView> {
        self.items@.map_values(|it: Item| it@)
    }
}

impl Store {
    /// The collection invariant: all identifiers present, well formed and
    /// pairwise distinct.
    pub open spec fn inv(&self) -> bool {
        wf_ids(self@) && distinct_ids(self@)
    }

    /// An empty collection.
    pub fn new() -> (r: Store)
        ensures
            r.inv(),
            r@ == Seq::<ItemView>::empty(),
    {
        let r = Store { items: Vec::new() };
        proof {
            assert(r@ =~= Seq::<ItemView>::empty());
        }
        r
    }

    /// The index of the record carrying the identifier `id`, if any.
    fn find_index(&self, id: &ItemId) -> (r: Option<usize>)
        requires
            self.inv(),
        ensures
            match r {
                Some(k) => k < self@.len() && self@[k as int].id == Some(id@)
                    && contains_id(self@, id@) && index_of_id(self@, id@) == k,
                None => !contains_id(self@, id@),
            },
    {
        let n = self.items.len();
        let mut k: usize = 0;
        while k < n
            invariant
                self.inv(),
                n == self@.len(),
                k <= n,
                forall|j: int| 0 <= j < k ==> (#[trigger] self@[j].id) != Some(id@),
            decreases n - k,
        {
            let it = &self.items[k];
            let hit = match &it.id {
                Some(x) => x.same_as(id),
                None => false,
            };
            if hit {
                proof {
                    assert(self@[k as int].id == Some(id@));
                    lemma_index_of_id_unique(self@, id@, k as int);
                }
                return Some(k);
            }
            k += 1;
        }
        proof {
            assert forall|i: int| 0 <= i < self@.len() implies (#[trigger] self@[i].id) != Some(id@) by {}
        }
        None
    }

    /// Insert a record for `payload` under the fresh identifier `id` (in
    /// the service, the identifier the backend generated for this insert).
    /// Any identifier the payload carries is discarded. Returns the
    /// assigned identifier; a collision with a stored identifier is a
    /// storage failure and leaves the collection unchanged.
    pub fn create_item(&mut self, id: ItemId, payload: &Item) -> (r: Result<ItemId, ItemError>)
        requires
            old(self).inv(),
            id.wf(),
        ensures
            final(self).inv(),
            contains_id(old(self)@, id@) ==> r == Err::<ItemId, ItemError>(ItemError::StorageError)
                && final(self)@ == old(self)@,
            !contains_id(old(self)@, id@) ==> final(self)@ == old(self)@.push(record_of(id@, payload@))
                && (r matches Ok(rid) && rid@ == id@),
    {
        if self.find_index(&id).is_some() {
            return Err(ItemError::StorageError);
        }
        let rid = id.clone();
        let ghost s0 = self@;
        self.items.push(Item { id: Some(id), name: payload.name.clone(), description: payload.description.clone() });
        proof {
            assert(self@ =~= s0.push(record_of(rid@, payload@)));
            assert forall|i: int, j: int| 0 <= i < j < self@.len()
                implies (#[trigger] self@[i].id) != (#[trigger] self@[j].id) by {
                if j == s0.len() {
                    assert(self@[i] == s0[i]);
                }
            }
        }
        Ok(rid)
    }

    /// Every record in the collection, in storage order.
    pub fn read_items(&self) -> (r: &Vec<Item>)
        ensures
            r@.map_values(|it: Item| it@) == self@,
    {
        &self.items
    }

    /// Parse `id_str` and apply a field-level set of `name` and
    /// `description` to the record it identifies, returning the post-update
    /// record, or `None` when no record matches. A malformed identifier is
    /// rejected without touching the collection. Any identifier the payload
    /// carries is ignored: a record's identifier never changes.
    pub fn update_item(&mut self, id_str: &str, payload: &Item) -> (r: Result<Option<Item>, ItemError>)
        requires
            old(self).inv(),
        ensures
            final(self).inv(),
            !is_valid_id_string(id_str@) ==> r == Err::<Option<Item>, ItemError>(ItemError::InvalidIdentifier)
                && final(self)@ == old(self)@,
            is_valid_id_string(id_str@) ==> ({
                let idb = id_bytes_of(id_str@);
                &&& final(self)@ == updated(old(self)@, idb, payload.name@, payload.description@)
                &&& (contains_id(old(self)@, idb) ==> (r matches Ok(o) && o matches Some(u)
                        && u@ == (ItemView { id: Some(idb), name: payload.name@, description: payload.description@ })))
                &&& (!contains_id(old(self)@, idb) ==> (r matches Ok(o) && o is None))
            }),
    {
        let id = match parse_id(id_str) {
            Ok(id) => id,
            Err(e) => {
                return Err(e);
            },
        };
        let ghost s0 = self@;
        match self.find_index(&id) {
            None => {
                proof {
                    assert(self@ =~= updated(s0, id@, payload.name@, payload.description@));
                }
                Ok(None)
            },
            Some(k) => {
                let mut elem = self.items.remove(k);
                elem.name = payload.name.clone();
                elem.description = payload.description.clone();
                let copy = elem.clone();
                self.items.insert(k, elem);
                proof {
                    assert(self@ =~= s0.update(k as int, copy@));
                    assert(copy@ == record_of(id@, payload@));
                    assert forall|i: int| 0 <= i < s0.len() && i != k
                        implies (#[trigger] s0[i].id) != Some(id@) by {
                        lemma_index_of_id_unique(s0, id@, k as int);
                        if s0[i].id == Some(id@) {
                            lemma_index_of_id_unique(s0, id@, i);
                        }
                    }
                    assert(self@ =~= updated(s0, id@, payload.name@, payload.description@));
                }
                Ok(Some(copy))
            },
        }
    }

    /// Parse `id_str` and delete the record it identifies, if any. Returns
    /// `true` exactly when a record was removed. A malformed identifier is
    /// rejected without touching the collection.
    pub fn delete_item(&mut self, id_str: &str) -> (r: Result<bool, ItemError>)
        requires
            old(self).inv(),
        ensures
            final(self).inv(),
            !is_valid_id_string(id_str@) ==> r == Err::<bool, ItemError>(ItemError::InvalidIdentifier)
                && final(self)@ == old(self)@,
            is_valid_id_string(id_str@) ==> ({
                let idb = id_bytes_of(id_str@);
                &&& final(self)@ == deleted(old(self)@, idb)
                &&& r == Ok::<bool, ItemError>(contains_id(old(self)@, idb))
            }),
    {
        let id = match parse_id(id_str) {
            Ok(id) => id,
            Err(e) => {
                return Err(e);
            },
        };
        let ghost s0 = self@;
        match self.find_index(&id) {
            None => Ok(false),
            Some(k) => {
                self.items.remove(k);
                proof {
                    assert(self@ =~= s0.remove(k as int));
                    lemma_remove_keeps_inv(s0, k as int);
                }
                Ok(true)
            },
        }
    }
}

/// Under distinct identifiers, `index_of_id` is the only index whose
/// record carries the identifier.
pub proof fn lemma_index_of_id_unique(s: Seq<ItemView>, id: Seq<u8>, k: int)
    requires
        distinct_ids(s),
        0 <= k < s.len(),
        s[k].id == Some(id),
    ensures
        contains_id(s, id),
        index_of_id(s, id) == k,
{
    assert(contains_id(s, id));
    let i = index_of_id(s, id);
    if i != k {
        if i < k {
            assert(s[i].id != s[k].id);
        } else {
            assert(s[k].id != s[i].id);
        }
    }
}

/// Removing a record preserves the collection invariant.
proof fn lemma_remove_keeps_inv(s: Seq<ItemView>, k: int)
    requires
        wf_ids(s),
        distinct_ids(s),
        0 <= k < s.len(),
    ensures
        wf_ids(s.remove(k)),
        distinct_ids(s.remove(k)),
{
    let t = s.remove(k);
    assert forall|i: int| 0 <= i < t.len() implies ((#[trigger] t[i].id) matches Some(b) && b.len() == ID_BYTES) by {
        if i < k {
            assert(t[i] == s[i]);
        } else {
            assert(t[i] == s[i + 1]);
        }
    }
    assert forall|i: int, j: int| 0 <= i < j < t.len()
        implies (#[trigger] t[i].id) != (#[trigger] t[j].id) by {
        let si = if i < k { i } else { i + 1 };
        let sj = if j < k { j } else { j + 1 };
        assert(t[i] == s[si]);
        assert(t[j] == s[sj]);
        assert(s[si].id != s[sj].id);
    }
}

} // verus!
