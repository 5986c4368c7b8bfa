//! Laws of the collection operations, stated over the spec-level
//! transitions that the operations' contracts use.

use vstd::prelude::*;

use crate::ids::ID_BYTES;
use crate::items::ItemView;
use crate::store::{
    contains_id, deleted, distinct_ids, index_of_id, lemma_index_of_id_unique, record_of, updated,
    wf_ids,
};

verus! {

/// Updating a stored record and reading it back: the collection keeps its
/// length and order, the matching record carries the new `name` and
/// `description` under its unchanged identifier, and every other record is
/// untouched.
pub proof fn lemma_update_then_read(s: Seq<ItemView>, id: Seq<u8>, name: Seq<char>, description: Seq<char>)
    requires
        distinct_ids(s),
        contains_id(s, id),
    ensures
        ({
            let t = updated(s, id, name, description);
            let k = index_of_id(s, id);
            &&& t.len() == s.len()
            &&& contains_id(t, id)
            &&& index_of_id(t, id) == k
            &&& t[k] == (ItemView { id: Some(id), name, description })
            &&& forall|j: int| 0 <= j < s.len() && j != k ==> t[j] == s[j]
            &&& distinct_ids(t)
        }),
{
    let t = updated(s, id, name, description);
    let k = index_of_id(s, id);
    assert(0 <= k < s.len() && s[k].id == Some(id));
    assert forall|j: int| 0 <= j < s.len() && j != k implies t[j] == s[j] by {
        if s[j].id == Some(id) {
            lemma_index_of_id_unique(s, id, j);
        }
    }
    assert forall|i: int, j: int| 0 <= i < j < t.len()
        implies (#[trigger] t[i].id) != (#[trigger] t[j].id) by {
        assert(t[i].id == s[i].id);
        assert(t[j].id == s[j].id);
    }
    assert(t[k].id == Some(id));
    lemma_index_of_id_unique(t, id, k);
}

/// Deleting a stored identifier removes it: the first delete reports a
/// removal and afterwards the identifier is gone, so deleting it again
/// reports nothing removed and leaves the collection as it stands.
pub proof fn lemma_delete_twice(s: Seq<ItemView>, id: Seq<u8>)
    requires
        distinct_ids(s),
        contains_id(s, id),
    ensures
        ({
            let t = deleted(s, id);
            &&& t.len() == s.len() - 1
            &&& !contains_id(t, id)
            &&& deleted(t, id) == t
        }),
{
    let k = index_of_id(s, id);
    assert(0 <= k < s.len() && s[k].id == Some(id));
    let t = s.remove(k);
    assert(deleted(s, id) == t);
    assert forall|i: int| 0 <= i < t.len() implies (#[trigger] t[i].id) != Some(id) by {
        let si = if i < k { i } else { i + 1 };
        assert(t[i] == s[si]);
        if s[si].id == Some(id) {
            lemma_index_of_id_unique(s, id, si);
        }
    }
}

/// The round trip of the service's operations on an empty collection:
/// create stores exactly the payload's fields under the fresh identifier,
/// update rewrites exactly those fields under the same identifier, and
/// delete removes the record and leaves the collection empty again.
pub proof fn lemma_crud_roundtrip(id: Seq<u8>, p: ItemView, name2: Seq<char>, description2: Seq<char>)
    requires
        id.len() == ID_BYTES,
    ensures
        ({
            let s0 = Seq::<ItemView>::empty();
            let s1 = s0.push(record_of(id, p));
            let s2 = updated(s1, id, name2, description2);
            &&& !contains_id(s0, id)
            &&& s1 =~= seq![ItemView { id: Some(id), name: p.name, description: p.description }]
            &&& s2 =~= seq![ItemView { id: Some(id), name: name2, description: description2 }]
            &&& contains_id(s2, id)
            &&& deleted(s2, id) =~= s0
        }),
{
    let s0 = Seq::<ItemView>::empty();
    let s1 = s0.push(record_of(id, p));
    let s2 = updated(s1, id, name2, description2);
    assert(s1[0].id == Some(id));
    assert(s2[0] == (ItemView { id: Some(id), name: name2, description: description2 }));
    assert(wf_ids(s2) && distinct_ids(s2));
    assert(s2[0].id == Some(id));
    lemma_index_of_id_unique(s2, id, 0);
    assert(deleted(s2, id) =~= s0);
}

} // verus!
