//! The display mapping a menu is built from: an insertion-ordered map from
//! label to selection, held in an outside crate's map and specified by the
//! sequence of its entries.
use crate::common::{ActionSelect, SelView};
use indexmap::IndexMap;
use vstd::prelude::*;

verus! {

#[verifier::external_type_specification]
#[verifier::external_body]
#[verifier::reject_recursive_types(K)]
#[verifier::reject_recursive_types(V)]
#[verifier::reject_recursive_types(S)]
pub struct ExIndexMap<K, V, S>(IndexMap<K, V, S>);

/// The entries of a display mapping, each a label with the selection it
/// leads to, in the map's order.
pub uninterp spec fn map_entries(m: IndexMap<String, ActionSelect>) -> Seq<(Seq<char>, SelView)>;

/// The labels of the entries, in order.
pub open spec fn entry_keys(e: Seq<(Seq<char>, SelView)>) -> Seq<Seq<char>> {
    Seq::new(e.len(), |i: int| e[i].0)
}

/// True when some entry carries the label `k`.
pub open spec fn has_key(e: Seq<(Seq<char>, SelView)>, k: Seq<char>) -> bool {
    exists|i: int| 0 <= i < e.len() && e[i].0 == k
}

/// The first position whose entry carries the label `k`, or -1.
pub open spec fn key_index(e: Seq<(Seq<char>, SelView)>, k: Seq<char>) -> int
    decreases e.len(),
{
    if e.len() == 0 {
        -1
    } else if e[0].0 == k {
        0
    } else {
        let r = key_index(e.drop_first(), k);
        if r < 0 {
            -1
        } else {
            r + 1
        }
    }
}

/// The value stored under the label `k`.
pub open spec fn value_at(e: Seq<(Seq<char>, SelView)>, k: Seq<char>) -> SelView {
    e[key_index(e, k)].1
}

/// What inserting under a label does to the entries: a fresh label is
/// appended; a label already present keeps its position and the value
/// there is replaced.
pub open spec fn insert_entry(
    e: Seq<(Seq<char>, SelView)>,
    k: Seq<char>,
    v: SelView,
) -> Seq<(Seq<char>, SelView)> {
    let i = key_index(e, k);
    if i < 0 {
        e.push((k, v))
    } else {
        e.update(i, (k, v))
    }
}

/// True when no label appears on two entries.
pub open spec fn unique_keys(e: Seq<(Seq<char>, SelView)>) -> bool {
    forall|i: int, j: int| 0 <= i < j < e.len() ==> e[i].0 != e[j].0
}

/// `key_index` finds the label exactly when some entry carries it, and
/// points at the first such entry.
pub proof fn lemma_key_index(e: Seq<(Seq<char>, SelView)>, k: Seq<char>)
    ensures
        has_key(e, k) <==> 0 <= key_index(e, k) < e.len(),
        0 <= key_index(e, k) ==> e[key_index(e, k)].0 == k,
        forall|j: int| 0 <= j < key_index(e, k) ==> e[j].0 != k,
        !has_key(e, k) ==> key_index(e, k) == -1,
    decreases e.len(),
{
    if e.len() > 0 && e[0].0 != k {
        lemma_key_index(e.drop_first(), k);
        assert forall|i: int| 0 <= i < e.len() && e[i].0 == k implies has_key(
            e.drop_first(),
            k,
        ) by {
            assert(e.drop_first()[i - 1].0 == k);
        }
        assert forall|j: int| 0 <= j < key_index(e, k) implies e[j].0 != k by {
            if j > 0 {
                assert(e.drop_first()[j - 1] == e[j]);
            }
        }
    }
}

/// Inserting keeps labels unique.
pub proof fn lemma_insert_unique(e: Seq<(Seq<char>, SelView)>, k: Seq<char>, v: SelView)
    requires
        unique_keys(e),
    ensures
        unique_keys(insert_entry(e, k, v)),
{
    lemma_key_index(e, k);
}

/// After inserting under `k`, exactly the old labels and `k` are present.
pub proof fn lemma_insert_has_key(
    e: Seq<(Seq<char>, SelView)>,
    k: Seq<char>,
    v: SelView,
    k2: Seq<char>,
)
    ensures
        has_key(insert_entry(e, k, v), k2) <==> (k2 == k || has_key(e, k2)),
{
    lemma_key_index(e, k);
    let e2 = insert_entry(e, k, v);
    if k2 == k {
        if key_index(e, k) < 0 {
            assert(e2[e.len() as int].0 == k);
        } else {
            assert(e2[key_index(e, k)].0 == k);
        }
    } else {
        if has_key(e, k2) {
            let i = choose|i: int| 0 <= i < e.len() && e[i].0 == k2;
            assert(e2[i].0 == k2);
        }
        if has_key(e2, k2) {
            let i = choose|i: int| 0 <= i < e2.len() && e2[i].0 == k2;
            assert(0 <= i < e.len() && e[i].0 == k2);
        }
    }
}

/// After inserting under `k`, the value under `k` is the inserted one and
/// every other label keeps its value.
pub proof fn lemma_insert_value(
    e: Seq<(Seq<char>, SelView)>,
    k: Seq<char>,
    v: SelView,
    k2: Seq<char>,
)
    requires
        unique_keys(e),
    ensures
        value_at(insert_entry(e, k, v), k) == v,
        k2 != k && has_key(e, k2) ==> value_at(insert_entry(e, k, v), k2) == value_at(e, k2),
{
    lemma_key_index(e, k);
    let e2 = insert_entry(e, k, v);
    lemma_key_index(e2, k);
    lemma_key_index(e2, k2);
    lemma_key_index(e, k2);
    let i = key_index(e, k);
    if i < 0 {
        assert(e2[e.len() as int] == (k, v));
    } else {
        assert(e2[i] == (k, v));
    }
    if k2 != k && has_key(e, k2) {
        let j = key_index(e, k2);
        assert(e2[j].0 == k2);
    }
}

/// Relies on indexmap::IndexMap::new: the new map is empty.
#[verifier::external_body]
pub(crate) fn map_new() -> (r: IndexMap<String, ActionSelect>)
    ensures
        map_entries(r) == Seq::<(Seq<char>, SelView)>::empty(),
{
    IndexMap::new()
}

/// Relies on indexmap::IndexMap::insert: a key not yet present is appended
/// at the end; a key already present keeps its position in the order and
/// only its value is replaced.
#[verifier::external_body]
pub(crate) fn map_insert(m: &mut IndexMap<String, ActionSelect>, k: String, v: ActionSelect)
    ensures
        map_entries(*final(m)) == insert_entry(map_entries(*old(m)), k@, v@),
{
    let _ = m.insert(k, v);
}

/// Relies on indexmap::IndexMap::get: the value stored under the key, when
/// the key is present.
#[verifier::external_body]
pub(crate) fn map_get<'a>(m: &'a IndexMap<String, ActionSelect>, k: &String) -> (r: Option<
    &'a ActionSelect,
>)
    ensures
        match r {
            Some(v) => has_key(map_entries(*m), k@) && v@ == value_at(map_entries(*m), k@),
            None => !has_key(map_entries(*m), k@),
        },
{
    m.get(k)
}

/// Relies on indexmap::IndexMap::keys: the keys, iterated in the map's
/// order.
#[verifier::external_body]
pub(crate) fn map_keys(m: &IndexMap<String, ActionSelect>) -> (r: Vec<String>)
    ensures
        r@.map_values(|s: String| s@) == entry_keys(map_entries(*m)),
{
    m.keys().cloned().collect()
}

/// Relies on indexmap::IndexMap::len: the number of entries.
#[verifier::external_body]
pub(crate) fn map_len(m: &IndexMap<String, ActionSelect>) -> (r: usize)
    ensures
        r == map_entries(*m).len(),
{
    m.len()
}


/// The labels of a display mapping, in menu order, as the driver offers
/// them to the prompt.
pub fn option_names(m: &IndexMap<String, ActionSelect>) -> (r: Vec<String>)
    ensures
        r@.map_values(|s: String| s@) == entry_keys(map_entries(*m)),
{
    map_keys(m)
}

/// The selection stored under a chosen label, as the driver needs it after
/// the prompt.
pub fn select_option<'a>(m: &'a IndexMap<String, ActionSelect>, name: &String) -> (r: Option<
    &'a ActionSelect,
>)
    ensures
        match r {
            Some(v) => has_key(map_entries(*m), name@) && v@ == value_at(map_entries(*m), name@),
            None => !has_key(map_entries(*m), name@),
        },
{
    map_get(m, name)
}

/// The number of entries a display mapping offers.
pub fn option_count(m: &IndexMap<String, ActionSelect>) -> (r: usize)
    ensures
        r == map_entries(*m).len(),
{
    map_len(m)
}

} // verus!
