//! A model of a database table as a sequence of rows with unique keys.
//!
//! The view of a table is the map from each row's key to the row's view.
//! The lemmas here relate sequence-level edits (push, update, remove) to
//! map-level edits (insert, remove), so that the store's operations can
//! state their contracts over maps.

use vstd::prelude::*;

verus! {

/// The map from row keys to row views described by a sequence of rows.
pub open spec fn keyed_map_of<R: View>(
    rows: Seq<R>,
    key: spec_fn(<R as View>::V) -> Seq<char>,
) -> Map<Seq<char>, <R as View>::V>
    decreases rows.len(),
{
    if rows.len() == 0 {
        Map::empty()
    } else {
        keyed_map_of(rows.drop_last(), key).insert(key(rows.last()@), rows.last()@)
    }
}

/// Whether no two rows of the sequence share a key.
pub open spec fn keys_unique<R: View>(
    rows: Seq<R>,
    key: spec_fn(<R as View>::V) -> Seq<char>,
) -> bool {
    forall|i: int, j: int|
        0 <= i < j < rows.len() ==> key(#[trigger] rows[i]@) != key(#[trigger] rows[j]@)
}

/// A key is in the table's map exactly when some row carries it.
pub proof fn lemma_keyed_map_domain<R: View>(
    rows: Seq<R>,
    key: spec_fn(<R as View>::V) -> Seq<char>,
)
    ensures
        forall|k: Seq<char>|
            #[trigger] keyed_map_of(rows, key).dom().contains(k) <==> exists|i: int|
                0 <= i < rows.len() && key(#[trigger] rows[i]@) == k,
    decreases rows.len(),
{
    if rows.len() > 0 {
        let prefix = rows.drop_last();
        lemma_keyed_map_domain(prefix, key);
        assert forall|k: Seq<char>| #[trigger]
            keyed_map_of(rows, key).dom().contains(k) implies exists|i: int|
            0 <= i < rows.len() && key(#[trigger] rows[i]@) == k by {
            if k == key(rows.last()@) {
                assert(key(rows[rows.len() - 1]@) == k);
            } else {
                assert(keyed_map_of(prefix, key).dom().contains(k));
                let i = choose|i: int| 0 <= i < prefix.len() && key(#[trigger] prefix[i]@) == k;
                assert(prefix[i] == rows[i]);
                assert(key(rows[i]@) == k);
            }
        }
        assert forall|k: Seq<char>|
            (exists|i: int|
                0 <= i < rows.len() && key(#[trigger] rows[i]@) == k) implies #[trigger] keyed_map_of(
            rows,
            key,
        ).dom().contains(k) by {
            let i = choose|i: int| 0 <= i < rows.len() && key(#[trigger] rows[i]@) == k;
            if i == rows.len() - 1 {
                assert(k == key(rows.last()@));
            } else {
                assert(prefix[i] == rows[i]);
                assert(key(prefix[i]@) == k);
                assert(exists|j: int| 0 <= j < prefix.len() && key(#[trigger] prefix[j]@) == k);
                assert(keyed_map_of(prefix, key).dom().contains(k));
            }
        }
    }
}

/// With unique keys, the map sends each row's key to that row's view.
pub proof fn lemma_keyed_map_index<R: View>(
    rows: Seq<R>,
    key: spec_fn(<R as View>::V) -> Seq<char>,
    i: int,
)
    requires
        keys_unique(rows, key),
        0 <= i < rows.len(),
    ensures
        keyed_map_of(rows, key).dom().contains(key(rows[i]@)),
        keyed_map_of(rows, key)[key(rows[i]@)] == rows[i]@,
    decreases rows.len(),
{
    let prefix = rows.drop_last();
    if i == rows.len() - 1 {
        assert(rows.last() == rows[i]);
    } else {
        assert(keys_unique(prefix, key)) by {
            assert forall|a: int, b: int|
                0 <= a < b < prefix.len() implies key(#[trigger] prefix[a]@) != key(
                #[trigger] prefix[b]@,
            ) by {
                assert(prefix[a] == rows[a]);
                assert(prefix[b] == rows[b]);
            }
        }
        assert(prefix[i] == rows[i]);
        lemma_keyed_map_index(prefix, key, i);
        assert(key(rows[i]@) != key(rows.last()@)) by {
            assert(key(rows[i]@) != key(rows[rows.len() - 1]@));
        }
    }
}

/// Appending a row with a fresh key inserts it into the map.
pub proof fn lemma_keyed_map_push<R: View>(
    rows: Seq<R>,
    key: spec_fn(<R as View>::V) -> Seq<char>,
    r: R,
)
    requires
        keys_unique(rows, key),
        forall|i: int| 0 <= i < rows.len() ==> key(#[trigger] rows[i]@) != key(r@),
    ensures
        keys_unique(rows.push(r), key),
        keyed_map_of(rows.push(r), key) == keyed_map_of(rows, key).insert(key(r@), r@),
{
    let grown = rows.push(r);
    assert(grown.drop_last() =~= rows);
    assert(grown.last() == r);
    assert forall|i: int, j: int|
        0 <= i < j < grown.len() implies key(#[trigger] grown[i]@) != key(
        #[trigger] grown[j]@,
    ) by {
        if j == grown.len() - 1 {
            assert(grown[i] == rows[i]);
            assert(grown[j] == r);
        } else {
            assert(grown[i] == rows[i]);
            assert(grown[j] == rows[j]);
        }
    }
}

/// Replacing a row by one with the same key updates the map at that key.
pub proof fn lemma_keyed_map_update<R: View>(
    rows: Seq<R>,
    key: spec_fn(<R as View>::V) -> Seq<char>,
    i: int,
    r: R,
)
    requires
        keys_unique(rows, key),
        0 <= i < rows.len(),
        key(r@) == key(rows[i]@),
    ensures
        keys_unique(rows.update(i, r), key),
        keyed_map_of(rows.update(i, r), key) == keyed_map_of(rows, key).insert(key(r@), r@),
    decreases rows.len(),
{
    let updated = rows.update(i, r);
    assert forall|a: int, b: int|
        0 <= a < b < updated.len() implies key(#[trigger] updated[a]@) != key(
        #[trigger] updated[b]@,
    ) by {
        assert(key(updated[a]@) == if a == i {
            key(rows[i]@)
        } else {
            key(rows[a]@)
        });
        assert(key(updated[b]@) == if b == i {
            key(rows[i]@)
        } else {
            key(rows[b]@)
        });
    }
    let prefix = rows.drop_last();
    assert(keys_unique(prefix, key)) by {
        assert forall|a: int, b: int|
            0 <= a < b < prefix.len() implies key(#[trigger] prefix[a]@) != key(
            #[trigger] prefix[b]@,
        ) by {
            assert(prefix[a] == rows[a]);
            assert(prefix[b] == rows[b]);
        }
    }
    if i == rows.len() - 1 {
        assert(updated.drop_last() =~= prefix);
        assert(updated.last() == r);
        assert(keyed_map_of(updated, key) == keyed_map_of(prefix, key).insert(key(r@), r@));
        assert(keyed_map_of(prefix, key).insert(key(rows.last()@), rows.last()@).insert(
            key(r@),
            r@,
        ) =~= keyed_map_of(prefix, key).insert(key(r@), r@));
    } else {
        assert(updated.drop_last() =~= prefix.update(i, r));
        assert(updated.last() == rows.last());
        assert(prefix[i] == rows[i]);
        lemma_keyed_map_update(prefix, key, i, r);
        assert(key(rows[i]@) != key(rows[rows.len() - 1]@));
        assert(keyed_map_of(prefix, key).insert(key(r@), r@).insert(
            key(rows.last()@),
            rows.last()@,
        ) =~= keyed_map_of(prefix, key).insert(key(rows.last()@), rows.last()@).insert(
            key(r@),
            r@,
        ));
    }
}

/// Removing a row removes its key from the map.
pub proof fn lemma_keyed_map_remove<R: View>(
    rows: Seq<R>,
    key: spec_fn(<R as View>::V) -> Seq<char>,
    i: int,
)
    requires
        keys_unique(rows, key),
        0 <= i < rows.len(),
    ensures
        keys_unique(rows.remove(i), key),
        keyed_map_of(rows.remove(i), key) == keyed_map_of(rows, key).remove(key(rows[i]@)),
    decreases rows.len(),
{
    let shrunk = rows.remove(i);
    assert forall|a: int, b: int|
        0 <= a < b < shrunk.len() implies key(#[trigger] shrunk[a]@) != key(
        #[trigger] shrunk[b]@,
    ) by {
        let a0 = if a < i {
            a
        } else {
            a + 1
        };
        let b0 = if b < i {
            b
        } else {
            b + 1
        };
        assert(shrunk[a] == rows[a0]);
        assert(shrunk[b] == rows[b0]);
    }
    let prefix = rows.drop_last();
    assert(keys_unique(prefix, key)) by {
        assert forall|a: int, b: int|
            0 <= a < b < prefix.len() implies key(#[trigger] prefix[a]@) != key(
            #[trigger] prefix[b]@,
        ) by {
            assert(prefix[a] == rows[a]);
            assert(prefix[b] == rows[b]);
        }
    }
    if i == rows.len() - 1 {
        assert(shrunk =~= prefix);
        lemma_keyed_map_domain(prefix, key);
        assert(!keyed_map_of(prefix, key).dom().contains(key(rows[i]@))) by {
            if keyed_map_of(prefix, key).dom().contains(key(rows[i]@)) {
                let j = choose|j: int|
                    0 <= j < prefix.len() && key(#[trigger] prefix[j]@) == key(rows[i]@);
                assert(prefix[j] == rows[j]);
            }
        }
        assert(keyed_map_of(prefix, key).insert(key(rows.last()@), rows.last()@).remove(
            key(rows[i]@),
        ) =~= keyed_map_of(prefix, key));
    } else {
        assert(shrunk.drop_last() =~= prefix.remove(i));
        assert(shrunk.last() == rows.last());
        assert(prefix[i] == rows[i]);
        lemma_keyed_map_remove(prefix, key, i);
        assert(key(rows[i]@) != key(rows[rows.len() - 1]@));
        assert(keyed_map_of(prefix, key).remove(key(rows[i]@)).insert(
            key(rows.last()@),
            rows.last()@,
        ) =~= keyed_map_of(prefix, key).insert(key(rows.last()@), rows.last()@).remove(
            key(rows[i]@),
        ));
    }
}

/// With unique keys, the table has as many rows as its map has keys.
pub proof fn lemma_keyed_map_len<R: View>(rows: Seq<R>, key: spec_fn(<R as View>::V) -> Seq<char>)
    requires
        keys_unique(rows, key),
    ensures
        keyed_map_of(rows, key).dom().finite(),
        keyed_map_of(rows, key).dom().len() == rows.len(),
    decreases rows.len(),
{
    if rows.len() > 0 {
        let prefix = rows.drop_last();
        assert(keys_unique(prefix, key)) by {
            assert forall|a: int, b: int|
                0 <= a < b < prefix.len() implies key(#[trigger] prefix[a]@) != key(
                #[trigger] prefix[b]@,
            ) by {
                assert(prefix[a] == rows[a]);
                assert(prefix[b] == rows[b]);
            }
        }
        lemma_keyed_map_len(prefix, key);
        lemma_keyed_map_domain(prefix, key);
        assert(!keyed_map_of(prefix, key).dom().contains(key(rows.last()@))) by {
            if keyed_map_of(prefix, key).dom().contains(key(rows.last()@)) {
                let j = choose|j: int|
                    0 <= j < prefix.len() && key(#[trigger] prefix[j]@) == key(rows.last()@);
                assert(prefix[j] == rows[j]);
                assert(key(rows[j]@) == key(rows[rows.len() - 1]@));
            }
        }
    }
}

} // verus!
