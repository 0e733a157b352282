//! Association lists: sequences of entries filed under a key, with
//! first-match lookup and a uniqueness invariant.
//!
//! The balance table, the transaction logs, the role registry and the
//! allowance snapshot all store their entries this way; the lemmas here carry
//! their lookup reasoning across `push` and in-place update.

use vstd::prelude::*;

verus! {

/// An entry of an association list, identified by a key drawn from the entry
/// itself.
pub trait Keyed {
    /// The type of the key under which an entry is filed.
    type Key;

    /// The key of this entry.
    spec fn key(&self) -> Self::Key;
}

/// The first entry of `s` whose key is `k`, scanning from the front.
pub open spec fn lookup<E: Keyed>(s: Seq<E>, k: E::Key) -> Option<E>
    decreases s.len(),
{
    if s.len() <= 0 {
        None
    } else if s[0].key() == k {
        Some(s[0])
    } else {
        lookup(s.drop_first(), k)
    }
}

/// No two entries of `s` share a key.
pub open spec fn unique_keys<E: Keyed>(s: Seq<E>) -> bool {
    forall|i: int, j: int| 0 <= i < j < s.len() ==> s[i].key() != s[j].key()
}

/// A key that no entry carries is not found.
pub proof fn lemma_lookup_absent<E: Keyed>(s: Seq<E>, k: E::Key)
    requires
        forall|i: int| 0 <= i < s.len() ==> s[i].key() != k,
    ensures
        lookup(s, k) is None,
    decreases s.len(),
{
    if s.len() > 0 {
        assert forall|i: int| 0 <= i < s.drop_first().len() implies s.drop_first()[i].key()
            != k by {
            assert(s.drop_first()[i] == s[i + 1]);
        }
        lemma_lookup_absent(s.drop_first(), k);
    }
}

/// A key that is not found is carried by no entry.
pub proof fn lemma_lookup_none_absent<E: Keyed>(s: Seq<E>, k: E::Key)
    requires
        lookup(s, k) is None,
    ensures
        forall|i: int| 0 <= i < s.len() ==> s[i].key() != k,
    decreases s.len(),
{
    if s.len() > 0 {
        lemma_lookup_none_absent(s.drop_first(), k);
        assert forall|i: int| 0 <= i < s.len() implies s[i].key() != k by {
            if i > 0 {
                assert(s.drop_first()[i - 1] == s[i]);
            }
        }
    }
}

/// Lookup returns the entry at the first matching index.
pub proof fn lemma_lookup_present<E: Keyed>(s: Seq<E>, k: E::Key, i: int)
    requires
        0 <= i < s.len(),
        s[i].key() == k,
        forall|j: int| 0 <= j < i ==> s[j].key() != k,
    ensures
        lookup(s, k) == Some(s[i]),
    decreases i,
{
    if i > 0 {
        assert forall|j: int| 0 <= j < i - 1 implies s.drop_first()[j].key() != k by {
            assert(s.drop_first()[j] == s[j + 1]);
        }
        assert(s.drop_first()[i - 1] == s[i]);
        lemma_lookup_present(s.drop_first(), k, i - 1);
    }
}

/// How one lookup changes when an entry is appended: an already-present key
/// still finds its old entry; the new entry answers only for its own key.
pub proof fn lemma_lookup_push<E: Keyed>(s: Seq<E>, e: E, k: E::Key)
    ensures
        lookup(s.push(e), k) == (if lookup(s, k) is Some {
            lookup(s, k)
        } else if e.key() == k {
            Some(e)
        } else {
            None
        }),
    decreases s.len(),
{
    if s.len() == 0 {
        assert(s.push(e)[0] == e);
        if e.key() != k {
            assert(s.push(e).drop_first() =~= Seq::<E>::empty());
        }
    } else {
        assert(s.push(e)[0] == s[0]);
        assert(s.push(e).drop_first() =~= s.drop_first().push(e));
        lemma_lookup_push(s.drop_first(), e, k);
    }
}

/// [`lemma_lookup_push`] for every key at once.
pub proof fn lemma_lookup_push_all<E: Keyed>(s: Seq<E>, e: E)
    ensures
        forall|k: E::Key| #[trigger] lookup(s.push(e), k) == (if lookup(s, k) is Some {
            lookup(s, k)
        } else if e.key() == k {
            Some(e)
        } else {
            None
        }),
{
    assert forall|k: E::Key| #[trigger] lookup(s.push(e), k) == (if lookup(s, k) is Some {
        lookup(s, k)
    } else if e.key() == k {
        Some(e)
    } else {
        None
    }) by {
        lemma_lookup_push(s, e, k);
    }
}

/// How one lookup changes when the first entry filed under some key is
/// replaced by another entry with the same key.
pub proof fn lemma_lookup_update<E: Keyed>(s: Seq<E>, i: int, e: E, k: E::Key)
    requires
        0 <= i < s.len(),
        e.key() == s[i].key(),
        forall|j: int| 0 <= j < i ==> s[j].key() != s[i].key(),
    ensures
        lookup(s.update(i, e), k) == (if k == s[i].key() {
            Some(e)
        } else {
            lookup(s, k)
        }),
    decreases i,
{
    let t = s.update(i, e);
    if i == 0 {
        assert(t[0] == e);
        if k != s[0].key() {
            assert(t.drop_first() =~= s.drop_first());
        }
    } else {
        assert(t[0] == s[0]);
        assert(t.drop_first() =~= s.drop_first().update(i - 1, e));
        assert(s.drop_first()[i - 1] == s[i]);
        if k != s[0].key() {
            assert forall|j: int| 0 <= j < i - 1 implies #[trigger] s.drop_first()[j].key()
                != s.drop_first()[i - 1].key() by {
                assert(s.drop_first()[j] == s[j + 1]);
            }
            lemma_lookup_update(s.drop_first(), i - 1, e, k);
        }
    }
}

/// [`lemma_lookup_update`] for every key at once.
pub proof fn lemma_lookup_update_all<E: Keyed>(s: Seq<E>, i: int, e: E)
    requires
        0 <= i < s.len(),
        e.key() == s[i].key(),
        forall|j: int| 0 <= j < i ==> s[j].key() != s[i].key(),
    ensures
        forall|k: E::Key| #[trigger] lookup(s.update(i, e), k) == (if k == s[i].key() {
            Some(e)
        } else {
            lookup(s, k)
        }),
{
    assert forall|k: E::Key| #[trigger] lookup(s.update(i, e), k) == (if k == s[i].key() {
        Some(e)
    } else {
        lookup(s, k)
    }) by {
        lemma_lookup_update(s, i, e, k);
    }
}

/// Appending an entry whose key is absent keeps the keys unique.
pub proof fn lemma_unique_push<E: Keyed>(s: Seq<E>, e: E)
    requires
        unique_keys(s),
        lookup(s, e.key()) is None,
    ensures
        unique_keys(s.push(e)),
{
    lemma_lookup_none_absent(s, e.key());
    assert forall|i: int, j: int| 0 <= i < j < s.push(e).len() implies s.push(e)[i].key() != s.push(
        e,
    )[j].key() by {
        if j < s.len() {
            assert(s.push(e)[i] == s[i] && s.push(e)[j] == s[j]);
        } else {
            assert(s.push(e)[i] == s[i] && s.push(e)[j] == e);
        }
    }
}

/// Replacing an entry by one with the same key keeps the keys unique.
pub proof fn lemma_unique_update<E: Keyed>(s: Seq<E>, i: int, e: E)
    requires
        unique_keys(s),
        0 <= i < s.len(),
        e.key() == s[i].key(),
    ensures
        unique_keys(s.update(i, e)),
{
}

} // verus!
