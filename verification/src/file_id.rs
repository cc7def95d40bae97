//! File identifiers: which ones can be stored, and how they are ordered.

use crate::text::{char_at, char_count};
use vstd::prelude::*;
use vstd::string::*;

verus! {

/// The character that separates two identifiers in the persisted list.
pub open spec fn line_break() -> char {
    '\n'
}

/// An identifier can be stored on a line of its own: it is not empty and
/// holds no line break.
pub open spec fn is_storable_id(id: Seq<char>) -> bool {
    id.len() > 0 && forall|k: int| 0 <= k < id.len() ==> id[k] != line_break()
}

/// Strict lexicographic order by code point, the order of the persisted list.
pub open spec fn id_lt(a: Seq<char>, b: Seq<char>) -> bool
    decreases a.len(),
{
    if b.len() == 0 {
        false
    } else if a.len() == 0 {
        true
    } else if a[0] != b[0] {
        a[0] < b[0]
    } else {
        id_lt(a.drop_first(), b.drop_first())
    }
}

/// Every entry is strictly below each later one.
pub open spec fn ascending(ids: Seq<Seq<char>>) -> bool {
    forall|i: int, j: int| 0 <= i < j < ids.len() ==> id_lt(#[trigger] ids[i], #[trigger] ids[j])
}

/// How one identifier stands to another in the order of the persisted list.
#[derive(Clone, Copy, Debug, PartialEq, Eq, Structural)]
pub enum IdOrder {
    Before,
    Same,
    After,
}

/// No identifier is below itself.
pub proof fn lemma_id_lt_irreflexive(a: Seq<char>)
    ensures
        !id_lt(a, a),
    decreases a.len(),
{
    if a.len() > 0 {
        lemma_id_lt_irreflexive(a.drop_first());
    }
}

/// The order is transitive.
pub proof fn lemma_id_lt_transitive(a: Seq<char>, b: Seq<char>, c: Seq<char>)
    requires
        id_lt(a, b),
        id_lt(b, c),
    ensures
        id_lt(a, c),
    decreases a.len(),
{
    if a.len() > 0 && b.len() > 0 && c.len() > 0 {
        if a[0] == b[0] && b[0] == c[0] {
            lemma_id_lt_transitive(a.drop_first(), b.drop_first(), c.drop_first());
        }
    }
}

/// Two identifiers never stand below each other.
pub proof fn lemma_id_lt_asymmetric(a: Seq<char>, b: Seq<char>)
    requires
        id_lt(a, b),
    ensures
        !id_lt(b, a),
    decreases a.len(),
{
    if a.len() > 0 && b.len() > 0 && a[0] == b[0] {
        lemma_id_lt_asymmetric(a.drop_first(), b.drop_first());
    }
}

/// An ascending list holds no identifier twice.
pub proof fn lemma_ascending_no_duplicates(ids: Seq<Seq<char>>)
    requires
        ascending(ids),
    ensures
        ids.no_duplicates(),
{
    assert forall|i: int, j: int| 0 <= i < ids.len() && 0 <= j < ids.len() && i != j implies ids[i]
        != ids[j] by {
        lemma_id_lt_irreflexive(ids[i]);
        if i < j {
            assert(id_lt(ids[i], ids[j]));
        } else {
            assert(id_lt(ids[j], ids[i]));
        }
    }
}

/// Compares two identifiers in the order of the persisted list.
pub fn compare_ids(a: &str, b: &str) -> (r: IdOrder)
    ensures
        r == IdOrder::Before <==> id_lt(a@, b@),
        r == IdOrder::Same <==> a@ == b@,
        r == IdOrder::After <==> id_lt(b@, a@),
{
    let plain_a: bool = a.is_ascii();
    let plain_b: bool = b.is_ascii();
    let n: usize = char_count(a, plain_a);
    let m: usize = char_count(b, plain_b);
    let mut i: usize = 0;
    proof {
        assert(a@.skip(0) =~= a@);
        assert(b@.skip(0) =~= b@);
    }
    while i < n && i < m
        invariant
            plain_a ==> is_ascii(a),
            plain_b ==> is_ascii(b),
            n == a@.len(),
            m == b@.len(),
            i <= n,
            i <= m,
            forall|k: int| 0 <= k < i ==> a@[k] == b@[k],
            id_lt(a@, b@) == id_lt(a@.skip(i as int), b@.skip(i as int)),
            id_lt(b@, a@) == id_lt(b@.skip(i as int), a@.skip(i as int)),
        decreases n - i,
    {
        let ca: char = char_at(a, i, plain_a);
        let cb: char = char_at(b, i, plain_b);
        proof {
            assert(a@.skip(i as int).drop_first() =~= a@.skip(i + 1));
            assert(b@.skip(i as int).drop_first() =~= b@.skip(i + 1));
            assert(a@.skip(i as int)[0] == ca);
            assert(b@.skip(i as int)[0] == cb);
        }
        if ca != cb {
            if ca < cb {
                return IdOrder::Before;
            } else {
                return IdOrder::After;
            }
        }
        i += 1;
    }
    if i < m {
        assert(a@.skip(i as int).len() == 0);
        IdOrder::Before
    } else if i < n {
        assert(b@.skip(i as int).len() == 0);
        IdOrder::After
    } else {
        assert(a@ =~= b@);
        proof {
            lemma_id_lt_irreflexive(a@);
        }
        IdOrder::Same
    }
}

/// Tells whether an identifier can be stored on a line of its own.
pub fn storable(id: &str) -> (r: bool)
    ensures
        r == is_storable_id(id@),
{
    let plain: bool = id.is_ascii();
    let n: usize = char_count(id, plain);
    if n == 0 {
        return false;
    }
    let mut i: usize = 0;
    while i < n
        invariant
            plain ==> is_ascii(id),
            n == id@.len(),
            i <= n,
            forall|k: int| 0 <= k < i ==> id@[k] != line_break(),
        decreases n - i,
    {
        if char_at(id, i, plain) == '\n' {
            return false;
        }
        i += 1;
    }
    true
}

} // verus!
