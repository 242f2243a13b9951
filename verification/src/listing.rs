//! The order of a folder listing: folders first, then by name (compared
//! byte by byte, as `String`s order), keeping the order the entries came in
//! where both agree.

use vstd::prelude::*;
use vstd::utf8::encode_utf8;
use vstd::string::StringSliceAdditionalSpecFns;

verus! {

/// What a listing is ordered by.
pub struct EntryKey {
    pub is_dir: bool,
    pub name: String,
}

/// Whether `a` comes before `b` from index `i` on, lexicographically: at the
/// first index where they differ, or when `a` ends first.
pub open spec fn lex_lt_from(a: Seq<u8>, b: Seq<u8>, i: int) -> bool
    decreases a.len() - i,
{
    if i < 0 || i >= a.len() {
        0 <= i < b.len()
    } else if i >= b.len() {
        false
    } else if a[i] != b[i] {
        a[i] < b[i]
    } else {
        lex_lt_from(a, b, i + 1)
    }
}

pub open spec fn lex_lt(a: Seq<u8>, b: Seq<u8>) -> bool {
    lex_lt_from(a, b, 0)
}

/// A key as (folder, UTF-8 name).
pub open spec fn key_view(k: EntryKey) -> (bool, Seq<u8>) {
    (k.is_dir, encode_utf8(k.name@))
}

/// Whether an entry with key `a` is listed before one with key `b`.
pub open spec fn key_before(a: (bool, Seq<u8>), b: (bool, Seq<u8>)) -> bool {
    (a.0 && !b.0) || (a.0 == b.0 && lex_lt(a.1, b.1))
}

/// Whether entry `x` of `keys` is listed before entry `y`: by key, and by
/// position among entries with equal keys.
pub open spec fn listed_before(keys: Seq<EntryKey>, x: int, y: int) -> bool {
    key_before(key_view(keys[x]), key_view(keys[y])) || (key_view(keys[x]) == key_view(keys[y])
        && x < y)
}

/// `order` lists every index of `keys` once, in listing order.
pub open spec fn is_listing_order(keys: Seq<EntryKey>, order: Seq<usize>) -> bool {
    &&& order.len() == keys.len()
    &&& forall|i: int| 0 <= i < order.len() ==> order[i] < keys.len()
    &&& forall|i: int, j: int| 0 <= i < j < order.len() ==> order[i] != order[j]
    &&& forall|i: int, j: int|
        0 <= i < j < order.len() ==> listed_before(keys, order[i] as int, order[j] as int)
}

proof fn lemma_lex_trans(a: Seq<u8>, b: Seq<u8>, c: Seq<u8>, i: int)
    requires
        0 <= i,
        lex_lt_from(a, b, i),
        lex_lt_from(b, c, i),
    ensures
        lex_lt_from(a, c, i),
    decreases a.len() - i,
{
    if i < a.len() && i < b.len() && i < c.len() && a[i] == b[i] && b[i] == c[i] {
        lemma_lex_trans(a, b, c, i + 1);
    }
}

proof fn lemma_lex_total(a: Seq<u8>, b: Seq<u8>, i: int)
    requires
        0 <= i <= a.len(),
        i <= b.len(),
        !lex_lt_from(a, b, i),
        !lex_lt_from(b, a, i),
    ensures
        a.subrange(i, a.len() as int) == b.subrange(i, b.len() as int),
    decreases a.len() - i,
{
    if i < a.len() && i < b.len() {
        lemma_lex_total(a, b, i + 1);
        assert(a.subrange(i, a.len() as int) =~= seq![a[i]] + a.subrange(i + 1, a.len() as int));
        assert(b.subrange(i, b.len() as int) =~= seq![b[i]] + b.subrange(i + 1, b.len() as int));
    } else {
        assert(a.subrange(i, a.len() as int) =~= Seq::<u8>::empty());
        assert(b.subrange(i, b.len() as int) =~= Seq::<u8>::empty());
    }
}

proof fn lemma_key_trans(a: (bool, Seq<u8>), b: (bool, Seq<u8>), c: (bool, Seq<u8>))
    requires
        key_before(a, b),
        key_before(b, c),
    ensures
        key_before(a, c),
{
    if a.0 == b.0 && b.0 == c.0 {
        lemma_lex_trans(a.1, b.1, c.1, 0);
    }
}

proof fn lemma_key_total(a: (bool, Seq<u8>), b: (bool, Seq<u8>))
    requires
        !key_before(a, b),
    ensures
        key_before(b, a) || a == b,
{
    if a.0 == b.0 && !lex_lt(b.1, a.1) {
        lemma_lex_total(a.1, b.1, 0);
        assert(a.1.subrange(0, a.1.len() as int) =~= a.1);
        assert(b.1.subrange(0, b.1.len() as int) =~= b.1);
    }
}

fn lex_lt_exec(a: &[u8], b: &[u8]) -> (r: bool)
    ensures
        r == lex_lt(a@, b@),
{
    let mut i: usize = 0;
    while i < a.len() && i < b.len()
        invariant
            i <= a@.len(),
            i <= b@.len(),
            lex_lt(a@, b@) == lex_lt_from(a@, b@, i as int),
        decreases a@.len() - i,
    {
        if a[i] != b[i] {
            return a[i] < b[i];
        }
        i = i + 1;
    }
    i < b.len()
}

/// Whether key `a` is listed before key `b`.
fn key_before_exec(a: &EntryKey, b: &EntryKey) -> (r: bool)
    ensures
        r == key_before(key_view(*a), key_view(*b)),
{
    if a.is_dir && !b.is_dir {
        return true;
    }
    if a.is_dir != b.is_dir {
        return false;
    }
    lex_lt_exec(a.name.as_str().as_bytes(), b.name.as_str().as_bytes())
}

/// The order to list `keys` in (see `is_listing_order`): a stable sort,
/// folders first, then by name.
pub fn listing_order(keys: &[EntryKey]) -> (order: Vec<usize>)
    ensures
        is_listing_order(keys@, order@),
{
    let mut order: Vec<usize> = Vec::new();
    let mut k: usize = 0;
    while k < keys.len()
        invariant
            k <= keys@.len(),
            order@.len() == k,
            forall|i: int| 0 <= i < order@.len() ==> order@[i] < k,
            forall|i: int, j: int| 0 <= i < j < order@.len() ==> order@[i] != order@[j],
            forall|i: int, j: int|
                0 <= i < j < order@.len() ==> listed_before(keys@, order@[i] as int, order@[j] as int),
        decreases keys@.len() - k,
    {
        let mut pos: usize = 0;
        while pos < order.len() && !key_before_exec(&keys[k], &keys[order[pos]])
            invariant
                k < keys@.len(),
                pos <= order@.len(),
                forall|i: int| 0 <= i < order@.len() ==> order@[i] < k,
                forall|i: int|
                    0 <= i < pos ==> !key_before(key_view(keys@[k as int]), key_view(keys@[order@[i] as int])),
            decreases order@.len() - pos,
        {
            pos = pos + 1;
        }
        let ghost old_order = order@;
        order.insert(pos, k);
        proof {
            let q = order@;
            assert(q == old_order.insert(pos as int, k));
            let kk = key_view(keys@[k as int]);
            assert forall|i: int| 0 <= i < pos implies listed_before(keys@, old_order[i] as int, k as int) by {
                let ki = key_view(keys@[old_order[i] as int]);
                lemma_key_total(kk, ki);
            }
            if pos < old_order.len() {
                assert(key_before(kk, key_view(keys@[old_order[pos as int] as int])));
                assert forall|j: int| pos <= j < old_order.len() implies listed_before(
                    keys@,
                    k as int,
                    old_order[j] as int,
                ) by {
                    let kp = key_view(keys@[old_order[pos as int] as int]);
                    let kj = key_view(keys@[old_order[j] as int]);
                    if j > pos {
                        assert(listed_before(keys@, old_order[pos as int] as int, old_order[j] as int));
                        if key_before(kp, kj) {
                            lemma_key_trans(kk, kp, kj);
                        }
                    }
                }
            }
            assert forall|i: int, j: int| 0 <= i < j < q.len() implies listed_before(
                keys@,
                q[i] as int,
                q[j] as int,
            ) by {
                if j < pos {
                    assert(q[i] == old_order[i] && q[j] == old_order[j]);
                } else if j == pos {
                    assert(q[i] == old_order[i] && q[j] == k);
                } else if i < pos {
                    assert(q[i] == old_order[i] && q[j] == old_order[j - 1]);
                } else if i == pos {
                    assert(q[i] == k && q[j] == old_order[j - 1]);
                } else {
                    assert(q[i] == old_order[i - 1] && q[j] == old_order[j - 1]);
                }
            }
            assert forall|i: int, j: int| 0 <= i < j < q.len() implies q[i] != q[j] by {
                if i == pos || j == pos {
                } else if j < pos {
                    assert(q[i] == old_order[i] && q[j] == old_order[j]);
                } else if i < pos {
                    assert(q[i] == old_order[i] && q[j] == old_order[j - 1]);
                } else {
                    assert(q[i] == old_order[i - 1] && q[j] == old_order[j - 1]);
                }
            }
        }
        k = k + 1;
    }
    order
}

} // verus!
