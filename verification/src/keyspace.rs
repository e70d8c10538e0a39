//! The order of the store's keys and the range of keys that is reserved for posts.

use vstd::prelude::*;

verus! {

/// The store's order on keys: byte strings compared lexicographically.
///
/// `a` comes before `b` when they agree on their first `i` bytes and then
/// either `a` ends while `b` goes on, or `a` has the smaller byte.
pub open spec fn key_lt(a: Seq<u8>, b: Seq<u8>) -> bool {
    exists|i: int| #[trigger] differs_below_at(a, b, i)
}

/// `i` is the place where `a` and `b` first differ, and `a` is the smaller one there.
pub open spec fn differs_below_at(a: Seq<u8>, b: Seq<u8>, i: int) -> bool {
    &&& 0 <= i <= a.len()
    &&& i < b.len()
    &&& a.take(i) == b.take(i)
    &&& (i < a.len() ==> a[i] < b[i])
}

/// `key` lies in the half-open range from `begin` (inclusive) to `end` (exclusive).
pub open spec fn in_key_range(key: Seq<u8>, begin: Seq<u8>, end: Seq<u8>) -> bool {
    !key_lt(key, begin) && key_lt(key, end)
}

/// The bytes of `post-`: the first key of the range reserved for posts.
pub open spec fn post_range_begin() -> Seq<u8> {
    seq![0x70u8, 0x6fu8, 0x73u8, 0x74u8, 0x2du8]
}

/// The bytes of `post.`: the first key after the range reserved for posts.
pub open spec fn post_range_end() -> Seq<u8> {
    seq![0x70u8, 0x6fu8, 0x73u8, 0x74u8, 0x2eu8]
}

/// `key` is the key of a post: it lies in the reserved range.
pub open spec fn is_post_key(key: Seq<u8>) -> bool {
    in_key_range(key, post_range_begin(), post_range_end())
}

/// `key` starts with `prefix`.
pub open spec fn has_prefix(key: Seq<u8>, prefix: Seq<u8>) -> bool {
    prefix.len() <= key.len() && key.take(prefix.len() as int) == prefix
}

/// No key comes before itself.
pub proof fn lemma_key_lt_irreflexive(a: Seq<u8>)
    ensures
        !key_lt(a, a),
{
    assert forall|i: int| !differs_below_at(a, a, i) by {}
}

/// Of two keys that agree up to `i`, where the first is larger at `i` or the
/// second ends there, the first does not come before the second.
proof fn lemma_not_lt_from_difference(a: Seq<u8>, b: Seq<u8>, i: int)
    requires
        0 <= i <= a.len(),
        i <= b.len(),
        a.take(i) == b.take(i),
        i == b.len() || (i < a.len() && a[i] > b[i]),
    ensures
        !key_lt(a, b),
{
    assert forall|j: int| !differs_below_at(a, b, j) by {
        if differs_below_at(a, b, j) {
            if j < i {
                assert(a.take(i)[j] == a[j]);
                assert(b.take(i)[j] == b[j]);
            } else if j > i {
                assert(a.take(j)[i] == a[i]);
                assert(b.take(j)[i] == b[i]);
            }
        }
    }
}

/// Compares two keys in the store's order.
pub fn key_less(a: &[u8], b: &[u8]) -> (less: bool)
    ensures
        less == key_lt(a@, b@),
{
    let mut i: usize = 0;
    while i < a.len() && i < b.len() && a[i] == b[i]
        invariant
            i <= a.len(),
            i <= b.len(),
            a@.take(i as int) == b@.take(i as int),
        decreases a.len() - i,
    {
        assert(a@.take(i + 1) =~= a@.take(i as int).push(a@[i as int]));
        assert(b@.take(i + 1) =~= b@.take(i as int).push(b@[i as int]));
        i = i + 1;
    }
    if i == b.len() {
        proof {
            lemma_not_lt_from_difference(a@, b@, i as int);
        }
        false
    } else if i == a.len() {
        assert(differs_below_at(a@, b@, i as int));
        true
    } else if a[i] < b[i] {
        assert(differs_below_at(a@, b@, i as int));
        true
    } else {
        proof {
            lemma_not_lt_from_difference(a@, b@, i as int);
        }
        false
    }
}

/// Tells whether `key` lies in the range from `begin` (inclusive) to `end` (exclusive).
pub fn key_in_range(key: &[u8], begin: &[u8], end: &[u8]) -> (inside: bool)
    ensures
        inside == in_key_range(key@, begin@, end@),
{
    !key_less(key, begin) && key_less(key, end)
}

/// The first key of the range reserved for posts.
pub fn post_key_begin() -> (begin: Vec<u8>)
    ensures
        begin@ == post_range_begin(),
{
    let mut begin: Vec<u8> = Vec::new();
    begin.push(0x70u8);
    begin.push(0x6fu8);
    begin.push(0x73u8);
    begin.push(0x74u8);
    begin.push(0x2du8);
    assert(begin@ =~= post_range_begin());
    begin
}

/// The first key after the range reserved for posts.
pub fn post_key_end() -> (end: Vec<u8>)
    ensures
        end@ == post_range_end(),
{
    let mut end: Vec<u8> = Vec::new();
    end.push(0x70u8);
    end.push(0x6fu8);
    end.push(0x73u8);
    end.push(0x74u8);
    end.push(0x2eu8);
    assert(end@ =~= post_range_end());
    end
}

/// The keys of the reserved range are exactly the keys that start with `post-`.
pub proof fn lemma_post_keys_are_prefixed(key: Seq<u8>)
    ensures
        is_post_key(key) <==> has_prefix(key, post_range_begin()),
{
    let begin = post_range_begin();
    let end = post_range_end();
    assert(begin.take(4) =~= end.take(4));
    if has_prefix(key, begin) {
        assert(key.take(5) == begin);
        assert(key.take(5).take(4) =~= key.take(4));
        assert(begin.take(4) =~= key.take(4));
        assert(key[4] == key.take(5)[4]);
        assert(differs_below_at(key, end, 4));
        assert(key.take(5) =~= begin.take(5));
        lemma_not_lt_from_difference(key, begin, 5);
    }
    if is_post_key(key) {
        let i = choose|i: int| differs_below_at(key, end, i);
        assert(differs_below_at(key, end, i));
        assert forall|j: int| 0 <= j <= i && j <= 4 implies key.take(j) == begin.take(j) by {
            assert(key.take(i).take(j) =~= key.take(j));
            assert(end.take(i).take(j) =~= end.take(j));
            assert(end.take(j) =~= begin.take(j));
        }
        if i < 4 {
            assert(differs_below_at(key, begin, i));
        } else {
            assert(i == 4);
            if key.len() == 4 || key[4] < 0x2du8 {
                assert(differs_below_at(key, begin, 4));
            } else {
                assert(key[4] == 0x2du8);
                assert(key.take(5) =~= begin);
            }
        }
    }
}

/// Tells whether `key` is the key of a post.
pub fn post_key(key: &[u8]) -> (inside: bool)
    ensures
        inside == is_post_key(key@),
{
    let begin = post_key_begin();
    let end = post_key_end();
    key_in_range(key, begin.as_slice(), end.as_slice())
}

} // verus!
