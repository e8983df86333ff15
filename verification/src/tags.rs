//! Workspace tag sets.
//!
//! The window manager reports the tags in view as an array of 32-bit words,
//! four bytes per word in little-endian order. The bar keeps them as a
//! strictly ascending list — a sorted set — and the renderer inserts the
//! focused tag into that set when it is not already a member.

use vstd::prelude::*;

verus! {

/// `s` is strictly ascending: a sorted list without duplicates.
pub open spec fn strictly_sorted(s: Seq<u32>) -> bool {
    forall|i: int, j: int| 0 <= i < j < s.len() ==> s[i] < s[j]
}

/// The 32-bit word beginning at byte `4 * i` of `bytes`, read
/// little-endian.
pub open spec fn spec_word_at(bytes: Seq<u8>, i: int) -> u32
    recommends
        0 <= i,
        4 * i + 4 <= bytes.len(),
{
    (bytes[4 * i] + 0x100 * bytes[4 * i + 1] + 0x1_0000 * bytes[4 * i + 2] + 0x100_0000 * bytes[4
        * i + 3]) as u32
}

/// Reads the tag words out of the byte array delivered by the window
/// manager: one 32-bit little-endian word per four bytes, any trailing
/// bytes ignored.
pub fn decode_tag_words(bytes: &Vec<u8>) -> (words: Vec<u32>)
    ensures
        words@.len() == bytes@.len() / 4,
        forall|i: int| 0 <= i < words@.len() ==> words@[i] == spec_word_at(bytes@, i),
{
    let total = bytes.len();
    let n = total / 4;
    let mut words: Vec<u32> = Vec::new();
    let mut i: usize = 0;
    while i < n
        invariant
            i <= n,
            total == bytes@.len(),
            n == bytes@.len() / 4,
            words@.len() == i,
            forall|k: int| 0 <= k < i ==> words@[k] == spec_word_at(bytes@, k),
        decreases n - i,
    {
        proof {
            assert(4 * i + 4 <= bytes@.len()) by {
                assert(4 * (i + 1) <= 4 * n) by (nonlinear_arith)
                    requires
                        i + 1 <= n,
                ;
                vstd::arithmetic::div_mod::lemma_fundamental_div_mod(bytes@.len() as int, 4);
            }
        }
        let b0 = bytes[4 * i] as u32;
        let b1 = bytes[4 * i + 1] as u32;
        let b2 = bytes[4 * i + 2] as u32;
        let b3 = bytes[4 * i + 3] as u32;
        words.push(b0 + 0x100 * b1 + 0x1_0000 * b2 + 0x100_0000 * b3);
        i = i + 1;
    }
    words
}

/// Inserts `x` into the sorted set `v`: afterwards `v` is still strictly
/// ascending and holds exactly its old members plus `x`.
pub fn insert_sorted(v: &mut Vec<u32>, x: u32)
    requires
        strictly_sorted(old(v)@),
        old(v)@.len() < usize::MAX,
    ensures
        strictly_sorted(final(v)@),
        forall|y: u32| final(v)@.contains(y) <==> old(v)@.contains(y) || y == x,
        final(v)@.len() <= old(v)@.len() + 1,
{
    let n = v.len();
    let mut idx: usize = 0;
    while idx < n && v[idx] < x
        invariant
            idx <= n,
            n == v@.len(),
            forall|k: int| 0 <= k < idx ==> v@[k] < x,
        decreases n - idx,
    {
        idx = idx + 1;
    }
    if idx < n && v[idx] == x {
        proof {
            assert(v@.contains(x));
        }
        return ;
    }
    let ghost pre = v@;
    v.insert(idx, x);
    proof {
        pre.insert_ensures(idx as int, x);
        assert forall|i: int, j: int| 0 <= i < j < v@.len() implies v@[i] < v@[j] by {
            if j < idx {
            } else if i < idx && j == idx {
            } else if i == idx {
                assert(v@[j] == pre[j - 1]);
                assert(pre[j - 1] > x) by {
                    if j - 1 > idx {
                        assert(pre[idx as int] < pre[j - 1]);
                    }
                }
            } else if i > idx {
                assert(v@[i] == pre[i - 1] && v@[j] == pre[j - 1]);
            } else {
                assert(v@[i] == pre[i] && v@[j] == pre[j - 1]);
                assert(pre[j - 1] >= x);
                if j - 1 > idx {
                    assert(pre[idx as int] < pre[j - 1]);
                }
                assert(pre[i] < x);
            }
        }
        assert forall|y: u32| final(v)@.contains(y) <==> pre.contains(y) || y == x by {
            if y == x {
                assert(v@[idx as int] == x);
                assert(v@.contains(y));
            } else {
                if pre.contains(y) {
                    let k = choose|k: int| 0 <= k < pre.len() && pre[k] == y;
                    if k < idx {
                        assert(v@[k] == y);
                    } else {
                        assert(v@[k + 1] == y);
                    }
                    assert(v@.contains(y));
                }
                if v@.contains(y) {
                    let k = choose|k: int| 0 <= k < v@.len() && v@[k] == y;
                    if k < idx {
                        assert(pre[k] == y);
                    } else if k > idx {
                        assert(pre[k - 1] == y);
                    }
                    assert(pre.contains(y));
                }
            }
        }
    }
}

/// Turns the raw tag words into the bar's canonical form: a strictly
/// ascending list holding exactly the values that occurred, each once.
pub fn normalize_tags(raw: &Vec<u32>) -> (r: Vec<u32>)
    ensures
        strictly_sorted(r@),
        forall|y: u32| r@.contains(y) <==> raw@.contains(y),
        r@.len() <= raw@.len(),
{
    let n = raw.len();
    let mut r: Vec<u32> = Vec::new();
    let mut i: usize = 0;
    while i < n
        invariant
            i <= n,
            n == raw@.len(),
            strictly_sorted(r@),
            r@.len() <= i,
            forall|y: u32| r@.contains(y) <==> raw@.take(i as int).contains(y),
        decreases n - i,
    {
        let ghost pre = r@;
        insert_sorted(&mut r, raw[i]);
        proof {
            assert(raw@.take(i + 1).drop_last() =~= raw@.take(i as int));
            assert(raw@.take(i + 1).last() == raw@[i as int]);
            assert forall|y: u32| r@.contains(y) <==> raw@.take(i + 1).contains(y) by {
                if raw@.take(i + 1).contains(y) {
                    let k = choose|k: int|
                        0 <= k < raw@.take(i + 1).len() && #[trigger] raw@.take(i + 1)[k] == y;
                    if k < i {
                        assert(raw@.take(i as int)[k] == y);
                        assert(raw@.take(i as int).contains(y));
                    }
                }
                if raw@.take(i as int).contains(y) {
                    let k = choose|k: int|
                        0 <= k < raw@.take(i as int).len() && #[trigger] raw@.take(i as int)[k]
                            == y;
                    assert(raw@.take(i + 1)[k] == y);
                    assert(raw@.take(i + 1).contains(y));
                }
            }
        }
        i = i + 1;
    }
    proof {
        assert(raw@.take(n as int) =~= raw@);
    }
    r
}

} // verus!
