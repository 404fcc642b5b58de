//! Two strategies for deciding whether all bytes of a string are distinct —
//! sorting and checking neighbours, or scanning for an earlier occurrence —
//! and a driver that applies whichever strategy it is handed.

use vstd::prelude::*;
use vstd::string::StringSliceAdditionalSpecFns;
use vstd::utf8::encode_utf8;

verus! {

/// Walks a string's characters in wrapping pairs: each character together
/// with its successor, the last one together with the first.
pub struct Pairs {
    chars: Vec<char>,
    curr_idx: usize,
}

impl Pairs {
    /// The characters being walked.
    pub closed spec fn spec_chars(&self) -> Seq<char> {
        self.chars@
    }

    /// How many pairs were already handed out.
    pub closed spec fn spec_idx(&self) -> int {
        self.curr_idx as int
    }

    /// The next wrapping pair, or nothing once every character has been
    /// paired.
    pub fn next(&mut self) -> (r: Option<(char, char)>)
        ensures
            final(self).spec_chars() == old(self).spec_chars(),
            if old(self).spec_idx() < old(self).spec_chars().len() {
                &&& r == Some(
                    (
                        old(self).spec_chars()[old(self).spec_idx()],
                        old(self).spec_chars()[(old(self).spec_idx() + 1) % old(
                            self,
                        ).spec_chars().len() as int],
                    ),
                )
                &&& final(self).spec_idx() == old(self).spec_idx() + 1
            } else {
                r is None && final(self).spec_idx() == old(self).spec_idx()
            },
    {
        let n = self.chars.len();
        if self.curr_idx >= n {
            None
        } else {
            let left = self.chars[self.curr_idx];
            self.curr_idx = self.curr_idx + 1;
            let right_idx = self.curr_idx % n;
            let right = self.chars[right_idx];
            Some((left, right))
        }
    }
}

/// A pair walker over the characters of `seq`, starting at the first.
pub fn pairs(seq: &String) -> (r: Pairs)
    ensures
        r.spec_chars() == seq@,
        r.spec_idx() == 0,
{
    Pairs { chars: crate::text::str_to_chars(seq.as_str()), curr_idx: 0 }
}

/// `v` sorted into ascending order: the same bytes, neighbours in order.
fn sort_bytes(v: &Vec<u8>) -> (r: Vec<u8>)
    ensures
        r@.to_multiset() == v@.to_multiset(),
        forall|x: int, y: int| 0 <= x < y < r@.len() ==> r@[x] <= r@[y],
{
    broadcast use vstd::seq_lib::group_to_multiset_ensures;

    let mut r: Vec<u8> = Vec::new();
    let mut i: usize = 0;
    proof {
        assert(v@.take(0) =~= Seq::<u8>::empty());
        assert(r@ =~= Seq::<u8>::empty());
    }
    while i < v.len()
        invariant
            i <= v@.len(),
            r@.to_multiset() == v@.take(i as int).to_multiset(),
            forall|x: int, y: int| 0 <= x < y < r@.len() ==> r@[x] <= r@[y],
        decreases v@.len() - i,
    {
        let x = v[i];
        let mut p: usize = 0;
        while p < r.len() && r[p] <= x
            invariant
                p <= r@.len(),
                forall|m: int| 0 <= m < p ==> r@[m] <= x,
            decreases r@.len() - p,
        {
            p = p + 1;
        }
        let ghost r0 = r@;
        r.insert(p, x);
        proof {
            r0.insert_ensures(p as int, x);
            assert(r@ == r0.insert(p as int, x));
            vstd::seq_lib::to_multiset_insert(r0, p as int, x);
            vstd::seq_lib::to_multiset_build(v@.take(i as int), x);
            assert(v@.take(i as int).push(x) =~= v@.take(i as int + 1));
            assert forall|a: int, b: int| 0 <= a < b < r@.len() implies r@[a] <= r@[b] by {
                if b < p as int {
                } else if a == p as int {
                    assert(r@[b] == r0[b - 1]);
                } else if b == p as int {
                    assert(r@[a] == r0[a]);
                } else if a < p as int && b > p as int {
                    assert(r@[a] == r0[a] && r@[b] == r0[b - 1]);
                } else {
                    assert(r@[a] == r0[a - 1] && r@[b] == r0[b - 1]);
                }
            }
        }
        i = i + 1;
    }
    proof {
        assert(v@.take(v@.len() as int) =~= v@);
    }
    r
}

/// Decides whether all bytes of `s` are distinct by sorting them and looking
/// for equal neighbours.
pub fn all_unique_sort(s: String) -> (r: bool)
    ensures
        r == encode_utf8(s@).no_duplicates(),
{
    broadcast use vstd::seq_lib::group_to_multiset_ensures;

    let bytes = s.as_str().as_bytes_vec();
    let sorted = sort_bytes(&bytes);
    let n = sorted.len();
    if n == 0 {
        proof {
            assert(bytes@.to_multiset().len() == 0);
            assert(bytes@.len() == 0);
        }
        return true;
    }
    let mut i: usize = 0;
    while i < n - 1
        invariant
            1 <= n == sorted@.len(),
            i <= n - 1,
            bytes@ == encode_utf8(s@),
            sorted@.to_multiset() == bytes@.to_multiset(),
            forall|x: int, y: int| 0 <= x < y < sorted@.len() ==> sorted@[x] <= sorted@[y],
            forall|m: int| 0 <= m < i ==> (#[trigger] sorted@[m]) != sorted@[m + 1],
        decreases n - i,
    {
        if sorted[i] == sorted[i + 1] {
            proof {
                assert(!encode_utf8(s@).no_duplicates()) by {
                    if encode_utf8(s@).no_duplicates() {
                        bytes@.lemma_multiset_has_no_duplicates();
                        sorted@.lemma_multiset_has_no_duplicates_conv();
                        assert(false);
                    }
                }
            }
            return false;
        }
        i = i + 1;
    }
    proof {
        assert(sorted@.no_duplicates()) by {
            assert forall|a: int, b: int|
                0 <= a < b < sorted@.len() implies sorted@[a] != sorted@[b] by {
                assert(sorted@[b - 1] != sorted@[b]);
                if a < b - 1 {
                    assert(sorted@[a] <= sorted@[b - 1]);
                }
            }
        }
        sorted@.lemma_multiset_has_no_duplicates();
        bytes@.lemma_multiset_has_no_duplicates_conv();
    }
    true
}

/// Decides whether all bytes of `s` are distinct by scanning for an earlier
/// occurrence of each byte.
pub fn all_unique_set(s: String) -> (r: bool)
    ensures
        r == encode_utf8(s@).no_duplicates(),
{
    let bytes = s.as_str().as_bytes_vec();
    let n = bytes.len();
    let mut i: usize = 0;
    while i < n
        invariant
            i <= n,
            n == bytes@.len(),
            bytes@ == encode_utf8(s@),
            forall|a: int, b: int| 0 <= a < b < i ==> bytes@[a] != bytes@[b],
        decreases n - i,
    {
        let mut j: usize = 0;
        while j < i
            invariant
                j <= i < n,
                n == bytes@.len(),
                bytes@ == encode_utf8(s@),
                forall|m: int| 0 <= m < j ==> bytes@[m] != bytes@[i as int],
            decreases i - j,
        {
            if bytes[j] == bytes[i] {
                proof {
                    assert(!encode_utf8(s@).no_duplicates()) by {
                        assert(bytes@[j as int] == bytes@[i as int]);
                    }
                }
                return false;
            }
            j = j + 1;
        }
        i = i + 1;
    }
    true
}

/// Applies whichever distinctness strategy it is handed to the word.
pub fn all_unique<F: Fn(String) -> bool>(word: String, strategy: &F) -> (r: bool)
    requires
        call_requires(*strategy, (word,)),
    ensures
        call_ensures(*strategy, (word,), r),
{
    strategy(word)
}

} // verus!
