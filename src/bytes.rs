//! Byte-string helpers: copying, comparison and substring search.

use vstd::prelude::*;

verus! {

/// `pat` occurs in `text` starting at position `i`.
pub open spec fn occurs_at(text: Seq<u8>, pat: Seq<u8>, i: int) -> bool {
    0 <= i && i + pat.len() <= text.len() && text.subrange(i, i + pat.len()) == pat
}

/// `pat` is a contiguous part of `text` (the empty pattern is part of every text).
pub open spec fn contains_bytes(text: Seq<u8>, pat: Seq<u8>) -> bool {
    exists|i: int| occurs_at(text, pat, i)
}

pub fn copy_bytes(b: &[u8]) -> (r: Vec<u8>)
    ensures
        r@ == b@,
{
    let mut r: Vec<u8> = Vec::new();
    let mut i: usize = 0;
    while i < b.len()
        invariant
            i <= b.len(),
            r@ == b@.subrange(0, i as int),
        decreases b.len() - i,
    {
        r.push(b[i]);
        i = i + 1;
    }
    assert(r@ =~= b@);
    r
}

pub fn bytes_equal(a: &[u8], b: &[u8]) -> (r: bool)
    ensures
        r == (a@ == b@),
{
    if a.len() != b.len() {
        return false;
    }
    let mut i: usize = 0;
    while i < a.len()
        invariant
            a.len() == b.len(),
            i <= a.len(),
            forall|j: int| 0 <= j < i ==> a@[j] == b@[j],
        decreases a.len() - i,
    {
        if a[i] != b[i] {
            return false;
        }
        i = i + 1;
    }
    assert(a@ =~= b@);
    true
}

/// Whether `pat` occurs anywhere in `text`.
pub fn find_bytes(text: &[u8], pat: &[u8]) -> (r: bool)
    ensures
        r == contains_bytes(text@, pat@),
{
    if pat.len() > text.len() {
        assert forall|i: int| !occurs_at(text@, pat@, i) by {}
        return false;
    }
    if pat.len() == 0 {
        assert(text@.subrange(0, 0) =~= pat@);
        assert(occurs_at(text@, pat@, 0));
        return true;
    }
    let last = text.len() - pat.len();
    let mut i: usize = 0;
    while i <= last
        invariant
            last == text.len() - pat.len(),
            1 <= pat.len() <= text.len(),
            i <= last + 1,
            forall|k: int| 0 <= k < i ==> !occurs_at(text@, pat@, k),
        decreases last + 1 - i,
    {
        let mut j: usize = 0;
        let mut same = true;
        while j < pat.len()
            invariant
                i <= last,
                last == text.len() - pat.len(),
                j <= pat.len(),
                same ==> forall|t: int| 0 <= t < j ==> text@[i + t] == pat@[t],
                !same ==> !occurs_at(text@, pat@, i as int),
            decreases pat.len() - j,
        {
            if text[i + j] != pat[j] {
                same = false;
                assert(text@.subrange(i as int, i + pat.len())[j as int] != pat@[j as int]);
                j = pat.len();
            } else {
                j = j + 1;
            }
        }
        if same {
            assert(text@.subrange(i as int, i + pat.len()) =~= pat@);
            assert(occurs_at(text@, pat@, i as int));
            return true;
        }
        i = i + 1;
    }
    assert forall|k: int| !occurs_at(text@, pat@, k) by {
        if 0 <= k < i {
        } else if k >= i {
            assert(k + pat.len() > text.len());
        }
    }
    false
}

} // verus!
