use vstd::prelude::*;

verus! {

/// True when `needle` occurs as a contiguous run of bytes inside `bytes`.
pub open spec fn has_sequence(bytes: Seq<u8>, needle: Seq<u8>) -> bool {
    exists|i: int|
        0 <= i <= bytes.len() - needle.len() && #[trigger] bytes.subrange(i, i + needle.len())
            == needle
}

/// True when `needle` occurs in `bytes` starting at position `at`.
fn sequence_at(bytes: &[u8], needle: &[u8], at: usize) -> (b: bool)
    requires
        at + needle@.len() <= bytes@.len(),
    ensures
        b == (bytes@.subrange(at as int, at + needle@.len()) == needle@),
{
    let hn = bytes.len();
    let nn = needle.len();
    let mut j: usize = 0;
    while j < nn
        invariant
            j <= nn,
            hn == bytes@.len(),
            nn == needle@.len(),
            at + nn <= hn,
            forall|k: int| 0 <= k < j ==> bytes@[at + k] == #[trigger] needle@[k],
        decreases nn - j,
    {
        if bytes[at + j] != needle[j] {
            proof {
                assert(bytes@.subrange(at as int, at + needle@.len())[j as int] == bytes@[at + j]);
            }
            return false;
        }
        j += 1;
    }
    proof {
        assert(bytes@.subrange(at as int, at + needle@.len()) =~= needle@);
    }
    true
}

/// Decides whether `needle` occurs anywhere inside `bytes` as a contiguous
/// run of bytes.
pub fn vec_has_sequence(bytes: &[u8], needle: &[u8]) -> (b: bool)
    ensures
        b == has_sequence(bytes@, needle@),
{
    let hn = bytes.len();
    let nn = needle.len();
    if nn > hn {
        return false;
    }
    let last = hn - nn;
    let mut i: usize = 0;
    loop
        invariant_except_break
            nn <= hn,
            hn == bytes@.len(),
            nn == needle@.len(),
            last == hn - nn,
            i <= last,
            forall|k: int|
                0 <= k < i ==> #[trigger] bytes@.subrange(k, k + needle@.len()) != needle@,
        ensures
            forall|k: int|
                0 <= k <= bytes@.len() - needle@.len() ==> #[trigger] bytes@.subrange(
                    k,
                    k + needle@.len(),
                ) != needle@,
        decreases last - i,
    {
        if sequence_at(bytes, needle, i) {
            return true;
        }
        if i == last {
            break;
        }
        i += 1;
    }
    false
}

} // verus!
