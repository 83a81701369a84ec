//! Detection of the end-of-request marker in an accumulated byte stream.
use vstd::prelude::*;

verus! {

/// The four bytes `CR LF CR LF` that end a request.
pub open spec fn terminator() -> Seq<u8> {
    seq![13u8, 10u8, 13u8, 10u8]
}

/// The marker starts at index `i` of `s`.
pub open spec fn terminator_at(s: Seq<u8>, i: int) -> bool {
    0 <= i && i + 4 <= s.len() && s.subrange(i, i + 4) == terminator()
}

/// Somewhere in `s` stands the marker.
pub open spec fn has_terminator(s: Seq<u8>) -> bool {
    exists|i: int| terminator_at(s, i)
}

/// Scans every four-byte window of `buf` for the marker.
pub fn contains_terminator(buf: &[u8]) -> (r: bool)
    ensures
        r == has_terminator(buf@),
{
    let n = buf.len();
    if n < 4 {
        return false;
    }
    let mut i: usize = 0;
    while i <= n - 4
        invariant
            n == buf@.len(),
            4 <= n,
            i <= n - 3,
            forall|j: int| 0 <= j < i ==> !terminator_at(buf@, j),
        decreases n - i,
    {
        if buf[i] == 13u8 && buf[i + 1] == 10u8 && buf[i + 2] == 13u8 && buf[i + 3] == 10u8 {
            assert(buf@.subrange(i as int, i + 4) =~= terminator());
            assert(terminator_at(buf@, i as int));
            return true;
        }
        assert(!terminator_at(buf@, i as int)) by {
            if buf@.subrange(i as int, i + 4) == terminator() {
                assert(buf@.subrange(i as int, i + 4)[0] == buf@[i as int]);
                assert(buf@.subrange(i as int, i + 4)[1] == buf@[i + 1]);
                assert(buf@.subrange(i as int, i + 4)[2] == buf@[i + 2]);
                assert(buf@.subrange(i as int, i + 4)[3] == buf@[i + 3]);
            }
        }
        i = i + 1;
    }
    false
}

/// A marker in `a` is still there once more bytes follow.
pub proof fn lemma_terminator_persists(a: Seq<u8>, b: Seq<u8>)
    requires
        has_terminator(a),
    ensures
        has_terminator(a + b),
{
    let i = choose|i: int| terminator_at(a, i);
    assert((a + b).subrange(i, i + 4) =~= a.subrange(i, i + 4));
    assert(terminator_at(a + b, i));
}

} // verus!
