//! Small verified byte-buffer helpers shared by the capture and command
//! modules.

use vstd::prelude::*;

verus! {

/// Appends a byte slice to a buffer.
pub fn append_bytes(dst: &mut Vec<u8>, src: &[u8])
    ensures
        final(dst)@ == old(dst)@ + src@,
{
    let n = src.len();
    let mut j: usize = 0;
    while j < n
        invariant
            n == src@.len(),
            0 <= j <= n,
            dst@ == old(dst)@ + src@.take(j as int),
        decreases n - j,
    {
        dst.push(src[j]);
        proof {
            assert(old(dst)@ + src@.take(j + 1) =~= (old(dst)@ + src@.take(j as int)).push(
                src@[j as int],
            ));
        }
        j += 1;
    }
    proof {
        assert(old(dst)@ + src@.take(n as int) =~= old(dst)@ + src@);
    }
}

/// Copies a byte buffer.
pub fn clone_bytes(src: &Vec<u8>) -> (r: Vec<u8>)
    ensures
        r@ == src@,
{
    let mut out: Vec<u8> = Vec::new();
    append_bytes(&mut out, src.as_slice());
    proof {
        assert(Seq::<u8>::empty() + src@ =~= src@);
    }
    out
}

/// Copies at most `bound` leading bytes of a slice.
pub fn take_bytes(src: &[u8], bound: usize) -> (r: Vec<u8>)
    ensures
        src@.len() <= bound ==> r@ == src@,
        src@.len() > bound ==> r@ == src@.take(bound as int),
{
    let upto = if src.len() > bound {
        bound
    } else {
        src.len()
    };
    let mut out: Vec<u8> = Vec::new();
    let mut j: usize = 0;
    while j < upto
        invariant
            upto <= src@.len(),
            0 <= j <= upto,
            out@ == src@.take(j as int),
        decreases upto - j,
    {
        out.push(src[j]);
        proof {
            assert(src@.take(j + 1) =~= src@.take(j as int).push(src@[j as int]));
        }
        j += 1;
    }
    proof {
        if src@.len() <= bound {
            assert(src@.take(upto as int) =~= src@);
        }
    }
    out
}

} // verus!
