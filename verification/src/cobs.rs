//! COBS-style byte stuffing: the transform that keeps the frame delimiter
//! byte `0x00` out of a frame's body, so a zero on the wire always marks a
//! frame boundary.
//!
//! An encoded body is a chain of blocks. Each block begins with a code byte
//! `c` in `1..=255` followed by `c - 1` literal bytes; a code below `255`
//! stands for a delimiter byte at that position of the original data (unless
//! the block is the last), a code of `255` for a full run of `254` literal
//! bytes with no delimiter.

use vstd::prelude::*;

verus! {

/// No byte of `s` is the frame delimiter.
pub open spec fn zero_free(s: Seq<u8>) -> bool {
    forall|i: int| 0 <= i < s.len() ==> s[i] != 0u8
}

/// Index of the first delimiter byte in `s`, or `s.len()` if there is none.
pub open spec fn first_zero(s: Seq<u8>) -> int
    decreases s.len(),
{
    if s.len() == 0 {
        0
    } else if s[0] == 0u8 {
        0
    } else {
        1 + first_zero(s.drop_first())
    }
}

/// `first_zero` points at the first delimiter: everything before it is
/// delimiter-free, and it stays within the sequence.
proof fn lemma_first_zero(s: Seq<u8>)
    ensures
        0 <= first_zero(s) <= s.len(),
        forall|i: int| 0 <= i < first_zero(s) ==> s[i] != 0u8,
        first_zero(s) < s.len() ==> s[first_zero(s)] == 0u8,
    decreases s.len(),
{
    if s.len() == 0 {
    } else if s[0] == 0u8 {
    } else {
        lemma_first_zero(s.drop_first());
        assert forall|i: int| 0 <= i < first_zero(s) implies s[i] != 0u8 by {
            if i > 0 {
                assert(s.drop_first()[i - 1] == s[i]);
            }
        }
        if first_zero(s) < s.len() {
            assert(s.drop_first()[first_zero(s) - 1] == s[first_zero(s)]);
        }
    }
}

/// A sequence whose first `k` bytes are delimiter-free, with a delimiter (or
/// the end) right after them, has its first delimiter exactly at `k`.
proof fn lemma_first_zero_is(s: Seq<u8>, k: int)
    requires
        0 <= k <= s.len(),
        forall|j: int| 0 <= j < k ==> s[j] != 0u8,
        k < s.len() ==> s[k] == 0u8,
    ensures
        first_zero(s) == k,
    decreases s.len(),
{
    if k == 0 {
    } else {
        assert(s[0] != 0u8);
        assert forall|j: int| 0 <= j < k - 1 implies s.drop_first()[j] != 0u8 by {
            assert(s.drop_first()[j] == s[j + 1]);
        }
        if k - 1 < s.drop_first().len() {
            assert(s.drop_first()[k - 1] == s[k]);
        }
        lemma_first_zero_is(s.drop_first(), k - 1);
    }
}

/// The stuffed form of `s`: blocks as described at the top of this module.
pub open spec fn cobs_encode_spec(s: Seq<u8>) -> Seq<u8>
    decreases s.len(),
    via cobs_encode_spec_dec
{
    let z = first_zero(s);
    if z >= 254 {
        seq![255u8] + s.take(254) + cobs_encode_spec(s.skip(254))
    } else if z == s.len() {
        seq![(z + 1) as u8] + s
    } else {
        seq![(z + 1) as u8] + s.take(z) + cobs_encode_spec(s.skip(z + 1))
    }
}

#[via_fn]
proof fn cobs_encode_spec_dec(s: Seq<u8>) {
    lemma_first_zero(s);
}

/// The unstuffed form of an encoded body, or `None` where the chain of
/// blocks is broken (a zero code byte, or a block running past the end).
pub open spec fn cobs_decode_spec(s: Seq<u8>) -> Option<Seq<u8>>
    decreases s.len(),
{
    if s.len() == 0 {
        Some(Seq::empty())
    } else {
        let c = s[0] as int;
        if c == 0 {
            None
        } else if s.len() < c {
            None
        } else {
            let data = s.subrange(1, c);
            let rest = s.skip(c);
            match cobs_decode_spec(rest) {
                None => None,
                Some(d) => {
                    if rest.len() == 0 {
                        Some(data)
                    } else if c == 255 {
                        Some(data + d)
                    } else {
                        Some(data + seq![0u8] + d)
                    }
                },
            }
        }
    }
}

/// An encoded body is never empty and never contains the delimiter.
pub proof fn lemma_cobs_encode_zero_free(s: Seq<u8>)
    ensures
        cobs_encode_spec(s).len() >= 1,
        zero_free(cobs_encode_spec(s)),
    decreases s.len(),
{
    lemma_first_zero(s);
    let z = first_zero(s);
    let e = cobs_encode_spec(s);
    if z >= 254 {
        lemma_cobs_encode_zero_free(s.skip(254));
        assert forall|i: int| 0 <= i < e.len() implies e[i] != 0u8 by {
            if i == 0 {
            } else if i <= 254 {
                assert(e[i] == s[i - 1]);
            } else {
                assert(e[i] == cobs_encode_spec(s.skip(254))[i - 255]);
            }
        }
    } else if z == s.len() {
        assert forall|i: int| 0 <= i < e.len() implies e[i] != 0u8 by {
            if i > 0 {
                assert(e[i] == s[i - 1]);
            }
        }
    } else {
        lemma_cobs_encode_zero_free(s.skip(z + 1));
        assert forall|i: int| 0 <= i < e.len() implies e[i] != 0u8 by {
            if i == 0 {
            } else if i <= z {
                assert(e[i] == s[i - 1]);
            } else {
                assert(e[i] == cobs_encode_spec(s.skip(z + 1))[i - z - 1]);
            }
        }
    }
}

/// A coarse but sufficient size bound: stuffing at worst doubles the data
/// and adds one code byte.
pub proof fn lemma_cobs_encode_len(s: Seq<u8>)
    ensures
        cobs_encode_spec(s).len() <= 2 * s.len() + 1,
    decreases s.len(),
{
    lemma_first_zero(s);
    let z = first_zero(s);
    if z >= 254 {
        lemma_cobs_encode_len(s.skip(254));
    } else if z == s.len() {
    } else {
        lemma_cobs_encode_len(s.skip(z + 1));
    }
}

/// Unstuffing inverts stuffing: decoding an encoded body gives back exactly
/// the original bytes, for every byte sequence.
pub proof fn lemma_cobs_round_trip(s: Seq<u8>)
    ensures
        cobs_decode_spec(cobs_encode_spec(s)) == Some(s),
    decreases s.len(),
{
    lemma_first_zero(s);
    let z = first_zero(s);
    let e = cobs_encode_spec(s);
    if z >= 254 {
        lemma_cobs_round_trip(s.skip(254));
        lemma_cobs_encode_zero_free(s.skip(254));
        let rest = cobs_encode_spec(s.skip(254));
        assert(e[0] == 255u8);
        assert(e.len() == 255 + rest.len());
        assert(e.subrange(1, 255) =~= s.take(254));
        assert(e.skip(255) =~= rest);
        assert(rest.len() != 0);
        assert(cobs_decode_spec(e) == Some(s.take(254) + s.skip(254)));
        assert(s.take(254) + s.skip(254) =~= s);
    } else if z == s.len() {
        assert(e[0] == (z + 1) as u8);
        assert(e.len() == z + 1);
        assert(e[0] as int == z + 1);
        assert(e.subrange(1, z + 1) =~= s);
        assert(e.skip(z + 1) =~= Seq::<u8>::empty());
        assert(cobs_decode_spec(Seq::<u8>::empty()) == Some(Seq::<u8>::empty()));
        assert(cobs_decode_spec(e) == Some(s));
    } else {
        lemma_cobs_round_trip(s.skip(z + 1));
        lemma_cobs_encode_zero_free(s.skip(z + 1));
        let rest = cobs_encode_spec(s.skip(z + 1));
        assert(e[0] == (z + 1) as u8);
        assert(e[0] as int == z + 1);
        assert(e.len() == z + 1 + rest.len());
        assert(e.subrange(1, z + 1) =~= s.take(z));
        assert(e.skip(z + 1) =~= rest);
        assert(rest.len() != 0);
        assert(cobs_decode_spec(e) == Some(s.take(z) + seq![0u8] + s.skip(z + 1)));
        assert(s.take(z) + seq![0u8] + s.skip(z + 1) =~= s);
    }
}

/// Find the first delimiter at or after `from`, or the end of `s`.
fn first_zero_from(s: &Vec<u8>, from: usize) -> (r: usize)
    requires
        from <= s@.len(),
    ensures
        from <= r <= s@.len(),
        r - from == first_zero(s@.skip(from as int)),
{
    let mut i: usize = from;
    while i < s.len() && s[i] != 0u8
        invariant
            from <= i <= s@.len(),
            forall|j: int| from <= j < i ==> s@[j] != 0u8,
        decreases s@.len() - i,
    {
        i = i + 1;
    }
    proof {
        let t = s@.skip(from as int);
        assert forall|j: int| 0 <= j < i - from implies t[j] != 0u8 by {
            assert(t[j] == s@[from + j]);
        }
        if i < s@.len() {
            assert(t[i - from] == s@[i as int]);
        }
        lemma_first_zero_is(t, i as int - from as int);
    }
    i
}

/// Append the bytes `s[lo..hi]` to `out`.
pub(crate) fn push_range(out: &mut Vec<u8>, s: &Vec<u8>, lo: usize, hi: usize)
    requires
        lo <= hi <= s@.len(),
    ensures
        final(out)@ == old(out)@ + s@.subrange(lo as int, hi as int),
{
    let ghost pre = out@;
    let mut i: usize = lo;
    while i < hi
        invariant
            lo <= i <= hi <= s@.len(),
            out@ == pre + s@.subrange(lo as int, i as int),
        decreases hi - i,
    {
        out.push(s[i]);
        proof {
            assert(s@.subrange(lo as int, i + 1 as int)
                =~= s@.subrange(lo as int, i as int) + seq![s@[i as int]]);
        }
        i = i + 1;
    }
}

/// Append the stuffed form of `s[from..]` to `out`.
fn cobs_encode_from(s: &Vec<u8>, from: usize, out: &mut Vec<u8>)
    requires
        from <= s@.len(),
    ensures
        final(out)@ == old(out)@ + cobs_encode_spec(s@.skip(from as int)),
    decreases s@.len() - from,
{
    let ghost tail = s@.skip(from as int);
    let ghost z = first_zero(tail);
    proof {
        lemma_first_zero(tail);
    }
    let fz = first_zero_from(s, from);
    if fz - from >= 254 {
        out.push(255u8);
        push_range(out, s, from, from + 254);
        cobs_encode_from(s, from + 254, out);
        proof {
            assert(tail.take(254) =~= s@.subrange(from as int, from as int + 254));
            assert(tail.skip(254) =~= s@.skip(from as int + 254));
        }
    } else if fz == s.len() {
        out.push((fz - from + 1) as u8);
        push_range(out, s, from, fz);
        proof {
            assert(tail =~= s@.subrange(from as int, fz as int));
        }
    } else {
        out.push((fz - from + 1) as u8);
        push_range(out, s, from, fz);
        cobs_encode_from(s, fz + 1, out);
        proof {
            assert(tail.take(z) =~= s@.subrange(from as int, fz as int));
            assert(tail.skip(z + 1) =~= s@.skip(fz as int + 1));
        }
    }
}

/// Stuff `s` into a delimiter-free body, as `cobs_encode_spec` describes.
pub fn cobs_encode(s: &Vec<u8>) -> (r: Vec<u8>)
    ensures
        r@ == cobs_encode_spec(s@),
{
    let mut out: Vec<u8> = Vec::new();
    cobs_encode_from(s, 0, &mut out);
    proof {
        assert(s@.skip(0) =~= s@);
    }
    out
}

/// Append the unstuffed form of `s[from..]` to `out`; false where the chain
/// of blocks is broken (`out` is then meaningless).
fn cobs_decode_from(s: &Vec<u8>, from: usize, out: &mut Vec<u8>) -> (ok: bool)
    requires
        from <= s@.len(),
    ensures
        ({
            let d = cobs_decode_spec(s@.skip(from as int));
            match d {
                Some(dd) => ok && final(out)@ == old(out)@ + dd,
                None => !ok,
            }
        }),
    decreases s@.len() - from,
{
    let ghost tail = s@.skip(from as int);
    if from == s.len() {
        proof {
            assert(tail =~= Seq::<u8>::empty());
        }
        return true;
    }
    let c = s[from];
    assert(c == tail[0]);
    if c == 0 {
        return false;
    }
    let clen = c as usize;
    if s.len() - from < clen {
        return false;
    }
    push_range(out, s, from + 1, from + clen);
    proof {
        assert(tail.subrange(1, c as int) =~= s@.subrange(from as int + 1, from as int + clen as int));
    }
    let rest_start = from + clen;
    if rest_start == s.len() {
        proof {
            assert(tail.skip(c as int) =~= Seq::<u8>::empty());
            assert(cobs_decode_spec(Seq::<u8>::empty()) == Some(Seq::<u8>::empty()));
        }
        return true;
    }
    if c < 255 {
        out.push(0u8);
    }
    let ok = cobs_decode_from(s, rest_start, out);
    proof {
        assert(tail.skip(c as int) =~= s@.skip(rest_start as int));
    }
    ok
}

/// Unstuff an encoded body, as `cobs_decode_spec` describes; `None` where
/// the chain of blocks is broken.
pub fn cobs_decode(s: &Vec<u8>) -> (r: Option<Vec<u8>>)
    ensures
        ({
            let d = cobs_decode_spec(s@);
            match r {
                Some(v) => d == Some(v@),
                None => d is None,
            }
        }),
{
    let mut out: Vec<u8> = Vec::new();
    let ok = cobs_decode_from(s, 0, &mut out);
    proof {
        assert(s@.skip(0) =~= s@);
    }
    if ok {
        Some(out)
    } else {
        None
    }
}

} // verus!
