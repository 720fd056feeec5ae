//! Little-endian packing of 32-bit words into byte streams, as the GPU
//! expects vertex attribute and uniform block data to be laid out.

use vstd::prelude::*;

use crate::mat::Mat4Bits;

verus! {

/// The four little-endian bytes of one 32-bit word.
pub open spec fn u32_le(x: u32) -> Seq<u8> {
    seq![
        (x & 0xFF) as u8,
        ((x >> 8) & 0xFF) as u8,
        ((x >> 16) & 0xFF) as u8,
        ((x >> 24) & 0xFF) as u8,
    ]
}

/// The little-endian bytes of a run of 32-bit words, in order.
pub open spec fn words_le(ws: Seq<u32>) -> Seq<u8>
    decreases ws.len(),
{
    if ws.len() == 0 {
        Seq::empty()
    } else {
        words_le(ws.drop_last()) + u32_le(ws.last())
    }
}

pub proof fn lemma_words_le_len(ws: Seq<u32>)
    ensures
        words_le(ws).len() == 4 * ws.len(),
    decreases ws.len(),
{
    if ws.len() > 0 {
        lemma_words_le_len(ws.drop_last());
    }
}

/// Appends the four little-endian bytes of `x` to `out`.
pub fn push_u32_le(out: &mut Vec<u8>, x: u32)
    ensures
        final(out)@ == old(out)@ + u32_le(x),
{
    out.push((x & 0xFF) as u8);
    out.push(((x >> 8) & 0xFF) as u8);
    out.push(((x >> 16) & 0xFF) as u8);
    out.push(((x >> 24) & 0xFF) as u8);
    proof {
        assert(out@ =~= old(out)@ + u32_le(x));
    }
}

/// Appends the little-endian bytes of a run of words to `out`.
pub fn push_words_le(out: &mut Vec<u8>, ws: &Vec<u32>)
    ensures
        final(out)@ == old(out)@ + words_le(ws@),
{
    let mut i: usize = 0;
    while i < ws.len()
        invariant
            i <= ws@.len(),
            out@ == old(out)@ + words_le(ws@.subrange(0, i as int)),
        decreases ws@.len() - i,
    {
        let ghost prefix = ws@.subrange(0, i as int);
        push_u32_le(out, ws[i]);
        proof {
            let next = ws@.subrange(0, i + 1 as int);
            assert(next.drop_last() =~= prefix);
            assert(next.last() == ws@[i as int]);
        }
        i = i + 1;
    }
    proof {
        assert(ws@.subrange(0, ws@.len() as int) =~= ws@);
    }
}

/// The 64 bytes of one column-major matrix.
pub open spec fn mat_le(m: Mat4Bits) -> Seq<u8> {
    words_le(m.e@)
}

/// Appends the 64 bytes of `m` to `out`.
pub fn push_mat_le(out: &mut Vec<u8>, m: &Mat4Bits)
    ensures
        final(out)@ == old(out)@ + mat_le(*m),
{
    let mut i: usize = 0;
    while i < 16
        invariant
            i <= 16,
            out@ == old(out)@ + words_le(m.e@.subrange(0, i as int)),
        decreases 16 - i,
    {
        let ghost prefix = m.e@.subrange(0, i as int);
        push_u32_le(out, m.e[i]);
        proof {
            let next = m.e@.subrange(0, i + 1 as int);
            assert(next.drop_last() =~= prefix);
            assert(next.last() == m.e@[i as int]);
        }
        i = i + 1;
    }
    proof {
        assert(m.e@.subrange(0, 16) =~= m.e@);
    }
}

/// The bytes of a run of matrices, in order: 64 bytes each.
pub open spec fn mats_le(ms: Seq<Mat4Bits>) -> Seq<u8>
    decreases ms.len(),
{
    if ms.len() == 0 {
        Seq::empty()
    } else {
        mats_le(ms.drop_last()) + mat_le(ms.last())
    }
}

pub proof fn lemma_mats_le_len(ms: Seq<Mat4Bits>)
    ensures
        mats_le(ms).len() == 64 * ms.len(),
    decreases ms.len(),
{
    if ms.len() > 0 {
        lemma_mats_le_len(ms.drop_last());
        lemma_words_le_len(ms.last().e@);
    }
}

/// Packs a run of matrices into the byte stream the instanced vertex
/// attributes read.
pub fn pack_mats(ms: &Vec<Mat4Bits>) -> (r: Vec<u8>)
    ensures
        r@ == mats_le(ms@),
{
    let mut out: Vec<u8> = Vec::new();
    let mut i: usize = 0;
    while i < ms.len()
        invariant
            i <= ms@.len(),
            out@ == mats_le(ms@.subrange(0, i as int)),
        decreases ms@.len() - i,
    {
        let ghost prefix = ms@.subrange(0, i as int);
        push_mat_le(&mut out, &ms[i]);
        proof {
            let next = ms@.subrange(0, i + 1 as int);
            assert(next.drop_last() =~= prefix);
            assert(next.last() == ms@[i as int]);
        }
        i = i + 1;
    }
    proof {
        assert(ms@.subrange(0, ms@.len() as int) =~= ms@);
    }
    out
}

/// The bytes of a run of four-component vectors, 16 bytes each.
pub open spec fn vec4s_le(vs: Seq<[u32; 4]>) -> Seq<u8>
    decreases vs.len(),
{
    if vs.len() == 0 {
        Seq::empty()
    } else {
        vec4s_le(vs.drop_last()) + words_le(vs.last()@)
    }
}

pub proof fn lemma_vec4s_le_len(vs: Seq<[u32; 4]>)
    ensures
        vec4s_le(vs).len() == 16 * vs.len(),
    decreases vs.len(),
{
    if vs.len() > 0 {
        lemma_vec4s_le_len(vs.drop_last());
        lemma_words_le_len(vs.last()@);
    }
}

/// Appends the bytes of a run of four-component vectors to `out`.
pub fn push_vec4s_le(out: &mut Vec<u8>, vs: &Vec<[u32; 4]>)
    ensures
        final(out)@ == old(out)@ + vec4s_le(vs@),
{
    let mut i: usize = 0;
    while i < vs.len()
        invariant
            i <= vs@.len(),
            out@ == old(out)@ + vec4s_le(vs@.subrange(0, i as int)),
        decreases vs@.len() - i,
    {
        let ghost prefix = vs@.subrange(0, i as int);
        let v = vs[i];
        let mut k: usize = 0;
        while k < 4
            invariant
                k <= 4,
                v == vs@[i as int],
                i < vs@.len(),
                out@ == old(out)@ + vec4s_le(vs@.subrange(0, i as int)) + words_le(
                    v@.subrange(0, k as int),
                ),
            decreases 4 - k,
        {
            let ghost wprefix = v@.subrange(0, k as int);
            push_u32_le(out, v[k]);
            proof {
                let next = v@.subrange(0, k + 1 as int);
                assert(next.drop_last() =~= wprefix);
                assert(next.last() == v@[k as int]);
                assert(out@ =~= old(out)@ + vec4s_le(vs@.subrange(0, i as int)) + words_le(next));
            }
            k = k + 1;
        }
        proof {
            let next = vs@.subrange(0, i + 1 as int);
            assert(next.drop_last() =~= prefix);
            assert(next.last() == vs@[i as int]);
            assert(v@.subrange(0, 4) =~= v@);
            assert(out@ =~= old(out)@ + vec4s_le(next));
        }
        i = i + 1;
    }
    proof {
        assert(vs@.subrange(0, vs@.len() as int) =~= vs@);
    }
}

} // verus!
