//! Subkey derivation: a hash of a seed, stretched by counter blocks.
use vstd::prelude::*;
use crate::bytes::{append, append_le64, copy_range, le64, wipe};
use crate::primitives::HashFunction;

verus! {

/// The input of the `i`-th block: the seed alone for the first, the seed and a counter after.
pub open spec fn block_input(seed: Seq<u8>, i: u64) -> Seq<u8> {
    if i == 0 {
        seed
    } else {
        seed + le64(i)
    }
}

/// The first `blocks` hash blocks of a seed, concatenated.
pub open spec fn expand<H: HashFunction>(seed: Seq<u8>, blocks: nat) -> Seq<u8>
    decreases blocks,
{
    if blocks == 0 {
        Seq::empty()
    } else {
        expand::<H>(seed, (blocks - 1) as nat) + H::digest(block_input(seed, (blocks - 1) as u64))
    }
}

/// How many blocks of `w` bytes cover `n` bytes.
pub open spec fn blocks_for(n: nat, w: nat) -> nat
    decreases n,
{
    if n == 0 || w == 0 {
        0
    } else if n <= w {
        1
    } else {
        1 + blocks_for((n - w) as nat, w)
    }
}

/// The `n` bytes of key material derived from `seed`.
pub open spec fn subkeys<H: HashFunction>(seed: Seq<u8>, n: nat) -> Seq<u8> {
    expand::<H>(seed, blocks_for(n, H::output_len())).take(n as int)
}

pub proof fn lemma_expand_len<H: HashFunction>(seed: Seq<u8>, blocks: nat)
    ensures
        expand::<H>(seed, blocks).len() == blocks * H::output_len(),
    decreases blocks,
{
    if blocks > 0 {
        lemma_expand_len::<H>(seed, (blocks - 1) as nat);
        H::lemma_digest_len(block_input(seed, (blocks - 1) as u64));
        let w = H::output_len();
        let p = (blocks - 1) as nat;
        assert(p * w + w == blocks * w) by (nonlinear_arith)
            requires
                p + 1 == blocks,
        ;
        assert(expand::<H>(seed, blocks).len() == p * w + w);
    } else {
        assert(blocks * H::output_len() == 0) by (nonlinear_arith)
            requires
                blocks == 0,
        ;
    }
}

pub proof fn lemma_blocks_cover(n: nat, w: nat)
    requires
        w > 0,
    ensures
        blocks_for(n, w) * w >= n,
    decreases n,
{
    if n > w {
        lemma_blocks_cover((n - w) as nat, w);
        let b = blocks_for((n - w) as nat, w);
        assert(blocks_for(n, w) == 1 + b);
        assert(blocks_for(n, w) * w == w + b * w) by (nonlinear_arith)
            requires
                blocks_for(n, w) == 1 + b,
        ;
    } else if n > 0 {
        assert(blocks_for(n, w) == 1);
    } else {
        assert(blocks_for(n, w) == 0);
        assert(0 * w == 0) by (nonlinear_arith);
    }
}

pub proof fn lemma_subkeys_len<H: HashFunction>(seed: Seq<u8>, n: nat)
    requires
        H::output_len() > 0,
    ensures
        subkeys::<H>(seed, n).len() == n,
{
    lemma_expand_len::<H>(seed, blocks_for(n, H::output_len()));
    lemma_blocks_cover(n, H::output_len());
}

/// Derives `n` bytes of key material from `seed`.
pub fn derive_subkeys<H: HashFunction>(seed: &[u8], n: usize) -> (r: Vec<u8>)
    requires
        H::output_len() > 0,
    ensures
        r@ == subkeys::<H>(seed@, n as nat),
        r@.len() == n,
{
    let w = H::output_length();
    let mut need: usize = n;
    let mut blocks: usize = 0;
    while need > 0
        invariant
            w == H::output_len(),
            w > 0,
            need <= n,
            blocks <= n - need,
            blocks + blocks_for(need as nat, w as nat) == blocks_for(n as nat, w as nat),
        decreases need,
    {
        if need <= w {
            need = 0;
        } else {
            need = need - w;
        }
        blocks = blocks + 1;
    }
    let mut out: Vec<u8> = Vec::new();
    let mut i: usize = 0;
    while i < blocks
        invariant
            i <= blocks,
            out@ == expand::<H>(seed@, i as nat),
        decreases blocks - i,
    {
        let mut input: Vec<u8> = Vec::new();
        append(&mut input, seed);
        if i > 0 {
            append_le64(&mut input, i as u64);
        }
        assert(input@ == block_input(seed@, i as u64));
        let d = H::hash(input.as_slice());
        append(&mut out, d.as_slice());
        i = i + 1;
    }
    proof {
        lemma_expand_len::<H>(seed@, blocks as nat);
        lemma_blocks_cover(n as nat, w as nat);
    }
    let r = copy_range(out.as_slice(), 0, n);
    wipe(&mut out);
    assert(r@ =~= subkeys::<H>(seed@, n as nat));
    r
}

} // verus!
