//! The block codec: a byte stream to and from padded 16-byte blocks.
//!
//! Encoding always ends with a block whose last byte counts the padding bytes
//! (1 to 16), so a stream whose length is a multiple of 16 gets a whole block
//! of padding and every stream decodes back to itself.
use crate::cipher::Block;
use crate::error::CryptileError;
use vstd::arithmetic::div_mod::lemma_fundamental_div_mod_converse;
use vstd::prelude::*;

verus! {

/// The padding appended to a stream of `n` bytes: zeros, then one byte that
/// counts the padding bytes, so that the padded length is a multiple of 16.
pub open spec fn padding(n: nat) -> Seq<u8> {
    Seq::new((15 - n % 16) as nat, |i: int| 0u8).push((16 - n % 16) as u8)
}

/// A byte stream followed by its padding.
pub open spec fn padded(data: Seq<u8>) -> Seq<u8> {
    data + padding(data.len())
}

/// The bytes of a block sequence, block after block.
pub open spec fn flatten(blocks: Seq<Block>) -> Seq<u8> {
    Seq::new(16 * blocks.len(), |k: int| blocks[k / 16]@[k % 16])
}

/// The stream that padded bytes stand for: the last byte `p` counts the
/// padding, and the last `p` bytes are dropped; `p > 16` is refused.
pub open spec fn unpadded(bytes: Seq<u8>) -> Result<Seq<u8>, CryptileError> {
    if bytes.len() == 0 {
        Err(CryptileError::UnexpectedEndOfStream)
    } else if bytes.last() > 16 {
        Err(CryptileError::InvalidPadding)
    } else {
        Ok(bytes.subrange(0, bytes.len() - bytes.last()))
    }
}

/// The view of a byte result.
pub open spec fn bytes_view(r: Result<Vec<u8>, CryptileError>) -> Result<Seq<u8>, CryptileError> {
    match r {
        Ok(v) => Ok(v@),
        Err(e) => Err(e),
    }
}

/// Byte `16 * i + j` of the flattened blocks is byte `j` of block `i`.
pub proof fn lemma_flatten_index(blocks: Seq<Block>, i: int, j: int)
    requires
        0 <= i < blocks.len(),
        0 <= j < 16,
    ensures
        flatten(blocks)[16 * i + j] == blocks[i]@[j],
{
    lemma_fundamental_div_mod_converse(16 * i + j, 16, i, j);
}

/// The 16 bytes of the flattened blocks that start at `16 * i` are block `i`.
pub proof fn lemma_flatten_block(blocks: Seq<Block>, i: int)
    requires
        0 <= i < blocks.len(),
    ensures
        flatten(blocks).subrange(16 * i, 16 * i + 16) == blocks[i]@,
{
    assert forall|j: int| 0 <= j < 16 implies #[trigger] flatten(blocks).subrange(16 * i, 16 * i + 16)[j]
        == blocks[i]@[j] by {
        lemma_flatten_index(blocks, i, j);
    }
}

/// Padding a stream and then removing the padding gives the stream back, for
/// every length, a multiple of 16 included.
pub proof fn lemma_unpadded_padded(data: Seq<u8>)
    ensures
        unpadded(padded(data)) == Ok::<Seq<u8>, CryptileError>(data),
{
    let p = padded(data);
    assert(p.subrange(0, p.len() - p.last()) =~= data);
}

/// Splits `data` into blocks: every whole 16 bytes form a block as they are,
/// and a last block holds the remaining bytes, zeros and the padding count.
pub fn encode(data: &[u8]) -> (r: Vec<Block>)
    ensures
        flatten(r@) == padded(data@),
{
    let n = data.len();
    let whole = n / 16;
    let mut blocks: Vec<Block> = Vec::new();
    let mut i: usize = 0;
    while i < whole
        invariant
            n == data@.len(),
            whole == n / 16,
            i <= whole,
            blocks@.len() == i,
            forall|b: int, j: int|
                0 <= b < i && 0 <= j < 16 ==> #[trigger] blocks@[b]@[j] == data@[16 * b + j],
        decreases whole - i,
    {
        let mut block: Block = [0u8; 16];
        let mut j: usize = 0;
        while j < 16
            invariant
                n == data@.len(),
                whole == n / 16,
                i < whole,
                j <= 16,
                forall|k: int| 0 <= k < j ==> #[trigger] block@[k] == data@[16 * i + k],
            decreases 16 - j,
        {
            block[j] = data[16 * i + j];
            j += 1;
        }
        blocks.push(block);
        i += 1;
    }
    let rest = n - 16 * whole;
    let mut last: Block = [0u8; 16];
    let mut j: usize = 0;
    while j < rest
        invariant
            n == data@.len(),
            whole == n / 16,
            rest == n - 16 * whole,
            rest < 16,
            j <= rest,
            forall|k: int| 0 <= k < j ==> #[trigger] last@[k] == data@[16 * whole + k],
            forall|k: int| j <= k < 16 ==> #[trigger] last@[k] == 0,
        decreases rest - j,
    {
        last[j] = data[16 * whole + j];
        j += 1;
    }
    last[15] = (16 - rest) as u8;
    blocks.push(last);
    proof {
        let f = flatten(blocks@);
        let p = padded(data@);
        assert forall|k: int| 0 <= k < f.len() implies f[k] == p[k] by {
            let b = k / 16;
            let c = k % 16;
            lemma_flatten_index(blocks@, b, c);
        }
    }
    blocks
}

/// Joins decoded blocks back into the stream: every block but the last in
/// full, then the first `16 - p` bytes of the last, where `p` is its last byte.
pub fn decode(blocks: &Vec<Block>) -> (r: Result<Vec<u8>, CryptileError>)
    ensures
        bytes_view(r) == unpadded(flatten(blocks@)),
{
    let n = blocks.len();
    if n == 0 {
        return Err(CryptileError::UnexpectedEndOfStream);
    }
    let last = blocks[n - 1];
    let p = last[15];
    proof {
        lemma_flatten_index(blocks@, n - 1, 15);
    }
    if p > 16 {
        return Err(CryptileError::InvalidPadding);
    }
    let mut out: Vec<u8> = Vec::new();
    let mut i: usize = 0;
    while i < n - 1
        invariant
            n == blocks@.len(),
            n > 0,
            i <= n - 1,
            out@.len() == 16 * i,
            forall|k: int| 0 <= k < out@.len() ==> #[trigger] out@[k] == flatten(blocks@)[k],
        decreases n - 1 - i,
    {
        let block = blocks[i];
        let mut j: usize = 0;
        while j < 16
            invariant
                n == blocks@.len(),
                i < n - 1,
                block == blocks@[i as int],
                j <= 16,
                out@.len() == 16 * i + j,
                forall|k: int| 0 <= k < out@.len() ==> #[trigger] out@[k] == flatten(blocks@)[k],
            decreases 16 - j,
        {
            proof {
                lemma_flatten_index(blocks@, i as int, j as int);
            }
            out.push(block[j]);
            j += 1;
        }
        i += 1;
    }
    let keep = 16 - p as usize;
    let mut j: usize = 0;
    while j < keep
        invariant
            n == blocks@.len(),
            n > 0,
            last == blocks@[n - 1],
            keep <= 16,
            j <= keep,
            out@.len() == 16 * (n - 1) + j,
            forall|k: int| 0 <= k < out@.len() ==> #[trigger] out@[k] == flatten(blocks@)[k],
        decreases keep - j,
    {
        proof {
            lemma_flatten_index(blocks@, n - 1, j as int);
        }
        out.push(last[j]);
        j += 1;
    }
    assert(out@ =~= flatten(blocks@).subrange(0, 16 * n - p));
    Ok(out)
}

/// The 16 bytes of `bytes` that start at `start`, as a block.
pub fn block_at(bytes: &[u8], start: usize) -> (r: Block)
    requires
        start + 16 <= bytes@.len(),
    ensures
        r@ == bytes@.subrange(start as int, start + 16),
{
    let n = bytes.len();
    let mut block: Block = [0u8; 16];
    let mut j: usize = 0;
    while j < 16
        invariant
            n == bytes@.len(),
            start + 16 <= n,
            j <= 16,
            forall|k: int| 0 <= k < j ==> #[trigger] block@[k] == bytes@[start + k],
        decreases 16 - j,
    {
        block[j] = bytes[start + j];
        j += 1;
    }
    assert(block@ =~= bytes@.subrange(start as int, start + 16));
    block
}

/// The bytes of `bytes` from `start` on, cut into whole blocks.
pub fn to_blocks(bytes: &[u8], start: usize) -> (r: Vec<Block>)
    requires
        start <= bytes@.len(),
        (bytes@.len() - start) % 16 == 0,
    ensures
        flatten(r@) == bytes@.subrange(start as int, bytes@.len() as int),
{
    let n = bytes.len();
    let mut blocks: Vec<Block> = Vec::new();
    let mut at: usize = start;
    while at < n
        invariant
            n == bytes@.len(),
            start <= at <= n,
            (n - at) % 16 == 0,
            at - start == 16 * blocks@.len(),
            flatten(blocks@) == bytes@.subrange(start as int, at as int),
        decreases n - at,
    {
        let block = block_at(bytes, at);
        let ghost before = blocks@;
        blocks.push(block);
        proof {
            assert forall|k: int| 0 <= k < flatten(blocks@).len() implies #[trigger] flatten(blocks@)[k]
                == bytes@.subrange(start as int, at + 16)[k] by {
                let b = k / 16;
                let c = k % 16;
                lemma_flatten_index(blocks@, b, c);
                if b < before.len() {
                    lemma_flatten_index(before, b, c);
                }
            }
            assert(flatten(blocks@) =~= bytes@.subrange(start as int, at + 16));
        }
        at += 16;
    }
    blocks
}

/// Appends the bytes of `blocks`, block after block, to `out`.
pub fn append_blocks(out: &mut Vec<u8>, blocks: &Vec<Block>)
    ensures
        final(out)@ == old(out)@ + flatten(blocks@),
{
    let ghost start = out@;
    let n = blocks.len();
    let mut i: usize = 0;
    while i < n
        invariant
            n == blocks@.len(),
            i <= n,
            out@.len() == start.len() + 16 * i,
            forall|k: int| 0 <= k < start.len() ==> #[trigger] out@[k] == start[k],
            forall|k: int|
                start.len() <= k < out@.len() ==> #[trigger] out@[k] == flatten(blocks@)[k - start.len()],
        decreases n - i,
    {
        let block = blocks[i];
        let mut j: usize = 0;
        while j < 16
            invariant
                n == blocks@.len(),
                i < n,
                block == blocks@[i as int],
                j <= 16,
                out@.len() == start.len() + 16 * i + j,
                forall|k: int| 0 <= k < start.len() ==> #[trigger] out@[k] == start[k],
                forall|k: int|
                    start.len() <= k < out@.len() ==> #[trigger] out@[k] == flatten(blocks@)[k
                        - start.len()],
            decreases 16 - j,
        {
            proof {
                lemma_flatten_index(blocks@, i as int, j as int);
            }
            out.push(block[j]);
            j += 1;
        }
        i += 1;
    }
}

/// Appends the 16 bytes of `block` to `out`.
pub fn push_block(out: &mut Vec<u8>, block: &Block)
    ensures
        final(out)@ == old(out)@ + block@,
{
    let ghost start = out@;
    let mut j: usize = 0;
    while j < 16
        invariant
            j <= 16,
            out@ == start + block@.subrange(0, j as int),
        decreases 16 - j,
    {
        out.push(block[j]);
        j += 1;
    }
}

} // verus!
