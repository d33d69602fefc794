//! The block executor: applies the cipher to every block of a buffer, each
//! block on its own. A buffer is split into consecutive pieces, one for each
//! worker; each worker transforms its own piece, and the pieces are gathered
//! back in order, so no two workers touch one block and the order is kept.
//! The threads that run the pieces are started by the caller; a worker that
//! does not hand its piece back fails the whole transform.
use crate::cipher::{aes256_decrypt, aes256_encrypt, Block, BlockCipher};
use crate::error::CryptileError;
use vstd::arithmetic::div_mod::lemma_div_decreases;
use vstd::prelude::*;

verus! {

/// Which way the cipher is applied.
#[derive(Clone, Copy, Debug, PartialEq, Eq, Structural)]
pub enum Direction {
    Encrypt,
    Decrypt,
}

/// One block put through the cipher keyed by `key` in direction `dir`.
pub open spec fn block_image(key: Seq<u8>, dir: Direction, block: Seq<u8>) -> Seq<u8> {
    match dir {
        Direction::Encrypt => aes256_encrypt(key, block),
        Direction::Decrypt => aes256_decrypt(key, block),
    }
}

/// `output` is `input` with every block put through the cipher, each block
/// once and at its own index.
pub open spec fn transformed(key: Seq<u8>, dir: Direction, input: Seq<Block>, output: Seq<Block>) -> bool {
    &&& output.len() == input.len()
    &&& forall|i: int| 0 <= i < input.len() ==> #[trigger] output[i]@ == block_image(key, dir, input[i]@)
}

/// Every block of `output` deciphers under `key` to the block of `input` at
/// the same index.
pub open spec fn deciphers_to(key: Seq<u8>, output: Seq<Block>, input: Seq<Block>) -> bool {
    &&& output.len() == input.len()
    &&& forall|i: int| 0 <= i < input.len() ==> aes256_decrypt(key, #[trigger] output[i]@) == input[i]@
}

/// What a finished transform of `input` into `output` guarantees: the
/// blocks are transformed, and enciphered blocks decipher back.
pub open spec fn transform_done(key: Seq<u8>, dir: Direction, input: Seq<Block>, output: Seq<Block>) -> bool {
    &&& transformed(key, dir, input, output)
    &&& dir == Direction::Encrypt ==> deciphers_to(key, output, input)
}

/// Puts every block of `blocks` through `cipher`, in place, one after the other.
pub fn transform_serial(cipher: &BlockCipher, dir: Direction, blocks: &mut Vec<Block>)
    ensures
        transform_done(cipher.key(), dir, old(blocks)@, final(blocks)@),
{
    let n = blocks.len();
    let ghost input = blocks@;
    let ghost key = cipher.key();
    let mut i: usize = 0;
    while i < n
        invariant
            n == input.len(),
            key == cipher.key(),
            blocks@.len() == n,
            i <= n,
            forall|k: int| i <= k < n ==> #[trigger] blocks@[k] == input[k],
            forall|k: int| 0 <= k < i ==> #[trigger] blocks@[k]@ == block_image(key, dir, input[k]@),
            dir == Direction::Encrypt ==> forall|k: int|
                0 <= k < i ==> aes256_decrypt(key, #[trigger] blocks@[k]@) == input[k]@,
        decreases n - i,
    {
        let b = match dir {
            Direction::Encrypt => cipher.encrypt_block(&blocks[i]),
            Direction::Decrypt => cipher.decrypt_block(&blocks[i]),
        };
        blocks.set(i, b);
        i += 1;
    }
}

/// The number of blocks in each piece when `n` blocks are shared among
/// `workers` workers (at least one): `n / workers`, rounded up.
pub open spec fn share(n: nat, workers: nat) -> nat {
    if workers <= 1 {
        n
    } else if n % workers == 0 {
        n / workers
    } else {
        n / workers + 1
    }
}

/// `pieces` is `blocks` cut into consecutive, non-empty pieces of
/// `share(blocks.len(), workers)` blocks each, the last one possibly shorter.
pub open spec fn is_split(blocks: Seq<Block>, workers: nat, pieces: Seq<Seq<Block>>) -> bool {
    &&& pieces.flatten() == blocks
    &&& forall|i: int|
        0 <= i < pieces.len() ==> 0 < #[trigger] pieces[i].len() <= share(blocks.len(), workers)
    &&& forall|i: int| 0 <= i < pieces.len() - 1 ==> #[trigger] pieces[i].len() == share(blocks.len(), workers)
}

/// The views of a sequence of block buffers.
pub open spec fn pieces_view(pieces: Seq<Vec<Block>>) -> Seq<Seq<Block>> {
    pieces.map_values(|v: Vec<Block>| v@)
}

/// The blocks that the workers handed back; a worker that failed gave none.
pub open spec fn outcomes_view(outcomes: Seq<Option<Vec<Block>>>) -> Seq<Seq<Block>> {
    outcomes.map_values(
        |o: Option<Vec<Block>>|
            match o {
                Some(v) => v@,
                None => Seq::empty(),
            },
    )
}

/// Cuts `blocks` into one piece for each worker, in order, so that each
/// worker can own its piece while it transforms it.
pub fn split_for_workers(blocks: Vec<Block>, worker_count: usize) -> (r: Vec<Vec<Block>>)
    ensures
        is_split(blocks@, worker_count as nat, pieces_view(r@)),
{
    let ghost all = blocks@;
    let n = blocks.len();
    let size = if worker_count <= 1 {
        n
    } else if n % worker_count == 0 {
        n / worker_count
    } else {
        assert(n > 0) by (nonlinear_arith)
            requires
                n % worker_count != 0,
                worker_count > 1,
        ;
        proof {
            lemma_div_decreases(n as int, worker_count as int);
        }
        n / worker_count + 1
    };
    assert(n > 0 ==> size > 0) by (nonlinear_arith)
        requires
            size == share(n as nat, worker_count as nat),
    ;
    let mut pieces: Vec<Vec<Block>> = Vec::new();
    let mut rest = blocks;
    while rest.len() > 0
        invariant
            n == all.len(),
            size == share(n as nat, worker_count as nat),
            n > 0 ==> size > 0,
            pieces_view(pieces@).flatten() + rest@ == all,
            forall|i: int| 0 <= i < pieces@.len() ==> 0 < #[trigger] pieces@[i]@.len() <= size,
            forall|i: int| 0 <= i < pieces@.len() - 1 ==> #[trigger] pieces@[i]@.len() == size,
            rest@.len() > 0 && pieces@.len() > 0 ==> pieces@.last()@.len() == size,
        decreases rest@.len(),
    {
        let take = if rest.len() < size {
            rest.len()
        } else {
            size
        };
        let tail = rest.split_off(take);
        let ghost before = pieces_view(pieces@);
        pieces.push(rest);
        proof {
            assert(pieces_view(pieces@) =~= before.push(pieces@.last()@));
            before.lemma_flatten_push(pieces@.last()@);
        }
        rest = tail;
    }
    pieces
}

/// Gathers what the workers handed back, piece after piece in order. If any
/// worker failed, the transform as a whole fails.
pub fn gather(outcomes: Vec<Option<Vec<Block>>>) -> (r: Result<Vec<Block>, CryptileError>)
    ensures
        r is Ok <==> forall|i: int| 0 <= i < outcomes@.len() ==> #[trigger] outcomes@[i] is Some,
        r matches Ok(v) ==> v@ == outcomes_view(outcomes@).flatten(),
        r matches Err(e) ==> e == CryptileError::AggregatedWorkerFailure,
{
    let ghost all = outcomes@;
    let mut rest = outcomes;
    let mut out: Vec<Block> = Vec::new();
    let ghost mut i: int = 0;
    while rest.len() > 0
        invariant
            all == outcomes@,
            0 <= i <= all.len(),
            rest@ == all.subrange(i, all.len() as int),
            out@ == outcomes_view(all.subrange(0, i)).flatten(),
            forall|j: int| 0 <= j < i ==> #[trigger] all[j] is Some,
        decreases rest@.len(),
    {
        let first = rest.remove(0);
        match first {
            Some(mut piece) => {
                let ghost before = outcomes_view(all.subrange(0, i));
                proof {
                    assert(outcomes_view(all.subrange(0, i + 1)) =~= before.push(piece@));
                    before.lemma_flatten_push(piece@);
                }
                out.append(&mut piece);
                proof {
                    i = i + 1;
                }
            },
            None => {
                return Err(CryptileError::AggregatedWorkerFailure);
            },
        }
    }
    assert(all.subrange(0, i) =~= all);
    Ok(out)
}

/// Transforming two runs of blocks one after the other transforms the joined run.
pub proof fn lemma_transformed_concat(
    key: Seq<u8>,
    dir: Direction,
    a: Seq<Block>,
    b: Seq<Block>,
    out_a: Seq<Block>,
    out_b: Seq<Block>,
)
    requires
        transformed(key, dir, a, out_a),
        transformed(key, dir, b, out_b),
    ensures
        transformed(key, dir, a + b, out_a + out_b),
{
}

/// Transforming every piece on its own transforms the whole that the pieces make up.
pub proof fn lemma_transformed_pieces(
    key: Seq<u8>,
    dir: Direction,
    pieces: Seq<Seq<Block>>,
    outs: Seq<Seq<Block>>,
)
    requires
        outs.len() == pieces.len(),
        forall|i: int| 0 <= i < pieces.len() ==> transformed(key, dir, #[trigger] pieces[i], outs[i]),
    ensures
        transformed(key, dir, pieces.flatten(), outs.flatten()),
    decreases pieces.len(),
{
    if pieces.len() > 0 {
        let rest = pieces.drop_first();
        let rest_outs = outs.drop_first();
        assert forall|i: int| 0 <= i < rest.len() implies transformed(key, dir, #[trigger] rest[i], rest_outs[i]) by {
        }
        lemma_transformed_pieces(key, dir, rest, rest_outs);
        lemma_transformed_concat(key, dir, pieces[0], rest.flatten(), outs[0], rest_outs.flatten());
    }
}

/// The transform of a run of blocks is unique.
pub proof fn lemma_transformed_unique(
    key: Seq<u8>,
    dir: Direction,
    input: Seq<Block>,
    out1: Seq<Block>,
    out2: Seq<Block>,
)
    requires
        transformed(key, dir, input, out1),
        transformed(key, dir, input, out2),
    ensures
        out1 == out2,
{
    assert forall|i: int| 0 <= i < out1.len() implies out1[i] == out2[i] by {
        assert(out1[i] =~= out2[i]);
    }
    assert(out1 =~= out2);
}

/// The number of workers does not change the output: when the same blocks
/// are split for `w1` workers and for `w2` workers, and every piece is
/// transformed on its own, the two gathered outputs are the same blocks, the
/// blocks transformed one by one.
pub proof fn lemma_worker_counts_agree(
    key: Seq<u8>,
    dir: Direction,
    blocks: Seq<Block>,
    w1: nat,
    pieces1: Seq<Seq<Block>>,
    outs1: Seq<Seq<Block>>,
    w2: nat,
    pieces2: Seq<Seq<Block>>,
    outs2: Seq<Seq<Block>>,
)
    requires
        is_split(blocks, w1, pieces1),
        is_split(blocks, w2, pieces2),
        outs1.len() == pieces1.len(),
        outs2.len() == pieces2.len(),
        forall|i: int| 0 <= i < pieces1.len() ==> transformed(key, dir, #[trigger] pieces1[i], outs1[i]),
        forall|i: int| 0 <= i < pieces2.len() ==> transformed(key, dir, #[trigger] pieces2[i], outs2[i]),
    ensures
        outs1.flatten() == outs2.flatten(),
        transformed(key, dir, blocks, outs1.flatten()),
{
    lemma_transformed_pieces(key, dir, pieces1, outs1);
    lemma_transformed_pieces(key, dir, pieces2, outs2);
    lemma_transformed_unique(key, dir, blocks, outs1.flatten(), outs2.flatten());
}

} // verus!
