use cargo_cryptile::cipher::{sha256, Block, BlockCipher};
use cargo_cryptile::executor::{gather, split_for_workers, transform_serial, Direction};
use cargo_cryptile::CryptileError;

fn sample_blocks(n: usize) -> Vec<Block> {
    (0..n).map(|i| [(i * 13 % 256) as u8; 16]).collect()
}

fn run_with_workers(blocks: &[Block], key: &[u8; 32], dir: Direction, workers: usize) -> Vec<Block> {
    let cipher = BlockCipher::new(key);
    let pieces = split_for_workers(blocks.to_vec(), workers);
    let outcomes = pieces
        .into_iter()
        .map(|mut piece| {
            transform_serial(&cipher, dir, &mut piece);
            Some(piece)
        })
        .collect();
    gather(outcomes).unwrap()
}

#[test]
fn worker_counts_give_identical_output() {
    let key = sha256(b"workers");
    let blocks = sample_blocks(37);
    let one = run_with_workers(&blocks, &key, Direction::Encrypt, 1);
    assert_eq!(run_with_workers(&blocks, &key, Direction::Encrypt, 2), one);
    assert_eq!(run_with_workers(&blocks, &key, Direction::Encrypt, 8), one);
    let cipher = BlockCipher::new(&key);
    let mut serial = blocks.clone();
    transform_serial(&cipher, Direction::Encrypt, &mut serial);
    assert_eq!(serial, one);
    assert_eq!(run_with_workers(&one, &key, Direction::Decrypt, 8), blocks);
}

#[test]
fn transform_serial_changes_each_block_in_place() {
    let key = sha256(b"serial");
    let cipher = BlockCipher::new(&key);
    let blocks = sample_blocks(3);
    let mut work = blocks.clone();
    transform_serial(&cipher, Direction::Encrypt, &mut work);
    for i in 0..3 {
        assert_eq!(work[i], cipher.encrypt_block(&blocks[i]));
    }
}

#[test]
fn split_shares_blocks_in_order() {
    let blocks = sample_blocks(10);
    let pieces = split_for_workers(blocks.clone(), 3);
    let sizes: Vec<usize> = pieces.iter().map(|p| p.len()).collect();
    assert_eq!(sizes, vec![4, 4, 2]);
    assert_eq!(pieces.concat(), blocks);
}

#[test]
fn split_for_more_workers_than_blocks() {
    let pieces = split_for_workers(sample_blocks(3), 8);
    assert_eq!(pieces.len(), 3);
    assert!(pieces.iter().all(|p| p.len() == 1));
    assert!(split_for_workers(Vec::new(), 4).is_empty());
    assert_eq!(split_for_workers(sample_blocks(5), 0).len(), 1);
    assert_eq!(split_for_workers(sample_blocks(5), 1).len(), 1);
}

#[test]
fn gather_joins_in_order() {
    let a = sample_blocks(2);
    let b = vec![[0xffu8; 16]];
    assert_eq!(gather(vec![Some(a.clone()), Some(b.clone())]), Ok([a, b].concat()));
    assert_eq!(gather(Vec::new()), Ok(Vec::new()));
}

#[test]
fn gather_reports_a_failed_worker() {
    let a = sample_blocks(2);
    assert_eq!(
        gather(vec![Some(a.clone()), None, Some(a)]),
        Err(CryptileError::AggregatedWorkerFailure)
    );
}
