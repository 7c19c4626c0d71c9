use gpt2::bytes::{decode_i32s, decode_u16s};
use gpt2::dataloader::{parse_shard_header, DataLoader, DataLoaderError};
use gpt2::utils::i32_header;

fn shard_bytes(tokens: &[u16]) -> Vec<u8> {
    let mut bytes = Vec::new();
    for w in i32_header(&[20240520, 1, tokens.len() as i32]) {
        bytes.extend_from_slice(&w.to_le_bytes());
    }
    for t in tokens {
        bytes.extend_from_slice(&t.to_le_bytes());
    }
    bytes
}

fn shard_ntok(bytes: &[u8]) -> i64 {
    let header = decode_i32s(&bytes[..1024]);
    parse_shard_header(&header, bytes.len() as i64).unwrap()
}

/// serves one batch out of in-memory shard files
fn next_batch(loader: &mut DataLoader, shards: &[Vec<u8>]) {
    let read = loader.next_batch();
    let start = read.offset as usize;
    let buffer = decode_u16s(&shards[read.shard][start..start + 2 * read.num_tokens]);
    loader.fill_batch(&buffer);
}

#[test]
fn dataloader_serves_shifted_batches_and_wraps() {
    // 100 tokens; with B=2,T=4 (8 tokens moved per batch) that allows 12 samples
    let tokens: Vec<u16> = (0..100u16).collect();
    let shards = vec![shard_bytes(&tokens)];
    let ntoks = vec![shard_ntok(&shards[0])];

    let mut loader = DataLoader::init(ntoks, 2, 4, 0, 1, 0).unwrap();
    assert_eq!(loader.num_tokens, 100);

    // batch 0: inputs = tokens[0..8], targets = tokens[1..9]
    next_batch(&mut loader, &shards);
    assert_eq!(&loader.inputs[..8], &(0..8i32).collect::<Vec<_>>()[..]);
    assert_eq!(&loader.targets[..8], &(1..9i32).collect::<Vec<_>>()[..]);
    let first = loader.inputs.clone();

    // batch 1 starts at sample idx 1 -> byte offset 16 -> token 8
    next_batch(&mut loader, &shards);
    assert_eq!(loader.inputs[0], 8);
    assert_eq!(loader.targets[7], 16);

    // consume the rest of the epoch; the loader should wrap back to sample 0
    for _ in 0..11 {
        next_batch(&mut loader, &shards);
    }
    // 13 next_batch calls total on 12 samples: wrapped around to batch 0 again
    assert_eq!(loader.inputs, first);
}

#[test]
fn shard_header_errors() {
    let bytes = shard_bytes(&[1, 2, 3]);
    assert_eq!(shard_ntok(&bytes), 3);
    let header = decode_i32s(&bytes[..1024]);
    assert_eq!(parse_shard_header(&header, 1029), Err(DataLoaderError::FileSizeMismatch));
    let bad_magic = i32_header(&[20240521, 1, 3]);
    assert_eq!(parse_shard_header(&bad_magic, 1030), Err(DataLoaderError::BadMagic));
    let bad_version = i32_header(&[20240520, 2, 3]);
    assert_eq!(parse_shard_header(&bad_version, 1030), Err(DataLoaderError::BadVersion));
    let no_tokens = i32_header(&[20240520, 1, 0]);
    assert_eq!(parse_shard_header(&no_tokens, 1024), Err(DataLoaderError::NoTokens));
}

#[test]
fn dataloader_init_errors() {
    assert_eq!(DataLoader::init(vec![], 2, 4, 0, 1, 0).err(), Some(DataLoaderError::NoShards));
    // a shard needs at least B*T+1 = 9 tokens
    assert_eq!(
        DataLoader::init(vec![100, 8, 5], 2, 4, 0, 1, 0).err(),
        Some(DataLoaderError::ShardTooSmall(1))
    );
    assert!(DataLoader::init(vec![100, 9], 2, 4, 0, 1, 0).is_ok());
}

#[test]
fn dataloader_walks_shards_in_order() {
    let a: Vec<u16> = (0..17u16).collect(); // 2 samples of 8
    let b: Vec<u16> = (100..125u16).collect(); // 3 samples of 8
    let shards = vec![shard_bytes(&a), shard_bytes(&b)];
    let ntoks = shards.iter().map(|s| shard_ntok(s)).collect();
    let mut loader = DataLoader::init(ntoks, 2, 4, 0, 1, 0).unwrap();
    assert_eq!(loader.num_tokens, 42);
    let mut firsts = Vec::new();
    for _ in 0..6 {
        next_batch(&mut loader, &shards);
        firsts.push(loader.inputs[0]);
    }
    assert_eq!(firsts, vec![0, 8, 100, 108, 116, 0]);
}

#[test]
fn dataloader_processes_read_disjoint_parts() {
    let tokens: Vec<u16> = (0..40u16).collect();
    let shards = vec![shard_bytes(&tokens)];
    let mut p0 = DataLoader::init(vec![40], 1, 4, 0, 2, 0).unwrap();
    let mut p1 = DataLoader::init(vec![40], 1, 4, 1, 2, 0).unwrap();
    next_batch(&mut p0, &shards);
    next_batch(&mut p1, &shards);
    assert_eq!(p0.inputs, vec![0, 1, 2, 3]);
    assert_eq!(p1.inputs, vec![4, 5, 6, 7]);
    assert_eq!(p1.targets, vec![5, 6, 7, 8]);
    next_batch(&mut p0, &shards);
    assert_eq!(p0.inputs, vec![8, 9, 10, 11]);
}

#[test]
fn shuffled_loader_is_deterministic_and_covers_each_sample_once() {
    let tokens: Vec<u16> = (0..97u16).collect(); // 12 samples of 8
    let shards = vec![shard_bytes(&tokens)];
    let mut l1 = DataLoader::init(vec![97], 2, 4, 0, 1, 1).unwrap();
    let mut l2 = DataLoader::init(vec![97], 2, 4, 0, 1, 1).unwrap();
    let mut seen = Vec::new();
    for _ in 0..12 {
        next_batch(&mut l1, &shards);
        next_batch(&mut l2, &shards);
        assert_eq!(l1.inputs, l2.inputs);
        assert_eq!(l1.targets[0], l1.inputs[0] + 1);
        seen.push(l1.inputs[0] / 8);
    }
    seen.sort();
    assert_eq!(seen, (0..12).collect::<Vec<i32>>());
}

#[test]
fn dataloader_resume_jumps_to_a_sample() {
    let tokens: Vec<u16> = (0..100u16).collect();
    let shards = vec![shard_bytes(&tokens)];
    let mut loader = DataLoader::init(vec![100], 2, 4, 0, 1, 0).unwrap();
    loader.resume(0, 5);
    next_batch(&mut loader, &shards);
    assert_eq!(loader.inputs[0], 40);
    loader.reset();
    next_batch(&mut loader, &shards);
    assert_eq!(loader.inputs[0], 0);
}

#[test]
fn every_read_stays_inside_its_shard() {
    let sizes = [33usize, 50, 97];
    let shards: Vec<Vec<u8>> = sizes
        .iter()
        .map(|&n| shard_bytes(&(0..n as u16).collect::<Vec<u16>>()))
        .collect();
    let ntoks: Vec<i64> = shards.iter().map(|s| shard_ntok(s)).collect();
    for rank in 0..2 {
        for shuffle in 0..2 {
            let mut loader = DataLoader::init(ntoks.clone(), 2, 2, rank, 2, shuffle).unwrap();
            for _ in 0..40 {
                let read = loader.next_batch();
                assert_eq!(read.num_tokens, 5);
                assert!(read.offset as usize + 2 * read.num_tokens <= shards[read.shard].len());
            }
        }
    }
}
