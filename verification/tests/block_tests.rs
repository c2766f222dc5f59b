use libp2p::identity::ed25519::Keypair;
use monkeylib::block::{store_key, Block, BlockBody, SignedBlock};
use monkeylib::clock::Timestamp;
use monkeylib::dictionary::Dictionary;
use monkeylib::errors::Error;
use std::collections::hash_map::DefaultHasher;
use std::collections::BTreeSet;
use std::hash::Hash;
use std::hash::Hasher;

fn dictionary() -> Dictionary {
    let words = vec!["and", "for", "that", "this", "old", "new", "never", "ever", "where", "when", "word", "report"];
    Dictionary::new(words.into_iter().map(|w| w.to_string()).collect())
}

#[test]
fn test_new() {
    let wordlist = vec![
        "and".to_string(),
        "for".to_string(),
        "that".to_string(),
        "this".to_string(),
    ];
    let proposer = Keypair::generate();
    let mut hasher = DefaultHasher::new();
    hasher.write_u16(1337);
    let parent_hash = hasher.finish();

    let result = Block::new(&dictionary(), wordlist, proposer.public().to_bytes(), parent_hash);

    assert!(result.is_ok());
}

#[test]
fn test_invalid_wordset() {
    let wordlist = vec![
        "and".to_string(),
        "for".to_string(),
        "that".to_string(),
        "notaword".to_string(),
    ];
    let proposer = Keypair::generate();
    let mut hasher = DefaultHasher::new();
    hasher.write_u16(1337);
    let parent_hash = hasher.finish();

    let result = Block::new(&dictionary(), wordlist, proposer.public().to_bytes(), parent_hash);

    assert!(result.is_err());
    assert_eq!(result.err().unwrap(), Error::InvalidWordset);
}

#[test]
fn test_invalid_wordset_length() {
    let wordlist = vec!["and".to_string(), "for".to_string(), "that".to_string()];
    let proposer = Keypair::generate();
    let mut hasher = DefaultHasher::new();
    hasher.write_u16(1337);
    let parent_hash = hasher.finish();

    let result = Block::new(&dictionary(), wordlist, proposer.public().to_bytes(), parent_hash);

    assert!(result.is_err());
    assert_eq!(result.err().unwrap(), Error::InvalidWordsetLength);
}

#[test]
fn test_sign_verify_block() {
    let wordlist = vec![
        "and".to_string(),
        "for".to_string(),
        "that".to_string(),
        "this".to_string(),
    ];
    let proposer = Keypair::generate();
    let mut hasher = DefaultHasher::new();
    hasher.write_u16(1337);
    let parent_hash = hasher.finish();

    let result = Block::new(&dictionary(), wordlist, proposer.public().to_bytes(), parent_hash);
    let block = result.ok().unwrap();
    let signed_block = block.clone().sign(&proposer);

    assert!(signed_block.verify_signature());

    let invalid_signed_block = SignedBlock::new(block, vec![1, 2, 3, 4]);
    assert_eq!(invalid_signed_block.verify_signature(), false)
}

fn words(list: &[&str]) -> Vec<String> {
    list.iter().map(|w| w.to_string()).collect()
}

fn std_hash_of_set(list: &[&str]) -> u64 {
    let set: BTreeSet<String> = list.iter().map(|w| w.to_string()).collect();
    let mut hasher = DefaultHasher::new();
    set.hash(&mut hasher);
    hasher.finish()
}

#[test]
fn block_hash_is_the_hash_of_the_ordered_word_set() {
    let block = Block::new(&dictionary(), words(&["this", "and", "that", "for"]), [7u8; 32], 1).unwrap();
    assert_eq!(block.hash, std_hash_of_set(&["and", "for", "that", "this"]));
    assert_eq!(block.hash(), block.hash);
    assert_eq!(block.parent_hash, 1);
    assert_eq!(block.parent_hash(), 1);
    assert_eq!(block.proposer(), &[7u8; 32]);
}

#[test]
fn block_hash_depends_on_the_words_only() {
    let a = Block::new(&dictionary(), words(&["and", "for", "that", "this"]), [1u8; 32], 1).unwrap();
    let b = Block::new(&dictionary(), words(&["this", "that", "for", "and"]), [2u8; 32], 9).unwrap();
    let c = Block::new(&dictionary(), words(&["and", "for", "that", "old"]), [1u8; 32], 1).unwrap();
    assert_eq!(a.hash, b.hash);
    assert_ne!(a.hash, c.hash);
}

#[test]
fn duplicate_words_collapse_before_the_length_is_judged() {
    let result = Block::new(&dictionary(), words(&["and", "and", "for", "that"]), [0u8; 32], 1);
    assert_eq!(result.err().unwrap(), Error::InvalidWordsetLength);
    let result = Block::new(&dictionary(), words(&["and", "and", "for", "that", "this"]), [0u8; 32], 1);
    assert!(result.is_ok());
}

#[test]
fn length_is_judged_before_membership() {
    let result = Block::new(&dictionary(), words(&["notaword", "and", "for"]), [0u8; 32], 1);
    assert_eq!(result.err().unwrap(), Error::InvalidWordsetLength);
    let result = Block::new(&dictionary(), words(&["a", "b", "c", "d", "e"]), [0u8; 32], 1);
    assert_eq!(result.err().unwrap(), Error::InvalidWordsetLength);
    let result = Block::new(&dictionary(), Vec::new(), [0u8; 32], 1);
    assert_eq!(result.err().unwrap(), Error::InvalidWordsetLength);
}

#[test]
fn body_validation_steps() {
    let dict = dictionary();
    let body = BlockBody::new(&dict, words(&["and", "for", "that", "this"])).unwrap();
    assert_eq!(body.words().len(), 4);
    let body = body.validate_length().unwrap();
    let body = body.validate_subset(&dict).unwrap();
    let body = body.validate(&dict).unwrap();
    let small = Dictionary::new(words(&["and", "for", "that"]));
    assert_eq!(body.clone().validate_subset(&small).err().unwrap(), Error::InvalidWordset);
    assert_eq!(body.validate(&small).err().unwrap(), Error::InvalidWordset);
    assert_eq!(
        BlockBody::new(&dict, words(&["and", "for"])).err().unwrap(),
        Error::InvalidWordsetLength
    );
}

#[test]
fn block_validate_and_check() {
    let dict = dictionary();
    let block = Block::new(&dict, words(&["and", "for", "that", "this"]), [0u8; 32], 1).unwrap();
    assert_eq!(block.check(&dict), None);
    let small = Dictionary::new(words(&["and"]));
    assert_eq!(block.check(&small), Some(Error::InvalidWordset));
    assert_eq!(block.clone().validate(&small).err().unwrap(), Error::InvalidWordset);
    assert!(block.validate(&dict).is_ok());
}

#[test]
fn genesis_block_is_fixed() {
    let mut hasher = DefaultHasher::new();
    hasher.write_u16(1337);
    let hash = hasher.finish();
    let (genesis_hash, key, value) = Block::genesis_block();
    assert_eq!(genesis_hash, hash);
    assert_eq!(key, hash.to_be_bytes().to_vec());
    assert_eq!(value, 1337u16.to_be_bytes().to_vec());
    assert_eq!(Block::genesis_block(), (genesis_hash, key, value));
}

#[test]
fn store_key_is_big_endian() {
    assert_eq!(store_key(0x0102030405060708), vec![1, 2, 3, 4, 5, 6, 7, 8]);
    assert_eq!(store_key(0), vec![0; 8]);
    assert_eq!(store_key(u64::MAX), vec![255; 8]);
}

#[test]
fn canonical_bytes_of_a_block() {
    let timestamp = Timestamp { secs: -2, nanos: 3 };
    let block =
        Block::stamped(&dictionary(), words(&["this", "for", "and", "that"]), [7u8; 32], 0x0a0b, timestamp).unwrap();
    let mut expected: Vec<u8> = Vec::new();
    expected.extend_from_slice(&4u64.to_le_bytes());
    for w in ["and", "for", "that", "this"] {
        expected.extend_from_slice(&(w.len() as u64).to_le_bytes());
        expected.extend_from_slice(w.as_bytes());
    }
    expected.extend_from_slice(&[7u8; 32]);
    expected.extend_from_slice(&std_hash_of_set(&["and", "for", "that", "this"]).to_le_bytes());
    expected.extend_from_slice(&0x0a0bu64.to_le_bytes());
    expected.extend_from_slice(&(-2i64).to_le_bytes());
    expected.extend_from_slice(&3u32.to_le_bytes());
    assert_eq!(block.to_bytes(), expected);
    assert_eq!(block.timestamp(), timestamp);

    let signed = SignedBlock::new(block, vec![9, 8, 7]);
    expected.extend_from_slice(&3u64.to_le_bytes());
    expected.extend_from_slice(&[9, 8, 7]);
    assert_eq!(signed.to_bytes(), expected);
    assert_eq!(signed.signature(), &vec![9, 8, 7]);
    assert_eq!(signed.display(), words(&["and", "for", "that", "this"]));
}

#[test]
fn new_block_is_stamped_with_the_clock() {
    let block = Block::new(&dictionary(), words(&["and", "for", "that", "this"]), [0u8; 32], 1).unwrap();
    assert!(block.timestamp().secs > 1_600_000_000);
    assert!(block.timestamp().nanos < 2_000_000_000);
}

#[test]
fn signature_of_another_key_or_block_is_refused() {
    let proposer = Keypair::generate();
    let other = Keypair::generate();
    let dict = dictionary();
    let block = Block::new(&dict, words(&["and", "for", "that", "this"]), proposer.public().to_bytes(), 1).unwrap();
    let signed = block.clone().sign(&proposer);
    assert_eq!(signed.signature().len(), 64);
    assert!(signed.verify_signature());
    assert_eq!(signed.message().to_bytes(), block.to_bytes());

    let forged = block.clone().sign(&other);
    assert!(!forged.verify_signature());

    let mut altered = signed.signature().clone();
    altered[3] ^= 0x55;
    assert!(!SignedBlock::new(block.clone(), altered).verify_signature());

    let moved = Block::new(&dict, words(&["and", "for", "that", "old"]), proposer.public().to_bytes(), 1).unwrap();
    assert!(!SignedBlock::new(moved, signed.signature().clone()).verify_signature());

    let no_key = Block::new(&dict, words(&["and", "for", "that", "this"]), [0xffu8; 32], 1).unwrap();
    assert!(!no_key.sign(&proposer).verify_signature());
}

#[test]
fn signature_is_that_of_the_canonical_bytes() {
    let proposer = Keypair::generate();
    let other = Keypair::generate();
    let block = Block::new(&dictionary(), words(&["and", "for", "that", "this"]), proposer.public().to_bytes(), 1).unwrap();
    let signed = block.clone().sign(&proposer);
    assert_eq!(signed.signature(), &proposer.sign(&block.to_bytes()));
    assert_eq!(signed.signature(), block.clone().sign(&proposer).signature());
    // the key that signs need not be the proposer's
    let foreign = block.clone().sign(&other);
    assert_eq!(foreign.signature(), &other.sign(&block.to_bytes()));
    assert_ne!(foreign.signature(), signed.signature());
    assert_eq!(foreign.message().to_bytes(), block.to_bytes());
}
