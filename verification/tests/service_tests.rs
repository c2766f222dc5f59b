use libp2p::identity::ed25519::Keypair;
use monkeylib::behaviour::types::{BehaviourEvent, GossipsubMessage};
use monkeylib::block::SignedBlock;
use monkeylib::dictionary::Dictionary;
use monkeylib::display::Placement;
use monkeylib::import::{import_block, import_decision, import_genesis};
use monkeylib::service::handler::{Handler, HandlerMessage, HandlerOutcome};
use monkeylib::service::{topic, ServiceAction, ServiceEvent, ServiceMessage};
use monkeylib::store::DiscStore;
use monkeylib::{Block, Error, Service};
use std::collections::hash_map::DefaultHasher;
use std::hash::Hasher;

fn dictionary() -> Dictionary {
    let words = vec!["and", "for", "that", "this", "old", "new", "never", "ever", "where", "when"];
    Dictionary::new(words.into_iter().map(|w| w.to_string()).collect())
}

fn build_store(name: &str) -> DiscStore {
    let mut store = DiscStore::open_in_memory(name).ok().unwrap();
    Service::import_genesis(&mut store).ok().unwrap();
    store
}

fn hash_of(data: u16) -> u64 {
    let mut hasher = DefaultHasher::new();
    hasher.write_u16(data);
    hasher.finish()
}

fn signed(words: &[&str], proposer: &Keypair, parent_hash: u64) -> SignedBlock {
    let wordlist = words.iter().map(|w| w.to_string()).collect();
    let block = Block::new(&dictionary(), wordlist, proposer.public().to_bytes(), parent_hash).ok().unwrap();
    block.sign(proposer)
}

#[test]
fn test_import_block() {
    let mut store = build_store("servicedata");
    let proposer = Keypair::generate();
    let signed_block = signed(&["and", "for", "that", "this"], &proposer, hash_of(1337));

    assert!(
        Service::import_block(&mut store, &dictionary(), &signed_block).is_ok(),
        "import_block not ok"
    );
    let key = signed_block.message.hash.to_be_bytes();
    assert_eq!(store.get(&key), Some(signed_block.to_bytes()));
}

#[test]
fn test_import_block_invalid_parent() {
    let mut store = build_store("servicedata");
    let proposer = Keypair::generate();
    let signed_block = signed(&["and", "for", "old", "new"], &proposer, hash_of(7331));

    let result = Service::import_block(&mut store, &dictionary(), &signed_block);

    assert!(result.is_err(), "import_block expected failure but was ok");
    assert_eq!(
        result.err().unwrap(),
        Error::UnknownParentBlock,
        "import_block error mismatch"
    );
    assert_eq!(store.get(&signed_block.message.hash.to_be_bytes()), None);
}

#[test]
fn test_import_duplicate_block() {
    let mut store = build_store("servicedata");
    let proposer = Keypair::generate();
    let signed_block = signed(&["never", "ever", "where", "when"], &proposer, hash_of(1337));

    Service::import_block(&mut store, &dictionary(), &signed_block).unwrap();
    let stored = store.get(&signed_block.message.hash.to_be_bytes());

    let again = Service::import_block(&mut store, &dictionary(), &signed_block);
    assert!(again.is_err(), "import_block expected failure but was ok");
    assert_eq!(again.err().unwrap(), Error::DuplicateBlock);
    assert_eq!(store.get(&signed_block.message.hash.to_be_bytes()), stored);
}

#[test]
fn import_scenario() {
    let mut store = DiscStore::open_in_memory("scenario").ok().unwrap();
    import_genesis(&mut store).unwrap();
    let (genesis_hash, genesis_key, genesis_value) = Block::genesis_block();
    assert_eq!(store.get(&genesis_key), Some(genesis_value));
    let dict = dictionary();
    let proposer = Keypair::generate();

    let block = signed(&["and", "for", "that", "this"], &proposer, genesis_hash);
    assert_eq!(import_block(&mut store, &dict, &block), Ok(()));
    assert_eq!(import_block(&mut store, &dict, &block), Err(Error::DuplicateBlock));

    let wordlist = vec!["and", "for", "that", "notaword"].into_iter().map(|w| w.to_string()).collect();
    let refused = Block::new(&dict, wordlist, proposer.public().to_bytes(), genesis_hash);
    assert_eq!(refused.err().unwrap(), Error::InvalidWordset);

    let orphan = signed(&["and", "for", "old", "new"], &proposer, 0xdead_beef);
    assert_eq!(import_block(&mut store, &dict, &orphan), Err(Error::UnknownParentBlock));
    assert_eq!(store.get(&orphan.message.hash.to_be_bytes()), None);
}

#[test]
fn import_checks_in_order() {
    let mut store = build_store("order");
    let proposer = Keypair::generate();
    let small = Dictionary::new(vec!["and".to_string()]);
    let block = signed(&["and", "for", "that", "this"], &proposer, 0xdead_beef);

    // words are judged before the signature, the signature before the parent
    let bad = SignedBlock::new(block.message.clone(), vec![0; 64]);
    assert_eq!(import_block(&mut store, &small, &bad), Err(Error::InvalidWordset));
    assert_eq!(import_block(&mut store, &dictionary(), &bad), Err(Error::InvalidSignature));
    assert_eq!(import_block(&mut store, &dictionary(), &block), Err(Error::UnknownParentBlock));
    // a refused block is refused again in the same way
    assert_eq!(import_block(&mut store, &dictionary(), &bad), Err(Error::InvalidSignature));
    assert_eq!(store.get(&block.message.hash.to_be_bytes()), None);
}

#[test]
fn a_child_of_an_imported_block_is_imported() {
    let mut store = build_store("chain");
    let proposer = Keypair::generate();
    let first = signed(&["and", "for", "that", "this"], &proposer, hash_of(1337));
    assert_eq!(import_block(&mut store, &dictionary(), &first), Ok(()));
    let second = signed(&["never", "ever", "where", "when"], &proposer, first.message.hash);
    assert_eq!(import_block(&mut store, &dictionary(), &second), Ok(()));
}

#[test]
fn handler_makes_blocks_of_input() {
    let store = DiscStore::open_in_memory("handler").ok().unwrap();
    let mut handler = Handler::new(store, dictionary()).ok().unwrap();
    let key = [3u8; 32];

    let outcome = handler.handle_message(HandlerMessage::Stdin("  This and\tTHAT for \n".to_string(), key));
    match outcome {
        HandlerOutcome::Forward(ServiceMessage::NewBlock(block)) => {
            assert_eq!(block.parent_hash, hash_of(1337));
            assert_eq!(block.proposer(), &key);
            assert_eq!(
                SignedBlock::new(block, Vec::new()).display(),
                vec!["and".to_string(), "for".to_string(), "that".to_string(), "this".to_string()]
            );
        }
        other => panic!("unexpected outcome {:?}", other),
    }

    let outcome = handler.handle_message(HandlerMessage::Stdin("this and that".to_string(), key));
    assert!(matches!(outcome, HandlerOutcome::InvalidInput(Error::InvalidWordsetLength)));
    let outcome = handler.handle_message(HandlerMessage::Stdin("this and that monkey".to_string(), key));
    assert!(matches!(outcome, HandlerOutcome::InvalidInput(Error::InvalidWordset)));
    let outcome = handler.handle_message(HandlerMessage::Stdin(String::new(), key));
    assert!(matches!(outcome, HandlerOutcome::InvalidInput(Error::InvalidWordsetLength)));
}

#[test]
fn handler_imports_own_and_published_blocks() {
    let store = DiscStore::open_in_memory("handler").ok().unwrap();
    let mut handler = Handler::new(store, dictionary()).ok().unwrap();
    let proposer = Keypair::generate();

    let own = signed(&["and", "for", "that", "this"], &proposer, hash_of(1337));
    let outcome = handler.handle_message(HandlerMessage::OwnBlock(own.clone()));
    match outcome {
        HandlerOutcome::Appended(placement, lines) => {
            assert_eq!(placement, Placement { wiped: false, wiped_column: 10, column: 10, first_row: 31 });
            assert_eq!(lines, own.display());
        }
        other => panic!("unexpected outcome {:?}", other),
    }
    let outcome = handler.handle_message(HandlerMessage::OwnBlock(own.clone()));
    assert!(matches!(outcome, HandlerOutcome::Ignored(Error::DuplicateBlock)));

    let published = signed(&["never", "ever", "where", "when"], &proposer, own.message.hash);
    let message = GossipsubMessage::Block(Box::new(published.clone()));
    let outcome = handler.handle_message(HandlerMessage::Publish(vec![1, 2], vec![3], message.clone()));
    match outcome {
        HandlerOutcome::Forward(ServiceMessage::PropagateGossip(id, source)) => {
            assert_eq!(id, vec![1, 2]);
            assert_eq!(source, vec![3]);
        }
        other => panic!("unexpected outcome {:?}", other),
    }
    let outcome = handler.handle_message(HandlerMessage::Publish(vec![1, 2], vec![3], message));
    assert!(matches!(outcome, HandlerOutcome::Ignored(Error::DuplicateBlock)));

    let orphan = signed(&["and", "for", "old", "new"], &proposer, 5);
    let outcome = handler.handle_message(HandlerMessage::Publish(
        vec![9],
        vec![9],
        GossipsubMessage::Block(Box::new(orphan)),
    ));
    assert!(matches!(outcome, HandlerOutcome::Ignored(Error::UnknownParentBlock)));
    assert!(handler.import_genesis().is_ok());
    assert_eq!(handler.import_block(&published), Err(Error::DuplicateBlock));
}

#[test]
fn service_signs_and_publishes_new_blocks() {
    let keypair = Keypair::generate();
    let service = Service::new(keypair.clone());
    assert_eq!(service.local_public_key(), keypair.public().to_bytes());
    let wordlist = vec!["and", "for", "that", "this"].into_iter().map(|w| w.to_string()).collect();
    let block = Block::new(&dictionary(), wordlist, service.local_public_key(), hash_of(1337)).unwrap();

    let mut actions = service.handle_message(ServiceMessage::NewBlock(block.clone()));
    assert_eq!(actions.len(), 2);
    let second = actions.pop().unwrap();
    let first = actions.pop().unwrap();
    let signed_block = match second {
        ServiceAction::ToHandler(HandlerMessage::OwnBlock(signed_block)) => signed_block,
        other => panic!("unexpected action {:?}", other),
    };
    assert!(signed_block.verify_signature());
    assert_eq!(signed_block.message.to_bytes(), block.to_bytes());
    match first {
        ServiceAction::Publish(bytes) => {
            let message = GossipsubMessage::Block(Box::new(signed_block.clone()));
            assert_eq!(bytes, message.encode().unwrap());
            match GossipsubMessage::decode(&bytes).unwrap() {
                GossipsubMessage::Block(decoded) => assert_eq!(decoded.to_bytes(), signed_block.to_bytes()),
            }
        }
        other => panic!("unexpected action {:?}", other),
    }

    let mut store = build_store("own");
    assert_eq!(Service::import_block(&mut store, &dictionary(), &signed_block), Ok(()));
}

#[test]
fn service_steps() {
    let keypair = Keypair::generate();
    let service = Service::new(keypair.clone());
    assert_eq!(topic(), "monkey-chain");

    let mut actions = service.step(ServiceEvent::Stdin("and for that this".to_string()));
    assert_eq!(actions.len(), 1);
    match actions.pop().unwrap() {
        ServiceAction::ToHandler(HandlerMessage::Stdin(line, key)) => {
            assert_eq!(line, "and for that this");
            assert_eq!(key, keypair.public().to_bytes());
        }
        other => panic!("unexpected action {:?}", other),
    }

    let actions = service.step(ServiceEvent::StdinClosed);
    assert!(matches!(actions.as_slice(), [ServiceAction::Stop]));
    let actions = service.step(ServiceEvent::OverlayClosed);
    assert!(matches!(actions.as_slice(), [ServiceAction::Stop]));

    let actions = service.step(ServiceEvent::Overlay(BehaviourEvent::PeerSubscribed(vec![1], "t".to_string())));
    assert!(actions.is_empty());
    let actions = service.step(ServiceEvent::Overlay(BehaviourEvent::PeerUnsubscribed(vec![1], "t".to_string())));
    assert!(actions.is_empty());

    let block = signed(&["and", "for", "that", "this"], &keypair, hash_of(1337));
    let event = BehaviourEvent::GossipsubMessage {
        id: vec![4],
        source: vec![5, 6],
        message: GossipsubMessage::Block(Box::new(block.clone())),
    };
    let mut actions = service.step(ServiceEvent::Overlay(event));
    assert_eq!(actions.len(), 1);
    match actions.pop().unwrap() {
        ServiceAction::ToHandler(HandlerMessage::Publish(id, source, GossipsubMessage::Block(carried))) => {
            assert_eq!(id, vec![4]);
            assert_eq!(source, vec![5, 6]);
            assert_eq!(carried.to_bytes(), block.to_bytes());
        }
        other => panic!("unexpected action {:?}", other),
    }

    let mut actions = service.step(ServiceEvent::Handler(ServiceMessage::PropagateGossip(vec![7], vec![8])));
    assert_eq!(actions.len(), 1);
    match actions.pop().unwrap() {
        ServiceAction::Propagate(id, source) => {
            assert_eq!(id, vec![7]);
            assert_eq!(source, vec![8]);
        }
        other => panic!("unexpected action {:?}", other),
    }
    let actions = service.step(ServiceEvent::Handler(ServiceMessage::NewBlock(block.message.clone())));
    assert_eq!(actions.len(), 2);
}

#[test]
fn import_decision_takes_the_first_failure() {
    let found = || Some(vec![1u8, 2, 3]);
    assert_eq!(import_decision(None, true, found(), None), Ok(()));
    assert_eq!(import_decision(None, true, Some(Vec::new()), None), Ok(()));
    assert_eq!(import_decision(None, true, found(), found()), Err(Error::DuplicateBlock));
    assert_eq!(import_decision(None, true, found(), Some(Vec::new())), Err(Error::DuplicateBlock));
    assert_eq!(import_decision(None, true, None, None), Err(Error::UnknownParentBlock));
    assert_eq!(import_decision(None, true, None, found()), Err(Error::UnknownParentBlock));
    assert_eq!(import_decision(None, false, found(), None), Err(Error::InvalidSignature));
    assert_eq!(import_decision(None, false, None, found()), Err(Error::InvalidSignature));
    assert_eq!(
        import_decision(Some(Error::InvalidWordset), true, found(), None),
        Err(Error::InvalidWordset)
    );
    assert_eq!(
        import_decision(Some(Error::InvalidWordsetLength), false, None, found()),
        Err(Error::InvalidWordsetLength)
    );
}

#[test]
fn a_store_that_imports_has_not_failed() {
    let mut store = build_store("sound");
    assert!(!store.has_failed());
    let proposer = Keypair::generate();
    let block = signed(&["and", "for", "that", "this"], &proposer, hash_of(1337));
    assert_eq!(import_block(&mut store, &dictionary(), &block), Ok(()));
    assert_eq!(import_block(&mut store, &dictionary(), &block), Err(Error::DuplicateBlock));
    assert!(!store.has_failed());
}
