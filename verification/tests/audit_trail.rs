use graymamba::audit::events::{
    block_has_pallet_event, chain_call, plan_submission, validate_input_lengths, AuditError,
    AuditEvent, BlockchainError, ChainCall, EventRejection, InputLengthError, SubstrateError,
};
use graymamba::audit::merkle::{build_tree_from_leaves, MerkleNode};
use graymamba::audit::poseidon::PoseidonHasher;

fn le32(v: u128) -> Vec<u8> {
    let mut out = v.to_le_bytes().to_vec();
    out.resize(32, 0);
    out
}

fn event(kind: &str, path: &str) -> AuditEvent {
    AuditEvent {
        creation_time: "Jan 01 00:00:00 2024".to_string(),
        event_type: kind.to_string(),
        file_path: path.to_string(),
        event_key: "alice".to_string(),
    }
}

#[test]
fn input_lengths_are_checked_in_order() {
    let ok = vec![b'a'; 64];
    let long = vec![b'a'; 65];
    assert_eq!(validate_input_lengths(&ok, &ok, &ok, &ok), Ok(()));
    assert_eq!(validate_input_lengths(&long, &long, &[], &[]), Err(InputLengthError::EventType));
    assert_eq!(validate_input_lengths(&ok, &long, &[], &[]), Err(InputLengthError::CreationTime));
    assert_eq!(
        validate_input_lengths(&ok, &ok, &vec![b'p'; 257], &[]),
        Err(InputLengthError::FilePath)
    );
    assert_eq!(
        validate_input_lengths(&ok, &ok, &vec![b'p'; 256], &vec![b'k'; 129]),
        Err(InputLengthError::EventKey)
    );
    assert_eq!(InputLengthError::FilePath.message(), "File path exceeds 256 bytes");
}

#[test]
fn events_pick_their_chain_call() {
    assert_eq!(chain_call("disassembled"), Some(ChainCall::Disassembled));
    assert_eq!(chain_call("reassembled"), Some(ChainCall::Reassembled));
    assert_eq!(chain_call("shutdown"), None);
    let s = plan_submission(&event("reassembled", "/alice/a")).ok().unwrap();
    assert_eq!(s.call, ChainCall::Reassembled);
    assert_eq!(s.file_path, b"/alice/a".to_vec());
    assert_eq!(s.event_key, b"alice".to_vec());
    match plan_submission(&event("other", "/a")) {
        Err(EventRejection::Unknown(AuditError::EventProcessingError(m))) => {
            assert_eq!(m, "Unknown event type")
        }
        _ => panic!("unknown event types are refused"),
    }
    let long_path = "/".repeat(300);
    match plan_submission(&event("disassembled", &long_path)) {
        Err(EventRejection::TooLong(f)) => assert_eq!(f, InputLengthError::FilePath),
        _ => panic!("a long path is refused"),
    }
}

#[test]
fn error_messages() {
    assert_eq!(
        AuditError::TransactionError("boom".to_string()).message(),
        "Audit transaction error: boom"
    );
    assert_eq!(
        SubstrateError::ConfigError("x".to_string()).message(),
        "Substrate Config Error: x"
    );
    assert_eq!(
        BlockchainError::ConnectionFailed("y".to_string()).message(),
        "Blockchain Connection Error: y"
    );
}

#[test]
fn finalized_block_with_pallet_event() {
    let names = vec!["System".to_string(), "TemplateModule".to_string()];
    assert!(block_has_pallet_event(&names));
    assert!(!block_has_pallet_event(&vec!["System".to_string()]));
}

#[test]
fn leaf_hash_is_one_round_of_the_permutation() {
    let h = PoseidonHasher::new().ok().unwrap();
    assert_eq!(h.hash_leaf(&[]), le32(98));
    let e: u128 = 0x616263;
    assert_eq!(h.hash_leaf(b"abc"), le32(e.pow(5) + 98));
}

#[test]
fn node_hash_is_one_round_of_the_permutation() {
    let h = PoseidonHasher::new().ok().unwrap();
    assert_eq!(h.hash_nodes(&[2], &[3]), le32(32 + 2 * 1024 + 96));
}

#[test]
fn merkle_leaf_and_internal_nodes() {
    let a = MerkleNode::new_leaf(b"abc", 5).ok().unwrap();
    assert_eq!(a.timestamp, 5);
    assert_eq!(a.event_data, Some(b"abc".to_vec()));
    assert!(a.left_child.is_none() && a.right_child.is_none());
    let e: u128 = 0x616263;
    assert_eq!(a.hash, le32(e.pow(5) + 98));
    let b = MerkleNode::new_leaf(b"d", 9).ok().unwrap();
    let h = PoseidonHasher::new().ok().unwrap();
    let expected = h.hash_nodes(&a.hash, &b.hash);
    let n = MerkleNode::new_internal(a, b).ok().unwrap();
    assert_eq!(n.timestamp, 9);
    assert_eq!(n.hash, expected);
    assert_eq!(n.hash.len(), 32);
    assert!(n.event_data.is_none());
    assert_eq!(n.left_child.as_ref().unwrap().timestamp, 5);
}

#[test]
fn window_tree_of_four_leaves_joins_neighbours_level_by_level() {
    let leaves: Vec<MerkleNode> = (0u8..4)
        .map(|i| MerkleNode::new_leaf(&[b'a' + i], i as i64).ok().unwrap())
        .collect();
    let h = PoseidonHasher::new().ok().unwrap();
    let h01 = h.hash_nodes(&leaves[0].hash, &leaves[1].hash);
    let h23 = h.hash_nodes(&leaves[2].hash, &leaves[3].hash);
    let expected = h.hash_nodes(&h01, &h23);
    let folded = h.hash_nodes(&h.hash_nodes(&h01, &leaves[2].hash), &leaves[3].hash);
    let root = build_tree_from_leaves(leaves).ok().unwrap();
    assert_eq!(root.hash, expected);
    assert_ne!(root.hash, folded);
    assert_eq!(root.left_child.as_ref().unwrap().hash, h01);
    assert_eq!(root.right_child.as_ref().unwrap().hash, h23);
    assert_eq!(root.timestamp, 3);
}

#[test]
fn window_tree_joins_pairs_and_carries_odd_node() {
    let leaves = vec![
        MerkleNode::new_leaf(b"1", 3).ok().unwrap(),
        MerkleNode::new_leaf(b"2", 7).ok().unwrap(),
        MerkleNode::new_leaf(b"3", 4).ok().unwrap(),
    ];
    let root = build_tree_from_leaves(leaves).ok().unwrap();
    assert_eq!(root.timestamp, 7);
    let left = root.left_child.as_ref().unwrap();
    let right = root.right_child.as_ref().unwrap();
    assert_eq!(left.timestamp, 7);
    assert!(left.left_child.is_some());
    assert_eq!(right.event_data, Some(b"3".to_vec()));
    match build_tree_from_leaves(Vec::new()) {
        Err(AuditError::EventProcessingError(m)) => {
            assert_eq!(m, "No leaves found in current window")
        }
        _ => panic!("an empty window has no root"),
    }
}
