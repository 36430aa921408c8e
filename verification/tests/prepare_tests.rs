use katana_bench::abigen::{actions_contract, Direction, SpawnAndMoveAction};
use katana_bench::felt::Felt;
use katana_bench::prepare::{hash_inputs, num_batches, prepare_txs, sign_txs};
use katana_bench::tx::{
    assemble, hash_input, sign_hash, ExecutionEncoding, SenderAccount, SignError,
};

fn small(n: u128) -> Felt {
    Felt::from_u128(n)
}

fn senders(addresses: &[u128]) -> Vec<SenderAccount> {
    addresses
        .iter()
        .map(|a| SenderAccount {
            address: small(*a),
            chain_id: small(1),
            encoding: ExecutionEncoding::New,
        })
        .collect()
}

fn nonces(values: &[u128]) -> Vec<Felt> {
    values.iter().map(|n| small(*n)).collect()
}

#[test]
fn batches_are_rounded_up() {
    assert_eq!(num_batches(0, 10), 0);
    assert_eq!(num_batches(1, 10), 1);
    assert_eq!(num_batches(10, 10), 1);
    assert_eq!(num_batches(11, 10), 2);
    assert_eq!(num_batches(25, 10), 3);
    assert_eq!(num_batches(7, 1), 7);
}

#[test]
fn senders_take_turns_with_consecutive_nonces() {
    let txs = prepare_txs(&senders(&[100, 200, 300]), &nonces(&[1, 5, 9]), 7);
    assert_eq!(txs.len(), 9);
    let order: Vec<(usize, Felt)> = txs.iter().map(|tx| (tx.sender, tx.nonce)).collect();
    assert_eq!(
        order,
        vec![
            (0, small(1)),
            (1, small(5)),
            (2, small(9)),
            (0, small(2)),
            (1, small(6)),
            (2, small(10)),
            (0, small(3)),
            (1, small(7)),
            (2, small(11)),
        ]
    );
}

#[test]
fn every_transaction_moves_nowhere() {
    let txs = prepare_txs(&senders(&[100, 200]), &nonces(&[0, 0]), 3);
    assert_eq!(txs.len(), 4);
    let expected =
        SpawnAndMoveAction::new(actions_contract(), ()).move_getcall(&Direction::Nowhere);
    for tx in &txs {
        assert_eq!(tx.calls.len(), 1);
        assert_eq!(tx.calls[0], expected);
    }
}

#[test]
fn senders_with_one_address_share_its_nonce() {
    let txs = prepare_txs(&senders(&[100, 200, 100]), &nonces(&[1, 5, 30]), 6);
    let order: Vec<Felt> = txs.iter().map(|tx| tx.nonce).collect();
    assert_eq!(order, nonces(&[30, 5, 31, 32, 6, 33]));
}

#[test]
fn no_nonce_is_used_twice() {
    let accounts = senders(&[7, 8, 7, 9, 8]);
    let txs = prepare_txs(&accounts, &nonces(&[1, 2, 3, 4, 5]), 40);
    for (i, a) in txs.iter().enumerate() {
        for b in &txs[..i] {
            let same = accounts[a.sender].address == accounts[b.sender].address;
            assert!(!same || a.nonce != b.nonce);
        }
    }
}

#[test]
fn no_transactions_are_prepared_for_none() {
    assert!(prepare_txs(&senders(&[1, 2]), &nonces(&[0, 0]), 0).is_empty());
}

#[test]
fn a_larger_total_extends_the_list() {
    let accounts = senders(&[100, 200, 300]);
    let starts = nonces(&[1, 5, 9]);
    let few = prepare_txs(&accounts, &starts, 4);
    let many = prepare_txs(&accounts, &starts, 11);
    assert_eq!((few.len(), many.len()), (6, 12));
    assert_eq!(few[..], many[..6]);
}

#[test]
fn totals_within_one_batch_give_the_same_list() {
    let accounts = senders(&[100, 200, 300]);
    let starts = nonces(&[1, 5, 9]);
    let four = prepare_txs(&accounts, &starts, 4);
    assert_eq!(four, prepare_txs(&accounts, &starts, 5));
    assert_eq!(four, prepare_txs(&accounts, &starts, 6));
    assert_ne!(four, prepare_txs(&accounts, &starts, 7));
}

#[test]
fn every_prepared_transaction_is_hashed_for_its_sender() {
    let accounts = senders(&[100, 200]);
    let txs = prepare_txs(&accounts, &nonces(&[3, 8]), 4);
    let inputs = hash_inputs(&accounts, &txs);
    assert_eq!(inputs.len(), 4);
    for (tx, input) in txs.iter().zip(&inputs) {
        assert_eq!(*input, hash_input(&accounts[tx.sender], &tx.calls, &tx.nonce));
    }
    assert_eq!(inputs[3].sender_address, small(200));
    assert_eq!(inputs[3].nonce, small(9));
}

#[test]
fn every_prepared_transaction_is_signed_by_its_sender() {
    let accounts = senders(&[100, 200]);
    let keys = vec![small(11), small(22)];
    let txs = prepare_txs(&accounts, &nonces(&[3, 8]), 4);
    let hashes = vec![small(1000), small(1001), small(1002), small(1003)];
    let signed = sign_txs(&accounts, &keys, &txs, &hashes).unwrap();
    assert_eq!(signed.len(), 4);
    for k in 0..4 {
        let sender = k % 2;
        let signature = sign_hash(&keys[sender], &hashes[k]).unwrap();
        let expected = assemble(&accounts[sender], &txs[k].calls, &txs[k].nonce, &signature);
        assert_eq!(signed[k], expected);
    }
    let order: Vec<(Felt, Felt)> = signed.iter().map(|tx| (tx.sender_address, tx.nonce)).collect();
    assert_eq!(
        order,
        vec![
            (small(100), small(3)),
            (small(200), small(8)),
            (small(100), small(4)),
            (small(200), small(9)),
        ]
    );
}

#[test]
fn one_hash_out_of_range_fails_the_signing() {
    let accounts = senders(&[100, 200]);
    let keys = vec![small(11), small(22)];
    let txs = prepare_txs(&accounts, &nonces(&[3, 8]), 2);
    let limit = Felt::new(0x8000000_00000000_00000000_00000000, 0).unwrap();
    assert_eq!(
        sign_txs(&accounts, &keys, &txs, &vec![small(1), limit]),
        Err(SignError::MessageHashOutOfRange)
    );
    assert_eq!(sign_txs(&accounts, &keys, &vec![], &vec![]), Ok(vec![]));
}
