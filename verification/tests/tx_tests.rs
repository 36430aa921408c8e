use katana_bench::abigen::{actions_contract, Call, Direction, SpawnAndMoveAction};
use katana_bench::felt::Felt;
use katana_bench::tx::{
    assemble, hash_in_range, hash_input, sign_hash, signable, tx, DataAvailabilityMode,
    ExecutionEncoding, ResourceBounds, ResourceBoundsMapping, SenderAccount, SignError, Signature,
    L1_GAS_BOUND,
};
use starknet::accounts::ExecutionEncoder;

type OutsideFelt = starknet::core::types::Felt;

fn small(n: u128) -> Felt {
    Felt::from_u128(n)
}

fn outside(felt: &Felt) -> OutsideFelt {
    let bytes = [felt.hi().to_be_bytes(), felt.lo().to_be_bytes()].concat();
    OutsideFelt::from_bytes_be_slice(&bytes)
}

fn sender() -> SenderAccount {
    SenderAccount {
        address: small(111),
        chain_id: small(222),
        encoding: ExecutionEncoding::New,
    }
}

fn legacy_sender() -> SenderAccount {
    SenderAccount { encoding: ExecutionEncoding::Legacy, ..sender() }
}

fn private_key() -> Felt {
    Felt::new(0x139fe4d6f02e666e86a6f58e65060f1, 0x15cd3c185bd9e98bd829636931458f79).unwrap()
}

fn three_calls() -> Vec<Call> {
    vec![
        Call { to: small(1), selector: small(2), calldata: vec![small(3), small(4)] },
        Call { to: small(5), selector: small(6), calldata: vec![] },
        SpawnAndMoveAction::new(actions_contract(), ()).move_getcall(&Direction::Down),
    ]
}

fn bounds() -> ResourceBoundsMapping {
    ResourceBoundsMapping {
        l1_gas: ResourceBounds { max_amount: 20000005000, max_price_per_unit: 20000005000 },
        l2_gas: ResourceBounds { max_amount: 0, max_price_per_unit: 0 },
    }
}

#[test]
fn calls_are_encoded_one_after_the_other() {
    let encoded = sender().encode_calls(&three_calls());
    let contract = actions_contract();
    let selector = three_calls()[2].selector;
    assert_eq!(
        encoded,
        vec![
            small(3),
            small(1),
            small(2),
            small(2),
            small(3),
            small(4),
            small(5),
            small(6),
            small(0),
            contract,
            selector,
            small(1),
            small(4),
        ]
    );
    assert_eq!(sender().encode_calls(&vec![]), vec![small(0)]);
}

#[test]
fn legacy_calls_have_their_calldata_at_the_end() {
    let selector = three_calls()[2].selector;
    assert_eq!(
        legacy_sender().encode_calls(&three_calls()),
        vec![
            small(3),
            small(1),
            small(2),
            small(0),
            small(2),
            small(5),
            small(6),
            small(2),
            small(0),
            actions_contract(),
            selector,
            small(2),
            small(1),
            small(3),
            small(3),
            small(4),
            small(4),
        ]
    );
    assert_eq!(legacy_sender().encode_calls(&vec![]), vec![small(0), small(0)]);
}

fn encoded_outside(encoding: starknet::accounts::ExecutionEncoding) -> Vec<OutsideFelt> {
    let transport = starknet::providers::jsonrpc::HttpTransport::new(
        url::Url::parse("http://localhost:5050").unwrap(),
    );
    let account = starknet::accounts::SingleOwnerAccount::new(
        starknet::providers::jsonrpc::JsonRpcClient::new(transport),
        starknet::signers::LocalWallet::from_signing_key(
            starknet::signers::SigningKey::from_secret_scalar(outside(&private_key())),
        ),
        outside(&sender().address),
        outside(&sender().chain_id),
        encoding,
    );
    let calls: Vec<starknet::core::types::Call> = three_calls()
        .iter()
        .map(|call| starknet::core::types::Call {
            to: outside(&call.to),
            selector: outside(&call.selector),
            calldata: call.calldata.iter().map(outside).collect(),
        })
        .collect();
    account.encode_calls(&calls)
}

#[test]
fn calls_are_encoded_as_an_account_does() {
    let encoded: Vec<OutsideFelt> =
        sender().encode_calls(&three_calls()).iter().map(outside).collect();
    assert_eq!(encoded, encoded_outside(starknet::accounts::ExecutionEncoding::New));
    let legacy: Vec<OutsideFelt> =
        legacy_sender().encode_calls(&three_calls()).iter().map(outside).collect();
    assert_eq!(legacy, encoded_outside(starknet::accounts::ExecutionEncoding::Legacy));
    assert_ne!(encoded, legacy);
}

#[test]
fn different_calls_are_encoded_differently() {
    let split = vec![
        Call { to: small(1), selector: small(2), calldata: vec![] },
        Call { to: small(1), selector: small(2), calldata: vec![] },
    ];
    let joined = vec![Call {
        to: small(1),
        selector: small(2),
        calldata: vec![small(1), small(2), small(0)],
    }];
    assert_ne!(sender().encode_calls(&split), sender().encode_calls(&joined));
    assert_ne!(legacy_sender().encode_calls(&split), legacy_sender().encode_calls(&joined));
}

#[test]
fn hash_covers_the_fixed_fields() {
    let input = hash_input(&sender(), &three_calls(), &small(9));
    assert_eq!(input.sender_address, small(111));
    assert_eq!(input.chain_id, small(222));
    assert_eq!(input.nonce, small(9));
    assert_eq!(input.calldata, sender().encode_calls(&three_calls()));
    let legacy = hash_input(&legacy_sender(), &three_calls(), &small(9));
    assert_eq!(legacy.calldata, legacy_sender().encode_calls(&three_calls()));
    assert_eq!(input.tip, 0);
    assert_eq!(input.resource_bounds, bounds());
    assert_eq!(L1_GAS_BOUND, 20000005000);
    assert!(input.paymaster_data.is_empty());
    assert!(input.account_deployment_data.is_empty());
    assert_eq!(input.nonce_data_availability_mode, DataAvailabilityMode::L1);
    assert_eq!(input.fee_data_availability_mode, DataAvailabilityMode::L1);
    assert!(!input.is_query);
}

#[test]
fn what_is_sent_is_what_was_hashed() {
    let input = hash_input(&sender(), &three_calls(), &small(9));
    let signature = Signature { r: small(70), s: small(71) };
    let sent = assemble(&sender(), &three_calls(), &small(9), &signature);
    assert_eq!(sent.signature, vec![small(70), small(71)]);
    assert_eq!(sent.sender_address, input.sender_address);
    assert_eq!(sent.calldata, input.calldata);
    assert_eq!(sent.nonce, input.nonce);
    assert_eq!(sent.resource_bounds, input.resource_bounds);
    assert_eq!(sent.tip, input.tip);
    assert_eq!(sent.paymaster_data, input.paymaster_data);
    assert_eq!(sent.account_deployment_data, input.account_deployment_data);
    assert_eq!(sent.nonce_data_availability_mode, input.nonce_data_availability_mode);
    assert_eq!(sent.fee_data_availability_mode, input.fee_data_availability_mode);
    assert_eq!(sent.is_query, input.is_query);
}

#[test]
fn signatures_verify_against_the_public_key() {
    let key = starknet::signers::SigningKey::from_secret_scalar(outside(&private_key()));
    let hash = Felt::new(0x6fea80189363a786037ed3e7ba546da, 0xd0e3f1d9d0a1ee1f9d8d0ed0a5f2b6f1)
        .unwrap();
    let signature = sign_hash(&private_key(), &hash).unwrap();
    let outside_signature = starknet::core::crypto::Signature {
        r: outside(&signature.r),
        s: outside(&signature.s),
    };
    assert!(key.verifying_key().verify(&outside(&hash), &outside_signature).unwrap());
    let expected = key.sign(&outside(&hash)).unwrap();
    assert_eq!(expected.r, outside(&signature.r));
    assert_eq!(expected.s, outside(&signature.s));
    assert_eq!(sign_hash(&private_key(), &hash), Ok(signature));
}

#[test]
fn hashes_out_of_range_are_not_signed() {
    let limit = Felt::new(0x8000000_00000000_00000000_00000000, 0).unwrap();
    let below = Felt::new(0x7ffffff_ffffffff_ffffffff_ffffffff, u128::MAX).unwrap();
    assert_eq!(sign_hash(&private_key(), &limit), Err(SignError::MessageHashOutOfRange));
    assert!(sign_hash(&private_key(), &below).is_ok());
    assert!(!hash_in_range(&limit));
    assert!(hash_in_range(&below));
    assert!(hash_in_range(&small(0)));
}

#[test]
fn transactions_carry_the_signature_of_their_hash() {
    let hash = small(123456789);
    let sent = tx(&sender(), &private_key(), &three_calls(), &small(4), &hash);
    let signature = sign_hash(&private_key(), &hash).unwrap();
    assert_eq!(sent, assemble(&sender(), &three_calls(), &small(4), &signature));
}

#[test]
fn only_a_zero_hash_under_a_degenerate_key_is_not_signable() {
    let order =
        Felt::new(0x800000000000010ffffffffffffffff, 0xb781126dcae7b2321e66a241adc64d2f).unwrap();
    assert!(!signable(&small(0), &small(0)));
    assert!(!signable(&order, &small(0)));
    assert!(signable(&order, &small(1)));
    assert!(signable(&small(0), &small(1)));
    assert!(signable(&private_key(), &small(0)));
    assert!(sign_hash(&private_key(), &small(0)).is_ok());
    assert!(sign_hash(&small(0), &small(1)).is_ok());
}
