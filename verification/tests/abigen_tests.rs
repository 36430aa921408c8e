use katana_bench::abigen::{
    actions_contract, BlockId, BlockTag, CairoSerdeError, Direction, SpawnAndMoveAction,
    SpawnAndMoveActionReader,
};
use katana_bench::felt::Felt;

fn small(n: u128) -> Felt {
    Felt::from_u128(n)
}

fn outside(felt: &Felt) -> starknet::core::types::Felt {
    let bytes = [felt.hi().to_be_bytes(), felt.lo().to_be_bytes()].concat();
    starknet::core::types::Felt::from_bytes_be_slice(&bytes)
}

const ALL: [Direction; 5] =
    [Direction::Nowhere, Direction::Left, Direction::Right, Direction::Up, Direction::Down];

#[test]
fn direction_is_written_as_its_number() {
    for (i, direction) in ALL.iter().enumerate() {
        let felts = Direction::cairo_serialize(direction);
        assert_eq!(felts, vec![small(i as u128)]);
        assert_eq!(felts.len(), Direction::cairo_serialized_size(direction));
    }
}

#[test]
fn direction_round_trips_between_other_felts() {
    for direction in ALL {
        let mut felts = vec![small(17), small(99)];
        felts.extend(Direction::cairo_serialize(&direction));
        felts.push(small(5));
        assert_eq!(Direction::cairo_deserialize(&felts, 2), Ok(direction));
    }
}

#[test]
fn direction_with_an_unknown_number_is_refused() {
    let message = "Index not handle for enum Direction".to_string();
    for n in [5, 6, 255, u64::MAX as u128] {
        assert_eq!(
            Direction::cairo_deserialize(&[small(n)], 0),
            Err(CairoSerdeError::Deserialize(message.clone()))
        );
    }
}

#[test]
fn direction_is_read_from_the_low_bits() {
    let above_usize = small((usize::MAX as u128 + 1) + 3);
    assert_eq!(Direction::cairo_deserialize(&[above_usize], 0), Ok(Direction::Up));
    let above_half = Felt::new(7, 2).unwrap();
    assert_eq!(Direction::cairo_deserialize(&[above_half], 0), Ok(Direction::Right));
}

#[test]
fn move_call_targets_the_entry_point() {
    let action = SpawnAndMoveAction::new(small(1234), ());
    for (i, direction) in ALL.iter().enumerate() {
        let call = action.move_getcall(direction);
        assert_eq!(call.to, small(1234));
        assert_eq!(
            outside(&call.selector),
            starknet::core::utils::get_selector_from_name("move").unwrap()
        );
        assert_eq!(call.calldata, vec![small(i as u128)]);
    }
    let selector = action.move_getcall(&Direction::Up).selector;
    assert_eq!(
        selector,
        Felt::new(0x239e4c8fbd11b680d7214cfc26d1780, 0xd5c099453f0832beb15fd040aebd4ebb).unwrap()
    );
}

#[test]
fn spawn_call_targets_the_entry_point() {
    let calls = SpawnAndMoveAction::new(small(77), ()).spawn();
    assert_eq!(calls.len(), 1);
    assert_eq!(calls[0].to, small(77));
    assert_eq!(
        outside(&calls[0].selector),
        starknet::core::utils::get_selector_from_name("spawn").unwrap()
    );
    assert_eq!(
        calls[0].selector,
        Felt::new(0x217c73ea9ef26581623f20edd45571c, 0x1d024612b70d0af3e0842c5b0dc253cd).unwrap()
    );
    assert!(calls[0].calldata.is_empty());
}

#[test]
fn actions_contract_has_its_address() {
    assert_eq!(
        outside(&actions_contract()),
        starknet::core::types::Felt::from_hex(
            "0x1455a4751d41c1daa6a672c46037c1df81d50fa9daeea653e8946026f6653e2"
        )
        .unwrap()
    );
}

#[test]
fn action_fields_change_one_at_a_time() {
    let mut action = SpawnAndMoveAction::new(small(1), "account");
    assert_eq!(action.block_id, BlockId::Tag(BlockTag::Pending));
    action.set_contract_address(small(2));
    assert_eq!((action.address, action.account), (small(2), "account"));
    action.set_block(BlockId::Number(9));
    assert_eq!(action.block_id, BlockId::Number(9));
    let action = action.with_block(BlockId::Hash(small(3)));
    assert_eq!(action.block_id, BlockId::Hash(small(3)));
    assert_eq!((action.address, action.account), (small(2), "account"));
}

#[test]
fn reader_fields_change_one_at_a_time() {
    let mut reader = SpawnAndMoveActionReader::new(small(1), "provider");
    assert_eq!(reader.block_id, BlockId::Tag(BlockTag::Pending));
    assert_eq!(*reader.provider(), "provider");
    reader.set_contract_address(small(2));
    reader.set_block(BlockId::Tag(BlockTag::Latest));
    assert_eq!(reader.address, small(2));
    assert_eq!(reader.block_id, BlockId::Tag(BlockTag::Latest));
    let reader = reader.with_block(BlockId::Number(4));
    assert_eq!(reader.block_id, BlockId::Number(4));
    assert_eq!(*reader.provider(), "provider");
}
