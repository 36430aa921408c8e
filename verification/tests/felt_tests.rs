use katana_bench::felt::Felt;
use katana_bench::prepare::NonceTable;

const TOP: u128 = 0x8000000_00000011_00000000_00000000;

#[test]
fn felts_are_canonical() {
    assert!(Felt::new(TOP, 0).is_some());
    assert_eq!(Felt::new(TOP, 1), None);
    assert!(Felt::new(TOP - 1, u128::MAX).is_some());
    assert_eq!(Felt::new(u128::MAX, 0), None);
}

#[test]
fn felts_keep_their_halves() {
    let felt = Felt::new(5, 6).unwrap();
    assert_eq!((felt.hi(), felt.lo()), (5, 6));
    let felt = Felt::from_u128(u128::MAX);
    assert_eq!((felt.hi(), felt.lo()), (0, u128::MAX));
    assert!(felt.same(&Felt::new(0, u128::MAX).unwrap()));
    assert!(!felt.same(&Felt::from_u128(3)));
}

#[test]
fn nonces_move_on_one_at_a_time() {
    let mut table = NonceTable::new();
    let address = Felt::from_u128(42);
    table.insert(&address, &Felt::from_u128(u128::MAX));
    assert_eq!(table.take(&address), Felt::from_u128(u128::MAX));
    assert_eq!(table.take(&address), Felt::new(1, 0).unwrap());
    assert_eq!(table.take(&address), Felt::new(1, 1).unwrap());
}

#[test]
fn nonces_wrap_at_the_order_of_the_field() {
    let mut table = NonceTable::new();
    let address = Felt::from_u128(42);
    table.insert(&address, &Felt::new(TOP, 0).unwrap());
    assert_eq!(table.take(&address), Felt::new(TOP, 0).unwrap());
    assert_eq!(table.take(&address), Felt::from_u128(0));
}

#[test]
fn nonces_are_kept_by_address() {
    let mut table = NonceTable::new();
    let a = Felt::from_u128(1);
    let b = Felt::new(1, 1).unwrap();
    table.insert(&a, &Felt::from_u128(10));
    table.insert(&b, &Felt::from_u128(20));
    assert_eq!(table.take(&a), Felt::from_u128(10));
    assert_eq!(table.take(&b), Felt::from_u128(20));
    assert_eq!(table.take(&a), Felt::from_u128(11));
    table.insert(&a, &Felt::from_u128(100));
    assert_eq!(table.take(&a), Felt::from_u128(100));
    assert_eq!(table.take(&b), Felt::from_u128(21));
}
