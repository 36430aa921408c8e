use katana_bench::abigen::{actions_contract, SpawnAndMoveAction};
use katana_bench::felt::Felt;
use katana_bench::prepare::prepare_txs;
use katana_bench::setup::{Preparation, PreparationStep};
use katana_bench::tx::{ExecutionEncoding, SenderAccount};

fn small(n: u128) -> Felt {
    Felt::from_u128(n)
}

fn spawn_of(account: usize) -> PreparationStep {
    PreparationStep::Spawn {
        account,
        calls: SpawnAndMoveAction::new(actions_contract(), ()).spawn(),
    }
}

#[test]
fn preparation_asks_in_order() {
    let mut preparation = Preparation::new(vec![small(100), small(200)], 3);
    assert_eq!(preparation.step(), PreparationStep::FetchChainId);
    preparation.record_chain_id(&small(7));
    assert_eq!(preparation.step(), spawn_of(0));
    preparation.record_spawn(&small(50));
    assert_eq!(preparation.step(), PreparationStep::AwaitSpawn { tx_hash: small(50) });
    preparation.record_spawned();
    assert_eq!(preparation.step(), spawn_of(1));
    preparation.record_spawn(&small(51));
    assert_eq!(preparation.step(), PreparationStep::AwaitSpawn { tx_hash: small(51) });
    preparation.record_spawned();
    assert_eq!(preparation.step(), PreparationStep::FetchNonce { account: 0 });
    preparation.record_nonce(&small(1));
    assert_eq!(preparation.step(), PreparationStep::FetchNonce { account: 1 });
    preparation.record_nonce(&small(5));
    assert_eq!(preparation.step(), PreparationStep::Ready);

    let senders = preparation.senders();
    let expected: Vec<SenderAccount> = [100, 200]
        .iter()
        .map(|a| SenderAccount {
            address: small(*a),
            chain_id: small(7),
            encoding: ExecutionEncoding::New,
        })
        .collect();
    assert_eq!(senders, expected);
    let txs = preparation.txs();
    assert_eq!(txs.len(), 4);
    assert_eq!(txs, prepare_txs(&senders, &vec![small(1), small(5)], 3));
}

#[test]
fn every_player_spawns_even_without_transactions() {
    let mut preparation = Preparation::new(vec![small(9)], 0);
    preparation.record_chain_id(&small(7));
    assert_eq!(preparation.step(), spawn_of(0));
    preparation.record_spawn(&small(1));
    preparation.record_spawned();
    preparation.record_nonce(&small(0));
    assert_eq!(preparation.step(), PreparationStep::Ready);
    assert!(preparation.txs().is_empty());
}
