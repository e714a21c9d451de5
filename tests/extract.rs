use aerodrome_pools::events::{EventKind, RawLog, BURN_SIGNATURE, MINT_SIGNATURE, SWAP_SIGNATURE, SYNC_SIGNATURE};
use aerodrome_pools::extract::{extract, map_blocks, Block, Receipt};

fn address_topic(fill: u8) -> Vec<u8> {
    let mut t = vec![0u8; 12];
    t.extend(vec![fill; 20]);
    t
}

fn words(values: &[u64]) -> Vec<u8> {
    let mut d = Vec::new();
    for v in values {
        d.extend(vec![0u8; 24]);
        d.extend(v.to_be_bytes());
    }
    d
}

fn log(sig: [u8; 32], addresses: bool, data: Vec<u8>, index: u32) -> RawLog {
    let mut topics = vec![sig.to_vec()];
    if addresses {
        topics.push(address_topic(0xaa));
        topics.push(address_topic(0xcc));
    }
    RawLog { address: vec![0xbb; 20], topics, data, index }
}

#[test]
fn events_are_collected_in_receipt_then_log_order() {
    let block = Block {
        number: 7,
        timestamp: 86400,
        receipts: vec![
            Receipt {
                tx_hash: vec![1; 32],
                logs: vec![
                    log(SWAP_SIGNATURE, true, words(&[1, 2, 0, 0]), 0),
                    log(MINT_SIGNATURE, true, words(&[5, 6]), 1),
                    log(SYNC_SIGNATURE, false, words(&[10, 20]), 2),
                ],
            },
            Receipt {
                tx_hash: vec![2; 32],
                logs: vec![
                    log(SWAP_SIGNATURE, true, words(&[u64::MAX, 0, 0, 0]), 3),
                    log(SWAP_SIGNATURE, true, words(&[1]), 4),
                    log(BURN_SIGNATURE, true, words(&[7, 8]), 5),
                ],
            },
        ],
    };
    let ev = extract(&block);
    assert_eq!(ev.swaps.len(), 2);
    assert_eq!(ev.swaps[0].tx_hash, vec![1; 32]);
    assert_eq!(ev.swaps[1].tx_hash, vec![2; 32]);
    assert_eq!(ev.swaps[1].log_index, 3);
    assert_eq!(ev.liquidity.len(), 2);
    assert_eq!(ev.liquidity[0].action, EventKind::Mint);
    assert_eq!(ev.liquidity[0].action_label(), "mint");
    assert_eq!(ev.liquidity[1].action_label(), "burn");
    assert_eq!(ev.liquidity[1].amount1.to_u64(), Some(8));
    assert_eq!(ev.syncs.len(), 1);
    assert_eq!(ev.syncs[0].reserve1.to_u64(), Some(20));
    assert_eq!(ev.syncs[0].block_number, 7);
    assert_eq!(ev.event_count, 5);
    assert_eq!(ev.total_volume, u64::MAX);
    assert_eq!(map_blocks(&block).len(), 2);
}

#[test]
fn empty_block_yields_nothing() {
    let block = Block { number: 1, timestamp: 0, receipts: vec![] };
    let ev = extract(&block);
    assert!(ev.swaps.is_empty() && ev.liquidity.is_empty() && ev.syncs.is_empty());
    assert_eq!(ev.event_count, 0);
    assert_eq!(ev.total_volume, 0);
}

#[test]
fn summary_volume_adds_swap_inputs() {
    let block = Block {
        number: 1,
        timestamp: 0,
        receipts: vec![Receipt {
            tx_hash: vec![3; 32],
            logs: vec![
                log(SWAP_SIGNATURE, true, words(&[100, 0, 0, 50]), 0),
                log(SWAP_SIGNATURE, true, words(&[0, 25, 0, 0]), 1),
            ],
        }],
    };
    assert_eq!(extract(&block).total_volume, 125);
}
