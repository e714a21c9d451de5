use aerodrome_pools::events::{Amount, RawLog, SWAP_SIGNATURE};
use aerodrome_pools::extract::{map_blocks, Block, Receipt};
use aerodrome_pools::stores::{
    store_pool_stats, store_swap_volumes, store_unique_traders, MemoryStore, StoreOp, SwapRecord,
};

fn amount(v: u64) -> Amount {
    let mut w = vec![0u8; 24];
    w.extend(v.to_be_bytes());
    Amount { bytes: w }
}

fn address_topic(fill: u8) -> Vec<u8> {
    let mut t = vec![0u8; 12];
    t.extend(vec![fill; 20]);
    t
}

fn record(a0_in: u64, a1_in: u64, a0_out: u64, a1_out: u64) -> SwapRecord {
    SwapRecord {
        block_number: 42,
        timestamp: 1705276800,
        tx_hash: vec![0x01; 32],
        log_index: 3,
        pool_address: vec![0xbb; 20],
        sender: vec![0xaa; 20],
        recipient: vec![0xcc; 20],
        amount0_in: amount(a0_in),
        amount1_in: amount(a1_in),
        amount0_out: amount(a0_out),
        amount1_out: amount(a1_out),
    }
}

fn add(key: &str, delta: u64) -> StoreOp {
    StoreOp::Add { key: key.to_string(), delta }
}

fn set(key: &str, value: &str) -> StoreOp {
    StoreOp::SetIfAbsent { key: key.to_string(), value: value.to_string() }
}

fn hex20(b: &str) -> String {
    format!("0x{}", b.repeat(20))
}

#[test]
fn block_with_one_swap_end_to_end() {
    let mut data = Vec::new();
    for v in [100u64, 0, 0, 50] {
        data.extend(amount(v).bytes);
    }
    let log = RawLog {
        address: vec![0xbb; 20],
        topics: vec![SWAP_SIGNATURE.to_vec(), address_topic(0xaa), address_topic(0xcc)],
        data,
        index: 3,
    };
    let unrelated = RawLog { address: vec![0xbb; 20], topics: vec![vec![0; 32]], data: vec![], index: 4 };
    let block = Block {
        number: 42,
        timestamp: 1705276800,
        receipts: vec![Receipt { tx_hash: vec![0x01; 32], logs: vec![log, unrelated] }],
    };
    let swaps = map_blocks(&block);
    assert_eq!(swaps.len(), 1);
    let s = &swaps[0];
    assert_eq!(s.sender, vec![0xaa; 20]);
    assert_eq!(s.pool_address, vec![0xbb; 20]);
    assert_eq!(s.log_index, 3);
    assert_eq!(s.amount_in_total(), 100);
    assert_eq!(s.amount_out_total(), 50);
    assert_eq!(s.price_ratio(), 500000);
    let rec = s.change_record();
    assert_eq!(rec.key, format!("{}:3", "01".repeat(32)));
    assert_eq!(rec.tx_hash, "01".repeat(32));
    assert_eq!(rec.block_number, 42);
    assert_eq!(rec.timestamp, 1705276800);
    assert_eq!(rec.pool_address, hex20("bb"));
    assert_eq!(rec.sender, hex20("aa"));
    assert_eq!(rec.recipient, hex20("cc"));
    assert_eq!(rec.amount0_in, "100");
    assert_eq!(rec.amount1_in, "0");
    assert_eq!(rec.amount0_out, "0");
    assert_eq!(rec.amount1_out, "50");
    assert_eq!(rec.amount_in_total, 100);
    assert_eq!(rec.amount_out_total, 50);
    assert_eq!(rec.price_ratio, 500000);

    let pool = hex20("bb");
    let trader = hex20("aa");
    let volumes = store_swap_volumes(&swaps);
    assert_eq!(
        volumes,
        vec![
            add(&format!("pool:{}:volume", pool), 100),
            add(&format!("pool:{}:count", pool), 1),
            add("total:volume", 100),
            add("total:swaps", 1),
            add("daily:2024-01-15:volume", 100),
            add("daily:2024-01-15:count", 1),
            add("hourly:2024-01-15-00:volume", 100),
            add("hourly:2024-01-15-00:count", 1),
        ]
    );
    let traders = store_unique_traders(&swaps);
    assert_eq!(
        traders,
        vec![
            set(&format!("trader:{}", trader), "42:1705276800"),
            set(&format!("daily:2024-01-15:trader:{}", trader), "42"),
            set(&format!("pool:{}:trader:{}", pool, trader), "42"),
        ]
    );
    assert_eq!(store_pool_stats(&swaps), vec![add(&format!("pool:{}:trade_count", pool), 1)]);
}

#[test]
fn zero_input_swap_changes_no_counter() {
    let swaps = vec![record(0, 0, 10, 0)];
    assert!(store_swap_volumes(&swaps).is_empty());
    assert!(store_pool_stats(&swaps).is_empty());
    assert_eq!(store_unique_traders(&swaps).len(), 3);
}

#[test]
fn empty_sender_sets_no_marker() {
    let mut r = record(5, 0, 1, 0);
    r.sender = vec![];
    let swaps = vec![r];
    assert!(store_unique_traders(&swaps).is_empty());
    assert_eq!(store_swap_volumes(&swaps).len(), 8);
}

#[test]
fn input_total_sums_both_inputs() {
    let r = record(5, 7, 0, 0);
    assert_eq!(r.amount_in_total(), 12);
    assert_eq!(store_swap_volumes(&vec![r])[2], add("total:volume", 12));
}

#[test]
fn oversized_amounts_count_as_zero() {
    let mut r = record(0, 9, 3, 0);
    r.amount0_in = Amount { bytes: vec![0xff; 32] };
    assert_eq!(r.amount_in_total(), 9);
    let overflow = record(u64::MAX, 1, 0, 0);
    assert_eq!(overflow.amount_in_total(), 0);
    assert!(store_swap_volumes(&vec![overflow]).is_empty());
}

#[test]
fn price_ratio_rounds_and_handles_zero_input() {
    assert_eq!(record(0, 0, 10, 0).price_ratio(), 0);
    assert_eq!(record(3, 0, 1, 0).price_ratio(), 333333);
    assert_eq!(record(3, 0, 2, 0).price_ratio(), 666667);
}

#[test]
fn swaps_keep_block_order() {
    let mut a = record(1, 0, 0, 0);
    a.pool_address = vec![0x01; 20];
    let b = record(2, 0, 0, 0);
    let ops = store_pool_stats(&vec![a, b]);
    assert_eq!(
        ops,
        vec![
            add(&format!("pool:{}:trade_count", hex20("01")), 1),
            add(&format!("pool:{}:trade_count", hex20("bb")), 1),
        ]
    );
}

#[test]
fn first_marker_write_wins() {
    let mut st = MemoryStore::new();
    st.apply_op(&set("trader:0x01", "A"));
    st.apply_op(&set("trader:0x01", "B"));
    assert_eq!(st.get_mark(&"trader:0x01".to_string()), Some("A".to_string()));
    assert_eq!(st.get_mark(&"trader:0x02".to_string()), None);
}

#[test]
fn counter_additions_sum() {
    let mut st = MemoryStore::new();
    st.apply_op(&add("total:volume", 5));
    st.apply_op(&add("total:volume", 7));
    assert_eq!(st.get_sum(&"total:volume".to_string()), 12);
    let mut other = MemoryStore::new();
    other.apply_op(&add("k", 5));
    other.apply_op(&add("k", 5));
    assert_eq!(other.get_sum(&"k".to_string()), 10);
    assert_eq!(other.get_sum(&"missing".to_string()), 0);
}

#[test]
fn replaying_a_block_gives_the_same_state() {
    let swaps = vec![record(3, 4, 0, 0), record(1, 0, 0, 0)];
    let mut ops = store_swap_volumes(&swaps);
    ops.extend(store_unique_traders(&swaps));
    let mut a = MemoryStore::new();
    let mut b = MemoryStore::new();
    for op in &ops {
        a.apply_op(op);
        b.apply_op(op);
    }
    let k = "total:volume".to_string();
    assert_eq!(a.get_sum(&k), 8);
    assert_eq!(a.get_sum(&k), b.get_sum(&k));
    assert_eq!(a.get_sum(&"total:swaps".to_string()), 2);
    assert_eq!(
        a.get_mark(&format!("trader:{}", hex20("aa"))),
        Some("42:1705276800".to_string())
    );
}

#[test]
fn amounts_render_in_base_ten_at_any_size() {
    assert_eq!(amount(0).to_decimal(), "0");
    assert_eq!(amount(1000).to_decimal(), "1000");
    let max = Amount { bytes: vec![0xff; 32] };
    assert_eq!(
        max.to_decimal(),
        "115792089237316195423570985008687907853269984665640564039457584007913129639935"
    );
    let mut two_pow_64 = vec![0u8; 23];
    two_pow_64.push(1);
    two_pow_64.extend(vec![0u8; 8]);
    assert_eq!(Amount { bytes: two_pow_64 }.to_decimal(), "18446744073709551616");
}
