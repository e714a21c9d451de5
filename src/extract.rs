//! Walking a block's receipts and logs in order and collecting the swaps
//! that decode, each with its block context.

use vstd::prelude::*;
use crate::events::{
    decode_failure, topic_address, word, Amount, Burn, EventKind, Mint, RawLog, Swap, Sync,
};
use crate::stores::{magnitude, magnitude_of, SwapRecord};

verus! {

/// A transaction receipt: its hash and its logs in log order.
#[derive(Clone, Debug)]
pub struct Receipt {
    pub tx_hash: Vec<u8>,
    pub logs: Vec<RawLog>,
}

/// A block: its number, its timestamp in Unix seconds, and its receipts.
#[derive(Clone, Debug)]
pub struct Block {
    pub number: u64,
    pub timestamp: u64,
    pub receipts: Vec<Receipt>,
}

pub open spec fn decodes(log: RawLog, kind: EventKind) -> bool {
    decode_failure(log.topics_view(), log.data@, kind) is None
}

/// The logs of one receipt that decode as swaps, in order.
pub open spec fn swap_logs(logs: Seq<RawLog>) -> Seq<RawLog>
    decreases logs.len(),
{
    if logs.len() == 0 {
        Seq::empty()
    } else {
        swap_logs(logs.drop_last()) + if decodes(logs.last(), EventKind::Swap) {
            seq![logs.last()]
        } else {
            Seq::empty()
        }
    }
}

/// Every swap log of a block with the hash of its transaction, receipt by
/// receipt and then log by log.
pub open spec fn block_swap_logs(receipts: Seq<Receipt>) -> Seq<(Seq<u8>, RawLog)>
    decreases receipts.len(),
{
    if receipts.len() == 0 {
        Seq::empty()
    } else {
        block_swap_logs(receipts.drop_last()) + swap_logs(receipts.last().logs@).map_values(
            |l: RawLog| (receipts.last().tx_hash@, l),
        )
    }
}

/// `r` is the swap decoded from `log` of transaction `tx` in a block with
/// this number and timestamp.
pub open spec fn is_record_of(r: SwapRecord, number: u64, timestamp: u64, tx: Seq<u8>, log: RawLog) -> bool {
    &&& r.block_number == number
    &&& r.timestamp == timestamp
    &&& r.tx_hash@ == tx
    &&& r.log_index == log.index
    &&& r.pool_address@ == log.address@
    &&& r.sender@ == topic_address(log.topics_view()[1])
    &&& r.recipient@ == topic_address(log.topics_view()[2])
    &&& r.amount0_in.bytes@ == word(log.data@, 0)
    &&& r.amount1_in.bytes@ == word(log.data@, 1)
    &&& r.amount0_out.bytes@ == word(log.data@, 2)
    &&& r.amount1_out.bytes@ == word(log.data@, 3)
}

pub open spec fn records_of(r: Seq<SwapRecord>, number: u64, timestamp: u64, logs: Seq<(Seq<u8>, RawLog)>) -> bool {
    &&& r.len() == logs.len()
    &&& forall|i: int| 0 <= i < r.len() ==> is_record_of(#[trigger] r[i], number, timestamp, logs[i].0, logs[i].1)
}

fn collect_receipt(out: &mut Vec<SwapRecord>, number: u64, timestamp: u64, rc: &Receipt)
    ensures
        final(out)@.len() == old(out)@.len() + swap_logs(rc.logs@).len(),
        forall|i: int| 0 <= i < old(out)@.len() ==> final(out)@[i] == old(out)@[i],
        forall|i: int| 0 <= i < swap_logs(rc.logs@).len() ==> is_record_of(
            #[trigger] final(out)@[old(out)@.len() + i],
            number,
            timestamp,
            rc.tx_hash@,
            swap_logs(rc.logs@)[i],
        ),
{
    let ghost start = out@;
    let mut j: usize = 0;
    while j < rc.logs.len()
        invariant
            j <= rc.logs.len(),
            out@.len() == start.len() + swap_logs(rc.logs@.take(j as int)).len(),
            forall|i: int| 0 <= i < start.len() ==> out@[i] == start[i],
            forall|i: int| 0 <= i < swap_logs(rc.logs@.take(j as int)).len() ==> is_record_of(
                #[trigger] out@[start.len() + i],
                number,
                timestamp,
                rc.tx_hash@,
                swap_logs(rc.logs@.take(j as int))[i],
            ),
        decreases rc.logs.len() - j,
    {
        let log = &rc.logs[j];
        assert(rc.logs@.take(j + 1).drop_last() =~= rc.logs@.take(j as int));
        assert(rc.logs@.take(j + 1).last() == *log);
        let ghost prev = swap_logs(rc.logs@.take(j as int));
        match Swap::decode(log) {
            Ok(s) => {
                let rec = SwapRecord {
                    block_number: number,
                    timestamp,
                    tx_hash: rc.tx_hash.clone(),
                    log_index: log.index,
                    pool_address: log.address.clone(),
                    sender: s.sender,
                    recipient: s.to,
                    amount0_in: s.amount0_in,
                    amount1_in: s.amount1_in,
                    amount0_out: s.amount0_out,
                    amount1_out: s.amount1_out,
                };
                out.push(rec);
                assert(swap_logs(rc.logs@.take(j + 1)) =~= prev.push(*log));
            },
            Err(_) => {
                assert(swap_logs(rc.logs@.take(j + 1)) =~= prev);
            },
        }
        j = j + 1;
    }
    assert(rc.logs@.take(j as int) =~= rc.logs@);
}

/// The swaps of a block, receipt by receipt and log by log; logs that are no
/// swap, or do not decode as one, are left out.
pub fn map_blocks(block: &Block) -> (r: Vec<SwapRecord>)
    ensures
        records_of(r@, block.number, block.timestamp, block_swap_logs(block.receipts@)),
{
    let mut out: Vec<SwapRecord> = Vec::new();
    let mut k: usize = 0;
    while k < block.receipts.len()
        invariant
            k <= block.receipts.len(),
            records_of(out@, block.number, block.timestamp, block_swap_logs(block.receipts@.take(k as int))),
        decreases block.receipts.len() - k,
    {
        let rc = &block.receipts[k];
        let ghost before = out@;
        let ghost prev = block_swap_logs(block.receipts@.take(k as int));
        assert(block.receipts@.take(k + 1).drop_last() =~= block.receipts@.take(k as int));
        assert(block.receipts@.take(k + 1).last() == *rc);
        collect_receipt(&mut out, block.number, block.timestamp, rc);
        let ghost next = block_swap_logs(block.receipts@.take(k + 1));
        assert(next == prev + swap_logs(rc.logs@).map_values(|l: RawLog| (rc.tx_hash@, l)));
        assert forall|i: int| 0 <= i < out@.len() implies is_record_of(
            #[trigger] out@[i],
            block.number,
            block.timestamp,
            next[i].0,
            next[i].1,
        ) by {
            if i < before.len() {
                assert(out@[i] == before[i]);
            } else {
                assert(out@[before.len() + (i - before.len())] == out@[i]);
            }
        }
        k = k + 1;
    }
    assert(block.receipts@.take(k as int) =~= block.receipts@);
    out
}

/// A decoded `Mint` or `Burn` (told apart by `action`) with its block context.
#[derive(Clone, Debug)]
pub struct LiquidityRecord {
    pub action: EventKind,
    pub block_number: u64,
    pub timestamp: u64,
    pub tx_hash: Vec<u8>,
    pub log_index: u32,
    pub pool_address: Vec<u8>,
    pub sender: Vec<u8>,
    pub recipient: Vec<u8>,
    pub amount0: Amount,
    pub amount1: Amount,
}

impl LiquidityRecord {
    /// `"mint"` or `"burn"`.
    pub fn action_label(&self) -> (r: String)
        ensures
            self.action == EventKind::Mint ==> r@ == "mint"@,
            self.action != EventKind::Mint ==> r@ == "burn"@,
    {
        match self.action {
            EventKind::Mint => String::from_str("mint"),
            _ => String::from_str("burn"),
        }
    }
}

/// A decoded `Sync` with its block context.
#[derive(Clone, Debug)]
pub struct SyncRecord {
    pub block_number: u64,
    pub timestamp: u64,
    pub tx_hash: Vec<u8>,
    pub log_index: u32,
    pub pool_address: Vec<u8>,
    pub reserve0: Amount,
    pub reserve1: Amount,
}

/// Everything decoded from one block, and a summary of it.
#[derive(Clone, Debug)]
pub struct BlockEvents {
    pub swaps: Vec<SwapRecord>,
    pub liquidity: Vec<LiquidityRecord>,
    pub syncs: Vec<SyncRecord>,
    /// Number of decoded events of all kinds, saturating at the largest `u64`.
    pub event_count: u64,
    /// Sum over the swaps of both input amounts as 64-bit magnitudes,
    /// saturating at the largest `u64`.
    pub total_volume: u64,
}

/// The (kind, log) pairs of the logs of one receipt that decode as a `Mint`
/// or a `Burn`, in log order, a `Mint` before a `Burn` for one log.
pub open spec fn liquidity_logs(logs: Seq<RawLog>) -> Seq<(EventKind, RawLog)>
    decreases logs.len(),
{
    if logs.len() == 0 {
        Seq::empty()
    } else {
        let l = logs.last();
        liquidity_logs(logs.drop_last()) + (if decodes(l, EventKind::Mint) {
            seq![(EventKind::Mint, l)]
        } else {
            Seq::empty()
        }) + (if decodes(l, EventKind::Burn) {
            seq![(EventKind::Burn, l)]
        } else {
            Seq::empty()
        })
    }
}

/// The logs of one receipt that decode as a `Sync`, in order.
pub open spec fn sync_logs(logs: Seq<RawLog>) -> Seq<RawLog>
    decreases logs.len(),
{
    if logs.len() == 0 {
        Seq::empty()
    } else {
        sync_logs(logs.drop_last()) + if decodes(logs.last(), EventKind::Sync) {
            seq![logs.last()]
        } else {
            Seq::empty()
        }
    }
}

pub open spec fn block_liquidity_logs(receipts: Seq<Receipt>) -> Seq<(Seq<u8>, (EventKind, RawLog))>
    decreases receipts.len(),
{
    if receipts.len() == 0 {
        Seq::empty()
    } else {
        block_liquidity_logs(receipts.drop_last()) + liquidity_logs(receipts.last().logs@).map_values(
            |e: (EventKind, RawLog)| (receipts.last().tx_hash@, e),
        )
    }
}

pub open spec fn block_sync_logs(receipts: Seq<Receipt>) -> Seq<(Seq<u8>, RawLog)>
    decreases receipts.len(),
{
    if receipts.len() == 0 {
        Seq::empty()
    } else {
        block_sync_logs(receipts.drop_last()) + sync_logs(receipts.last().logs@).map_values(
            |l: RawLog| (receipts.last().tx_hash@, l),
        )
    }
}

pub open spec fn is_liquidity_record_of(
    r: LiquidityRecord,
    number: u64,
    timestamp: u64,
    tx: Seq<u8>,
    e: (EventKind, RawLog),
) -> bool {
    &&& r.action == e.0
    &&& r.block_number == number
    &&& r.timestamp == timestamp
    &&& r.tx_hash@ == tx
    &&& r.log_index == e.1.index
    &&& r.pool_address@ == e.1.address@
    &&& r.sender@ == topic_address(e.1.topics_view()[1])
    &&& r.recipient@ == topic_address(e.1.topics_view()[2])
    &&& r.amount0.bytes@ == word(e.1.data@, 0)
    &&& r.amount1.bytes@ == word(e.1.data@, 1)
}

pub open spec fn is_sync_record_of(r: SyncRecord, number: u64, timestamp: u64, tx: Seq<u8>, log: RawLog) -> bool {
    &&& r.block_number == number
    &&& r.timestamp == timestamp
    &&& r.tx_hash@ == tx
    &&& r.log_index == log.index
    &&& r.pool_address@ == log.address@
    &&& r.reserve0.bytes@ == word(log.data@, 0)
    &&& r.reserve1.bytes@ == word(log.data@, 1)
}

pub open spec fn liquidity_records_of(
    r: Seq<LiquidityRecord>,
    number: u64,
    timestamp: u64,
    logs: Seq<(Seq<u8>, (EventKind, RawLog))>,
) -> bool {
    &&& r.len() == logs.len()
    &&& forall|i: int|
        0 <= i < r.len() ==> is_liquidity_record_of(#[trigger] r[i], number, timestamp, logs[i].0, logs[i].1)
}

pub open spec fn sync_records_of(r: Seq<SyncRecord>, number: u64, timestamp: u64, logs: Seq<(Seq<u8>, RawLog)>) -> bool {
    &&& r.len() == logs.len()
    &&& forall|i: int|
        0 <= i < r.len() ==> is_sync_record_of(#[trigger] r[i], number, timestamp, logs[i].0, logs[i].1)
}

/// Sum over the swaps of both input magnitudes.
pub open spec fn input_volume(swaps: Seq<SwapRecord>) -> nat
    decreases swaps.len(),
{
    if swaps.len() == 0 {
        0
    } else {
        input_volume(swaps.drop_last()) + magnitude(swaps.last().amount0_in) + magnitude(
            swaps.last().amount1_in,
        )
    }
}

fn collect_receipt_liquidity(out: &mut Vec<LiquidityRecord>, number: u64, timestamp: u64, rc: &Receipt)
    ensures
        final(out)@.len() == old(out)@.len() + liquidity_logs(rc.logs@).len(),
        forall|i: int| 0 <= i < old(out)@.len() ==> final(out)@[i] == old(out)@[i],
        forall|i: int| 0 <= i < liquidity_logs(rc.logs@).len() ==> is_liquidity_record_of(
            #[trigger] final(out)@[old(out)@.len() + i],
            number,
            timestamp,
            rc.tx_hash@,
            liquidity_logs(rc.logs@)[i],
        ),
{
    let ghost start = out@;
    let mut j: usize = 0;
    while j < rc.logs.len()
        invariant
            j <= rc.logs.len(),
            out@.len() == start.len() + liquidity_logs(rc.logs@.take(j as int)).len(),
            forall|i: int| 0 <= i < start.len() ==> out@[i] == start[i],
            forall|i: int| 0 <= i < liquidity_logs(rc.logs@.take(j as int)).len() ==> is_liquidity_record_of(
                #[trigger] out@[start.len() + i],
                number,
                timestamp,
                rc.tx_hash@,
                liquidity_logs(rc.logs@.take(j as int))[i],
            ),
        decreases rc.logs.len() - j,
    {
        let log = &rc.logs[j];
        assert(rc.logs@.take(j + 1).drop_last() =~= rc.logs@.take(j as int));
        assert(rc.logs@.take(j + 1).last() == *log);
        let ghost prev = liquidity_logs(rc.logs@.take(j as int));
        let ghost mid = prev + (if decodes(*log, EventKind::Mint) {
            seq![(EventKind::Mint, *log)]
        } else {
            Seq::empty()
        });
        match Mint::decode(log) {
            Ok(m) => {
                out.push(LiquidityRecord {
                    action: EventKind::Mint,
                    block_number: number,
                    timestamp,
                    tx_hash: rc.tx_hash.clone(),
                    log_index: log.index,
                    pool_address: log.address.clone(),
                    sender: m.sender,
                    recipient: m.to,
                    amount0: m.amount0,
                    amount1: m.amount1,
                });
                assert(mid =~= prev.push((EventKind::Mint, *log)));
            },
            Err(_) => {
                assert(mid =~= prev);
            },
        }
        assert(out@.len() == start.len() + mid.len());
        assert(forall|i: int| 0 <= i < mid.len() ==> is_liquidity_record_of(
            #[trigger] out@[start.len() + i], number, timestamp, rc.tx_hash@, mid[i]));
        match Burn::decode(log) {
            Ok(b) => {
                out.push(LiquidityRecord {
                    action: EventKind::Burn,
                    block_number: number,
                    timestamp,
                    tx_hash: rc.tx_hash.clone(),
                    log_index: log.index,
                    pool_address: log.address.clone(),
                    sender: b.sender,
                    recipient: b.to,
                    amount0: b.amount0,
                    amount1: b.amount1,
                });
                assert(liquidity_logs(rc.logs@.take(j + 1)) =~= mid.push((EventKind::Burn, *log)));
            },
            Err(_) => {
                assert(liquidity_logs(rc.logs@.take(j + 1)) =~= mid);
            },
        }
        j = j + 1;
    }
    assert(rc.logs@.take(j as int) =~= rc.logs@);
}

fn collect_receipt_syncs(out: &mut Vec<SyncRecord>, number: u64, timestamp: u64, rc: &Receipt)
    ensures
        final(out)@.len() == old(out)@.len() + sync_logs(rc.logs@).len(),
        forall|i: int| 0 <= i < old(out)@.len() ==> final(out)@[i] == old(out)@[i],
        forall|i: int| 0 <= i < sync_logs(rc.logs@).len() ==> is_sync_record_of(
            #[trigger] final(out)@[old(out)@.len() + i],
            number,
            timestamp,
            rc.tx_hash@,
            sync_logs(rc.logs@)[i],
        ),
{
    let ghost start = out@;
    let mut j: usize = 0;
    while j < rc.logs.len()
        invariant
            j <= rc.logs.len(),
            out@.len() == start.len() + sync_logs(rc.logs@.take(j as int)).len(),
            forall|i: int| 0 <= i < start.len() ==> out@[i] == start[i],
            forall|i: int| 0 <= i < sync_logs(rc.logs@.take(j as int)).len() ==> is_sync_record_of(
                #[trigger] out@[start.len() + i],
                number,
                timestamp,
                rc.tx_hash@,
                sync_logs(rc.logs@.take(j as int))[i],
            ),
        decreases rc.logs.len() - j,
    {
        let log = &rc.logs[j];
        assert(rc.logs@.take(j + 1).drop_last() =~= rc.logs@.take(j as int));
        assert(rc.logs@.take(j + 1).last() == *log);
        let ghost prev = sync_logs(rc.logs@.take(j as int));
        match Sync::decode(log) {
            Ok(v) => {
                out.push(SyncRecord {
                    block_number: number,
                    timestamp,
                    tx_hash: rc.tx_hash.clone(),
                    log_index: log.index,
                    pool_address: log.address.clone(),
                    reserve0: v.reserve0,
                    reserve1: v.reserve1,
                });
                assert(sync_logs(rc.logs@.take(j + 1)) =~= prev.push(*log));
            },
            Err(_) => {
                assert(sync_logs(rc.logs@.take(j + 1)) =~= prev);
            },
        }
        j = j + 1;
    }
    assert(rc.logs@.take(j as int) =~= rc.logs@);
}

/// The `Mint` and `Burn` events of a block, receipt by receipt and log by log.
pub fn extract_liquidity(block: &Block) -> (r: Vec<LiquidityRecord>)
    ensures
        liquidity_records_of(r@, block.number, block.timestamp, block_liquidity_logs(block.receipts@)),
{
    let mut out: Vec<LiquidityRecord> = Vec::new();
    let mut k: usize = 0;
    while k < block.receipts.len()
        invariant
            k <= block.receipts.len(),
            liquidity_records_of(out@, block.number, block.timestamp, block_liquidity_logs(block.receipts@.take(k as int))),
        decreases block.receipts.len() - k,
    {
        let rc = &block.receipts[k];
        let ghost before = out@;
        let ghost prev = block_liquidity_logs(block.receipts@.take(k as int));
        assert(block.receipts@.take(k + 1).drop_last() =~= block.receipts@.take(k as int));
        assert(block.receipts@.take(k + 1).last() == *rc);
        collect_receipt_liquidity(&mut out, block.number, block.timestamp, rc);
        let ghost next = block_liquidity_logs(block.receipts@.take(k + 1));
        assert(next == prev + liquidity_logs(rc.logs@).map_values(|e: (EventKind, RawLog)| (rc.tx_hash@, e)));
        assert forall|i: int| 0 <= i < out@.len() implies is_liquidity_record_of(
            #[trigger] out@[i],
            block.number,
            block.timestamp,
            next[i].0,
            next[i].1,
        ) by {
            if i < before.len() {
                assert(out@[i] == before[i]);
            } else {
                assert(out@[before.len() + (i - before.len())] == out@[i]);
            }
        }
        k = k + 1;
    }
    assert(block.receipts@.take(k as int) =~= block.receipts@);
    out
}

/// The `Sync` events of a block, receipt by receipt and log by log.
pub fn extract_syncs(block: &Block) -> (r: Vec<SyncRecord>)
    ensures
        sync_records_of(r@, block.number, block.timestamp, block_sync_logs(block.receipts@)),
{
    let mut out: Vec<SyncRecord> = Vec::new();
    let mut k: usize = 0;
    while k < block.receipts.len()
        invariant
            k <= block.receipts.len(),
            sync_records_of(out@, block.number, block.timestamp, block_sync_logs(block.receipts@.take(k as int))),
        decreases block.receipts.len() - k,
    {
        let rc = &block.receipts[k];
        let ghost before = out@;
        let ghost prev = block_sync_logs(block.receipts@.take(k as int));
        assert(block.receipts@.take(k + 1).drop_last() =~= block.receipts@.take(k as int));
        assert(block.receipts@.take(k + 1).last() == *rc);
        collect_receipt_syncs(&mut out, block.number, block.timestamp, rc);
        let ghost next = block_sync_logs(block.receipts@.take(k + 1));
        assert(next == prev + sync_logs(rc.logs@).map_values(|l: RawLog| (rc.tx_hash@, l)));
        assert forall|i: int| 0 <= i < out@.len() implies is_sync_record_of(
            #[trigger] out@[i],
            block.number,
            block.timestamp,
            next[i].0,
            next[i].1,
        ) by {
            if i < before.len() {
                assert(out@[i] == before[i]);
            } else {
                assert(out@[before.len() + (i - before.len())] == out@[i]);
            }
        }
        k = k + 1;
    }
    assert(block.receipts@.take(k as int) =~= block.receipts@);
    out
}

/// Sum over the swaps of both input magnitudes, saturating at the largest `u64`.
pub fn saturating_input_volume(swaps: &Vec<SwapRecord>) -> (r: u64)
    ensures
        r == if input_volume(swaps@) <= u64::MAX { input_volume(swaps@) } else { u64::MAX as nat },
{
    let mut acc: u64 = 0;
    let mut i: usize = 0;
    while i < swaps.len()
        invariant
            i <= swaps.len(),
            acc == if input_volume(swaps@.take(i as int)) <= u64::MAX {
                input_volume(swaps@.take(i as int))
            } else {
                u64::MAX as nat
            },
        decreases swaps.len() - i,
    {
        assert(swaps@.take(i + 1).drop_last() =~= swaps@.take(i as int));
        let s = &swaps[i];
        acc = acc.saturating_add(magnitude_of(&s.amount0_in)).saturating_add(
            magnitude_of(&s.amount1_in),
        );
        i = i + 1;
    }
    assert(swaps@.take(i as int) =~= swaps@);
    acc
}

/// All events of a block by kind, with the number of events (saturating) and
/// the saturating input volume of its swaps.
pub fn extract(block: &Block) -> (r: BlockEvents)
    ensures
        records_of(r.swaps@, block.number, block.timestamp, block_swap_logs(block.receipts@)),
        liquidity_records_of(r.liquidity@, block.number, block.timestamp, block_liquidity_logs(block.receipts@)),
        sync_records_of(r.syncs@, block.number, block.timestamp, block_sync_logs(block.receipts@)),
        r.swaps@.len() + r.liquidity@.len() + r.syncs@.len() <= u64::MAX ==> r.event_count as nat
            == r.swaps@.len() + r.liquidity@.len() + r.syncs@.len(),
        r.swaps@.len() + r.liquidity@.len() + r.syncs@.len() > u64::MAX ==> r.event_count
            == u64::MAX,
        r.total_volume == if input_volume(r.swaps@) <= u64::MAX {
            input_volume(r.swaps@)
        } else {
            u64::MAX as nat
        },
{
    let swaps = map_blocks(block);
    let liquidity = extract_liquidity(block);
    let syncs = extract_syncs(block);
    let total_volume = saturating_input_volume(&swaps);
    let event_count = (swaps.len() as u64).saturating_add(liquidity.len() as u64).saturating_add(
        syncs.len() as u64,
    );
    BlockEvents { swaps, liquidity, syncs, event_count, total_volume }
}

} // verus!
