//! The aggregation engine: per swap, the changes to the additive counters
//! (volumes, counts) and to the write-once first-seen markers.

use vstd::prelude::*;
use crate::calendar::{civil_date, civil_hour, push_date};
use crate::events::Amount;
use crate::text::{
    decimal, hex, hex_prefixed, push_decimal, push_hex, push_hex_prefixed, push_padded, push_str,
    text_of,
};

verus! {

/// A decoded swap together with the block context it was found in.
#[derive(Clone, Debug)]
pub struct SwapRecord {
    pub block_number: u64,
    pub timestamp: u64,
    pub tx_hash: Vec<u8>,
    pub log_index: u32,
    pub pool_address: Vec<u8>,
    pub sender: Vec<u8>,
    pub recipient: Vec<u8>,
    pub amount0_in: Amount,
    pub amount1_in: Amount,
    pub amount0_out: Amount,
    pub amount1_out: Amount,
}

/// One change to a store: add to a counter, or set a marker unless present.
#[derive(Clone, Debug, PartialEq, Eq)]
pub enum StoreOp {
    Add { key: String, delta: u64 },
    SetIfAbsent { key: String, value: String },
}

/// Mathematical form of a `StoreOp`.
pub enum OpSpec {
    Add(Seq<char>, nat),
    SetIfAbsent(Seq<char>, Seq<char>),
}

impl View for StoreOp {
    type V = OpSpec;

    open spec fn view(&self) -> OpSpec {
        match self {
            StoreOp::Add { key, delta } => OpSpec::Add(key@, *delta as nat),
            StoreOp::SetIfAbsent { key, value } => OpSpec::SetIfAbsent(key@, value@),
        }
    }
}

/// The contents of an additive store and of a write-once store.
pub struct StoreState {
    pub sums: Map<Seq<char>, nat>,
    pub marks: Map<Seq<char>, Seq<char>>,
}

/// The merge rules: addition onto a default of zero, and set-if-absent.
pub open spec fn apply(st: StoreState, op: OpSpec) -> StoreState {
    match op {
        OpSpec::Add(k, d) => StoreState {
            sums: st.sums.insert(k, (if st.sums.contains_key(k) { st.sums[k] } else { 0 }) + d),
            marks: st.marks,
        },
        OpSpec::SetIfAbsent(k, v) => StoreState {
            sums: st.sums,
            marks: if st.marks.contains_key(k) { st.marks } else { st.marks.insert(k, v) },
        },
    }
}

/// Two writes to one marker leave the first value in place.
pub proof fn lemma_first_write_wins(st: StoreState, k: Seq<char>, a: Seq<char>, b: Seq<char>)
    requires
        !st.marks.contains_key(k),
    ensures
        apply(apply(st, OpSpec::SetIfAbsent(k, a)), OpSpec::SetIfAbsent(k, b)).marks[k] == a,
        apply(apply(st, OpSpec::SetIfAbsent(k, a)), OpSpec::SetIfAbsent(k, b)).marks
            == apply(st, OpSpec::SetIfAbsent(k, a)).marks,
{
}

/// Two additions to one counter add up, in either order.
pub proof fn lemma_additions_sum(st: StoreState, k: Seq<char>, x: nat, y: nat)
    ensures
        apply(apply(st, OpSpec::Add(k, x)), OpSpec::Add(k, y)).sums[k] == (if st.sums.contains_key(
            k,
        ) {
            st.sums[k]
        } else {
            0
        }) + x + y,
        apply(apply(st, OpSpec::Add(k, x)), OpSpec::Add(k, y)).sums == apply(
            apply(st, OpSpec::Add(k, y)),
            OpSpec::Add(k, x),
        ).sums,
{
    assert(apply(apply(st, OpSpec::Add(k, x)), OpSpec::Add(k, y)).sums =~= apply(
        apply(st, OpSpec::Add(k, y)),
        OpSpec::Add(k, x),
    ).sums);
}

/// An amount as a 64-bit magnitude; one too large counts as zero.
pub open spec fn magnitude(a: Amount) -> nat {
    if a.value() <= u64::MAX { a.value() } else { 0 }
}

/// Sum of two magnitudes, zero where it does not fit in 64 bits.
pub open spec fn total64(a: Amount, b: Amount) -> nat {
    if magnitude(a) + magnitude(b) <= u64::MAX { magnitude(a) + magnitude(b) } else { 0 }
}

pub open spec fn amount_in(s: SwapRecord) -> nat {
    total64(s.amount0_in, s.amount1_in)
}

pub open spec fn amount_out(s: SwapRecord) -> nat {
    total64(s.amount0_out, s.amount1_out)
}

/// `out / in` scaled by a million and rounded half up; zero for no input.
pub open spec fn ratio(amount_in: nat, amount_out: nat) -> nat {
    if amount_in == 0 {
        0
    } else {
        (2 * amount_out * 1000000 + amount_in) / (2 * amount_in)
    }
}

pub open spec fn pool_key(pool: Seq<u8>, suffix: Seq<char>) -> Seq<char> {
    "pool:"@ + hex_prefixed(pool) + ":"@ + suffix
}

pub open spec fn daily_key(ts: nat, suffix: Seq<char>) -> Seq<char> {
    "daily:"@ + civil_date(ts) + ":"@ + suffix
}

pub open spec fn hourly_key(ts: nat, suffix: Seq<char>) -> Seq<char> {
    "hourly:"@ + civil_hour(ts) + ":"@ + suffix
}

/// Counter changes of one swap: nothing when its input total is zero.
pub open spec fn volume_ops(s: SwapRecord) -> Seq<OpSpec> {
    let a = amount_in(s);
    let p = s.pool_address@;
    let t = s.timestamp as nat;
    if a == 0 {
        Seq::empty()
    } else {
        seq![
            OpSpec::Add(pool_key(p, "volume"@), a),
            OpSpec::Add(pool_key(p, "count"@), 1),
            OpSpec::Add("total:volume"@, a),
            OpSpec::Add("total:swaps"@, 1),
            OpSpec::Add(daily_key(t, "volume"@), a),
            OpSpec::Add(daily_key(t, "count"@), 1),
            OpSpec::Add(hourly_key(t, "volume"@), a),
            OpSpec::Add(hourly_key(t, "count"@), 1),
        ]
    }
}

/// Marker changes of one swap: nothing when the sender is empty.
pub open spec fn trader_ops(s: SwapRecord) -> Seq<OpSpec> {
    let who = hex_prefixed(s.sender@);
    let block = decimal(s.block_number as nat);
    if s.sender@.len() == 0 {
        Seq::empty()
    } else {
        seq![
            OpSpec::SetIfAbsent("trader:"@ + who, block + ":"@ + decimal(s.timestamp as nat)),
            OpSpec::SetIfAbsent(
                "daily:"@ + civil_date(s.timestamp as nat) + ":trader:"@ + who,
                block,
            ),
            OpSpec::SetIfAbsent(pool_key(s.pool_address@, "trader:"@ + who), block),
        ]
    }
}

/// Pool trade-count change of one swap, under the same condition as `volume_ops`.
pub open spec fn stats_ops(s: SwapRecord) -> Seq<OpSpec> {
    if amount_in(s) == 0 {
        Seq::empty()
    } else {
        seq![OpSpec::Add(pool_key(s.pool_address@, "trade_count"@), 1)]
    }
}

pub open spec fn all_volume_ops(swaps: Seq<SwapRecord>) -> Seq<OpSpec>
    decreases swaps.len(),
{
    if swaps.len() == 0 {
        Seq::empty()
    } else {
        all_volume_ops(swaps.drop_last()) + volume_ops(swaps.last())
    }
}

pub open spec fn all_trader_ops(swaps: Seq<SwapRecord>) -> Seq<OpSpec>
    decreases swaps.len(),
{
    if swaps.len() == 0 {
        Seq::empty()
    } else {
        all_trader_ops(swaps.drop_last()) + trader_ops(swaps.last())
    }
}

pub open spec fn all_stats_ops(swaps: Seq<SwapRecord>) -> Seq<OpSpec>
    decreases swaps.len(),
{
    if swaps.len() == 0 {
        Seq::empty()
    } else {
        all_stats_ops(swaps.drop_last()) + stats_ops(swaps.last())
    }
}

pub open spec fn views(ops: Seq<StoreOp>) -> Seq<OpSpec> {
    ops.map_values(|o: StoreOp| o@)
}

pub(crate) fn magnitude_of(a: &Amount) -> (r: u64)
    ensures
        r == magnitude(*a),
{
    match a.to_u64() {
        Some(v) => v,
        None => 0,
    }
}

fn total_of(a: &Amount, b: &Amount) -> (r: u64)
    ensures
        r == total64(*a, *b),
{
    match magnitude_of(a).checked_add(magnitude_of(b)) {
        Some(t) => t,
        None => 0,
    }
}

impl SwapRecord {
    /// Sum of the two input amounts as a 64-bit magnitude, zero on overflow.
    pub fn amount_in_total(&self) -> (r: u64)
        ensures
            r == amount_in(*self),
    {
        total_of(&self.amount0_in, &self.amount1_in)
    }

    /// Sum of the two output amounts as a 64-bit magnitude, zero on overflow.
    pub fn amount_out_total(&self) -> (r: u64)
        ensures
            r == amount_out(*self),
    {
        total_of(&self.amount0_out, &self.amount1_out)
    }

    /// Output over input, scaled by a million and rounded; zero for no input.
    pub fn price_ratio(&self) -> (r: u128)
        ensures
            r == ratio(amount_in(*self), amount_out(*self)),
    {
        let a_in = self.amount_in_total() as u128;
        let a_out = self.amount_out_total() as u128;
        if a_in == 0 {
            0
        } else {
            assert(2 * a_out * 1000000 + a_in <= u128::MAX) by (nonlinear_arith)
                requires
                    a_out <= u64::MAX,
                    a_in <= u64::MAX,
            ;
            (2 * a_out * 1000000 + a_in) / (2 * a_in)
        }
    }
}

fn pool_key_string(pool: &Vec<u8>, suffix: &str) -> (r: String)
    ensures
        r@ == pool_key(pool@, suffix@),
{
    let mut k: Vec<char> = Vec::new();
    push_str(&mut k, "pool:");
    push_hex_prefixed(&mut k, pool);
    push_str(&mut k, ":");
    push_str(&mut k, suffix);
    assert(k@ =~= pool_key(pool@, suffix@));
    text_of(&k)
}

fn daily_key_string(ts: u64, suffix: &str) -> (r: String)
    ensures
        r@ == daily_key(ts as nat, suffix@),
{
    let mut k: Vec<char> = Vec::new();
    push_str(&mut k, "daily:");
    push_date(&mut k, ts);
    push_str(&mut k, ":");
    push_str(&mut k, suffix);
    assert(k@ =~= daily_key(ts as nat, suffix@));
    text_of(&k)
}

fn hourly_key_string(ts: u64, suffix: &str) -> (r: String)
    ensures
        r@ == hourly_key(ts as nat, suffix@),
{
    let mut k: Vec<char> = Vec::new();
    push_str(&mut k, "hourly:");
    push_date(&mut k, ts);
    k.push('-');
    push_padded(&mut k, (ts % 86400) / 3600, 2);
    push_str(&mut k, ":");
    push_str(&mut k, suffix);
    assert(k@ =~= hourly_key(ts as nat, suffix@));
    text_of(&k)
}

/// Changes to the volume store for a block's swaps, in swap order: for each
/// swap with a non-zero input total, its pool, protocol, daily and hourly
/// volume and count.
pub fn store_swap_volumes(swaps: &Vec<SwapRecord>) -> (r: Vec<StoreOp>)
    ensures
        views(r@) == all_volume_ops(swaps@),
{
    let mut ops: Vec<StoreOp> = Vec::new();
    let mut i: usize = 0;
    while i < swaps.len()
        invariant
            i <= swaps.len(),
            views(ops@) == all_volume_ops(swaps@.take(i as int)),
        decreases swaps.len() - i,
    {
        let s = &swaps[i];
        let ghost before = ops@;
        assert(swaps@.take(i + 1).drop_last() =~= swaps@.take(i as int));
        let amount = s.amount_in_total();
        if amount != 0 {
            let t = s.timestamp;
            ops.push(StoreOp::Add { key: pool_key_string(&s.pool_address, "volume"), delta: amount });
            ops.push(StoreOp::Add { key: pool_key_string(&s.pool_address, "count"), delta: 1 });
            ops.push(StoreOp::Add { key: text_of(&text_chars("total:volume")), delta: amount });
            ops.push(StoreOp::Add { key: text_of(&text_chars("total:swaps")), delta: 1 });
            ops.push(StoreOp::Add { key: daily_key_string(t, "volume"), delta: amount });
            ops.push(StoreOp::Add { key: daily_key_string(t, "count"), delta: 1 });
            ops.push(StoreOp::Add { key: hourly_key_string(t, "volume"), delta: amount });
            ops.push(StoreOp::Add { key: hourly_key_string(t, "count"), delta: 1 });
        }
        assert(views(ops@) =~= views(before) + volume_ops(*s));
        i = i + 1;
    }
    assert(swaps@.take(i as int) =~= swaps@);
    ops
}

fn text_chars(s: &str) -> (r: Vec<char>)
    ensures
        r@ == s@,
{
    let mut v: Vec<char> = Vec::new();
    push_str(&mut v, s);
    assert(v@ =~= s@);
    v
}

fn decimal_text(n: u64) -> (r: Vec<char>)
    ensures
        r@ == decimal(n as nat),
{
    let mut v: Vec<char> = Vec::new();
    push_decimal(&mut v, n);
    assert(v@ =~= decimal(n as nat));
    v
}

/// Changes to the first-seen marker store for a block's swaps, in swap order:
/// for each swap with a non-empty sender, the trader's first block and
/// timestamp, and the first block in which it traded that day and in that pool.
pub fn store_unique_traders(swaps: &Vec<SwapRecord>) -> (r: Vec<StoreOp>)
    ensures
        views(r@) == all_trader_ops(swaps@),
{
    let mut ops: Vec<StoreOp> = Vec::new();
    let mut i: usize = 0;
    while i < swaps.len()
        invariant
            i <= swaps.len(),
            views(ops@) == all_trader_ops(swaps@.take(i as int)),
        decreases swaps.len() - i,
    {
        let s = &swaps[i];
        let ghost before = ops@;
        assert(swaps@.take(i + 1).drop_last() =~= swaps@.take(i as int));
        if s.sender.len() != 0 {
            let block = decimal_text(s.block_number);

            let mut k1: Vec<char> = Vec::new();
            push_str(&mut k1, "trader:");
            push_hex_prefixed(&mut k1, &s.sender);
            let mut v1: Vec<char> = block.clone();
            push_str(&mut v1, ":");
            push_decimal(&mut v1, s.timestamp);

            let mut k2: Vec<char> = Vec::new();
            push_str(&mut k2, "daily:");
            push_date(&mut k2, s.timestamp);
            push_str(&mut k2, ":trader:");
            push_hex_prefixed(&mut k2, &s.sender);

            let mut suffix: Vec<char> = Vec::new();
            push_str(&mut suffix, "trader:");
            push_hex_prefixed(&mut suffix, &s.sender);
            let mut k3: Vec<char> = Vec::new();
            push_str(&mut k3, "pool:");
            push_hex_prefixed(&mut k3, &s.pool_address);
            push_str(&mut k3, ":");
            let mut j: usize = 0;
            let ghost k3_start = k3@;
            while j < suffix.len()
                invariant
                    j <= suffix.len(),
                    k3@ =~= k3_start + suffix@.take(j as int),
                decreases suffix.len() - j,
            {
                k3.push(suffix[j]);
                j = j + 1;
            }
            assert(suffix@.take(j as int) =~= suffix@);

            let block_text = text_of(&block);
            ops.push(StoreOp::SetIfAbsent { key: text_of(&k1), value: text_of(&v1) });
            ops.push(StoreOp::SetIfAbsent { key: text_of(&k2), value: block_text.clone() });
            ops.push(StoreOp::SetIfAbsent { key: text_of(&k3), value: block_text });
            let ghost who = hex_prefixed(s.sender@);
            assert(k1@ =~= "trader:"@ + who);
            assert(v1@ =~= decimal(s.block_number as nat) + ":"@ + decimal(s.timestamp as nat));
            assert(k2@ =~= "daily:"@ + civil_date(s.timestamp as nat) + ":trader:"@ + who);
            assert(k3@ =~= pool_key(s.pool_address@, "trader:"@ + who));
        }
        assert(views(ops@) =~= views(before) + trader_ops(*s));
        i = i + 1;
    }
    assert(swaps@.take(i as int) =~= swaps@);
    ops
}

/// Changes to the pool statistics store for a block's swaps, in swap order:
/// one more trade for the pool of each swap with a non-zero input total.
pub fn store_pool_stats(swaps: &Vec<SwapRecord>) -> (r: Vec<StoreOp>)
    ensures
        views(r@) == all_stats_ops(swaps@),
{
    let mut ops: Vec<StoreOp> = Vec::new();
    let mut i: usize = 0;
    while i < swaps.len()
        invariant
            i <= swaps.len(),
            views(ops@) == all_stats_ops(swaps@.take(i as int)),
        decreases swaps.len() - i,
    {
        let s = &swaps[i];
        let ghost before = ops@;
        assert(swaps@.take(i + 1).drop_last() =~= swaps@.take(i as int));
        if s.amount_in_total() != 0 {
            ops.push(StoreOp::Add { key: pool_key_string(&s.pool_address, "trade_count"), delta: 1 });
        }
        assert(views(ops@) =~= views(before) + stats_ops(*s));
        i = i + 1;
    }
    assert(swaps@.take(i as int) =~= swaps@);
    ops
}

/// The map that a list of writes leaves behind: a later write to a key
/// replaces an earlier one.
pub open spec fn latest<V>(entries: Seq<(Seq<char>, V)>) -> Map<Seq<char>, V>
    decreases entries.len(),
{
    if entries.len() == 0 {
        Map::empty()
    } else {
        latest(entries.drop_last()).insert(entries.last().0, entries.last().1)
    }
}

proof fn lemma_latest_found<V>(entries: Seq<(Seq<char>, V)>, i: int, k: Seq<char>)
    requires
        0 <= i < entries.len(),
        entries[i].0 == k,
        forall|j: int| i < j < entries.len() ==> entries[j].0 != k,
    ensures
        latest(entries).contains_key(k),
        latest(entries)[k] == entries[i].1,
    decreases entries.len(),
{
    if i < entries.len() - 1 {
        lemma_latest_found(entries.drop_last(), i, k);
    }
}

proof fn lemma_latest_absent<V>(entries: Seq<(Seq<char>, V)>, k: Seq<char>)
    requires
        forall|j: int| 0 <= j < entries.len() ==> entries[j].0 != k,
    ensures
        !latest(entries).contains_key(k),
    decreases entries.len(),
{
    if entries.len() > 0 {
        lemma_latest_absent(entries.drop_last(), k);
    }
}

pub open spec fn entry_views<V>(entries: Seq<(String, V)>) -> Seq<(Seq<char>, V)> {
    entries.map_values(|e: (String, V)| (e.0@, e.1))
}

pub open spec fn mark_views(entries: Seq<(String, String)>) -> Seq<(Seq<char>, Seq<char>)> {
    entries.map_values(|e: (String, String)| (e.0@, e.1@))
}

/// An in-memory pair of stores, one of counters and one of markers, to which
/// `StoreOp`s are applied under their merge rules.
pub struct MemoryStore {
    sums: Vec<(String, u128)>,
    marks: Vec<(String, String)>,
}

impl MemoryStore {
    pub closed spec fn sums_view(&self) -> Map<Seq<char>, nat> {
        latest(entry_views(self.sums@)).map_values(|v: u128| v as nat)
    }

    pub closed spec fn marks_view(&self) -> Map<Seq<char>, Seq<char>> {
        latest(mark_views(self.marks@))
    }

    pub open spec fn state(&self) -> StoreState {
        StoreState { sums: self.sums_view(), marks: self.marks_view() }
    }

    /// The current value of a counter, zero when it was never added to.
    pub open spec fn sum_of(&self, key: Seq<char>) -> nat {
        if self.sums_view().contains_key(key) { self.sums_view()[key] } else { 0 }
    }

    pub fn new() -> (r: MemoryStore)
        ensures
            r.state().sums == Map::<Seq<char>, nat>::empty(),
            r.state().marks == Map::<Seq<char>, Seq<char>>::empty(),
    {
        let r = MemoryStore { sums: Vec::new(), marks: Vec::new() };
        assert(entry_views(r.sums@) =~= Seq::empty());
        assert(mark_views(r.marks@) =~= Seq::empty());
        assert(r.sums_view() =~= Map::empty());
        r
    }

    /// The counter under `key`, zero when it was never added to.
    pub fn get_sum(&self, key: &String) -> (r: u128)
        ensures
            r as nat == self.sum_of(key@),
    {
        let ghost ev = entry_views(self.sums@);
        let mut i: usize = self.sums.len();
        while i > 0
            invariant
                i <= self.sums.len(),
                ev == entry_views(self.sums@),
                forall|j: int| i <= j < self.sums.len() ==> ev[j].0 != key@,
            decreases i,
        {
            i = i - 1;
            if self.sums[i].0 == *key {
                proof {
                    lemma_latest_found(ev, i as int, key@);
                }
                return self.sums[i].1;
            }
        }
        proof {
            lemma_latest_absent(ev, key@);
        }
        0
    }

    /// The marker under `key`, if one was set.
    pub fn get_mark(&self, key: &String) -> (r: Option<String>)
        ensures
            match r {
                Some(v) => self.marks_view().contains_key(key@) && self.marks_view()[key@] == v@,
                None => !self.marks_view().contains_key(key@),
            },
    {
        let ghost ev = mark_views(self.marks@);
        let mut i: usize = self.marks.len();
        while i > 0
            invariant
                i <= self.marks.len(),
                ev == mark_views(self.marks@),
                forall|j: int| i <= j < self.marks.len() ==> ev[j].0 != key@,
            decreases i,
        {
            i = i - 1;
            if self.marks[i].0 == *key {
                proof {
                    lemma_latest_found(ev, i as int, key@);
                }
                return Some(self.marks[i].1.clone());
            }
        }
        proof {
            lemma_latest_absent(ev, key@);
        }
        None
    }

    /// Applies one change under its store's merge rule.
    pub fn apply_op(&mut self, op: &StoreOp)
        requires
            op matches StoreOp::Add { key, delta } ==> old(self).sum_of(key@) + *delta <= u128::MAX,
        ensures
            final(self).state() == apply(old(self).state(), op@),
    {
        match op {
            StoreOp::Add { key, delta } => {
                let current = self.get_sum(key);
                let ghost before = entry_views(self.sums@);
                self.sums.push((key.clone(), current + *delta as u128));
                proof {
                    assert(entry_views(self.sums@) =~= before.push((key@, (current + *delta) as u128)));
                    assert(entry_views(self.sums@).drop_last() =~= before);
                }
                assert(self.sums_view() =~= apply(old(self).state(), op@).sums);
                assert(self.marks@ == old(self).marks@);
            },
            StoreOp::SetIfAbsent { key, value } => {
                if self.get_mark(key).is_none() {
                    let ghost before = mark_views(self.marks@);
                    self.marks.push((key.clone(), value.clone()));
                    proof {
                        assert(mark_views(self.marks@).drop_last() =~= before);
                    }
                }
                assert(self.sums@ == old(self).sums@);
            },
        }
    }
}

/// The flat record of one swap handed to a downstream writer. Hashes and
/// addresses are lowercase hex; addresses carry a `0x` prefix, the
/// transaction hash does not. Amounts are base-10.
#[derive(Clone, Debug, PartialEq, Eq)]
pub struct ChangeRecord {
    /// `{tx_hash}:{log_index}`.
    pub key: String,
    pub tx_hash: String,
    pub log_index: u32,
    pub block_number: u64,
    pub timestamp: u64,
    pub pool_address: String,
    pub sender: String,
    pub recipient: String,
    pub amount0_in: String,
    pub amount1_in: String,
    pub amount0_out: String,
    pub amount1_out: String,
    pub amount_in_total: u64,
    pub amount_out_total: u64,
    pub price_ratio: u128,
}

fn hex_string(bytes: &Vec<u8>, prefixed: bool) -> (r: String)
    ensures
        prefixed ==> r@ == hex_prefixed(bytes@),
        !prefixed ==> r@ == hex(bytes@),
{
    let mut v: Vec<char> = Vec::new();
    if prefixed {
        push_hex_prefixed(&mut v, bytes);
    } else {
        push_hex(&mut v, bytes);
    }
    assert(prefixed ==> v@ =~= hex_prefixed(bytes@));
    assert(!prefixed ==> v@ =~= hex(bytes@));
    text_of(&v)
}

impl SwapRecord {
    /// The change record of this swap.
    pub fn change_record(&self) -> (r: ChangeRecord)
        ensures
            r.key@ == hex(self.tx_hash@) + ":"@ + decimal(self.log_index as nat),
            r.tx_hash@ == hex(self.tx_hash@),
            r.log_index == self.log_index,
            r.block_number == self.block_number,
            r.timestamp == self.timestamp,
            r.pool_address@ == hex_prefixed(self.pool_address@),
            r.sender@ == hex_prefixed(self.sender@),
            r.recipient@ == hex_prefixed(self.recipient@),
            r.amount0_in@ == decimal(self.amount0_in.value()),
            r.amount1_in@ == decimal(self.amount1_in.value()),
            r.amount0_out@ == decimal(self.amount0_out.value()),
            r.amount1_out@ == decimal(self.amount1_out.value()),
            r.amount_in_total == amount_in(*self),
            r.amount_out_total == amount_out(*self),
            r.price_ratio == ratio(amount_in(*self), amount_out(*self)),
    {
        let mut k: Vec<char> = Vec::new();
        push_hex(&mut k, &self.tx_hash);
        k.push(':');
        push_decimal(&mut k, self.log_index as u64);
        assert(k@ =~= hex(self.tx_hash@) + ":"@ + decimal(self.log_index as nat)) by {
            reveal_strlit(":");
        }
        ChangeRecord {
            key: text_of(&k),
            tx_hash: hex_string(&self.tx_hash, false),
            log_index: self.log_index,
            block_number: self.block_number,
            timestamp: self.timestamp,
            pool_address: hex_string(&self.pool_address, true),
            sender: hex_string(&self.sender, true),
            recipient: hex_string(&self.recipient, true),
            amount0_in: self.amount0_in.to_decimal(),
            amount1_in: self.amount1_in.to_decimal(),
            amount0_out: self.amount0_out.to_decimal(),
            amount1_out: self.amount1_out.to_decimal(),
            amount_in_total: self.amount_in_total(),
            amount_out_total: self.amount_out_total(),
            price_ratio: self.price_ratio(),
        }
    }
}

} // verus!
