//! Recognition and decoding of the pool contract's event logs: `Swap`,
//! `Mint`, `Burn` and `Sync`.

use vstd::prelude::*;
use crate::text::decimal;

verus! {

/// keccak256 of `Swap(address,address,uint256,uint256,uint256,uint256)`.
pub const SWAP_SIGNATURE: [u8; 32] = [
    0xd7, 0x8a, 0xd9, 0x5f, 0xa4, 0x6c, 0x99, 0x4b, 0x6e, 0x1f, 0x56, 0x21, 0x3a, 0x60, 0x3c, 0xc6,
    0x6e, 0x23, 0x23, 0xba, 0x6f, 0x7b, 0x2d, 0x7f, 0xbb, 0x7f, 0xed, 0x15, 0x75, 0x49, 0xdf, 0x08,
];

/// keccak256 of `Mint(address,uint256,uint256,address)`.
pub const MINT_SIGNATURE: [u8; 32] = [
    0x4c, 0x20, 0x9b, 0x5f, 0xc8, 0xad, 0x50, 0x75, 0x8f, 0x13, 0xe2, 0xe1, 0x08, 0x8b, 0xa5, 0x6a,
    0x56, 0x0d, 0xfe, 0x89, 0xc3, 0x0b, 0xa0, 0x8b, 0x7c, 0x57, 0x4a, 0x69, 0x63, 0x54, 0xae, 0x36,
];

/// keccak256 of `Burn(address,uint256,uint256,address)`.
pub const BURN_SIGNATURE: [u8; 32] = [
    0xdc, 0xcd, 0x41, 0x2f, 0x0b, 0x12, 0x52, 0x81, 0x90, 0xce, 0x99, 0x95, 0xb5, 0x30, 0x9c, 0x21,
    0x02, 0x29, 0x02, 0xf9, 0x3a, 0x30, 0x11, 0x56, 0x9d, 0x3f, 0x53, 0xf3, 0x74, 0x32, 0x00, 0xef,
];

/// keccak256 of `Sync(uint112,uint112)`.
pub const SYNC_SIGNATURE: [u8; 32] = [
    0x1c, 0x41, 0x1e, 0x9a, 0x96, 0xe0, 0x71, 0x24, 0x1c, 0x2f, 0x21, 0xf7, 0x72, 0x6b, 0x17, 0xae,
    0x89, 0xe3, 0xca, 0xb4, 0xc7, 0x8b, 0xe5, 0x05, 0x09, 0xa0, 0xfa, 0x21, 0x12, 0x56, 0x61, 0x17,
];

/// One event log as emitted by a contract.
#[derive(Clone, Debug)]
pub struct RawLog {
    /// Address of the emitting contract (20 bytes).
    pub address: Vec<u8>,
    /// Indexed topics, the first being the event signature.
    pub topics: Vec<Vec<u8>>,
    /// Unindexed payload.
    pub data: Vec<u8>,
    /// Position of the log within its block.
    pub index: u32,
}

impl RawLog {
    pub open spec fn topics_view(&self) -> Seq<Seq<u8>> {
        self.topics@.map_values(|t: Vec<u8>| t@)
    }
}

#[derive(Clone, Copy, Debug, PartialEq, Eq, Structural)]
pub enum EventKind {
    Swap,
    Mint,
    Burn,
    Sync,
}

#[derive(Clone, Copy, Debug, PartialEq, Eq, Structural)]
pub enum DecodeError {
    /// The log's topic count or signature is not that of the event kind.
    NoMatch,
    /// An indexed address topic is absent.
    MissingTopic,
    /// An indexed address topic is not exactly 32 bytes long.
    MalformedTopic,
    /// The payload is shorter than the event's fixed fields.
    PayloadTooShort,
}

impl EventKind {
    /// Topics a log of this kind carries: the signature and the indexed addresses.
    pub open spec fn topic_count(self) -> nat {
        match self {
            EventKind::Sync => 1,
            _ => 3,
        }
    }

    pub open spec fn signature(self) -> Seq<u8> {
        match self {
            EventKind::Swap => SWAP_SIGNATURE@,
            EventKind::Mint => MINT_SIGNATURE@,
            EventKind::Burn => BURN_SIGNATURE@,
            EventKind::Sync => SYNC_SIGNATURE@,
        }
    }

    /// Minimum payload length: one 32-byte word per unindexed field.
    pub open spec fn payload_len(self) -> nat {
        match self {
            EventKind::Swap => 128,
            _ => 64,
        }
    }
}

/// Whether a log with these topics is an event of `kind`.
pub open spec fn matches_kind(topics: Seq<Seq<u8>>, kind: EventKind) -> bool {
    topics.len() == kind.topic_count() && topics[0] == kind.signature()
}

/// Why an address could not be read from topic `i`, if it cannot.
pub open spec fn topic_failure(topics: Seq<Seq<u8>>, i: int) -> Option<DecodeError> {
    if i >= topics.len() {
        Some(DecodeError::MissingTopic)
    } else if topics[i].len() != 32 {
        Some(DecodeError::MalformedTopic)
    } else {
        None
    }
}

/// Why a log cannot be decoded as `kind`, checked in order: shape and
/// signature, the address topics, then the payload length.
pub open spec fn decode_failure(topics: Seq<Seq<u8>>, data: Seq<u8>, kind: EventKind) -> Option<
    DecodeError,
> {
    if !matches_kind(topics, kind) {
        Some(DecodeError::NoMatch)
    } else if kind != EventKind::Sync && topic_failure(topics, 1) is Some {
        topic_failure(topics, 1)
    } else if kind != EventKind::Sync && topic_failure(topics, 2) is Some {
        topic_failure(topics, 2)
    } else if data.len() < kind.payload_len() {
        Some(DecodeError::PayloadTooShort)
    } else {
        None
    }
}

/// The address held in the low-order 20 bytes of a 32-byte topic.
pub open spec fn topic_address(topic: Seq<u8>) -> Seq<u8> {
    topic.subrange(12, 32)
}

/// The `i`-th 32-byte word of a payload.
pub open spec fn word(data: Seq<u8>, i: int) -> Seq<u8> {
    data.subrange(32 * i, 32 * i + 32)
}

/// Unsigned big-endian value of a byte string.
pub open spec fn be_value(s: Seq<u8>) -> nat
    decreases s.len(),
{
    if s.len() == 0 {
        0
    } else {
        (be_value(s.drop_last()) * 256 + s.last()) as nat
    }
}

/// A prefix never has a larger big-endian value than the whole.
pub proof fn lemma_be_prefix(s: Seq<u8>, k: int)
    requires
        0 <= k <= s.len(),
    ensures
        be_value(s.take(k)) <= be_value(s),
    decreases s.len(),
{
    if k < s.len() {
        assert(s.take(k) =~= s.drop_last().take(k));
        lemma_be_prefix(s.drop_last(), k);
    } else {
        assert(s.take(k) =~= s);
    }
}

/// A non-negative integer of up to 256 bits, as its 32 big-endian bytes.
#[derive(Clone, Debug, PartialEq, Eq)]
pub struct Amount {
    pub bytes: Vec<u8>,
}

impl Amount {
    pub open spec fn value(&self) -> nat {
        be_value(self.bytes@)
    }

    /// The amount as a 64-bit integer, where it fits.
    pub fn to_u64(&self) -> (r: Option<u64>)
        ensures
            self.value() <= u64::MAX ==> r == Some(self.value() as u64),
            self.value() > u64::MAX ==> r is None,
    {
        let mut acc: u64 = 0;
        let mut i: usize = 0;
        while i < self.bytes.len()
            invariant
                i <= self.bytes.len(),
                acc as nat == be_value(self.bytes@.take(i as int)),
            decreases self.bytes.len() - i,
        {
            proof {
                assert(self.bytes@.take(i + 1).drop_last() =~= self.bytes@.take(i as int));
                lemma_be_prefix(self.bytes@, i + 1);
            }
            let b = self.bytes[i];
            match acc.checked_mul(256) {
                Some(m) => match m.checked_add(b as u64) {
                    Some(n) => {
                        acc = n;
                    },
                    None => {
                        return None;
                    },
                },
                None => {
                    return None;
                },
            }
            i = i + 1;
        }
        assert(self.bytes@.take(i as int) =~= self.bytes@);
        Some(acc)
    }
}

/// Relies on substreams' `BigInt::from_unsigned_bytes_be`, which reads the bytes
/// as an unsigned big-endian integer, and on its `Display`, num-bigint's
/// base-10 form: no sign for a non-negative value, no leading zeros, `0` for zero.
#[verifier::external_body]
fn unsigned_be_decimal(bytes: &Vec<u8>) -> (r: String)
    ensures
        r@ == decimal(be_value(bytes@)),
{
    substreams::scalar::BigInt::from_unsigned_bytes_be(bytes).to_string()
}

impl Amount {
    /// The amount in base 10, exact at any size.
    pub fn to_decimal(&self) -> (r: String)
        ensures
            r@ == decimal(self.value()),
    {
        unsigned_be_decimal(&self.bytes)
    }
}

/// A decoded `Swap`: the trader, the recipient, and the amounts of both
/// tokens that went in and came out.
#[derive(Clone, Debug, PartialEq, Eq)]
pub struct Swap {
    pub sender: Vec<u8>,
    pub to: Vec<u8>,
    pub amount0_in: Amount,
    pub amount1_in: Amount,
    pub amount0_out: Amount,
    pub amount1_out: Amount,
}

/// A decoded `Mint`: liquidity added to a pool.
#[derive(Clone, Debug, PartialEq, Eq)]
pub struct Mint {
    pub sender: Vec<u8>,
    pub to: Vec<u8>,
    pub amount0: Amount,
    pub amount1: Amount,
}

/// A decoded `Burn`: liquidity taken out of a pool.
#[derive(Clone, Debug, PartialEq, Eq)]
pub struct Burn {
    pub sender: Vec<u8>,
    pub to: Vec<u8>,
    pub amount0: Amount,
    pub amount1: Amount,
}

/// A decoded `Sync`: the pool's reserves after a change.
#[derive(Clone, Debug, PartialEq, Eq)]
pub struct Sync {
    pub reserve0: Amount,
    pub reserve1: Amount,
}

fn signature_bytes(kind: EventKind) -> (r: [u8; 32])
    ensures
        r@ == kind.signature(),
{
    match kind {
        EventKind::Swap => SWAP_SIGNATURE,
        EventKind::Mint => MINT_SIGNATURE,
        EventKind::Burn => BURN_SIGNATURE,
        EventKind::Sync => SYNC_SIGNATURE,
    }
}

fn bytes_equal(a: &Vec<u8>, b: &[u8; 32]) -> (r: bool)
    ensures
        r == (a@ == b@),
{
    if a.len() != 32 {
        return false;
    }
    let mut i: usize = 0;
    while i < 32
        invariant
            a@.len() == 32,
            b@.len() == 32,
            i <= 32,
            forall|j: int| 0 <= j < i ==> a@[j] == b@[j],
        decreases 32 - i,
    {
        if a[i] != b[i] {
            return false;
        }
        i = i + 1;
    }
    assert(a@ =~= b@);
    true
}

/// Whether `log` has the topic count and the exact signature of `kind`.
pub fn match_log(log: &RawLog, kind: EventKind) -> (r: bool)
    ensures
        r == matches_kind(log.topics_view(), kind),
{
    let count: usize = match kind {
        EventKind::Sync => 1,
        _ => 3,
    };
    if log.topics.len() != count {
        return false;
    }
    let sig = signature_bytes(kind);
    bytes_equal(&log.topics[0], &sig)
}

/// The address held by topic `i`.
fn topic_address_at(log: &RawLog, i: usize) -> (r: Result<Vec<u8>, DecodeError>)
    ensures
        topic_failure(log.topics_view(), i as int) is Some ==> r == Err::<Vec<u8>, DecodeError>(
            topic_failure(log.topics_view(), i as int)->Some_0,
        ),
        topic_failure(log.topics_view(), i as int) is None ==> r is Ok && r->Ok_0@
            == topic_address(log.topics_view()[i as int]),
{
    if i >= log.topics.len() {
        return Err(DecodeError::MissingTopic);
    }
    let topic = &log.topics[i];
    if topic.len() != 32 {
        return Err(DecodeError::MalformedTopic);
    }
    let mut out: Vec<u8> = Vec::new();
    let mut j: usize = 12;
    while j < 32
        invariant
            12 <= j <= 32,
            topic@.len() == 32,
            out@ =~= topic@.subrange(12, j as int),
        decreases 32 - j,
    {
        out.push(topic[j]);
        j = j + 1;
    }
    Ok(out)
}

/// The `i`-th 32-byte word of the payload.
fn word_at(data: &Vec<u8>, i: usize) -> (r: Amount)
    requires
        i < 4,
        32 * i + 32 <= data@.len(),
    ensures
        r.bytes@ == word(data@, i as int),
{
    let start = 32 * i;
    let end = start + 32;
    let mut out: Vec<u8> = Vec::new();
    let mut j: usize = start;
    while j < end
        invariant
            start <= j <= end,
            end == start + 32,
            end <= data@.len(),
            out@ =~= data@.subrange(start as int, j as int),
        decreases end - j,
    {
        out.push(data[j]);
        j = j + 1;
    }
    Amount { bytes: out }
}

impl Swap {
    pub fn match_log(log: &RawLog) -> (r: bool)
        ensures
            r == matches_kind(log.topics_view(), EventKind::Swap),
    {
        match_log(log, EventKind::Swap)
    }

    /// Decodes a `Swap` log: addresses from topics 1 and 2, the four amounts
    /// from the first four payload words; extra payload is ignored.
    pub fn decode(log: &RawLog) -> (r: Result<Swap, DecodeError>)
        ensures
            match decode_failure(log.topics_view(), log.data@, EventKind::Swap) {
                Some(e) => r == Err::<Swap, DecodeError>(e),
                None => r matches Ok(s) && s.sender@ == topic_address(log.topics_view()[1])
                    && s.to@ == topic_address(log.topics_view()[2])
                    && s.amount0_in.bytes@ == word(log.data@, 0)
                    && s.amount1_in.bytes@ == word(log.data@, 1)
                    && s.amount0_out.bytes@ == word(log.data@, 2)
                    && s.amount1_out.bytes@ == word(log.data@, 3),
            },
    {
        if !Self::match_log(log) {
            return Err(DecodeError::NoMatch);
        }
        let sender = match topic_address_at(log, 1) {
            Ok(a) => a,
            Err(e) => return Err(e),
        };
        let to = match topic_address_at(log, 2) {
            Ok(a) => a,
            Err(e) => return Err(e),
        };
        if log.data.len() < 128 {
            return Err(DecodeError::PayloadTooShort);
        }
        Ok(Swap {
            sender,
            to,
            amount0_in: word_at(&log.data, 0),
            amount1_in: word_at(&log.data, 1),
            amount0_out: word_at(&log.data, 2),
            amount1_out: word_at(&log.data, 3),
        })
    }
}

/// Addresses and the two amounts shared by `Mint` and `Burn`.
fn decode_liquidity(log: &RawLog, kind: EventKind) -> (r: Result<
    (Vec<u8>, Vec<u8>, Amount, Amount),
    DecodeError,
>)
    requires
        kind == EventKind::Mint || kind == EventKind::Burn,
    ensures
        match decode_failure(log.topics_view(), log.data@, kind) {
            Some(e) => r == Err::<(Vec<u8>, Vec<u8>, Amount, Amount), DecodeError>(e),
            None => r matches Ok(v) && v.0@ == topic_address(log.topics_view()[1])
                && v.1@ == topic_address(log.topics_view()[2])
                && v.2.bytes@ == word(log.data@, 0)
                && v.3.bytes@ == word(log.data@, 1),
        },
{
    if !match_log(log, kind) {
        return Err(DecodeError::NoMatch);
    }
    let sender = match topic_address_at(log, 1) {
        Ok(a) => a,
        Err(e) => return Err(e),
    };
    let to = match topic_address_at(log, 2) {
        Ok(a) => a,
        Err(e) => return Err(e),
    };
    if log.data.len() < 64 {
        return Err(DecodeError::PayloadTooShort);
    }
    Ok((sender, to, word_at(&log.data, 0), word_at(&log.data, 1)))
}

impl Mint {
    pub fn match_log(log: &RawLog) -> (r: bool)
        ensures
            r == matches_kind(log.topics_view(), EventKind::Mint),
    {
        match_log(log, EventKind::Mint)
    }

    /// Decodes a `Mint` log: addresses from topics 1 and 2, the amounts from
    /// the first two payload words.
    pub fn decode(log: &RawLog) -> (r: Result<Mint, DecodeError>)
        ensures
            match decode_failure(log.topics_view(), log.data@, EventKind::Mint) {
                Some(e) => r == Err::<Mint, DecodeError>(e),
                None => r matches Ok(m) && m.sender@ == topic_address(log.topics_view()[1])
                    && m.to@ == topic_address(log.topics_view()[2])
                    && m.amount0.bytes@ == word(log.data@, 0)
                    && m.amount1.bytes@ == word(log.data@, 1),
            },
    {
        match decode_liquidity(log, EventKind::Mint) {
            Ok((sender, to, amount0, amount1)) => Ok(Mint { sender, to, amount0, amount1 }),
            Err(e) => Err(e),
        }
    }
}

impl Burn {
    pub fn match_log(log: &RawLog) -> (r: bool)
        ensures
            r == matches_kind(log.topics_view(), EventKind::Burn),
    {
        match_log(log, EventKind::Burn)
    }

    /// Decodes a `Burn` log: addresses from topics 1 and 2, the amounts from
    /// the first two payload words.
    pub fn decode(log: &RawLog) -> (r: Result<Burn, DecodeError>)
        ensures
            match decode_failure(log.topics_view(), log.data@, EventKind::Burn) {
                Some(e) => r == Err::<Burn, DecodeError>(e),
                None => r matches Ok(b) && b.sender@ == topic_address(log.topics_view()[1])
                    && b.to@ == topic_address(log.topics_view()[2])
                    && b.amount0.bytes@ == word(log.data@, 0)
                    && b.amount1.bytes@ == word(log.data@, 1),
            },
    {
        match decode_liquidity(log, EventKind::Burn) {
            Ok((sender, to, amount0, amount1)) => Ok(Burn { sender, to, amount0, amount1 }),
            Err(e) => Err(e),
        }
    }
}

impl Sync {
    pub fn match_log(log: &RawLog) -> (r: bool)
        ensures
            r == matches_kind(log.topics_view(), EventKind::Sync),
    {
        match_log(log, EventKind::Sync)
    }

    /// Decodes a `Sync` log: the two reserves from the first two payload words.
    pub fn decode(log: &RawLog) -> (r: Result<Sync, DecodeError>)
        ensures
            match decode_failure(log.topics_view(), log.data@, EventKind::Sync) {
                Some(e) => r == Err::<Sync, DecodeError>(e),
                None => r matches Ok(v) && v.reserve0.bytes@ == word(log.data@, 0)
                    && v.reserve1.bytes@ == word(log.data@, 1),
            },
    {
        if !Self::match_log(log) {
            return Err(DecodeError::NoMatch);
        }
        if log.data.len() < 64 {
            return Err(DecodeError::PayloadTooShort);
        }
        Ok(Sync { reserve0: word_at(&log.data, 0), reserve1: word_at(&log.data, 1) })
    }
}

/// A log whose topic count differs from the one an event kind requires never
/// matches that kind, whatever its first topic holds.
pub proof fn lemma_wrong_topic_count_never_matches(topics: Seq<Seq<u8>>, kind: EventKind)
    requires
        topics.len() != kind.topic_count(),
    ensures
        !matches_kind(topics, kind),
{
}

/// For a log with the right shape and signature whose topics are 32-byte
/// words, the only decoding failure is a payload too short for the event's
/// fields, and it occurs exactly then.
pub proof fn lemma_matching_log_fails_only_on_payload(
    topics: Seq<Seq<u8>>,
    data: Seq<u8>,
    kind: EventKind,
)
    requires
        matches_kind(topics, kind),
        forall|i: int| 0 <= i < topics.len() ==> #[trigger] topics[i].len() == 32,
    ensures
        decode_failure(topics, data, kind) == (if data.len() < kind.payload_len() {
            Some(DecodeError::PayloadTooShort)
        } else {
            None::<DecodeError>
        }),
{
    if kind != EventKind::Sync {
        assert(topics[1].len() == 32);
        assert(topics[2].len() == 32);
    }
}

} // verus!
