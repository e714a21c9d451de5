use aerodrome_pools::events::{
    Amount, Burn, DecodeError, Mint, RawLog, Swap, Sync, BURN_SIGNATURE, MINT_SIGNATURE,
    SWAP_SIGNATURE, SYNC_SIGNATURE,
};

fn address_topic(fill: u8) -> Vec<u8> {
    let mut t = vec![0u8; 12];
    t.extend(vec![fill; 20]);
    t
}

fn word(v: u64) -> Vec<u8> {
    let mut w = vec![0u8; 24];
    w.extend(v.to_be_bytes());
    w
}

fn log(topics: Vec<Vec<u8>>, data: Vec<u8>) -> RawLog {
    RawLog { address: vec![0xbb; 20], topics, data, index: 0 }
}

fn swap_log(amounts: [u64; 4]) -> RawLog {
    let mut data = Vec::new();
    for a in amounts {
        data.extend(word(a));
    }
    log(vec![SWAP_SIGNATURE.to_vec(), address_topic(0x11), address_topic(0x22)], data)
}

#[test]
fn swap_round_trip() {
    let l = swap_log([0, 1000, 2000, 0]);
    assert!(Swap::match_log(&l));
    let s = Swap::decode(&l).unwrap();
    assert_eq!(s.amount0_in.to_u64(), Some(0));
    assert_eq!(s.amount1_in.to_u64(), Some(1000));
    assert_eq!(s.amount0_out.to_u64(), Some(2000));
    assert_eq!(s.amount1_out.to_u64(), Some(0));
    assert_eq!(s.amount1_in.bytes, word(1000));
    assert_eq!(s.sender, vec![0x11; 20]);
    assert_eq!(s.to, vec![0x22; 20]);
}

#[test]
fn wrong_topic_count_never_matches() {
    let two = log(vec![SWAP_SIGNATURE.to_vec(), address_topic(1)], vec![0; 128]);
    assert!(!Swap::match_log(&two));
    assert_eq!(Swap::decode(&two), Err(DecodeError::NoMatch));
    let sync_with_three = log(
        vec![SYNC_SIGNATURE.to_vec(), address_topic(1), address_topic(2)],
        vec![0; 64],
    );
    assert!(!Sync::match_log(&sync_with_three));
    let none = log(vec![], vec![]);
    assert!(!Mint::match_log(&none));
    assert!(!Sync::match_log(&none));
}

#[test]
fn signature_must_be_exact() {
    let mut sig = SWAP_SIGNATURE.to_vec();
    sig[31] ^= 1;
    let l = log(vec![sig, address_topic(1), address_topic(2)], vec![0; 128]);
    assert!(!Swap::match_log(&l));
    let mint_as_swap = log(vec![MINT_SIGNATURE.to_vec(), address_topic(1), address_topic(2)], vec![0; 128]);
    assert!(!Swap::match_log(&mint_as_swap));
    assert!(Mint::match_log(&mint_as_swap));
}

#[test]
fn short_payload_is_rejected() {
    let l = log(vec![SWAP_SIGNATURE.to_vec(), address_topic(1), address_topic(2)], vec![0; 127]);
    assert_eq!(Swap::decode(&l), Err(DecodeError::PayloadTooShort));
    let s = log(vec![SYNC_SIGNATURE.to_vec()], vec![0; 63]);
    assert_eq!(Sync::decode(&s), Err(DecodeError::PayloadTooShort));
}

#[test]
fn malformed_topic_is_rejected() {
    let l = log(vec![BURN_SIGNATURE.to_vec(), vec![0; 31], address_topic(2)], vec![0; 64]);
    assert_eq!(Burn::decode(&l), Err(DecodeError::MalformedTopic));
}

#[test]
fn trailing_payload_is_ignored() {
    let mut data = word(7);
    data.extend(word(9));
    data.extend(vec![0xff; 40]);
    let l = log(vec![MINT_SIGNATURE.to_vec(), address_topic(3), address_topic(4)], data);
    let m = Mint::decode(&l).unwrap();
    assert_eq!(m.amount0.to_u64(), Some(7));
    assert_eq!(m.amount1.to_u64(), Some(9));
    assert_eq!(m.sender, vec![3; 20]);
    assert_eq!(m.to, vec![4; 20]);
}

#[test]
fn sync_and_burn_decode() {
    let mut data = word(5);
    data.extend(word(6));
    let s = Sync::decode(&log(vec![SYNC_SIGNATURE.to_vec()], data.clone())).unwrap();
    assert_eq!(s.reserve0.to_u64(), Some(5));
    assert_eq!(s.reserve1.to_u64(), Some(6));
    let b = Burn::decode(&log(vec![BURN_SIGNATURE.to_vec(), address_topic(8), address_topic(9)], data)).unwrap();
    assert_eq!(b.amount0.to_u64(), Some(5));
    assert_eq!(b.to, vec![9; 20]);
}

#[test]
fn large_amounts_do_not_fit_u64() {
    let max = Amount { bytes: vec![0xff; 32] };
    assert_eq!(max.to_u64(), None);
    let mut edge = vec![0u8; 24];
    edge.extend(vec![0xff; 8]);
    assert_eq!(Amount { bytes: edge }.to_u64(), Some(u64::MAX));
    let mut over = vec![0u8; 23];
    over.push(1);
    over.extend(vec![0; 8]);
    assert_eq!(Amount { bytes: over }.to_u64(), None);
}
