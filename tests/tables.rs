use xdp_guard::bucket::{rate_per_ns, TokenBucket};
use xdp_guard::buckets::{BucketTable, BUCKET_CAPACITY};
use xdp_guard::denylist::{DenyError, DenyList, DENY_CAPACITY};
use xdp_guard::verdict::Verdict;

#[test]
fn rate_conversion_rounds_up() {
    assert_eq!(rate_per_ns(0), 0);
    assert_eq!(rate_per_ns(1), 1);
    assert_eq!(rate_per_ns(1_000_000), 1);
    assert_eq!(rate_per_ns(1_000_000_000), 1);
    assert_eq!(rate_per_ns(1_000_000_001), 2);
    assert_eq!(rate_per_ns(u64::MAX), 18_446_744_074);
}

#[test]
fn seeded_bucket_is_full() {
    let b = TokenBucket::seeded(1_000_000, 100_000);
    assert_eq!(b, TokenBucket { tokens: 100_000, last_ns: 0, rate_per_ns: 1, burst: 100_000 });
    assert_eq!(TokenBucket::fresh(42), TokenBucket { tokens: 0, last_ns: 42, rate_per_ns: 0, burst: 0 });
}

#[test]
fn two_packets_refill_by_elapsed_times_rate() {
    let mut b = TokenBucket::seeded(1_000_000, 100_000);
    let t0 = 1_000;
    assert_eq!(b.charge(50_000, t0), Verdict::Pass);
    assert_eq!(b.tokens, 50_000);
    assert_eq!(b.charge(50_000, t0 + 10_000), Verdict::Pass);
    assert_eq!(b.tokens, 10_000);
    assert_eq!(b.last_ns, t0 + 10_000);
}

#[test]
fn two_packets_ten_ms_apart() {
    let mut b = TokenBucket::seeded(1_000_000, 100_000);
    let t0 = 1_000;
    assert_eq!(b.charge(50_000, t0), Verdict::Pass);
    assert_eq!(b.tokens, 50_000);
    assert_eq!(b.charge(50_000, t0 + 10_000_000), Verdict::Pass);
    assert_eq!(b.tokens, 50_000);
}

#[test]
fn refill_saturates_and_caps() {
    let mut b = TokenBucket { tokens: 5, last_ns: 10, rate_per_ns: u64::MAX, burst: 100 };
    b.refill(u64::MAX);
    assert_eq!(b, TokenBucket { tokens: 100, last_ns: u64::MAX, rate_per_ns: u64::MAX, burst: 100 });
    let mut back = TokenBucket { tokens: 5, last_ns: 100, rate_per_ns: 3, burst: 100 };
    back.refill(50);
    assert_eq!(back.tokens, 5);
    assert_eq!(back.last_ns, 100);
    let mut idle = TokenBucket { tokens: 5, last_ns: 100, rate_per_ns: 0, burst: 100 };
    idle.refill(1_000);
    assert_eq!(idle.last_ns, 100);
    assert_eq!(idle.tokens, 5);
}

#[test]
fn tokens_stay_within_burst() {
    let mut b = TokenBucket::seeded(3_000_000_000, 10_000);
    let mut t = 0u64;
    for (i, len) in [9_000u64, 5_000, 1, 20_000, 10_000, 0, 7].iter().enumerate() {
        t += (i as u64) * 700;
        b.charge(*len, t);
        assert!(b.tokens <= b.burst);
        assert_eq!(b.rate_per_ns, 3);
        assert_eq!(b.burst, 10_000);
    }
}

#[test]
fn empty_charge_passes() {
    let mut b = TokenBucket::fresh(0);
    assert_eq!(b.charge(0, 0), Verdict::Pass);
    assert_eq!(b.charge(1, 0), Verdict::Drop);
}

#[test]
fn block_is_idempotent() {
    let mut d = DenyList::new();
    assert_eq!(d.insert(0x01020304), Ok(()));
    assert_eq!(d.insert(0x01020304), Ok(()));
    assert_eq!(d.len(), 1);
    assert_eq!(d.addresses(), vec![0x01020304]);
    d.remove(0x05060708);
    assert_eq!(d.addresses(), vec![0x01020304]);
}

#[test]
fn block_then_unblock_round_trip() {
    let mut d = DenyList::new();
    d.insert(0x0a000001).unwrap();
    d.insert(0x01020304).unwrap();
    assert!(d.addresses().contains(&0x01020304));
    assert!(d.contains(0x01020304));
    d.remove(0x01020304);
    assert!(!d.addresses().contains(&0x01020304));
    assert!(!d.contains(0x01020304));
    assert_eq!(d.addresses(), vec![0x0a000001]);
}

#[test]
fn full_denylist_refuses_new_addresses() {
    let mut d = DenyList::new();
    for a in 0..DENY_CAPACITY as u32 {
        assert_eq!(d.insert(a), Ok(()));
    }
    assert_eq!(d.len(), DENY_CAPACITY);
    assert_eq!(d.insert(99_999), Err(DenyError::TableFull));
    assert!(!d.contains(99_999));
    assert_eq!(d.insert(5), Ok(()));
    d.remove(5);
    assert_eq!(d.insert(99_999), Ok(()));
    assert_eq!(d.len(), DENY_CAPACITY);
}

#[test]
fn insert_all_stops_at_refusal() {
    let mut d = DenyList::new();
    let addrs: Vec<u32> = (0..DENY_CAPACITY as u32 + 2).collect();
    assert_eq!(d.insert_all(&addrs), Err(DenyError::TableFull));
    assert_eq!(d.len(), DENY_CAPACITY);
    assert_eq!(d.addresses(), (0..DENY_CAPACITY as u32).collect::<Vec<u32>>());
    let mut e = DenyList::new();
    assert_eq!(e.insert_all(&vec![7, 8, 7]), Ok(()));
    assert_eq!(e.addresses(), vec![7, 8]);
}

#[test]
fn bucket_table_evicts_least_recently_used() {
    let mut t = BucketTable::new();
    for a in 0..BUCKET_CAPACITY as u32 {
        t.insert(a, TokenBucket::fresh(a as u64));
    }
    assert_eq!(t.len(), BUCKET_CAPACITY);
    t.insert(0, TokenBucket::fresh(1_000));
    t.insert(50_000, TokenBucket::fresh(2_000));
    assert_eq!(t.len(), BUCKET_CAPACITY);
    assert_eq!(t.get(1), None);
    assert_eq!(t.get(0).unwrap().last_ns, 1_000);
    assert_eq!(t.get(50_000).unwrap().last_ns, 2_000);
    assert_eq!(t.get(2).unwrap().last_ns, 2);
}

#[test]
fn seed_overwrites_existing_buckets() {
    let mut t = BucketTable::new();
    t.insert(9, TokenBucket::fresh(5));
    t.seed(&vec![9, 10], 2_000_000_000, 500);
    let b = TokenBucket { tokens: 500, last_ns: 0, rate_per_ns: 2, burst: 500 };
    assert_eq!(t.get(9), Some(b));
    assert_eq!(t.get(10), Some(b));
    assert_eq!(t.len(), 2);
}

#[test]
fn table_charge_creates_and_debits() {
    let mut t = BucketTable::new();
    assert_eq!(t.charge(3, 1_500, 10), Verdict::Drop);
    assert_eq!(t.get(3), Some(TokenBucket::fresh(10)));
    t.seed(&vec![4], 1_000_000_000, 2_000);
    assert_eq!(t.charge(4, 1_500, 10), Verdict::Pass);
    assert_eq!(t.get(4).unwrap().tokens, 500);
    assert_eq!(t.charge(4, 1_500, 10), Verdict::Drop);
    assert_eq!(t.charge(4, 1_500, 1_010), Verdict::Pass);
    assert_eq!(t.get(4).unwrap().tokens, 0);
}
