use header_triage::blockcfg::{Block, BlockDate, Header, HeaderHash};
use header_triage::purge::{PurgeAction, PurgeDriver, PurgeEvent};
use header_triage::quarantine::{
    block_from_storage, header_from_storage, Admission, ErrorKind, HeaderChainTriage, Quarantine,
    Quarantined, Resolution, StorageFailure, VerificationFailure,
};
use header_triage::reference_cache::RefCache;

fn id(n: u8) -> HeaderHash {
    HeaderHash { bytes: [n; 32] }
}

fn make_header(hash: u8, parent: u8, chain_length: u64, slot_id: u32) -> Header {
    Header {
        hash: id(hash),
        parent_hash: id(parent),
        chain_length,
        block_date: BlockDate { epoch: 0, slot_id },
    }
}

fn quarantine_holding(entries: Vec<Quarantined>, ttl: u64) -> Quarantine {
    let mut cache = RefCache::new(ttl);
    for entry in entries {
        cache.insert(entry.header().hash(), entry, 0);
    }
    Quarantine::with_cache(cache)
}

fn failure(message: &str) -> StorageFailure {
    StorageFailure { message: message.to_string() }
}

#[test]
fn happy_path_admission() {
    let p = make_header(1, 0, 0, 10);
    let c = make_header(2, 1, 1, 11);
    let mut quarantine = quarantine_holding(vec![Quarantined::Header(p)], 60_000);
    assert_eq!(
        quarantine.apply_header(c, Ok(false), 1),
        Admission::Decided(Ok(HeaderChainTriage::Quarantined(id(2))))
    );
    assert_eq!(quarantine.get_header(id(2), 2), Resolution::Resolved(Some(c)));
    assert_eq!(quarantine.ref_cache().len(), 2);
}

#[test]
fn duplicate_rejection() {
    let b = make_header(2, 1, 1, 11);
    let mut quarantine = quarantine_holding(vec![Quarantined::Header(make_header(1, 0, 0, 10))], 1000);
    assert_eq!(
        quarantine.apply_header(b, Ok(true), 1),
        Admission::Decided(Ok(HeaderChainTriage::AlreadyPresent))
    );
    assert_eq!(quarantine.ref_cache().len(), 1);
    assert!(!quarantine.ref_cache().contains(id(2)));
    assert_eq!(quarantine.ref_cache().next_expiry(), Some(1000));
}

#[test]
fn duplicate_rejection_with_an_empty_cache() {
    let mut quarantine = Quarantine::new(1000);
    assert_eq!(
        quarantine.apply_header(make_header(2, 1, 1, 11), Ok(true), 1),
        Admission::Decided(Ok(HeaderChainTriage::AlreadyPresent))
    );
    assert!(quarantine.ref_cache().is_empty());
}

#[test]
fn missing_parent() {
    let c = make_header(2, 9, 1, 11);
    let mut quarantine = Quarantine::new(1000);
    assert_eq!(quarantine.apply_header(c, Ok(false), 1), Admission::ParentWanted(c));
    assert_eq!(
        quarantine.apply_header_with_parent(c, Ok(None), 2),
        Err(ErrorKind::MissingParentBlockFromStorage(c))
    );
    assert!(quarantine.ref_cache().is_empty());
}

#[test]
fn non_monotonic_chain_length() {
    let p = make_header(1, 0, 5, 10);
    let c = make_header(2, 1, 5, 11);
    let mut quarantine = quarantine_holding(vec![Quarantined::Header(p)], 1000);
    let verdict = quarantine.apply_header(c, Ok(false), 1);
    assert_eq!(
        verdict,
        Admission::Decided(Err(ErrorKind::BlockHeaderVerificationFailed(
            VerificationFailure::ChainLengthNotSuccessor
        )))
    );
    assert!(VerificationFailure::ChainLengthNotSuccessor.reason().starts_with("chain length"));
    assert!(!quarantine.ref_cache().contains(id(2)));
}

#[test]
fn date_regression() {
    let p = make_header(1, 0, 5, 100);
    let c = make_header(2, 1, 6, 100);
    let mut quarantine = quarantine_holding(vec![Quarantined::Header(p)], 1000);
    assert_eq!(
        quarantine.apply_header(c, Ok(false), 1),
        Admission::Decided(Err(ErrorKind::BlockHeaderVerificationFailed(
            VerificationFailure::DateNotAfterParent
        )))
    );
    assert!(VerificationFailure::DateNotAfterParent.reason().starts_with("date"));
    assert!(!quarantine.ref_cache().contains(id(2)));
}

#[test]
fn ttl_expiry_under_idle_load() {
    let h = make_header(1, 0, 1, 1);
    let mut cache = RefCache::new(1000);
    cache.insert(id(1), Quarantined::Header(h), 0);
    let mut quarantine = Quarantine::with_cache(cache);
    assert_eq!(quarantine.get_header(id(1), 500), Resolution::Resolved(Some(h)));
    let mut driver = PurgeDriver::new();
    assert_eq!(
        quarantine.step_purge(&mut driver, PurgeEvent::Woken(2000)),
        PurgeAction::AwaitInsertion
    );
    assert_eq!(quarantine.get_header(id(1), 2000), Resolution::AskStorage(id(1)));
    assert_eq!(header_from_storage(Ok(None)), Ok(None));
}

#[test]
fn the_date_is_checked_before_the_chain_length() {
    let p = make_header(1, 0, 5, 100);
    let c = make_header(2, 1, 9, 99);
    let mut quarantine = quarantine_holding(vec![Quarantined::Header(p)], 1000);
    assert_eq!(
        quarantine.apply_header(c, Ok(false), 1),
        Admission::Decided(Err(ErrorKind::BlockHeaderVerificationFailed(
            VerificationFailure::DateNotAfterParent
        )))
    );
}

#[test]
fn a_parent_of_the_largest_length_has_no_successor() {
    let p = make_header(1, 0, u64::MAX, 1);
    let c = make_header(2, 1, 0, 2);
    let mut quarantine = quarantine_holding(vec![Quarantined::Header(p)], 1000);
    assert_eq!(
        quarantine.apply_header(c, Ok(false), 1),
        Admission::Decided(Err(ErrorKind::BlockHeaderVerificationFailed(
            VerificationFailure::ChainLengthNotSuccessor
        )))
    );
}

#[test]
fn a_later_epoch_is_a_later_date() {
    let p = Header {
        hash: id(1),
        parent_hash: id(0),
        chain_length: 3,
        block_date: BlockDate { epoch: 1, slot_id: 900 },
    };
    let c = Header {
        hash: id(2),
        parent_hash: id(1),
        chain_length: 4,
        block_date: BlockDate { epoch: 2, slot_id: 0 },
    };
    let mut quarantine = quarantine_holding(vec![Quarantined::Header(p)], 1000);
    assert_eq!(
        quarantine.apply_header(c, Ok(false), 1),
        Admission::Decided(Ok(HeaderChainTriage::Quarantined(id(2))))
    );
}

#[test]
fn a_storage_failure_is_passed_on() {
    let c = make_header(2, 1, 1, 11);
    let mut quarantine = quarantine_holding(vec![Quarantined::Header(make_header(1, 0, 0, 10))], 1000);
    assert_eq!(
        quarantine.apply_header(c, Err(failure("disk")), 1),
        Admission::Decided(Err(ErrorKind::Storage(failure("disk"))))
    );
    assert_eq!(
        quarantine.apply_header_with_parent(c, Err(failure("lock")), 1),
        Err(ErrorKind::Storage(failure("lock")))
    );
    assert_eq!(quarantine.ref_cache().len(), 1);
    assert_eq!(header_from_storage(Err(failure("x"))), Err(ErrorKind::Storage(failure("x"))));
    assert_eq!(block_from_storage(Err(failure("y"))), Err(ErrorKind::Storage(failure("y"))));
}

#[test]
fn a_stored_parent_admits_without_being_cached() {
    let p = make_header(1, 0, 7, 10);
    let c = make_header(2, 1, 8, 11);
    let mut quarantine = Quarantine::new(1000);
    assert_eq!(quarantine.apply_header(c, Ok(false), 5), Admission::ParentWanted(c));
    let stored = Block { header: p, contents: vec![1, 2] };
    assert_eq!(
        quarantine.apply_header_with_parent(c, Ok(Some(stored)), 6),
        Ok(HeaderChainTriage::Quarantined(id(2)))
    );
    assert!(quarantine.ref_cache().contains(id(2)));
    assert!(!quarantine.ref_cache().contains(id(1)));
    assert_eq!(quarantine.ref_cache().next_expiry(), Some(1006));
}

#[test]
fn a_stored_parent_that_does_not_link_rejects() {
    let p = make_header(1, 0, 7, 10);
    let mut quarantine = Quarantine::new(1000);
    let stored = Block { header: p, contents: vec![] };
    assert_eq!(
        quarantine.apply_header_with_parent(make_header(2, 1, 9, 11), Ok(Some(stored.clone())), 6),
        Err(ErrorKind::BlockHeaderVerificationFailed(VerificationFailure::ChainLengthNotSuccessor))
    );
    assert_eq!(
        quarantine.apply_header_with_parent(make_header(2, 1, 8, 10), Ok(Some(stored)), 6),
        Err(ErrorKind::BlockHeaderVerificationFailed(VerificationFailure::DateNotAfterParent))
    );
    assert!(quarantine.ref_cache().is_empty());
}

#[test]
fn a_cached_block_serves_as_parent() {
    let p = make_header(1, 0, 7, 10);
    let c = make_header(2, 1, 8, 11);
    let mut quarantine =
        quarantine_holding(vec![Quarantined::Block(Block { header: p, contents: vec![5] })], 1000);
    assert_eq!(
        quarantine.apply_header(c, Ok(false), 1),
        Admission::Decided(Ok(HeaderChainTriage::Quarantined(id(2))))
    );
}

#[test]
fn triage_refreshes_the_cached_parent() {
    let p = make_header(1, 0, 0, 10);
    let mut quarantine = quarantine_holding(vec![Quarantined::Header(p)], 1000);
    let rejected = make_header(2, 1, 5, 11);
    assert!(matches!(
        quarantine.apply_header(rejected, Ok(false), 700),
        Admission::Decided(Err(_))
    ));
    let mut driver = PurgeDriver::new();
    assert_eq!(
        quarantine.step_purge(&mut driver, PurgeEvent::Woken(1000)),
        PurgeAction::SleepUntil(1700)
    );
    assert!(quarantine.ref_cache().contains(id(1)));
}

#[test]
fn get_header_resolves_cache_first() {
    let h = make_header(1, 0, 1, 1);
    let b = make_header(2, 1, 2, 2);
    let mut quarantine = quarantine_holding(
        vec![Quarantined::Header(h), Quarantined::Block(Block { header: b, contents: vec![1] })],
        1000,
    );
    assert_eq!(quarantine.get_header(id(1), 1), Resolution::Resolved(Some(h)));
    assert_eq!(quarantine.get_header(id(2), 1), Resolution::Resolved(Some(b)));
    assert_eq!(quarantine.get_header(id(3), 1), Resolution::AskStorage(id(3)));
    let stored = Block { header: make_header(3, 2, 3, 3), contents: vec![] };
    assert_eq!(header_from_storage(Ok(Some(stored))), Ok(Some(make_header(3, 2, 3, 3))));
    assert!(!quarantine.ref_cache().contains(id(3)));
}

#[test]
fn get_block_reports_a_cached_header_as_no_block() {
    let h = make_header(1, 0, 1, 1);
    let block = Block { header: make_header(2, 1, 2, 2), contents: vec![4, 5] };
    let mut quarantine =
        quarantine_holding(vec![Quarantined::Header(h), Quarantined::Block(block.clone())], 1000);
    assert_eq!(quarantine.get_block(id(1), 1), Resolution::Resolved(None));
    assert_eq!(quarantine.get_block(id(2), 1), Resolution::Resolved(Some(block.clone())));
    assert_eq!(quarantine.get_block(id(3), 1), Resolution::AskStorage(id(3)));
    assert_eq!(block_from_storage(Ok(Some(block.clone()))), Ok(Some(block)));
    assert_eq!(block_from_storage(Ok(None)), Ok(None));
}

#[test]
fn lookups_refresh_the_entry_they_hit() {
    let h = make_header(1, 0, 1, 1);
    let mut quarantine = quarantine_holding(vec![Quarantined::Header(h)], 1000);
    assert_eq!(quarantine.get_block(id(1), 400), Resolution::Resolved(None));
    assert_eq!(quarantine.ref_cache().next_expiry(), Some(1400));
    assert_eq!(quarantine.get_header(id(1), 900), Resolution::Resolved(Some(h)));
    assert_eq!(quarantine.ref_cache().next_expiry(), Some(1900));
    assert_eq!(quarantine.get_header(id(9), 950), Resolution::AskStorage(id(9)));
    assert_eq!(quarantine.ref_cache().next_expiry(), Some(1900));
}

#[test]
fn every_failure_has_its_words() {
    assert_eq!(VerificationFailure::DateNotAfterParent.reason(), "date not strictly after parent");
    assert_eq!(VerificationFailure::ChainLengthNotSuccessor.reason(), "chain length not strictly +1");
    assert_eq!(VerificationFailure::Signature.reason(), "signature");
}

#[test]
fn a_chain_of_headers_is_admitted_link_by_link() {
    let mut quarantine = quarantine_holding(vec![Quarantined::Header(make_header(0, 255, 0, 0))], 1000);
    for n in 1..20u8 {
        let next = make_header(n, n - 1, n as u64, n as u32);
        assert_eq!(
            quarantine.apply_header(next, Ok(false), n as u64),
            Admission::Decided(Ok(HeaderChainTriage::Quarantined(id(n))))
        );
    }
    assert_eq!(quarantine.ref_cache().len(), 20);
}
