//! The staging area for headers whose parent is known but whose block has
//! not been committed, and the triage that admits headers into it.

//!
//! The block store is not part of this library. Whoever drives the
//! quarantine asks the store and hands its answers in: whether a block
//! exists, and the block stored under an identifier. Each operation says
//! when the store is to be asked, so that a caller asks it no more often than
//! the operation needs.

use vstd::prelude::*;
use crate::blockcfg::{Block, BlockView, Header, HeaderHash};
use crate::purge::{PurgeAction, PurgeDriver, PurgeEvent};
use crate::reference_cache::{Cached, RefCache, unexpired};

verus! {

/// What the staging area holds under a block identifier.
#[derive(Debug, PartialEq, Eq)]
pub enum Quarantined {
    /// A header that passed the linkage checks; the block itself is not held.
    Header(Header),
    /// A full block held in memory.
    Block(Block),
}

/// What a [`Quarantined`] entry holds, as mathematical values.
pub enum QuarantinedView {
    Header(Header),
    Block(BlockView),
}

impl QuarantinedView {
    /// The header of the entry, whichever shape it has.
    pub open spec fn header(self) -> Header {
        match self {
            QuarantinedView::Header(header) => header,
            QuarantinedView::Block(block) => block.header,
        }
    }
}

impl View for Quarantined {
    type V = QuarantinedView;

    open spec fn view(&self) -> QuarantinedView {
        match self {
            Quarantined::Header(header) => QuarantinedView::Header(*header),
            Quarantined::Block(block) => QuarantinedView::Block(block@),
        }
    }
}

impl Clone for Quarantined {
    fn clone(&self) -> (r: Self)
        ensures
            r@ == self@,
    {
        match self {
            Quarantined::Header(header) => Quarantined::Header(*header),
            Quarantined::Block(block) => Quarantined::Block(block.clone()),
        }
    }
}

impl Quarantined {
    /// The header of the entry, whichever shape it has.
    pub fn header(&self) -> (r: Header)
        ensures
            r == self@.header(),
    {
        match self {
            Quarantined::Header(header) => *header,
            Quarantined::Block(block) => block.header(),
        }
    }
}

/// A failure of the block store, as its caller saw it.
#[derive(Clone, Debug, PartialEq, Eq)]
pub struct StorageFailure {
    pub message: String,
}

/// Why a header is not a valid successor of its parent.
#[derive(Clone, Copy, Debug, PartialEq, Eq, Structural)]
pub enum VerificationFailure {
    /// The header's date is not strictly after its parent's.
    DateNotAfterParent,
    /// The header's chain length is not its parent's plus one.
    ChainLengthNotSuccessor,
    /// The header's signature does not verify.
    Signature,
}

impl VerificationFailure {
    /// The failure in words.
    pub fn reason(&self) -> (r: &'static str)
        ensures
            r@ == match *self {
                VerificationFailure::DateNotAfterParent => "date not strictly after parent"@,
                VerificationFailure::ChainLengthNotSuccessor => "chain length not strictly +1"@,
                VerificationFailure::Signature => "signature"@,
            },
    {
        match self {
            VerificationFailure::DateNotAfterParent => "date not strictly after parent",
            VerificationFailure::ChainLengthNotSuccessor => "chain length not strictly +1",
            VerificationFailure::Signature => "signature",
        }
    }
}

/// What can go wrong in the quarantine and around it.
#[derive(Clone, Debug, PartialEq, Eq)]
pub enum ErrorKind {
    /// The block store failed; the failure is passed on as it came.
    Storage(StorageFailure),
    /// The parent of the header is neither cached nor stored.
    MissingParentBlockFromStorage(Header),
    /// The header is not a valid successor of its parent.
    BlockHeaderVerificationFailed(VerificationFailure),
    /// The timer that paces the purge failed.
    Timer,
}

/// The verdict on a header that was not rejected.
#[derive(Clone, Copy, Debug, PartialEq, Eq)]
pub enum HeaderChainTriage {
    /// The block store already holds the block.
    AlreadyPresent,
    /// The header has been admitted under this identifier.
    Quarantined(HeaderHash),
}

/// What the cache knows of an identifier.
#[derive(Debug, PartialEq, Eq)]
pub enum Resolution<T> {
    /// The cache holds an entry, and this is the answer it gives.
    Resolved(Option<T>),
    /// The cache holds nothing under this identifier: the block store decides.
    AskStorage(HeaderHash),
}

/// Where the triage of one header stands.
#[derive(Debug, PartialEq, Eq)]
pub enum Admission {
    /// The triage is over, with this verdict.
    Decided(Result<HeaderChainTriage, ErrorKind>),
    /// The parent of this header is not cached: the block store is to be
    /// asked for it, and [`Quarantine::apply_header_with_parent`] goes on
    /// from its answer.
    ParentWanted(Header),
}

/// `header` is a valid successor of `parent`: one longer, and strictly later.
pub open spec fn linked(header: Header, parent: Header) -> bool {
    parent.chain_length + 1 == header.chain_length && parent.block_date.precedes(
        header.block_date,
    )
}

/// The outcome of checking `header` against `parent`. The date is checked
/// first.
pub open spec fn linkage(header: Header, parent: Header) -> Result<(), VerificationFailure> {
    if !parent.block_date.precedes(header.block_date) {
        Err(VerificationFailure::DateNotAfterParent)
    } else if header.chain_length != parent.chain_length + 1 {
        Err(VerificationFailure::ChainLengthNotSuccessor)
    } else {
        Ok(())
    }
}

/// The verdict on a header that the block store does not hold, given the
/// header of its parent if one was found.
pub open spec fn verdict(header: Header, parent: Option<Header>) -> Result<
    HeaderChainTriage,
    ErrorKind,
> {
    match parent {
        None => Err(ErrorKind::MissingParentBlockFromStorage(header)),
        Some(parent) => match linkage(header, parent) {
            Err(failure) => Err(ErrorKind::BlockHeaderVerificationFailed(failure)),
            Ok(()) => Ok(HeaderChainTriage::Quarantined(header.hash)),
        },
    }
}

/// The block that a lookup yields, given what the cache holds under the
/// identifier and what the block store holds. A cached header hides the
/// store: the block is then reported as not held.
pub open spec fn resolve_block(cached: Option<QuarantinedView>, stored: Option<BlockView>) -> Option<
    BlockView,
> {
    match cached {
        Some(QuarantinedView::Header(_)) => None,
        Some(QuarantinedView::Block(block)) => Some(block),
        None => stored,
    }
}

/// The header that a lookup yields, given what the cache holds under the
/// identifier and what the block store holds.
pub open spec fn resolve_header(cached: Option<QuarantinedView>, stored: Option<BlockView>) -> Option<
    Header,
> {
    match cached {
        Some(entry) => Some(entry.header()),
        None => match stored {
            Some(block) => Some(block.header),
            None => None,
        },
    }
}

/// `m` after a header has been placed in it at `now` under its own
/// identifier.
pub open spec fn with_header(m: Map<HeaderHash, Cached>, header: Header, now: u64) -> Map<
    HeaderHash,
    Cached,
> {
    m.insert(header.hash, Cached { value: QuarantinedView::Header(header), touched: now })
}

/// `m` after the entry under `key` has been touched at `now`.
pub open spec fn with_touch(m: Map<HeaderHash, Cached>, key: HeaderHash, now: u64) -> Map<
    HeaderHash,
    Cached,
> {
    m.insert(key, Cached { value: m[key].value, touched: now })
}

/// The header of the block that the store found, if it found one.
pub open spec fn stored_header(found: Option<Block>) -> Option<Header> {
    match found {
        Some(block) => Some(block.header),
        None => None,
    }
}

/// Where the triage of `header` stands once the cache `m` has been
/// consulted, given the store's answer to whether it holds the block.
pub open spec fn triage(
    m: Map<HeaderHash, Cached>,
    header: Header,
    exists: Result<bool, StorageFailure>,
) -> Admission {
    match exists {
        Err(failure) => Admission::Decided(Err(ErrorKind::Storage(failure))),
        Ok(true) => Admission::Decided(Ok(HeaderChainTriage::AlreadyPresent)),
        Ok(false) => if m.contains_key(header.parent_hash) {
            Admission::Decided(verdict(header, Some(m[header.parent_hash].value.header())))
        } else {
            Admission::ParentWanted(header)
        },
    }
}

/// The cache after that step of the triage: unchanged unless the store
/// does not hold the block and the parent is cached; then the parent is
/// touched, and the header inserted if it is a valid successor.
pub open spec fn triage_cache(
    m: Map<HeaderHash, Cached>,
    header: Header,
    exists: Result<bool, StorageFailure>,
    now: u64,
) -> Map<HeaderHash, Cached> {
    if exists == Ok::<bool, StorageFailure>(false) && m.contains_key(header.parent_hash) {
        let touched = with_touch(m, header.parent_hash, now);
        if linked(header, m[header.parent_hash].value.header()) {
            with_header(touched, header, now)
        } else {
            touched
        }
    } else {
        m
    }
}

/// The verdict on `header` given the store's answer to the lookup of its
/// parent.
pub open spec fn triage_with_parent(
    header: Header,
    parent: Result<Option<Block>, StorageFailure>,
) -> Result<HeaderChainTriage, ErrorKind> {
    match parent {
        Err(failure) => Err(ErrorKind::Storage(failure)),
        Ok(found) => verdict(header, stored_header(found)),
    }
}

/// Linkage soundness: a header is admitted only against a parent that is
/// one shorter and strictly earlier, and under its own identifier.
pub proof fn lemma_linkage_soundness(header: Header, parent: Option<Header>, id: HeaderHash)
    requires
        verdict(header, parent) == Ok::<HeaderChainTriage, ErrorKind>(
            HeaderChainTriage::Quarantined(id),
        ),
    ensures
        id == header.hash,
        parent is Some,
        parent->0.chain_length + 1 == header.chain_length,
        parent->0.block_date.precedes(header.block_date),
{
}

/// Storage authority: unless the cache holds a bare header under the
/// identifier, a lookup yields a block exactly when the block store holds
/// one or the cache holds a full block.
pub proof fn lemma_storage_authority(cached: Option<QuarantinedView>, stored: Option<BlockView>)
    requires
        !(cached matches Some(QuarantinedView::Header(_))),
    ensures
        resolve_block(cached, stored) is Some <==> stored is Some || cached matches Some(
            QuarantinedView::Block(_),
        ),
{
}

/// The signature slot of the triage. Headers carry no signature data, so
/// there is nothing to verify and every header passes; a check placed here
/// rejects with [`VerificationFailure::Signature`].
fn check_signature(header: &Header) -> (r: Result<(), VerificationFailure>)
    ensures
        r is Ok,
{
    Ok(())
}

fn check_linkage(header: &Header, parent: &Header) -> (r: Result<(), VerificationFailure>)
    ensures
        r == linkage(*header, *parent),
{
    if !parent.block_date.is_before(&header.block_date) {
        Err(VerificationFailure::DateNotAfterParent)
    } else if parent.chain_length == u64::MAX || header.chain_length != parent.chain_length + 1 {
        Err(VerificationFailure::ChainLengthNotSuccessor)
    } else {
        Ok(())
    }
}

/// Turns the block store's answer to a lookup into the header found.
pub fn header_from_storage(reply: Result<Option<Block>, StorageFailure>) -> (r: Result<
    Option<Header>,
    ErrorKind,
>)
    ensures
        r == match reply {
            Ok(Some(block)) => Ok::<Option<Header>, ErrorKind>(Some(block.header)),
            Ok(None) => Ok(None),
            Err(failure) => Err(ErrorKind::Storage(failure)),
        },
{
    match reply {
        Ok(Some(block)) => Ok(Some(block.header())),
        Ok(None) => Ok(None),
        Err(failure) => Err(ErrorKind::Storage(failure)),
    }
}

/// Turns the block store's answer to a lookup into the block found.
pub fn block_from_storage(reply: Result<Option<Block>, StorageFailure>) -> (r: Result<
    Option<Block>,
    ErrorKind,
>)
    ensures
        r == match reply {
            Ok(found) => Ok::<Option<Block>, ErrorKind>(found),
            Err(failure) => Err(ErrorKind::Storage(failure)),
        },
{
    match reply {
        Ok(found) => Ok(found),
        Err(failure) => Err(ErrorKind::Storage(failure)),
    }
}

/// The staging area: a reference cache of headers and blocks that are
/// known but not committed.
pub struct Quarantine {
    ref_cache: RefCache,
}

impl View for Quarantine {
    type V = Map<HeaderHash, Cached>;

    closed spec fn view(&self) -> Map<HeaderHash, Cached> {
        self.ref_cache@
    }
}

impl Quarantine {
    /// The time-to-live of the cache.
    pub closed spec fn ttl(&self) -> u64 {
        self.ref_cache.ttl()
    }

    /// Creates a quarantine with an empty cache whose entries live
    /// `ref_cache_ttl` past their last touch.
    pub fn new(ref_cache_ttl: u64) -> (r: Self)
        ensures
            r@ == Map::<HeaderHash, Cached>::empty(),
            r.ttl() == ref_cache_ttl,
    {
        Quarantine { ref_cache: RefCache::new(ref_cache_ttl) }
    }

    /// Creates a quarantine around a cache that already holds entries.
    pub fn with_cache(ref_cache: RefCache) -> (r: Self)
        ensures
            r@ == ref_cache@,
            r.ttl() == ref_cache.ttl(),
    {
        Quarantine { ref_cache }
    }

    /// The cache of the quarantine.
    pub fn ref_cache(&self) -> (r: &RefCache)
        ensures
            r@ == self@,
            r.ttl() == self.ttl(),
    {
        &self.ref_cache
    }

    /// Looks up the header of `header_hash` in the cache. A cached header
    /// is the answer, and so is the header of a cached block; either hit
    /// touches the entry at `now`. On a miss the cache stays as it is and
    /// the block store is to be asked: [`header_from_storage`] turns its
    /// answer into the result, and the cache is not filled from it.
    pub fn get_header(&mut self, header_hash: HeaderHash, now: u64) -> (r: Resolution<Header>)
        ensures
            final(self).ttl() == old(self).ttl(),
            old(self)@.contains_key(header_hash) ==> {
                &&& r == Resolution::Resolved(
                    resolve_header(Some(old(self)@[header_hash].value), None),
                )
                &&& final(self)@ == with_touch(old(self)@, header_hash, now)
            },
            !old(self)@.contains_key(header_hash) ==> {
                &&& r == Resolution::<Header>::AskStorage(header_hash)
                &&& final(self)@ == old(self)@
            },
    {
        match self.ref_cache.get(header_hash, now) {
            Some(entry) => Resolution::Resolved(Some(entry.header())),
            None => Resolution::AskStorage(header_hash),
        }
    }

    /// Looks up the block of `header_hash` in the cache. A cached block is
    /// the answer; a cached header means that the block is not held, and the
    /// answer is `None`; either hit touches the entry at `now`. On a miss
    /// the cache stays as it is and the block store is to be asked:
    /// [`block_from_storage`] turns its answer into the result.
    pub fn get_block(&mut self, header_hash: HeaderHash, now: u64) -> (r: Resolution<Block>)
        ensures
            final(self).ttl() == old(self).ttl(),
            old(self)@.contains_key(header_hash) ==> {
                &&& r matches Resolution::Resolved(found)
                &&& match found {
                    Some(block) => resolve_block(Some(old(self)@[header_hash].value), None)
                        == Some(block@),
                    None => resolve_block(Some(old(self)@[header_hash].value), None) is None,
                }
                &&& final(self)@ == with_touch(old(self)@, header_hash, now)
            },
            !old(self)@.contains_key(header_hash) ==> {
                &&& r == Resolution::<Block>::AskStorage(header_hash)
                &&& final(self)@ == old(self)@
            },
    {
        match self.ref_cache.get(header_hash, now) {
            Some(Quarantined::Header(_)) => Resolution::Resolved(None),
            Some(Quarantined::Block(block)) => Resolution::Resolved(Some(block)),
            None => Resolution::AskStorage(header_hash),
        }
    }

    /// Triages `header`, given in `exists` the block store's answer to
    /// whether it holds a block under `header.hash`.
    ///
    /// A failure of the store is passed on. A block that the store holds is
    /// `AlreadyPresent`. In both cases the cache is left as it is. Otherwise
    /// the parent is looked up in the cache under `header.parent_hash`. On
    /// a hit the parent's entry is touched at `now` and the header checked
    /// against it: a valid successor is inserted under its own identifier
    /// at `now` and reported as `Quarantined`, any other is rejected. On a
    /// miss the cache is left as it is and the parent is wanted from the
    /// store.
    pub fn apply_header(
        &mut self,
        header: Header,
        exists: Result<bool, StorageFailure>,
        now: u64,
    ) -> (r: Admission)
        ensures
            final(self).ttl() == old(self).ttl(),
            r == triage(old(self)@, header, exists),
            final(self)@ == triage_cache(old(self)@, header, exists, now),
            exists == Ok::<bool, StorageFailure>(true) ==> {
                &&& r == Admission::Decided(Ok(HeaderChainTriage::AlreadyPresent))
                &&& final(self)@ == old(self)@
            },
            r matches Admission::Decided(Ok(HeaderChainTriage::Quarantined(id))) ==> {
                &&& id == header.hash
                &&& old(self)@.contains_key(header.parent_hash)
                &&& linked(header, old(self)@[header.parent_hash].value.header())
            },
    {
        if let Err(failure) = check_signature(&header) {
            return Admission::Decided(Err(ErrorKind::BlockHeaderVerificationFailed(failure)));
        }
        match exists {
            Err(failure) => Admission::Decided(Err(ErrorKind::Storage(failure))),
            Ok(true) => Admission::Decided(Ok(HeaderChainTriage::AlreadyPresent)),
            Ok(false) => match self.ref_cache.get(header.parent_hash, now) {
                Some(entry) => Admission::Decided(self.link(header, entry.header(), now)),
                None => Admission::ParentWanted(header),
            },
        }
    }

    /// Goes on with the triage of `header` from the block store's answer to
    /// the lookup of its parent.
    ///
    /// A failure of the store is passed on, and a parent that the store
    /// does not hold is `MissingParentBlockFromStorage`. Otherwise the
    /// header is checked against the stored parent's header: a valid
    /// successor is inserted under its own identifier at `now` and reported
    /// as `Quarantined`, any other is rejected. The parent itself is not
    /// cached, and but for the insertion the cache is left as it is.
    pub fn apply_header_with_parent(
        &mut self,
        header: Header,
        parent: Result<Option<Block>, StorageFailure>,
        now: u64,
    ) -> (r: Result<HeaderChainTriage, ErrorKind>)
        ensures
            final(self).ttl() == old(self).ttl(),
            r == triage_with_parent(header, parent),
            r is Ok ==> final(self)@ == with_header(old(self)@, header, now),
            r is Err ==> final(self)@ == old(self)@,
            r matches Ok(HeaderChainTriage::Quarantined(id)) ==> {
                &&& id == header.hash
                &&& parent matches Ok(Some(block))
                &&& linked(header, block.header)
            },
    {
        match parent {
            Err(failure) => Err(ErrorKind::Storage(failure)),
            Ok(None) => Err(ErrorKind::MissingParentBlockFromStorage(header)),
            Ok(Some(block)) => self.link(header, block.header(), now),
        }
    }

    /// Checks `header` against `parent` and inserts it if it is a valid
    /// successor.
    fn link(&mut self, header: Header, parent: Header, now: u64) -> (r: Result<
        HeaderChainTriage,
        ErrorKind,
    >)
        ensures
            final(self).ttl() == old(self).ttl(),
            r == verdict(header, Some(parent)),
            r is Ok <==> linked(header, parent),
            r is Ok ==> final(self)@ == with_header(old(self)@, header, now),
            r is Err ==> final(self)@ == old(self)@,
    {
        match check_linkage(&header, &parent) {
            Err(failure) => Err(ErrorKind::BlockHeaderVerificationFailed(failure)),
            Ok(()) => {
                let block_id = header.hash();
                self.ref_cache.insert(block_id, Quarantined::Header(header), now);
                Ok(HeaderChainTriage::Quarantined(block_id))
            },
        }
    }

    /// Hands `event` to the purge driver, which purges this quarantine's
    /// cache when the event calls for it. See [`PurgeDriver::step`].
    pub fn step_purge(&mut self, driver: &mut PurgeDriver, event: PurgeEvent) -> (r: PurgeAction)
        ensures
            final(self).ttl() == old(self).ttl(),
            final(driver).is_stopped() == (old(driver).is_stopped() || event is Cancelled),
            final(self)@ == match event {
                PurgeEvent::Woken(now) if !old(driver).is_stopped() => unexpired(
                    old(self)@,
                    old(self).ttl(),
                    now,
                ),
                _ => old(self)@,
            },
            r == crate::purge::next_action(
                old(driver).is_stopped(),
                event,
                final(self)@,
                final(self).ttl(),
            ),
    {
        driver.step(&mut self.ref_cache, event)
    }
}

} // verus!
