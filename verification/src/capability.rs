//! The capability contracts: orthogonal behavioural interfaces a storage
//! driver implements for exactly the operations its hardware supports.
//!
//! Every contract is stated over a spec-level model of the device that the
//! implementer supplies: which addresses are valid, which word is committed
//! at each of them, which cells are in the erased state, and how many
//! `WouldBlock` answers a poll can still produce. The model ties the
//! capabilities together: a completed write is visible to a later read
//! because both speak of the same committed contents.

use vstd::prelude::*;

use crate::address::{wrap, AddrUint, Address, AddressOffset, Page};
use crate::nonblock::NbResult;

verus! {

/// The word-independent part of a device's spec-level model, for a device
/// addressed with the width `U`.
pub trait StorageModel<U: AddrUint>: Sized {
    /// Well-formedness; established by construction and preserved by every
    /// operation.
    spec fn inv(&self) -> bool;

    /// Whether `addr` lies in the device's valid address set.
    spec fn valid_addr(&self, addr: int) -> bool;

    /// Whether the cell at `addr` is currently in the erased state.
    spec fn erased_at(&self, addr: int) -> bool;

    /// An upper bound on the `WouldBlock` answers still owed for work
    /// already in progress; `0` means the device is idle.
    spec fn poll_budget(&self) -> nat;

    /// An upper bound on the `WouldBlock` answers any single newly
    /// initiated operation may cost before it is complete.
    spec fn start_budget(&self) -> nat;

    /// Obligation on the implementer: every valid address is representable
    /// in the address width, so in-range address arithmetic never wraps.
    proof fn valid_addr_fits_width(&self, addr: int)
        requires
            self.inv(),
            self.valid_addr(addr),
        ensures
            0 <= addr < U::modulus(),
    ;
}

/// The word-level part of a device's spec-level model.
pub trait WordModel<Word, U: AddrUint>: StorageModel<U> {
    /// The word most recently committed at `addr`.
    spec fn word_at(&self, addr: int) -> Word;

    /// The erased polarity: the word an erased cell reads as.
    spec fn erased_word() -> Word;

    /// The word that ends up committed when `w` is programmed over a cell
    /// currently holding `prev`. RAM- and EEPROM-like devices overwrite
    /// (`programmed(prev, w) == w`); Flash-like devices can only clear bits.
    spec fn programmed(prev: Word, w: Word) -> Word;

    /// Obligation on the implementer: an erased cell reads as the erased
    /// polarity.
    proof fn erased_cell_reads_polarity(&self, addr: int)
        requires
            self.inv(),
            self.valid_addr(addr),
            self.erased_at(addr),
        ensures
            self.word_at(addr) == Self::erased_word(),
    ;
}

/// The committed state of `d1` is that of `d0`: same valid address set,
/// same committed words, same erased cells, same per-operation poll bound.
/// Operations that transfer nothing (reads, polls, introspection) promise
/// this of the device they leave behind.
pub open spec fn same_contents<Word, U: AddrUint, D: WordModel<Word, U>>(d0: D, d1: D) -> bool {
    &&& forall|a: int|
        #![trigger d1.valid_addr(a)]
        #![trigger d0.valid_addr(a)]
        d1.valid_addr(a) <==> d0.valid_addr(a)
    &&& forall|a: int|
        #![trigger d1.word_at(a)]
        #![trigger d0.word_at(a)]
        d0.valid_addr(a) ==> d1.word_at(a) == d0.word_at(a)
    &&& forall|a: int|
        #![trigger d1.erased_at(a)]
        #![trigger d0.erased_at(a)]
        d1.erased_at(a) <==> d0.erased_at(a)
    &&& d1.start_budget() == d0.start_budget()
}

/// The committed state of `d1` is that of `d0` except that the words at
/// `addrs` have been reprogrammed; cells outside `addrs` keep their erased
/// state too. A completed write promises this for the addresses it touched.
pub open spec fn contents_changed_only_at<Word, U: AddrUint, D: WordModel<Word, U>>(
    d0: D,
    d1: D,
    addrs: Set<int>,
) -> bool {
    &&& forall|a: int|
        #![trigger d1.valid_addr(a)]
        #![trigger d0.valid_addr(a)]
        d1.valid_addr(a) <==> d0.valid_addr(a)
    &&& forall|a: int|
        #![trigger d1.word_at(a)]
        #![trigger d0.word_at(a)]
        d0.valid_addr(a) && !addrs.contains(a) ==> d1.word_at(a) == d0.word_at(a)
    &&& forall|a: int|
        #![trigger d1.erased_at(a)]
        #![trigger d0.erased_at(a)]
        !addrs.contains(a) ==> (d1.erased_at(a) <==> d0.erased_at(a))
    &&& d1.start_budget() == d0.start_budget()
}

/// Read a single word from the device.
///
/// `Word` allows any word size to be used.
pub trait SingleRead<Word, U: AddrUint>: WordModel<Word, U> {
    /// An enumeration of storage errors.
    type Error;

    /// Reads the word stored at the address.
    ///
    /// A completed read returns the word most recently committed at the
    /// address and alters no committed state; a busy device answers
    /// `WouldBlock` at most `poll_budget()` times in a row and an idle
    /// device answers in bounded time.
    fn try_read(&mut self, address: Address<U>) -> (r: NbResult<Word, Self::Error>)
        requires
            old(self).inv(),
        ensures
            final(self).inv(),
            same_contents::<Word, U, Self>(*old(self), *final(self)),
            r is Ready ==> old(self).valid_addr(address.0.value()) && r->Ready_0 == old(
                self,
            ).word_at(address.0.value()),
            r is WouldBlock ==> final(self).poll_budget() < old(self).poll_budget(),
            old(self).poll_budget() == 0 ==> !(r is WouldBlock),
            !(r is WouldBlock) ==> final(self).poll_budget() == 0,
    ;
}

/// Write a single word to the device.
///
/// `Word` allows any word size to be used.
pub trait SingleWrite<Word, U: AddrUint>: WordModel<Word, U> {
    /// An enumeration of storage errors.
    type Error;

    /// Writes the word to the address.
    ///
    /// On completion the committed word at the address is
    /// `programmed(previous, word)` — an overwrite on RAM-like devices, a
    /// bit-clearing program on Flash-like ones — and no other cell changes.
    fn try_write(&mut self, address: Address<U>, word: Word) -> (r: NbResult<
        (),
        Self::Error,
    >)
        requires
            old(self).inv(),
        ensures
            final(self).inv(),
            r is Ready ==> old(self).valid_addr(address.0.value())
                && contents_changed_only_at::<Word, U, Self>(
                *old(self),
                *final(self),
                Set::empty().insert(address.0.value()),
            ) && final(self).word_at(address.0.value()) == Self::programmed(
                old(self).word_at(address.0.value()),
                word,
            ),
            !(r is Ready) ==> same_contents::<Word, U, Self>(*old(self), *final(self)),
            r is WouldBlock ==> final(self).poll_budget() < old(self).poll_budget(),
            old(self).poll_budget() == 0 ==> !(r is WouldBlock),
            !(r is WouldBlock) ==> final(self).poll_budget() == 0,
    ;
}

/// Read multiple words from the device.
///
/// Intended for devices with an optimised bulk transfer; iterating single
/// reads is a valid way to implement it.
pub trait MultiRead<Word, U: AddrUint>: WordModel<Word, U> {
    /// An enumeration of storage errors.
    type Error;

    /// Reads the words stored from the address onward until the buffer is
    /// full.
    ///
    /// On completion `buf[i]` holds the word committed at `address + i` for
    /// every `i`, exactly what single reads at those addresses return.
    fn try_read_slice(&mut self, address: Address<U>, buf: &mut [Word]) -> (r: NbResult<
        (),
        Self::Error,
    >)
        requires
            old(self).inv(),
        ensures
            final(self).inv(),
            same_contents::<Word, U, Self>(*old(self), *final(self)),
            final(buf)@.len() == old(buf)@.len(),
            r is Ready ==> forall|i: int|
                0 <= i < old(buf)@.len() ==> old(self).valid_addr(address.0.value() + i)
                    && #[trigger] final(buf)@[i] == old(self).word_at(address.0.value() + i),
            r is WouldBlock ==> final(buf)@ == old(buf)@ && final(self).poll_budget() < old(
                self,
            ).poll_budget(),
            old(self).poll_budget() == 0 ==> !(r is WouldBlock),
            !(r is WouldBlock) ==> final(self).poll_budget() == 0,
    ;
}

/// Write multiple words to the device.
///
/// The buffer is mutable because some bus implementations clobber the
/// transmit buffer; callers must assume its contents are invalidated. The
/// contract therefore speaks of the buffer as it was before the call.
pub trait MultiWrite<Word, U: AddrUint>: WordModel<Word, U> {
    /// An enumeration of storage errors.
    type Error;

    /// Writes the buffer to the address.
    ///
    /// On completion the committed word at `address + i` is
    /// `programmed(previous, b[i])` where `b` is the buffer before the
    /// call, and no cell outside `[address, address + b.len())` changes.
    fn try_write_slice(&mut self, address: Address<U>, buf: &mut [Word]) -> (r: NbResult<
        (),
        Self::Error,
    >)
        requires
            old(self).inv(),
        ensures
            final(self).inv(),
            final(buf)@.len() == old(buf)@.len(),
            r is Ready ==> contents_changed_only_at::<Word, U, Self>(
                *old(self),
                *final(self),
                Set::new(
                    |a: int| address.0.value() <= a < address.0.value() + old(buf)@.len(),
                ),
            ) && forall|i: int|
                0 <= i < old(buf)@.len() ==> old(self).valid_addr(address.0.value() + i)
                    && #[trigger] final(self).word_at(address.0.value() + i) == Self::programmed(
                    old(self).word_at(address.0.value() + i),
                    old(buf)@[i],
                ),
            !(r is Ready) ==> same_contents::<Word, U, Self>(*old(self), *final(self)),
            r is WouldBlock ==> final(self).poll_budget() < old(self).poll_budget(),
            old(self).poll_budget() == 0 ==> !(r is WouldBlock),
            !(r is WouldBlock) ==> final(self).poll_budget() == 0,
    ;
}

/// Erase pages of the device.
///
/// For Flash storage the write capabilities cannot set a bit back to the
/// erased polarity; erasing a page is the only way. For non-Flash devices
/// the same contract may be fulfilled by writing a device-recommended
/// value, with the polarity documented per device.
pub trait ErasePage<U: AddrUint>: StorageModel<U> {
    /// An enumeration of storage errors.
    type Error;

    /// First valid address of the page with this zero-based index.
    spec fn page_start(&self, page: int) -> int;

    /// Number of words in the page with this zero-based index.
    spec fn page_len(&self, page: int) -> nat;

    /// Whether the device has a page with this zero-based index.
    spec fn valid_page(&self, page: int) -> bool;

    /// Obligation on the implementer: every cell of a valid page is a
    /// valid address of the device.
    proof fn valid_page_in_range(&self, page: int, addr: int)
        requires
            self.inv(),
            self.valid_page(page),
            self.page_start(page) <= addr < self.page_start(page) + self.page_len(page),
        ensures
            self.valid_addr(addr),
    ;

    /// Erase the page of memory with the given index.
    ///
    /// On completion every cell of the page is in the erased state, cells
    /// already erased stay erased, and no cell outside the page changes its
    /// erased state. A `WouldBlock` answer either consumes poll budget or
    /// is the one initiation from an idle device, which commits the erase
    /// and owes at most `start_budget()` further polls; an idle device
    /// whose page is already erased may not block at all. Together these
    /// clauses let `poll_erase_page` terminate for every implementation.
    fn try_erase_page(&mut self, page: Page<U>) -> (r: NbResult<(), Self::Error>)
        requires
            old(self).inv(),
        ensures
            final(self).inv(),
            final(self).start_budget() == old(self).start_budget(),
            forall|a: int|
                #![trigger final(self).valid_addr(a)]
                #![trigger old(self).valid_addr(a)]
                final(self).valid_addr(a) <==> old(self).valid_addr(a),
            forall|p: int|
                #![trigger final(self).valid_page(p)]
                #![trigger old(self).valid_page(p)]
                final(self).valid_page(p) <==> old(self).valid_page(p),
            forall|p: int|
                #![trigger final(self).page_start(p)]
                #![trigger old(self).page_start(p)]
                final(self).page_start(p) == old(self).page_start(p) && final(self).page_len(p)
                    == old(self).page_len(p),
            forall|a: int| old(self).erased_at(a) ==> #[trigger] final(self).erased_at(a),
            r is Ready ==> old(self).valid_page(page.0.value()) && forall|a: int|
                final(self).page_start(page.0.value()) <= a < final(self).page_start(
                    page.0.value(),
                ) + final(self).page_len(page.0.value()) ==> #[trigger] final(self).erased_at(a),
            r is Ready ==> forall|a: int|
                !(old(self).page_start(page.0.value()) <= a < old(self).page_start(
                    page.0.value(),
                ) + old(self).page_len(page.0.value())) ==> (#[trigger] final(self).erased_at(a)
                    <==> old(self).erased_at(a)),
            r is WouldBlock ==> final(self).poll_budget() < old(self).poll_budget() || (old(
                self,
            ).poll_budget() == 0 && final(self).poll_budget() <= old(self).start_budget() && old(
                self,
            ).valid_page(page.0.value()) && (forall|a: int|
                final(self).page_start(page.0.value()) <= a < final(self).page_start(
                    page.0.value(),
                ) + final(self).page_len(page.0.value()) ==> #[trigger] final(self).erased_at(a))),
            old(self).poll_budget() == 0 && old(self).valid_page(page.0.value()) && (forall|
                a: int,
            |
                old(self).page_start(page.0.value()) <= a < old(self).page_start(page.0.value())
                    + old(self).page_len(page.0.value()) ==> #[trigger] old(self).erased_at(a))
                ==> !(r is WouldBlock),
            !(r is WouldBlock) ==> final(self).poll_budget() == 0,
    ;

    /// Erase the page of memory that starts at the address.
    ///
    /// The only valid address is the start of a page; any other address is
    /// an error. Blocking and initiation behave as in `try_erase_page`,
    /// with the page identified by its start address.
    fn try_erase_address(&mut self, address: Address<U>) -> (r: NbResult<(), Self::Error>)
        requires
            old(self).inv(),
        ensures
            final(self).inv(),
            final(self).start_budget() == old(self).start_budget(),
            forall|a: int|
                #![trigger final(self).valid_addr(a)]
                #![trigger old(self).valid_addr(a)]
                final(self).valid_addr(a) <==> old(self).valid_addr(a),
            forall|p: int|
                #![trigger final(self).valid_page(p)]
                #![trigger old(self).valid_page(p)]
                final(self).valid_page(p) <==> old(self).valid_page(p),
            forall|p: int|
                #![trigger final(self).page_start(p)]
                #![trigger old(self).page_start(p)]
                final(self).page_start(p) == old(self).page_start(p) && final(self).page_len(p)
                    == old(self).page_len(p),
            forall|a: int| old(self).erased_at(a) ==> #[trigger] final(self).erased_at(a),
            r is Ready ==> exists|p: int|
                #![trigger old(self).page_start(p)]
                old(self).valid_page(p) && old(self).page_start(p) == address.0.value()
                    && forall|a: int|
                    final(self).page_start(p) <= a < final(self).page_start(p) + final(self).page_len(p) ==> #[trigger] final(self).erased_at(a),
            r is WouldBlock ==> final(self).poll_budget() < old(self).poll_budget() || (old(
                self,
            ).poll_budget() == 0 && final(self).poll_budget() <= old(self).start_budget()
                && exists|p: int|
                #![trigger old(self).page_start(p)]
                old(self).valid_page(p) && old(self).page_start(p) == address.0.value()
                    && forall|a: int|
                    final(self).page_start(p) <= a < final(self).page_start(p) + final(self).page_len(p) ==> #[trigger] final(self).erased_at(a)),
            old(self).poll_budget() == 0 && (exists|p: int|
                #![trigger old(self).page_start(p)]
                old(self).valid_page(p) && old(self).page_start(p) == address.0.value()
                    && forall|a: int|
                    old(self).page_start(p) <= a < old(self).page_start(p) + old(self).page_len(
                        p,
                    ) ==> #[trigger] old(self).erased_at(a)) ==> !(r is WouldBlock),
            !(r is WouldBlock) ==> final(self).poll_budget() == 0,
    ;
}

/// Every cell of the page with index `p` of device `d` is erased.
pub open spec fn page_erased<U: AddrUint, D: ErasePage<U>>(d: D, p: int) -> bool {
    forall|a: int|
        d.page_start(p) <= a < d.page_start(p) + d.page_len(p) ==> #[trigger] d.erased_at(a)
}

/// How many more `WouldBlock` answers a re-polled erase of page `p` can
/// produce: the budget still to drain, plus the one initiation if the page
/// still has cells to erase.
pub open spec fn erase_polls_allowed<U: AddrUint, D: ErasePage<U>>(d: D, p: int) -> nat {
    d.poll_budget() + if d.valid_page(p) && !page_erased::<U, D>(d, p) {
        d.start_budget() + 1
    } else {
        0
    }
}

/// Device geometry introspection: where the address space starts, how many
/// words it holds, and the erase granularity at an address. Lets callers
/// check that data fits before writing.
pub trait StorageSize<Word, U: AddrUint>: WordModel<Word, U> {
    /// An enumeration of storage errors.
    type Error;

    /// The lowest valid address of the device.
    spec fn start_addr(&self) -> int;

    /// The number of words the device holds.
    spec fn size_words(&self) -> nat;

    /// The number of words of the page containing `addr`; for non-paged
    /// devices, the total size.
    spec fn page_size_at(&self, addr: int) -> nat;

    /// Obligation on the implementer: the valid address set is exactly
    /// `[start_addr(), start_addr() + size_words())`.
    proof fn geometry_covers(&self, addr: int)
        requires
            self.inv(),
        ensures
            self.valid_addr(addr) <==> self.start_addr() <= addr < self.start_addr()
                + self.size_words(),
    ;

    /// Obligation on the implementer: pages tile the address range. Every
    /// valid address lies in a block of `page_size_at` words that stays
    /// inside the device and reports the same page size throughout.
    proof fn page_partition(&self, addr: int) -> (lo: int)
        requires
            self.inv(),
            self.valid_addr(addr),
        ensures
            self.page_size_at(addr) >= 1,
            lo <= addr < lo + self.page_size_at(addr),
            self.start_addr() <= lo,
            lo + self.page_size_at(addr) <= self.start_addr() + self.size_words(),
            forall|x: int|
                lo <= x < lo + self.page_size_at(addr) ==> #[trigger] self.page_size_at(x)
                    == self.page_size_at(addr),
    ;

    /// Returns the start address of the device.
    fn try_start_address(&mut self) -> (r: NbResult<Address<U>, Self::Error>)
        requires
            old(self).inv(),
        ensures
            final(self).inv(),
            same_contents::<Word, U, Self>(*old(self), *final(self)),
            final(self).start_addr() == old(self).start_addr(),
            final(self).size_words() == old(self).size_words(),
            r is Ready ==> (r->Ready_0).0.value() == old(self).start_addr(),
            final(self).poll_budget() <= old(self).poll_budget(),
            r is WouldBlock ==> final(self).poll_budget() < old(self).poll_budget(),
            old(self).poll_budget() == 0 ==> !(r is WouldBlock),
    ;

    /// Returns the maximum number of words that can be stored by the
    /// device.
    fn try_total_size(&mut self) -> (r: NbResult<AddressOffset<U>, Self::Error>)
        requires
            old(self).inv(),
        ensures
            final(self).inv(),
            same_contents::<Word, U, Self>(*old(self), *final(self)),
            final(self).start_addr() == old(self).start_addr(),
            final(self).size_words() == old(self).size_words(),
            r is Ready ==> (r->Ready_0).0.value() == old(self).size_words(),
            final(self).poll_budget() <= old(self).poll_budget(),
            r is WouldBlock ==> final(self).poll_budget() < old(self).poll_budget(),
            old(self).poll_budget() == 0 ==> !(r is WouldBlock),
    ;

    /// Returns the number of words of the page containing the address; for
    /// non-paged devices, the total size.
    fn try_page_size(&mut self, address: Address<U>) -> (r: NbResult<
        AddressOffset<U>,
        Self::Error,
    >)
        requires
            old(self).inv(),
        ensures
            final(self).inv(),
            same_contents::<Word, U, Self>(*old(self), *final(self)),
            final(self).start_addr() == old(self).start_addr(),
            final(self).size_words() == old(self).size_words(),
            r is Ready ==> old(self).valid_addr(address.0.value()) && (r->Ready_0).0.value()
                == old(self).page_size_at(address.0.value()),
            final(self).poll_budget() <= old(self).poll_budget(),
            r is WouldBlock ==> final(self).poll_budget() < old(self).poll_budget(),
            old(self).poll_budget() == 0 ==> !(r is WouldBlock),
    ;
}

/// WouldBlock liveness, for any conforming single-read driver: re-polling
/// `try_read` reaches `Ready` or an error in finitely many calls, because
/// every `WouldBlock` answer consumes poll budget and an idle device may
/// not block at all. The termination of this loop is proved from the
/// capability contract alone.
pub fn poll_read<Word, U: AddrUint, D: SingleRead<Word, U>>(device: &mut D, address: Address<U>)
    -> (r: Result<Word, D::Error>)
    requires
        old(device).inv(),
    ensures
        final(device).inv(),
        final(device).poll_budget() == 0,
        same_contents::<Word, U, D>(*old(device), *final(device)),
        r matches Ok(w) ==> old(device).valid_addr(address.0.value()) && w == old(
            device,
        ).word_at(address.0.value()),
{
    loop
        invariant
            device.inv(),
            same_contents::<Word, U, D>(*old(device), *device),
        decreases device.poll_budget(),
    {
        let outcome = device.try_read(Address(address.0));
        match outcome {
            NbResult::Ready(w) => {
                return Ok(w);
            },
            NbResult::Error(e) => {
                return Err(e);
            },
            NbResult::WouldBlock => {
            },
        }
    }
}

/// WouldBlock liveness, for any conforming single-write driver: re-polling
/// `try_write` reaches `Ready` or an error in finitely many calls, and a
/// completed write commits `programmed(previous, word)` at the address.
pub fn poll_write<Word: Copy, U: AddrUint, D: SingleWrite<Word, U>>(
    device: &mut D,
    address: Address<U>,
    word: Word,
) -> (r: Result<(), D::Error>)
    requires
        old(device).inv(),
    ensures
        final(device).inv(),
        final(device).poll_budget() == 0,
        r is Ok ==> old(device).valid_addr(address.0.value()) && contents_changed_only_at::<
            Word,
            U,
            D,
        >(*old(device), *final(device), Set::empty().insert(address.0.value())) && final(device).word_at(address.0.value()) == D::programmed(
            old(device).word_at(address.0.value()),
            word,
        ),
        r is Err ==> same_contents::<Word, U, D>(*old(device), *final(device)),
{
    loop
        invariant
            device.inv(),
            same_contents::<Word, U, D>(*old(device), *device),
        decreases device.poll_budget(),
    {
        let outcome = device.try_write(Address(address.0), word);
        match outcome {
            NbResult::Ready(u) => {
                return Ok(u);
            },
            NbResult::Error(e) => {
                return Err(e);
            },
            NbResult::WouldBlock => {
            },
        }
    }
}

/// WouldBlock liveness, for any conforming erase driver: re-polling
/// `try_erase_page` reaches `Ready` or an error in finitely many calls. A
/// blocked poll either drains budget or is the one initiation from idle,
/// which commits the erase, so `erase_polls_allowed` strictly decreases.
pub fn poll_erase_page<U: AddrUint, D: ErasePage<U>>(device: &mut D, page: Page<U>) -> (r: Result<
    (),
    D::Error,
>)
    requires
        old(device).inv(),
    ensures
        final(device).inv(),
        final(device).poll_budget() == 0,
        forall|a: int| old(device).erased_at(a) ==> #[trigger] final(device).erased_at(a),
        r is Ok ==> old(device).valid_page(page.0.value()) && page_erased::<U, D>(
            *final(device),
            page.0.value(),
        ),
{
    loop
        invariant
            device.inv(),
            device.start_budget() == old(device).start_budget(),
            forall|p: int|
                #![trigger device.valid_page(p)]
                #![trigger old(device).valid_page(p)]
                device.valid_page(p) <==> old(device).valid_page(p),
            forall|p: int|
                #![trigger device.page_start(p)]
                #![trigger old(device).page_start(p)]
                device.page_start(p) == old(device).page_start(p) && device.page_len(p) == old(
                    device,
                ).page_len(p),
            forall|a: int| old(device).erased_at(a) ==> #[trigger] device.erased_at(a),
        decreases erase_polls_allowed::<U, D>(*device, page.0.value()),
    {
        let ghost pre = *device;
        let outcome = device.try_erase_page(Page(page.0));
        match outcome {
            NbResult::Ready(u) => {
                return Ok(u);
            },
            NbResult::Error(e) => {
                return Err(e);
            },
            NbResult::WouldBlock => {
                proof {
                    if pre.poll_budget() == 0 {
                        assert(page_erased::<U, D>(*device, page.0.value()));
                    } else if page_erased::<U, D>(pre, page.0.value()) {
                        assert(page_erased::<U, D>(*device, page.0.value()));
                    }
                }
            },
        }
    }
}

/// In-range address arithmetic never wraps: whenever the mathematical sum
/// of an address and an offset is a valid address of the device, the
/// wrapping `Address::add` lands exactly there, because every valid
/// address fits the address width. This discharges the wrap case in the
/// universal properties that step from a valid address by an offset.
pub proof fn lemma_valid_target_does_not_wrap<U: AddrUint, D: StorageModel<U>>(
    d: D,
    a: Address<U>,
    o: AddressOffset<U>,
)
    requires
        d.inv(),
        d.valid_addr(a.0.value() + o.0.value()),
    ensures
        wrap(a.0.value() + o.0.value(), U::modulus()) == a.0.value() + o.0.value(),
{
    d.valid_addr_fits_width(a.0.value() + o.0.value());
    a.0.value_in_range();
    o.0.value_in_range();
}

/// Read-after-write: on a device whose program operation overwrites — a
/// writable non-Flash device, where `programmed(prev, w) == w` — the word a
/// completed write committed at an address is the word given, so a later
/// completed read at that address returns it.
pub proof fn lemma_read_after_write<Word, U: AddrUint, D: WordModel<Word, U>>(
    d0: D,
    d1: D,
    addr: int,
    w: Word,
)
    requires
        forall|p: Word, x: Word| #[trigger] D::programmed(p, x) == x,
        d1.word_at(addr) == D::programmed(d0.word_at(addr), w),
    ensures
        d1.word_at(addr) == w,
{
}

/// Erase-then-read: once every cell of a page is erased, a completed read
/// anywhere in the page returns the erased polarity.
pub proof fn lemma_erase_then_read<Word, U: AddrUint, D: WordModel<Word, U>>(
    d: D,
    lo: int,
    len: int,
    addr: int,
)
    requires
        d.inv(),
        d.valid_addr(addr),
        lo <= addr < lo + len,
        forall|x: int| lo <= x < lo + len ==> #[trigger] d.erased_at(x),
    ensures
        d.word_at(addr) == D::erased_word(),
{
    d.erased_cell_reads_polarity(addr);
}

/// Erase-then-read through address arithmetic: stepping from the start of
/// a fully erased page by any offset inside the page lands, without
/// wrapping, on a valid address whose committed word is the erased
/// polarity — so after a completed erase, a completed read anywhere in the
/// page returns the polarity.
pub proof fn lemma_erase_then_read_at_offset<
    Word,
    U: AddrUint,
    D: ErasePage<U> + WordModel<Word, U>,
>(d: D, p: int, base: Address<U>, o: AddressOffset<U>)
    requires
        d.inv(),
        d.valid_page(p),
        base.0.value() == d.page_start(p),
        0 <= o.0.value() < d.page_len(p),
        forall|a: int|
            d.page_start(p) <= a < d.page_start(p) + d.page_len(p) ==> #[trigger] d.erased_at(a),
    ensures
        d.valid_addr(base.0.value() + o.0.value()),
        wrap(base.0.value() + o.0.value(), U::modulus()) == base.0.value() + o.0.value(),
        d.word_at(base.0.value() + o.0.value()) == D::erased_word(),
{
    d.valid_page_in_range(p, base.0.value() + o.0.value());
    lemma_valid_target_does_not_wrap::<U, D>(d, base, o);
    d.erased_cell_reads_polarity(base.0.value() + o.0.value());
}

/// Bulk read equivalence: a completed bulk read delivers exactly the
/// sequence that completed single reads at each successive address deliver,
/// because both are pinned to the words committed there.
pub proof fn lemma_bulk_read_matches_single_reads<Word, U: AddrUint, D: WordModel<Word, U>>(
    d: D,
    addr: int,
    bulk: Seq<Word>,
    singles: Seq<Word>,
)
    requires
        bulk.len() == singles.len(),
        forall|i: int| 0 <= i < bulk.len() ==> #[trigger] bulk[i] == d.word_at(addr + i),
        forall|i: int| 0 <= i < singles.len() ==> #[trigger] singles[i] == d.word_at(addr + i),
    ensures
        bulk =~= singles,
{
}

/// Bulk write equivalence: after a completed bulk write on an overwriting
/// device, the word committed at `addr + i` is the snapshot the buffer held
/// before the call, for every `i` — exactly what later single reads return.
pub proof fn lemma_bulk_write_then_read_back<Word, U: AddrUint, D: WordModel<Word, U>>(
    d0: D,
    d1: D,
    addr: int,
    snapshot: Seq<Word>,
)
    requires
        forall|p: Word, x: Word| #[trigger] D::programmed(p, x) == x,
        forall|i: int|
            0 <= i < snapshot.len() ==> #[trigger] d1.word_at(addr + i) == D::programmed(
                d0.word_at(addr + i),
                snapshot[i],
            ),
    ensures
        forall|i: int| 0 <= i < snapshot.len() ==> #[trigger] d1.word_at(addr + i) == snapshot[i],
{
}

} // verus!
