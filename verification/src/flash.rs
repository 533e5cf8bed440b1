//! A memory-backed NOR-Flash-like device implementing every capability.
//!
//! The device keeps one byte-wide word per address, erases in pages of
//! `PAGE_WORDS` words to the polarity `ERASED_WORD`, and programs by
//! clearing bits (a written word is ANDed onto the committed one, so a bit
//! can never be set back without an erase). An erase costs a configurable
//! number of `WouldBlock` polls, which makes the non-blocking convention
//! observable: callers must re-poll a busy device and the contracts show a
//! re-polled operation completes in finitely many calls.

use vstd::arithmetic::div_mod::{
    lemma_div_multiples_vanish, lemma_fundamental_div_mod, lemma_mod_multiples_basic,
    lemma_remainder, lemma_remainder_lower,
};
use vstd::prelude::*;

use crate::address::{AddrUint, Address, AddressOffset, Page};
use crate::capability::{
    ErasePage, MultiRead, MultiWrite, SingleRead, SingleWrite, StorageModel, StorageSize,
    WordModel,
};
use crate::nonblock::NbResult;

verus! {

/// Number of words in every erase page of the device.
pub const PAGE_WORDS: u32 = 256;

/// The erased polarity: the word every cell of an erased page reads as.
pub const ERASED_WORD: u8 = 0xFF;

/// Input-domain errors of the device. The model device has no bus and no
/// protection bits, so these are the only failures it can report.
#[derive(Clone, Copy, Debug, PartialEq, Eq, Structural)]
pub enum StorageError {
    /// The address (or the end of the transfer) lies outside
    /// `[start, start + total_size)`.
    OutOfRange,
    /// An erase by address was given an address that is not the start of a
    /// page.
    NotPageAligned,
    /// An erase by index was given a page index the device does not have.
    InvalidPage,
}

/// `s` with the page of index `p` reset to the erased polarity.
pub open spec fn erased_contents(s: Seq<u8>, p: int) -> Seq<u8> {
    Seq::new(
        s.len(),
        |j: int|
            if p * (PAGE_WORDS as int) <= j < p * (PAGE_WORDS as int) + (PAGE_WORDS as int) {
                ERASED_WORD
            } else {
                s[j]
            },
    )
}

/// `s` with the words of `b` programmed (bitwise ANDed) from offset `off`.
pub open spec fn programmed_contents(s: Seq<u8>, off: int, b: Seq<u8>) -> Seq<u8> {
    Seq::new(
        s.len(),
        |j: int|
            if off <= j < off + b.len() {
                s[j] & b[j - off]
            } else {
                s[j]
            },
    )
}

/// The memory-backed Flash-like device.
pub struct FlashMem {
    start: u32,
    mem: Vec<u8>,
    busy: u32,
    latency: u32,
}

impl FlashMem {
    /// The lowest valid address of the device.
    pub closed spec fn start_spec(&self) -> int {
        self.start as int
    }

    /// The committed words, indexed from the start address.
    pub closed spec fn contents(&self) -> Seq<u8> {
        self.mem@
    }

    /// How many more `WouldBlock` answers the device owes before it is idle.
    pub closed spec fn busy_spec(&self) -> nat {
        self.busy as nat
    }

    /// How many polls a newly initiated erase costs.
    pub closed spec fn latency_spec(&self) -> nat {
        self.latency as nat
    }

    /// The number of words the device holds.
    pub open spec fn size_spec(&self) -> nat {
        self.contents().len()
    }

    /// Well-formedness: at least one page, whole pages only, and an address
    /// range that fits the 32-bit address width without wrapping.
    pub open spec fn wf(&self) -> bool {
        &&& self.size_spec() >= PAGE_WORDS as nat
        &&& self.size_spec() % (PAGE_WORDS as nat) == 0
        &&& self.size_spec() <= 0xFFFF_FFFF
        &&& self.start_spec() + self.size_spec() <= 0x1_0000_0000
    }

    /// Whether `a` is a valid absolute address of the device.
    pub open spec fn addr_ok(&self, a: int) -> bool {
        self.start_spec() <= a < self.start_spec() + self.size_spec()
    }

    /// The word committed at absolute address `a`.
    pub open spec fn word(&self, a: int) -> u8 {
        self.contents()[a - self.start_spec()]
    }

    /// Whether the whole span of `n` words from `a` lies on the device.
    pub open spec fn span_ok(&self, a: int, n: int) -> bool {
        self.start_spec() <= a && a + n <= self.start_spec() + self.size_spec()
    }

    /// The number of erase pages.
    pub open spec fn page_count(&self) -> nat {
        self.size_spec() / (PAGE_WORDS as nat)
    }

    /// Whether the device has a page with zero-based index `p`.
    pub open spec fn page_ok(&self, p: int) -> bool {
        0 <= p < self.page_count()
    }

    /// The absolute address the page with index `p` starts at.
    pub open spec fn page_start_addr(&self, p: int) -> int {
        self.start_spec() + p * (PAGE_WORDS as int)
    }

    /// Whether every word of the page with index `p` is the erased polarity.
    pub open spec fn page_all_erased(&self, p: int) -> bool {
        forall|j: int|
            p * (PAGE_WORDS as int) <= j < p * (PAGE_WORDS as int) + (PAGE_WORDS as int)
                ==> #[trigger] self.contents()[j] == ERASED_WORD
    }

    /// A fresh device: `pages` erased pages starting at `start`, whose
    /// erases each cost `latency` polls.
    pub fn new(start: u32, pages: u32, latency: u32) -> (r: FlashMem)
        requires
            1 <= pages,
            pages as int * (PAGE_WORDS as int) <= 0xFFFF_FFFF,
            start as int + pages as int * (PAGE_WORDS as int) <= 0x1_0000_0000,
        ensures
            r.wf(),
            r.start_spec() == start as int,
            r.size_spec() == pages as int * (PAGE_WORDS as int),
            r.busy_spec() == 0,
            r.latency_spec() == latency as nat,
            forall|a: int| r.addr_ok(a) ==> #[trigger] r.word(a) == ERASED_WORD,
    {
        let total: u32 = pages * PAGE_WORDS;
        let mut mem: Vec<u8> = Vec::new();
        let mut i: u32 = 0;
        while i < total
            invariant
                i <= total,
                mem@.len() == i as nat,
                forall|j: int| 0 <= j < i as int ==> #[trigger] mem@[j] == ERASED_WORD,
            decreases total - i,
        {
            mem.push(ERASED_WORD);
            i = i + 1;
        }
        proof {
            lemma_mul_mod_zero(pages as int, PAGE_WORDS as int);
        }
        FlashMem { start, mem, busy: 0, latency }
    }

    /// Reads the word stored at the address.
    ///
    /// A busy device only consumes one poll; an idle one answers at once:
    /// the committed word inside the valid range, an out-of-range error
    /// outside it.
    pub fn read_at(&mut self, address: u32) -> (r: NbResult<u8, StorageError>)
        requires
            old(self).wf(),
        ensures
            final(self).wf(),
            final(self).start_spec() == old(self).start_spec(),
            final(self).latency_spec() == old(self).latency_spec(),
            final(self).contents() == old(self).contents(),
            old(self).busy_spec() > 0 ==> r is WouldBlock && final(self).busy_spec() == (old(
                self,
            ).busy_spec() - 1) as nat,
            old(self).busy_spec() == 0 ==> final(self).busy_spec() == 0,
            old(self).busy_spec() == 0 && old(self).addr_ok(address as int) ==> r == NbResult::<
                u8,
                StorageError,
            >::Ready(old(self).word(address as int)),
            old(self).busy_spec() == 0 && !old(self).addr_ok(address as int) ==> r == NbResult::<
                u8,
                StorageError,
            >::Error(StorageError::OutOfRange),
    {
        if self.busy > 0 {
            self.busy = self.busy - 1;
            return NbResult::WouldBlock;
        }
        if address < self.start {
            return NbResult::Error(StorageError::OutOfRange);
        }
        let off: u32 = address - self.start;
        if off as usize >= self.mem.len() {
            return NbResult::Error(StorageError::OutOfRange);
        }
        NbResult::Ready(self.mem[off as usize])
    }

    /// Writes the word to the address.
    ///
    /// Programming clears bits: the committed word becomes the bitwise AND
    /// of the previous word and the written one. A bit can only be set back
    /// by erasing the page.
    pub fn write_at(&mut self, address: u32, word: u8) -> (r: NbResult<(), StorageError>)
        requires
            old(self).wf(),
        ensures
            final(self).wf(),
            final(self).start_spec() == old(self).start_spec(),
            final(self).latency_spec() == old(self).latency_spec(),
            old(self).busy_spec() > 0 ==> r is WouldBlock && final(self).busy_spec() == (old(
                self,
            ).busy_spec() - 1) as nat && final(self).contents() == old(self).contents(),
            old(self).busy_spec() == 0 ==> final(self).busy_spec() == 0,
            old(self).busy_spec() == 0 && old(self).addr_ok(address as int) ==> r == NbResult::<
                (),
                StorageError,
            >::Ready(()) && final(self).contents() == old(self).contents().update(
                address as int - old(self).start_spec(),
                old(self).word(address as int) & word,
            ),
            old(self).busy_spec() == 0 && !old(self).addr_ok(address as int) ==> r == NbResult::<
                (),
                StorageError,
            >::Error(StorageError::OutOfRange) && final(self).contents() == old(self).contents(),
    {
        if self.busy > 0 {
            self.busy = self.busy - 1;
            return NbResult::WouldBlock;
        }
        if address < self.start {
            return NbResult::Error(StorageError::OutOfRange);
        }
        let off: u32 = address - self.start;
        if off as usize >= self.mem.len() {
            return NbResult::Error(StorageError::OutOfRange);
        }
        let programmed: u8 = self.mem[off as usize] & word;
        self.mem[off as usize] = programmed;
        NbResult::Ready(())
    }

    /// Reads the words stored from the address onward until the buffer is
    /// full. The whole span must lie on the device or nothing is read;
    /// spans may cross page boundaries freely.
    pub fn read_slice_at(&mut self, address: u32, buf: &mut [u8]) -> (r: NbResult<
        (),
        StorageError,
    >)
        requires
            old(self).wf(),
        ensures
            final(self).wf(),
            final(self).start_spec() == old(self).start_spec(),
            final(self).latency_spec() == old(self).latency_spec(),
            final(self).contents() == old(self).contents(),
            final(buf)@.len() == old(buf)@.len(),
            old(self).busy_spec() > 0 ==> r is WouldBlock && final(self).busy_spec() == (old(
                self,
            ).busy_spec() - 1) as nat && final(buf)@ == old(buf)@,
            old(self).busy_spec() == 0 ==> final(self).busy_spec() == 0,
            old(self).busy_spec() == 0 && old(self).span_ok(address as int, old(buf)@.len() as int)
                ==> r == NbResult::<(), StorageError>::Ready(()) && forall|i: int|
                0 <= i < old(buf)@.len() ==> #[trigger] final(buf)@[i] == old(self).word(
                    address as int + i,
                ),
            old(self).busy_spec() == 0 && !old(self).span_ok(
                address as int,
                old(buf)@.len() as int,
            ) ==> r == NbResult::<(), StorageError>::Error(StorageError::OutOfRange) && final(buf)@
                == old(buf)@,
    {
        if self.busy > 0 {
            self.busy = self.busy - 1;
            return NbResult::WouldBlock;
        }
        if address < self.start {
            return NbResult::Error(StorageError::OutOfRange);
        }
        let off: u32 = address - self.start;
        let size: u32 = self.mem.len() as u32;
        if off > size || buf.len() > (size - off) as usize {
            return NbResult::Error(StorageError::OutOfRange);
        }
        let mut i: usize = 0;
        while i < buf.len()
            invariant
                self.wf(),
                self == old(self),
                buf@.len() == old(buf)@.len(),
                0 <= i <= buf@.len(),
                off == address as int - self.start_spec(),
                off + buf@.len() <= self.size_spec(),
                forall|k: int|
                    0 <= k < i as int ==> #[trigger] buf@[k] == self.word(address as int + k),
            decreases buf@.len() - i,
        {
            let w: u8 = self.mem[off as usize + i];
            buf[i] = w;
            i = i + 1;
        }
        NbResult::Ready(())
    }

    /// Writes the buffer to the address, word by word with the device's
    /// bit-clearing program operation. The whole span must lie on the
    /// device or nothing is written; this device has no page-program limit,
    /// so spans may cross page boundaries, and it does not clobber the
    /// buffer.
    pub fn write_slice_at(&mut self, address: u32, buf: &mut [u8]) -> (r: NbResult<
        (),
        StorageError,
    >)
        requires
            old(self).wf(),
        ensures
            final(self).wf(),
            final(self).start_spec() == old(self).start_spec(),
            final(self).latency_spec() == old(self).latency_spec(),
            final(buf)@ == old(buf)@,
            old(self).busy_spec() > 0 ==> r is WouldBlock && final(self).busy_spec() == (old(
                self,
            ).busy_spec() - 1) as nat && final(self).contents() == old(self).contents(),
            old(self).busy_spec() == 0 ==> final(self).busy_spec() == 0,
            old(self).busy_spec() == 0 && old(self).span_ok(address as int, old(buf)@.len() as int)
                ==> r == NbResult::<(), StorageError>::Ready(()) && final(self).contents()
                == programmed_contents(
                old(self).contents(),
                address as int - old(self).start_spec(),
                old(buf)@,
            ),
            old(self).busy_spec() == 0 && !old(self).span_ok(
                address as int,
                old(buf)@.len() as int,
            ) ==> r == NbResult::<(), StorageError>::Error(StorageError::OutOfRange)
                && final(self).contents() == old(self).contents(),
    {
        if self.busy > 0 {
            self.busy = self.busy - 1;
            return NbResult::WouldBlock;
        }
        if address < self.start {
            return NbResult::Error(StorageError::OutOfRange);
        }
        let off: u32 = address - self.start;
        let size: u32 = self.mem.len() as u32;
        if off > size || buf.len() > (size - off) as usize {
            return NbResult::Error(StorageError::OutOfRange);
        }
        let mut i: usize = 0;
        while i < buf.len()
            invariant
                self.wf(),
                self.start_spec() == old(self).start_spec(),
                self.latency_spec() == old(self).latency_spec(),
                self.busy_spec() == 0,
                self.contents().len() == old(self).contents().len(),
                buf@ == old(buf)@,
                0 <= i <= buf@.len(),
                off == address as int - self.start_spec(),
                off + buf@.len() <= self.size_spec(),
                forall|j: int|
                    0 <= j < self.contents().len() ==> #[trigger] self.contents()[j] == (
                    if off <= j < off + i as int {
                        old(self).contents()[j] & buf@[j - off]
                    } else {
                        old(self).contents()[j]
                    }),
            decreases buf@.len() - i,
        {
            let idx: usize = off as usize + i;
            let programmed: u8 = self.mem[idx] & buf[i];
            self.mem[idx] = programmed;
            i = i + 1;
        }
        proof {
            assert(self.contents() =~= programmed_contents(
                old(self).contents(),
                address as int - old(self).start_spec(),
                old(buf)@,
            ));
        }
        NbResult::Ready(())
    }

    /// Whether every word of the (valid) page with this index is currently
    /// the erased polarity.
    fn is_page_erased(&self, page: u32) -> (r: bool)
        requires
            self.wf(),
            self.page_ok(page as int),
        ensures
            r <==> self.page_all_erased(page as int),
    {
        proof {
            lemma_page_block_bounds(*self, page as int);
        }
        let base: u32 = page * PAGE_WORDS;
        let mut j: u32 = 0;
        while j < PAGE_WORDS
            invariant
                self.wf(),
                self.page_ok(page as int),
                base == page as int * (PAGE_WORDS as int),
                base + PAGE_WORDS <= self.size_spec(),
                0 <= j <= PAGE_WORDS,
                forall|k: int|
                    base as int <= k < base as int + j as int ==> #[trigger] self.contents()[k]
                        == ERASED_WORD,
            decreases PAGE_WORDS - j,
        {
            if self.mem[(base + j) as usize] != ERASED_WORD {
                return false;
            }
            j = j + 1;
        }
        true
    }

    /// Resets the (valid) page to the erased polarity and starts the busy
    /// period of `latency` polls. Only called on an idle device.
    fn do_erase(&mut self, page: u32)
        requires
            old(self).wf(),
            old(self).busy_spec() == 0,
            old(self).page_ok(page as int),
        ensures
            final(self).wf(),
            final(self).start_spec() == old(self).start_spec(),
            final(self).latency_spec() == old(self).latency_spec(),
            final(self).busy_spec() == old(self).latency_spec(),
            final(self).contents() == erased_contents(old(self).contents(), page as int),
    {
        proof {
            lemma_page_block_bounds(*old(self), page as int);
        }
        let base: u32 = page * PAGE_WORDS;
        let mut j: u32 = 0;
        while j < PAGE_WORDS
            invariant
                self.wf(),
                self.start_spec() == old(self).start_spec(),
                self.latency_spec() == old(self).latency_spec(),
                self.busy_spec() == 0,
                self.contents().len() == old(self).contents().len(),
                base == page as int * (PAGE_WORDS as int),
                base + PAGE_WORDS <= self.size_spec(),
                0 <= j <= PAGE_WORDS,
                forall|k: int|
                    0 <= k < self.contents().len() ==> #[trigger] self.contents()[k] == (
                    if base as int <= k < base as int + j as int {
                        ERASED_WORD
                    } else {
                        old(self).contents()[k]
                    }),
            decreases PAGE_WORDS - j,
        {
            self.mem[(base + j) as usize] = ERASED_WORD;
            j = j + 1;
        }
        self.busy = self.latency;
        proof {
            assert(self.contents() =~= erased_contents(old(self).contents(), page as int));
        }
    }

    /// Erase the page of memory with the given index.
    ///
    /// A busy device consumes one poll. An idle one rejects an invalid
    /// index, completes at once if the page is already erased, and
    /// otherwise commits the erase and answers `Ready` after `latency`
    /// further polls.
    pub fn erase_page_at(&mut self, page: u32) -> (r: NbResult<(), StorageError>)
        requires
            old(self).wf(),
        ensures
            final(self).wf(),
            final(self).start_spec() == old(self).start_spec(),
            final(self).latency_spec() == old(self).latency_spec(),
            old(self).busy_spec() > 0 ==> r is WouldBlock && final(self).busy_spec() == (old(
                self,
            ).busy_spec() - 1) as nat && final(self).contents() == old(self).contents(),
            old(self).busy_spec() == 0 && !old(self).page_ok(page as int) ==> r == NbResult::<
                (),
                StorageError,
            >::Error(StorageError::InvalidPage) && final(self).contents() == old(self).contents()
                && final(self).busy_spec() == 0,
            old(self).busy_spec() == 0 && old(self).page_ok(page as int) && old(
                self,
            ).page_all_erased(page as int) ==> r == NbResult::<(), StorageError>::Ready(())
                && final(self).contents() == old(self).contents() && final(self).busy_spec() == 0,
            old(self).busy_spec() == 0 && old(self).page_ok(page as int) && !old(
                self,
            ).page_all_erased(page as int) ==> final(self).contents() == erased_contents(
                old(self).contents(),
                page as int,
            ) && final(self).busy_spec() == old(self).latency_spec() && (if old(
                self,
            ).latency_spec() == 0 {
                r == NbResult::<(), StorageError>::Ready(())
            } else {
                r is WouldBlock
            }),
    {
        if self.busy > 0 {
            self.busy = self.busy - 1;
            return NbResult::WouldBlock;
        }
        if page >= self.mem.len() as u32 / PAGE_WORDS {
            return NbResult::Error(StorageError::InvalidPage);
        }
        if self.is_page_erased(page) {
            return NbResult::Ready(());
        }
        self.do_erase(page);
        if self.busy == 0 {
            NbResult::Ready(())
        } else {
            NbResult::WouldBlock
        }
    }

    /// Erase the page of memory that starts at the address.
    ///
    /// The only valid address is the start of a page: an address off the
    /// device is out of range and a valid but unaligned one is an error.
    /// Otherwise this behaves exactly like erasing that page by index.
    pub fn erase_at(&mut self, address: u32) -> (r: NbResult<(), StorageError>)
        requires
            old(self).wf(),
        ensures
            final(self).wf(),
            final(self).start_spec() == old(self).start_spec(),
            final(self).latency_spec() == old(self).latency_spec(),
            old(self).busy_spec() > 0 ==> r is WouldBlock && final(self).busy_spec() == (old(
                self,
            ).busy_spec() - 1) as nat && final(self).contents() == old(self).contents(),
            old(self).busy_spec() == 0 && !old(self).addr_ok(address as int) ==> r == NbResult::<
                (),
                StorageError,
            >::Error(StorageError::OutOfRange) && final(self).contents() == old(self).contents()
                && final(self).busy_spec() == 0,
            old(self).busy_spec() == 0 && old(self).addr_ok(address as int) && (address as int
                - old(self).start_spec()) % (PAGE_WORDS as int) != 0 ==> r == NbResult::<
                (),
                StorageError,
            >::Error(StorageError::NotPageAligned) && final(self).contents() == old(self).contents()
                && final(self).busy_spec() == 0,
            old(self).busy_spec() == 0 && old(self).addr_ok(address as int) && (address as int
                - old(self).start_spec()) % (PAGE_WORDS as int) == 0 ==> {
                let p = (address as int - old(self).start_spec()) / (PAGE_WORDS as int);
                &&& old(self).page_ok(p)
                &&& old(self).page_start_addr(p) == address as int
                &&& old(self).page_all_erased(p) ==> r == NbResult::<(), StorageError>::Ready(())
                    && final(self).contents() == old(self).contents() && final(self).busy_spec()
                    == 0
                &&& !old(self).page_all_erased(p) ==> final(self).contents() == erased_contents(
                    old(self).contents(),
                    p,
                ) && final(self).busy_spec() == old(self).latency_spec() && (if old(
                    self,
                ).latency_spec() == 0 {
                    r == NbResult::<(), StorageError>::Ready(())
                } else {
                    r is WouldBlock
                })
            },
    {
        if self.busy > 0 {
            self.busy = self.busy - 1;
            return NbResult::WouldBlock;
        }
        if address < self.start {
            return NbResult::Error(StorageError::OutOfRange);
        }
        let off: u32 = address - self.start;
        if off as usize >= self.mem.len() {
            return NbResult::Error(StorageError::OutOfRange);
        }
        if off % PAGE_WORDS != 0 {
            return NbResult::Error(StorageError::NotPageAligned);
        }
        let page: u32 = off / PAGE_WORDS;
        proof {
            lemma_page_index_of_aligned_offset(*self, off as int);
        }
        if self.is_page_erased(page) {
            return NbResult::Ready(());
        }
        self.do_erase(page);
        if self.busy == 0 {
            NbResult::Ready(())
        } else {
            NbResult::WouldBlock
        }
    }

    /// The device's start address as a machine word.
    pub fn start_address_word(&self) -> (r: u32)
        ensures
            r as int == self.start_spec(),
    {
        self.start
    }

    /// The device's total size in words as a machine word.
    pub fn total_size_word(&self) -> (r: u32)
        requires
            self.wf(),
        ensures
            r as nat == self.size_spec(),
    {
        self.mem.len() as u32
    }

    /// Whether the address lies on the device.
    pub fn contains_address(&self, address: u32) -> (r: bool)
        requires
            self.wf(),
        ensures
            r <==> self.addr_ok(address as int),
    {
        address >= self.start && ((address - self.start) as usize) < self.mem.len()
    }

    /// Polls left before a re-issued erase of page `p` must stop answering
    /// `WouldBlock`: the busy period still to drain, plus the initiation
    /// poll if the page still has bits to clear.
    spec fn erase_polls_left(&self, p: int) -> nat {
        self.busy_spec() + if self.page_ok(p) && !self.page_all_erased(p) {
            self.latency_spec() + 1
        } else {
            0
        }
    }

    /// Re-polls `read_at` until the device answers. Every `WouldBlock`
    /// drains poll budget, so the loop provably terminates: a re-polled
    /// read reaches `Ready` or an error in finitely many calls.
    pub fn read_blocking(&mut self, address: u32) -> (r: Result<u8, StorageError>)
        requires
            old(self).wf(),
        ensures
            final(self).wf(),
            final(self).start_spec() == old(self).start_spec(),
            final(self).latency_spec() == old(self).latency_spec(),
            final(self).contents() == old(self).contents(),
            final(self).busy_spec() == 0,
            old(self).addr_ok(address as int) ==> r == Ok::<u8, StorageError>(
                old(self).word(address as int),
            ),
            !old(self).addr_ok(address as int) ==> r == Err::<u8, StorageError>(
                StorageError::OutOfRange,
            ),
    {
        loop
            invariant
                self.wf(),
                self.start_spec() == old(self).start_spec(),
                self.latency_spec() == old(self).latency_spec(),
                self.contents() == old(self).contents(),
            decreases self.busy_spec(),
        {
            let outcome = self.read_at(address);
            match outcome {
                NbResult::Ready(w) => {
                    return Ok(w);
                },
                NbResult::Error(e) => {
                    return Err(e);
                },
                NbResult::WouldBlock => {
                },
            }
        }
    }

    /// Re-polls `write_at` until the device answers; terminates like
    /// `read_blocking`.
    pub fn write_blocking(&mut self, address: u32, word: u8) -> (r: Result<(), StorageError>)
        requires
            old(self).wf(),
        ensures
            final(self).wf(),
            final(self).start_spec() == old(self).start_spec(),
            final(self).latency_spec() == old(self).latency_spec(),
            final(self).busy_spec() == 0,
            old(self).addr_ok(address as int) ==> r == Ok::<(), StorageError>(()) && final(self).contents() == old(self).contents().update(
                address as int - old(self).start_spec(),
                old(self).word(address as int) & word,
            ),
            !old(self).addr_ok(address as int) ==> r == Err::<(), StorageError>(
                StorageError::OutOfRange,
            ) && final(self).contents() == old(self).contents(),
    {
        loop
            invariant
                self.wf(),
                self.start_spec() == old(self).start_spec(),
                self.latency_spec() == old(self).latency_spec(),
                self.contents() == old(self).contents(),
            decreases self.busy_spec(),
        {
            let outcome = self.write_at(address, word);
            match outcome {
                NbResult::Ready(u) => {
                    return Ok(u);
                },
                NbResult::Error(e) => {
                    return Err(e);
                },
                NbResult::WouldBlock => {
                },
            }
        }
    }

    /// Re-polls `erase_page_at` until the device answers. The measure
    /// `erase_polls_left` bounds the `WouldBlock` answers: one initiation
    /// poll at most, then a draining busy counter. A valid page is erased
    /// when the loop returns; an invalid index is rejected.
    pub fn erase_page_blocking(&mut self, page: u32) -> (r: Result<(), StorageError>)
        requires
            old(self).wf(),
        ensures
            final(self).wf(),
            final(self).start_spec() == old(self).start_spec(),
            final(self).latency_spec() == old(self).latency_spec(),
            final(self).busy_spec() == 0,
            old(self).page_ok(page as int) ==> r == Ok::<(), StorageError>(()) && final(self).contents() == erased_contents(old(self).contents(), page as int),
            !old(self).page_ok(page as int) ==> r == Err::<(), StorageError>(
                StorageError::InvalidPage,
            ) && final(self).contents() == old(self).contents(),
    {
        loop
            invariant
                self.wf(),
                self.start_spec() == old(self).start_spec(),
                self.latency_spec() == old(self).latency_spec(),
                self.contents().len() == old(self).contents().len(),
                self.contents() == old(self).contents() || (old(self).page_ok(page as int)
                    && self.contents() == erased_contents(old(self).contents(), page as int)),
            decreases self.erase_polls_left(page as int),
        {
            let ghost pre = *self;
            let outcome = self.erase_page_at(page);
            proof {
                if pre.page_ok(page as int) {
                    lemma_page_block_bounds(pre, page as int);
                }
            }
            match outcome {
                NbResult::Ready(u) => {
                    proof {
                        assert(self.page_all_erased(page as int));
                        assert(self.contents() =~= erased_contents(
                            old(self).contents(),
                            page as int,
                        ));
                    }
                    return Ok(u);
                },
                NbResult::Error(e) => {
                    return Err(e);
                },
                NbResult::WouldBlock => {
                    proof {
                        if pre.busy_spec() == 0 {
                            assert(self.page_all_erased(page as int));
                        }
                    }
                },
            }
        }
    }
}

/// A product of `m >= 1` whole blocks of size `d >= 1` leaves remainder
/// zero.
pub proof fn lemma_mul_mod_zero(m: int, d: int)
    requires
        0 <= m,
        1 <= d,
    ensures
        (m * d) % d == 0,
{
    assert((m * d) % d == 0) by (nonlinear_arith)
        requires
            0 <= m,
            1 <= d,
    ;
}

/// Every valid page of a well-formed device is a whole block inside the
/// device: its word range `[p * PAGE_WORDS, (p + 1) * PAGE_WORDS)` lies
/// within `[0, size)`.
pub proof fn lemma_page_block_bounds(f: FlashMem, p: int)
    requires
        f.wf(),
        f.page_ok(p),
    ensures
        0 <= p * (PAGE_WORDS as int),
        p * (PAGE_WORDS as int) + (PAGE_WORDS as int) <= f.size_spec(),
{
    let d = PAGE_WORDS as int;
    let n = f.size_spec() as int;
    let m = n / d;
    lemma_fundamental_div_mod(n, d);
    assert(n == d * m);
    assert(0 <= p * d && p * d + d <= d * m) by (nonlinear_arith)
        requires
            0 <= p < m,
            d == 256,
    ;
}

/// A page-aligned word offset inside a well-formed device is the start of a
/// valid page, namely the one with index `off / PAGE_WORDS`.
pub proof fn lemma_page_index_of_aligned_offset(f: FlashMem, off: int)
    requires
        f.wf(),
        0 <= off < f.size_spec(),
        off % (PAGE_WORDS as int) == 0,
    ensures
        f.page_ok(off / (PAGE_WORDS as int)),
        (off / (PAGE_WORDS as int)) * (PAGE_WORDS as int) == off,
        f.page_start_addr(off / (PAGE_WORDS as int)) == f.start_spec() + off,
{
    let d = PAGE_WORDS as int;
    let n = f.size_spec() as int;
    let q = off / d;
    let m = n / d;
    lemma_fundamental_div_mod(off, d);
    lemma_fundamental_div_mod(n, d);
    assert(off == d * q);
    assert(n == d * m);
    assert(q * d == off);
    assert(0 <= q && q < m) by (nonlinear_arith)
        requires
            0 <= off < n,
            off == d * q,
            n == d * m,
            d == 256,
    ;
}

/// An in-range page index within a well-formed device, for any in-range
/// word offset: the offset lies inside the block of its page.
pub proof fn lemma_page_index_of_offset(f: FlashMem, off: int)
    requires
        f.wf(),
        0 <= off < f.size_spec(),
    ensures
        f.page_ok(off / (PAGE_WORDS as int)),
        (off / (PAGE_WORDS as int)) * (PAGE_WORDS as int) <= off,
        off < (off / (PAGE_WORDS as int)) * (PAGE_WORDS as int) + (PAGE_WORDS as int),
{
    let d = PAGE_WORDS as int;
    let n = f.size_spec() as int;
    let q = off / d;
    let m = n / d;
    lemma_fundamental_div_mod(n, d);
    lemma_remainder(off, d);
    lemma_remainder_lower(off, d);
    assert(n == d * m);
    assert(q * d <= off < q * d + d);
    assert(0 <= q && q < m) by (nonlinear_arith)
        requires
            0 <= off < n,
            q * d <= off < q * d + d,
            n == d * m,
            d == 256,
    ;
}

/// Programming any word over an erased cell commits that word exactly:
/// clearing the bits of the erased polarity leaves the word itself. This is
/// the Flash-device form of read-after-write: after an erase, a completed
/// write of `w` reads back as `w`.
pub proof fn lemma_program_over_erased_reads_back(w: u8)
    ensures
        FlashMem::programmed(FlashMem::erased_word(), w) == w,
{
    assert((0xFFu8 & w) == w) by (bit_vector);
}

/// Page-size consistency on the model device: every valid address lies in a
/// valid erase page whose block contains it, and the page size the geometry
/// capability reports there is exactly that page's length.
pub proof fn lemma_page_size_consistent(f: FlashMem, addr: int)
    requires
        f.wf(),
        f.addr_ok(addr),
    ensures
        exists|p: int|
            #![trigger f.page_start_addr(p)]
            f.page_ok(p) && f.page_start_addr(p) <= addr < f.page_start_addr(p) + (
            PAGE_WORDS as int),
        f.page_size_at(addr) == PAGE_WORDS as nat,
{
    let d = PAGE_WORDS as int;
    let off = addr - f.start_spec();
    let q = off / d;
    lemma_page_index_of_offset(f, off);
    assert(f.page_ok(q) && f.page_start_addr(q) <= addr < f.page_start_addr(q) + d);
}

impl StorageModel<u32> for FlashMem {
    open spec fn inv(&self) -> bool {
        self.wf()
    }

    open spec fn valid_addr(&self, addr: int) -> bool {
        self.addr_ok(addr)
    }

    open spec fn erased_at(&self, addr: int) -> bool {
        self.addr_ok(addr) && self.word(addr) == ERASED_WORD
    }

    open spec fn poll_budget(&self) -> nat {
        self.busy_spec()
    }

    open spec fn start_budget(&self) -> nat {
        self.latency_spec()
    }

    proof fn valid_addr_fits_width(&self, addr: int) {
    }
}

impl WordModel<u8, u32> for FlashMem {
    open spec fn word_at(&self, addr: int) -> u8 {
        self.word(addr)
    }

    open spec fn erased_word() -> u8 {
        ERASED_WORD
    }

    open spec fn programmed(prev: u8, w: u8) -> u8 {
        prev & w
    }

    proof fn erased_cell_reads_polarity(&self, addr: int) {
    }
}

impl SingleRead<u8, u32> for FlashMem {
    type Error = StorageError;

    /// Exactly `read_at`: a busy device answers one `WouldBlock`; an idle
    /// one returns the committed word inside the range and an out-of-range
    /// error outside it.
    fn try_read(&mut self, address: Address<u32>) -> (r: NbResult<u8, StorageError>)
        ensures
            final(self).contents() == old(self).contents(),
            final(self).start_spec() == old(self).start_spec(),
            final(self).latency_spec() == old(self).latency_spec(),
            old(self).busy_spec() > 0 ==> r is WouldBlock && final(self).busy_spec() == (old(
                self,
            ).busy_spec() - 1) as nat,
            old(self).busy_spec() == 0 ==> final(self).busy_spec() == 0,
            old(self).busy_spec() == 0 && old(self).addr_ok(address.0 as int) ==> r == NbResult::<
                u8,
                StorageError,
            >::Ready(old(self).word(address.0 as int)),
            old(self).busy_spec() == 0 && !old(self).addr_ok(address.0 as int) ==> r == NbResult::<
                u8,
                StorageError,
            >::Error(StorageError::OutOfRange),
    {
        self.read_at(address.0)
    }
}

impl SingleWrite<u8, u32> for FlashMem {
    type Error = StorageError;

    /// Exactly `write_at`: a busy device answers one `WouldBlock`; an idle
    /// one programs (ANDs) the word inside the range and rejects an
    /// out-of-range address.
    fn try_write(&mut self, address: Address<u32>, word: u8) -> (r: NbResult<(), StorageError>)
        ensures
            final(self).start_spec() == old(self).start_spec(),
            final(self).latency_spec() == old(self).latency_spec(),
            old(self).busy_spec() > 0 ==> r is WouldBlock && final(self).busy_spec() == (old(
                self,
            ).busy_spec() - 1) as nat && final(self).contents() == old(self).contents(),
            old(self).busy_spec() == 0 ==> final(self).busy_spec() == 0,
            old(self).busy_spec() == 0 && old(self).addr_ok(address.0 as int) ==> r == NbResult::<
                (),
                StorageError,
            >::Ready(()) && final(self).contents() == old(self).contents().update(
                address.0 as int - old(self).start_spec(),
                old(self).word(address.0 as int) & word,
            ),
            old(self).busy_spec() == 0 && !old(self).addr_ok(address.0 as int) ==> r == NbResult::<
                (),
                StorageError,
            >::Error(StorageError::OutOfRange) && final(self).contents() == old(self).contents(),
    {
        self.write_at(address.0, word)
    }
}

impl MultiRead<u8, u32> for FlashMem {
    type Error = StorageError;

    /// Exactly `read_slice_at`: a busy device answers one `WouldBlock`; an
    /// idle one fills the whole buffer from a span that lies on the device
    /// and rejects any other span.
    fn try_read_slice(&mut self, address: Address<u32>, buf: &mut [u8]) -> (r: NbResult<
        (),
        StorageError,
    >)
        ensures
            final(self).contents() == old(self).contents(),
            final(self).start_spec() == old(self).start_spec(),
            final(self).latency_spec() == old(self).latency_spec(),
            old(self).busy_spec() > 0 ==> r is WouldBlock && final(self).busy_spec() == (old(
                self,
            ).busy_spec() - 1) as nat && final(buf)@ == old(buf)@,
            old(self).busy_spec() == 0 ==> final(self).busy_spec() == 0,
            old(self).busy_spec() == 0 && old(self).span_ok(
                address.0 as int,
                old(buf)@.len() as int,
            ) ==> r == NbResult::<(), StorageError>::Ready(()) && forall|i: int|
                0 <= i < old(buf)@.len() ==> #[trigger] final(buf)@[i] == old(self).word(
                    address.0 as int + i,
                ),
            old(self).busy_spec() == 0 && !old(self).span_ok(
                address.0 as int,
                old(buf)@.len() as int,
            ) ==> r == NbResult::<(), StorageError>::Error(StorageError::OutOfRange)
                && final(buf)@ == old(buf)@,
    {
        self.read_slice_at(address.0, buf)
    }
}

impl MultiWrite<u8, u32> for FlashMem {
    type Error = StorageError;

    /// Exactly `write_slice_at`: a busy device answers one `WouldBlock`; an
    /// idle one programs the whole buffer onto a span that lies on the
    /// device and rejects any other span. The buffer is never clobbered.
    fn try_write_slice(&mut self, address: Address<u32>, buf: &mut [u8]) -> (r: NbResult<
        (),
        StorageError,
    >)
        ensures
            final(self).start_spec() == old(self).start_spec(),
            final(self).latency_spec() == old(self).latency_spec(),
            final(buf)@ == old(buf)@,
            old(self).busy_spec() > 0 ==> r is WouldBlock && final(self).busy_spec() == (old(
                self,
            ).busy_spec() - 1) as nat && final(self).contents() == old(self).contents(),
            old(self).busy_spec() == 0 ==> final(self).busy_spec() == 0,
            old(self).busy_spec() == 0 && old(self).span_ok(
                address.0 as int,
                old(buf)@.len() as int,
            ) ==> r == NbResult::<(), StorageError>::Ready(()) && final(self).contents()
                == programmed_contents(
                old(self).contents(),
                address.0 as int - old(self).start_spec(),
                old(buf)@,
            ),
            old(self).busy_spec() == 0 && !old(self).span_ok(
                address.0 as int,
                old(buf)@.len() as int,
            ) ==> r == NbResult::<(), StorageError>::Error(StorageError::OutOfRange)
                && final(self).contents() == old(self).contents(),
    {
        self.write_slice_at(address.0, buf)
    }
}

impl ErasePage<u32> for FlashMem {
    type Error = StorageError;

    open spec fn page_start(&self, page: int) -> int {
        self.page_start_addr(page)
    }

    open spec fn page_len(&self, page: int) -> nat {
        PAGE_WORDS as nat
    }

    open spec fn valid_page(&self, page: int) -> bool {
        self.page_ok(page)
    }

    proof fn valid_page_in_range(&self, page: int, addr: int) {
        lemma_page_block_bounds(*self, page);
    }

    /// Exactly `erase_page_at`: a busy device answers one `WouldBlock`; an
    /// idle one rejects an invalid index, completes at once on an already
    /// erased page, and otherwise commits the erase and answers `Ready`
    /// after `latency` further polls.
    fn try_erase_page(&mut self, page: Page<u32>) -> (r: NbResult<(), StorageError>)
        ensures
            final(self).start_spec() == old(self).start_spec(),
            final(self).latency_spec() == old(self).latency_spec(),
            old(self).busy_spec() > 0 ==> r is WouldBlock && final(self).busy_spec() == (old(
                self,
            ).busy_spec() - 1) as nat && final(self).contents() == old(self).contents(),
            old(self).busy_spec() == 0 && !old(self).page_ok(page.0 as int) ==> r == NbResult::<
                (),
                StorageError,
            >::Error(StorageError::InvalidPage) && final(self).contents() == old(self).contents()
                && final(self).busy_spec() == 0,
            old(self).busy_spec() == 0 && old(self).page_ok(page.0 as int) && old(
                self,
            ).page_all_erased(page.0 as int) ==> r == NbResult::<(), StorageError>::Ready(())
                && final(self).contents() == old(self).contents() && final(self).busy_spec() == 0,
            old(self).busy_spec() == 0 && old(self).page_ok(page.0 as int) && !old(
                self,
            ).page_all_erased(page.0 as int) ==> final(self).contents() == erased_contents(
                old(self).contents(),
                page.0 as int,
            ) && final(self).busy_spec() == old(self).latency_spec() && (if old(
                self,
            ).latency_spec() == 0 {
                r == NbResult::<(), StorageError>::Ready(())
            } else {
                r is WouldBlock
            }),
    {
        let r = self.erase_page_at(page.0);
        proof {
            if old(self).busy_spec() == 0 && old(self).page_ok(page.0 as int) {
                let p = page.0 as int;
                let d = PAGE_WORDS as int;
                lemma_page_block_bounds(*old(self), p);
                if forall|x: int|
                    old(self).page_start(p) <= x < old(self).page_start(p) + old(self).page_len(
                        p,
                    ) ==> #[trigger] old(self).erased_at(x) {
                    assert(old(self).page_all_erased(p)) by {
                        assert forall|j: int| p * d <= j < p * d + d implies old(
                            self,
                        ).contents()[j] == ERASED_WORD by {
                            assert(old(self).erased_at(old(self).start_spec() + j));
                        }
                    };
                }
            }
        }
        r
    }

    /// Exactly `erase_at`: a busy device answers one `WouldBlock`; an idle
    /// one rejects an address off the device or not at a page start, and
    /// otherwise erases the page starting there like `try_erase_page`.
    fn try_erase_address(&mut self, address: Address<u32>) -> (r: NbResult<(), StorageError>)
        ensures
            final(self).start_spec() == old(self).start_spec(),
            final(self).latency_spec() == old(self).latency_spec(),
            old(self).busy_spec() > 0 ==> r is WouldBlock && final(self).busy_spec() == (old(
                self,
            ).busy_spec() - 1) as nat && final(self).contents() == old(self).contents(),
            old(self).busy_spec() == 0 && !old(self).addr_ok(address.0 as int) ==> r == NbResult::<
                (),
                StorageError,
            >::Error(StorageError::OutOfRange) && final(self).contents() == old(self).contents()
                && final(self).busy_spec() == 0,
            old(self).busy_spec() == 0 && old(self).addr_ok(address.0 as int) && (address.0 as int
                - old(self).start_spec()) % (PAGE_WORDS as int) != 0 ==> r == NbResult::<
                (),
                StorageError,
            >::Error(StorageError::NotPageAligned) && final(self).contents() == old(self).contents()
                && final(self).busy_spec() == 0,
            old(self).busy_spec() == 0 && old(self).addr_ok(address.0 as int) && (address.0 as int
                - old(self).start_spec()) % (PAGE_WORDS as int) == 0 ==> {
                let p = (address.0 as int - old(self).start_spec()) / (PAGE_WORDS as int);
                &&& old(self).page_ok(p)
                &&& old(self).page_start_addr(p) == address.0 as int
                &&& old(self).page_all_erased(p) ==> r == NbResult::<(), StorageError>::Ready(())
                    && final(self).contents() == old(self).contents() && final(self).busy_spec()
                    == 0
                &&& !old(self).page_all_erased(p) ==> final(self).contents() == erased_contents(
                    old(self).contents(),
                    p,
                ) && final(self).busy_spec() == old(self).latency_spec() && (if old(
                    self,
                ).latency_spec() == 0 {
                    r == NbResult::<(), StorageError>::Ready(())
                } else {
                    r is WouldBlock
                })
            },
    {
        let r = self.erase_at(address.0);
        proof {
            let a = address.0 as int;
            let d = PAGE_WORDS as int;
            if old(self).busy_spec() == 0 && old(self).addr_ok(a) && (a - old(self).start_spec())
                % d == 0 {
                let p = (a - old(self).start_spec()) / d;
                lemma_page_block_bounds(*old(self), p);
                if !(r is Error) {
                    assert(old(self).valid_page(p) && old(self).page_start(p) == a);
                    assert(forall|x: int|
                        self.page_start(p) <= x < self.page_start(p) + self.page_len(p)
                            ==> #[trigger] self.erased_at(x));
                    assert(exists|q: int|
                        #![trigger old(self).page_start(q)]
                        old(self).valid_page(q) && old(self).page_start(q) == address.0.value()
                            && forall|x: int|
                            self.page_start(q) <= x < self.page_start(q) + self.page_len(q)
                                ==> #[trigger] self.erased_at(x));
                }
            }
            if old(self).busy_spec() == 0 && (exists|q: int|
                #![trigger old(self).page_start(q)]
                old(self).valid_page(q) && old(self).page_start(q) == a && forall|x: int|
                    old(self).page_start(q) <= x < old(self).page_start(q) + old(self).page_len(
                        q,
                    ) ==> #[trigger] old(self).erased_at(x)) {
                let q = choose|q: int|
                    #![trigger old(self).page_start(q)]
                    old(self).valid_page(q) && old(self).page_start(q) == a && forall|x: int|
                        old(self).page_start(q) <= x < old(self).page_start(q) + old(
                            self,
                        ).page_len(q) ==> #[trigger] old(self).erased_at(x);
                lemma_page_block_bounds(*old(self), q);
                lemma_mod_multiples_basic(q, d);
                lemma_div_multiples_vanish(q, d);
                assert(a - old(self).start_spec() == q * d);
                assert((a - old(self).start_spec()) % d == 0);
                assert((a - old(self).start_spec()) / d == q);
                assert(old(self).addr_ok(a));
                assert(old(self).page_all_erased(q)) by {
                    assert forall|j: int| q * d <= j < q * d + d implies old(self).contents()[j]
                        == ERASED_WORD by {
                        assert(old(self).erased_at(old(self).start_spec() + j));
                    }
                };
            }
        }
        r
    }
}

impl StorageSize<u8, u32> for FlashMem {
    type Error = StorageError;

    open spec fn start_addr(&self) -> int {
        self.start_spec()
    }

    open spec fn size_words(&self) -> nat {
        self.size_spec()
    }

    open spec fn page_size_at(&self, addr: int) -> nat {
        PAGE_WORDS as nat
    }

    proof fn geometry_covers(&self, addr: int) {
    }

    proof fn page_partition(&self, addr: int) -> (lo: int) {
        let d = PAGE_WORDS as int;
        let off = addr - self.start_spec();
        let q = off / d;
        lemma_page_index_of_offset(*self, off);
        lemma_page_block_bounds(*self, q);
        self.start_spec() + q * d
    }

    /// Always answers at once with the device's start address; the device
    /// is left untouched.
    fn try_start_address(&mut self) -> (r: NbResult<Address<u32>, StorageError>)
        ensures
            *final(self) == *old(self),
            r is Ready && (r->Ready_0).0 as int == old(self).start_spec(),
    {
        NbResult::Ready(Address(self.start_address_word()))
    }

    /// Always answers at once with the device's word count; the device is
    /// left untouched.
    fn try_total_size(&mut self) -> (r: NbResult<AddressOffset<u32>, StorageError>)
        ensures
            *final(self) == *old(self),
            r is Ready && (r->Ready_0).0 as nat == old(self).size_spec(),
    {
        NbResult::Ready(AddressOffset(self.total_size_word()))
    }

    /// Always answers at once: the uniform page size inside the valid
    /// range, an out-of-range error outside it; the device is left
    /// untouched.
    fn try_page_size(&mut self, address: Address<u32>) -> (r: NbResult<
        AddressOffset<u32>,
        StorageError,
    >)
        ensures
            *final(self) == *old(self),
            old(self).addr_ok(address.0 as int) ==> r is Ready && (r->Ready_0).0 == PAGE_WORDS,
            !old(self).addr_ok(address.0 as int) ==> r == NbResult::<
                AddressOffset<u32>,
                StorageError,
            >::Error(StorageError::OutOfRange),
    {
        if self.contains_address(address.0) {
            NbResult::Ready(AddressOffset(PAGE_WORDS))
        } else {
            NbResult::Error(StorageError::OutOfRange)
        }
    }
}

} // verus!
