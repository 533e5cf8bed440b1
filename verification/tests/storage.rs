//! End-to-end tests of the address algebra, the capability surface and the
//! model Flash device: an 8-bit-word device of 16 pages of 256 words at
//! start address 0x0800_0000 (total size 0x1000), erased polarity 0xFF.

use storage_traits::address::{Address, AddressOffset, Page};
use storage_traits::capability::{
    poll_erase_page, poll_read, poll_write, ErasePage, MultiRead, MultiWrite, SingleRead,
    SingleWrite, StorageSize,
};
use storage_traits::flash::{FlashMem, StorageError, ERASED_WORD, PAGE_WORDS};
use storage_traits::nonblock::NbResult;

const START: u32 = 0x0800_0000;
const PAGES: u32 = 16;

fn fresh(latency: u32) -> FlashMem {
    FlashMem::new(START, PAGES, latency)
}

fn read_ready(f: &mut FlashMem, address: u32) -> u8 {
    loop {
        match f.read_at(address) {
            NbResult::Ready(w) => return w,
            NbResult::WouldBlock => continue,
            NbResult::Error(e) => panic!("read at {address:#x} failed: {e:?}"),
        }
    }
}

fn erase_ready(f: &mut FlashMem, page: u32) {
    let mut polls = 0u32;
    loop {
        match f.erase_page_at(page) {
            NbResult::Ready(()) => return,
            NbResult::WouldBlock => {
                polls += 1;
                assert!(polls < 1000, "erase of page {page} never completed");
            }
            NbResult::Error(e) => panic!("erase of page {page} failed: {e:?}"),
        }
    }
}

#[test]
fn address_add_then_sub_cancels() {
    let a = Address(0x0800_0123u32);
    let o = AddressOffset(0x77u32);
    let there = a.add(&o);
    assert_eq!(there.0, 0x0800_019A);
    let back = there.sub(&o);
    assert_eq!(back.0, a.0);
}

#[test]
fn address_zero_offset_is_identity() {
    let a = Address(0xDEAD_BEEFu32);
    assert_eq!(a.add(&AddressOffset(0u32)).0, 0xDEAD_BEEF);
    assert_eq!(a.sub(&AddressOffset(0u32)).0, 0xDEAD_BEEF);
}

#[test]
fn address_arithmetic_wraps_at_width() {
    let a = Address(0xFFFF_FFFFu32);
    assert_eq!(a.add(&AddressOffset(2u32)).0, 1);
    let b = Address(1u32);
    assert_eq!(b.sub(&AddressOffset(2u32)).0, 0xFFFF_FFFF);
    // round trip across the wrap as well
    assert_eq!(a.add(&AddressOffset(2u32)).sub(&AddressOffset(2u32)).0, a.0);
}

#[test]
fn address_algebra_on_narrow_widths() {
    let a = Address(0xF0u8);
    assert_eq!(a.add(&AddressOffset(0x20u8)).0, 0x10);
    assert_eq!(a.add(&AddressOffset(0x20u8)).sub(&AddressOffset(0x20u8)).0, 0xF0);
    let w = Address(0xFFFEu16);
    assert_eq!(w.add(&AddressOffset(3u16)).0, 1);
    let q = Address(u64::MAX);
    assert_eq!(q.add(&AddressOffset(1u64)).0, 0);
}

#[test]
fn geometry_reports_start_size_and_page_size() {
    // start address, total size, page size at an interior address.
    let mut f = fresh(0);
    match f.try_start_address() {
        NbResult::Ready(a) => assert_eq!(a.0, 0x0800_0000),
        other => panic!("start address not ready: {other:?}"),
    }
    match f.try_total_size() {
        NbResult::Ready(o) => assert_eq!(o.0, 0x1000),
        other => panic!("total size not ready: {other:?}"),
    }
    match f.try_page_size(Address(0x0800_0080u32)) {
        NbResult::Ready(o) => assert_eq!(o.0, 0x100),
        other => panic!("page size not ready: {other:?}"),
    }
}

#[test]
fn page_size_outside_range_errors() {
    let mut f = fresh(0);
    match f.try_page_size(Address(START + PAGES * PAGE_WORDS)) {
        NbResult::Error(e) => assert_eq!(e, StorageError::OutOfRange),
        other => panic!("expected out-of-range error, got {other:?}"),
    }
}

#[test]
fn fresh_device_reads_erased_everywhere() {
    let mut f = fresh(0);
    assert_eq!(read_ready(&mut f, START), ERASED_WORD);
    assert_eq!(read_ready(&mut f, START + 0x0FFF), ERASED_WORD);
}

#[test]
fn erase_then_read_gives_polarity() {
    // erase page 3 (polling to Ready), then both ends of the page read
    // as the erased polarity.
    let mut f = fresh(2);
    match f.try_write(Address(0x0800_0300u32), 0x00) {
        NbResult::Ready(()) => {}
        other => panic!("write did not complete: {other:?}"),
    }
    match f.try_write(Address(0x0800_03FFu32), 0x13) {
        NbResult::Ready(()) => {}
        other => panic!("write did not complete: {other:?}"),
    }
    erase_ready(&mut f, 3);
    assert_eq!(read_ready(&mut f, 0x0800_0300), 0xFF);
    assert_eq!(read_ready(&mut f, 0x0800_03FF), 0xFF);
}

#[test]
fn program_single_word_after_erase() {
    // after erasing page 3, one programmed word reads back and its
    // neighbour stays erased.
    let mut f = fresh(2);
    erase_ready(&mut f, 3);
    match f.try_write(Address(0x0800_0310u32), 0xA5) {
        NbResult::Ready(()) => {}
        other => panic!("write did not complete: {other:?}"),
    }
    assert_eq!(read_ready(&mut f, 0x0800_0310), 0xA5);
    assert_eq!(read_ready(&mut f, 0x0800_0311), 0xFF);
}

#[test]
fn flash_polarity_cannot_set_bits() {
    // writing 0xFF over 0xA5 cannot set bits: the device accepts the
    // program but the stored value stays 0xA5.
    let mut f = fresh(2);
    erase_ready(&mut f, 3);
    match f.try_write(Address(0x0800_0310u32), 0xA5) {
        NbResult::Ready(()) => {}
        other => panic!("write did not complete: {other:?}"),
    }
    match f.try_write(Address(0x0800_0310u32), 0xFF) {
        NbResult::Ready(()) => {}
        NbResult::Error(_) => {}
        NbResult::WouldBlock => panic!("idle write answered WouldBlock"),
    }
    assert_eq!(read_ready(&mut f, 0x0800_0310), 0xA5);
}

#[test]
fn bulk_write_then_bulk_read() {
    // after erasing page 4, a bulk write of four words reads back as
    // the same four words through a fresh bulk read.
    let mut f = fresh(2);
    erase_ready(&mut f, 4);
    let mut out = [0x01u8, 0x02, 0x03, 0x04];
    match f.try_write_slice(Address(0x0800_0400u32), &mut out) {
        NbResult::Ready(()) => {}
        other => panic!("bulk write did not complete: {other:?}"),
    }
    let mut buf = [0u8; 4];
    match f.try_read_slice(Address(0x0800_0400u32), &mut buf) {
        NbResult::Ready(()) => {}
        other => panic!("bulk read did not complete: {other:?}"),
    }
    assert_eq!(buf, [0x01, 0x02, 0x03, 0x04]);
}

#[test]
fn out_of_range_read_errors_immediately() {
    // one past the last valid address is an input-domain error, not an
    // endless WouldBlock.
    let mut f = fresh(2);
    match f.try_read(Address(0x0800_1000u32)) {
        NbResult::Error(e) => assert_eq!(e, StorageError::OutOfRange),
        other => panic!("expected out-of-range error, got {other:?}"),
    }
    match f.try_read(Address(0x07FF_FFFFu32)) {
        NbResult::Error(e) => assert_eq!(e, StorageError::OutOfRange),
        other => panic!("expected out-of-range error, got {other:?}"),
    }
}

#[test]
fn out_of_range_write_errors() {
    let mut f = fresh(0);
    match f.try_write(Address(START + 0x1000), 0x00) {
        NbResult::Error(e) => assert_eq!(e, StorageError::OutOfRange),
        other => panic!("expected out-of-range error, got {other:?}"),
    }
    let mut buf = [0u8; 8];
    // a span that starts inside but runs off the end is rejected whole
    match f.try_write_slice(Address(START + 0x0FFC), &mut buf) {
        NbResult::Error(e) => assert_eq!(e, StorageError::OutOfRange),
        other => panic!("expected out-of-range error, got {other:?}"),
    }
    assert_eq!(read_ready(&mut f, START + 0x0FFC), ERASED_WORD);
}

#[test]
fn erase_by_unaligned_address_errors() {
    let mut f = fresh(0);
    match f.try_erase_address(Address(0x0800_0010u32)) {
        NbResult::Error(e) => assert_eq!(e, StorageError::NotPageAligned),
        other => panic!("expected alignment error, got {other:?}"),
    }
}

#[test]
fn erase_by_invalid_page_index_errors() {
    let mut f = fresh(0);
    match f.try_erase_page(Page(PAGES)) {
        NbResult::Error(e) => assert_eq!(e, StorageError::InvalidPage),
        other => panic!("expected invalid-page error, got {other:?}"),
    }
}

#[test]
fn erase_by_page_start_address_clears_the_page() {
    let mut f = fresh(0);
    match f.try_write(Address(0x0800_0205u32), 0x12) {
        NbResult::Ready(()) => {}
        other => panic!("write did not complete: {other:?}"),
    }
    match f.try_erase_address(Address(0x0800_0200u32)) {
        NbResult::Ready(()) => {}
        other => panic!("erase by address did not complete: {other:?}"),
    }
    assert_eq!(read_ready(&mut f, 0x0800_0205), ERASED_WORD);
}

#[test]
fn erase_clears_exactly_its_page() {
    // The page-size consistency scenario: erasing a page restores its own
    // 256 words and leaves both neighbours untouched.
    let mut f = fresh(0);
    for address in [0x0800_01FFu32, 0x0800_0210, 0x0800_0300] {
        match f.try_write(Address(address), 0x00) {
            NbResult::Ready(()) => {}
            other => panic!("write did not complete: {other:?}"),
        }
    }
    match f.try_erase_page(Page(2u32)) {
        NbResult::Ready(()) => {}
        other => panic!("erase did not complete: {other:?}"),
    }
    assert_eq!(read_ready(&mut f, 0x0800_01FF), 0x00);
    assert_eq!(read_ready(&mut f, 0x0800_0210), ERASED_WORD);
    assert_eq!(read_ready(&mut f, 0x0800_0300), 0x00);
}

#[test]
fn bulk_read_matches_single_reads() {
    let mut f = fresh(0);
    let mut pattern = [0xA0u8, 0xB1, 0xC2, 0xD3, 0xE4];
    match f.try_write_slice(Address(0x0800_0100u32), &mut pattern) {
        NbResult::Ready(()) => {}
        other => panic!("bulk write did not complete: {other:?}"),
    }
    let mut bulk = [0u8; 5];
    match f.try_read_slice(Address(0x0800_0100u32), &mut bulk) {
        NbResult::Ready(()) => {}
        other => panic!("bulk read did not complete: {other:?}"),
    }
    for i in 0..5u32 {
        let single = read_ready(&mut f, 0x0800_0100 + i);
        assert_eq!(bulk[i as usize], single);
    }
}

#[test]
fn bulk_write_programs_each_word_with_flash_polarity() {
    // Programming ANDs each word onto what is already stored.
    let mut f = fresh(0);
    let mut first = [0x0Fu8, 0xF0];
    match f.try_write_slice(Address(START), &mut first) {
        NbResult::Ready(()) => {}
        other => panic!("bulk write did not complete: {other:?}"),
    }
    let mut second = [0x33u8, 0x33];
    match f.try_write_slice(Address(START), &mut second) {
        NbResult::Ready(()) => {}
        other => panic!("bulk write did not complete: {other:?}"),
    }
    assert_eq!(read_ready(&mut f, START), 0x03);
    assert_eq!(read_ready(&mut f, START + 1), 0x30);
}

#[test]
fn would_block_drains_in_bounded_polls() {
    // A busy device answers WouldBlock only finitely often: an erase with
    // latency 3 completes within latency + 2 calls, and a read issued
    // against the busy device completes within latency + 1 calls.
    let mut f = fresh(3);
    match f.try_write(Address(0x0800_0500u32), 0x00) {
        NbResult::Ready(()) => {}
        other => panic!("write did not complete: {other:?}"),
    }
    let mut calls = 0u32;
    loop {
        calls += 1;
        match f.erase_page_at(5) {
            NbResult::Ready(()) => break,
            NbResult::WouldBlock => assert!(calls <= 5, "erase exceeded its poll bound"),
            NbResult::Error(e) => panic!("erase failed: {e:?}"),
        }
    }
    assert!(calls <= 5);

    let mut f = fresh(3);
    match f.try_write(Address(0x0800_0520u32), 0x00) {
        NbResult::Ready(()) => {}
        other => panic!("write did not complete: {other:?}"),
    }
    match f.erase_page_at(5) {
        NbResult::WouldBlock => {}
        other => panic!("first erase call should block, got {other:?}"),
    }
    let mut reads = 0u32;
    loop {
        reads += 1;
        match f.read_at(0x0800_0500) {
            NbResult::Ready(w) => {
                assert_eq!(w, ERASED_WORD);
                break;
            }
            NbResult::WouldBlock => assert!(reads <= 4, "read exceeded its poll bound"),
            NbResult::Error(e) => panic!("read failed: {e:?}"),
        }
    }
}

#[test]
fn blocking_helpers_complete_on_a_busy_device() {
    let mut f = fresh(4);
    assert_eq!(f.write_blocking(0x0800_0700, 0x00), Ok(()));
    assert_eq!(f.erase_page_blocking(7), Ok(()));
    assert_eq!(f.write_blocking(0x0800_0700, 0x5A), Ok(()));
    assert_eq!(f.read_blocking(0x0800_0700), Ok(0x5A));
    assert_eq!(f.read_blocking(0x0800_1000), Err(StorageError::OutOfRange));
    assert_eq!(f.erase_page_blocking(99), Err(StorageError::InvalidPage));
}

#[test]
fn read_after_write_on_erased_cells() {
    // Read-after-write: on freshly erased cells the bit-clearing program
    // behaves like an overwrite, so every written word reads back.
    let mut f = fresh(0);
    for (i, w) in [0x00u8, 0x5A, 0x7F, 0x80, 0xFE].into_iter().enumerate() {
        let address = START + 0x20 + i as u32;
        match f.try_write(Address(address), w) {
            NbResult::Ready(()) => {}
            other => panic!("write did not complete: {other:?}"),
        }
        assert_eq!(read_ready(&mut f, address), w);
    }
}

#[test]
fn bulk_write_snapshot_semantics() {
    // The words that land on the device are the buffer as it was before
    // the call (this device does not clobber the buffer at all).
    let mut f = fresh(0);
    let mut buf = [0x11u8, 0x22, 0x33];
    match f.try_write_slice(Address(START + 0x40), &mut buf) {
        NbResult::Ready(()) => {}
        other => panic!("bulk write did not complete: {other:?}"),
    }
    assert_eq!(buf, [0x11, 0x22, 0x33]);
    assert_eq!(read_ready(&mut f, START + 0x40), 0x11);
    assert_eq!(read_ready(&mut f, START + 0x41), 0x22);
    assert_eq!(read_ready(&mut f, START + 0x42), 0x33);
}

#[test]
fn generic_polls_complete_on_a_busy_device() {
    // The capability-level poll loops work against any conforming driver;
    // here they ride out an erase in progress on the model device.
    let mut f = fresh(3);
    assert_eq!(f.write_blocking(0x0800_0600, 0x00), Ok(()));
    match f.erase_page_at(6) {
        NbResult::WouldBlock => {}
        other => panic!("erase of a programmed page should block, got {other:?}"),
    }
    assert_eq!(poll_read(&mut f, Address(0x0800_0600u32)), Ok(ERASED_WORD));
    assert_eq!(poll_write(&mut f, Address(0x0800_0611u32), 0x42), Ok(()));
    assert_eq!(poll_read(&mut f, Address(0x0800_0611u32)), Ok(0x42));
    assert_eq!(
        poll_read(&mut f, Address(0x0800_1000u32)),
        Err(StorageError::OutOfRange)
    );
}

#[test]
fn generic_erase_poll_completes() {
    // The capability-level erase poll terminates against any conforming
    // driver: one initiation, then a draining busy period.
    let mut f = fresh(3);
    assert_eq!(f.write_blocking(0x0800_0800, 0x00), Ok(()));
    assert_eq!(poll_erase_page(&mut f, Page(8u32)), Ok(()));
    assert_eq!(f.read_blocking(0x0800_0800), Ok(ERASED_WORD));
    assert_eq!(
        poll_erase_page(&mut f, Page(PAGES)),
        Err(StorageError::InvalidPage)
    );
}
