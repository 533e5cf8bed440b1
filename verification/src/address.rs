//! Strongly-typed device addresses, offsets and page indices.
//!
//! Addresses live in the device's own numbering, independent of host
//! pointers, so the wrapper types here keep host-pointer arithmetic and
//! device-address arithmetic apart. An `AddressOffset` is the only quantity
//! that may be added to or subtracted from an `Address`; adding two
//! addresses is deliberately not expressible.

use vstd::prelude::*;

verus! {

/// The value `v` reduced into `[0, m)`, for `v` already within `(-m, 2m)`.
///
/// This is exactly how unsigned machine addition and subtraction of two
/// values below `m` wrap, stated without a modulo so that the address
/// algebra below is plain case analysis.
pub open spec fn wrap(v: int, m: int) -> int {
    if v < 0 {
        v + m
    } else if v >= m {
        v - m
    } else {
        v
    }
}

/// An unsigned integer usable as a device address width.
///
/// A device picks the width `U` that fits its address space (24-, 32- or
/// 64-bit) independent of the host word size. The spec side gives each
/// value a mathematical meaning; the two executable operations are the
/// wrapping arithmetic the address algebra is defined over.
pub trait AddrUint: Copy + Sized {
    /// The mathematical value of this machine integer.
    spec fn value(self) -> int;

    /// One past the largest representable value of the width.
    spec fn modulus() -> int;

    /// Every representable value lies in `[0, modulus())`.
    proof fn value_in_range(self)
        ensures
            0 <= self.value() < Self::modulus(),
    ;

    /// Addition that wraps at the width's modulus.
    fn wrapping_add_value(self, other: Self) -> (r: Self)
        ensures
            r.value() == wrap(self.value() + other.value(), Self::modulus()),
    ;

    /// Subtraction that wraps at the width's modulus.
    fn wrapping_sub_value(self, other: Self) -> (r: Self)
        ensures
            r.value() == wrap(self.value() - other.value(), Self::modulus()),
    ;
}

impl AddrUint for u8 {
    open spec fn value(self) -> int {
        self as int
    }

    open spec fn modulus() -> int {
        0x100
    }

    proof fn value_in_range(self) {
    }

    fn wrapping_add_value(self, other: Self) -> (r: Self) {
        self.wrapping_add(other)
    }

    fn wrapping_sub_value(self, other: Self) -> (r: Self) {
        self.wrapping_sub(other)
    }
}

impl AddrUint for u16 {
    open spec fn value(self) -> int {
        self as int
    }

    open spec fn modulus() -> int {
        0x1_0000
    }

    proof fn value_in_range(self) {
    }

    fn wrapping_add_value(self, other: Self) -> (r: Self) {
        self.wrapping_add(other)
    }

    fn wrapping_sub_value(self, other: Self) -> (r: Self) {
        self.wrapping_sub(other)
    }
}

impl AddrUint for u32 {
    open spec fn value(self) -> int {
        self as int
    }

    open spec fn modulus() -> int {
        0x1_0000_0000
    }

    proof fn value_in_range(self) {
    }

    fn wrapping_add_value(self, other: Self) -> (r: Self) {
        self.wrapping_add(other)
    }

    fn wrapping_sub_value(self, other: Self) -> (r: Self) {
        self.wrapping_sub(other)
    }
}

impl AddrUint for u64 {
    open spec fn value(self) -> int {
        self as int
    }

    open spec fn modulus() -> int {
        0x1_0000_0000_0000_0000
    }

    proof fn value_in_range(self) {
    }

    fn wrapping_add_value(self, other: Self) -> (r: Self) {
        self.wrapping_add(other)
    }

    fn wrapping_sub_value(self, other: Self) -> (r: Self) {
        self.wrapping_sub(other)
    }
}

/// An absolute location in a device's address space.
///
/// The absolute value is device-defined and may be larger or smaller than a
/// host pointer.
#[derive(Debug)]
pub struct Address<U>(pub U);

/// A distance between device addresses.
///
/// Offsets are the only quantity that may be added to or subtracted from an
/// `Address`.
#[derive(Debug)]
pub struct AddressOffset<U>(pub U);

/// A zero-based page index for devices whose erase granularity is a page.
#[derive(Debug)]
pub struct Page<U>(pub U);

impl<U: AddrUint> Address<U> {
    /// `Address + AddressOffset -> Address`, wrapping at the width of `U`.
    ///
    /// A sum that overflows wraps per `U`'s arithmetic; it is then logically
    /// out of bounds and any transfer at it is rejected by the device's
    /// range check.
    pub fn add(&self, other: &AddressOffset<U>) -> (r: Address<U>)
        ensures
            r.0.value() == wrap(self.0.value() + other.0.value(), U::modulus()),
    {
        Address(self.0.wrapping_add_value(other.0))
    }

    /// `Address - AddressOffset -> Address`, wrapping at the width of `U`.
    pub fn sub(&self, other: &AddressOffset<U>) -> (r: Address<U>)
        ensures
            r.0.value() == wrap(self.0.value() - other.0.value(), U::modulus()),
    {
        Address(self.0.wrapping_sub_value(other.0))
    }
}

/// Address algebra: adding an offset and then subtracting the same offset
/// returns to the starting address, for every address and offset of the
/// width.
pub proof fn lemma_add_then_sub_cancels<U: AddrUint>(a: Address<U>, o: AddressOffset<U>)
    ensures
        wrap(wrap(a.0.value() + o.0.value(), U::modulus()) - o.0.value(), U::modulus())
            == a.0.value(),
{
    a.0.value_in_range();
    o.0.value_in_range();
}

/// Address algebra: the zero offset is the additive identity.
pub proof fn lemma_add_zero_is_identity<U: AddrUint>(a: Address<U>, o: AddressOffset<U>)
    requires
        o.0.value() == 0,
    ensures
        wrap(a.0.value() + o.0.value(), U::modulus()) == a.0.value(),
{
    a.0.value_in_range();
}

/// Address algebra: subtracting an offset and then adding the same offset
/// returns to the starting address.
pub proof fn lemma_sub_then_add_cancels<U: AddrUint>(a: Address<U>, o: AddressOffset<U>)
    ensures
        wrap(wrap(a.0.value() - o.0.value(), U::modulus()) + o.0.value(), U::modulus())
            == a.0.value(),
{
    a.0.value_in_range();
    o.0.value_in_range();
}

} // verus!
