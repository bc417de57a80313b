//! The byte order of this machine.
use vstd::prelude::*;

verus! {

/// `u16::to_ne_bytes`: the two bytes of the value, in one order or the other.
#[verifier::external_body]
fn native_bytes(value: u16) -> (r: [u8; 2])
    ensures
        crate::byte_order::le_value(r@) == value || crate::byte_order::be_value(r@) == value,
{
    value.to_ne_bytes()
}

/// Whether these can be the bytes that the machine gives for the number one.
pub closed spec fn are_native_bytes_of_one(one: [u8; 2]) -> bool {
    call_ensures(native_bytes, (1u16,), one)
}

/// Whether this machine has the least significant byte first. It is for the
/// machine to say which: it is what the bytes of the number one say.
pub fn is_native_little_endian() -> (r: bool)
    ensures
        exists|one: [u8; 2]| #[trigger]
            are_native_bytes_of_one(one) && r == (crate::byte_order::le_value(one@) == 1),
{
    let one = native_bytes(1);
    assert(are_native_bytes_of_one(one));
    is_little_endian_one(one)
}

/// Whether these bytes, which are those of the number one, have the least significant
/// byte first.
pub fn is_little_endian_one(bytes: [u8; 2]) -> (r: bool)
    requires
        crate::byte_order::le_value(bytes@) == 1 || crate::byte_order::be_value(bytes@) == 1,
    ensures
        r == (crate::byte_order::le_value(bytes@) == 1),
        r != (crate::byte_order::be_value(bytes@) == 1),
{
    proof {
        reveal_with_fuel(crate::byte_order::le_value, 3);
    }
    bytes[0] == 1
}

} // verus!
