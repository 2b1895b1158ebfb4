//! Access flags of members of classes.
use vstd::prelude::*;

verus! {

/// `rust_asm::constants::ACC_PUBLIC`, the flag of public members, is 0x0001.
#[verifier::external_body]
pub(crate) fn acc_public() -> (r: u16)
    ensures
        r == 0x0001,
{
    rust_asm::constants::ACC_PUBLIC
}

/// `rust_asm::constants::ACC_PRIVATE`, the flag of private members, is 0x0002.
#[verifier::external_body]
pub(crate) fn acc_private() -> (r: u16)
    ensures
        r == 0x0002,
{
    rust_asm::constants::ACC_PRIVATE
}

/// `rust_asm::constants::ACC_PROTECTED`, the flag of protected members, is 0x0004.
#[verifier::external_body]
pub(crate) fn acc_protected() -> (r: u16)
    ensures
        r == 0x0004,
{
    rust_asm::constants::ACC_PROTECTED
}

/// `rust_asm::constants::ACC_STATIC`, the flag of static members, is 0x0008.
#[verifier::external_body]
pub(crate) fn acc_static() -> (r: u16)
    ensures
        r == 0x0008,
{
    rust_asm::constants::ACC_STATIC
}

/// `rust_asm::constants::ACC_FINAL`, the flag of final members, is 0x0010.
#[verifier::external_body]
pub(crate) fn acc_final() -> (r: u16)
    ensures
        r == 0x0010,
{
    rust_asm::constants::ACC_FINAL
}

/// `rust_asm::constants::ACC_TRANSIENT`, the flag of transient fields, is 0x0080.
#[verifier::external_body]
pub(crate) fn acc_transient() -> (r: u16)
    ensures
        r == 0x0080,
{
    rust_asm::constants::ACC_TRANSIENT
}

/// A member with these flags is static.
pub open spec fn static_flags(flags: u16) -> bool {
    flags & 0x0008 != 0
}

/// A member with these flags is final.
pub open spec fn final_flags(flags: u16) -> bool {
    flags & 0x0010 != 0
}

/// A field with these flags is transient.
pub open spec fn transient_flags(flags: u16) -> bool {
    flags & 0x0080 != 0
}

/// Whether a member with these flags is static.
pub fn is_static(flags: u16) -> (r: bool)
    ensures
        r == static_flags(flags),
{
    flags & acc_static() != 0
}

/// Whether a member with these flags is final.
pub fn is_final(flags: u16) -> (r: bool)
    ensures
        r == final_flags(flags),
{
    flags & acc_final() != 0
}

/// Whether a field with these flags is transient.
pub fn is_transient(flags: u16) -> (r: bool)
    ensures
        r == transient_flags(flags),
{
    flags & acc_transient() != 0
}

} // verus!
