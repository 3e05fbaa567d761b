//! The handle by which a value in guest memory is referred to.
use vstd::prelude::*;

verus! {

/// A handle to a value held in guest memory: the byte offset in the upper
/// 32 bits and the byte length in the lower 32 bits. The handle of offset 0
/// and length 0 stands for an empty value like any other handle of length 0;
/// no handle stands for a missing value or an error.
pub type FatPtr = u64;

/// The handle that packs `ptr` and `len`, as a mathematical integer.
pub open spec fn spec_fat_ptr(ptr: u32, len: u32) -> int {
    ptr as int * 0x1_0000_0000 + len as int
}

/// The offset that a handle holds.
pub open spec fn spec_offset(fat: FatPtr) -> int {
    fat as int / 0x1_0000_0000
}

/// The length that a handle holds.
pub open spec fn spec_length(fat: FatPtr) -> int {
    fat as int % 0x1_0000_0000
}

/// Packs an offset and a length into one handle.
pub fn to_fat_ptr(ptr: u32, len: u32) -> (fat: FatPtr)
    ensures
        fat as int == spec_fat_ptr(ptr, len),
        spec_offset(fat) == ptr,
        spec_length(fat) == len,
{
    let hi: u64 = ptr as u64;
    let lo: u64 = len as u64;
    assert((hi << 32) | lo == hi * 0x1_0000_0000 + lo) by (bit_vector)
        requires
            hi <= 0xffff_ffff,
            lo <= 0xffff_ffff,
    ;
    (hi << 32) | lo
}

/// Takes a handle apart into its offset and its length.
pub fn from_fat_ptr(fat: FatPtr) -> (r: (u32, u32))
    ensures
        r.0 as int == spec_offset(fat),
        r.1 as int == spec_length(fat),
        spec_fat_ptr(r.0, r.1) == fat as int,
{
    assert(fat >> 32 == fat / 0x1_0000_0000) by (bit_vector);
    assert(fat & 0xffff_ffff == fat % 0x1_0000_0000) by (bit_vector);
    assert(fat >> 32 <= 0xffff_ffff) by (bit_vector);
    ((fat >> 32) as u32, (fat & 0xffff_ffff) as u32)
}

/// Packing and taking apart undo each other: a handle holds exactly one
/// offset and one length, and every 64-bit value is the handle of one pair.
pub proof fn lemma_fat_ptr_round_trip(ptr: u32, len: u32, fat: FatPtr)
    ensures
        0 <= spec_fat_ptr(ptr, len) <= u64::MAX,
        spec_offset(spec_fat_ptr(ptr, len) as u64) == ptr,
        spec_length(spec_fat_ptr(ptr, len) as u64) == len,
        0 <= spec_offset(fat) <= u32::MAX,
        0 <= spec_length(fat) <= u32::MAX,
        spec_fat_ptr(spec_offset(fat) as u32, spec_length(fat) as u32) == fat,
{
}

} // verus!
