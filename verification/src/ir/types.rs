//! The types of the IR, and the hashes under which the primitive ones are
//! registered: each is the hash of the type's name in the language.

use vstd::prelude::*;

pub mod storage;
pub mod typing;

verus! {

/// `u8`
pub const UNSIGNED8_TYPE_HASH: u64 = 13591141205703589813;

/// `u16`
pub const UNSIGNED16_TYPE_HASH: u64 = 505536956482182468;

/// `u32`
pub const UNSIGNED32_TYPE_HASH: u64 = 2353707019865985453;

/// `u64`
pub const UNSIGNED64_TYPE_HASH: u64 = 12603306351716727318;

/// `u128`
pub const UNSIGNED128_TYPE_HASH: u64 = 1856538404056870600;

/// `i8`
pub const SIGNED8_TYPE_HASH: u64 = 1996545982136158036;

/// `i16`
pub const SIGNED16_TYPE_HASH: u64 = 6236146836094127899;

/// `i32`
pub const SIGNED32_TYPE_HASH: u64 = 1851586956637574266;

/// `i64`
pub const SIGNED64_TYPE_HASH: u64 = 13418197873283780248;

/// `i128`
pub const SIGNED128_TYPE_HASH: u64 = 3002026365906831431;

/// `ptr`
pub const POINTER_TYPE_HASH: u64 = 9259207781742941243;

/// `bool`
pub const BOOL_TYPE_HASH: u64 = 10699440025065254663;

/// `staticstr`
pub const STATICSTR_TYPE_HASH: u64 = 10484269008925909607;

} // verus!
