//! The options that steer a run, held as a set of bits.

use vstd::prelude::*;

verus! {

/// The bits that name an option.
pub const ALL_BITS: u32 = 0xf;

/// A set of options.
#[derive(Clone, Copy, Debug, PartialEq, Eq, Structural, Hash)]
pub struct Flag {
    pub bits: u32,
}

impl Flag {
    /// The option `NO_DELETE`, as a set.
    pub open spec fn no_delete_set() -> Flag {
        Flag { bits: 0x1 }
    }

    /// Keep what only the destination holds.
    #[verifier::when_used_as_spec(no_delete_set)]
    pub fn no_delete() -> (flag: Flag)
        ensures
            flag == Flag::no_delete_set(),
    {
        Flag { bits: 0x1 }
    }

    /// The option `SECURE`, as a set.
    pub open spec fn secure_set() -> Flag {
        Flag { bits: 0x2 }
    }

    /// Compare contents by the cryptographic digest.
    #[verifier::when_used_as_spec(secure_set)]
    pub fn secure() -> (flag: Flag)
        ensures
            flag == Flag::secure_set(),
    {
        Flag { bits: 0x2 }
    }

    /// The option `VERBOSE`, as a set.
    pub open spec fn verbose_set() -> Flag {
        Flag { bits: 0x4 }
    }

    /// Report every entry that is handled.
    #[verifier::when_used_as_spec(verbose_set)]
    pub fn verbose() -> (flag: Flag)
        ensures
            flag == Flag::verbose_set(),
    {
        Flag { bits: 0x4 }
    }

    /// The option `SEQUENTIAL`, as a set.
    pub open spec fn sequential_set() -> Flag {
        Flag { bits: 0x8 }
    }

    /// Work with a single worker.
    #[verifier::when_used_as_spec(sequential_set)]
    pub fn sequential() -> (flag: Flag)
        ensures
            flag == Flag::sequential_set(),
    {
        Flag { bits: 0x8 }
    }

    /// Whether every option of `other` is in `self`.
    pub open spec fn has(self, other: Flag) -> bool {
        self.bits & other.bits == other.bits
    }

    /// The set without any option.
    pub fn empty() -> (flags: Flag)
        ensures
            flags.bits == 0,
    {
        Flag { bits: 0 }
    }

    /// The set as bits.
    pub fn bits(&self) -> (bits: u32)
        ensures
            bits == self.bits,
    {
        self.bits
    }

    /// The set that the bits name; bits that name no option are dropped.
    pub fn from_bits_truncate(bits: u32) -> (flags: Flag)
        ensures
            flags.bits == bits & ALL_BITS,
    {
        Flag { bits: bits & ALL_BITS }
    }

    /// Whether no option is set.
    pub fn is_empty(&self) -> (none: bool)
        ensures
            none == (self.bits == 0),
    {
        self.bits == 0
    }

    /// Whether every option of `other` is in `self`.
    pub fn contains(&self, other: Flag) -> (all: bool)
        ensures
            all == self.has(other),
    {
        (self.bits & other.bits) == other.bits
    }

    /// The options of both sets.
    pub fn union(self, other: Flag) -> (both: Flag)
        ensures
            both.bits == self.bits | other.bits,
    {
        Flag { bits: self.bits | other.bits }
    }

    /// Adds the options of `other` to `self`.
    pub fn insert(&mut self, other: Flag)
        ensures
            final(self).bits == old(self).bits | other.bits,
    {
        self.bits = self.bits | other.bits;
    }
}

/// The set that holds exactly the options chosen.
pub open spec fn flags_of(no_delete: bool, secure: bool, verbose: bool, sequential: bool) -> Flag {
    Flag {
        bits: (if no_delete { 0x1u32 } else { 0u32 }) | (if secure { 0x2u32 } else { 0u32 }) | (if verbose {
            0x4u32
        } else {
            0u32
        }) | (if sequential { 0x8u32 } else { 0u32 }),
    }
}

/// A set built from four choices holds an option exactly where it was chosen.
pub proof fn lemma_flags_of(no_delete: bool, secure: bool, verbose: bool, sequential: bool)
    ensures
        flags_of(no_delete, secure, verbose, sequential).has(Flag::no_delete()) == no_delete,
        flags_of(no_delete, secure, verbose, sequential).has(Flag::secure()) == secure,
        flags_of(no_delete, secure, verbose, sequential).has(Flag::verbose()) == verbose,
        flags_of(no_delete, secure, verbose, sequential).has(Flag::sequential()) == sequential,
{
    let a: u32 = if no_delete { 0x1u32 } else { 0u32 };
    let b: u32 = if secure { 0x2u32 } else { 0u32 };
    let c: u32 = if verbose { 0x4u32 } else { 0u32 };
    let d: u32 = if sequential { 0x8u32 } else { 0u32 };
    assert(((a | b | c | d) & 0x1u32 == 0x1u32) == (a == 0x1u32) && ((a | b | c | d) & 0x2u32 == 0x2u32) == (b
        == 0x2u32) && ((a | b | c | d) & 0x4u32 == 0x4u32) == (c == 0x4u32) && ((a | b | c | d) & 0x8u32
        == 0x8u32) == (d == 0x8u32)) by (bit_vector)
        requires
            a == 0x1u32 || a == 0u32,
            b == 0x2u32 || b == 0u32,
            c == 0x4u32 || c == 0u32,
            d == 0x8u32 || d == 0u32,
    ;
}

} // verus!
