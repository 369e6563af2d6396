//! Access rights of a mapped page, kept as a small set of flags.

use vstd::prelude::*;

verus! {

/// What a permission set stands for: which kinds of access it grants.
pub struct Flags {
    pub readable: bool,
    pub writable: bool,
    pub executable: bool,
    pub user: bool,
}

/// Bit of the readable flag in the encoded form of a permission set.
pub const PERM_R: u8 = 2;

/// Bit of the writable flag.
pub const PERM_W: u8 = 4;

/// Bit of the executable flag.
pub const PERM_X: u8 = 8;

/// Bit of the user-accessible flag.
pub const PERM_U: u8 = 16;

/// A set over the four access flags, encoded in the bits a page table
/// entry uses for them. No other bit is ever set.
#[derive(Clone, Copy, Debug)]
pub struct MapPermission {
    bits: u8,
}

pub open spec fn flags_bits(f: Flags) -> int {
    (if f.readable { 2int } else { 0 }) + (if f.writable { 4int } else { 0 })
        + (if f.executable { 8int } else { 0 }) + (if f.user { 16int } else { 0 })
}

impl View for MapPermission {
    type V = Flags;

    closed spec fn view(&self) -> Flags {
        Flags {
            readable: (self.bits / 2) % 2 == 1,
            writable: (self.bits / 4) % 2 == 1,
            executable: (self.bits / 8) % 2 == 1,
            user: (self.bits / 16) % 2 == 1,
        }
    }
}

impl Flags {
    /// The set with no flag at all.
    pub open spec fn none() -> Flags {
        Flags { readable: false, writable: false, executable: false, user: false }
    }

    /// Every flag that is in `self` or in `other`.
    pub open spec fn union(self, other: Flags) -> Flags {
        Flags {
            readable: self.readable || other.readable,
            writable: self.writable || other.writable,
            executable: self.executable || other.executable,
            user: self.user || other.user,
        }
    }

    /// Whether every flag of `other` is also in `self`.
    pub open spec fn contains(self, other: Flags) -> bool {
        &&& other.readable ==> self.readable
        &&& other.writable ==> self.writable
        &&& other.executable ==> self.executable
        &&& other.user ==> self.user
    }
}

impl MapPermission {
    /// The encoding uses the four flag bits and nothing else.
    #[verifier::type_invariant]
    spec fn inv(self) -> bool {
        self.bits % 2 == 0 && self.bits < 32
    }

    /// The empty set.
    pub fn empty() -> (p: MapPermission)
        ensures
            p@ == Flags::none(),
    {
        MapPermission { bits: 0 }
    }

    /// The set that holds the readable flag alone.
    pub fn r() -> (p: MapPermission)
        ensures
            p@ == (Flags { readable: true, ..Flags::none() }),
    {
        MapPermission { bits: PERM_R }
    }

    /// The set that holds the writable flag alone.
    pub fn w() -> (p: MapPermission)
        ensures
            p@ == (Flags { writable: true, ..Flags::none() }),
    {
        MapPermission { bits: PERM_W }
    }

    /// The set that holds the executable flag alone.
    pub fn x() -> (p: MapPermission)
        ensures
            p@ == (Flags { executable: true, ..Flags::none() }),
    {
        MapPermission { bits: PERM_X }
    }

    /// The set that holds the user-accessible flag alone.
    pub fn u() -> (p: MapPermission)
        ensures
            p@ == (Flags { user: true, ..Flags::none() }),
    {
        MapPermission { bits: PERM_U }
    }

    /// The set with exactly the flags of both operands.
    pub fn union(self, other: MapPermission) -> (p: MapPermission)
        ensures
            p@ == self@.union(other@),
    {
        let a: u8 = self.bits;
        let b: u8 = other.bits;
        let c: u8 = a | b;
        proof {
            use_type_invariant(self);
            use_type_invariant(other);
        }
        assert(c % 2 == 0 && c < 32) by (bit_vector)
            requires
                c == a | b,
                a % 2 == 0 && a < 32,
                b % 2 == 0 && b < 32,
        ;
        assert(((c / 2) % 2 == 1) == ((a / 2) % 2 == 1 || (b / 2) % 2 == 1)) by (bit_vector)
            requires
                c == a | b,
        ;
        assert(((c / 4) % 2 == 1) == ((a / 4) % 2 == 1 || (b / 4) % 2 == 1)) by (bit_vector)
            requires
                c == a | b,
        ;
        assert(((c / 8) % 2 == 1) == ((a / 8) % 2 == 1 || (b / 8) % 2 == 1)) by (bit_vector)
            requires
                c == a | b,
        ;
        assert(((c / 16) % 2 == 1) == ((a / 16) % 2 == 1 || (b / 16) % 2 == 1)) by (bit_vector)
            requires
                c == a | b,
        ;
        MapPermission { bits: c }
    }

    /// Whether every flag of `other` is in `self`.
    pub fn contains(self, other: MapPermission) -> (b: bool)
        ensures
            b == self@.contains(other@),
    {
        let a: u8 = self.bits;
        let o: u8 = other.bits;
        proof {
            use_type_invariant(self);
            use_type_invariant(other);
        }
        assert((a & o == o) == ({
            &&& ((o / 2) % 2 == 1 ==> (a / 2) % 2 == 1)
            &&& ((o / 4) % 2 == 1 ==> (a / 4) % 2 == 1)
            &&& ((o / 8) % 2 == 1 ==> (a / 8) % 2 == 1)
            &&& ((o / 16) % 2 == 1 ==> (a / 16) % 2 == 1)
        })) by (bit_vector)
            requires
                a % 2 == 0 && a < 32,
                o % 2 == 0 && o < 32,
        ;
        a & o == o
    }

    /// Whether the set grants reading.
    pub fn is_readable(self) -> (b: bool)
        ensures
            b == self@.readable,
    {
        let a: u8 = self.bits;
        assert((a & 2 != 0) == ((a / 2) % 2 == 1)) by (bit_vector);
        a & PERM_R != 0
    }

    /// Whether the set grants writing.
    pub fn is_writable(self) -> (b: bool)
        ensures
            b == self@.writable,
    {
        let a: u8 = self.bits;
        assert((a & 4 != 0) == ((a / 4) % 2 == 1)) by (bit_vector);
        a & PERM_W != 0
    }

    /// Whether the set grants execution.
    pub fn is_executable(self) -> (b: bool)
        ensures
            b == self@.executable,
    {
        let a: u8 = self.bits;
        assert((a & 8 != 0) == ((a / 8) % 2 == 1)) by (bit_vector);
        a & PERM_X != 0
    }

    /// Whether the set grants access from user mode.
    pub fn is_user(self) -> (b: bool)
        ensures
            b == self@.user,
    {
        let a: u8 = self.bits;
        assert((a & 16 != 0) == ((a / 16) % 2 == 1)) by (bit_vector);
        a & PERM_U != 0
    }

    /// The encoded form: the sum of the bits of the flags in the set.
    pub fn bits(self) -> (b: u8)
        ensures
            b == flags_bits(self@),
    {
        proof {
            use_type_invariant(self);
        }
        self.bits
    }
}

} // verus!
