//! Bit sets of io interests and file open modes.
//!
//! Each flag is one bit of a `usize`; a value is any set of bits, flags or
//! not, and the operations are the set operations on the bits.
use vstd::prelude::*;

verus! {

/// The io events a source is registered for.
#[derive(Clone, Copy, PartialEq, Eq, Structural, Debug, Hash)]
pub struct Interest(usize);

/// The bits of the flags of [`Interest`]: `Writable` and `Readable`.
pub open spec fn interest_flag_bits() -> usize {
    3
}

impl Interest {
    /// The bits of the set.
    pub closed spec fn view(&self) -> usize {
        self.0
    }

    /// Interest in the source becoming writable.
    #[allow(non_snake_case)]
    pub fn Writable() -> (r: Interest)
        ensures
            r@ == 1,
    {
        Interest(1)
    }

    /// Interest in the source becoming readable.
    #[allow(non_snake_case)]
    pub fn Readable() -> (r: Interest)
        ensures
            r@ == 2,
    {
        Interest(2)
    }

    /// The set with the given bits.
    pub fn from_bits(bits: usize) -> (r: Interest)
        ensures
            r@ == bits,
    {
        Interest(bits)
    }

    /// The underlying bits.
    pub fn bits(&self) -> (r: usize)
        ensures
            r == self@,
    {
        self.0
    }

    /// All bits set, flags or not.
    pub fn all_bits() -> (r: Interest)
        ensures
            r@ == usize::MAX,
    {
        Interest(usize::MAX)
    }

    /// All bits set, flags or not (the older name of `all_bits`).
    pub fn all() -> (r: Interest)
        ensures
            r@ == usize::MAX,
    {
        Self::all_bits()
    }

    /// All flags set, and no other bit.
    pub fn all_flags() -> (r: Interest)
        ensures
            r@ == interest_flag_bits(),
    {
        Interest(3)
    }

    /// All flags set, and no other bit (the older name of `all_flags`).
    pub fn full() -> (r: Interest)
        ensures
            r@ == interest_flag_bits(),
    {
        Self::all_flags()
    }

    /// Whether every bit is set.
    pub fn is_all_bits(&self) -> (r: bool)
        ensures
            r == (self@ == usize::MAX),
    {
        self.0 == usize::MAX
    }

    /// Whether every bit is set (the older name of `is_all_bits`).
    pub fn is_all(&self) -> (r: bool)
        ensures
            r == (self@ == usize::MAX),
    {
        self.is_all_bits()
    }

    /// Whether the bits are exactly the flags.
    pub fn is_all_flags(&self) -> (r: bool)
        ensures
            r == (self@ == interest_flag_bits()),
    {
        self.0 == 3
    }

    /// Whether the bits are exactly the flags (the older name of
    /// `is_all_flags`).
    pub fn is_full(&self) -> (r: bool)
        ensures
            r == (self@ == interest_flag_bits()),
    {
        self.is_all_flags()
    }

    /// The empty set.
    pub fn none() -> (r: Interest)
        ensures
            r@ == 0,
    {
        Interest(0)
    }

    /// Whether no bit is set.
    pub fn is_none(&self) -> (r: bool)
        ensures
            r == (self@ == 0),
    {
        self.0 == 0
    }

    /// The set with only the bits that are flags.
    pub fn truncate(&self) -> (r: Interest)
        ensures
            r@ == self@ & interest_flag_bits(),
    {
        Interest(self.0 & 3)
    }

    /// Whether the two sets share a bit, or `other` is empty.
    pub fn intersects(&self, other: Interest) -> (r: bool)
        ensures
            r == (self@ & other@ != 0 || other@ == 0),
    {
        (self.0 & other.0) != 0 || other.0 == 0
    }

    /// Whether every bit of `other` is in `self`.
    pub fn contains(&self, other: Interest) -> (r: bool)
        ensures
            r == (self@ & other@ == other@),
    {
        (self.0 & other.0) == other.0
    }

    /// The complement.
    pub fn not(self) -> (r: Interest)
        ensures
            r@ == !self@,
    {
        Interest(!self.0)
    }

    /// The intersection.
    pub fn and(self, other: Interest) -> (r: Interest)
        ensures
            r@ == self@ & other@,
    {
        Interest(self.0 & other.0)
    }

    /// The union.
    pub fn or(self, other: Interest) -> (r: Interest)
        ensures
            r@ == self@ | other@,
    {
        Interest(self.0 | other.0)
    }

    /// The symmetric difference.
    pub fn xor(self, other: Interest) -> (r: Interest)
        ensures
            r@ == self@ ^ other@,
    {
        Interest(self.0 ^ other.0)
    }
}

impl std::ops::BitOr for Interest {
    type Output = Interest;

    fn bitor(self, rhs: Interest) -> (r: Interest)
        ensures
            r@ == self@ | rhs@,
    {
        self.or(rhs)
    }
}

impl vstd::std_specs::ops::BitOrSpecImpl for Interest {
    open spec fn obeys_bitor_spec() -> bool {
        true
    }

    open spec fn bitor_req(self, rhs: Interest) -> bool {
        true
    }

    closed spec fn bitor_spec(self, rhs: Interest) -> Interest {
        Interest(self.0 | rhs.0)
    }
}

impl std::ops::BitAnd for Interest {
    type Output = Interest;

    fn bitand(self, rhs: Interest) -> (r: Interest)
        ensures
            r@ == self@ & rhs@,
    {
        self.and(rhs)
    }
}

impl vstd::std_specs::ops::BitAndSpecImpl for Interest {
    open spec fn obeys_bitand_spec() -> bool {
        true
    }

    open spec fn bitand_req(self, rhs: Interest) -> bool {
        true
    }

    closed spec fn bitand_spec(self, rhs: Interest) -> Interest {
        Interest(self.0 & rhs.0)
    }
}

impl std::ops::BitXor for Interest {
    type Output = Interest;

    fn bitxor(self, rhs: Interest) -> (r: Interest)
        ensures
            r@ == self@ ^ rhs@,
    {
        self.xor(rhs)
    }
}

impl vstd::std_specs::ops::BitXorSpecImpl for Interest {
    open spec fn obeys_bitxor_spec() -> bool {
        true
    }

    open spec fn bitxor_req(self, rhs: Interest) -> bool {
        true
    }

    closed spec fn bitxor_spec(self, rhs: Interest) -> Interest {
        Interest(self.0 ^ rhs.0)
    }
}

impl std::ops::Not for Interest {
    type Output = Interest;

    fn not(self) -> (r: Interest)
        ensures
            r@ == !self@,
    {
        Interest(!self.0)
    }
}

impl vstd::std_specs::ops::NotSpecImpl for Interest {
    open spec fn obeys_not_spec() -> bool {
        true
    }

    open spec fn not_req(self) -> bool {
        true
    }

    closed spec fn not_spec(self) -> Interest {
        Interest(!self.0)
    }
}

impl From<usize> for Interest {
    fn from(bits: usize) -> (r: Interest)
        ensures
            r@ == bits,
    {
        Interest(bits)
    }
}

impl vstd::std_specs::convert::FromSpecImpl<usize> for Interest {
    open spec fn obeys_from_spec() -> bool {
        true
    }

    closed spec fn from_spec(bits: usize) -> Interest {
        Interest(bits)
    }
}

impl From<Interest> for usize {
    fn from(set: Interest) -> (r: usize)
        ensures
            r == set@,
    {
        set.0
    }
}

impl vstd::std_specs::convert::FromSpecImpl<Interest> for usize {
    open spec fn obeys_from_spec() -> bool {
        true
    }

    closed spec fn from_spec(set: Interest) -> usize {
        set.0
    }
}

/// Laws of the set operations on [`Interest`].
impl Interest {
    /// A union contains both of its operands.
    pub proof fn lemma_or_contains(a: Interest, b: Interest)
        ensures
            (a@ | b@) & a@ == a@,
            (a@ | b@) & b@ == b@,
    {
        let (x, y) = (a@, b@);
        assert((x | y) & x == x && (x | y) & y == y) by (bit_vector);
    }

    /// Taking the symmetric difference with the same set twice gives the
    /// set back.
    pub proof fn lemma_xor_involution(a: Interest, b: Interest)
        ensures
            (a@ ^ b@) ^ b@ == a@,
    {
        let (x, y) = (a@, b@);
        assert((x ^ y) ^ y == x) by (bit_vector);
    }

    /// Containment is reflexive and transitive, and every set contains the
    /// empty set.
    pub proof fn lemma_contains_order(a: Interest, b: Interest, c: Interest)
        ensures
            a@ & a@ == a@,
            a@ & 0usize == 0usize,
            (a@ & b@ == b@ && b@ & c@ == c@) ==> a@ & c@ == c@,
    {
        let (x, y, z) = (a@, b@, c@);
        assert(x & x == x && x & 0usize == 0usize) by (bit_vector);
        assert((x & y == y && y & z == z) ==> x & z == z) by (bit_vector);
    }

    /// The complement of a set shares no bit with it, and the two together
    /// are every bit.
    pub proof fn lemma_not_complements(a: Interest)
        ensures
            a@ & !a@ == 0usize,
            a@ | !a@ == !0usize,
    {
        let x = a@;
        assert(x & !x == 0usize && x | !x == !0usize) by (bit_vector);
    }
}

/// The modes a file is opened with.
#[derive(Clone, Copy, PartialEq, Eq, Structural, Debug, Hash)]
pub struct FileMode(usize);

/// The bits of the flags of [`FileMode`]: `Read`, `Write`, `Create` and `Truncate`.
pub open spec fn filemode_flag_bits() -> usize {
    15
}

impl FileMode {
    /// The bits of the set.
    pub closed spec fn view(&self) -> usize {
        self.0
    }

    /// Open for reading.
    #[allow(non_snake_case)]
    pub fn Read() -> (r: FileMode)
        ensures
            r@ == 1,
    {
        FileMode(1)
    }

    /// Open for writing.
    #[allow(non_snake_case)]
    pub fn Write() -> (r: FileMode)
        ensures
            r@ == 2,
    {
        FileMode(2)
    }

    /// Create the file if it does not exist.
    #[allow(non_snake_case)]
    pub fn Create() -> (r: FileMode)
        ensures
            r@ == 4,
    {
        FileMode(4)
    }

    /// Truncate the file to length zero.
    #[allow(non_snake_case)]
    pub fn Truncate() -> (r: FileMode)
        ensures
            r@ == 8,
    {
        FileMode(8)
    }

    /// The set with the given bits.
    pub fn from_bits(bits: usize) -> (r: FileMode)
        ensures
            r@ == bits,
    {
        FileMode(bits)
    }

    /// The underlying bits.
    pub fn bits(&self) -> (r: usize)
        ensures
            r == self@,
    {
        self.0
    }

    /// All bits set, flags or not.
    pub fn all_bits() -> (r: FileMode)
        ensures
            r@ == usize::MAX,
    {
        FileMode(usize::MAX)
    }

    /// All bits set, flags or not (the older name of `all_bits`).
    pub fn all() -> (r: FileMode)
        ensures
            r@ == usize::MAX,
    {
        Self::all_bits()
    }

    /// All flags set, and no other bit.
    pub fn all_flags() -> (r: FileMode)
        ensures
            r@ == filemode_flag_bits(),
    {
        FileMode(15)
    }

    /// All flags set, and no other bit (the older name of `all_flags`).
    pub fn full() -> (r: FileMode)
        ensures
            r@ == filemode_flag_bits(),
    {
        Self::all_flags()
    }

    /// Whether every bit is set.
    pub fn is_all_bits(&self) -> (r: bool)
        ensures
            r == (self@ == usize::MAX),
    {
        self.0 == usize::MAX
    }

    /// Whether every bit is set (the older name of `is_all_bits`).
    pub fn is_all(&self) -> (r: bool)
        ensures
            r == (self@ == usize::MAX),
    {
        self.is_all_bits()
    }

    /// Whether the bits are exactly the flags.
    pub fn is_all_flags(&self) -> (r: bool)
        ensures
            r == (self@ == filemode_flag_bits()),
    {
        self.0 == 15
    }

    /// Whether the bits are exactly the flags (the older name of
    /// `is_all_flags`).
    pub fn is_full(&self) -> (r: bool)
        ensures
            r == (self@ == filemode_flag_bits()),
    {
        self.is_all_flags()
    }

    /// The empty set.
    pub fn none() -> (r: FileMode)
        ensures
            r@ == 0,
    {
        FileMode(0)
    }

    /// Whether no bit is set.
    pub fn is_none(&self) -> (r: bool)
        ensures
            r == (self@ == 0),
    {
        self.0 == 0
    }

    /// The set with only the bits that are flags.
    pub fn truncate(&self) -> (r: FileMode)
        ensures
            r@ == self@ & filemode_flag_bits(),
    {
        FileMode(self.0 & 15)
    }

    /// Whether the two sets share a bit, or `other` is empty.
    pub fn intersects(&self, other: FileMode) -> (r: bool)
        ensures
            r == (self@ & other@ != 0 || other@ == 0),
    {
        (self.0 & other.0) != 0 || other.0 == 0
    }

    /// Whether every bit of `other` is in `self`.
    pub fn contains(&self, other: FileMode) -> (r: bool)
        ensures
            r == (self@ & other@ == other@),
    {
        (self.0 & other.0) == other.0
    }

    /// The complement.
    pub fn not(self) -> (r: FileMode)
        ensures
            r@ == !self@,
    {
        FileMode(!self.0)
    }

    /// The intersection.
    pub fn and(self, other: FileMode) -> (r: FileMode)
        ensures
            r@ == self@ & other@,
    {
        FileMode(self.0 & other.0)
    }

    /// The union.
    pub fn or(self, other: FileMode) -> (r: FileMode)
        ensures
            r@ == self@ | other@,
    {
        FileMode(self.0 | other.0)
    }

    /// The symmetric difference.
    pub fn xor(self, other: FileMode) -> (r: FileMode)
        ensures
            r@ == self@ ^ other@,
    {
        FileMode(self.0 ^ other.0)
    }
}

impl std::ops::BitOr for FileMode {
    type Output = FileMode;

    fn bitor(self, rhs: FileMode) -> (r: FileMode)
        ensures
            r@ == self@ | rhs@,
    {
        self.or(rhs)
    }
}

impl vstd::std_specs::ops::BitOrSpecImpl for FileMode {
    open spec fn obeys_bitor_spec() -> bool {
        true
    }

    open spec fn bitor_req(self, rhs: FileMode) -> bool {
        true
    }

    closed spec fn bitor_spec(self, rhs: FileMode) -> FileMode {
        FileMode(self.0 | rhs.0)
    }
}

impl std::ops::BitAnd for FileMode {
    type Output = FileMode;

    fn bitand(self, rhs: FileMode) -> (r: FileMode)
        ensures
            r@ == self@ & rhs@,
    {
        self.and(rhs)
    }
}

impl vstd::std_specs::ops::BitAndSpecImpl for FileMode {
    open spec fn obeys_bitand_spec() -> bool {
        true
    }

    open spec fn bitand_req(self, rhs: FileMode) -> bool {
        true
    }

    closed spec fn bitand_spec(self, rhs: FileMode) -> FileMode {
        FileMode(self.0 & rhs.0)
    }
}

impl std::ops::BitXor for FileMode {
    type Output = FileMode;

    fn bitxor(self, rhs: FileMode) -> (r: FileMode)
        ensures
            r@ == self@ ^ rhs@,
    {
        self.xor(rhs)
    }
}

impl vstd::std_specs::ops::BitXorSpecImpl for FileMode {
    open spec fn obeys_bitxor_spec() -> bool {
        true
    }

    open spec fn bitxor_req(self, rhs: FileMode) -> bool {
        true
    }

    closed spec fn bitxor_spec(self, rhs: FileMode) -> FileMode {
        FileMode(self.0 ^ rhs.0)
    }
}

impl std::ops::Not for FileMode {
    type Output = FileMode;

    fn not(self) -> (r: FileMode)
        ensures
            r@ == !self@,
    {
        FileMode(!self.0)
    }
}

impl vstd::std_specs::ops::NotSpecImpl for FileMode {
    open spec fn obeys_not_spec() -> bool {
        true
    }

    open spec fn not_req(self) -> bool {
        true
    }

    closed spec fn not_spec(self) -> FileMode {
        FileMode(!self.0)
    }
}

impl From<usize> for FileMode {
    fn from(bits: usize) -> (r: FileMode)
        ensures
            r@ == bits,
    {
        FileMode(bits)
    }
}

impl vstd::std_specs::convert::FromSpecImpl<usize> for FileMode {
    open spec fn obeys_from_spec() -> bool {
        true
    }

    closed spec fn from_spec(bits: usize) -> FileMode {
        FileMode(bits)
    }
}

impl From<FileMode> for usize {
    fn from(set: FileMode) -> (r: usize)
        ensures
            r == set@,
    {
        set.0
    }
}

impl vstd::std_specs::convert::FromSpecImpl<FileMode> for usize {
    open spec fn obeys_from_spec() -> bool {
        true
    }

    closed spec fn from_spec(set: FileMode) -> usize {
        set.0
    }
}

/// Laws of the set operations on [`FileMode`].
impl FileMode {
    /// A union contains both of its operands.
    pub proof fn lemma_or_contains(a: FileMode, b: FileMode)
        ensures
            (a@ | b@) & a@ == a@,
            (a@ | b@) & b@ == b@,
    {
        let (x, y) = (a@, b@);
        assert((x | y) & x == x && (x | y) & y == y) by (bit_vector);
    }

    /// Taking the symmetric difference with the same set twice gives the
    /// set back.
    pub proof fn lemma_xor_involution(a: FileMode, b: FileMode)
        ensures
            (a@ ^ b@) ^ b@ == a@,
    {
        let (x, y) = (a@, b@);
        assert((x ^ y) ^ y == x) by (bit_vector);
    }

    /// Containment is reflexive and transitive, and every set contains the
    /// empty set.
    pub proof fn lemma_contains_order(a: FileMode, b: FileMode, c: FileMode)
        ensures
            a@ & a@ == a@,
            a@ & 0usize == 0usize,
            (a@ & b@ == b@ && b@ & c@ == c@) ==> a@ & c@ == c@,
    {
        let (x, y, z) = (a@, b@, c@);
        assert(x & x == x && x & 0usize == 0usize) by (bit_vector);
        assert((x & y == y && y & z == z) ==> x & z == z) by (bit_vector);
    }

    /// The complement of a set shares no bit with it, and the two together
    /// are every bit.
    pub proof fn lemma_not_complements(a: FileMode)
        ensures
            a@ & !a@ == 0usize,
            a@ | !a@ == !0usize,
    {
        let x = a@;
        assert(x & !x == 0usize && x | !x == !0usize) by (bit_vector);
    }
}

} // verus!
