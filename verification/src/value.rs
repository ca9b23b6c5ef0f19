use vstd::prelude::*;
use vstd::slice::slice_index_get;

verus! {

/// A sequence of `n` zero bytes.
pub open spec fn zero_bytes(n: nat) -> Seq<u8> {
    Seq::new(n, |i: int| 0u8)
}

/// A fixed-width payload type that a shared region can hold.
///
/// The type determines its byte width and converts to and from the
/// little-endian byte image stored at the start of the mapped region;
/// that image is the entire exchange convention between cooperating
/// handles.
pub trait ShmValue: Sized + Copy {
    /// Byte width of the stored image.
    spec fn width() -> nat;

    /// The little-endian byte image of a value.
    spec fn as_le_bytes(self) -> Seq<u8>;

    /// The value read back from a byte image of exactly `width()` bytes.
    spec fn of_le_bytes(s: Seq<u8>) -> Self;

    /// The value whose byte image is all zero bits.
    spec fn zero() -> Self;

    /// Byte width of the stored image, as a machine integer.
    fn byte_width() -> (n: usize)
        ensures
            n as nat == Self::width(),
            n >= 1,
    ;

    /// Encodes a value into its little-endian byte image.
    fn to_bytes(self) -> (v: Vec<u8>)
        ensures
            v@ == self.as_le_bytes(),
            v@.len() == Self::width(),
    ;

    /// Decodes a value from its little-endian byte image.
    fn from_bytes(bytes: &[u8]) -> (r: Self)
        requires
            bytes@.len() == Self::width(),
        ensures
            r == Self::of_le_bytes(bytes@),
    ;

    /// The byte image always has exactly `width()` bytes.
    proof fn lemma_width(self)
        ensures
            self.as_le_bytes().len() == Self::width(),
    ;

    /// Decoding an encoded value yields the value back.
    proof fn lemma_round_trip(self)
        ensures
            Self::of_le_bytes(self.as_le_bytes()) == self,
    ;

    /// Decoding an all-zero image yields the zero value.
    proof fn lemma_zero_image()
        ensures
            Self::of_le_bytes(zero_bytes(Self::width())) == Self::zero(),
    ;
}

/// The value stored at the start of a region whose bytes are `bytes`.
pub open spec fn typed_read<T: ShmValue>(bytes: Seq<u8>) -> T {
    T::of_le_bytes(bytes.take(T::width() as int))
}

impl ShmValue for u8 {
    open spec fn width() -> nat {
        1
    }

    open spec fn as_le_bytes(self) -> Seq<u8> {
        seq![self]
    }

    open spec fn of_le_bytes(s: Seq<u8>) -> u8 {
        s[0]
    }

    open spec fn zero() -> u8 {
        0u8
    }

    fn byte_width() -> usize {
        1
    }

    fn to_bytes(self) -> (v: Vec<u8>) {
        let mut v: Vec<u8> = Vec::new();
        v.push(self);
        proof {
            assert(v@ =~= seq![self]);
        }
        v
    }

    fn from_bytes(bytes: &[u8]) -> u8 {
        *slice_index_get(bytes, 0)
    }

    proof fn lemma_width(self) {
    }

    proof fn lemma_round_trip(self) {
    }

    proof fn lemma_zero_image() {
        assert(zero_bytes(1)[0] == 0u8);
    }
}

impl ShmValue for u16 {
    open spec fn width() -> nat {
        2
    }

    open spec fn as_le_bytes(self) -> Seq<u8> {
        seq![(self & 0xff) as u8, ((self >> 8) & 0xff) as u8]
    }

    open spec fn of_le_bytes(s: Seq<u8>) -> u16 {
        (s[0] as u16) | ((s[1] as u16) << 8)
    }

    open spec fn zero() -> u16 {
        0u16
    }

    fn byte_width() -> usize {
        2
    }

    fn to_bytes(self) -> (v: Vec<u8>) {
        proof {
            assert(self & 0xff < 256) by (bit_vector);
            assert((self >> 8) & 0xff < 256) by (bit_vector);
        }
        let mut v: Vec<u8> = Vec::new();
        v.push((self & 0xff) as u8);
        v.push(((self >> 8) & 0xff) as u8);
        proof {
            assert(v@ =~= self.as_le_bytes());
        }
        v
    }

    fn from_bytes(bytes: &[u8]) -> (r: u16) {
        let b0 = *slice_index_get(bytes, 0);
        let b1 = *slice_index_get(bytes, 1);
        (b0 as u16) | ((b1 as u16) << 8)
    }

    proof fn lemma_width(self) {
    }

    proof fn lemma_round_trip(self) {
        let x = self;
        assert(((((x & 0xff) as u8) as u16) | ((((x >> 8) & 0xff) as u8) as u16) << 8) == x)
            by (bit_vector);
    }

    proof fn lemma_zero_image() {
        let z = zero_bytes(2);
        assert(z[0] == 0u8 && z[1] == 0u8);
        assert(((0u8 as u16) | ((0u8 as u16) << 8)) == 0u16) by (bit_vector);
    }
}

impl ShmValue for u32 {
    open spec fn width() -> nat {
        4
    }

    open spec fn as_le_bytes(self) -> Seq<u8> {
        seq![
            (self & 0xff) as u8,
            ((self >> 8) & 0xff) as u8,
            ((self >> 16) & 0xff) as u8,
            ((self >> 24) & 0xff) as u8,
        ]
    }

    open spec fn of_le_bytes(s: Seq<u8>) -> u32 {
        (s[0] as u32) | ((s[1] as u32) << 8) | ((s[2] as u32) << 16) | ((s[3] as u32) << 24)
    }

    open spec fn zero() -> u32 {
        0u32
    }

    fn byte_width() -> usize {
        4
    }

    fn to_bytes(self) -> (v: Vec<u8>) {
        proof {
            assert(self & 0xff < 256) by (bit_vector);
            assert((self >> 8) & 0xff < 256) by (bit_vector);
            assert((self >> 16) & 0xff < 256) by (bit_vector);
            assert((self >> 24) & 0xff < 256) by (bit_vector);
        }
        let mut v: Vec<u8> = Vec::new();
        v.push((self & 0xff) as u8);
        v.push(((self >> 8) & 0xff) as u8);
        v.push(((self >> 16) & 0xff) as u8);
        v.push(((self >> 24) & 0xff) as u8);
        proof {
            assert(v@ =~= self.as_le_bytes());
        }
        v
    }

    fn from_bytes(bytes: &[u8]) -> (r: u32) {
        let b0 = *slice_index_get(bytes, 0);
        let b1 = *slice_index_get(bytes, 1);
        let b2 = *slice_index_get(bytes, 2);
        let b3 = *slice_index_get(bytes, 3);
        (b0 as u32) | ((b1 as u32) << 8) | ((b2 as u32) << 16) | ((b3 as u32) << 24)
    }

    proof fn lemma_width(self) {
    }

    proof fn lemma_round_trip(self) {
        let x = self;
        assert(((((x & 0xff) as u8) as u32) | ((((x >> 8) & 0xff) as u8) as u32) << 8
            | ((((x >> 16) & 0xff) as u8) as u32) << 16 | ((((x >> 24) & 0xff) as u8) as u32)
            << 24) == x) by (bit_vector);
    }

    proof fn lemma_zero_image() {
        let z = zero_bytes(4);
        assert(z[0] == 0u8 && z[1] == 0u8 && z[2] == 0u8 && z[3] == 0u8);
        assert(((0u8 as u32) | ((0u8 as u32) << 8) | ((0u8 as u32) << 16) | ((0u8 as u32) << 24))
            == 0u32) by (bit_vector);
    }
}

impl ShmValue for u64 {
    open spec fn width() -> nat {
        8
    }

    open spec fn as_le_bytes(self) -> Seq<u8> {
        seq![
            (self & 0xff) as u8,
            ((self >> 8) & 0xff) as u8,
            ((self >> 16) & 0xff) as u8,
            ((self >> 24) & 0xff) as u8,
            ((self >> 32) & 0xff) as u8,
            ((self >> 40) & 0xff) as u8,
            ((self >> 48) & 0xff) as u8,
            ((self >> 56) & 0xff) as u8,
        ]
    }

    open spec fn of_le_bytes(s: Seq<u8>) -> u64 {
        (s[0] as u64) | ((s[1] as u64) << 8) | ((s[2] as u64) << 16) | ((s[3] as u64) << 24) | (
        (s[4] as u64) << 32) | ((s[5] as u64) << 40) | ((s[6] as u64) << 48) | ((s[7] as u64)
            << 56)
    }

    open spec fn zero() -> u64 {
        0u64
    }

    fn byte_width() -> usize {
        8
    }

    fn to_bytes(self) -> (v: Vec<u8>) {
        proof {
            assert(self & 0xff < 256) by (bit_vector);
            assert((self >> 8) & 0xff < 256) by (bit_vector);
            assert((self >> 16) & 0xff < 256) by (bit_vector);
            assert((self >> 24) & 0xff < 256) by (bit_vector);
            assert((self >> 32) & 0xff < 256) by (bit_vector);
            assert((self >> 40) & 0xff < 256) by (bit_vector);
            assert((self >> 48) & 0xff < 256) by (bit_vector);
            assert((self >> 56) & 0xff < 256) by (bit_vector);
        }
        let mut v: Vec<u8> = Vec::new();
        v.push((self & 0xff) as u8);
        v.push(((self >> 8) & 0xff) as u8);
        v.push(((self >> 16) & 0xff) as u8);
        v.push(((self >> 24) & 0xff) as u8);
        v.push(((self >> 32) & 0xff) as u8);
        v.push(((self >> 40) & 0xff) as u8);
        v.push(((self >> 48) & 0xff) as u8);
        v.push(((self >> 56) & 0xff) as u8);
        proof {
            assert(v@ =~= self.as_le_bytes());
        }
        v
    }

    fn from_bytes(bytes: &[u8]) -> (r: u64) {
        let b0 = *slice_index_get(bytes, 0);
        let b1 = *slice_index_get(bytes, 1);
        let b2 = *slice_index_get(bytes, 2);
        let b3 = *slice_index_get(bytes, 3);
        let b4 = *slice_index_get(bytes, 4);
        let b5 = *slice_index_get(bytes, 5);
        let b6 = *slice_index_get(bytes, 6);
        let b7 = *slice_index_get(bytes, 7);
        (b0 as u64) | ((b1 as u64) << 8) | ((b2 as u64) << 16) | ((b3 as u64) << 24) | ((b4 as u64)
            << 32) | ((b5 as u64) << 40) | ((b6 as u64) << 48) | ((b7 as u64) << 56)
    }

    proof fn lemma_width(self) {
    }

    proof fn lemma_round_trip(self) {
        let x = self;
        assert(((((x & 0xff) as u8) as u64) | ((((x >> 8) & 0xff) as u8) as u64) << 8
            | ((((x >> 16) & 0xff) as u8) as u64) << 16 | ((((x >> 24) & 0xff) as u8) as u64) << 24
            | ((((x >> 32) & 0xff) as u8) as u64) << 32 | ((((x >> 40) & 0xff) as u8) as u64) << 40
            | ((((x >> 48) & 0xff) as u8) as u64) << 48 | ((((x >> 56) & 0xff) as u8) as u64)
            << 56) == x) by (bit_vector);
    }

    proof fn lemma_zero_image() {
        let z = zero_bytes(8);
        assert(z[0] == 0u8 && z[1] == 0u8 && z[2] == 0u8 && z[3] == 0u8 && z[4] == 0u8 && z[5]
            == 0u8 && z[6] == 0u8 && z[7] == 0u8);
        assert(((0u8 as u64) | ((0u8 as u64) << 8) | ((0u8 as u64) << 16) | ((0u8 as u64) << 24) | (
        (0u8 as u64) << 32) | ((0u8 as u64) << 40) | ((0u8 as u64) << 48) | ((0u8 as u64) << 56))
            == 0u64) by (bit_vector);
    }
}

} // verus!
