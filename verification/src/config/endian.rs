use vstd::prelude::*;

verus! {

/// Byte order of the words of a binary.
#[derive(Clone, Copy, PartialEq, Eq, Structural, PartialOrd, Ord, Hash, Debug)]
pub enum Endian {
    Big,
    Little,
}

/// The 32-bit word made of four bytes, most significant first.
pub open spec fn u32_be(b0: u8, b1: u8, b2: u8, b3: u8) -> u32 {
    (b0 as u32) << 24u32 | (b1 as u32) << 16u32 | (b2 as u32) << 8u32 | (b3 as u32)
}

/// The 16-bit value made of two bytes, most significant first.
pub open spec fn u16_be(b0: u8, b1: u8) -> u16 {
    (b0 as u16) << 8u16 | (b1 as u16)
}

/// The 64-bit value made of two 32-bit halves, most significant first.
pub open spec fn u64_from_halves(hi: u32, lo: u32) -> u64 {
    (hi as u64) << 32u64 | (lo as u64)
}

/// The word that `endian` reads from the first four bytes of `b`.
pub open spec fn spec_word_from_bytes(endian: Endian, b: Seq<u8>) -> u32 {
    match endian {
        Endian::Big => u32_be(b[0], b[1], b[2], b[3]),
        Endian::Little => u32_be(b[3], b[2], b[1], b[0]),
    }
}

/// The short that `endian` reads from the first two bytes of `b`.
pub open spec fn spec_short_from_bytes(endian: Endian, b: Seq<u8>) -> u16 {
    match endian {
        Endian::Big => u16_be(b[0], b[1]),
        Endian::Little => u16_be(b[1], b[0]),
    }
}

/// The doubleword that `endian` reads from the first eight bytes of `b`.
pub open spec fn spec_dword_from_bytes(endian: Endian, b: Seq<u8>) -> u64 {
    match endian {
        Endian::Big => u64_from_halves(u32_be(b[0], b[1], b[2], b[3]), u32_be(b[4], b[5], b[6], b[7])),
        Endian::Little => u64_from_halves(u32_be(b[7], b[6], b[5], b[4]), u32_be(b[3], b[2], b[1], b[0])),
    }
}

/// The four bytes of `w`, most significant first.
pub open spec fn u32_be_bytes(w: u32) -> Seq<u8> {
    seq![
        ((w >> 24u32) & 0xffu32) as u8,
        ((w >> 16u32) & 0xffu32) as u8,
        ((w >> 8u32) & 0xffu32) as u8,
        (w & 0xffu32) as u8,
    ]
}

/// The bytes that `endian` writes for the word `w`.
pub open spec fn spec_bytes_from_word(endian: Endian, w: u32) -> Seq<u8> {
    match endian {
        Endian::Big => u32_be_bytes(w),
        Endian::Little => u32_be_bytes(w).reverse(),
    }
}

/// The word that `endian` reads from the four bytes of `b` at `offset`.
pub open spec fn spec_word_at(endian: Endian, b: Seq<u8>, offset: int) -> u32 {
    spec_word_from_bytes(endian, b.subrange(offset, offset + 4))
}

/// Every whole word of `b`, in order, as `endian` reads them; trailing bytes are left out.
pub open spec fn spec_words(endian: Endian, b: Seq<u8>) -> Seq<u32> {
    Seq::new(b.len() / 4, |i: int| spec_word_at(endian, b, 4 * i))
}

impl Endian {
    /// Reads a word from the four bytes at `offset`, in this byte order.
    pub fn word_at(self, bytes: &[u8], offset: usize) -> (r: u32)
        requires
            offset + 4 <= bytes@.len(),
        ensures
            r == spec_word_at(self, bytes@, offset as int),
    {
        let len = bytes.len();
        assert(offset + 4 <= len);
        let (b0, b1, b2, b3) = match self {
            Endian::Big => (bytes[offset], bytes[offset + 1], bytes[offset + 2], bytes[offset + 3]),
            Endian::Little => (bytes[offset + 3], bytes[offset + 2], bytes[offset + 1], bytes[offset]),
        };
        (b0 as u32) << 24u32 | (b1 as u32) << 16u32 | (b2 as u32) << 8u32 | (b3 as u32)
    }

    /// Every whole word of `bytes`, in order; trailing bytes are left out.
    pub fn words(self, bytes: &[u8]) -> (r: Vec<u32>)
        ensures
            r@ == spec_words(self, bytes@),
    {
        let len = bytes.len();
        let n = len / 4;
        let mut out: Vec<u32> = Vec::new();
        let mut i: usize = 0;
        while i < n
            invariant
                len == bytes@.len(),
                n == bytes@.len() / 4,
                i <= n,
                out@.len() == i,
                forall|j: int| 0 <= j < i ==> out@[j] == spec_word_at(self, bytes@, 4 * j),
            decreases n - i,
        {
            assert(4 * i + 4 <= bytes@.len()) by (nonlinear_arith)
                requires
                    i < n,
                    n == bytes@.len() / 4,
            ;
            out.push(self.word_at(bytes, 4 * i));
            i = i + 1;
        }
        assert(out@ =~= spec_words(self, bytes@));
        out
    }
    /// Reads a word from the first four bytes, in this byte order.
    pub fn word_from_bytes(self, bytes: &[u8]) -> (r: u32)
        requires
            bytes@.len() >= 4,
        ensures
            r == spec_word_from_bytes(self, bytes@),
    {
        let (b0, b1, b2, b3) = match self {
            Endian::Big => (bytes[0], bytes[1], bytes[2], bytes[3]),
            Endian::Little => (bytes[3], bytes[2], bytes[1], bytes[0]),
        };
        (b0 as u32) << 24u32 | (b1 as u32) << 16u32 | (b2 as u32) << 8u32 | (b3 as u32)
    }

    /// Reads a short from the first two bytes, in this byte order.
    pub fn short_from_bytes(self, bytes: &[u8]) -> (r: u16)
        requires
            bytes@.len() >= 2,
        ensures
            r == spec_short_from_bytes(self, bytes@),
    {
        let (b0, b1) = match self {
            Endian::Big => (bytes[0], bytes[1]),
            Endian::Little => (bytes[1], bytes[0]),
        };
        (b0 as u16) << 8u16 | (b1 as u16)
    }

    /// Reads a doubleword from the first eight bytes, in this byte order.
    pub fn dword_from_bytes(self, bytes: &[u8]) -> (r: u64)
        requires
            bytes@.len() >= 8,
        ensures
            r == spec_dword_from_bytes(self, bytes@),
    {
        let (hi, lo) = match self {
            Endian::Big => (
                (bytes[0] as u32) << 24u32 | (bytes[1] as u32) << 16u32 | (bytes[2] as u32) << 8u32 | (bytes[3] as u32),
                (bytes[4] as u32) << 24u32 | (bytes[5] as u32) << 16u32 | (bytes[6] as u32) << 8u32 | (bytes[7] as u32),
            ),
            Endian::Little => (
                (bytes[7] as u32) << 24u32 | (bytes[6] as u32) << 16u32 | (bytes[5] as u32) << 8u32 | (bytes[4] as u32),
                (bytes[3] as u32) << 24u32 | (bytes[2] as u32) << 16u32 | (bytes[1] as u32) << 8u32 | (bytes[0] as u32),
            ),
        };
        (hi as u64) << 32u64 | (lo as u64)
    }

    /// Writes a word as four bytes in this byte order.
    pub fn bytes_from_word(self, word: u32) -> (r: [u8; 4])
        ensures
            r@ == spec_bytes_from_word(self, word),
    {
        let b0 = ((word >> 24u32) & 0xffu32) as u8;
        let b1 = ((word >> 16u32) & 0xffu32) as u8;
        let b2 = ((word >> 8u32) & 0xffu32) as u8;
        let b3 = (word & 0xffu32) as u8;
        let r = match self {
            Endian::Big => [b0, b1, b2, b3],
            Endian::Little => [b3, b2, b1, b0],
        };
        proof {
            assert(u32_be_bytes(word) =~= seq![b0, b1, b2, b3]);
            assert(u32_be_bytes(word).reverse() =~= seq![b3, b2, b1, b0]);
        }
        r
    }
}

/// Splitting a word into bytes and reading the bytes back gives the same word.
proof fn lemma_u32_be_roundtrip(w: u32)
    ensures
        u32_be(((w >> 24u32) & 0xffu32) as u8, ((w >> 16u32) & 0xffu32) as u8, ((w >> 8u32) & 0xffu32) as u8, (w & 0xffu32) as u8) == w,
{
    assert(u32_be(((w >> 24u32) & 0xffu32) as u8, ((w >> 16u32) & 0xffu32) as u8, ((w >> 8u32) & 0xffu32) as u8, (w & 0xffu32) as u8) == w) by (bit_vector);
}

/// Law: for either byte order, reading back the bytes written for a word gives that word.
pub proof fn lemma_word_bytes_roundtrip(endian: Endian, w: u32)
    ensures
        spec_word_from_bytes(endian, spec_bytes_from_word(endian, w)) == w,
{
    lemma_u32_be_roundtrip(w);
}

} // verus!
