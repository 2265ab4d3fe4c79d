//! Word images of memory: the contents of a span of the address space, held
//! one 32-bit word at a time.

use vstd::prelude::*;
use crate::layout::is_word_aligned;

verus! {

/// Why an access to a memory image was refused.
#[derive(Clone, Copy, Debug, PartialEq, Eq, Structural)]
pub enum AccessError {
    /// The address is not a multiple of the size of the access.
    Misaligned,
    /// The access does not lie inside the image.
    Unmapped,
}

/// The halfword of `word` that lies at the lower address if `upper` is
/// false, at the higher one if it is true.  The core is little-endian.
pub open spec fn halfword_of(word: u32, upper: bool) -> u16 {
    if upper {
        (word >> 16) as u16
    } else {
        (word & 0xffff) as u16
    }
}

/// The byte of `word` that lies `lane` bytes above the word's address.
pub open spec fn byte_of(word: u32, lane: int) -> u8
    recommends
        0 <= lane < 4,
{
    if lane == 0 {
        (word & 0xff) as u8
    } else if lane == 1 {
        ((word >> 8) & 0xff) as u8
    } else if lane == 2 {
        ((word >> 16) & 0xff) as u8
    } else {
        (word >> 24) as u8
    }
}

/// The contents of a word-aligned span of the address space.
pub struct Memory {
    origin: u32,
    words: Vec<u32>,
}

impl View for Memory {
    type V = Seq<u32>;

    /// The words of the image, from its lowest address upwards.
    closed spec fn view(&self) -> Seq<u32> {
        self.words@
    }
}

impl Memory {
    /// What holds of every image.
    #[verifier::type_invariant]
    pub closed spec fn inv(&self) -> bool {
        &&& is_word_aligned(self.origin as int)
        &&& self.origin + 4 * self.words@.len() <= 0x1_0000_0000
    }

    /// Address of the first word of the image.
    pub closed spec fn base(&self) -> int {
        self.origin as int
    }

    /// First address past the image.
    pub open spec fn end(&self) -> int {
        self.base() + 4 * self@.len()
    }

    /// The byte range `[start, end)` lies inside the image.
    pub open spec fn covers(&self, start: int, end: int) -> bool {
        self.base() <= start <= end <= self.end()
    }

    /// `addr` is the address of a word of the image.
    pub open spec fn holds_word(&self, addr: int) -> bool {
        is_word_aligned(addr) && self.covers(addr, addr + 4)
    }

    /// Index in the image of the word that the byte at `addr` belongs to.
    pub open spec fn index_of(&self, addr: int) -> int {
        (addr - self.base()) / 4
    }

    /// The word that the byte at `addr` belongs to.
    pub open spec fn word_at(&self, addr: int) -> u32 {
        self@[self.index_of(addr)]
    }

    /// The halfword at the even address `addr`.
    pub open spec fn halfword_at(&self, addr: int) -> u16 {
        halfword_of(self.word_at(addr), addr % 4 >= 2)
    }

    /// The byte at the address `addr`.
    pub open spec fn byte_at(&self, addr: int) -> u8 {
        byte_of(self.word_at(addr), addr % 4)
    }

    /// An image starts on a word boundary and ends inside the 32-bit
    /// address space.
    pub proof fn lemma_placement(&self)
        requires
            self.inv(),
        ensures
            is_word_aligned(self.base()),
            self.end() <= 0x1_0000_0000,
    {
    }

    /// Makes an image of `words` that starts at the address `origin`.
    ///
    /// Returns `None` where `origin` is not word-aligned or the image would
    /// reach past the end of the 32-bit address space.
    pub fn new(origin: u32, words: Vec<u32>) -> (image: Option<Memory>)
        ensures
            image is Some <==> is_word_aligned(origin as int) && origin + 4 * words@.len()
                <= 0x1_0000_0000,
            image matches Some(m) ==> m.base() == origin && m@ == words@,
    {
        if origin % 4 != 0 {
            return None;
        }
        let room: u64 = 0x1_0000_0000u64 - origin as u64;
        if words.len() as u64 > room / 4 {
            return None;
        }
        Some(Memory { origin, words })
    }

    /// Address of the first word of the image.
    pub fn origin(&self) -> (origin: u32)
        ensures
            origin == self.base(),
            is_word_aligned(self.base()),
            self.end() <= 0x1_0000_0000,
    {
        proof {
            use_type_invariant(self);
        }
        self.origin
    }

    /// Number of words in the image.
    pub fn len(&self) -> (len: usize)
        ensures
            len == self@.len(),
    {
        self.words.len()
    }

    /// Reads the word at the address `addr`.
    pub fn read_word(&self, addr: u32) -> (word: Result<u32, AccessError>)
        ensures
            word == (if !is_word_aligned(addr as int) {
                Err(AccessError::Misaligned)
            } else if !self.covers(addr as int, addr + 4) {
                Err(AccessError::Unmapped)
            } else {
                Ok(self.word_at(addr as int))
            }),
    {
        proof {
            use_type_invariant(self);
        }
        if addr % 4 != 0 {
            return Err(AccessError::Misaligned);
        }
        if addr < self.origin {
            return Err(AccessError::Unmapped);
        }
        let index: u32 = (addr - self.origin) / 4;
        if index as usize >= self.words.len() {
            return Err(AccessError::Unmapped);
        }
        Ok(self.words[index as usize])
    }

    /// Writes `value` to the word at the address `addr`.  A refused write
    /// leaves the image as it was.
    pub fn write_word(&mut self, addr: u32, value: u32) -> (done: Result<(), AccessError>)
        ensures
            final(self).base() == old(self).base(),
            done == (if !is_word_aligned(addr as int) {
                Err(AccessError::Misaligned)
            } else if !old(self).covers(addr as int, addr + 4) {
                Err(AccessError::Unmapped)
            } else {
                Ok(())
            }),
            final(self)@ == (if done is Ok {
                old(self)@.update(old(self).index_of(addr as int), value)
            } else {
                old(self)@
            }),
    {
        proof {
            use_type_invariant(&*self);
        }
        if addr % 4 != 0 {
            return Err(AccessError::Misaligned);
        }
        if addr < self.origin {
            return Err(AccessError::Unmapped);
        }
        let index: u32 = (addr - self.origin) / 4;
        if index as usize >= self.words.len() {
            return Err(AccessError::Unmapped);
        }
        self.words[index as usize] = value;
        Ok(())
    }

    /// Reads the halfword at the address `addr`.
    pub fn read_halfword(&self, addr: u32) -> (halfword: Result<u16, AccessError>)
        ensures
            halfword == (if addr % 2 != 0 {
                Err(AccessError::Misaligned)
            } else if !self.covers(addr as int, addr + 2) {
                Err(AccessError::Unmapped)
            } else {
                Ok(self.halfword_at(addr as int))
            }),
    {
        proof {
            use_type_invariant(self);
        }
        if addr % 2 != 0 {
            return Err(AccessError::Misaligned);
        }
        if addr < self.origin {
            return Err(AccessError::Unmapped);
        }
        let index: u32 = (addr - self.origin) / 4;
        if index as usize >= self.words.len() {
            return Err(AccessError::Unmapped);
        }
        let word: u32 = self.words[index as usize];
        if addr % 4 >= 2 {
            assert(word >> 16 < 0x1_0000) by (bit_vector);
            Ok((word >> 16) as u16)
        } else {
            assert(word & 0xffff < 0x1_0000) by (bit_vector);
            Ok((word & 0xffff) as u16)
        }
    }

    /// Reads the byte at the address `addr`.
    pub fn read_byte(&self, addr: u32) -> (byte: Result<u8, AccessError>)
        ensures
            byte == (if !self.covers(addr as int, addr + 1) {
                Err(AccessError::Unmapped)
            } else {
                Ok(self.byte_at(addr as int))
            }),
    {
        proof {
            use_type_invariant(self);
        }
        if addr < self.origin {
            return Err(AccessError::Unmapped);
        }
        let index: u32 = (addr - self.origin) / 4;
        if index as usize >= self.words.len() {
            return Err(AccessError::Unmapped);
        }
        let word: u32 = self.words[index as usize];
        let lane: u32 = addr % 4;
        if lane == 0 {
            assert(word & 0xff < 0x100) by (bit_vector);
            Ok((word & 0xff) as u8)
        } else if lane == 1 {
            assert((word >> 8) & 0xff < 0x100) by (bit_vector);
            Ok(((word >> 8) & 0xff) as u8)
        } else if lane == 2 {
            assert((word >> 16) & 0xff < 0x100) by (bit_vector);
            Ok(((word >> 16) & 0xff) as u8)
        } else {
            assert(word >> 24 < 0x100) by (bit_vector);
            Ok((word >> 24) as u8)
        }
    }
}

} // verus!
