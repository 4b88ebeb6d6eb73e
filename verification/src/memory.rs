//! Byte-addressed storage for the machine.
//!
//! The engine sees memory only through [`Addressable`]: single bytes,
//! little-endian 16-bit words, and a bulk load. What a memory holds is
//! modelled as a map from the addresses it backs to their bytes; an address
//! outside the map is out of bounds. [`LinearMemory`] is the flat array that
//! backs the addresses below its capacity.

use vstd::prelude::*;

verus! {

/// The capacity, in bytes, of the memory a new machine is given.
pub const DEFAULT_CAPACITY: usize = 8192;

/// The byte at `addr`, if the address is backed.
pub open spec fn byte_at(cells: Map<u16, u8>, addr: u16) -> Option<u8> {
    if cells.contains_key(addr) {
        Some(cells[addr])
    } else {
        None
    }
}

/// What `cells` holds after a byte store: the byte at `addr` replaced if the
/// address is backed, nothing changed if it is not.
pub open spec fn store_byte(cells: Map<u16, u8>, addr: u16, value: u8) -> Map<u16, u8> {
    if cells.contains_key(addr) {
        cells.insert(addr, value)
    } else {
        cells
    }
}

/// Whether a whole word lies at `addr`: both `addr` and `addr + 1` are
/// addresses, and both are backed.
pub open spec fn has_word(cells: Map<u16, u8>, addr: u16) -> bool {
    &&& addr < 0xffff
    &&& cells.contains_key(addr)
    &&& cells.contains_key((addr + 1) as u16)
}

/// The little-endian word at `addr`: low byte at `addr`, high byte at
/// `addr + 1`. There is none unless both bytes are in bounds.
pub open spec fn word_at(cells: Map<u16, u8>, addr: u16) -> Option<u16> {
    if has_word(cells, addr) {
        Some((cells[addr] + 256 * cells[(addr + 1) as u16]) as u16)
    } else {
        None
    }
}

/// What `cells` holds after a word store: both bytes replaced if the whole
/// word is in bounds, nothing changed if it is not.
pub open spec fn store_word(cells: Map<u16, u8>, addr: u16, value: u16) -> Map<u16, u8> {
    if has_word(cells, addr) {
        cells.insert(addr, (value % 256) as u8).insert((addr + 1) as u16, (value / 256) as u8)
    } else {
        cells
    }
}

/// Whether the `len` addresses from `offset` on all exist and are backed.
pub open spec fn has_range(cells: Map<u16, u8>, offset: u16, len: nat) -> bool {
    &&& offset + len <= 0x1_0000
    &&& forall|i: int| 0 <= i < len ==> #[trigger] cells.contains_key((offset + i) as u16)
}

/// What `cells` holds after a bulk load of `bytes` at `offset`: the range
/// replaced by `bytes` if all of it is in bounds, nothing changed if it is
/// not.
pub open spec fn store_bytes(cells: Map<u16, u8>, offset: u16, bytes: Seq<u8>) -> Map<u16, u8> {
    if has_range(cells, offset, bytes.len()) {
        Map::new(
            |a: u16| cells.contains_key(a),
            |a: u16|
                if offset <= a < offset + bytes.len() {
                    bytes[a - offset]
                } else {
                    cells[a]
                },
        )
    } else {
        cells
    }
}

/// A memory of `capacity` zero bytes at the addresses below `capacity`.
pub open spec fn zeroed(capacity: nat) -> Map<u16, u8> {
    Map::new(|a: u16| (a as nat) < capacity, |a: u16| 0u8)
}

/// A word that was stored is the word read back, and a store backs no new
/// address and drops none.
pub proof fn lemma_word_stored(cells: Map<u16, u8>, addr: u16, value: u16)
    requires
        has_word(cells, addr),
    ensures
        has_word(store_word(cells, addr, value), addr),
        word_at(store_word(cells, addr, value), addr) == Some(value),
        store_word(cells, addr, value).dom() == cells.dom(),
{
    assert(store_word(cells, addr, value).dom() =~= cells.dom());
}

/// After a bulk load the bytes loaded are the bytes read back, every other
/// byte is what it was, and the backed addresses are the same.
pub proof fn lemma_bytes_stored(cells: Map<u16, u8>, offset: u16, bytes: Seq<u8>)
    requires
        has_range(cells, offset, bytes.len()),
    ensures
        store_bytes(cells, offset, bytes).dom() == cells.dom(),
        forall|i: int|
            0 <= i < bytes.len() ==> byte_at(
                store_bytes(cells, offset, bytes),
                #[trigger] ((offset + i) as u16),
            ) == Some(bytes[i]),
        forall|a: u16|
            !(offset <= a < offset + bytes.len()) ==> #[trigger] byte_at(
                store_bytes(cells, offset, bytes),
                a,
            ) == byte_at(cells, a),
{
    assert(store_bytes(cells, offset, bytes).dom() =~= cells.dom());
    assert forall|i: int| 0 <= i < bytes.len() implies byte_at(
        store_bytes(cells, offset, bytes),
        #[trigger] ((offset + i) as u16),
    ) == Some(bytes[i]) by {
        assert(cells.contains_key((offset + i) as u16));
    }
}

/// Bounds-checked storage with 16-bit addresses.
///
/// An implementation provides the two byte operations and says, through
/// [`cells`](Addressable::cells), which addresses it backs and what they
/// hold. The word operations and the bulk load are built on those two and
/// change memory all at once or not at all.
pub trait Addressable {
    /// The backed addresses and the byte at each.
    spec fn cells(&self) -> Map<u16, u8>;

    /// Reads the byte at `addr`; `None` if the address is out of bounds.
    fn read(&self, addr: u16) -> (r: Option<u8>)
        ensures
            r == byte_at(self.cells(), addr),
    ;

    /// Writes `value` at `addr` and returns `true`, or returns `false` and
    /// changes nothing if the address is out of bounds.
    fn write(&mut self, addr: u16, value: u8) -> (ok: bool)
        ensures
            ok == old(self).cells().contains_key(addr),
            final(self).cells() == store_byte(old(self).cells(), addr, value),
    ;

    /// Reads the little-endian word at `addr` and `addr + 1`; `None` if
    /// either byte is out of bounds.
    fn read2(&self, addr: u16) -> (r: Option<u16>)
        ensures
            r == word_at(self.cells(), addr),
    {
        if addr == u16::MAX {
            return None;
        }
        match self.read(addr) {
            None => None,
            Some(lo) => match self.read(addr + 1) {
                None => None,
                Some(hi) => {
                    let w: u16 = (lo as u16) | ((hi as u16) << 8);
                    assert(w == lo + 256 * hi) by (bit_vector)
                        requires
                            w == (lo as u16) | ((hi as u16) << 8),
                    ;
                    Some(w)
                },
            },
        }
    }

    /// Writes the low byte of `value` at `addr` and the high byte at
    /// `addr + 1` and returns `true`, or returns `false` and changes nothing
    /// if either byte is out of bounds.
    fn write2(&mut self, addr: u16, value: u16) -> (ok: bool)
        ensures
            ok == has_word(old(self).cells(), addr),
            final(self).cells() == store_word(old(self).cells(), addr, value),
    {
        if addr == u16::MAX {
            return false;
        }
        if self.read(addr).is_none() || self.read(addr + 1).is_none() {
            return false;
        }
        let lo: u8 = (value & 0xff) as u8;
        let hi: u8 = (value >> 8) as u8;
        assert(lo == value % 256 && hi == value / 256) by (bit_vector)
            requires
                lo == (value & 0xff) as u8,
                hi == (value >> 8) as u8,
        ;
        self.write(addr, lo);
        self.write(addr + 1, hi);
        true
    }

    /// Copies `from` into memory starting at `offset` and returns `true`, or
    /// returns `false` and changes nothing if any part of the range is out
    /// of bounds.
    fn load_from_vec(&mut self, from: &[u8], offset: u16) -> (ok: bool)
        ensures
            ok == has_range(old(self).cells(), offset, from@.len()),
            final(self).cells() == store_bytes(old(self).cells(), offset, from@),
    {
        let n = from.len();
        let start = offset as usize;
        if n > 0x1_0000 - start {
            return false;
        }
        let mut i: usize = 0;
        while i < n
            invariant
                i <= n,
                n == from@.len(),
                start == offset,
                start + n <= 0x1_0000,
                forall|k: int| 0 <= k < i ==> #[trigger] self.cells().contains_key((offset + k) as u16),
            decreases n - i,
        {
            if self.read((start + i) as u16).is_none() {
                return false;
            }
            i += 1;
        }
        let ghost before = self.cells();
        i = 0;
        while i < n
            invariant
                i <= n,
                n == from@.len(),
                start == offset,
                start + n <= 0x1_0000,
                has_range(before, offset, n as nat),
                self.cells().dom() == before.dom(),
                forall|a: u16|
                    before.contains_key(a) ==> #[trigger] self.cells()[a] == if offset <= a < offset
                        + i {
                        from@[a - offset]
                    } else {
                        before[a]
                    },
            decreases n - i,
        {
            self.write((start + i) as u16, from[i]);
            i += 1;
        }
        true
    }
}

/// A flat array of bytes backing the addresses below its capacity.
pub struct LinearMemory {
    bytes: Vec<u8>,
}

impl LinearMemory {
    /// A memory of `n` zero bytes.
    pub fn new(n: usize) -> (m: Self)
        ensures
            m.cells() == zeroed(n as nat),
    {
        LinearMemory { bytes: vec![0u8; n] }
    }
}

impl Addressable for LinearMemory {
    closed spec fn cells(&self) -> Map<u16, u8> {
        Map::new(|a: u16| (a as int) < self.bytes@.len(), |a: u16| self.bytes@[a as int])
    }

    fn read(&self, addr: u16) -> (r: Option<u8>) {
        if (addr as usize) < self.bytes.len() {
            Some(self.bytes[addr as usize])
        } else {
            None
        }
    }

    fn write(&mut self, addr: u16, value: u8) -> (ok: bool) {
        if (addr as usize) < self.bytes.len() {
            self.bytes[addr as usize] = value;
            true
        } else {
            false
        }
    }
}

} // verus!
