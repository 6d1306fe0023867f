use vstd::prelude::*;
use crate::Error;

verus! {

/// Little-endian reading of 2 bytes of `s` starting at `a`.
pub open spec fn le16(s: Seq<u8>, a: int) -> int
    recommends
        0 <= a,
        a + 2 <= s.len(),
{
    s[a] + s[a + 1] * 0x100
}

/// Little-endian reading of 4 bytes of `s` starting at `a`.
pub open spec fn le32(s: Seq<u8>, a: int) -> int
    recommends
        0 <= a,
        a + 4 <= s.len(),
{
    s[a] + s[a + 1] * 0x100 + s[a + 2] * 0x1_0000 + s[a + 3] * 0x100_0000
}

/// Little-endian reading of 8 bytes of `s` starting at `a`.
pub open spec fn le64(s: Seq<u8>, a: int) -> int
    recommends
        0 <= a,
        a + 8 <= s.len(),
{
    s[a] + s[a + 1] * 0x100 + s[a + 2] * 0x1_0000 + s[a + 3] * 0x100_0000 + s[a + 4]
        * 0x1_0000_0000 + s[a + 5] * 0x100_0000_0000 + s[a + 6] * 0x1_0000_0000_0000 + s[a + 7]
        * 0x100_0000_0000_0000
}

/// Capability set of a byte-addressable backing store: loads and stores at
/// any address within the store's extent, little-endian, with no alignment
/// requirement; an access past the end is a MemoryFault and changes
/// nothing.  The interpreter is generic over this, so the same instruction
/// semantics run against a plain buffer or a custom store.
pub trait Memory: Sized {
    /// The bytes the store holds.
    spec fn view(self) -> Seq<u8>;

    fn load8(&self, addr: u64) -> (r: Result<u8, Error>)
        ensures
            addr + 1 <= self.view().len() ==> r == Ok::<u8, Error>(self.view()[addr as int]),
            addr + 1 > self.view().len() ==> r == Err::<u8, Error>(Error::MemoryFault),
    ;

    fn load16(&self, addr: u64) -> (r: Result<u16, Error>)
        ensures
            addr + 2 <= self.view().len() ==> (r matches Ok(v) && v == le16(
                self.view(),
                addr as int,
            )),
            addr + 2 > self.view().len() ==> r == Err::<u16, Error>(Error::MemoryFault),
    ;

    fn load32(&self, addr: u64) -> (r: Result<u32, Error>)
        ensures
            addr + 4 <= self.view().len() ==> (r matches Ok(v) && v == le32(
                self.view(),
                addr as int,
            )),
            addr + 4 > self.view().len() ==> r == Err::<u32, Error>(Error::MemoryFault),
    ;

    fn load64(&self, addr: u64) -> (r: Result<u64, Error>)
        ensures
            addr + 8 <= self.view().len() ==> (r matches Ok(v) && v == le64(
                self.view(),
                addr as int,
            )),
            addr + 8 > self.view().len() ==> r == Err::<u64, Error>(Error::MemoryFault),
    ;

    fn store8(&mut self, addr: u64, v: u8) -> (r: Result<(), Error>)
        ensures
            addr + 1 <= old(self).view().len() ==> r == Ok::<(), Error>(()) && final(self).view()
                == old(self).view().update(addr as int, v),
            addr + 1 > old(self).view().len() ==> r == Err::<(), Error>(Error::MemoryFault)
                && final(self).view() == old(self).view(),
    ;

    fn store16(&mut self, addr: u64, v: u16) -> (r: Result<(), Error>)
        ensures
            addr + 2 <= old(self).view().len() ==> r == Ok::<(), Error>(()) && final(self).view()
                == old(self).view().update(addr as int, (v % 0x100) as u8).update(
                addr + 1,
                (v / 0x100) as u8,
            ) && le16(final(self).view(), addr as int) == v,
            addr + 2 > old(self).view().len() ==> r == Err::<(), Error>(Error::MemoryFault)
                && final(self).view() == old(self).view(),
    ;

    fn store32(&mut self, addr: u64, v: u32) -> (r: Result<(), Error>)
        ensures
            addr + 4 <= old(self).view().len() ==> r == Ok::<(), Error>(()) && final(self).view()
                == old(self).view().update(addr as int, (v % 0x100) as u8).update(
                addr + 1,
                ((v / 0x100) % 0x100) as u8,
            ).update(addr + 2, ((v / 0x1_0000) % 0x100) as u8).update(
                addr + 3,
                (v / 0x100_0000) as u8,
            ) && le32(final(self).view(), addr as int) == v,
            addr + 4 > old(self).view().len() ==> r == Err::<(), Error>(Error::MemoryFault)
                && final(self).view() == old(self).view(),
    ;

    fn store64(&mut self, addr: u64, v: u64) -> (r: Result<(), Error>)
        ensures
            addr + 8 <= old(self).view().len() ==> r == Ok::<(), Error>(()) && final(self).view()
                == old(self).view().update(addr as int, (v % 0x100) as u8).update(
                addr + 1,
                ((v / 0x100) % 0x100) as u8,
            ).update(addr + 2, ((v / 0x1_0000) % 0x100) as u8).update(
                addr + 3,
                ((v / 0x100_0000) % 0x100) as u8,
            ).update(addr + 4, ((v / 0x1_0000_0000) % 0x100) as u8).update(
                addr + 5,
                ((v / 0x100_0000_0000) % 0x100) as u8,
            ).update(addr + 6, ((v / 0x1_0000_0000_0000) % 0x100) as u8).update(
                addr + 7,
                (v / 0x100_0000_0000_0000) as u8,
            ) && le64(final(self).view(), addr as int) == v,
            addr + 8 > old(self).view().len() ==> r == Err::<(), Error>(Error::MemoryFault)
                && final(self).view() == old(self).view(),
    ;
}

/// A flat, byte-addressable backing store: loads and stores of 1, 2, 4 or
/// 8 bytes at any address inside the buffer, little-endian, with no
/// alignment requirement.  An access past the end is a MemoryFault and
/// leaves the buffer unchanged.
pub struct FlatMemory {
    data: Vec<u8>,
}

impl FlatMemory {
    pub fn new(size: usize) -> (r: FlatMemory)
        ensures
            r@.len() == size,
            forall|i: int| 0 <= i < size ==> r@[i] == 0u8,
    {
        let mut data: Vec<u8> = Vec::new();
        let mut n: usize = 0;
        while n < size
            invariant
                n <= size,
                data@.len() == n,
                forall|i: int| 0 <= i < n ==> data@[i] == 0u8,
            decreases size - n,
        {
            data.push(0);
            n = n + 1;
        }
        FlatMemory { data }
    }

    pub fn len(&self) -> (r: usize)
        ensures
            r == self@.len(),
    {
        self.data.len()
    }

}

impl Memory for FlatMemory {
    closed spec fn view(self) -> Seq<u8> {
        self.data@
    }

    fn load32(&self, addr: u64) -> (r: Result<u32, Error>)
    {
        let len: u64 = self.data.len() as u64;
        if len >= 4 && addr <= len - 4 {
            let i = addr as usize;
            let b0 = self.data[i] as u32;
            let b1 = self.data[i + 1] as u32;
            let b2 = self.data[i + 2] as u32;
            let b3 = self.data[i + 3] as u32;
            Ok(b0 + b1 * 0x100 + b2 * 0x1_0000 + b3 * 0x100_0000)
        } else {
            Err(Error::MemoryFault)
        }
    }

    fn store8(&mut self, addr: u64, v: u8) -> (r: Result<(), Error>)
    {
        let len: u64 = self.data.len() as u64;
        if addr < len {
            let i = addr as usize;
            self.data[i] = v;
            Ok(())
        } else {
            Err(Error::MemoryFault)
        }
    }

    fn store32(&mut self, addr: u64, v: u32) -> (r: Result<(), Error>)
    {
        let len: u64 = self.data.len() as u64;
        if len >= 4 && addr <= len - 4 {
            let i = addr as usize;
            self.data[i] = (v % 0x100) as u8;
            self.data[i + 1] = ((v / 0x100) % 0x100) as u8;
            self.data[i + 2] = ((v / 0x1_0000) % 0x100) as u8;
            self.data[i + 3] = (v / 0x100_0000) as u8;
            proof {
                assert(v % 0x100 + ((v / 0x100) % 0x100) * 0x100 + ((v / 0x1_0000) % 0x100)
                    * 0x1_0000 + (v / 0x100_0000) * 0x100_0000 == v) by (bit_vector);
            }
            Ok(())
        } else {
            Err(Error::MemoryFault)
        }
    }

    fn load8(&self, addr: u64) -> (r: Result<u8, Error>)
    {
        let len: u64 = self.data.len() as u64;
        if addr < len {
            Ok(self.data[addr as usize])
        } else {
            Err(Error::MemoryFault)
        }
    }

    fn load16(&self, addr: u64) -> (r: Result<u16, Error>)
    {
        let len: u64 = self.data.len() as u64;
        if len >= 2 && addr <= len - 2 {
            let i = addr as usize;
            let b0 = self.data[i] as u16;
            let b1 = self.data[i + 1] as u16;
            Ok(b0 + b1 * 0x100)
        } else {
            Err(Error::MemoryFault)
        }
    }

    fn load64(&self, addr: u64) -> (r: Result<u64, Error>)
    {
        let len: u64 = self.data.len() as u64;
        if len >= 8 && addr <= len - 8 {
            let i = addr as usize;
            let b0 = self.data[i] as u64;
            let b1 = self.data[i + 1] as u64;
            let b2 = self.data[i + 2] as u64;
            let b3 = self.data[i + 3] as u64;
            let b4 = self.data[i + 4] as u64;
            let b5 = self.data[i + 5] as u64;
            let b6 = self.data[i + 6] as u64;
            let b7 = self.data[i + 7] as u64;
            Ok(
                b0 + b1 * 0x100 + b2 * 0x1_0000 + b3 * 0x100_0000 + b4 * 0x1_0000_0000 + b5
                    * 0x100_0000_0000 + b6 * 0x1_0000_0000_0000 + b7 * 0x100_0000_0000_0000,
            )
        } else {
            Err(Error::MemoryFault)
        }
    }

    fn store16(&mut self, addr: u64, v: u16) -> (r: Result<(), Error>)
    {
        let len: u64 = self.data.len() as u64;
        if len >= 2 && addr <= len - 2 {
            let i = addr as usize;
            self.data[i] = (v % 0x100) as u8;
            self.data[i + 1] = (v / 0x100) as u8;
            Ok(())
        } else {
            Err(Error::MemoryFault)
        }
    }

    #[verifier::rlimit(60)]
    fn store64(&mut self, addr: u64, v: u64) -> (r: Result<(), Error>)
    {
        let len: u64 = self.data.len() as u64;
        if len >= 8 && addr <= len - 8 {
            let i = addr as usize;
            self.data[i] = (v % 0x100) as u8;
            self.data[i + 1] = ((v / 0x100) % 0x100) as u8;
            self.data[i + 2] = ((v / 0x1_0000) % 0x100) as u8;
            self.data[i + 3] = ((v / 0x100_0000) % 0x100) as u8;
            self.data[i + 4] = ((v / 0x1_0000_0000) % 0x100) as u8;
            self.data[i + 5] = ((v / 0x100_0000_0000) % 0x100) as u8;
            self.data[i + 6] = ((v / 0x1_0000_0000_0000) % 0x100) as u8;
            self.data[i + 7] = (v / 0x100_0000_0000_0000) as u8;
            proof {
                assert(v % 0x100 + ((v / 0x100) % 0x100) * 0x100 + ((v / 0x1_0000) % 0x100)
                    * 0x1_0000 + ((v / 0x100_0000) % 0x100) * 0x100_0000 + ((v / 0x1_0000_0000)
                    % 0x100) * 0x1_0000_0000 + ((v / 0x100_0000_0000) % 0x100) * 0x100_0000_0000 + (
                (v / 0x1_0000_0000_0000) % 0x100) * 0x1_0000_0000_0000 + (v / 0x100_0000_0000_0000)
                    * 0x100_0000_0000_0000 == v) by (bit_vector);
            }
            Ok(())
        } else {
            Err(Error::MemoryFault)
        }
    }
}

} // verus!
