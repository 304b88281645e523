//! An in-memory flash image with the read/write interface of a debug
//! probe: synchronous "read memory at address" and "write memory at
//! address", no framing.  It stands in for a board in tests and feeds the
//! directory walker.

use vstd::prelude::*;

use crate::errors::ProtocolError;
use crate::errors::TockloaderError;
use vstd::pervasive::VecAdditionalExecFns;

verus! {

/// A flash image starting at a fixed address.
#[derive(Clone, Debug)]
pub struct MockProbe {
    pub start_address: u64,
    pub memory: Vec<u8>,
}

impl MockProbe {
    /// The image must fit below the top of the 64-bit address space.
    pub open spec fn wf(&self) -> bool {
        self.start_address + self.memory@.len() <= u64::MAX
    }

    /// Whether a read of `len` bytes at `address` stays inside the image.
    pub open spec fn spec_in_range(&self, address: u64, len: int) -> bool {
        &&& self.start_address <= address
        &&& address - self.start_address + len <= self.memory@.len()
    }

    pub fn new(start_address: u64, memory: Vec<u8>) -> (r: MockProbe)
        requires
            start_address + memory@.len() <= u64::MAX,
        ensures
            r.start_address == start_address,
            r.memory == memory,
            r.wf(),
    {
        MockProbe { start_address, memory }
    }

    /// Read `len` bytes at an absolute address; an access outside the
    /// image fails as a board read would.
    pub fn read(&self, address: u64, len: usize) -> (r: Result<Vec<u8>, TockloaderError>)
        ensures
            r is Ok <==> self.spec_in_range(address, len as int),
            r is Ok ==> r->Ok_0@ == self.memory@.subrange(
                address - self.start_address,
                address - self.start_address + len,
            ),
    {
        if address < self.start_address {
            return Err(TockloaderError::Protocol(ProtocolError::IoFailure));
        }
        let off = address - self.start_address;
        if off > self.memory.len() as u64 || len as u64 > self.memory.len() as u64 - off {
            return Err(TockloaderError::Protocol(ProtocolError::IoFailure));
        }
        let start = off as usize;
        Ok(crate::tbf::subvec(&self.memory, start, start + len))
    }

    /// Write bytes at an absolute address; an access outside the image
    /// fails and changes nothing.
    pub fn write(&mut self, address: u64, data: &Vec<u8>) -> (r: Result<(), TockloaderError>)
        ensures
            r is Ok <==> old(self).spec_in_range(address, data@.len() as int),
            final(self).start_address == old(self).start_address,
            r is Ok ==> ({
                let off = address - old(self).start_address;
                &&& final(self).memory@.len() == old(self).memory@.len()
                &&& forall|j: int|
                    0 <= j < old(self).memory@.len() ==> final(self).memory@[j] == (if off <= j
                        < off + data@.len() {
                        data@[j - off]
                    } else {
                        old(self).memory@[j]
                    })
            }),
            r is Err ==> final(self).memory == old(self).memory,
    {
        if address < self.start_address {
            return Err(TockloaderError::Protocol(ProtocolError::IoFailure));
        }
        let off = address - self.start_address;
        if off > self.memory.len() as u64 || data.len() as u64 > self.memory.len() as u64 - off {
            return Err(TockloaderError::Protocol(ProtocolError::IoFailure));
        }
        let start = off as usize;
        let mut i: usize = 0;
        while i < data.len()
            invariant
                i <= data@.len(),
                self.memory@.len() <= usize::MAX,
                start + data@.len() <= self.memory@.len(),
                start == address - self.start_address,
                self.start_address == old(self).start_address,
                self.memory@.len() == old(self).memory@.len(),
                forall|j: int|
                    0 <= j < self.memory@.len() ==> self.memory@[j] == (if start <= j < start + i {
                        data@[j - start]
                    } else {
                        old(self).memory@[j]
                    }),
            decreases data@.len() - i,
        {
            let b = data[i];
            self.memory.set(start + i, b);
            i += 1;
        }
        Ok(())
    }
}

} // verus!
