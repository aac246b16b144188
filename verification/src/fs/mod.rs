use vstd::prelude::*;

pub mod mail;

verus! {

/// An open file as a process sees it through a descriptor: bytes can be read
/// into a buffer and written from one, and the count moved is returned.
pub trait File: Send + Sync {
    fn read(&self, buf: &mut [u8]) -> usize;

    fn write(&self, buf: &[u8]) -> usize;
}

} // verus!
