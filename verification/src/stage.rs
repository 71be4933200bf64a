//! Execution staging: the run window.
use vstd::prelude::*;

use crate::LoaderError;

verus! {

/// The run window: the fixed region holding the staged app's bytes
/// immediately before control transfer.  Its capacity is announced at
/// construction; exactly one app is resident at a time, and staging
/// overwrites the prior resident app.
pub struct RunWindow {
    capacity: usize,
    bytes: Vec<u8>,
}

impl RunWindow {
    /// The announced capacity in bytes.
    pub closed spec fn spec_capacity(self) -> usize {
        self.capacity
    }

    /// The bytes of the currently resident app.
    pub closed spec fn spec_resident(self) -> Seq<u8> {
        self.bytes@
    }

    /// A window of the given capacity with no resident app.
    pub fn new(capacity: usize) -> (r: Self)
        ensures
            r.spec_capacity() == capacity,
            r.spec_resident() == Seq::<u8>::empty(),
    {
        RunWindow { capacity, bytes: Vec::new() }
    }

    /// The announced capacity in bytes.
    pub fn capacity(&self) -> (r: usize)
        ensures
            r == self.spec_capacity(),
    {
        self.capacity
    }

    /// The bytes of the currently resident app.
    pub fn resident(&self) -> (r: &Vec<u8>)
        ensures
            r@ == self.spec_resident(),
    {
        &self.bytes
    }

    /// Stages one app: copies its content verbatim into the window,
    /// overwriting any prior resident app.  Content larger than the
    /// capacity is rejected before any byte is copied, never discovered
    /// mid-copy.
    pub fn stage(&mut self, content: &[u8]) -> (r: Result<(), LoaderError>)
        ensures
            content@.len() > old(self).spec_capacity() ==> ({
                &&& r matches Err(e)
                &&& e == LoaderError::OutOfBounds
                &&& *final(self) == *old(self)
            }),
            content@.len() <= old(self).spec_capacity() ==> ({
                &&& r is Ok
                &&& final(self).spec_resident() == content@
                &&& final(self).spec_capacity() == old(self).spec_capacity()
            }),
    {
        if content.len() > self.capacity {
            return Err(LoaderError::OutOfBounds);
        }
        let mut staged: Vec<u8> = Vec::new();
        let n: usize = content.len();
        let mut k: usize = 0;
        while k < n
            invariant
                k <= n,
                n == content@.len(),
                staged@ == content@.take(k as int),
            decreases n - k,
        {
            proof {
                assert(content@.take(k as int + 1) =~= content@.take(k as int).push(
                    content@[k as int],
                ));
            }
            staged.push(content[k]);
            k = k + 1;
        }
        proof {
            assert(content@.take(n as int) =~= content@);
        }
        self.bytes = staged;
        Ok(())
    }
}

} // verus!
