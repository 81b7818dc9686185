//! Descriptor chains, and the transport below a device.

use vstd::prelude::*;

use crate::bytes::push_bytes;

verus! {

/// One piece of guest memory.
pub struct Descriptor<'a> {
    pub data: &'a [u8],
    pub writable: bool,
}

/// The pieces of guest memory that make up one operation.
pub struct DescChain<'a> {
    pub descriptors: Vec<Descriptor<'a>>,
}

/// The bytes of the readable descriptors, one after the other.
pub open spec fn readable(descriptors: Seq<Descriptor<'_>>) -> Seq<u8>
    decreases descriptors.len(),
{
    if descriptors.len() == 0 {
        Seq::empty()
    } else {
        let last = descriptors.last();
        readable(descriptors.drop_last()) + if last.writable {
            Seq::empty()
        } else {
            last.data@
        }
    }
}

/// A chain in two parts reads as the first part and then the second.
pub proof fn readable_of_parts(first: Seq<Descriptor<'_>>, second: Seq<Descriptor<'_>>)
    ensures
        readable(first + second) == readable(first) + readable(second),
    decreases second.len(),
{
    if second.len() == 0 {
        assert(first + second =~= first);
        assert(readable(first) + readable(second) =~= readable(first));
    } else {
        readable_of_parts(first, second.drop_last());
        assert((first + second).drop_last() =~= first + second.drop_last());
        assert(readable(first + second) =~= readable(first) + readable(second));
    }
}

impl<'a> DescChain<'a> {
    /// All readable bytes, in order.
    pub fn readable_bytes(&self) -> (r: Vec<u8>)
        ensures
            r@ == readable(self.descriptors@),
    {
        let mut out: Vec<u8> = Vec::new();
        let mut i: usize = 0;
        while i < self.descriptors.len()
            invariant
                i <= self.descriptors@.len(),
                out@ =~= readable(self.descriptors@.take(i as int)),
            decreases self.descriptors.len() - i,
        {
            let d = &self.descriptors[i];
            proof {
                let upto = self.descriptors@.take(i + 1);
                assert(upto.drop_last() =~= self.descriptors@.take(i as int));
                assert(upto.last() == *d);
            }
            if !d.writable {
                push_bytes(&mut out, d.data);
            }
            i += 1;
        }
        assert(self.descriptors@.take(i as int) =~= self.descriptors@);
        out
    }
}

/// Implemented by the transport that carries the guest's requests.
pub trait VirtioDevice {
    /// Waits for the next descriptor chain and calls `f` with its readable bytes (the request)
    /// and its writable bytes (the response).  `f` returns how many bytes of the response it
    /// wrote, and the chain then goes back to the guest.
    fn process_queue<F>(&mut self, f: F) where F: FnMut(&[u8], &mut [u8]) -> usize;
}

/// Of a single descriptor all bytes are read, unless the device is to write to it: then none is.
pub proof fn readable_of_one(d: Descriptor<'_>)
    ensures
        !d.writable ==> readable(seq![d]) == d.data@,
        d.writable ==> readable(seq![d]).len() == 0,
        readable(Seq::<Descriptor<'_>>::empty()).len() == 0,
{
    let one = seq![d];
    assert(one.drop_last() =~= Seq::empty());
    assert(readable(one.drop_last()) =~= Seq::<u8>::empty());
    assert(one.last() == d);
    assert(!d.writable ==> readable(one) =~= d.data@);
}

} // verus!
