use crate::device::Device;
use crate::memory::Alloc;
use vstd::prelude::*;

verus! {

/// The passes of a loop over a stretch of code that retrieves buffers.
///
/// Every pass starts with the node count that the device had when the
/// loop was entered, so that the n-th retrieval of each pass asks for the
/// same node.  The count is set back once more when the loop ends.
#[derive(Debug, Clone, Copy, PartialEq, Eq)]
pub struct Count {
    /// Number of the pass that comes next.
    pub epoch: usize,
    /// The node count at which every pass starts.
    pub idx: usize,
    /// Number of the first pass that is not made.
    pub end: usize,
}

/// The passes `0 .. end` of a loop that is entered now.
pub fn range<B: Alloc>(device: &Device<B>, end: usize) -> (count: Count)
    ensures
        count == (Count { epoch: 0, idx: device.count() as usize, end }),
{
    Count { epoch: 0, idx: device.get_count(), end }
}

impl Count {
    /// Starts the next pass: sets the node count of `device` back and
    /// gives the number of the pass, or `None` when all passes are made.
    pub fn next<B: Alloc>(&mut self, device: &mut Device<B>) -> (epoch: Option<usize>)
        requires
            old(device).wf(),
        ensures
            final(device).wf(),
            final(device).backend() == old(device).backend(),
            final(device).cache() == old(device).cache(),
            final(device).owned() == old(device).owned(),
            final(device).kernels() == old(device).kernels(),
            final(device).graph() == (if old(self).idx <= old(device).count() {
                old(device).graph().subrange(0, old(self).idx as int)
            } else {
                old(device).graph()
            }),
            epoch == (if old(self).epoch < old(self).end {
                Some(old(self).epoch)
            } else {
                None
            }),
            *final(self) == (Count {
                epoch: if old(self).epoch < old(self).end {
                    (old(self).epoch + 1) as usize
                } else {
                    old(self).epoch
                },
                ..*old(self)
            }),
    {
        device.set_count(self.idx);
        if self.epoch >= self.end {
            return None;
        }
        let epoch = self.epoch;
        self.epoch = epoch + 1;
        Some(epoch)
    }
}

} // verus!
