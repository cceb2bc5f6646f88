//! A widget that counts the frames during which it was rebuilt.
use vstd::prelude::*;

verus! {

/// A widget used mainly to test the correctness of the library's algorithms
/// or to serve as a placeholder. It does not draw anything nor react to any
/// event. As a builder, it tells whether the widget it updates should count
/// the current frame.
pub struct FrameCounter {
    count: u32,
    count_next_frame: bool,
}

impl FrameCounter {
    /// The number of frames counted.
    pub closed spec fn frames(&self) -> u32 {
        self.count
    }

    /// Whether the frame in which this builder is used counts.
    pub closed spec fn counts(&self) -> bool {
        self.count_next_frame
    }

    /// A counter at zero, which counts frames.
    pub fn new() -> (r: Self)
        ensures
            r.frames() == 0,
            r.counts(),
    {
        FrameCounter { count: 0, count_next_frame: true }
    }

    /// The same builder, counting the frame only if `cond` holds.
    pub fn count_next(self, cond: bool) -> (r: Self)
        ensures
            r.frames() == self.frames(),
            r.counts() == cond,
    {
        FrameCounter { count_next_frame: cond, ..self }
    }

    /// The number of frames counted.
    pub fn count(&self) -> (r: u32)
        ensures
            r == self.frames(),
    {
        self.count
    }

    /// Whether the frame in which this builder is used counts.
    pub fn counts_frame(&self) -> (r: bool)
        ensures
            r == self.counts(),
    {
        self.count_next_frame
    }

    /// Updates the counter built during a previous frame: it counts one more
    /// frame if this builder counts, and the new count is returned.
    pub fn update(self, widget: &mut FrameCounter) -> (r: u32)
        requires
            self.counts() ==> old(widget).frames() < u32::MAX,
        ensures
            final(widget).frames() == old(widget).frames() + (if self.counts() {
                1int
            } else {
                0int
            }),
            final(widget).counts() == old(widget).counts(),
            r == final(widget).frames(),
    {
        if self.count_next_frame {
            widget.count += 1;
        }
        widget.count
    }

    /// The counter created when the widget did not exist during the previous
    /// frame: the builder itself.
    pub fn create(self) -> (r: FrameCounter)
        ensures
            r == self,
    {
        self
    }
}

impl Default for FrameCounter {
    fn default() -> (r: Self)
        ensures
            r.frames() == 0,
            r.counts(),
    {
        Self::new()
    }
}

} // verus!
