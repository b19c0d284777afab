//! The windowing platform the UI toolkit asks for window adapters: windows
//! registered ahead of time are handed out, the last registered first.

use vstd::prelude::*;

verus! {

/// Windows waiting to be handed to the next component that asks for one.
pub struct CoronaPlatform<W> {
    pending: Vec<W>,
}

impl<W> View for CoronaPlatform<W> {
    type V = Seq<W>;

    closed spec fn view(&self) -> Seq<W> {
        self.pending@
    }
}

impl<W> CoronaPlatform<W> {
    /// No window waiting.
    pub fn new() -> (r: CoronaPlatform<W>)
        ensures
            r@ == Seq::<W>::empty(),
    {
        CoronaPlatform { pending: Vec::new() }
    }

    /// Registers `window`, so that the next request for a window adapter
    /// hands it out.
    pub fn add_window(&mut self, window: W)
        ensures
            final(self)@ == old(self)@.push(window),
    {
        self.pending.push(window);
    }

    /// Hands out the window registered last, if any is waiting.
    pub fn create_window_adapter(&mut self) -> (r: Option<W>)
        ensures
            old(self)@.len() == 0 ==> r is None && final(self)@ == old(self)@,
            old(self)@.len() > 0 ==> r == Some(old(self)@.last()) && final(self)@
                == old(self)@.drop_last(),
    {
        self.pending.pop()
    }
}

/// A window registered is the one the next request hands out, and the
/// windows registered before it wait as they were.
pub proof fn lemma_added_window_is_handed_out_next<W>(pending: Seq<W>, window: W)
    ensures
        pending.push(window).last() == window,
        pending.push(window).drop_last() == pending,
{
    assert(pending.push(window).drop_last() =~= pending);
}

} // verus!
