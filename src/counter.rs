//! A counter that buttons step up and down.
use vstd::prelude::*;

verus! {

/// The messages that the counter's buttons send.
#[derive(Clone, Copy, Debug, PartialEq, Eq, Structural)]
pub enum Msg {
    Increment,
    Decrement,
}

/// The counter's state.
#[derive(Clone, Copy, Debug, PartialEq, Eq, Structural)]
pub struct App {
    /// The counter value.
    pub value: i64,
}

impl App {
    /// A counter at zero.
    pub fn create() -> (r: Self)
        ensures
            r.value == 0,
    {
        App { value: 0 }
    }

    /// Applies a message; returns `true`: the view is to be redrawn.
    pub fn update(&mut self, msg: Msg) -> (r: bool)
        requires
            msg == Msg::Increment ==> old(self).value < i64::MAX,
            msg == Msg::Decrement ==> old(self).value > i64::MIN,
        ensures
            r,
            final(self).value == old(self).value + if msg == Msg::Increment { 1int } else { -1int },
    {
        match msg {
            Msg::Increment => {
                self.value = self.value + 1;
            },
            Msg::Decrement => {
                self.value = self.value - 1;
            },
        }
        true
    }
}

} // verus!
