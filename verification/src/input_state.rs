use vstd::prelude::*;

verus! {

/// One abstract input for the combat machine, already demultiplexed from
/// raw device events by an outside input layer.
#[derive(Clone, Copy, Debug, PartialEq, Eq, Structural)]
pub enum Input {
    Unmapped,
    Select,
    Cancel,
    Next,
    Previous,
}

/// The ordered queue of abstract inputs delivered to the combat machine in
/// one update tick.
#[derive(Debug)]
pub struct InputState {
    pub input_buffer: Vec<Input>,
}

impl View for InputState {
    type V = Seq<Input>;

    open spec fn view(&self) -> Seq<Input> {
        self.input_buffer@
    }
}

impl InputState {
    /// An empty input queue.
    pub fn new() -> (r: Self)
        ensures
            r@ == Seq::<Input>::empty(),
    {
        let r = InputState { input_buffer: Vec::new() };
        proof {
            assert(r@ =~= Seq::<Input>::empty());
        }
        r
    }

    /// Queue one decoded input for the next update tick.
    pub fn push_input(&mut self, input: Input)
        ensures
            final(self)@ == old(self)@.push(input),
    {
        self.input_buffer.push(input);
    }

    /// Drop all buffered inputs, once a tick has consumed them.
    pub fn clear(&mut self)
        ensures
            final(self)@ == Seq::<Input>::empty(),
    {
        self.input_buffer.clear();
        proof {
            assert(self@ =~= Seq::<Input>::empty());
        }
    }
}

} // verus!
