use vstd::prelude::*;

verus! {

/// A gamepad button, as the device layer reports it.
#[derive(Clone, Copy, Debug, PartialEq, Eq, Structural)]
pub enum GamepadButton {
    DPadDown,
    DPadUp,
    DPadLeft,
    DPadRight,
    East,
    South,
    Other,
}

/// A keyboard key, as the window layer reports it.
#[derive(Clone, Copy, Debug, PartialEq, Eq, Structural)]
pub enum KeyCode {
    A,
    D,
    E,
    Q,
    S,
    W,
    Other,
}

/// A raw device input before mapping: a gamepad button or a keyboard key.
#[derive(Clone, Copy, Debug, PartialEq, Eq, Structural)]
pub enum RawInput {
    Gamepad(GamepadButton),
    Keyboard(KeyCode),
}

/// A discriminated union which describes all of the possible application
/// level inputs.
#[derive(Clone, Copy, Debug, PartialEq, Eq, Structural)]
pub enum Input {
    Cancel,
    Down,
    Left,
    Right,
    Select,
    Up,
}

/// The application-level input a raw device input maps to, if any: the
/// directional pad and WASD move, East and Q cancel, South and E select.
pub open spec fn spec_map_input(raw: RawInput) -> Option<Input> {
    match raw {
        RawInput::Gamepad(GamepadButton::DPadDown) => Some(Input::Down),
        RawInput::Gamepad(GamepadButton::DPadUp) => Some(Input::Up),
        RawInput::Gamepad(GamepadButton::DPadRight) => Some(Input::Right),
        RawInput::Gamepad(GamepadButton::DPadLeft) => Some(Input::Left),
        RawInput::Gamepad(GamepadButton::East) => Some(Input::Cancel),
        RawInput::Gamepad(GamepadButton::South) => Some(Input::Select),
        RawInput::Gamepad(GamepadButton::Other) => None,
        RawInput::Keyboard(KeyCode::A) => Some(Input::Left),
        RawInput::Keyboard(KeyCode::D) => Some(Input::Right),
        RawInput::Keyboard(KeyCode::E) => Some(Input::Select),
        RawInput::Keyboard(KeyCode::Q) => Some(Input::Cancel),
        RawInput::Keyboard(KeyCode::S) => Some(Input::Down),
        RawInput::Keyboard(KeyCode::W) => Some(Input::Up),
        RawInput::Keyboard(KeyCode::Other) => None,
    }
}

/// The input-mapping state: the raw-to-abstract input map as data, and the
/// queue of mapped inputs awaiting consumption.
#[derive(Debug)]
pub struct InputState {
    pub input_map: Vec<(RawInput, Input)>,
    pub input_queue: Vec<Input>,
}

/// The pairs an `InputState` made by `new` holds, in order.
pub open spec fn spec_default_map() -> Seq<(RawInput, Input)> {
    seq![
        (RawInput::Gamepad(GamepadButton::DPadDown), Input::Down),
        (RawInput::Gamepad(GamepadButton::DPadUp), Input::Up),
        (RawInput::Gamepad(GamepadButton::DPadRight), Input::Right),
        (RawInput::Gamepad(GamepadButton::DPadLeft), Input::Left),
        (RawInput::Gamepad(GamepadButton::East), Input::Cancel),
        (RawInput::Gamepad(GamepadButton::South), Input::Select),
        (RawInput::Keyboard(KeyCode::A), Input::Left),
        (RawInput::Keyboard(KeyCode::D), Input::Right),
        (RawInput::Keyboard(KeyCode::E), Input::Select),
        (RawInput::Keyboard(KeyCode::Q), Input::Cancel),
        (RawInput::Keyboard(KeyCode::S), Input::Down),
        (RawInput::Keyboard(KeyCode::W), Input::Up),
    ]
}

/// The first mapping for `raw` among the pairs below `k`, if any.
pub open spec fn spec_lookup(pairs: Seq<(RawInput, Input)>, raw: RawInput, k: int) -> Option<Input>
    decreases k,
{
    if k <= 0 {
        None
    } else {
        match spec_lookup(pairs, raw, k - 1) {
            Some(i) => Some(i),
            None => if pairs[k - 1].0 == raw {
                Some(pairs[k - 1].1)
            } else {
                None
            },
        }
    }
}

impl InputState {
    /// The default input mapping with an empty queue.
    pub fn new() -> (r: InputState)
        ensures
            r.input_map@ == spec_default_map(),
            r.input_queue@ == Seq::<Input>::empty(),
    {
        let mut input_map: Vec<(RawInput, Input)> = Vec::new();
        input_map.push((RawInput::Gamepad(GamepadButton::DPadDown), Input::Down));
        input_map.push((RawInput::Gamepad(GamepadButton::DPadUp), Input::Up));
        input_map.push((RawInput::Gamepad(GamepadButton::DPadRight), Input::Right));
        input_map.push((RawInput::Gamepad(GamepadButton::DPadLeft), Input::Left));
        input_map.push((RawInput::Gamepad(GamepadButton::East), Input::Cancel));
        input_map.push((RawInput::Gamepad(GamepadButton::South), Input::Select));
        input_map.push((RawInput::Keyboard(KeyCode::A), Input::Left));
        input_map.push((RawInput::Keyboard(KeyCode::D), Input::Right));
        input_map.push((RawInput::Keyboard(KeyCode::E), Input::Select));
        input_map.push((RawInput::Keyboard(KeyCode::Q), Input::Cancel));
        input_map.push((RawInput::Keyboard(KeyCode::S), Input::Down));
        input_map.push((RawInput::Keyboard(KeyCode::W), Input::Up));
        let r = InputState { input_map, input_queue: Vec::new() };
        proof {
            assert(r.input_map@ =~= spec_default_map());
            assert(r.input_queue@ =~= Seq::<Input>::empty());
        }
        r
    }

    /// Queue one already-mapped input.
    pub fn push_input(&mut self, input: Input)
        ensures
            final(self).input_queue@ == old(self).input_queue@.push(input),
            final(self).input_map@ == old(self).input_map@,
    {
        self.input_queue.push(input);
    }

    /// Map a raw device input through the input map and queue the result;
    /// an unmapped raw input is dropped.
    pub fn push_input_raw(&mut self, input: RawInput)
        ensures
            final(self).input_map@ == old(self).input_map@,
            final(self).input_queue@ == match spec_lookup(
                old(self).input_map@,
                input,
                old(self).input_map@.len() as int,
            ) {
                Some(i) => old(self).input_queue@.push(i),
                None => old(self).input_queue@,
            },
    {
        let mut found: Option<Input> = None;
        let mut k: usize = 0;
        while k < self.input_map.len()
            invariant
                k <= self.input_map@.len(),
                found == spec_lookup(self.input_map@, input, k as int),
                self.input_map@ == old(self).input_map@,
                self.input_queue@ == old(self).input_queue@,
            decreases self.input_map@.len() - k,
        {
            let (raw, mapped) = self.input_map[k];
            if found.is_none() && raw == input {
                found = Some(mapped);
            }
            k += 1;
        }
        if let Some(i) = found {
            self.push_input(i);
        }
    }

    /// Take the oldest queued input, if any.
    pub fn pop_input(&mut self) -> (r: Option<Input>)
        ensures
            final(self).input_map@ == old(self).input_map@,
            old(self).input_queue@.len() == 0 ==> r is None && final(self).input_queue@ == old(self).input_queue@,
            old(self).input_queue@.len() > 0 ==> r == Some(old(self).input_queue@[0])
                && final(self).input_queue@ == old(self).input_queue@.drop_first(),
    {
        if self.input_queue.len() == 0 {
            None
        } else {
            let first = self.input_queue.remove(0);
            proof {
                assert(self.input_queue@ =~= old(self).input_queue@.drop_first());
            }
            Some(first)
        }
    }
}

} // verus!
