use vstd::prelude::*;

verus! {

/// One side of a stereo signal.
#[derive(Debug, Clone, Copy, PartialEq, Eq, Structural)]
pub enum Channel {
    Left,
    Right,
}

impl Channel {
    /// The position of the channel in a stereo frame: `Left` is 0, `Right` is 1.
    pub open spec fn position(self) -> nat {
        match self {
            Channel::Left => 0,
            Channel::Right => 1,
        }
    }

    /// The text that names the channel.
    pub open spec fn label(self) -> Seq<char> {
        match self {
            Channel::Left => "Left"@,
            Channel::Right => "Right"@,
        }
    }

    /// The position of the channel in a stereo frame (`Left` is 0, `Right` is 1).
    pub fn index(self) -> (i: usize)
        ensures
            i == self.position(),
    {
        match self {
            Channel::Left => 0,
            Channel::Right => 1,
        }
    }

    /// The channel's name as it is shown to a user: `"Left"` or `"Right"`.
    pub fn to_string(&self) -> (s: String)
        ensures
            s@ == self.label(),
    {
        match self {
            Channel::Left => String::from_str("Left"),
            Channel::Right => String::from_str("Right"),
        }
    }
}

} // verus!
