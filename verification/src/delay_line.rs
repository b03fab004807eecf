use vstd::prelude::*;

use crate::channel::Channel;

verus! {

/// The abstract state of a stereo delay line: one sample store per channel, both written
/// round-robin at `write_pos`. Samples are the bit patterns of `f32` values.
pub struct DelayState {
    pub left: Seq<u32>,
    pub right: Seq<u32>,
    pub write_pos: nat,
}

/// A stereo frame as the delay line stores it: the left sample, then the right one.
pub open spec fn frame_sample(frame: (u32, u32), channel: Channel) -> u32 {
    match channel {
        Channel::Left => frame.0,
        Channel::Right => frame.1,
    }
}

/// `n` silent samples (the bit pattern of `0.0f32` is all zeros).
pub open spec fn silence(n: nat) -> Seq<u32> {
    Seq::new(n, |i: int| 0u32)
}

impl DelayState {
    /// The number of samples that each channel's store holds.
    pub open spec fn len(self) -> nat {
        self.left.len()
    }

    /// Both channels hold the same number of samples.
    pub open spec fn wf(self) -> bool {
        self.left.len() == self.right.len()
    }

    /// Frames can be processed: the stores are not empty and the write position lies in them.
    pub open spec fn ready(self) -> bool {
        &&& self.wf()
        &&& self.len() > 0
        &&& self.write_pos < self.len()
    }

    /// The store of one channel.
    pub open spec fn buffer(self, channel: Channel) -> Seq<u32> {
        match channel {
            Channel::Left => self.left,
            Channel::Right => self.right,
        }
    }

    /// The delay that is used for a requested one: at most one less than the store's length.
    pub open spec fn clamped_delay(self, delay: nat) -> nat {
        if delay <= self.len() - 1 {
            delay
        } else {
            (self.len() - 1) as nat
        }
    }

    /// The position `delay` samples behind the write position, wrapping around the store.
    pub open spec fn read_pos(self, delay: nat) -> nat {
        ((self.write_pos + self.len() - delay) % (self.len() as int)) as nat
    }

    /// What one channel's tap reads for a requested delay: the stored sample at the read
    /// position, or `None` when the clamped delay is zero (the dry sample stands in for it).
    pub open spec fn tap(self, channel: Channel, delay: nat) -> Option<u32> {
        let d = self.clamped_delay(delay);
        if d == 0 {
            None
        } else {
            Some(self.buffer(channel)[self.read_pos(d) as int])
        }
    }

    /// Stores one frame at the write position and moves the write position on by one,
    /// wrapping at the end of the store.
    pub open spec fn write(self, left: u32, right: u32) -> DelayState {
        DelayState {
            left: self.left.update(self.write_pos as int, left),
            right: self.right.update(self.write_pos as int, right),
            write_pos: (self.write_pos + 1) % self.len(),
        }
    }

    /// Both stores silenced, keeping their length, and the write position at 0.
    pub open spec fn cleared(self) -> DelayState {
        DelayState { left: silence(self.left.len()), right: silence(self.right.len()), write_pos: 0 }
    }
}

/// The state after storing `frames` one after the other, the first one first.
pub open spec fn apply_writes(s: DelayState, frames: Seq<(u32, u32)>) -> DelayState
    decreases frames.len(),
{
    if frames.len() == 0 {
        s
    } else {
        let last = frames.last();
        apply_writes(s, frames.drop_last()).write(last.0, last.1)
    }
}

/// A read position computed as `(write_pos + len - delay) % len` is `write_pos - delay`
/// when that does not go below zero, and wraps around the end otherwise.
proof fn lemma_read_pos_unwrapped(write_pos: nat, len: nat, delay: nat)
    requires
        write_pos < len,
        delay <= len,
    ensures
        ((write_pos + len - delay) % (len as int)) == (if write_pos >= delay {
            write_pos - delay
        } else {
            write_pos + len - delay
        }),
{
    if write_pos >= delay {
        let b: int = write_pos - delay;
        vstd::arithmetic::div_mod::lemma_mod_add_multiples_vanish(b, len as int);
        vstd::arithmetic::div_mod::lemma_small_mod(b as nat, len);
    } else {
        vstd::arithmetic::div_mod::lemma_small_mod((write_pos + len - delay) as nat, len);
    }
}

/// Moving the write position on by one: `(pos + 1) % len` is `pos + 1`, or 0 at the end.
proof fn lemma_next_pos(pos: nat, len: nat)
    requires
        pos < len,
    ensures
        (pos + 1) % len == (if pos + 1 < len { pos + 1 } else { 0 }),
{
    if pos + 1 < len {
        vstd::arithmetic::div_mod::lemma_small_mod((pos + 1) as nat, len);
    } else {
        vstd::arithmetic::div_mod::lemma_mod_add_multiples_vanish(0, len as int);
        vstd::arithmetic::div_mod::lemma_small_mod(0, len);
    }
}

/// Storing a frame keeps the delay line ready, and does not change its length.
pub proof fn lemma_write_keeps_ready(s: DelayState, left: u32, right: u32)
    requires
        s.ready(),
    ensures
        s.write(left, right).ready(),
        s.write(left, right).len() == s.len(),
{
    lemma_next_pos(s.write_pos, s.len());
}

/// Storing any number of frames keeps the delay line ready, and does not change its length.
pub proof fn lemma_writes_keep_ready(s: DelayState, frames: Seq<(u32, u32)>)
    requires
        s.ready(),
    ensures
        apply_writes(s, frames).ready(),
        apply_writes(s, frames).len() == s.len(),
    decreases frames.len(),
{
    if frames.len() > 0 {
        lemma_writes_keep_ready(s, frames.drop_last());
        let last = frames.last();
        lemma_write_keeps_ready(apply_writes(s, frames.drop_last()), last.0, last.1);
    }
}

/// A tap reads what was stored `delay` frames earlier: after any sequence of frames has been
/// stored, a tap with a delay `d` (at least one, and shorter than the store) reads, on either
/// channel, the sample of the `d`-th frame counted back from the last one stored.
pub proof fn lemma_tap_reads_earlier_write(
    s: DelayState,
    frames: Seq<(u32, u32)>,
    channel: Channel,
    delay: nat,
)
    requires
        s.ready(),
        1 <= delay <= frames.len(),
        delay < s.len(),
    ensures
        apply_writes(s, frames).tap(channel, delay) == Some(
            frame_sample(frames[frames.len() - delay], channel),
        ),
    decreases frames.len(),
{
    let prefix = frames.drop_last();
    let prev = apply_writes(s, prefix);
    let last = frames.last();
    let cur = prev.write(last.0, last.1);
    lemma_writes_keep_ready(s, prefix);
    lemma_write_keeps_ready(prev, last.0, last.1);
    assert(cur == apply_writes(s, frames));
    let len = prev.len();
    lemma_next_pos(prev.write_pos, len);
    lemma_read_pos_unwrapped(cur.write_pos, len, delay);
    if delay == 1 {
        assert(cur.read_pos(1) == prev.write_pos);
    } else {
        lemma_tap_reads_earlier_write(s, prefix, channel, (delay - 1) as nat);
        lemma_read_pos_unwrapped(prev.write_pos, len, (delay - 1) as nat);
        assert(cur.read_pos(delay) == prev.read_pos((delay - 1) as nat));
        assert(prev.read_pos((delay - 1) as nat) != prev.write_pos);
        assert(prefix[prefix.len() - (delay - 1)] == frames[frames.len() - delay]);
    }
}

/// A tap reaching back further than the frames stored since some earlier state reads what
/// that state held: after `n` frames, a tap with a delay `d` (more than `n`, and shorter
/// than the store) reads what a tap with delay `d - n` read before them.
pub proof fn lemma_tap_reads_past_earlier_writes(
    s: DelayState,
    frames: Seq<(u32, u32)>,
    channel: Channel,
    delay: nat,
)
    requires
        s.ready(),
        frames.len() < delay < s.len(),
    ensures
        apply_writes(s, frames).tap(channel, delay) == s.tap(channel, (delay - frames.len()) as nat),
    decreases frames.len(),
{
    if frames.len() > 0 {
        let prefix = frames.drop_last();
        let prev = apply_writes(s, prefix);
        let last = frames.last();
        let cur = prev.write(last.0, last.1);
        lemma_writes_keep_ready(s, prefix);
        lemma_write_keeps_ready(prev, last.0, last.1);
        assert(cur == apply_writes(s, frames));
        let len = prev.len();
        lemma_next_pos(prev.write_pos, len);
        lemma_read_pos_unwrapped(cur.write_pos, len, delay);
        lemma_read_pos_unwrapped(prev.write_pos, len, (delay - 1) as nat);
        assert(cur.read_pos(delay) == prev.read_pos((delay - 1) as nat));
        lemma_tap_reads_past_earlier_writes(s, prefix, channel, (delay - 1) as nat);
    }
}

/// After a reset every tap reads silence: `Some(0)`, or `None` where the clamped delay is
/// zero.
pub proof fn lemma_cleared_taps_silent(s: DelayState, channel: Channel, delay: nat)
    requires
        s.wf(),
        s.len() > 0,
    ensures
        s.cleared().ready(),
        s.cleared().tap(channel, delay) == (if s.clamped_delay(delay) == 0 {
            None
        } else {
            Some(0u32)
        }),
{
    let c = s.cleared();
    let d = c.clamped_delay(delay);
    if d > 0 {
        lemma_read_pos_unwrapped(0, c.len(), d);
    }
}

/// What a tap reports for one frame.
pub struct Tap {
    /// The delay used: the requested one, at most one less than the store's length.
    pub delay_samples: usize,
    /// Where the tap reads: `delay_samples` behind the write position, wrapping around.
    pub read_pos: usize,
    /// The stored sample at `read_pos`, or `None` when `delay_samples` is zero.
    pub value: Option<u32>,
}

/// How one channel of a frame is processed, given the selected channel's tap.
#[derive(Debug, Clone, Copy, PartialEq, Eq, Structural)]
pub enum ChannelRoute {
    /// The selected channel: its store gets its dry sample plus the delayed sample times the
    /// feedback, and its output mixes towards the delayed sample with the polarity applied.
    /// The delayed sample is `tapped`, or the dry sample itself when `tapped` is `None`.
    Delayed { tapped: Option<u32> },
    /// Any other channel: its store gets its dry sample, and its output crossfeeds towards
    /// `tapped` with the polarity applied, or stays dry when `tapped` is `None`.
    Crossfed { tapped: Option<u32> },
}

/// The route of the channel at `channel_index` in a frame whose selected channel is
/// `selected` and whose tap on the selected channel read `tapped`.
pub open spec fn spec_route(selected: Channel, channel_index: nat, tapped: Option<u32>) -> ChannelRoute {
    if channel_index == selected.position() {
        ChannelRoute::Delayed { tapped }
    } else {
        ChannelRoute::Crossfed { tapped }
    }
}

/// The tap that a route carries.
pub open spec fn route_tap(r: ChannelRoute) -> Option<u32> {
    match r {
        ChannelRoute::Delayed { tapped } => tapped,
        ChannelRoute::Crossfed { tapped } => tapped,
    }
}

/// Exactly the selected channel is delayed, every other channel is crossfed, and every
/// channel's route carries the selected channel's tap unchanged, so the crossfed channel
/// always moves towards the same delayed sample that the selected channel plays.
pub proof fn lemma_route_roles(selected: Channel, i: nat, j: nat, tapped: Option<u32>)
    ensures
        (spec_route(selected, i, tapped) is Delayed) <==> i == selected.position(),
        (spec_route(selected, i, tapped) is Crossfed) <==> i != selected.position(),
        route_tap(spec_route(selected, i, tapped)) == tapped,
        route_tap(spec_route(selected, i, tapped)) == route_tap(spec_route(selected, j, tapped)),
{
}

/// Routes the channel at `channel_index`: the selected channel is delayed (with feedback
/// into its own store), every other channel is crossfed from the selected channel's tap.
pub fn route(selected: Channel, channel_index: usize, tapped: Option<u32>) -> (r: ChannelRoute)
    ensures
        r == spec_route(selected, channel_index as nat, tapped),
        (r is Delayed) <==> channel_index == selected.position(),
        route_tap(r) == tapped,
{
    if channel_index == selected.index() {
        ChannelRoute::Delayed { tapped }
    } else {
        ChannelRoute::Crossfed { tapped }
    }
}

/// A stereo delay line: two equally long sample stores with one shared write position.
pub struct DelayLine {
    left: Vec<u32>,
    right: Vec<u32>,
    write_pos: usize,
}

impl DelayLine {
    /// Both channels' stores are always equally long.
    #[verifier::type_invariant]
    spec fn stores_match(self) -> bool {
        self.left@.len() == self.right@.len()
    }
}

impl View for DelayLine {
    type V = DelayState;

    closed spec fn view(&self) -> DelayState {
        DelayState { left: self.left@, right: self.right@, write_pos: self.write_pos as nat }
    }
}

/// A vector of `n` silent samples.
fn silent_vec(n: usize) -> (v: Vec<u32>)
    ensures
        v@ == silence(n as nat),
{
    let mut v: Vec<u32> = Vec::with_capacity(n);
    let mut i: usize = 0;
    while i < n
        invariant
            i <= n,
            v@ == silence(i as nat),
        decreases n - i,
    {
        v.push(0);
        i = i + 1;
    }
    v
}

/// Sets every sample of `v` to silence, keeping its length.
fn silence_in_place(v: &mut Vec<u32>)
    ensures
        final(v)@ == silence(old(v)@.len()),
{
    let n = v.len();
    let mut i: usize = 0;
    while i < n
        invariant
            i <= n,
            v@.len() == n,
            forall|j: int| 0 <= j < i ==> v@[j] == 0u32,
        decreases n - i,
    {
        v.set(i, 0);
        i = i + 1;
    }
    assert(v@ =~= silence(n as nat));
}

impl DelayLine {
    /// An empty delay line, with nothing allocated and the write position at 0.
    pub fn new() -> (d: DelayLine)
        ensures
            d@ == (DelayState { left: Seq::empty(), right: Seq::empty(), write_pos: 0 }),
            d@.wf(),
    {
        DelayLine { left: Vec::new(), right: Vec::new(), write_pos: 0 }
    }

    /// The number of samples each channel's store holds.
    pub fn len(&self) -> (n: usize)
        ensures
            n == self@.len(),
    {
        self.left.len()
    }

    /// The current write position.
    pub fn write_pos(&self) -> (p: usize)
        ensures
            p == self@.write_pos,
    {
        self.write_pos
    }

    /// Allocates silent stores of `max_delay_samples_ceil + 1` samples on both channels, for
    /// the longest delay (in whole samples, rounded up) the line must hold. The write
    /// position is left as it was.
    pub fn initialize(&mut self, max_delay_samples_ceil: usize)
        requires
            max_delay_samples_ceil < usize::MAX,
        ensures
            final(self)@.left == silence((max_delay_samples_ceil + 1) as nat),
            final(self)@.right == silence((max_delay_samples_ceil + 1) as nat),
            final(self)@.write_pos == old(self)@.write_pos,
            final(self)@.wf(),
    {
        let n = max_delay_samples_ceil + 1;
        let write_pos = self.write_pos;
        *self = DelayLine { left: silent_vec(n), right: silent_vec(n), write_pos };
    }

    /// Silences both stores, keeping their length, and moves the write position to 0.
    pub fn reset(&mut self)
        ensures
            final(self)@ == old(self)@.cleared(),
            final(self)@.wf(),
    {
        proof {
            use_type_invariant(&*self);
        }
        let mut taken = DelayLine::new();
        std::mem::swap(self, &mut taken);
        let DelayLine { mut left, mut right, write_pos: _ } = taken;
        silence_in_place(&mut left);
        silence_in_place(&mut right);
        *self = DelayLine { left, right, write_pos: 0 };
    }

    /// Whether frames can be processed: the stores are not empty and the write position
    /// lies in them.
    pub fn is_ready(&self) -> (b: bool)
        ensures
            b == self@.ready(),
    {
        proof {
            use_type_invariant(self);
        }
        self.left.len() > 0 && self.write_pos < self.left.len()
    }

    /// Reads one channel `delay_samples` behind the write position, after clamping the delay
    /// to one less than the store's length. A tap with a nonzero delay never reads the write
    /// position, so storing the current frame cannot change what it read.
    pub fn tap(&self, channel: Channel, delay_samples: usize) -> (t: Tap)
        requires
            self@.ready(),
        ensures
            t.delay_samples == self@.clamped_delay(delay_samples as nat),
            t.read_pos == self@.read_pos(t.delay_samples as nat),
            t.read_pos < self@.len(),
            t.value == self@.tap(channel, delay_samples as nat),
            t.delay_samples >= 1 ==> t.read_pos != self@.write_pos,
    {
        let len = self.left.len();
        let delay = if delay_samples <= len - 1 {
            delay_samples
        } else {
            len - 1
        };
        proof {
            lemma_read_pos_unwrapped(self.write_pos as nat, len as nat, delay as nat);
        }
        let read_pos = if self.write_pos >= delay {
            self.write_pos - delay
        } else {
            self.write_pos + (len - delay)
        };
        let value = if delay == 0 {
            None
        } else {
            match channel {
                Channel::Left => Some(self.left[read_pos]),
                Channel::Right => Some(self.right[read_pos]),
            }
        };
        Tap { delay_samples: delay, read_pos, value }
    }

    /// Stores one frame at the write position and moves the write position on by one,
    /// wrapping at the end of the stores.
    pub fn write(&mut self, left: u32, right: u32)
        requires
            old(self)@.ready(),
        ensures
            final(self)@ == old(self)@.write(left, right),
            final(self)@.ready(),
    {
        proof {
            lemma_write_keeps_ready(self@, left, right);
            lemma_next_pos(self.write_pos as nat, self.left@.len());
        }
        let mut taken = DelayLine::new();
        std::mem::swap(self, &mut taken);
        let DelayLine { left: mut left_store, right: mut right_store, write_pos: pos } = taken;
        let len = left_store.len();
        left_store.set(pos, left);
        right_store.set(pos, right);
        let next = if pos + 1 < len {
            pos + 1
        } else {
            0
        };
        *self = DelayLine { left: left_store, right: right_store, write_pos: next };
    }
}

} // verus!
