use vstd::prelude::*;

verus! {

/// The abstract state of a sample player: interleaved sample frames (bit patterns of
/// `f32` values), the number of channels per frame, the frame to play next, whether it is
/// playing, and the trigger as it was at the last tick.
pub struct PlayerState {
    pub samples: Seq<u32>,
    pub channels: nat,
    pub frame: nat,
    pub active: bool,
    pub prev_trigger: bool,
}

/// The little-endian `u32` made of four bytes.
pub open spec fn le_word(b0: u8, b1: u8, b2: u8, b3: u8) -> u32 {
    (b0 + 256 * b1 + 65536 * b2 + 16777216 * b3) as u32
}

/// The `i`-th little-endian word of `bytes`.
pub open spec fn le_word_at(bytes: Seq<u8>, i: int) -> u32 {
    le_word(bytes[4 * i], bytes[4 * i + 1], bytes[4 * i + 2], bytes[4 * i + 3])
}

/// The little-endian words of `bytes`, four bytes each; trailing bytes that do not fill a
/// word are left out.
pub open spec fn le_words(bytes: Seq<u8>) -> Seq<u32> {
    Seq::new(bytes.len() / 4, |i: int| le_word_at(bytes, i))
}

/// The source channel that output channel `ch` plays: the same one, or the last source
/// channel when the output has more channels than the samples.
pub open spec fn source_channel(ch: nat, channels: nat) -> nat {
    if ch < channels {
        ch
    } else {
        (channels - 1) as nat
    }
}

impl PlayerState {
    /// The state once the trigger's edge has been seen: a rising edge restarts playback
    /// from the first frame, a falling edge stops it, and the trigger is remembered.
    pub open spec fn after_edge(self, triggered: bool) -> PlayerState {
        if triggered && !self.prev_trigger {
            PlayerState { frame: 0, active: true, prev_trigger: triggered, ..self }
        } else if !triggered && self.prev_trigger {
            PlayerState { active: false, prev_trigger: triggered, ..self }
        } else {
            PlayerState { prev_trigger: triggered, ..self }
        }
    }

    /// Where the current frame starts among the interleaved samples.
    pub open spec fn frame_offset(self) -> nat {
        self.frame * self.channels
    }

    /// Whether the current frame lies within the samples.
    pub open spec fn frame_in_range(self) -> bool {
        self.frame_offset() < self.samples.len()
    }

    /// The samples that the current frame adds to `n` output channels.
    pub open spec fn frame_mix(self, n: nat) -> Seq<u32> {
        Seq::new(
            n,
            |ch: int| self.samples[(self.frame_offset() + source_channel(ch as nat, self.channels)) as int],
        )
    }

    /// One tick with the trigger at `triggered` and `n` output channels: the state after
    /// it, and the samples to add to the outputs (one per output channel when a frame is
    /// played, none otherwise). A frame past the end of the samples stops playback.
    pub open spec fn tick(self, triggered: bool, n: nat) -> (PlayerState, Seq<u32>) {
        let e = self.after_edge(triggered);
        if e.active {
            if e.frame_in_range() {
                (PlayerState { frame: e.frame + 1, ..e }, e.frame_mix(n))
            } else {
                (PlayerState { active: false, ..e }, Seq::empty())
            }
        } else {
            (e, Seq::empty())
        }
    }

    /// The player only plays while the trigger is held down.
    pub open spec fn wf(self) -> bool {
        self.active ==> self.prev_trigger
    }

    /// Playback stopped and rewound to the first frame; everything else kept.
    pub open spec fn rewound(self) -> PlayerState {
        PlayerState { frame: 0, active: false, ..self }
    }

    /// The inputs on which a tick stays within the samples and within `usize`: the frame's
    /// offset must fit, and a frame that is played must have every source sample it reads,
    /// which takes at least one channel per frame when there are outputs.
    pub open spec fn tick_defined(self, triggered: bool, n: nat) -> bool {
        let e = self.after_edge(triggered);
        e.active ==> {
            &&& e.frame * e.channels <= usize::MAX
            &&& e.frame_in_range() ==> {
                &&& e.frame < usize::MAX
                &&& n > 0 ==> e.channels > 0 && e.frame_offset() + source_channel(
                    (n - 1) as nat,
                    e.channels,
                ) < e.samples.len()
            }
        }
    }
}

/// The state after `k` ticks with the trigger held down and `n` output channels.
pub open spec fn held_ticks(s: PlayerState, n: nat, k: nat) -> PlayerState
    decreases k,
{
    if k == 0 {
        s
    } else {
        held_ticks(s, n, (k - 1) as nat).tick(true, n).0
    }
}

/// Holding the trigger down plays the frames in order from the first: pressed from a
/// released state, the tick after `k` held ticks plays frame `k`, as long as that frame
/// starts within the samples, and leaves the player on frame `k + 1`.
pub proof fn lemma_held_trigger_plays_in_order(s: PlayerState, n: nat, k: nat)
    requires
        !s.prev_trigger,
        k * s.channels < s.samples.len(),
    ensures
        held_ticks(s, n, k).tick(true, n).1 == (PlayerState { frame: k, ..s }).frame_mix(n),
        held_ticks(s, n, k + 1) == (PlayerState {
            frame: k + 1,
            active: true,
            prev_trigger: true,
            ..s
        }),
    decreases k,
{
    if k > 0 {
        let c = s.channels;
        assert((k - 1) * c <= k * c) by (nonlinear_arith)
            requires
                k > 0,
        ;
        lemma_held_trigger_plays_in_order(s, n, (k - 1) as nat);
    }
}

/// Releasing the trigger silences the player: a tick with the trigger up plays nothing and
/// leaves the player stopped.
pub proof fn lemma_released_trigger_is_silent(s: PlayerState, n: nat)
    requires
        s.wf(),
    ensures
        s.tick(false, n).1 == Seq::<u32>::empty(),
        !s.tick(false, n).0.active,
{
}

/// A reset while the trigger is held down keeps the player silent: with no new rising edge,
/// the next held tick plays nothing and changes nothing.
pub proof fn lemma_reset_while_held_stays_silent(s: PlayerState, n: nat)
    requires
        s.prev_trigger,
    ensures
        s.rewound().tick(true, n) == (s.rewound(), Seq::<u32>::empty()),
{
}

/// Whole frames never run past the samples: when the samples are a whole number of frames
/// of at least one channel, and the current frame starts within them or right at their end,
/// a tick is defined for any trigger and any number of outputs, and afterwards the frame
/// still starts within the samples or right at their end.
pub proof fn lemma_whole_frames_tick_is_defined(s: PlayerState, triggered: bool, n: nat)
    requires
        s.channels >= 1,
        s.samples.len() % s.channels == 0,
        s.frame * s.channels <= s.samples.len(),
        s.samples.len() <= usize::MAX,
    ensures
        s.tick_defined(triggered, n),
        s.tick(triggered, n).0.samples == s.samples,
        s.tick(triggered, n).0.channels == s.channels,
        s.tick(triggered, n).0.frame * s.channels <= s.samples.len(),
{
    let e = s.after_edge(triggered);
    let c = s.channels;
    let len = s.samples.len();
    let f = e.frame;
    if triggered && !s.prev_trigger {
        assert(f == 0);
        assert(f * c == 0) by (nonlinear_arith)
            requires
                f == 0,
        ;
    } else {
        assert(f == s.frame);
    }
    assert(f * c <= len);
    vstd::arithmetic::div_mod::lemma_fundamental_div_mod(len as int, c as int);
    let q = len / c;
    assert(len == c * q);
    assert(f <= f * c) by (nonlinear_arith)
        requires
            c >= 1,
    ;
    if f * c < len {
        assert((f + 1) * c <= len && f * c + c <= len) by (nonlinear_arith)
            requires
                f * c < len,
                len == c * q,
                c >= 1,
        ;
        assert(source_channel((n - 1) as nat, c) <= c - 1);
    }
}

/// A one-shot player of interleaved sample frames, started by a rising trigger and
/// stopped by a falling one.
pub struct SamplePlayer {
    samples: Vec<u32>,
    channels: usize,
    frame: usize,
    active: bool,
    prev_trigger: bool,
}

impl View for SamplePlayer {
    type V = PlayerState;

    closed spec fn view(&self) -> PlayerState {
        PlayerState {
            samples: self.samples@,
            channels: self.channels as nat,
            frame: self.frame as nat,
            active: self.active,
            prev_trigger: self.prev_trigger,
        }
    }
}

impl SamplePlayer {
    /// The player's sample count, channel count and frame each fit in a `usize`.
    pub proof fn lemma_view_fits(&self)
        ensures
            self@.samples.len() <= usize::MAX,
            self@.channels <= usize::MAX,
            self@.frame <= usize::MAX,
    {
        assert(self.samples.len() == self.samples@.len());
    }

    /// The number of samples, all channels of all frames together.
    pub fn samples_len(&self) -> (n: usize)
        ensures
            n == self@.samples.len(),
    {
        self.samples.len()
    }

    /// A stopped player of `samples`, interleaved with `channels` samples per frame.
    pub fn new(samples: Vec<u32>, channels: usize) -> (p: SamplePlayer)
        ensures
            p@ == (PlayerState {
                samples: samples@,
                channels: channels as nat,
                frame: 0,
                active: false,
                prev_trigger: false,
            }),
            p@.wf(),
    {
        SamplePlayer { samples, channels, frame: 0, active: false, prev_trigger: false }
    }

    /// A stopped player of the little-endian `f32` samples (as bit patterns) in `bytes`, four
    /// bytes each, with `channels` samples per frame; trailing bytes that do not fill a
    /// sample are ignored.
    pub fn from_f32_le_bytes(bytes: &[u8], channels: usize) -> (p: SamplePlayer)
        ensures
            p@ == (PlayerState {
                samples: le_words(bytes@),
                channels: channels as nat,
                frame: 0,
                active: false,
                prev_trigger: false,
            }),
            p@.wf(),
    {
        let byte_len = bytes.len();
        let count = byte_len / 4;
        let mut samples: Vec<u32> = Vec::with_capacity(count);
        let mut i: usize = 0;
        while i < count
            invariant
                byte_len == bytes@.len(),
                count == bytes@.len() / 4,
                i <= count,
                samples@.len() == i,
                forall|j: int| 0 <= j < i ==> samples@[j] == le_word_at(bytes@, j),
            decreases count - i,
        {
            assert(4 * i + 3 < bytes@.len()) by (nonlinear_arith)
                requires
                    i < count,
                    count == bytes@.len() / 4,
            ;
            let k = 4 * i;
            let word: u32 = bytes[k] as u32 + 256 * (bytes[k + 1] as u32) + 65536 * (
            bytes[k + 2] as u32) + 16777216 * (bytes[k + 3] as u32);
            samples.push(word);
            i = i + 1;
        }
        assert(samples@ =~= le_words(bytes@));
        Self::new(samples, channels)
    }

    fn start(&mut self)
        ensures
            final(self)@ == (PlayerState { frame: 0, active: true, ..old(self)@ }),
    {
        self.frame = 0;
        self.active = true;
    }

    fn stop(&mut self)
        ensures
            final(self)@ == (PlayerState { active: false, ..old(self)@ }),
    {
        self.active = false;
    }

    /// Stops playback and rewinds to the first frame; the samples, the channel count and
    /// the last trigger seen are kept.
    pub fn reset(&mut self)
        ensures
            final(self)@ == old(self)@.rewound(),
            final(self)@.wf(),
    {
        self.frame = 0;
        self.active = false;
    }

    /// Whether a tick with these inputs stays within the samples and within `usize`.
    pub fn can_tick(&self, triggered: bool, n_channels: usize) -> (b: bool)
        ensures
            b == self@.tick_defined(triggered, n_channels as nat),
    {
        let started = triggered && !self.prev_trigger;
        let stopped = !triggered && self.prev_trigger;
        let active = if started {
            true
        } else if stopped {
            false
        } else {
            self.active
        };
        let frame = if started {
            0
        } else {
            self.frame
        };
        if !active {
            return true;
        }
        let len = self.samples.len();
        let channels = self.channels;
        if channels > 0 && frame > usize::MAX / channels {
            assert(frame * channels > usize::MAX) by (nonlinear_arith)
                requires
                    channels > 0,
                    frame > usize::MAX / channels,
            ;
            return false;
        }
        proof {
            if channels > 0 {
                assert(frame * channels <= usize::MAX) by (nonlinear_arith)
                    requires
                        channels > 0,
                        frame <= usize::MAX / channels,
                ;
            }
        }
        let offset = frame * channels;
        if offset >= len {
            return true;
        }
        if frame == usize::MAX {
            return false;
        }
        if n_channels == 0 {
            return true;
        }
        if channels == 0 {
            return false;
        }
        let last_source = if n_channels - 1 < channels {
            n_channels - 1
        } else {
            channels - 1
        };
        last_source < len - offset
    }

    /// Advances the player by one frame of output with `n_channels` outputs, and returns the
    /// samples to add to them: one per output channel (output `ch` gets source channel
    /// `min(ch, channels - 1)` of the current frame) when a frame is played, none otherwise.
    /// A rising trigger restarts playback, a falling one stops it.
    pub fn tick(&mut self, triggered: bool, n_channels: usize) -> (mix: Vec<u32>)
        requires
            old(self)@.tick_defined(triggered, n_channels as nat),
        ensures
            (final(self)@, mix@) == old(self)@.tick(triggered, n_channels as nat),
            old(self)@.wf() ==> final(self)@.wf(),
    {
        if triggered && !self.prev_trigger {
            self.start();
        } else if !triggered && self.prev_trigger {
            self.stop();
        }
        self.prev_trigger = triggered;
        let mut mix: Vec<u32> = Vec::new();
        if self.active {
            let frame_offset = self.frame * self.channels;
            let len = self.samples.len();
            if frame_offset < len {
                let mut ch: usize = 0;
                while ch < n_channels
                    invariant
                        ch <= n_channels,
                        len == self@.samples.len(),
                        frame_offset == self@.frame_offset(),
                        frame_offset < self@.samples.len(),
                        n_channels > 0 ==> self.channels > 0 && frame_offset + source_channel(
                            (n_channels - 1) as nat,
                            self.channels as nat,
                        ) < self@.samples.len(),
                        mix@ =~= self@.frame_mix(ch as nat),
                    decreases n_channels - ch,
                {
                    let src_ch = if ch < self.channels {
                        ch
                    } else {
                        self.channels - 1
                    };
                    assert(src_ch <= source_channel((n_channels - 1) as nat, self.channels as nat));
                    mix.push(self.samples[frame_offset + src_ch]);
                    ch = ch + 1;
                }
                self.frame = self.frame + 1;
            } else {
                self.active = false;
            }
        }
        mix
    }
}

} // verus!
