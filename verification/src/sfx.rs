//! The music player and the sound effects.

use crate::bytes::{be_u16_at, get_be_u16};
use crate::data::MIN_FREQUENCY;
use crate::host::{commands_view, resample, resampled, CommandView, HostCommand};
use crate::mem::{
    address_of_entry_with_kind, ready_address_of_kind, MemoryView, DATA_SIZE, KIND_MUSIC,
    KIND_SOUND,
};
use crate::script::{VmView, REG_MUSIC_SYNC};
use crate::{agrees, Error, Game, GameView};
use vstd::prelude::*;

verus! {

/// Samples per second that the host plays.
pub const HOST_RATE: u16 = 44100;

/// Samples per second at which the game's sounds are recorded.
pub const GAME_RATE: u16 = 11025;

/// A position in a sample, in 1/65536ths, and the step by which it moves.
#[derive(Clone, Copy, Debug, PartialEq, Eq, Structural)]
pub struct Frac {
    pub inc: u32,
    pub offset: u64,
}

/// The largest integer not above `a / 65536`.
pub open spec fn floor16(a: int) -> int {
    a / 65536
}

/// `s1` and `s2` blended by `fp / 65536`: all of `s1` at zero, almost all of
/// `s2` at 65535, rounded down.
pub open spec fn blend(s1: i8, s2: i8, fp: u16) -> int {
    floor16(s1 as int * (0xFFFF - fp) + s2 as int * fp)
}

impl Frac {
    /// The step `n / d`, rounded down to 1/65536ths, at position zero.
    pub fn new(n: u32, d: u32) -> (f: Self)
        requires
            d != 0,
        ensures
            f.inc == (n << 16) / d,
            f.offset == 0,
    {
        Frac { inc: (n << 16) / d, offset: 0 }
    }

    /// The whole part of a position.
    pub open spec fn spec_int_part(self) -> u32 {
        (self.offset >> 16) as u32
    }

    /// The fractional part of a position.
    pub open spec fn spec_frac(self) -> u16 {
        self.offset as u16
    }

    #[verifier::when_used_as_spec(spec_int_part)]
    pub fn int_part(self) -> (n: u32)
        ensures
            n == self.spec_int_part(),
    {
        (self.offset >> 16) as u32
    }

    pub fn set_int(&mut self, whole: u32)
        ensures
            final(self).inc == old(self).inc,
            final(self).offset == (whole as u64) << 16,
    {
        self.offset = (whole as u64) << 16;
    }

    #[verifier::when_used_as_spec(spec_frac)]
    pub fn frac(self) -> (n: u16)
        ensures
            n == self.spec_frac(),
    {
        self.offset as u16
    }

    /// Moves the position on by one step.
    pub fn inc(&mut self)
        ensures
            final(self).inc == old(self).inc,
            final(self).offset == old(self).offset.wrapping_add(old(self).inc as u64),
    {
        self.offset = self.offset.wrapping_add(self.inc as u64);
    }

    pub fn interpolate(self, sample1: i8, sample2: i8) -> (s: i16)
        ensures
            s == blend(sample1, sample2, self.spec_frac()),
            -128 <= s <= 127,
    {
        let fp = self.frac();
        let w1: i32 = (0xFFFF - fp) as i32;
        let w2: i32 = fp as i32;
        assert(-128 * 65535 <= sample1 * w1 + sample2 * w2 <= 127 * 65535) by (nonlinear_arith)
            requires
                -128 <= sample1 <= 127,
                -128 <= sample2 <= 127,
                0 <= w1,
                0 <= w2,
                w1 + w2 == 65535,
        ;
        assert(-128 * 65535 <= sample1 * w1 <= 128 * 65535) by (nonlinear_arith)
            requires
                -128 <= sample1 <= 127,
                0 <= w1 <= 65535,
        ;
        assert(-128 * 65535 <= sample2 * w2 <= 128 * 65535) by (nonlinear_arith)
            requires
                -128 <= sample2 <= 127,
                0 <= w2 <= 65535,
        ;
        let a: i32 = (sample1 as i32) * w1 + (sample2 as i32) * w2;
        floor_shift16(a)
    }
}

/// `a / 65536`, rounded down.
fn floor_shift16(a: i32) -> (q: i16)
    requires
        -128 * 65535 <= a <= 127 * 65535,
    ensures
        q == floor16(a as int),
        -128 <= q <= 127,
{
    if a >= 0 {
        ((a as u32) / 65536) as i16
    } else {
        let m: u32 = (-a) as u32;
        let q: u32 = (m + 65535) / 65536;
        -(q as i16)
    }
}

/// One of the four voices of the mixer.
#[derive(Clone, Copy, Debug, PartialEq, Eq, Structural)]
pub struct Channel {
    /// Where in the arena the sample's first byte lies.
    pub sample_address: usize,
    /// Length of the sample in bytes; zero for a silent channel.
    pub sample_len: u16,
    pub sample_loop_pos: u16,
    /// Length of the part that is repeated; zero for a sample played once.
    pub sample_loop_len: u16,
    pub volume: u16,
    pub pos: Frac,
}

/// An instrument of a track: a sound resource and the volume to play it at.
#[derive(Clone, Copy, Debug, PartialEq, Eq, Structural)]
pub struct Instrument {
    /// Where in the arena the resource lies; zero for none.
    pub address: usize,
    pub volume: u16,
}

pub struct Track {
    pub(crate) address: usize,
    pub(crate) cur_pos: u16,
    pub(crate) cur_order: u8,
    pub(crate) order_table: [u8; 128],
    pub(crate) samples: [Instrument; 15],
}

/// What a `Track` holds.
#[verifier::ext_equal]
pub struct TrackView {
    /// Where in the arena the patterns start.
    pub address: int,
    /// Offset of the next row in the current pattern.
    pub cur_pos: u16,
    /// Place in the order table.
    pub cur_order: u8,
    /// The patterns in the order in which they are played.
    pub order_table: Seq<u8>,
    pub samples: Seq<Instrument>,
}

impl View for Track {
    type V = TrackView;

    open(crate) spec fn view(&self) -> TrackView {
        TrackView {
            address: self.address as int,
            cur_pos: self.cur_pos,
            cur_order: self.cur_order,
            order_table: self.order_table@,
            samples: self.samples@,
        }
    }
}

pub struct Player {
    pub(crate) delay: u16,
    pub(crate) samples_left: u16,
    pub(crate) channels: [Channel; 4],
    pub(crate) track: Track,
}

/// What a `Player` holds.
#[verifier::ext_equal]
pub struct PlayerView {
    /// Milliseconds per row; zero when no music plays.
    pub delay: u16,
    /// Frames still to mix before the next row is due.
    pub samples_left: u16,
    pub channels: Seq<Channel>,
    pub track: TrackView,
}

impl View for Player {
    type V = PlayerView;

    open(crate) spec fn view(&self) -> PlayerView {
        PlayerView {
            delay: self.delay,
            samples_left: self.samples_left,
            channels: self.channels@,
            track: self.track@,
        }
    }
}

/// A channel that plays nothing.
pub open spec fn silent_channel() -> Channel {
    Channel {
        sample_address: 0,
        sample_len: 0,
        sample_loop_pos: 0,
        sample_loop_len: 0,
        volume: 0,
        pos: Frac { inc: 0, offset: 0 },
    }
}

/// An instrument that stands for no sound.
pub open spec fn no_instrument() -> Instrument {
    Instrument { address: 0, volume: 0 }
}

/// The player before any music was started.
pub open spec fn idle_player() -> PlayerView {
    PlayerView {
        delay: 0,
        samples_left: 0,
        channels: Seq::new(4, |i: int| silent_channel()),
        track: TrackView {
            address: 0,
            cur_pos: 0,
            cur_order: 0,
            order_table: Seq::new(128, |i: int| 0u8),
            samples: Seq::new(15, |i: int| no_instrument()),
        },
    }
}

/// Milliseconds per row for a delay as the music data states it.
pub open spec fn converted_delay(delay: u16) -> u16 {
    (delay as int * 60 / 7050) as u16
}

impl PlayerView {
    /// Four channels, a full order table, fifteen instruments, patterns
    /// that start inside the arena, and a delay that leaves at least one
    /// row per second.
    pub open spec fn wf(self) -> bool {
        &&& self.channels.len() == 4
        &&& self.track.order_table.len() == 128
        &&& self.track.samples.len() == 15
        &&& 0 <= self.track.address <= 0x100000
        &&& self.track.cur_pos < 1024
        &&& self.delay <= 557
    }
}

fn cvt_delay(delay: u16) -> (ms: u16)
    ensures
        ms == converted_delay(delay),
        ms <= 557,
{
    (delay as u32 * 60 / 7050) as u16
}

impl Player {
    pub open spec fn wf(&self) -> bool {
        self@.wf()
    }

    /// A player that plays nothing.
    pub fn new() -> (p: Self)
        ensures
            p@ == idle_player(),
            p.wf(),
    {
        let silent = Channel {
            sample_address: 0,
            sample_len: 0,
            sample_loop_pos: 0,
            sample_loop_len: 0,
            volume: 0,
            pos: Frac { inc: 0, offset: 0 },
        };
        let p = Player {
            delay: 0,
            samples_left: 0,
            channels: [silent;4],
            track: Track {
                address: 0,
                cur_pos: 0,
                cur_order: 0,
                order_table: [0u8;128],
                samples: [Instrument { address: 0, volume: 0 };15],
            },
        };
        assert(p@.channels =~= idle_player().channels);
        assert(p@.track.order_table =~= idle_player().track.order_table);
        assert(p@.track.samples =~= idle_player().track.samples);
        p
    }

    pub fn set_delay(&mut self, delay: u16)
        ensures
            final(self)@ == (PlayerView { delay: converted_delay(delay), ..old(self)@ }),
    {
        self.delay = cvt_delay(delay);
    }

    pub fn is_end_of_track(&self) -> (b: bool)
        ensures
            b == (self@.delay == 0),
    {
        self.delay == 0
    }

    /// Channel `ch` of the mixer.
    pub fn channel(&self, ch: usize) -> (c: Channel)
        requires
            ch < 4,
        ensures
            c == self@.channels[ch as int],
    {
        self.channels[ch]
    }

    /// Milliseconds per row; zero when no music plays.
    pub fn delay(&self) -> (d: u16)
        ensures
            d == self@.delay,
    {
        self.delay
    }

    /// Offset of the next row in the pattern that is playing.
    pub fn cur_pos(&self) -> (n: u16)
        ensures
            n == self@.track.cur_pos,
    {
        self.track.cur_pos
    }

    /// Place in the order table of the pattern that is playing.
    pub fn cur_order(&self) -> (n: u8)
        ensures
            n == self@.track.cur_order,
    {
        self.track.cur_order
    }
}

/// Note that hands the second word of a row to the scripts.
pub const NOTE_SYNC: u16 = 0xFFFD;

/// Note that silences a channel.
pub const NOTE_STOP: u16 = 0xFFFE;

/// Clock of the machine whose periods the music data counts in.
pub const PERIOD_CLOCK: u32 = 7_159_092;

/// Whether a note is a period that can be played.
pub open spec fn valid_period(note: u16) -> bool {
    0x37 <= note < 0x1000
}

/// The frequency in Hz of a period.
pub open spec fn period_freq(note: u16) -> u16 {
    (PERIOD_CLOCK as int / (note as int * 2)) as u16
}

/// The volume of an instrument under the effect that a row's second word
/// carries: effect 5 adds the word's low byte, up to 63; effect 6 takes it
/// off, down to zero.
pub open spec fn effect_volume(volume: u16, note2: u16) -> u16 {
    let effect = (note2 >> 8) & 0xF;
    let amount = note2 & 0xFF;
    if effect == 5 {
        if volume + amount < 0x3F {
            (volume + amount) as u16
        } else {
            0x3Fu16
        }
    } else if effect == 6 {
        if volume >= amount {
            (volume - amount) as u16
        } else {
            0u16
        }
    } else {
        volume
    }
}

/// A length in bytes from a count of 16-bit words, as 16 bits hold it.
pub open spec fn doubled(words: u16) -> u16 {
    ((words as int * 2) % 0x10000) as u16
}

/// The channel that plays the instrument at `address` of the arena from its
/// start: the sound's header gives the length of the part played once and
/// of the part repeated after it, both in words; the samples start eight
/// bytes in.
pub open spec fn started(data: Seq<u8>, address: int, volume: u16, note1: u16) -> Channel {
    let len = doubled(be_u16_at(data, address));
    let loop_len = doubled(be_u16_at(data, address + 2));
    Channel {
        sample_address: (address + 8) as usize,
        sample_len: len,
        sample_loop_pos: if loop_len != 0 {
            len
        } else {
            0
        },
        sample_loop_len: loop_len,
        volume,
        pos: Frac { inc: ((period_freq(note1) as u32) << 16) / (HOST_RATE as u32), offset: 0 },
    }
}

/// The machine after one channel's cell of a row was handled.
///
/// A cell is two words. If the first is `NOTE_SYNC`, the second goes to the
/// scripts and that is all. Else the top four bits of the second pick an
/// instrument, 1 to 15, or none; an instrument that is there sets the
/// channel's volume. Then the first word, if `NOTE_STOP`, silences the
/// channel; if a period, and an instrument was picked, starts it.
pub open spec fn pattern_handled(g: GameView, channel: int, address: int) -> Result<
    GameView,
    Error,
> {
    let data = g.mem.data;
    let note1 = be_u16_at(data, address);
    let note2 = be_u16_at(data, address + 2);
    let sample = note2 >> 12;
    let ins = g.music.track.samples[sample - 1];
    let picked = sample != 0 && ins.address != 0;
    let volume = effect_volume(ins.volume, note2);
    let ch = g.music.channels[channel];
    if address + 4 > data.len() {
        Err(Error::Corrupt)
    } else if note1 == NOTE_SYNC {
        Ok(
            GameView {
                vm: VmView { regs: g.vm.regs.update(REG_MUSIC_SYNC as int, note2 as i16), ..g.vm },
                ..g
            },
        )
    } else if picked && ins.address + 4 > data.len() {
        Err(Error::Corrupt)
    } else {
        let tuned = if picked {
            Channel { volume, ..ch }
        } else {
            ch
        };
        let after = if note1 == NOTE_STOP {
            Channel { sample_len: 0, ..tuned }
        } else if valid_period(note1) && picked {
            started(data, ins.address as int, volume, note1)
        } else {
            tuned
        };
        Ok(
            GameView {
                music: PlayerView { channels: g.music.channels.update(channel, after), ..g.music },
                ..g
            },
        )
    }
}

/// Where in the arena the row that is due starts.
pub open spec fn row_address(p: PlayerView) -> int {
    p.track.address + p.track.cur_pos + p.track.order_table[p.track.cur_order as int] * 1024
}

/// The machine after the cells of the first `n` channels of the row that is
/// due were handled.
pub open spec fn cells_handled(g: GameView, address: int, n: nat) -> Result<GameView, Error>
    decreases n,
{
    if n == 0 {
        Ok(g)
    } else {
        match cells_handled(g, address, (n - 1) as nat) {
            Ok(g1) => pattern_handled(g1, n - 1, address + (n - 1) * 4),
            Err(e) => Err(e),
        }
    }
}

/// The track moved on by one row: sixteen bytes, and to the next place in
/// the order table after 1024.
pub open spec fn next_row(t: TrackView) -> TrackView {
    if t.cur_pos + 16 >= 1024 {
        TrackView { cur_pos: 0, cur_order: (t.cur_order + 1) as u8, ..t }
    } else {
        TrackView { cur_pos: (t.cur_pos + 16) as u16, ..t }
    }
}

/// The machine after the row that is due was played: a cell for each of
/// the four channels. Fails once the order table is used up.
pub open spec fn events_processed(g: GameView) -> Result<GameView, Error> {
    if g.music.track.cur_order >= 128 {
        Err(Error::Corrupt)
    } else {
        match cells_handled(g, row_address(g.music), 4) {
            Ok(g1) => Ok(
                GameView {
                    music: PlayerView { track: next_row(g1.music.track), ..g1.music },
                    ..g1
                },
            ),
            Err(e) => Err(e),
        }
    }
}

/// `a / 64`, rounded towards zero.
pub open spec fn scaled(a: int) -> int {
    if a >= 0 {
        a / 64
    } else {
        -((-a) / 64)
    }
}

/// `a`, or the nearest of -128 and 127.
pub open spec fn clamped(a: int) -> int {
    if a < -128 {
        -128
    } else if a > 127 {
        127
    } else {
        a
    }
}

/// A byte of the arena as a signed sample.
pub open spec fn sample_at(data: Seq<u8>, pos: int) -> i8 {
    data[pos] as i8
}

/// What a channel adds to a frame, and what becomes of the channel.
///
/// A silent channel adds nothing. Else the position moves on by one step.
/// A sample played once ends, and adds nothing, when the byte after the
/// position is its end. A repeated sample goes back to the start of its
/// repeated part when the byte after the position is that part's end. What
/// is added is the blend of the byte at the position and the next, times
/// the volume over 64; the sum is clamped to eight bits. Fails when a byte
/// lies outside the arena.
pub open spec fn channel_mixed(c: Channel, data: Seq<u8>, in_sample: i8) -> Result<
    (Channel, i8),
    Error,
> {
    let pos1 = c.pos.spec_int_part();
    let moved = Frac { offset: c.pos.offset.wrapping_add(c.pos.inc as u64), ..c.pos };
    let next = pos1.wrapping_add(1);
    let wraps = c.sample_loop_len != 0 && next == c.sample_loop_pos + c.sample_loop_len;
    let pos2 = if wraps {
        c.sample_loop_pos as u32
    } else {
        next
    };
    let pos = if wraps {
        Frac { offset: (pos2 as u64) << 16, ..moved }
    } else {
        moved
    };
    if c.sample_len == 0 {
        Ok((c, in_sample))
    } else if c.sample_loop_len == 0 && next == c.sample_len {
        Ok((Channel { sample_len: 0, pos: moved, ..c }, in_sample))
    } else if c.sample_address + pos1 >= data.len() || c.sample_address + pos2 >= data.len() {
        Err(Error::Corrupt)
    } else {
        let s = blend(
            sample_at(data, c.sample_address + pos1),
            sample_at(data, c.sample_address + pos2),
            pos.spec_frac(),
        );
        Ok((Channel { pos, ..c }, clamped(in_sample + scaled(s * c.volume)) as i8))
    }
}

/// Frames between two rows at the host's rate.
pub open spec fn samples_per_tick(delay: u16) -> u16 {
    (HOST_RATE as int / (1000int / delay as int)) as u16
}

/// The four channels after a frame, and the frame's left and right sample:
/// channels 0 and 3 make up the left one, channels 1 and 2 the right one.
pub open spec fn channels_mixed(ch: Seq<Channel>, data: Seq<u8>) -> Result<
    (Seq<Channel>, i8, i8),
    Error,
> {
    match channel_mixed(ch[0], data, 0) {
        Err(e) => Err(e),
        Ok((c0, s0)) => match channel_mixed(ch[3], data, s0) {
            Err(e) => Err(e),
            Ok((c3, left)) => match channel_mixed(ch[1], data, 0) {
                Err(e) => Err(e),
                Ok((c1, s1)) => match channel_mixed(ch[2], data, s1) {
                    Err(e) => Err(e),
                    Ok((c2, right)) => Ok((seq![c0, c1, c2, c3], left, right)),
                },
            },
        },
    }
}

/// The machine when a frame is to be mixed: the row that is due has been
/// played if no frame was left of the last one.
pub open spec fn tick_due(g: GameView) -> Result<GameView, Error> {
    if g.music.samples_left == 0 {
        match events_processed(g) {
            Ok(g1) => Ok(
                GameView {
                    music: PlayerView { samples_left: samples_per_tick(g.music.delay), ..g1.music },
                    ..g1
                },
            ),
            Err(e) => Err(e),
        }
    } else {
        Ok(g)
    }
}

/// One stereo frame, as 16-bit samples, and the machine after it.
pub open spec fn frame_mixed(g: GameView) -> Result<(GameView, i16, i16), Error> {
    match tick_due(g) {
        Err(e) => Err(e),
        Ok(g1) => match channels_mixed(g1.music.channels, g1.mem.data) {
            Err(e) => Err(e),
            Ok((channels, left, right)) => Ok(
                (
                    GameView {
                        music: PlayerView {
                            samples_left: (g1.music.samples_left - 1) as u16,
                            channels,
                            ..g1.music
                        },
                        ..g1
                    },
                    (left as int * 256) as i16,
                    (right as int * 256) as i16,
                ),
            ),
        },
    }
}

/// `n` stereo frames, left sample first, and the machine after them.
pub open spec fn mixed(g: GameView, n: nat) -> Result<(GameView, Seq<i16>), Error>
    decreases n,
{
    if n == 0 {
        Ok((g, Seq::empty()))
    } else {
        match mixed(g, (n - 1) as nat) {
            Err(e) => Err(e),
            Ok((g1, out)) => match frame_mixed(g1) {
                Err(e) => Err(e),
                Ok((g2, left, right)) => Ok((g2, out.push(left).push(right))),
            },
        }
    }
}

/// Half of a sample, rounded down.
pub open spec fn halved(x: i16) -> i16 {
    (x as int / 2) as i16
}

/// The samples after smoothing: each channel's sample becomes the sum of
/// its half and half of the one before it in that channel. A last sample
/// without its pair is left alone.
pub open spec fn smoothed(out: Seq<i16>) -> Seq<i16> {
    Seq::new(
        out.len(),
        |k: int|
            if k >= 2 * (out.len() / 2) {
                out[k]
            } else if k < 2 {
                halved(out[k])
            } else {
                halved(out[k]).wrapping_add(halved(out[k - 2]))
            },
    )
}

/// Half of a sample, rounded down.
fn half(x: i16) -> (h: i16)
    ensures
        h == halved(x),
{
    if x >= 0 {
        ((x as u16) / 2) as i16
    } else {
        let m: u32 = (-(x as i32)) as u32;
        -(((m + 1) / 2) as i32) as i16
    }
}

/// Smooths the mixed samples in place.
///
/// Each of the two channels is smoothed by itself.
pub fn nr(out: &mut [i16])
    ensures
        final(out)@ == smoothed(old(out)@),
{
    let len = out.len();
    let pairs = len / 2;
    let mut prev_l: i16 = 0;
    let mut prev_r: i16 = 0;
    let mut i: usize = 0;
    while i < pairs
        invariant
            i <= pairs,
            pairs == len / 2,
            len == old(out)@.len(),
            out@.len() == len,
            i > 0 ==> prev_l == halved(old(out)@[2 * i - 2]) && prev_r == halved(
                old(out)@[2 * i - 1],
            ),
            i == 0 ==> prev_l == 0 && prev_r == 0,
            forall|k: int|
                0 <= k < len ==> out@[k] == if k < 2 * i {
                    smoothed(old(out)@)[k]
                } else {
                    old(out)@[k]
                },
        decreases pairs - i,
    {
        let l = half(out[2 * i]);
        out[2 * i] = l.wrapping_add(prev_l);
        prev_l = l;
        let r = half(out[2 * i + 1]);
        out[2 * i + 1] = r.wrapping_add(prev_r);
        prev_r = r;
        proof {
            assert(0i16.wrapping_add(0i16) == 0i16);
            assert(forall|x: i16| #[trigger] x.wrapping_add(0i16) == x);
        }
        i += 1;
    }
    assert(out@ =~= smoothed(old(out)@));
}

/// The volume of an instrument under a row's effect.
fn apply_effect(volume: u16, note2: u16) -> (v: u16)
    ensures
        v == effect_volume(volume, note2),
{
    let effect = (note2 >> 8) & 0xF;
    let amount = note2 & 0xFF;
    assert(amount <= 255) by (bit_vector)
        requires
            amount == note2 & 0xFF,
    ;
    if effect == 5 {
        let sum = volume as u32 + amount as u32;
        if sum < 0x3F {
            sum as u16
        } else {
            0x3F
        }
    } else if effect == 6 {
        if volume >= amount {
            volume - amount
        } else {
            0
        }
    } else {
        volume
    }
}

/// A length in bytes from a count of words.
fn double(words: u16) -> (n: u16)
    ensures
        n == doubled(words),
{
    ((words as u32 * 2) % 0x10000) as u16
}

#[verifier::rlimit(40)]
fn handle_pattern(g: &mut Game, channel: usize, address: usize) -> (r: Result<(), Error>)
    requires
        old(g).wf(),
        channel < 4,
    ensures
        final(g).wf(),
        agrees(r, final(g)@, pattern_handled(old(g)@, channel as int, address as int)),
{
    if address > DATA_SIZE - 4 {
        return Err(Error::Corrupt);
    }
    let note1 = get_be_u16(g.mem.data.as_slice(), address);
    let note2 = get_be_u16(g.mem.data.as_slice(), address + 2);
    if note1 == NOTE_SYNC {
        g.vm.sync_music(note2);
        return Ok(());
    }
    let sample = note2 >> 12;
    assert(sample <= 15) by (bit_vector)
        requires
            sample == note2 >> 12,
    ;
    let mut picked: Option<(usize, u16)> = None;
    if sample != 0 {
        let ins = g.music.track.samples[(sample - 1) as usize];
        if ins.address != 0 {
            if ins.address > DATA_SIZE - 4 {
                return Err(Error::Corrupt);
            }
            let volume = apply_effect(ins.volume, note2);
            g.music.channels[channel].volume = volume;
            picked = Some((ins.address, volume));
        }
    }
    if note1 == NOTE_STOP {
        g.music.channels[channel].sample_len = 0;
    } else if 0x37 <= note1 && note1 < 0x1000 {
        if let Some((ins_address, volume)) = picked {
            let divisor = note1 as u32 * 2;
            assert(PERIOD_CLOCK as int / divisor as int <= 65535) by (nonlinear_arith)
                requires
                    divisor >= 110,
            ;
            let freq = (PERIOD_CLOCK / divisor) as u16;
            let len = double(get_be_u16(g.mem.data.as_slice(), ins_address));
            let loop_len = double(get_be_u16(g.mem.data.as_slice(), ins_address + 2));
            g.music.channels[channel] = Channel {
                sample_address: ins_address + 8,
                sample_len: len,
                sample_loop_pos: if loop_len != 0 {
                    len
                } else {
                    0
                },
                sample_loop_len: loop_len,
                volume,
                pos: Frac::new(freq as u32, HOST_RATE as u32),
            };
        }
    }
    assert(g@.music.channels =~= old(g)@.music.channels.update(
        channel as int,
        g@.music.channels[channel as int],
    ));
    Ok(())
}

/// Plays the row that is due.
#[verifier::rlimit(40)]
pub fn process_events(g: &mut Game) -> (r: Result<(), Error>)
    requires
        old(g).wf(),
    ensures
        final(g).wf(),
        agrees(r, final(g)@, events_processed(old(g)@)),
        r is Ok ==> final(g)@.music.delay == old(g)@.music.delay,
{
    if g.music.track.cur_order >= 128 {
        return Err(Error::Corrupt);
    }
    let order = g.music.track.order_table[g.music.track.cur_order as usize];
    let address = g.music.track.address + g.music.track.cur_pos as usize + order as usize * 1024;
    let mut ch: usize = 0;
    while ch < 4
        invariant
            g.wf(),
            ch <= 4,
            address == row_address(old(g)@.music),
            cells_handled(old(g)@, address as int, ch as nat) == Ok::<GameView, Error>(g@),
            g@.music.delay == old(g)@.music.delay,
            g@.music.track == old(g)@.music.track,
        decreases 4 - ch,
    {
        match handle_pattern(g, ch, address + ch * 4) {
            Ok(()) => {},
            Err(e) => {
                proof {
                    lemma_cells_fail_on(old(g)@, address as int, (ch + 1) as nat, 4, e);
                }
                return Err(e);
            },
        }
        ch += 1;
    }
    if g.music.track.cur_pos + 16 >= 1024 {
        g.music.track.cur_pos = 0;
        g.music.track.cur_order = g.music.track.cur_order + 1;
    } else {
        g.music.track.cur_pos = g.music.track.cur_pos + 16;
    }
    Ok(())
}

/// Once a cell fails, the row fails with it.
proof fn lemma_cells_fail_on(g: GameView, address: int, short: nat, long: nat, e: Error)
    requires
        short <= long,
        cells_handled(g, address, short) == Err::<GameView, Error>(e),
    ensures
        cells_handled(g, address, long) == Err::<GameView, Error>(e),
    decreases long,
{
    if short < long {
        lemma_cells_fail_on(g, address, short, (long - 1) as nat, e);
    }
}

/// `a * volume / 64`, rounded towards zero.
fn scale(a: i16, volume: u16) -> (r: i32)
    requires
        -128 <= a <= 127,
    ensures
        r == scaled(a * volume),
        -131070 <= r <= 131070,
{
    assert(-128 * 65535 <= a * volume <= 128 * 65535) by (nonlinear_arith)
        requires
            -128 <= a <= 127,
            0 <= volume <= 65535,
    ;
    let p: i32 = a as i32 * volume as i32;
    if p >= 0 {
        ((p as u32) / 64) as i32
    } else {
        -((((-p) as u32) / 64) as i32)
    }
}

/// Adds what channel `ch` plays to `in_sample`. The result is always
/// within eight bits.
#[verifier::rlimit(40)]
pub fn mix_channel(g: &mut Game, ch: usize, in_sample: i8) -> (r: Result<i8, Error>)
    requires
        old(g).wf(),
        ch < 4,
    ensures
        final(g).wf(),
        match r {
            Ok(s) => {
                &&& channel_mixed(old(g)@.music.channels[ch as int], old(g)@.mem.data, in_sample)
                    == Ok::<(Channel, i8), Error>((final(g)@.music.channels[ch as int], s))
                &&& final(g)@ == (GameView {
                    music: PlayerView {
                        channels: old(g)@.music.channels.update(
                            ch as int,
                            final(g)@.music.channels[ch as int],
                        ),
                        ..old(g)@.music
                    },
                    ..old(g)@
                })
                &&& -128 <= s <= 127
            },
            Err(e) => channel_mixed(old(g)@.music.channels[ch as int], old(g)@.mem.data, in_sample)
                == Err::<(Channel, i8), Error>(e),
        },
{
    let c = g.music.channels[ch];
    if c.sample_len == 0 {
        assert(g@.music.channels =~= old(g)@.music.channels.update(ch as int, c));
        return Ok(in_sample);
    }
    let mut pos = c.pos;
    let pos1 = pos.int_part();
    pos.inc();
    let mut pos2 = pos1.wrapping_add(1);
    if c.sample_loop_len != 0 {
        if pos2 == c.sample_loop_pos as u32 + c.sample_loop_len as u32 {
            pos2 = c.sample_loop_pos as u32;
            pos.set_int(pos2);
        }
    } else if pos2 == c.sample_len as u32 {
        g.music.channels[ch].sample_len = 0;
        g.music.channels[ch].pos = pos;
        return Ok(in_sample);
    }
    let len = g.mem.data.len();
    if c.sample_address >= len || pos1 as usize >= len - c.sample_address || pos2 as usize >= len
        - c.sample_address {
        return Err(Error::Corrupt);
    }
    let s1 = g.mem.data[c.sample_address + pos1 as usize] as i8;
    let s2 = g.mem.data[c.sample_address + pos2 as usize] as i8;
    let sample = pos.interpolate(s1, s2);
    let sum = in_sample as i32 + scale(sample, c.volume);
    let out: i8 = if sum < -128 {
        -128
    } else if sum > 127 {
        127
    } else {
        sum as i8
    };
    g.music.channels[ch].pos = pos;
    Ok(out)
}

/// Mixes the four channels into a left and a right sample.
#[verifier::rlimit(40)]
fn mix_channels(g: &mut Game) -> (r: Result<(i8, i8), Error>)
    requires
        old(g).wf(),
    ensures
        final(g).wf(),
        match r {
            Ok((left, right)) => {
                &&& channels_mixed(old(g)@.music.channels, old(g)@.mem.data) == Ok::<
                    (Seq<Channel>, i8, i8),
                    Error,
                >((final(g)@.music.channels, left, right))
                &&& final(g)@ == (GameView {
                    music: PlayerView { channels: final(g)@.music.channels, ..old(g)@.music },
                    ..old(g)@
                })
            },
            Err(e) => channels_mixed(old(g)@.music.channels, old(g)@.mem.data) == Err::<
                (Seq<Channel>, i8, i8),
                Error,
            >(e),
        },
{
    let s0 = mix_channel(g, 0, 0)?;
    let ghost g0 = g@;
    let left = mix_channel(g, 3, s0)?;
    let ghost g3 = g@;
    let s1 = mix_channel(g, 1, 0)?;
    let ghost g1 = g@;
    let right = mix_channel(g, 2, s1)?;
    assert(g@.music.channels =~= seq![
        g0.music.channels[0],
        g1.music.channels[1],
        g@.music.channels[2],
        g3.music.channels[3],
    ]);
    Ok((left, right))
}

/// Plays the row that is due if no frame is left of the last one.
fn tick(g: &mut Game) -> (r: Result<(), Error>)
    requires
        old(g).wf(),
        old(g)@.music.delay != 0,
    ensures
        final(g).wf(),
        agrees(r, final(g)@, tick_due(old(g)@)),
        r is Ok ==> final(g)@.music.delay == old(g)@.music.delay && final(g)@.music.samples_left
            > 0,
{
    if g.music.samples_left == 0 {
        process_events(g)?;
        let delay = g.music.delay;
        assert(1 <= 1000int / (delay as int) <= 1000) by (nonlinear_arith)
            requires
                1 <= delay <= 557,
        ;
        let per_second = 1000 / delay;
        assert(44 <= 44100int / (per_second as int)) by (nonlinear_arith)
            requires
                1 <= per_second <= 1000,
        ;
        g.music.samples_left = HOST_RATE / per_second;
    }
    Ok(())
}

/// Mixes one stereo frame.
fn mix_frame(g: &mut Game) -> (r: Result<(i16, i16), Error>)
    requires
        old(g).wf(),
        old(g)@.music.delay != 0,
    ensures
        final(g).wf(),
        r is Ok ==> final(g)@.music.delay == old(g)@.music.delay,
        match r {
            Ok((left, right)) => frame_mixed(old(g)@) == Ok::<(GameView, i16, i16), Error>(
                (final(g)@, left, right),
            ),
            Err(e) => frame_mixed(old(g)@) == Err::<(GameView, i16, i16), Error>(e),
        },
{
    tick(g)?;
    let (left, right) = mix_channels(g)?;
    g.music.samples_left = g.music.samples_left - 1;
    Ok((left as i16 * 256, right as i16 * 256))
}

/// Once a frame fails, all that follow fail with it.
proof fn lemma_mixed_fails_on(g: GameView, short: nat, long: nat, e: Error)
    requires
        short <= long,
        mixed(g, short) == Err::<(GameView, Seq<i16>), Error>(e),
    ensures
        mixed(g, long) == Err::<(GameView, Seq<i16>), Error>(e),
    decreases long,
{
    if short < long {
        lemma_mixed_fails_on(g, short, (long - 1) as nat, e);
    }
}

/// Fills `out` with stereo frames of music, as many as fit, and smooths
/// them. A last place in `out` that has no pair is left alone.
#[verifier::rlimit(40)]
pub fn mix_samples(g: &mut Game, out: &mut [i16]) -> (r: Result<(), Error>)
    requires
        old(g).wf(),
        old(g)@.music.delay != 0,
    ensures
        final(g).wf(),
        final(out)@.len() == old(out)@.len(),
        match mixed(old(g)@, old(out)@.len() / 2) {
            Ok((after, samples)) => r is Ok && final(g)@ == after && final(out)@ == smoothed(
                samples + old(out)@.subrange(
                    2 * (old(out)@.len() as int / 2),
                    old(out)@.len() as int,
                ),
            ),
            Err(e) => r == Err::<(), Error>(e),
        },
{
    let frames = out.len() / 2;
    let mut i: usize = 0;
    assert(out@.subrange(0, 0) =~= Seq::<i16>::empty());
    while i < frames
        invariant
            g.wf(),
            g@.music.delay != 0,
            i <= frames,
            out@.len() <= usize::MAX,
            frames == old(out)@.len() / 2,
            out@.len() == old(out)@.len(),
            mixed(old(g)@, i as nat) == Ok::<(GameView, Seq<i16>), Error>(
                (g@, out@.subrange(0, 2 * i)),
            ),
            forall|k: int| 2 * i <= k < out@.len() ==> out@[k] == old(out)@[k],
        decreases frames - i,
    {
        let ghost before = out@;
        match mix_frame(g) {
            Ok((left, right)) => {
                out[2 * i] = left;
                out[2 * i + 1] = right;
                assert(out@.subrange(0, 2 * (i + 1)) =~= before.subrange(0, 2 * i).push(left).push(
                    right,
                ));
            },
            Err(e) => {
                proof {
                    lemma_mixed_fails_on(old(g)@, (i + 1) as nat, frames as nat, e);
                }
                return Err(e);
            },
        }
        i += 1;
    }
    assert(out@ =~= out@.subrange(0, 2 * frames) + old(out)@.subrange(
        2 * (old(out)@.len() as int / 2),
        old(out)@.len() as int,
    ));
    nr(out);
    Ok(())
}

/// The instrument that the four bytes at `pos` describe: the number of a
/// sound resource, which must be loaded, and a volume. Number zero, or a
/// resource that is not there as a sound, stands for none.
pub open spec fn instrument_at(m: MemoryView, pos: int) -> Instrument {
    let res_num = be_u16_at(m.data, pos);
    match ready_address_of_kind(m, res_num, KIND_SOUND) {
        Some(address) => if res_num != 0 {
            Instrument { address, volume: be_u16_at(m.data, pos + 2) }
        } else {
            no_instrument()
        },
        None => no_instrument(),
    }
}

/// The player at the start of the music resource at `address`: the
/// resource's first word is its delay, unless `delay` gives one; fifteen
/// instruments follow from byte 2, the order table from byte 64, the
/// patterns from byte 192.
pub open spec fn track_started(m: MemoryView, address: int, delay: u16, cur_order: u8) -> PlayerView {
    PlayerView {
        delay: converted_delay(
            if delay == 0 {
                be_u16_at(m.data, address)
            } else {
                delay
            },
        ),
        samples_left: 0,
        channels: Seq::new(4, |i: int| silent_channel()),
        track: TrackView {
            address: address + 0xC0,
            cur_pos: 0,
            cur_order,
            order_table: m.data.subrange(address + 64, address + 64 + 128),
            samples: Seq::new(15, |i: int| instrument_at(m, address + 2 + 4 * i)),
        },
    }
}

/// The machine after music `res_num` was asked for: started, if the
/// resource is loaded as music; else as before.
pub open spec fn sought(g: GameView, res_num: u16, delay: u16, cur_order: u8) -> GameView {
    match ready_address_of_kind(g.mem, res_num, KIND_MUSIC) {
        Some(address) => GameView {
            music: track_started(g.mem, address as int, delay, cur_order),
            ..g
        },
        None => g,
    }
}

fn prepare_instruments(g: &Game, base: usize) -> (samples: [Instrument; 15])
    requires
        g.wf(),
        base + 60 <= DATA_SIZE,
    ensures
        samples@ == Seq::new(15, |i: int| instrument_at(g@.mem, base + 4 * i)),
{
    let mut samples = [Instrument { address: 0, volume: 0 };15];
    let mut i: usize = 0;
    while i < 15
        invariant
            g.wf(),
            base + 60 <= DATA_SIZE,
            i <= 15,
            forall|k: int| 0 <= k < i ==> samples@[k] == instrument_at(g@.mem, base + 4 * k),
            forall|k: int| i <= k < 15 ==> samples@[k] == no_instrument(),
        decreases 15 - i,
    {
        let res_num = get_be_u16(g.mem.data.as_slice(), base + i * 4);
        if res_num != 0 {
            match address_of_entry_with_kind(&g.mem, res_num, KIND_SOUND) {
                Some(address) => {
                    let volume = get_be_u16(g.mem.data.as_slice(), base + i * 4 + 2);
                    samples[i] = Instrument { address, volume };
                },
                None => {},
            }
        }
        i += 1;
    }
    assert(samples@ =~= Seq::new(15, |i: int| instrument_at(g@.mem, base + 4 * i)));
    samples
}

/// Starts music `res_num` at place `cur_order` of its order table.
#[verifier::rlimit(40)]
pub fn seek(g: &mut Game, res_num: u16, delay: u16, cur_order: u8)
    requires
        old(g).wf(),
    ensures
        final(g).wf(),
        final(g)@ == sought(old(g)@, res_num, delay, cur_order),
{
    let address = match address_of_entry_with_kind(&g.mem, res_num, KIND_MUSIC) {
        Some(a) => a,
        None => {
            return ;
        },
    };
    assert(g@.mem.list[res_num as int].address <= crate::mem::DATA_BMP_OFFSET);
    let mut order_table = [0u8;128];
    let mut i: usize = 0;
    while i < 128
        invariant
            g.wf(),
            g@ == old(g)@,
            address <= crate::mem::DATA_BMP_OFFSET,
            i <= 128,
            forall|k: int| 0 <= k < i ==> order_table@[k] == g@.mem.data[address + 64 + k],
        decreases 128 - i,
    {
        order_table[i] = g.mem.data[address + 64 + i];
        i += 1;
    }
    assert(order_table@ =~= g@.mem.data.subrange(address + 64, address + 64 + 128));
    let delay = cvt_delay(
        if delay == 0 {
            get_be_u16(g.mem.data.as_slice(), address)
        } else {
            delay
        },
    );
    let samples = prepare_instruments(g, address + 2);
    let silent = Channel {
        sample_address: 0,
        sample_len: 0,
        sample_loop_pos: 0,
        sample_loop_len: 0,
        volume: 0,
        pos: Frac { inc: 0, offset: 0 },
    };
    g.music.delay = delay;
    g.music.track = Track { address: address + 0xC0, cur_pos: 0, cur_order, order_table, samples };
    g.music.samples_left = 0;
    g.music.channels = [silent;4];
    assert(g@.music.channels =~= Seq::new(4, |i: int| silent_channel()));
}

/// The machine with one more thing for the host to do.
pub open spec fn with_command(g: GameView, c: CommandView) -> GameView {
    GameView { commands: g.commands.push(c), ..g }
}

/// Adds a command to the queue.
fn push_command(g: &mut Game, c: HostCommand)
    ensures
        final(g)@ == with_command(old(g)@, c@),
{
    g.commands.push(c);
    assert(commands_view(g.commands@) =~= commands_view(old(g).commands@).push(c@));
}

/// The machine after the sound at `address` of the arena was sent to a
/// channel.
///
/// The sound's header gives two lengths in words: that of the whole and
/// that of a part to repeat. If the second is not zero, that many bytes are
/// played for ever; else the whole is played once. The samples start eight
/// bytes in. Fails when they do not lie in the arena.
pub open spec fn sound_played(g: GameView, channel: u8, address: int, freq: u16, volume: u8) -> Result<
    GameView,
    Error,
> {
    let data = g.mem.data;
    let len = doubled(be_u16_at(data, address));
    let loop_len = doubled(be_u16_at(data, address + 2));
    let played = if loop_len != 0 {
        loop_len
    } else {
        len
    };
    if address + 8 > data.len() || address + 8 + played > data.len() {
        Err(Error::Corrupt)
    } else {
        Ok(
            with_command(
                g,
                CommandView::PlaySound {
                    channel,
                    volume,
                    samples: resampled(data, address + 8, played as int, freq),
                    looping: loop_len != 0,
                },
            ),
        )
    }
}

/// Sends the sound at `address` of the arena to a channel of the host.
#[verifier::rlimit(40)]
pub fn play_sound(g: &mut Game, channel: u8, address: usize, freq: u16, volume: u8) -> (r: Result<
    (),
    Error,
>)
    requires
        old(g).wf(),
        channel < 4,
        freq >= MIN_FREQUENCY,
    ensures
        final(g).wf(),
        agrees(r, final(g)@, sound_played(old(g)@, channel, address as int, freq, volume)),
{
    if address > DATA_SIZE - 8 {
        return Err(Error::Corrupt);
    }
    let len = double(get_be_u16(g.mem.data.as_slice(), address));
    let loop_len = double(get_be_u16(g.mem.data.as_slice(), address + 2));
    let played = if loop_len != 0 {
        loop_len
    } else {
        len
    };
    if played as usize > DATA_SIZE - 8 - address {
        return Err(Error::Corrupt);
    }
    let samples = resample(g.mem.data.as_slice(), address + 8, played, freq);
    push_command(g, HostCommand::PlaySound { channel, volume, samples, looping: loop_len != 0 });
    Ok(())
}

/// Silences a channel of the host.
pub fn stop_sound(g: &mut Game, channel: u8)
    requires
        channel < 4,
    ensures
        final(g)@ == with_command(old(g)@, CommandView::StopSound { channel }),
{
    push_command(g, HostCommand::StopSound { channel });
}

/// The machine after all sound was stopped: the four channels silenced and
/// no music playing.
pub open spec fn all_stopped(g: GameView) -> GameView {
    GameView {
        commands: g.commands.push(CommandView::StopSound { channel: 0 }).push(
            CommandView::StopSound { channel: 1 },
        ).push(CommandView::StopSound { channel: 2 }).push(CommandView::StopSound { channel: 3 }),
        music: PlayerView { delay: 0, ..g.music },
        ..g
    }
}

pub fn stop_sound_and_music(g: &mut Game)
    requires
        old(g).wf(),
    ensures
        final(g).wf(),
        final(g)@ == all_stopped(old(g)@),
{
    stop_sound(g, 0);
    stop_sound(g, 1);
    stop_sound(g, 2);
    stop_sound(g, 3);
    g.music.set_delay(0);
}

} // verus!
