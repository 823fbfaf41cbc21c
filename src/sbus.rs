//! Decoder for SBUS frames: one sync byte, 22 bytes holding 16 channels of
//! 11 bits each (least significant bit first), one flag byte and a zero
//! terminator.
use vstd::prelude::*;
use crate::uarts::LineError;

verus! {

/// The byte that opens every frame.
pub const SYNC_BYTE: u8 = 0x0f;

/// Number of proportional channels in a frame.
pub const NUM_CHANNELS: usize = 16;

/// Mask of the 11 bits that a channel holds.
pub const CHANNEL_MASK: u32 = 0x7ff;

/// One decoded frame.
#[derive(Clone, Copy)]
pub struct Frame {
    pub channels: [u16; 16],
    pub channel17: bool,
    pub channel18: bool,
    pub frame_lost: bool,
    pub failsafe: bool,
}

/// Mathematical view of a [`Frame`].
pub struct FrameView {
    pub channels: Seq<u16>,
    pub channel17: bool,
    pub channel18: bool,
    pub frame_lost: bool,
    pub failsafe: bool,
}

impl View for Frame {
    type V = FrameView;

    open spec fn view(&self) -> FrameView {
        FrameView {
            channels: self.channels@,
            channel17: self.channel17,
            channel18: self.channel18,
            frame_lost: self.frame_lost,
            failsafe: self.failsafe,
        }
    }
}

/// Sixteen channels at zero.
pub open spec fn zero_channels() -> Seq<u16> {
    Seq::new(16, |i: int| 0u16)
}

/// Applies data byte `c`, found at position `p` (1 to 22) of the frame, to
/// the channels: its bits go to the channel in which bit `(p - 1) * 8` of the
/// channel stream falls, from that bit's offset in the channel upwards; what
/// passes bit 10 goes to the low bits of the next channel.
pub open spec fn unpack_byte(ch: Seq<u16>, p: int, c: u8) -> Seq<u16> {
    let bit_index = (p - 1) * 8;
    let ci = bit_index / 11;
    let x = ((c as u32) << ((bit_index % 11) as u32)) as u32;
    let low = ch.update(ci, ((ch[ci] as u32 | x) & CHANNEL_MASK) as u16);
    if ci + 1 < 16 {
        low.update(ci + 1, ((low[ci + 1] as u32 | (x >> 11u32)) & CHANNEL_MASK) as u16)
    } else {
        low
    }
}

/// The channels held by the data bytes `data` (bytes 1 to `data.len()` of a
/// frame).
pub open spec fn unpack(data: Seq<u8>) -> Seq<u16>
    decreases data.len(),
{
    if data.len() == 0 {
        zero_channels()
    } else {
        unpack_byte(unpack(data.drop_last()), data.len() as int, data.last())
    }
}

impl FrameView {
    /// The frame with every channel at zero and every flag clear.
    pub open spec fn empty() -> FrameView {
        FrameView {
            channels: zero_channels(),
            channel17: false,
            channel18: false,
            frame_lost: false,
            failsafe: false,
        }
    }

    /// This frame with its four flags read from flag byte `c`.
    pub open spec fn with_flags(self, c: u8) -> FrameView {
        FrameView {
            channel17: c & 1 != 0,
            channel18: c & 2 != 0,
            frame_lost: c & 4 != 0,
            failsafe: c & 8 != 0,
            ..self
        }
    }
}

/// The frame that the 25 bytes `bytes` carry.
pub open spec fn decode(bytes: Seq<u8>) -> FrameView {
    FrameView { channels: unpack(bytes.subrange(1, 23)), ..FrameView::empty() }.with_flags(bytes[23])
}

impl Default for Frame {
    fn default() -> (r: Frame)
        ensures
            r@ == FrameView::empty(),
    {
        let r = Frame {
            channels: [0u16; 16],
            channel17: false,
            channel18: false,
            frame_lost: false,
            failsafe: false,
        };
        assert(r.channels@ =~= zero_channels());
        r
    }
}


/// Decoder state: the position of the next byte in the frame (0 while
/// waiting for the sync byte) and the frame filled so far.
pub struct ReadState {
    pub bytei: u16,
    pub frame: Frame,
}

/// Mathematical view of a [`ReadState`].
pub struct ReadStateView {
    pub pos: int,
    pub frame: FrameView,
}

impl View for ReadState {
    type V = ReadStateView;

    open spec fn view(&self) -> ReadStateView {
        ReadStateView { pos: self.bytei as int, frame: self.frame@ }
    }
}

impl ReadStateView {
    /// Waiting for a sync byte, with an empty frame.
    pub open spec fn initial() -> ReadStateView {
        ReadStateView { pos: 0, frame: FrameView::empty() }
    }

    /// Whether byte `c`, received in this state, ends a valid frame.
    pub open spec fn completes(self, c: u8) -> bool {
        self.pos >= 24 && c == 0
    }

    /// The state after byte `c`.
    pub open spec fn feed(self, c: u8) -> ReadStateView {
        if self.pos == 0 {
            if c == SYNC_BYTE {
                ReadStateView { pos: 1, frame: FrameView::empty() }
            } else {
                self
            }
        } else if self.pos < 23 {
            ReadStateView {
                pos: self.pos + 1,
                frame: FrameView { channels: unpack_byte(self.frame.channels, self.pos, c), ..self.frame },
            }
        } else if self.pos == 23 {
            ReadStateView { pos: 24, frame: self.frame.with_flags(c) }
        } else {
            ReadStateView { pos: 0, ..self }
        }
    }

    /// The state after the bytes `bytes`, in order.
    pub open spec fn feed_all(self, bytes: Seq<u8>) -> ReadStateView
        decreases bytes.len(),
    {
        if bytes.len() == 0 {
            self
        } else {
            self.feed_all(bytes.drop_last()).feed(bytes.last())
        }
    }
}

impl Default for ReadState {
    fn default() -> (r: ReadState)
        ensures
            r@ == ReadStateView::initial(),
    {
        ReadState { bytei: 0, frame: Frame::default() }
    }
}

/// Drops any partial frame: called when the line has gone idle between
/// frames.
pub fn process_idle(state: &mut ReadState)
    ensures
        final(state)@ == ReadStateView::initial(),
{
    *state = ReadState::default();
}

/// Takes the next byte of the line. Returns true when `c` ends a frame whose
/// terminator is zero; `state.frame` then holds that frame.
pub fn process_char(state: &mut ReadState, c: u8) -> (r: bool)
    ensures
        final(state)@ == old(state)@.feed(c),
        r == old(state)@.completes(c),
{
    if state.bytei == 0 {
        if c == SYNC_BYTE {
            state.bytei = 1;
            state.frame = Frame::default();
        }
        false
    } else if state.bytei < 23 {
        let bit_index: u16 = (state.bytei - 1) * 8;
        let ci: usize = (bit_index / 11) as usize;
        let x: u32 = (c as u32) << ((bit_index % 11) as u32);
        state.frame.channels[ci] = ((state.frame.channels[ci] as u32 | x) & CHANNEL_MASK) as u16;
        if ci + 1 < NUM_CHANNELS {
            let y: u32 = x >> 11u32;
            state.frame.channels[ci + 1] = ((state.frame.channels[ci + 1] as u32 | y) & CHANNEL_MASK) as u16;
        }
        state.bytei = state.bytei + 1;
        proof {
            assert(final(state).frame.channels@ =~= unpack_byte(old(state).frame.channels@, old(state).bytei as int, c));
        }
        false
    } else if state.bytei == 23 {
        state.frame.channel17 = c & 1 != 0;
        state.frame.channel18 = c & 2 != 0;
        state.frame.frame_lost = c & 4 != 0;
        state.frame.failsafe = c & 8 != 0;
        state.bytei = 24;
        false
    } else {
        state.bytei = 0;
        c == 0
    }
}


/// The work of the decoder's receive interrupt, once the line status and the
/// received byte (or the fault in its place) are known: an idle line drops a
/// partial frame, a fault drops it too, and a byte goes to
/// [`process_char`]. Returns the frame that the byte completes, if any.
pub fn rx_sbus(state: &mut ReadState, line_idle: bool, received: Result<u8, LineError>) -> (r: Option<Frame>)
    ensures
        ({
            let s = if line_idle { ReadStateView::initial() } else { old(state)@ };
            match received {
                Ok(c) => {
                    &&& final(state)@ == s.feed(c)
                    &&& r is Some <==> s.completes(c)
                    &&& r is Some ==> r->0@ == final(state)@.frame
                },
                Err(_) => final(state)@ == ReadStateView::initial() && r is None,
            }
        }),
{
    if line_idle {
        process_idle(state);
    }
    match received {
        Ok(c) => {
            if process_char(state, c) {
                Some(state.frame)
            } else {
                None
            }
        },
        Err(_) => {
            process_idle(state);
            None
        },
    }
}

/// Data byte `i` (0 to 21) of a frame that carries the channels `chs`: bits
/// `8 * i` to `8 * i + 7` of the channel stream, in which channel `k` takes
/// bits `11 * k` to `11 * k + 10`.
pub open spec fn pack_byte(chs: Seq<u16>, i: int) -> u8 {
    let bit_index = 8 * i;
    let a = bit_index / 11;
    let off = (bit_index % 11) as u32;
    let next: u32 = if a + 1 < 16 { chs[a + 1] as u32 } else { 0 };
    ((((chs[a] as u32) >> off) | (next << (11 - off) as u32)) & 0xff) as u8
}

/// The 22 data bytes of a frame that carries the channels `chs`.
pub open spec fn pack(chs: Seq<u16>) -> Seq<u8> {
    Seq::new(22, |i: int| pack_byte(chs, i))
}

/// The lowest `n` bits of `v` (all of them from 11 on, none at 0 or below).
pub open spec fn low_bits(v: u16, n: int) -> u16 {
    if n <= 0 {
        0
    } else if n >= 11 {
        v
    } else {
        ((v as u32) & mask_below(n as u32)) as u16
    }
}

/// The `n` lowest bits set.
pub open spec fn mask_below(n: u32) -> u32 {
    ((1u32 << n) - 1) as u32
}

/// The data byte that starts at bit offset `off` of channel value `x`, with
/// the next channel's value `y` after it.
spec fn byte_at(x: u32, y: u32, off: u32) -> u32 {
    ((x >> off) | (y << (11 - off) as u32)) & 0xff
}

/// One data byte of a packed frame, taken at bit offset `off` of channel `x`
/// holding its bits below `off` already, completes the next 8 bits of `x`
/// and carries the rest to the low bits of `y`.
proof fn lemma_unpack_step(x: u32, y: u32, off: u32, pre: u32)
    by (bit_vector)
    requires
        x < 2048,
        y < 2048,
        off < 11,
        pre == (if off == 0 { 0 } else { x & mask_below(off) }),
    ensures
        byte_at(x, y, off) < 256,
        pre < 2048,
        ((pre | (byte_at(x, y, off) << off)) & 0x7ff) == (if off + 8 >= 11 {
            x
        } else {
            x & mask_below((off + 8) as u32)
        }),
        ((byte_at(x, y, off) << off) >> 11u32) & 0x7ff == (if off > 3 {
            y & mask_below((off - 3) as u32)
        } else {
            0
        }),
        (if off + 8 >= 11 { x } else { x & mask_below((off + 8) as u32) }) < 2048,
        (if off > 3 { y & mask_below((off - 3) as u32) } else { 0 }) < 2048,
{
}

/// After the first `i` data bytes of a packed frame, each channel holds the
/// bits of its value that those bytes carry.
proof fn lemma_unpack_prefix(chs: Seq<u16>, i: int)
    requires
        chs.len() == 16,
        forall|k: int| 0 <= k < 16 ==> chs[k] < 2048,
        0 <= i <= 22,
    ensures
        unpack(pack(chs).take(i)).len() == 16,
        forall|k: int| 0 <= k < 16 ==> unpack(pack(chs).take(i))[k] == low_bits(chs[k], 8 * i - 11 * k),
    decreases i,
{
    let d = pack(chs).take(i);
    if i == 0 {
        assert(d =~= Seq::<u8>::empty());
    } else {
        lemma_unpack_prefix(chs, i - 1);
        assert(d.drop_last() =~= pack(chs).take(i - 1));
        let prev = unpack(pack(chs).take(i - 1));
        let c = pack_byte(chs, i - 1);
        assert(d.last() == c);
        let bit_index = (i - 1) * 8;
        let a = bit_index / 11;
        let off = bit_index % 11;
        assert(0 <= a < 16);
        let x = chs[a] as u32;
        let y: u32 = if a + 1 < 16 { chs[a + 1] as u32 } else { 0 };
        let pre = prev[a] as u32;
        let o = off as u32;
        assert(prev[a] == low_bits(chs[a], off));
        assert(x & mask_below(o) < 2048) by (bit_vector)
            requires
                x < 2048,
        ;
        lemma_unpack_step(x, y, o, pre);
        assert(a + 1 >= 16 ==> off == 3);
        assert(c as u32 == byte_at(x, y, o));
        let z = ((c as u32) << o) as u32;
        let res = unpack(d);
        assert(res == unpack_byte(prev, i, c));
        assert forall|k: int| 0 <= k < 16 implies res[k] == low_bits(chs[k], 8 * i - 11 * k) by {
            if k == a {
                assert(8 * i - 11 * k == off + 8);
                assert(res[k] as u32 == (pre | z) & 0x7ff);
            } else if k == a + 1 {
                assert(prev[k] == 0);
                assert(8 * i - 11 * k == off - 3);
                assert((0u32 | (z >> 11u32)) == z >> 11u32) by (bit_vector);
                assert((z >> 11u32) & 0x7ff < 2048) by (bit_vector);
                assert(res[k] as u32 == (z >> 11u32) & 0x7ff);
            } else {
                assert(res[k] == prev[k]);
                if k < a {
                    assert(8 * (i - 1) - 11 * k >= 11);
                } else {
                    assert(8 * i - 11 * k <= 0);
                }
            }
        }
    }
}

/// Packing 16 channel values of 11 bits into data bytes and unpacking those
/// bytes gives the values back.
pub proof fn lemma_pack_round_trip(chs: Seq<u16>)
    requires
        chs.len() == 16,
        forall|k: int| 0 <= k < 16 ==> chs[k] < 2048,
    ensures
        unpack(pack(chs)) == chs,
{
    lemma_unpack_prefix(chs, 22);
    assert(pack(chs).take(22) =~= pack(chs));
    assert(unpack(pack(chs)) =~= chs);
}

/// Feeding `a` then `b` is feeding `a + b`.
pub proof fn lemma_feed_all_append(s: ReadStateView, a: Seq<u8>, b: Seq<u8>)
    ensures
        s.feed_all(a + b) == s.feed_all(a).feed_all(b),
    decreases b.len(),
{
    if b.len() == 0 {
        assert(a + b =~= a);
    } else {
        assert((a + b).drop_last() =~= a + b.drop_last());
        lemma_feed_all_append(s, a, b.drop_last());
    }
}

/// The first `i` bytes of a frame (sync byte included, `1 <= i <= 23`) leave
/// the decoder at position `i` with the channels of data bytes 1 to `i - 1`.
proof fn lemma_frame_prefix(s: ReadStateView, bytes: Seq<u8>, i: int)
    requires
        s.pos == 0,
        bytes.len() == 25,
        bytes[0] == SYNC_BYTE,
        1 <= i <= 23,
    ensures
        s.feed_all(bytes.take(i)) == (ReadStateView {
            pos: i,
            frame: FrameView { channels: unpack(bytes.subrange(1, i)), ..FrameView::empty() },
        }),
    decreases i,
{
    let t = bytes.take(i);
    assert(t.drop_last() =~= bytes.take(i - 1));
    if i == 1 {
        assert(bytes.take(0) =~= Seq::<u8>::empty());
        assert(bytes.subrange(1, 1) =~= Seq::<u8>::empty());
        assert(s.feed_all(bytes.take(0)) == s);
    } else {
        lemma_frame_prefix(s, bytes, i - 1);
        let d = bytes.subrange(1, i);
        assert(d.drop_last() =~= bytes.subrange(1, i - 1));
        assert(unpack(d) == unpack_byte(unpack(bytes.subrange(1, i - 1)), i - 1, bytes[i - 1]));
    }
}

/// A whole frame fed to a decoder that waits for a sync byte: no byte but
/// the last ends a valid frame, the last does exactly when the terminator is
/// zero, and the decoder is back at position 0 holding the frame that the
/// bytes carry.
pub proof fn lemma_frame_round(s: ReadStateView, bytes: Seq<u8>)
    requires
        s.pos == 0,
        bytes.len() == 25,
        bytes[0] == SYNC_BYTE,
    ensures
        forall|i: int| 0 <= i < 24 ==> !#[trigger] s.feed_all(bytes.take(i)).completes(bytes[i]),
        s.feed_all(bytes.take(24)).completes(bytes[24]) == (bytes[24] == 0),
        s.feed_all(bytes) == (ReadStateView { pos: 0, frame: decode(bytes) }),
{
    assert forall|i: int| 0 <= i < 24 implies !#[trigger] s.feed_all(bytes.take(i)).completes(bytes[i]) by {
        if i == 0 {
            assert(bytes.take(0) =~= Seq::<u8>::empty());
        } else if i <= 23 {
            lemma_frame_prefix(s, bytes, i);
        }
    }
    lemma_frame_prefix(s, bytes, 23);
    assert(bytes.take(24).drop_last() =~= bytes.take(23));
    assert(bytes.take(25) =~= bytes);
    assert(bytes.take(25).drop_last() =~= bytes.take(24));
    assert(s.feed_all(bytes.take(24)).frame == decode(bytes));
}

/// The frame made of a sync byte, the packed channels `chs`, the flag byte
/// `flags` and a zero terminator, fed byte by byte to a decoder that waits
/// for a sync byte: only the last call reports a frame, and the decoder then
/// holds exactly `chs` and the flags of `flags`.
pub proof fn lemma_channels_round_trip(s: ReadStateView, chs: Seq<u16>, flags: u8)
    requires
        s.pos == 0,
        chs.len() == 16,
        forall|k: int| 0 <= k < 16 ==> chs[k] < 2048,
    ensures
        ({
            let bytes = seq![SYNC_BYTE] + pack(chs) + seq![flags, 0u8];
            &&& forall|i: int| 0 <= i < 24 ==> !#[trigger] s.feed_all(bytes.take(i)).completes(bytes[i])
            &&& s.feed_all(bytes.take(24)).completes(bytes[24])
            &&& s.feed_all(bytes) == (ReadStateView {
                pos: 0,
                frame: FrameView { channels: chs, ..FrameView::empty() }.with_flags(flags),
            })
        }),
{
    let bytes = seq![SYNC_BYTE] + pack(chs) + seq![flags, 0u8];
    lemma_frame_round(s, bytes);
    assert(bytes.subrange(1, 23) =~= pack(chs));
    lemma_pack_round_trip(chs);
}

/// A frame whose terminator is not zero is dropped and leaves the decoder
/// waiting for a sync byte, so that a valid frame right after it decodes.
pub proof fn lemma_resync(s: ReadStateView, bad: Seq<u8>, good: Seq<u8>)
    requires
        s.pos == 0,
        bad.len() == 25,
        bad[0] == SYNC_BYTE,
        bad[24] != 0,
        good.len() == 25,
        good[0] == SYNC_BYTE,
        good[24] == 0,
    ensures
        !s.feed_all(bad.take(24)).completes(bad[24]),
        s.feed_all(bad).pos == 0,
        s.feed_all(bad).feed_all(good.take(24)).completes(good[24]),
        s.feed_all(bad + good) == (ReadStateView { pos: 0, frame: decode(good) }),
{
    lemma_frame_round(s, bad);
    lemma_frame_round(s.feed_all(bad), good);
    lemma_feed_all_append(s, bad, good);
}

/// After an idle reset, whatever partial frame came before, a valid frame
/// decodes with nothing left of the earlier bytes.
pub proof fn lemma_idle_recovery(bytes: Seq<u8>)
    requires
        bytes.len() == 25,
        bytes[0] == SYNC_BYTE,
        bytes[24] == 0,
    ensures
        ReadStateView::initial().feed_all(bytes.take(24)).completes(bytes[24]),
        ReadStateView::initial().feed_all(bytes) == (ReadStateView { pos: 0, frame: decode(bytes) }),
{
    lemma_frame_round(ReadStateView::initial(), bytes);
}

} // verus!
