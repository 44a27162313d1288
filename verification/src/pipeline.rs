use vstd::prelude::*;
use vstd::arithmetic::div_mod::lemma_div_multiples_vanish;
use vstd::utf8::encode_utf8;

use crate::archive::{archive_read, entry_bytes, read_fails, read_gives};
use crate::codec::{codec_for, select_codec, CodecKind};
use crate::errors::ConvertError;
use crate::scale::{padded, OutGeometry, ScalerState, SrcGeometry};
use crate::timebase::{
    decode_tb_spec, decode_time_base, encode_tb_spec, encode_time_base,
    lemma_encode_tb_spec_props, lemma_rescale_monotone, output_tb_spec, output_time_base, rescale,
    rescale_in_range, rescale_spec, TimeBase,
};

verus! {

/// One still image of the slideshow: the name of its archive entry and how
/// long it is displayed, in milliseconds.
#[derive(Debug)]
pub struct Frame {
    pub filename: String,
    pub delay: u32,
}

/// The largest total duration, in milliseconds, that a run may have: the
/// largest signed 64-bit value divided by the container's 90000 ticks per
/// second.  Above it, timestamps rescaled into the container's time base
/// could leave the 64-bit timestamp domain.
pub const MAX_TOTAL_MS: i64 = 102_481_911_520_608;

/// Every delay is at least one millisecond.
pub open spec fn positive_delays(frames: Seq<Frame>) -> bool {
    forall|i: int| 0 <= i < frames.len() ==> frames[i].delay >= 1
}

/// The sum of all delays, in milliseconds.
pub open spec fn sum_delays(frames: Seq<Frame>) -> int
    decreases frames.len(),
{
    if frames.len() == 0 {
        0
    } else {
        sum_delays(frames.drop_last()) + frames.last().delay
    }
}

/// The smallest delay of the sequence (0 for an empty sequence).
pub open spec fn min_delay(frames: Seq<Frame>) -> int
    decreases frames.len(),
{
    if frames.len() == 0 {
        0
    } else if frames.len() == 1 {
        frames[0].delay as int
    } else {
        let m = min_delay(frames.drop_last());
        if frames.last().delay < m {
            frames.last().delay as int
        } else {
            m
        }
    }
}

/// The presentation timestamp of frame `i` in the millisecond domain: the
/// sum of the delays of all earlier frames, starting at 0.
pub open spec fn pts_ms(frames: Seq<Frame>, i: int) -> int {
    sum_delays(frames.take(i))
}

proof fn lemma_sum_delays_nonneg(frames: Seq<Frame>)
    ensures
        sum_delays(frames) >= 0,
    decreases frames.len(),
{
    if frames.len() > 0 {
        lemma_sum_delays_nonneg(frames.drop_last());
    }
}

proof fn lemma_sum_delays_take_succ(frames: Seq<Frame>, i: int)
    requires
        0 <= i < frames.len(),
    ensures
        sum_delays(frames.take(i + 1)) == sum_delays(frames.take(i)) + frames[i].delay,
{
    let t = frames.take(i + 1);
    assert(t.drop_last() =~= frames.take(i));
    assert(t.last() == frames[i]);
}

/// Longer prefixes have no smaller delay sums.
proof fn lemma_sum_take_ordered(frames: Seq<Frame>, i: int, j: int)
    requires
        0 <= i <= j <= frames.len(),
    ensures
        sum_delays(frames.take(i)) <= sum_delays(frames.take(j)),
    decreases j - i,
{
    if i < j {
        lemma_sum_take_ordered(frames, i, j - 1);
        lemma_sum_delays_take_succ(frames, j - 1);
    }
}

/// With positive delays, the millisecond timestamps are strictly increasing.
proof fn lemma_pts_ms_strict(frames: Seq<Frame>, i: int, j: int)
    requires
        positive_delays(frames),
        0 <= i < j <= frames.len(),
    ensures
        pts_ms(frames, i) < pts_ms(frames, j),
{
    lemma_sum_take_ordered(frames, i, j - 1);
    lemma_sum_delays_take_succ(frames, j - 1);
}

proof fn lemma_min_delay_take_succ(frames: Seq<Frame>, i: int)
    requires
        1 <= i < frames.len(),
    ensures
        min_delay(frames.take(i + 1)) == (if frames[i].delay < min_delay(frames.take(i)) {
            frames[i].delay as int
        } else {
            min_delay(frames.take(i))
        }),
{
    let t = frames.take(i + 1);
    assert(t.drop_last() =~= frames.take(i));
    assert(t.last() == frames[i]);
}

/// The smallest delay of a non-empty sequence with positive delays is
/// itself positive, is a lower bound on every delay, and cannot exceed the
/// sum of all delays.
proof fn lemma_min_delay_props(frames: Seq<Frame>)
    requires
        positive_delays(frames),
        frames.len() >= 1,
    ensures
        1 <= min_delay(frames) <= u32::MAX,
        forall|i: int| 0 <= i < frames.len() ==> min_delay(frames) <= frames[i].delay,
        min_delay(frames) <= sum_delays(frames),
    decreases frames.len(),
{
    if frames.len() == 1 {
        assert(frames.drop_last() =~= Seq::<Frame>::empty());
        assert(sum_delays(Seq::<Frame>::empty()) == 0);
        assert(frames.last() == frames[0]);
        assert(sum_delays(frames) == frames[0].delay);
    } else {
        let head = frames.drop_last();
        assert(positive_delays(head)) by {
            assert(forall|i: int| 0 <= i < head.len() ==> head[i] == frames[i]);
        }
        lemma_min_delay_props(head);
        assert(forall|i: int| 0 <= i < frames.len() - 1 ==> head[i] == frames[i]);
        assert(sum_delays(frames) == sum_delays(head) + frames.last().delay);
        assert(min_delay(head) <= sum_delays(head));
        assert(sum_delays(head) >= 1);
    }
}

/// The bound check under which rescaling a millisecond value into the
/// encode time base stays within 64-bit range.
proof fn lemma_decode_rescale_range(v: int, ld: int, total: int, tb: TimeBase)
    requires
        0 <= v <= total,
        1 <= ld <= u32::MAX,
        ld <= total,
        total <= MAX_TOTAL_MS,
        tb == encode_tb_spec(ld),
    ensures
        rescale_in_range(v, decode_tb_spec(), tb),
        tb.wf(),
{
    lemma_encode_tb_spec_props(ld);
    let num = tb.num as int;
    let den = tb.den as int;
    assert(v * 1 * den == v * den) by (nonlinear_arith) {}
    assert(v * den <= MAX_TOTAL_MS * 1000) by (nonlinear_arith)
        requires
            0 <= v <= MAX_TOTAL_MS,
            0 <= den <= 1000,
    {}
    assert((1000 * num) / 2 == 500 * num) by {
        lemma_div_multiples_vanish(500 * num, 2);
    }
    assert(500 * num <= 500 * MAX_TOTAL_MS) by (nonlinear_arith)
        requires
            0 <= num <= MAX_TOTAL_MS,
    {}
}

/// The phases of the orchestrator.  The validating `Init` phase of a run is
/// `Pipeline::new` itself: a constructed pipeline starts at
/// `StreamingFirstFrame`.
#[derive(Clone, Copy, Debug, PartialEq, Eq, Structural)]
pub enum Phase {
    /// The first frame's packet is submitted and decoded synchronously to
    /// discover the true source geometry.
    StreamingFirstFrame,
    /// Remaining frames are submitted, each followed by a full drain.
    Streaming,
    /// All input submitted; the decoder is flushed and drained.
    DrainDecoder,
    /// The encoder is flushed and drained.
    DrainEncoder,
    /// The container trailer is written; the run is over.
    Finalized,
}

/// A source packet ready for the decoder: the archive entry's bytes, the
/// presentation timestamp and duration already rescaled into the encode
/// time base, and the key flag (always set: still images have no
/// inter-frame dependency).
pub struct SourcePacket {
    pub data: Vec<u8>,
    pub pts: i64,
    pub duration: i64,
    pub key: bool,
}

/// The pipeline orchestrator's state: the frame list, the derived encode
/// time base and codec kind, the running millisecond clock, how many frames
/// have been submitted, the scale stage's cached plan, and the phase.
pub struct Pipeline {
    pub frames: Vec<Frame>,
    pub lowest_delay: u32,
    pub enc_tb: TimeBase,
    pub codec: CodecKind,
    pub phase: Phase,
    pub next: usize,
    pub clock_ms: i64,
    pub scaler: Option<ScalerState>,
}

impl Pipeline {
    /// The orchestrator's invariant, established by `new` and preserved by
    /// every step.
    pub open spec fn wf(self) -> bool {
        &&& self.frames@.len() >= 1
        &&& positive_delays(self.frames@)
        &&& sum_delays(self.frames@) <= MAX_TOTAL_MS
        &&& self.lowest_delay as int == min_delay(self.frames@)
        &&& 1 <= self.lowest_delay
        &&& self.enc_tb == encode_tb_spec(self.lowest_delay as int)
        &&& self.enc_tb.wf()
        &&& self.codec == codec_for(encode_utf8(self.frames@[0].filename@))
        &&& self.next <= self.frames@.len()
        &&& self.clock_ms as int == pts_ms(self.frames@, self.next as int)
        &&& 0 <= self.clock_ms
        &&& match self.phase {
            Phase::StreamingFirstFrame => self.next <= 1 && self.scaler is None,
            Phase::Streaming => 1 <= self.next && (self.scaler matches Some(s) && s.wf()),
            _ => self.next == self.frames@.len() && (self.scaler matches Some(s) && s.wf()),
        }
    }

    /// The two fields that never change after construction, together with
    /// the frame list itself.
    pub open spec fn same_setup(self, other: Pipeline) -> bool {
        &&& self.frames == other.frames
        &&& self.lowest_delay == other.lowest_delay
        &&& self.enc_tb == other.enc_tb
        &&& self.codec == other.codec
    }

    /// A packet may be submitted while frames remain, during the first
    /// frame's synchronous round or the streaming phase.
    pub open spec fn can_submit(self) -> bool {
        &&& self.wf()
        &&& (self.phase == Phase::StreamingFirstFrame || self.phase == Phase::Streaming)
        &&& (self.phase == Phase::StreamingFirstFrame ==> self.next == 0)
        &&& (self.next as int) < self.frames@.len()
    }

    /// Validates the frame list and derives the run's fixed parameters:
    /// the smallest delay, the encode time base it induces, and the codec
    /// kind selected by the first frame's filename.  An empty list is
    /// rejected with `EmptyInput` before any output resource is touched.
    pub fn new(frames: Vec<Frame>) -> (r: Result<Pipeline, ConvertError>)
        requires
            positive_delays(frames@),
            sum_delays(frames@) <= MAX_TOTAL_MS,
        ensures
            frames@.len() == 0 ==> (r matches Err(e) && e == ConvertError::EmptyInput),
            frames@.len() >= 1 ==> (r matches Ok(p) && {
                &&& p.wf()
                &&& p.frames@ == frames@
                &&& p.phase == Phase::StreamingFirstFrame
                &&& p.next == 0
                &&& p.clock_ms == 0
                &&& p.lowest_delay as int == min_delay(frames@)
                &&& p.enc_tb == encode_tb_spec(min_delay(frames@))
                &&& p.codec == codec_for(encode_utf8(frames@[0].filename@))
                &&& p.scaler is None
            }),
    {
        if frames.len() == 0 {
            return Err(ConvertError::EmptyInput);
        }
        let mut ld: u32 = frames[0].delay;
        let mut i: usize = 1;
        proof {
            assert(frames@.take(1int)[0] == frames@[0]);
        }
        while i < frames.len()
            invariant
                1 <= i <= frames@.len(),
                ld as int == min_delay(frames@.take(i as int)),
            decreases frames@.len() - i,
        {
            proof {
                lemma_min_delay_take_succ(frames@, i as int);
            }
            let d: u32 = frames[i].delay;
            if d < ld {
                ld = d;
            }
            i = i + 1;
        }
        proof {
            assert(frames@.take(frames@.len() as int) =~= frames@);
            lemma_min_delay_props(frames@);
        }
        let enc_tb = encode_time_base(ld);
        let codec = select_codec(frames[0].filename.as_str());
        proof {
            assert(frames@.take(0int) =~= Seq::<Frame>::empty());
        }
        Ok(
            Pipeline {
                frames,
                lowest_delay: ld,
                enc_tb,
                codec,
                phase: Phase::StreamingFirstFrame,
                next: 0,
                clock_ms: 0,
                scaler: None,
            },
        )
    }

    /// Builds the next frame's packet: reads the entry's bytes from the
    /// archive, stamps it with the running millisecond clock and the
    /// frame's delay rescaled into the encode time base, marks it a key
    /// unit, and advances the clock.  Succeeds exactly when the archive
    /// read does; on an archive failure nothing changes and that read's
    /// error is returned.
    pub fn next_packet(&mut self, archive: &Vec<u8>) -> (r: Result<SourcePacket, ConvertError>)
        requires
            old(self).can_submit(),
        ensures
            final(self).wf(),
            final(self).same_setup(*old(self)),
            final(self).phase == old(self).phase,
            final(self).scaler == old(self).scaler,
            r is Ok <==> archive_read(
                archive@,
                old(self).frames@[old(self).next as int].filename@,
            ) is Ok,
            r matches Ok(p) ==> {
                &&& final(self).next == old(self).next + 1
                &&& final(self).clock_ms == old(self).clock_ms + old(self).frames@[old(
                    self,
                ).next as int].delay
                &&& read_gives(
                    archive@,
                    old(self).frames@[old(self).next as int].filename@,
                    p.data@,
                )
                &&& p.pts == rescale_spec(
                    pts_ms(old(self).frames@, old(self).next as int),
                    decode_tb_spec(),
                    old(self).enc_tb,
                )
                &&& p.duration == rescale_spec(
                    old(self).frames@[old(self).next as int].delay as int,
                    decode_tb_spec(),
                    old(self).enc_tb,
                )
                &&& p.key == true
            },
            r matches Err(e) ==> {
                &&& *final(self) == *old(self)
                &&& read_fails(archive@, old(self).frames@[old(self).next as int].filename@, e)
                &&& (e == ConvertError::EntryNotFound || e == ConvertError::IoError)
            },
    {
        let idx: usize = self.next;
        let total_frames: usize = self.frames.len();
        proof {
            assert(idx < total_frames);
        }
        let data = match entry_bytes(archive, self.frames[idx].filename.as_str()) {
            Ok(d) => d,
            Err(e) => {
                return Err(e);
            },
        };
        let delay: u32 = self.frames[idx].delay;
        proof {
            lemma_min_delay_props(self.frames@);
            lemma_sum_take_ordered(self.frames@, idx as int, self.frames@.len() as int);
            assert(self.frames@.take(self.frames@.len() as int) =~= self.frames@);
            lemma_decode_rescale_range(
                self.clock_ms as int,
                self.lowest_delay as int,
                sum_delays(self.frames@),
                self.enc_tb,
            );
            // the single delay is also within the rescale range
            lemma_sum_delays_take_succ(self.frames@, idx as int);
            lemma_sum_delays_nonneg(self.frames@.take(idx as int));
            lemma_sum_take_ordered(self.frames@, idx as int + 1, self.frames@.len() as int);
            assert(delay as int <= sum_delays(self.frames@));
            lemma_decode_rescale_range(
                delay as int,
                self.lowest_delay as int,
                sum_delays(self.frames@),
                self.enc_tb,
            );
        }
        let tb = decode_time_base();
        let pts: i64 = rescale(self.clock_ms, tb, self.enc_tb);
        let duration: i64 = rescale(delay as i64, tb, self.enc_tb);
        proof {
            lemma_sum_delays_take_succ(self.frames@, idx as int);
            lemma_sum_take_ordered(self.frames@, idx as int + 1, self.frames@.len() as int);
        }
        self.clock_ms = self.clock_ms + (delay as i64);
        self.next = idx + 1;
        Ok(SourcePacket { data, pts, duration, key: true })
    }

    /// Fixes the run's output geometry from the first decoded frame's true
    /// source geometry: both axes padded up to even, held for the whole
    /// run.  Moves the orchestrator into the streaming phase.
    pub fn configure(&mut self, first: SrcGeometry) -> (out: OutGeometry)
        requires
            old(self).wf(),
            old(self).phase == Phase::StreamingFirstFrame,
            old(self).next == 1,
            first.width < u32::MAX,
            first.height < u32::MAX,
        ensures
            final(self).wf(),
            final(self).same_setup(*old(self)),
            final(self).phase == Phase::Streaming,
            final(self).next == old(self).next,
            final(self).clock_ms == old(self).clock_ms,
            final(self).scaler matches Some(s) && s.cached == first && s.out == out,
            out.width == padded(first.width as int),
            out.height == padded(first.height as int),
            out.wf(),
    {
        let s = ScalerState::configure(first);
        let out = s.out;
        self.scaler = Some(s);
        self.phase = Phase::Streaming;
        out
    }

    /// Decides for a decoded frame whether the scale stage must rebuild its
    /// resampling plan: exactly when the frame's geometry differs from the
    /// plan's cached key.  The fixed output geometry is untouched.
    pub fn prepare_scale(&mut self, src: SrcGeometry) -> (rebuild: bool)
        requires
            old(self).wf(),
            old(self).phase == Phase::Streaming || old(self).phase == Phase::DrainDecoder,
        ensures
            final(self).wf(),
            final(self).same_setup(*old(self)),
            final(self).phase == old(self).phase,
            final(self).next == old(self).next,
            final(self).clock_ms == old(self).clock_ms,
            old(self).scaler matches Some(s0) ==> {
                &&& rebuild == (s0.cached != src)
                &&& final(self).scaler matches Some(s1)
                    && s1.cached == src
                    && s1.out == s0.out
            },
    {
        let mut s: ScalerState = self.scaler.unwrap();
        let rebuild = s.prepare(src);
        self.scaler = Some(s);
        rebuild
    }

    /// Rescales a timestamp or duration handed back by the encoder from the
    /// encode time base into the container's 1/90000 time base.  Returns
    /// `None` exactly when the value is so large that the rescaled result
    /// would leave the 64-bit timestamp domain.
    pub fn to_output(&self, v: i64) -> (r: Option<i64>)
        requires
            self.wf(),
        ensures
            r matches Some(x) ==> x == rescale_spec(v as int, self.enc_tb, output_tb_spec()),
            r is Some <==> rescale_in_range(v as int, self.enc_tb, output_tb_spec()),
    {
        let m128: i128 = v as i128;
        let m: u128 = if m128 >= 0 {
            m128 as u128
        } else {
            (-m128) as u128
        };
        proof {
            assert(m as int * self.enc_tb.num as int <= 0x8000_0000_0000_0000int * 0xFFFF_FFFFint)
                by (nonlinear_arith)
                requires
                    0 <= m as int <= 0x8000_0000_0000_0000int,
                    0 <= self.enc_tb.num as int <= 0xFFFF_FFFFint,
            {}
        }
        let n: u128 = m * (self.enc_tb.num as u128) * 90000;
        let half: u128 = (self.enc_tb.den as u128) / 2;
        proof {
            let mi = m as int;
            let numi = self.enc_tb.num as int;
            assert(mi * numi * 90000 <= 0x8000_0000_0000_0000int * 0xFFFF_FFFFint * 90000)
                by (nonlinear_arith)
                requires
                    0 <= mi,
                    0 <= numi,
                    mi * numi <= 0x8000_0000_0000_0000int * 0xFFFF_FFFFint,
            {}
            assert(self.enc_tb.den as int * 1 == self.enc_tb.den as int) by (nonlinear_arith) {}
        }
        if n + half <= 0x7FFF_FFFF_FFFF_FFFF {
            Some(rescale(v, self.enc_tb, output_time_base()))
        } else {
            None
        }
    }

    /// All input frames are submitted: flush the decoder and drain what it
    /// still buffers.
    pub fn begin_drain_decoder(&mut self)
        requires
            old(self).wf(),
            old(self).phase == Phase::Streaming,
            old(self).next == old(self).frames@.len(),
        ensures
            final(self).wf(),
            final(self).same_setup(*old(self)),
            final(self).phase == Phase::DrainDecoder,
            final(self).next == old(self).next,
            final(self).clock_ms == old(self).clock_ms,
            final(self).scaler == old(self).scaler,
    {
        self.phase = Phase::DrainDecoder;
    }

    /// The decoder is exhausted: flush the encoder and drain its remaining
    /// packets.
    pub fn begin_drain_encoder(&mut self)
        requires
            old(self).wf(),
            old(self).phase == Phase::DrainDecoder,
        ensures
            final(self).wf(),
            final(self).same_setup(*old(self)),
            final(self).phase == Phase::DrainEncoder,
            final(self).next == old(self).next,
            final(self).clock_ms == old(self).clock_ms,
            final(self).scaler == old(self).scaler,
    {
        self.phase = Phase::DrainEncoder;
    }

    /// Both codec stages are drained: the container trailer may be written
    /// and the run is over.  Terminal: no operation accepts a finalized
    /// pipeline.
    pub fn finish(&mut self)
        requires
            old(self).wf(),
            old(self).phase == Phase::DrainEncoder,
        ensures
            final(self).wf(),
            final(self).same_setup(*old(self)),
            final(self).phase == Phase::Finalized,
            final(self).next == old(self).next,
            final(self).clock_ms == old(self).clock_ms,
            final(self).scaler == old(self).scaler,
    {
        self.phase = Phase::Finalized;
    }

    /// The codec kind the run decodes with.
    pub fn codec_kind(&self) -> (k: CodecKind)
        ensures
            k == self.codec,
    {
        self.codec
    }

    /// The run's encode time base.
    pub fn encode_time_base(&self) -> (t: TimeBase)
        ensures
            t == self.enc_tb,
    {
        self.enc_tb
    }

    /// The run's frame rate, the inverse of the encode time base: exactly
    /// `1000 / lowest_delay` frames per second.
    pub fn frame_rate(&self) -> (r: TimeBase)
        requires
            self.wf(),
        ensures
            r == self.enc_tb.invert_spec(),
            r.num * self.lowest_delay == r.den * 1000,
    {
        proof {
            lemma_encode_tb_spec_props(self.lowest_delay as int);
        }
        self.enc_tb.invert()
    }

    /// Whether frames remain to be submitted.
    pub fn has_more(&self) -> (b: bool)
        ensures
            b == ((self.next as int) < self.frames@.len()),
    {
        self.next < self.frames.len()
    }

    /// How many frames the run holds.
    pub fn frames_total(&self) -> (n: usize)
        ensures
            n == self.frames@.len(),
    {
        self.frames.len()
    }

    /// How many frames have been submitted so far.
    pub fn frames_submitted(&self) -> (n: usize)
        ensures
            n == self.next,
    {
        self.next
    }

    /// The running clock: the sum of the submitted frames' delays, in
    /// milliseconds; the next packet's timestamp in the millisecond domain.
    pub fn clock(&self) -> (c: i64)
        ensures
            c == self.clock_ms,
    {
        self.clock_ms
    }

    /// The current phase.
    pub fn phase(&self) -> (p: Phase)
        ensures
            p == self.phase,
    {
        self.phase
    }

    /// The fixed output geometry, once the first frame has configured it.
    pub fn output_geometry(&self) -> (g: Option<OutGeometry>)
        ensures
            self.scaler matches Some(s) ==> g == Some(s.out),
            self.scaler is None ==> g is None,
    {
        match &self.scaler {
            Some(s) => Some(s.out),
            None => None,
        }
    }
}

/// Checks the machine limits under which a frame list is accepted: every
/// delay at least one millisecond, and a total duration small enough that
/// every rescaled timestamp fits the 64-bit timestamp domain.
pub fn frames_acceptable(frames: &Vec<Frame>) -> (b: bool)
    ensures
        b == (positive_delays(frames@) && sum_delays(frames@) <= MAX_TOTAL_MS),
{
    let mut i: usize = 0;
    let mut total: i64 = 0;
    while i < frames.len()
        invariant
            0 <= i <= frames@.len(),
            total as int == sum_delays(frames@.take(i as int)),
            0 <= total <= MAX_TOTAL_MS,
            forall|k: int| 0 <= k < i ==> frames@[k].delay >= 1,
        decreases frames@.len() - i,
    {
        let d: u32 = frames[i].delay;
        if d == 0 {
            return false;
        }
        proof {
            lemma_sum_delays_take_succ(frames@, i as int);
        }
        if total > MAX_TOTAL_MS - (d as i64) {
            proof {
                lemma_sum_take_ordered(frames@, i as int + 1, frames@.len() as int);
                assert(frames@.take(frames@.len() as int) =~= frames@);
            }
            return false;
        }
        total = total + (d as i64);
        i = i + 1;
    }
    proof {
        assert(frames@.take(frames@.len() as int) =~= frames@);
        assert(frames@.take(0int) =~= Seq::<Frame>::empty());
    }
    true
}

/// Presentation timestamps across the whole run: strictly increasing in the
/// millisecond domain for any positive delays, and still non-decreasing
/// after the rescale into the encode time base derived from the smallest
/// delay.
pub proof fn lemma_pts_monotone(frames: Seq<Frame>, tb: TimeBase, i: int, j: int)
    requires
        positive_delays(frames),
        frames.len() >= 1,
        tb == encode_tb_spec(min_delay(frames)),
        0 <= i <= j <= frames.len(),
    ensures
        pts_ms(frames, i) <= pts_ms(frames, j),
        i < j ==> pts_ms(frames, i) < pts_ms(frames, j),
        rescale_spec(pts_ms(frames, i), decode_tb_spec(), tb) <= rescale_spec(
            pts_ms(frames, j),
            decode_tb_spec(),
            tb,
        ),
{
    lemma_sum_take_ordered(frames, i, j);
    if i < j {
        lemma_pts_ms_strict(frames, i, j);
    }
    lemma_min_delay_props(frames);
    lemma_encode_tb_spec_props(min_delay(frames));
    lemma_rescale_monotone(pts_ms(frames, i), pts_ms(frames, j), decode_tb_spec(), tb);
}

} // verus!
