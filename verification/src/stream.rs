//! Encode stream orchestration.
//!
//! Owns both encode contexts, the per-track segment queues and the two
//! monotone track clocks, and produces the final, globally decode-ordered
//! segment sequence.  The well-formedness predicate carries the global
//! invariants: both queues are sorted by decode timestamp, no queued
//! timestamp is ahead of its track clock, everything already emitted is at
//! or before both queue fronts, the audio clock equals the number of
//! completed frames times the exact frame duration, and the video clock
//! equals the exact sum of the durations actually encoded.

use vstd::prelude::*;
use std::collections::VecDeque;
use crate::time::{
    MediaTime, MediaDuration, Rat, rat_sum, rats_wf, sorted_rats, lemma_rat_sum_wf,
    lemma_plus_minus_wf, lemma_same_base_le, lemma_same_den_plus, lemma_sorted_push,
    lemma_le_r_trans, lemma_plus_lt, lemma_eq_r_le_r_compat, lemma_eq_r_trans,
    lemma_plus_eq_compat, lemma_minus_plus_cancel, lemma_floor_mono, in_i64, sum_repr,
    sum_fits,
};
use crate::audio::{AudioCtx, SAMPLES_PER_CHANNEL_PER_FRAGMENT, AUDIO_FRAME_SAMPLE_COUNT};
use crate::video::{VideoCtx, VideoFrame, AvcFrame};

verus! {

/// Structured failure of the encode stream: surfaced upward so the owning
/// session can tear down cleanly instead of aborting.
#[derive(Clone, Copy, Debug, PartialEq, Eq, Structural)]
pub enum EncodeError {
    /// Invalid encoder parameters at construction time.
    Config,
    /// Fatal failure of the audio codec.
    AudioEncoder,
    /// Fatal failure of the video codec.
    VideoEncoder,
    /// An exact timestamp left the representable range (a machine limit,
    /// not a property of the design).
    TimeOutOfRange,
}

/// One encoded AAC access unit, with its exact decode timestamp and
/// duration.
#[derive(Clone, Debug)]
pub struct AudioSegment {
    pub decode_timestamp: MediaTime,
    pub duration: MediaDuration,
    pub frame: Vec<u8>,
}

/// One encoded H.264 access unit, with its exact decode timestamp and
/// duration.
#[derive(Clone, Debug)]
pub struct VideoSegment {
    pub decode_timestamp: MediaTime,
    pub duration: MediaDuration,
    pub frame: AvcFrame,
}

/// The unit emitted to the muxer.
#[derive(Clone, Debug)]
pub enum StreamSegment {
    Audio(AudioSegment),
    Video(VideoSegment),
}

/// The encode-and-synchronize stage: two segment queues, two monotone
/// track clocks, and the two encode contexts.
pub struct EncodeStream {
    audio_segments: VecDeque<AudioSegment>,
    audio_timestamp: MediaTime,
    audio_ctx: AudioCtx,
    video_segments: VecDeque<VideoSegment>,
    video_timestamp: MediaTime,
    video_ctx: VideoCtx,
    audio_frames: Ghost<int>,
    video_durations: Ghost<Seq<Rat>>,
    emitted: Ghost<Seq<Rat>>,
}

impl EncodeStream {
    /// The queued, not yet emitted audio segments, oldest first.
    pub closed spec fn audio_q(self) -> Seq<AudioSegment> {
        self.audio_segments@
    }

    /// The queued, not yet emitted video segments, oldest first.
    pub closed spec fn video_q(self) -> Seq<VideoSegment> {
        self.video_segments@
    }

    /// The audio track clock: where the next completed frame will start.
    pub closed spec fn audio_time(self) -> Rat {
        self.audio_timestamp@
    }

    /// The video track clock: where the next encoded picture will start.
    pub closed spec fn video_time(self) -> Rat {
        self.video_timestamp@
    }

    /// How many audio frames have been completed so far.
    pub closed spec fn audio_frame_count(self) -> int {
        self.audio_frames@
    }

    /// The durations actually encoded on the video track, in order.
    pub closed spec fn video_encoded(self) -> Seq<Rat> {
        self.video_durations@
    }

    /// The decode timestamps already handed out by `recv_segment`, in
    /// order.
    pub closed spec fn emitted_dts(self) -> Seq<Rat> {
        self.emitted@
    }

    /// The configured audio sample rate.
    pub closed spec fn audio_rate(self) -> int {
        self.audio_ctx.rate()
    }

    /// The video encoder's native time base.
    pub closed spec fn video_time_base(self) -> int {
        self.video_ctx.time_base()
    }

    /// The samples buffered by the audio context and not yet encoded.
    pub closed spec fn audio_buffered(self) -> Seq<i16> {
        self.audio_ctx.buffered()
    }

    /// The audio context's granule-mismatch diagnostic counter.
    pub closed spec fn audio_granule_mismatches(self) -> int {
        self.audio_ctx.mismatches()
    }

    pub closed spec fn video_width(self) -> int {
        self.video_ctx.width()
    }

    pub closed spec fn video_height(self) -> int {
        self.video_ctx.height()
    }

    /// The parameter-set NAL units captured from the first encoded video
    /// key frame.
    pub closed spec fn video_parameter_sets(self) -> Seq<Vec<u8>> {
        self.video_ctx.parameter_sets()
    }

    /// The exact duration of one completed audio frame.
    pub open spec fn audio_frame_duration(self) -> Rat {
        Rat { num: SAMPLES_PER_CHANNEL_PER_FRAGMENT as int, den: self.audio_rate() }
    }

    /// Global well-formedness: sorted queues, clocks ahead of their
    /// queues, emitted timestamps behind both fronts, and both clock laws.
    pub closed spec fn wf(self) -> bool {
        &&& self.audio_ctx.wf()
        &&& self.video_ctx.wf()
        &&& self.video_ctx.pending().len() == 0
        &&& self.audio_timestamp@.wf()
        &&& self.video_timestamp@.wf()
        // audio queue: well-formed, sorted, at or before the audio clock
        &&& (forall|i: int| 0 <= i < self.audio_segments@.len()
            ==> (#[trigger] self.audio_segments@[i]).decode_timestamp@.wf()
                && self.audio_segments@[i].decode_timestamp@.le_r(self.audio_timestamp@))
        &&& (forall|i: int, j: int| 0 <= i <= j < self.audio_segments@.len()
            ==> (#[trigger] self.audio_segments@[i]).decode_timestamp@.le_r(
                (#[trigger] self.audio_segments@[j]).decode_timestamp@))
        // video queue: stamped in the encoder's base, sorted, at or before
        // the rounded video clock
        &&& (forall|i: int| 0 <= i < self.video_segments@.len()
            ==> (#[trigger] self.video_segments@[i]).decode_timestamp.base as int
                    == self.video_ctx.time_base()
                && self.video_segments@[i].decode_timestamp@.wf()
                && self.video_segments@[i].decode_timestamp.ticks as int
                    <= self.video_timestamp@.floor_ticks(self.video_ctx.time_base()))
        &&& (forall|i: int, j: int| 0 <= i <= j < self.video_segments@.len()
            ==> (#[trigger] self.video_segments@[i]).decode_timestamp.ticks
                <= (#[trigger] self.video_segments@[j]).decode_timestamp.ticks)
        // what was emitted is sorted and at or before both queue fronts
        &&& rats_wf(self.emitted@)
        &&& sorted_rats(self.emitted@)
        &&& (self.emitted@.len() > 0 ==> self.audio_segments@.len() > 0
            && self.video_segments@.len() > 0
            && self.emitted@.last().le_r(self.audio_segments@[0].decode_timestamp@)
            && self.emitted@.last().le_r(self.video_segments@[0].decode_timestamp@))
        // the audio clock is the number of completed frames times the
        // exact frame duration
        &&& self.audio_frames@ >= 0
        &&& self.audio_timestamp@.eq_r(Rat {
            num: self.audio_frames@ * (SAMPLES_PER_CHANNEL_PER_FRAGMENT as int),
            den: self.audio_ctx.rate(),
        })
        // the video clock is the exact sum of the durations encoded
        &&& rats_wf(self.video_durations@)
        &&& self.video_timestamp@.eq_r(rat_sum(self.video_durations@))
    }

    /// Builds a stream over two freshly configured contexts.  Both clocks
    /// start at zero and both queues empty.
    pub fn new(audio_ctx: AudioCtx, video_ctx: VideoCtx) -> (r: EncodeStream)
        requires
            audio_ctx.wf(),
            video_ctx.wf(),
            video_ctx.pending().len() == 0,
        ensures
            r.wf(),
            r.audio_q().len() == 0,
            r.video_q().len() == 0,
            r.emitted_dts().len() == 0,
            r.audio_frame_count() == 0,
            r.video_encoded().len() == 0,
            r.audio_time() == (Rat { num: 0, den: 1 }),
            r.video_time() == (Rat { num: 0, den: 1 }),
            r.audio_rate() == audio_ctx.rate(),
            r.video_time_base() == video_ctx.time_base(),
            r.video_width() == video_ctx.width(),
            r.video_height() == video_ctx.height(),
            r.audio_buffered() == audio_ctx.buffered(),
            r.audio_granule_mismatches() == audio_ctx.mismatches(),
            r.video_parameter_sets() == video_ctx.parameter_sets(),
    {
        let r = EncodeStream {
            audio_segments: VecDeque::new(),
            audio_timestamp: MediaTime::new(0, 1),
            audio_ctx,
            video_segments: VecDeque::new(),
            video_timestamp: MediaTime::new(0, 1),
            video_ctx,
            audio_frames: Ghost(0int),
            video_durations: Ghost(Seq::empty()),
            emitted: Ghost(Seq::empty()),
        };
        proof {
            assert(rat_sum(r.video_durations@) == Rat::zero());
        }
        r
    }

    /// Feeds raw interleaved stereo PCM to the audio context.  When that
    /// completes a frame, the frame is queued with the current audio clock
    /// as its decode timestamp, and the clock advances by the frame's
    /// exact duration.
    pub fn send_audio(&mut self, samples: &[i16]) -> (r: Result<(), EncodeError>)
        requires
            old(self).wf(),
        ensures
            final(self).wf(),
            final(self).video_q() == old(self).video_q(),
            final(self).video_time() == old(self).video_time(),
            final(self).video_encoded() == old(self).video_encoded(),
            final(self).video_parameter_sets() == old(self).video_parameter_sets(),
            final(self).emitted_dts() == old(self).emitted_dts(),
            final(self).audio_rate() == old(self).audio_rate(),
            final(self).video_time_base() == old(self).video_time_base(),
            final(self).video_width() == old(self).video_width(),
            final(self).video_height() == old(self).video_height(),
            // a batch that completes no frame makes no codec call: success
            // is owed, and nothing but the buffer changes
            old(self).audio_buffered().len() + samples@.len() <= AUDIO_FRAME_SAMPLE_COUNT
                ==> (r matches Ok(u))
                && final(self).audio_q() == old(self).audio_q()
                && final(self).audio_time() == old(self).audio_time()
                && final(self).audio_frame_count() == old(self).audio_frame_count()
                && final(self).audio_granule_mismatches()
                    == old(self).audio_granule_mismatches()
                && final(self).audio_buffered() =~= old(self).audio_buffered() + samples@,
            (r matches Ok(u) && old(self).audio_buffered().len() + samples@.len()
                > AUDIO_FRAME_SAMPLE_COUNT) ==> final(self).audio_q().len()
                    == old(self).audio_q().len() + 1
                && final(self).audio_q().drop_last() =~= old(self).audio_q()
                && final(self).audio_q().last().decode_timestamp@ == old(self).audio_time()
                && final(self).audio_q().last().duration@ == old(self).audio_frame_duration()
                && final(self).audio_frame_count() == old(self).audio_frame_count() + 1
                && final(self).audio_time().eq_r(old(self).audio_time().plus(
                    old(self).audio_frame_duration()))
                && final(self).audio_buffered() =~= (old(self).audio_buffered()
                    + samples@).skip(AUDIO_FRAME_SAMPLE_COUNT as int),
            (r matches Err(e) ==> (e == EncodeError::AudioEncoder
                    || e == EncodeError::TimeOutOfRange)
                && final(self).audio_q() == old(self).audio_q()
                && final(self).audio_time() == old(self).audio_time()
                && final(self).audio_frame_count() == old(self).audio_frame_count()),
            r == Err::<(), EncodeError>(EncodeError::AudioEncoder)
                ==> final(self).audio_buffered() =~= old(self).audio_buffered() + samples@,
            // the library's own machine limit: only an unrepresentable
            // advance of the audio clock, and never when it is representable
            r == Err::<(), EncodeError>(EncodeError::TimeOutOfRange)
                ==> !sum_fits(old(self).audio_time(), old(self).audio_frame_duration())
                && old(self).audio_buffered().len() + samples@.len()
                    > AUDIO_FRAME_SAMPLE_COUNT
                && final(self).audio_buffered() =~= (old(self).audio_buffered()
                    + samples@).skip(AUDIO_FRAME_SAMPLE_COUNT as int),
            sum_fits(old(self).audio_time(), old(self).audio_frame_duration())
                ==> r != Err::<(), EncodeError>(EncodeError::TimeOutOfRange),
    {
        let completed = match self.audio_ctx.send_audio(samples) {
            Ok(o) => o,
            Err(e) => {
                return Err(e);
            }
        };
        match completed {
            None => Ok(()),
            Some(p) => {
                let (duration, bytes) = p;
                let decode_timestamp = self.audio_timestamp;
                let new_ts = match decode_timestamp.add_duration(&duration) {
                    Some(t) => t,
                    None => {
                        return Err(EncodeError::TimeOutOfRange);
                    }
                };
                self.audio_segments.push_back(AudioSegment {
                    decode_timestamp,
                    duration,
                    frame: bytes,
                });
                self.audio_timestamp = new_ts;
                proof {
                    self.audio_frames@ = self.audio_frames@ + 1;

                    let rate = old(self).audio_ctx.rate();
                    let f = old(self).audio_frames@;
                    let n = SAMPLES_PER_CHANNEL_PER_FRAGMENT as int;
                    let fd = Rat { num: n, den: rate };
                    let old_ts = old(self).audio_timestamp@;
                    let prev = Rat { num: f * n, den: rate };

                    // the clock law: old + one frame == (f + 1) frames
                    lemma_plus_minus_wf(old_ts, fd);
                    lemma_plus_eq_compat(old_ts, prev, fd);
                    lemma_same_den_plus(f * n, n, rate);
                    lemma_plus_minus_wf(prev, fd);
                    lemma_eq_r_trans(new_ts@, old_ts.plus(fd), prev.plus(fd));
                    lemma_eq_r_trans(new_ts@, prev.plus(fd), Rat { num: f * n + n, den: rate });
                    assert((f + 1) * n == f * n + n) by (nonlinear_arith);

                    // the clock moved forward
                    lemma_plus_lt(old_ts, fd);
                    lemma_eq_r_le_r_compat(old_ts.plus(fd), new_ts@, old_ts);
                    assert(old_ts.le_r(new_ts@));

                    // queue order: everything queued is at or before the
                    // old clock, which is the new element's timestamp
                    let q = self.audio_segments@;
                    let oq = old(self).audio_segments@;
                    assert(q =~= oq.push(AudioSegment {
                        decode_timestamp,
                        duration,
                        frame: bytes,
                    }));
                    assert forall|i: int| 0 <= i < q.len() implies
                        (#[trigger] q[i]).decode_timestamp@.wf()
                        && q[i].decode_timestamp@.le_r(self.audio_timestamp@) by {
                        if i < oq.len() {
                            assert(oq[i].decode_timestamp@.le_r(old_ts));
                            lemma_le_r_trans(oq[i].decode_timestamp@, old_ts, new_ts@);
                        } else {
                            assert(q[i].decode_timestamp@ == old_ts);
                        }
                    }
                    assert forall|i: int, j: int| 0 <= i <= j < q.len() implies
                        (#[trigger] q[i]).decode_timestamp@.le_r(
                            (#[trigger] q[j]).decode_timestamp@) by {
                        if j < oq.len() {
                            assert(oq[i].decode_timestamp@.le_r(oq[j].decode_timestamp@));
                        } else if i < oq.len() {
                            assert(oq[i].decode_timestamp@.le_r(old_ts));
                        } else {
                            assert(q[i].decode_timestamp@ == old_ts);
                        }
                    }
                }
                Ok(())
            }
        }
    }

    /// The shared encode step: advance the video clock to `end_timestamp`,
    /// round both boundaries independently into the encoder's base — the
    /// encoded duration is the difference of the rounded boundaries, so
    /// rounding error never accumulates across frames — submit the frame
    /// stamped with its rounded start, and drain every packet the encoder
    /// has ready into the video queue.
    fn encode_video(&mut self, end_timestamp: MediaTime, frame: VideoFrame)
        -> (r: Result<(), EncodeError>)
        requires
            old(self).wf(),
            end_timestamp@.wf(),
            old(self).video_time().le_r(end_timestamp@),
            frame.wf_for(old(self).video_width(), old(self).video_height()),
        ensures
            final(self).wf(),
            final(self).audio_q() == old(self).audio_q(),
            final(self).audio_time() == old(self).audio_time(),
            final(self).audio_frame_count() == old(self).audio_frame_count(),
            final(self).audio_buffered() == old(self).audio_buffered(),
            final(self).audio_granule_mismatches() == old(self).audio_granule_mismatches(),
            final(self).emitted_dts() == old(self).emitted_dts(),
            final(self).audio_rate() == old(self).audio_rate(),
            final(self).video_time_base() == old(self).video_time_base(),
            final(self).video_width() == old(self).video_width(),
            final(self).video_height() == old(self).video_height(),
            final(self).video_time().wf(),
            old(self).video_time().le_r(final(self).video_time()),
            // the library's own machine limit, exactly when it strikes:
            // one of the rounded boundaries, or their difference, has no
            // i64 representation
            r == Err::<(), EncodeError>(EncodeError::TimeOutOfRange) <==> ({
                let tb = old(self).video_time_base();
                ||| !in_i64(old(self).video_time().floor_ticks(tb))
                ||| !in_i64(end_timestamp@.floor_ticks(tb))
                ||| !in_i64(end_timestamp@.floor_ticks(tb)
                    - old(self).video_time().floor_ticks(tb))
            }),
            r == Err::<(), EncodeError>(EncodeError::TimeOutOfRange)
                ==> final(self).video_q() == old(self).video_q()
                && final(self).video_time() == old(self).video_time()
                && final(self).video_encoded() == old(self).video_encoded()
                && final(self).video_parameter_sets() == old(self).video_parameter_sets(),
            r == Err::<(), EncodeError>(EncodeError::VideoEncoder)
                ==> final(self).video_q() == old(self).video_q()
                && final(self).video_time() == end_timestamp@
                && final(self).video_encoded() =~= old(self).video_encoded().push(
                    end_timestamp@.minus(old(self).video_time())),
            (r matches Err(e) ==> e == EncodeError::TimeOutOfRange
                || e == EncodeError::VideoEncoder),
            r matches Ok(u) ==> final(self).video_time() == end_timestamp@
                && final(self).video_encoded() =~= old(self).video_encoded().push(
                    end_timestamp@.minus(old(self).video_time()))
                && {
                    let tb = old(self).video_time_base();
                    ||| final(self).video_q() == old(self).video_q()
                    ||| (final(self).video_q().len() == old(self).video_q().len() + 1
                        && final(self).video_q().drop_last() =~= old(self).video_q()
                        && final(self).video_q().last().decode_timestamp.ticks as int
                            == old(self).video_time().floor_ticks(tb)
                        && final(self).video_q().last().decode_timestamp.base as int == tb
                        && final(self).video_q().last().duration.ticks as int
                            == end_timestamp@.floor_ticks(tb)
                                - old(self).video_time().floor_ticks(tb)
                        && final(self).video_q().last().duration.base as int == tb
                        && final(self).video_q().last().frame.composition_time.ticks == 0)
                },
    {
        let time_base = self.video_ctx.time_base_i64();
        let frame_start_timestamp = self.video_timestamp;
        let frame_end_timestamp = end_timestamp;

        let frame_start_in_base = match frame_start_timestamp.round_to_base(time_base) {
            Some(t) => t,
            None => {
                return Err(EncodeError::TimeOutOfRange);
            }
        };
        let frame_end_in_base = match frame_end_timestamp.round_to_base(time_base) {
            Some(t) => t,
            None => {
                return Err(EncodeError::TimeOutOfRange);
            }
        };
        proof {
            lemma_floor_mono(old(self).video_time(), end_timestamp@, time_base as int);
        }
        let duration_in_base = match frame_end_in_base.checked_sub(frame_start_in_base) {
            Some(d) => d,
            None => {
                return Err(EncodeError::TimeOutOfRange);
            }
        };

        self.video_timestamp = frame_end_timestamp;
        let ghost encoded_now = end_timestamp@.minus(old(self).video_time());
        proof {
            self.video_durations@ = self.video_durations@.push(encoded_now);

            // the clock law: the new clock is the exact sum of everything
            // encoded, including this step
            let start = old(self).video_time();
            let oldsum = rat_sum(old(self).video_durations@);
            lemma_plus_minus_wf(end_timestamp@, start);
            lemma_rat_sum_wf(old(self).video_durations@);
            lemma_minus_plus_cancel(end_timestamp@, start);
            lemma_plus_eq_compat(start, oldsum, encoded_now);
            lemma_plus_minus_wf(start, encoded_now);
            lemma_plus_minus_wf(oldsum, encoded_now);
            lemma_eq_r_trans(end_timestamp@, start.plus(encoded_now), oldsum.plus(encoded_now));
            assert(self.video_durations@.drop_last() =~= old(self).video_durations@);
            assert(rat_sum(self.video_durations@) == oldsum.plus(encoded_now));
        }

        let mut frame = frame;
        frame.presentation_timestamp = frame_start_in_base;
        match self.video_ctx.send_frame(frame) {
            Ok(u) => {}
            Err(e) => {
                return Err(e);
            }
        }

        let ghost tb = time_base as int;
        let ghost rs = frame_start_in_base as int;
        let ghost re = frame_end_in_base as int;
        let mut more = true;
        while more
            invariant
                !more ==> self.video_ctx.pending().len() == 0,
                self.audio_segments@ == old(self).audio_segments@,
                self.audio_timestamp == old(self).audio_timestamp,
                self.audio_ctx == old(self).audio_ctx,
                self.emitted@ == old(self).emitted@,
                self.audio_frames@ == old(self).audio_frames@,
                self.video_durations@ == old(self).video_durations@.push(encoded_now),
                self.video_timestamp == end_timestamp,
                self.video_timestamp@.wf(),
                self.video_timestamp@.eq_r(rat_sum(self.video_durations@)),
                rats_wf(self.video_durations@),
                self.audio_timestamp@.wf(),
                self.video_ctx.wf(),
                self.video_ctx.time_base() == old(self).video_time_base(),
                self.video_ctx.width() == old(self).video_width(),
                self.video_ctx.height() == old(self).video_height(),
                tb == old(self).video_time_base(),
                time_base as int == tb,
                time_base >= 1,
                rs == old(self).video_time().floor_ticks(tb),
                re == end_timestamp@.floor_ticks(tb),
                rs <= re,
                duration_in_base as int == re - rs,
                forall|k: int| 0 <= k < self.video_ctx.pending().len()
                    ==> (#[trigger] self.video_ctx.pending()[k]).decode_timestamp as int == rs
                        && self.video_ctx.pending()[k].presentation_timestamp as int == rs,
                forall|i: int| 0 <= i < self.video_segments@.len()
                    ==> (#[trigger] self.video_segments@[i]).decode_timestamp.base as int == tb
                        && self.video_segments@[i].decode_timestamp@.wf()
                        && self.video_segments@[i].decode_timestamp.ticks as int <= re,
                forall|i: int, j: int| 0 <= i <= j < self.video_segments@.len()
                    ==> (#[trigger] self.video_segments@[i]).decode_timestamp.ticks
                        <= (#[trigger] self.video_segments@[j]).decode_timestamp.ticks,
                self.emitted@.len() > 0 ==> self.audio_segments@.len() > 0
                    && self.video_segments@.len() > 0
                    && self.emitted@.last().le_r(self.audio_segments@[0].decode_timestamp@)
                    && self.emitted@.last().le_r(self.video_segments@[0].decode_timestamp@),
                rats_wf(self.emitted@),
                sorted_rats(self.emitted@),
                forall|i: int| 0 <= i < self.audio_segments@.len()
                    ==> (#[trigger] self.audio_segments@[i]).decode_timestamp@.wf()
                        && self.audio_segments@[i].decode_timestamp@.le_r(
                            self.audio_timestamp@),
                forall|i: int, j: int| 0 <= i <= j < self.audio_segments@.len()
                    ==> (#[trigger] self.audio_segments@[i]).decode_timestamp@.le_r(
                        (#[trigger] self.audio_segments@[j]).decode_timestamp@),
                self.audio_ctx.wf(),
                self.audio_frames@ >= 0,
                self.audio_timestamp@.eq_r(Rat {
                    num: self.audio_frames@ * (SAMPLES_PER_CHANNEL_PER_FRAGMENT as int),
                    den: self.audio_ctx.rate(),
                }),
                ({
                    ||| (self.video_segments@ == old(self).video_segments@
                        && self.video_ctx.pending().len() <= 1
                        && (forall|i: int| 0 <= i < self.video_segments@.len()
                            ==> (#[trigger] self.video_segments@[i]).decode_timestamp.ticks
                                as int <= rs))
                    ||| (self.video_segments@.len() == old(self).video_segments@.len() + 1
                        && self.video_segments@.drop_last() =~= old(self).video_segments@
                        && self.video_segments@.last().decode_timestamp.ticks as int == rs
                        && self.video_segments@.last().decode_timestamp.base as int == tb
                        && self.video_segments@.last().duration.ticks as int == re - rs
                        && self.video_segments@.last().duration.base as int == tb
                        && self.video_segments@.last().frame.composition_time.ticks == 0
                        && self.video_ctx.pending().len() == 0)
                }),
            decreases self.video_ctx.pending().len() + (if more { 1int } else { 0int }),
        {
            let packet = match self.video_ctx.recv_packet() {
                Some(p) => p,
                None => {
                    more = false;
                    continue;
                }
            };
            proof {
                // a packet implies the queue is still untouched: the other
                // disjunct has an empty pending queue
                assert(self.video_segments@ == old(self).video_segments@);
            }
            let decode_timestamp = MediaTime::new(packet.decode_timestamp, time_base);
            let duration = MediaDuration::new(duration_in_base, time_base);
            let composition_ticks = packet.presentation_timestamp - packet.decode_timestamp;
            let ghost before_q = self.video_segments@;
            self.video_segments.push_back(VideoSegment {
                decode_timestamp,
                duration,
                frame: AvcFrame {
                    is_key_frame: packet.is_key_frame,
                    composition_time: MediaDuration::new(composition_ticks, time_base),
                    data: packet.data,
                },
            });
            proof {
                assert(self.video_segments@.drop_last() =~= before_q);
                // the old well-formedness bounds every prior element by the
                // rounded old clock, which is the new element's timestamp
                assert(forall|i: int| 0 <= i < before_q.len()
                    ==> (#[trigger] before_q[i]).decode_timestamp.ticks as int <= rs);
            }
        }
        Ok(())
    }

    /// Submits one real video frame.  A frame whose claimed end,
    /// `timestamp + duration_hint`, lies strictly before the video clock
    /// arrived too late to affect output and is dropped whole.  Otherwise
    /// the duration actually encoded is `end - video clock` — closing the
    /// gap up to the frame's claimed end exactly, rather than trusting the
    /// possibly imprecise hint — and the clock advances to that end.
    pub fn send_video(&mut self, timestamp: MediaTime, duration_hint: MediaDuration,
        frame: VideoFrame) -> (r: Result<(), EncodeError>)
        requires
            old(self).wf(),
            timestamp@.wf(),
            duration_hint@.wf(),
            frame.wf_for(old(self).video_width(), old(self).video_height()),
        ensures
            final(self).wf(),
            final(self).audio_q() == old(self).audio_q(),
            final(self).audio_time() == old(self).audio_time(),
            final(self).audio_frame_count() == old(self).audio_frame_count(),
            final(self).audio_buffered() == old(self).audio_buffered(),
            final(self).audio_granule_mismatches() == old(self).audio_granule_mismatches(),
            final(self).emitted_dts() == old(self).emitted_dts(),
            final(self).audio_rate() == old(self).audio_rate(),
            final(self).video_time_base() == old(self).video_time_base(),
            final(self).video_width() == old(self).video_width(),
            final(self).video_height() == old(self).video_height(),
            final(self).video_time().wf(),
            // the video clock never moves backward
            old(self).video_time().le_r(final(self).video_time()),
            // a late frame — its representable end strictly before the
            // clock — is silently dropped: success owed, nothing changes
            (sum_fits(timestamp@, duration_hint@) && timestamp@.plus(duration_hint@).lt_r(
                old(self).video_time())) ==> (r matches Ok(u))
                && final(self).video_q() == old(self).video_q()
                && final(self).video_time() == old(self).video_time()
                && final(self).video_encoded() == old(self).video_encoded()
                && final(self).video_parameter_sets() == old(self).video_parameter_sets(),
            (r matches Ok(u) && !timestamp@.plus(duration_hint@).lt_r(old(self).video_time()))
                ==> final(self).video_time() == sum_repr(timestamp@, duration_hint@)
                && final(self).video_time().eq_r(timestamp@.plus(duration_hint@))
                && final(self).video_encoded().len() == old(self).video_encoded().len() + 1
                && final(self).video_encoded().drop_last() =~= old(self).video_encoded()
                && final(self).video_encoded().last() == final(self).video_time().minus(
                    old(self).video_time())
                && {
                    let tb = old(self).video_time_base();
                    ||| final(self).video_q() == old(self).video_q()
                    ||| (final(self).video_q().len() == old(self).video_q().len() + 1
                        && final(self).video_q().drop_last() =~= old(self).video_q()
                        && final(self).video_q().last().decode_timestamp.ticks as int
                            == old(self).video_time().floor_ticks(tb)
                        && final(self).video_q().last().decode_timestamp.base as int == tb
                        && final(self).video_q().last().duration.ticks as int
                            == final(self).video_time().floor_ticks(tb)
                                - old(self).video_time().floor_ticks(tb)
                        && final(self).video_q().last().duration.base as int == tb)
                },
            (r matches Err(e) ==> e == EncodeError::TimeOutOfRange
                || e == EncodeError::VideoEncoder),
            // the library's own machine limit, exactly when it strikes: the
            // frame's end, a rounded boundary, or the rounded difference
            // has no i64 representation
            r == Err::<(), EncodeError>(EncodeError::TimeOutOfRange) <==> (
                !sum_fits(timestamp@, duration_hint@)
                || (!timestamp@.plus(duration_hint@).lt_r(old(self).video_time()) && {
                    let tb = old(self).video_time_base();
                    let end = sum_repr(timestamp@, duration_hint@);
                    ||| !in_i64(old(self).video_time().floor_ticks(tb))
                    ||| !in_i64(end.floor_ticks(tb))
                    ||| !in_i64(end.floor_ticks(tb) - old(self).video_time().floor_ticks(tb))
                })),
            r == Err::<(), EncodeError>(EncodeError::TimeOutOfRange)
                ==> final(self).video_q() == old(self).video_q()
                && final(self).video_time() == old(self).video_time()
                && final(self).video_encoded() == old(self).video_encoded()
                && final(self).video_parameter_sets() == old(self).video_parameter_sets(),
            r == Err::<(), EncodeError>(EncodeError::VideoEncoder)
                ==> final(self).video_q() == old(self).video_q()
                && final(self).video_time() == sum_repr(timestamp@, duration_hint@)
                && final(self).video_encoded() =~= old(self).video_encoded().push(
                    sum_repr(timestamp@, duration_hint@).minus(old(self).video_time())),
    {
        let end_timestamp = match timestamp.add_duration(&duration_hint) {
            Some(t) => t,
            None => {
                return Err(EncodeError::TimeOutOfRange);
            }
        };

        proof {
            lemma_plus_minus_wf(timestamp@, duration_hint@);
            lemma_eq_r_le_r_compat(end_timestamp@, timestamp@.plus(duration_hint@),
                old(self).video_time());
        }
        if end_timestamp.earlier_than(&self.video_timestamp) {
            // the frame ends before the current position: drop it
            return Ok(());
        }

        self.encode_video(end_timestamp, frame)
    }

    /// Forces the video track forward to at least `timestamp`: when the
    /// clock is behind it, one blank frame is encoded covering exactly the
    /// gap.  A barrier at or before the clock is a no-op.
    pub fn barrier(&mut self, timestamp: MediaTime) -> (r: Result<(), EncodeError>)
        requires
            old(self).wf(),
            timestamp@.wf(),
        ensures
            final(self).wf(),
            final(self).audio_q() == old(self).audio_q(),
            final(self).audio_time() == old(self).audio_time(),
            final(self).audio_frame_count() == old(self).audio_frame_count(),
            final(self).audio_buffered() == old(self).audio_buffered(),
            final(self).audio_granule_mismatches() == old(self).audio_granule_mismatches(),
            final(self).emitted_dts() == old(self).emitted_dts(),
            final(self).audio_rate() == old(self).audio_rate(),
            final(self).video_time_base() == old(self).video_time_base(),
            final(self).video_width() == old(self).video_width(),
            final(self).video_height() == old(self).video_height(),
            final(self).video_time().wf(),
            // the video clock never moves backward
            old(self).video_time().le_r(final(self).video_time()),
            // a barrier at or before the clock is a no-op
            timestamp@.le_r(old(self).video_time()) ==> (r matches Ok(u))
                && final(self).video_q() == old(self).video_q()
                && final(self).video_time() == old(self).video_time()
                && final(self).video_encoded() == old(self).video_encoded()
                && final(self).video_parameter_sets() == old(self).video_parameter_sets(),
            (r matches Ok(u) && old(self).video_time().lt_r(timestamp@))
                ==> final(self).video_time() == timestamp@
                && final(self).video_encoded().len() == old(self).video_encoded().len() + 1
                && final(self).video_encoded().drop_last() =~= old(self).video_encoded()
                && final(self).video_encoded().last() == timestamp@.minus(
                    old(self).video_time())
                && {
                    let tb = old(self).video_time_base();
                    ||| final(self).video_q() == old(self).video_q()
                    ||| (final(self).video_q().len() == old(self).video_q().len() + 1
                        && final(self).video_q().drop_last() =~= old(self).video_q()
                        && final(self).video_q().last().decode_timestamp.ticks as int
                            == old(self).video_time().floor_ticks(tb)
                        && final(self).video_q().last().decode_timestamp.base as int == tb
                        && final(self).video_q().last().duration.ticks as int
                            == timestamp@.floor_ticks(tb)
                                - old(self).video_time().floor_ticks(tb)
                        && final(self).video_q().last().duration.base as int == tb)
                },
            (r matches Err(e) ==> e == EncodeError::TimeOutOfRange
                || e == EncodeError::VideoEncoder),
            // the library's own machine limit, exactly when it strikes: a
            // rounded boundary of the gap, or their difference, has no i64
            // representation
            r == Err::<(), EncodeError>(EncodeError::TimeOutOfRange) <==> (
                old(self).video_time().lt_r(timestamp@) && {
                    let tb = old(self).video_time_base();
                    ||| !in_i64(old(self).video_time().floor_ticks(tb))
                    ||| !in_i64(timestamp@.floor_ticks(tb))
                    ||| !in_i64(timestamp@.floor_ticks(tb)
                        - old(self).video_time().floor_ticks(tb))
                }),
            r == Err::<(), EncodeError>(EncodeError::TimeOutOfRange)
                ==> final(self).video_q() == old(self).video_q()
                && final(self).video_time() == old(self).video_time()
                && final(self).video_encoded() == old(self).video_encoded()
                && final(self).video_parameter_sets() == old(self).video_parameter_sets(),
            r == Err::<(), EncodeError>(EncodeError::VideoEncoder)
                ==> final(self).video_q() == old(self).video_q()
                && final(self).video_time() == timestamp@
                && final(self).video_encoded() =~= old(self).video_encoded().push(
                    timestamp@.minus(old(self).video_time())),
    {
        if self.video_timestamp.earlier_than(&timestamp) {
            let frame = self.video_ctx.blank_frame();
            self.encode_video(timestamp, frame)
        } else {
            Ok(())
        }
    }

    /// The out-of-band audio decoder configuration the muxer must emit
    /// once, before the first audio segment.
    pub fn audio_configuration_data(&self) -> (r: Result<Vec<u8>, EncodeError>)
        requires
            self.wf(),
        ensures
            (r matches Ok(b) ==> b@.len() <= 64),
            (r matches Err(e) ==> e == EncodeError::AudioEncoder),
    {
        self.audio_ctx.configuration_data()
    }

    /// The out-of-band video decoder configuration the muxer must emit
    /// once, before the first video segment.
    pub fn video_decoder_configuration_record(&self) -> (r: crate::video::DecoderConfigurationRecord)
        requires
            self.wf(),
        ensures
            r.width as int == self.video_width(),
            r.height as int == self.video_height(),
            r.time_base as int == self.video_time_base(),
            r.parameter_sets@.len() == self.video_parameter_sets().len(),
            forall|k: int| 0 <= k < r.parameter_sets@.len()
                ==> (#[trigger] r.parameter_sets@[k])@ == self.video_parameter_sets()[k]@,
    {
        self.video_ctx.decoder_configuration_record()
    }

    /// How many audio segments are buffered and not yet emitted.
    pub fn audio_queue_len(&self) -> (r: usize)
        ensures
            r == self.audio_q().len(),
    {
        self.audio_segments.len()
    }

    /// How many video segments are buffered and not yet emitted.
    pub fn video_queue_len(&self) -> (r: usize)
        ensures
            r == self.video_q().len(),
    {
        self.video_segments.len()
    }

    /// The current audio track clock.
    pub fn audio_timestamp(&self) -> (r: MediaTime)
        ensures
            r@ == self.audio_time(),
    {
        self.audio_timestamp
    }

    /// The current video track clock.
    pub fn video_timestamp(&self) -> (r: MediaTime)
        ensures
            r@ == self.video_time(),
    {
        self.video_timestamp
    }

    /// The `i`th buffered audio segment, oldest first.
    pub fn audio_segment(&self, i: usize) -> (r: &AudioSegment)
        requires
            i < self.audio_q().len(),
        ensures
            *r == self.audio_q()[i as int],
    {
        &self.audio_segments[i]
    }

    /// The `i`th buffered video segment, oldest first.
    pub fn video_segment(&self, i: usize) -> (r: &VideoSegment)
        requires
            i < self.video_q().len(),
        ensures
            *r == self.video_q()[i as int],
    {
        &self.video_segments[i]
    }

    /// Law: over every sequence of calls, the decode timestamps handed out
    /// by `recv_segment` are non-decreasing.  The stream's well-formedness
    /// — established at construction and preserved by every operation —
    /// keeps the log of emitted timestamps sorted.
    pub proof fn lemma_emitted_nondecreasing(&self, i: int, j: int)
        requires
            self.wf(),
            0 <= i <= j < self.emitted_dts().len(),
        ensures
            self.emitted_dts()[i].le_r(self.emitted_dts()[j]),
    {
    }

    /// Law: after any number of calls, the audio clock equals the number
    /// of completed audio frames times the exact frame duration
    /// `SAMPLES_PER_CHANNEL_PER_FRAGMENT / sample_rate` — the sum of the
    /// emitted frames' durations, since every frame has that duration.
    pub proof fn lemma_audio_clock_is_frame_total(&self)
        requires
            self.wf(),
        ensures
            self.audio_frame_count() >= 0,
            self.audio_time().eq_r(Rat {
                num: self.audio_frame_count() * (SAMPLES_PER_CHANNEL_PER_FRAGMENT as int),
                den: self.audio_rate(),
            }),
    {
    }

    /// Law: after any sequence of `send_video` and `barrier` calls, the
    /// video clock equals the exact sum of the durations actually encoded
    /// — dropped frames contribute nothing.
    pub proof fn lemma_video_clock_is_encoded_total(&self)
        requires
            self.wf(),
        ensures
            self.video_time().eq_r(rat_sum(self.video_encoded())),
    {
    }

    /// Only produce a segment when both queues hold more than one element:
    /// the one-element lookahead per track that guarantees the front of a
    /// queue can never later be overtaken.  Of the two fronts the smaller
    /// decode timestamp is popped; audio wins an exact tie.
    pub fn recv_segment(&mut self) -> (r: Option<StreamSegment>)
        requires
            old(self).wf(),
        ensures
            final(self).wf(),
            final(self).audio_time() == old(self).audio_time(),
            final(self).video_time() == old(self).video_time(),
            final(self).audio_frame_count() == old(self).audio_frame_count(),
            final(self).video_encoded() == old(self).video_encoded(),
            final(self).audio_rate() == old(self).audio_rate(),
            final(self).video_time_base() == old(self).video_time_base(),
            final(self).video_width() == old(self).video_width(),
            final(self).video_height() == old(self).video_height(),
            final(self).audio_buffered() == old(self).audio_buffered(),
            final(self).audio_granule_mismatches() == old(self).audio_granule_mismatches(),
            final(self).video_parameter_sets() == old(self).video_parameter_sets(),
            (old(self).audio_q().len() <= 1 || old(self).video_q().len() <= 1) ==> (r is None)
                && final(self).audio_q() == old(self).audio_q()
                && final(self).video_q() == old(self).video_q()
                && final(self).emitted_dts() == old(self).emitted_dts(),
            (old(self).audio_q().len() > 1 && old(self).video_q().len() > 1) ==> {
                let a = old(self).audio_q()[0];
                let v = old(self).video_q()[0];
                if a.decode_timestamp@.le_r(v.decode_timestamp@) {
                    r == Some(StreamSegment::Audio(a))
                        && final(self).audio_q() =~= old(self).audio_q().skip(1)
                        && final(self).video_q() == old(self).video_q()
                        && final(self).emitted_dts() =~= old(self).emitted_dts().push(
                            a.decode_timestamp@)
                } else {
                    r == Some(StreamSegment::Video(v))
                        && final(self).video_q() =~= old(self).video_q().skip(1)
                        && final(self).audio_q() == old(self).audio_q()
                        && final(self).emitted_dts() =~= old(self).emitted_dts().push(
                            v.decode_timestamp@)
                }
            },
    {
        if self.audio_segments.len() <= 1 || self.video_segments.len() <= 1 {
            return None;
        }

        let ghost a0 = self.audio_segments@[0].decode_timestamp@;
        let ghost v0 = self.video_segments@[0].decode_timestamp@;
        let audio_first = self.audio_segments[0].decode_timestamp.at_or_before(
            &self.video_segments[0].decode_timestamp);

        if audio_first {
            let seg = self.audio_segments.pop_front().unwrap();
            proof {
                self.emitted@ = self.emitted@.push(a0);
                if old(self).emitted@.len() > 0 {
                    assert(old(self).emitted@.last().le_r(a0));
                }
                lemma_sorted_push(old(self).emitted@, a0);
                // the new audio front and the untouched video front are
                // both at or after what was just emitted
                assert(old(self).audio_segments@[0].decode_timestamp@.le_r(
                    old(self).audio_segments@[1].decode_timestamp@));
            }
            Some(StreamSegment::Audio(seg))
        } else {
            let seg = self.video_segments.pop_front().unwrap();
            proof {
                self.emitted@ = self.emitted@.push(v0);
                if old(self).emitted@.len() > 0 {
                    assert(old(self).emitted@.last().le_r(v0));
                }
                lemma_sorted_push(old(self).emitted@, v0);
                assert(old(self).video_segments@[0].decode_timestamp.ticks
                    <= old(self).video_segments@[1].decode_timestamp.ticks);
                lemma_same_base_le(old(self).video_segments@[0].decode_timestamp@,
                    old(self).video_segments@[1].decode_timestamp@);
            }
            Some(StreamSegment::Video(seg))
        }
    }
}

} // verus!
