//! Video encode context.
//!
//! Wraps a block-based H.264 encoder (the `openh264` crate, behind trusted
//! wrappers), keeps a pre-built blank picture for gap filling, and queues
//! the packets the encoder emits.  The profile-to-settings mapping, the
//! blank-frame synthesis, the packet timestamps and the queue itself are
//! verified; only the raw encode call is trusted.

use vstd::prelude::*;
use std::collections::VecDeque;
use openh264::encoder::{
    BitRate, Complexity, EncoderConfig, IntraFramePeriod, RateControlMode, UsageType,
};
use crate::time::MediaDuration;
use crate::stream::EncodeError;

verus! {

/// Construction-time video configuration, immutable for the context's
/// lifetime.
#[derive(Clone, Copy, Debug)]
pub struct VideoParams {
    pub width: usize,
    pub height: usize,
    pub time_base: usize,
    pub pixel_format: PixelFormat,
    pub profile: Profile,
}

/// A named bundle of encoder speed/quality/latency settings.
#[derive(Clone, Copy, Debug, PartialEq, Eq, Structural)]
pub enum Profile {
    /// Fast, low-latency monitoring: quality-target rate control and a key
    /// frame on every picture.
    Monitor,
    /// Slower, higher-compression broadcast: constant bit rate, with key
    /// frame cadence left to the encoder.
    Stream,
}

#[derive(Clone, Copy, Debug, PartialEq, Eq, Structural)]
pub enum PixelFormat {
    /// Planar 4:2:0: a full-resolution luma plane and two quarter-size
    /// chroma planes.  Dimensions must be even.
    Yuv420p,
}

/// Rate control chosen by a profile.
#[derive(Clone, Copy, Debug, PartialEq, Eq, Structural)]
pub enum RateControl {
    /// Target a constant quality and let the bit rate float.
    Quality,
    /// Target a constant bit rate, in bits per second.
    ConstantBitRate(u32),
}

/// Encoder speed/quality trade-off chosen by a profile.
#[derive(Clone, Copy, Debug, PartialEq, Eq, Structural)]
pub enum SpeedPreset {
    Fast,
    Slow,
}

/// The concrete encoder settings a [`Profile`] stands for.  A key frame
/// interval of zero leaves key frame placement to the encoder.
#[derive(Clone, Copy, Debug, PartialEq, Eq, Structural)]
pub struct EncoderSettings {
    pub rate_control: RateControl,
    pub speed: SpeedPreset,
    pub key_frame_interval: u32,
}

/// Bits per second targeted by the broadcast profile.
pub const STREAM_BIT_RATE: u32 = 1_500_000;

impl Profile {
    /// The settings bundle this profile selects — one coherent choice, not
    /// independently tunable knobs.
    pub fn encoder_settings(&self) -> (r: EncoderSettings)
        ensures
            self is Monitor ==> r == (EncoderSettings {
                rate_control: RateControl::Quality,
                speed: SpeedPreset::Fast,
                key_frame_interval: 1u32,
            }),
            self is Stream ==> r == (EncoderSettings {
                rate_control: RateControl::ConstantBitRate(STREAM_BIT_RATE),
                speed: SpeedPreset::Slow,
                key_frame_interval: 0u32,
            }),
    {
        match self {
            Profile::Monitor => EncoderSettings {
                rate_control: RateControl::Quality,
                speed: SpeedPreset::Fast,
                key_frame_interval: 1,
            },
            Profile::Stream => EncoderSettings {
                rate_control: RateControl::ConstantBitRate(STREAM_BIT_RATE),
                speed: SpeedPreset::Slow,
                key_frame_interval: 0,
            },
        }
    }
}

/// A raw planar 4:2:0 picture, with the presentation timestamp (in the
/// encoder's time base) it will be submitted under.
#[derive(Clone, Debug)]
pub struct VideoFrame {
    pub width: usize,
    pub height: usize,
    pub y: Vec<u8>,
    pub u: Vec<u8>,
    pub v: Vec<u8>,
    pub presentation_timestamp: i64,
    pub force_key_frame: bool,
}

impl VideoFrame {
    /// The planes hold exactly one `w` by `h` picture in planar 4:2:0.
    pub open spec fn wf_for(self, w: int, h: int) -> bool {
        &&& self.width == w
        &&& self.height == h
        &&& self.y@.len() == w * h
        &&& self.u@.len() == (w / 2) * (h / 2)
        &&& self.v@.len() == (w / 2) * (h / 2)
    }
}

/// One encoded access unit as drained from the encoder: decode and
/// presentation timestamps in the encoder's time base, key-frame flag, and
/// the encoded bytes.
#[derive(Clone, Debug)]
pub struct VideoPacket {
    pub decode_timestamp: i64,
    pub presentation_timestamp: i64,
    pub is_key_frame: bool,
    pub data: Vec<u8>,
}

/// One encoded video access unit as handed to the muxer: whether it can be
/// decoded without reference to prior packets, the offset between its
/// presentation and decode times (non-zero only when the encoder reorders
/// frames), and the encoded bytes.
#[derive(Clone, Debug)]
pub struct AvcFrame {
    pub is_key_frame: bool,
    pub composition_time: MediaDuration,
    pub data: Vec<u8>,
}

/// The out-of-band video decoder configuration the muxer must emit before
/// the first video segment: picture dimensions, the encoder time base, and
/// the parameter-set NAL units captured from the first encoded key frame
/// (empty until one has been encoded).
#[derive(Clone, Debug)]
pub struct DecoderConfigurationRecord {
    pub width: usize,
    pub height: usize,
    pub time_base: i64,
    pub parameter_sets: Vec<Vec<u8>>,
}

#[verifier::external_type_specification]
#[verifier::external_body]
pub struct ExH264Encoder(openh264::encoder::Encoder);

#[verifier::external_type_specification]
#[verifier::external_body]
pub struct ExH264Error(openh264::Error);

/// Relies on openh264's `Encoder::with_api_config`: builds an encoder for
/// the given settings, frame skipping disabled so every submitted picture
/// yields output.
#[verifier::external_body]
fn h264_encoder_new(s: &EncoderSettings) -> (r: Result<openh264::encoder::Encoder, openh264::Error>)
{
    let mut config = EncoderConfig::new()
        .skip_frames(false)
        .intra_frame_period(IntraFramePeriod::from_num_frames(s.key_frame_interval))
        .usage_type(UsageType::CameraVideoRealTime)
        .complexity(match s.speed { SpeedPreset::Fast => Complexity::Low, SpeedPreset::Slow => Complexity::High });
    config = match s.rate_control {
        RateControl::Quality => config.rate_control_mode(RateControlMode::Quality),
        RateControl::ConstantBitRate(b) => config.rate_control_mode(RateControlMode::Bitrate).bitrate(BitRate::from_bps(b)),
    };
    openh264::encoder::Encoder::with_api_config(openh264::OpenH264API::from_source(), config)
}

/// Relies on openh264's `Encoder::encode`: submits one planar 4:2:0
/// picture and returns the encoded access unit's bytes — empty when the
/// encoder emitted nothing for this picture — and whether it is a key
/// frame (an IDR or I picture).
#[verifier::external_body]
fn h264_encode(
    codec: &mut openh264::encoder::Encoder,
    y: &Vec<u8>,
    u: &Vec<u8>,
    v: &Vec<u8>,
    width: usize,
    height: usize,
    chroma_stride: usize,
) -> (r: Result<(Vec<u8>, bool), openh264::Error>)
    requires
        width % 2 == 0,
        height % 2 == 0,
        chroma_stride == width / 2,
        y@.len() == width * height,
        u@.len() == chroma_stride * (height / 2),
        v@.len() == chroma_stride * (height / 2),
{
    let picture = openh264::formats::YUVSlices::new(
        (&y[..], &u[..], &v[..]),
        (width, height),
        (width, chroma_stride, chroma_stride),
    );
    let bitstream = codec.encode(&picture)?;
    let key = matches!(
        bitstream.frame_type(),
        openh264::encoder::FrameType::IDR | openh264::encoder::FrameType::I
    );
    Ok((bitstream.to_vec(), key))
}

/// Video encode context: the codec handle, the reusable blank picture, the
/// encoder time base, and the FIFO of packets drained from the encoder.
pub struct VideoCtx {
    codec: openh264::encoder::Encoder,
    blank: VideoFrame,
    time_base: i64,
    width: usize,
    height: usize,
    pending: VecDeque<VideoPacket>,
    parameter_sets: Vec<Vec<u8>>,
}

impl VideoCtx {
    pub closed spec fn wf(self) -> bool {
        &&& self.time_base >= 1
        &&& self.width >= 2
        &&& self.height >= 2
        &&& self.width % 2 == 0
        &&& self.height % 2 == 0
        &&& self.width * self.height <= usize::MAX
        &&& self.blank.wf_for(self.width as int, self.height as int)
        &&& self.blank.presentation_timestamp == 0
        &&& !self.blank.force_key_frame
        &&& forall|i: int| 0 <= i < self.blank.y@.len() ==> self.blank.y@[i] == BLANK_LUMA
        &&& forall|i: int| 0 <= i < self.blank.u@.len() ==> self.blank.u@[i] == BLANK_CHROMA
        &&& forall|i: int| 0 <= i < self.blank.v@.len() ==> self.blank.v@[i] == BLANK_CHROMA
        &&& forall|k: int| 0 <= k < self.parameter_sets@.len()
            ==> (#[trigger] self.parameter_sets@[k])@.len() > 0
                && ((self.parameter_sets@[k]@[0] & 0x1f) == NAL_SEQUENCE_PARAMETER_SET
                    || (self.parameter_sets@[k]@[0] & 0x1f) == NAL_PICTURE_PARAMETER_SET)
    }

    /// The parameter-set NAL units captured from the first encoded key
    /// frame, in bitstream order.
    pub closed spec fn parameter_sets(self) -> Seq<Vec<u8>> {
        self.parameter_sets@
    }

    /// The encoder's native time base, in ticks per second.
    pub closed spec fn time_base(self) -> int {
        self.time_base as int
    }

    pub closed spec fn width(self) -> int {
        self.width as int
    }

    pub closed spec fn height(self) -> int {
        self.height as int
    }

    /// The packets drained from the encoder and not yet taken, oldest
    /// first.
    pub closed spec fn pending(self) -> Seq<VideoPacket> {
        self.pending@
    }

    /// The encoder's exec time base, for rounding instants into it.
    pub fn time_base_i64(&self) -> (r: i64)
        requires
            self.wf(),
        ensures
            r as int == self.time_base(),
            r >= 1,
    {
        self.time_base
    }

    /// Builds the context.  Zero, odd, or overflowing picture dimensions
    /// and a zero or unrepresentable time base are configuration errors;
    /// whatever the codec itself rejects surfaces as one too.
    pub fn new(params: VideoParams) -> (r: Result<VideoCtx, EncodeError>)
        ensures
            (r matches Ok(c) ==> c.wf()
                && c.time_base() == params.time_base as int
                && c.width() == params.width as int
                && c.height() == params.height as int
                && c.pending() =~= Seq::<VideoPacket>::empty()
                && c.parameter_sets() =~= Seq::<Vec<u8>>::empty()),
            (r matches Err(e) ==> e == EncodeError::Config),
            (params.width < 2 || params.height < 2 || params.width % 2 != 0
                || params.height % 2 != 0 || params.time_base == 0
                || params.time_base > i64::MAX as usize
                || params.width * params.height > usize::MAX) ==> (r is Err),
    {
        match params.pixel_format {
            PixelFormat::Yuv420p => {}
        }
        if params.width < 2 || params.height < 2 || params.width % 2 != 0
            || params.height % 2 != 0 || params.time_base == 0
            || params.time_base > i64::MAX as usize
        {
            return Err(EncodeError::Config);
        }
        let luma_len = match params.width.checked_mul(params.height) {
            Some(n) => n,
            None => {
                return Err(EncodeError::Config);
            }
        };
        proof {
            let w = params.width as int;
            let h = params.height as int;
            let a = w / 2;
            let b = h / 2;
            assert(a * b <= w * h) by (nonlinear_arith)
                requires
                    0 <= a <= w,
                    0 <= b <= h,
            ;
        }
        let chroma_len = (params.width / 2) * (params.height / 2);
        let blank = VideoFrame {
            width: params.width,
            height: params.height,
            y: filled_plane(luma_len, BLANK_LUMA),
            u: filled_plane(chroma_len, BLANK_CHROMA),
            v: filled_plane(chroma_len, BLANK_CHROMA),
            presentation_timestamp: 0,
            force_key_frame: false,
        };
        proof {
            assert((params.width / 2) * (params.height / 2)
                == (params.width as int / 2) * (params.height as int / 2));
        }
        let settings = params.profile.encoder_settings();
        match h264_encoder_new(&settings) {
            Ok(codec) => Ok(VideoCtx {
                codec,
                blank,
                time_base: params.time_base as i64,
                width: params.width,
                height: params.height,
                pending: VecDeque::new(),
                parameter_sets: Vec::new(),
            }),
            Err(_) => Err(EncodeError::Config),
        }
    }

    /// The reusable blank (black) picture of the configured size and
    /// format, used to fill timing gaps.
    pub fn blank_frame(&self) -> (r: VideoFrame)
        requires
            self.wf(),
        ensures
            r.wf_for(self.width(), self.height()),
            r.presentation_timestamp == 0,
            !r.force_key_frame,
            forall|i: int| 0 <= i < r.y@.len() ==> r.y@[i] == BLANK_LUMA,
            forall|i: int| 0 <= i < r.u@.len() ==> r.u@[i] == BLANK_CHROMA,
            forall|i: int| 0 <= i < r.v@.len() ==> r.v@[i] == BLANK_CHROMA,
    {
        VideoFrame {
            width: self.blank.width,
            height: self.blank.height,
            y: copy_plane(&self.blank.y),
            u: copy_plane(&self.blank.u),
            v: copy_plane(&self.blank.v),
            presentation_timestamp: self.blank.presentation_timestamp,
            force_key_frame: self.blank.force_key_frame,
        }
    }

    /// The out-of-band decoder configuration for this context.
    pub fn decoder_configuration_record(&self) -> (r: DecoderConfigurationRecord)
        requires
            self.wf(),
        ensures
            r.width as int == self.width(),
            r.height as int == self.height(),
            r.time_base as int == self.time_base(),
            r.parameter_sets@.len() == self.parameter_sets().len(),
            forall|k: int| 0 <= k < r.parameter_sets@.len()
                ==> (#[trigger] r.parameter_sets@[k])@ == self.parameter_sets()[k]@,
    {
        let mut sets: Vec<Vec<u8>> = Vec::new();
        let mut k: usize = 0;
        while k < self.parameter_sets.len()
            invariant
                k <= self.parameter_sets@.len(),
                sets@.len() == k,
                forall|m: int| 0 <= m < k
                    ==> (#[trigger] sets@[m])@ == self.parameter_sets@[m]@,
            decreases self.parameter_sets@.len() - k,
        {
            let unit = copy_plane(&self.parameter_sets[k]);
            sets.push(unit);
            k += 1;
        }
        DecoderConfigurationRecord {
            width: self.width,
            height: self.height,
            time_base: self.time_base,
            parameter_sets: sets,
        }
    }

    /// Submits one picture.  Any externally imposed key-frame hint is
    /// cleared first: key frame placement belongs to the encoder.  When
    /// the encoder emits an access unit for it, the packet joins the
    /// pending queue stamped with the frame's presentation timestamp as
    /// both decode and presentation time (this encoder does not reorder).
    pub fn send_frame(&mut self, frame: VideoFrame) -> (r: Result<(), EncodeError>)
        requires
            old(self).wf(),
            frame.wf_for(old(self).width(), old(self).height()),
        ensures
            final(self).wf(),
            final(self).time_base() == old(self).time_base(),
            final(self).width() == old(self).width(),
            final(self).height() == old(self).height(),
            (r matches Ok(u) ==> {
                ||| final(self).pending() =~= old(self).pending()
                ||| (final(self).pending().len() == old(self).pending().len() + 1
                    && final(self).pending().drop_last() =~= old(self).pending()
                    && final(self).pending().last().decode_timestamp
                        == frame.presentation_timestamp
                    && final(self).pending().last().presentation_timestamp
                        == frame.presentation_timestamp)
            }),
            (r matches Err(e) ==> e == EncodeError::VideoEncoder
                && final(self).pending() =~= old(self).pending()),
            final(self).parameter_sets() == old(self).parameter_sets()
                || old(self).parameter_sets().len() == 0,
    {
        let mut frame = frame;
        frame.force_key_frame = false;
        let width = self.width;
        let height = self.height;
        let chroma_stride = width / 2;
        match h264_encode(&mut self.codec, &frame.y, &frame.u, &frame.v, width, height,
            chroma_stride) {
            Ok(unit) => {
                if self.parameter_sets.len() == 0 {
                    let found = parameter_set_units(&unit.0);
                    if found.len() > 0 {
                        self.parameter_sets = found;
                    }
                }
                if unit.0.len() > 0 {
                    self.pending.push_back(VideoPacket {
                        decode_timestamp: frame.presentation_timestamp,
                        presentation_timestamp: frame.presentation_timestamp,
                        is_key_frame: unit.1,
                        data: unit.0,
                    });
                    proof {
                        assert(self.pending@.drop_last() =~= old(self).pending@);
                    }
                }
                Ok(())
            }
            Err(_) => Err(EncodeError::VideoEncoder),
        }
    }

    /// Drains one packet if the encoder has output ready; `None` is the
    /// "needs more input" condition, not an error.
    pub fn recv_packet(&mut self) -> (r: Option<VideoPacket>)
        requires
            old(self).wf(),
        ensures
            final(self).wf(),
            final(self).time_base() == old(self).time_base(),
            final(self).width() == old(self).width(),
            final(self).height() == old(self).height(),
            (r matches Some(p) ==> old(self).pending().len() > 0
                && p == old(self).pending()[0]
                && final(self).pending() =~= old(self).pending().skip(1)),
            (r is None ==> old(self).pending().len() == 0
                && final(self).pending() =~= old(self).pending()),
    {
        self.pending.pop_front()
    }
}

/// Luma byte of a black picture.
pub const BLANK_LUMA: u8 = 16;

/// Chroma byte of a neutral (grey-free) picture.
pub const BLANK_CHROMA: u8 = 128;

/// An H.264 NAL unit header whose low five bits read 7: a sequence
/// parameter set.
pub const NAL_SEQUENCE_PARAMETER_SET: u8 = 7;

/// An H.264 NAL unit header whose low five bits read 8: a picture
/// parameter set.
pub const NAL_PICTURE_PARAMETER_SET: u8 = 8;

/// Is an Annex-B start code (`00 00 01`) at position `i` of `data`?
pub open spec fn start_code_at(data: Seq<u8>, i: int) -> bool {
    &&& 0 <= i
    &&& i + 3 <= data.len()
    &&& data[i] == 0
    &&& data[i + 1] == 0
    &&& data[i + 2] == 1
}

/// The positions just after each start code at or beyond `i`, in order.
/// A start code cannot overlap another (no proper prefix of `00 00 01` is
/// also a suffix of it), so skipping three bytes past a match loses none.
pub open spec fn start_points_from(data: Seq<u8>, i: int) -> Seq<int>
    decreases data.len() - i
    when 0 <= i <= data.len()
{
    if i + 3 > data.len() {
        Seq::empty()
    } else if start_code_at(data, i) {
        seq![i + 3] + start_points_from(data, i + 3)
    } else {
        start_points_from(data, i + 1)
    }
}

/// The end of a unit spanning `[s, e)` once trailing zero bytes are
/// stripped (they belong to a four-byte start code or to padding).
pub open spec fn strip_zeros(data: Seq<u8>, s: int, e: int) -> int
    decreases e - s
    when s <= e
{
    if e > s && data[e - 1] == 0 {
        strip_zeros(data, s, e - 1)
    } else {
        e
    }
}

/// The `k`th NAL unit of `data` given its start points: from its start to
/// the next start code — or the end of the data — with trailing zeros
/// stripped.
pub open spec fn nal_unit_at(data: Seq<u8>, sp: Seq<int>, k: int) -> Seq<u8> {
    let s = sp[k];
    let stop = if k + 1 < sp.len() {
        sp[k + 1] - 3
    } else {
        data.len() as int
    };
    let bounded = if stop < s {
        s
    } else {
        stop
    };
    data.subrange(s, strip_zeros(data, s, bounded))
}

/// A sequence or picture parameter set, by its NAL header type.
pub open spec fn is_parameter_set(u: Seq<u8>) -> bool {
    u.len() > 0 && ((u[0] & 0x1f) == NAL_SEQUENCE_PARAMETER_SET
        || (u[0] & 0x1f) == NAL_PICTURE_PARAMETER_SET)
}

/// The parameter-set units among `units`, in order.
pub open spec fn keep_parameter_sets(units: Seq<Seq<u8>>) -> Seq<Seq<u8>>
    decreases units.len(),
{
    if units.len() == 0 {
        Seq::empty()
    } else if is_parameter_set(units.last()) {
        keep_parameter_sets(units.drop_last()).push(units.last())
    } else {
        keep_parameter_sets(units.drop_last())
    }
}

/// The parameter-set NAL units of one Annex-B access unit, in order.
pub open spec fn parameter_sets_of(data: Seq<u8>) -> Seq<Seq<u8>> {
    let sp = start_points_from(data, 0);
    keep_parameter_sets(Seq::new(sp.len(), |k: int| nal_unit_at(data, sp, k)))
}

/// Everything kept by [`keep_parameter_sets`] is a parameter set.
proof fn lemma_kept_are_parameter_sets(units: Seq<Seq<u8>>)
    ensures
        forall|k: int| 0 <= k < keep_parameter_sets(units).len()
            ==> is_parameter_set(#[trigger] keep_parameter_sets(units)[k]),
    decreases units.len(),
{
    if units.len() > 0 {
        lemma_kept_are_parameter_sets(units.drop_last());
        let kd = keep_parameter_sets(units.drop_last());
        let ku = keep_parameter_sets(units);
        assert forall|k: int| 0 <= k < ku.len() implies is_parameter_set(#[trigger] ku[k]) by {
            if is_parameter_set(units.last()) {
                if k < kd.len() {
                    assert(ku[k] == kd[k]);
                } else {
                    assert(ku[k] == units.last());
                }
            } else {
                assert(ku[k] == kd[k]);
            }
        }
    }
}

/// An exact copy of `data[from..to]`.
fn copy_range(data: &Vec<u8>, from: usize, to: usize) -> (r: Vec<u8>)
    requires
        from <= to <= data@.len(),
    ensures
        r@ =~= data@.subrange(from as int, to as int),
{
    let mut v: Vec<u8> = Vec::new();
    let mut i: usize = from;
    while i < to
        invariant
            from <= i <= to <= data@.len(),
            v@ =~= data@.subrange(from as int, i as int),
        decreases to - i,
    {
        let b = data[i];
        v.push(b);
        proof {
            assert(data@.subrange(from as int, i + 1 as int)
                =~= data@.subrange(from as int, i as int).push(data@[i as int]));
        }
        i += 1;
    }
    v
}

/// Scans one Annex-B access unit and returns exactly
/// [`parameter_sets_of`] it: the sequence and picture parameter sets, in
/// bitstream order, start codes and trailing zero bytes stripped.  Inside
/// NAL payloads the encoder's emulation prevention guarantees no start
/// code pattern occurs, so scanning for `00 00 01` finds exactly the unit
/// boundaries.
fn parameter_set_units(data: &Vec<u8>) -> (r: Vec<Vec<u8>>)
    ensures
        r@.len() == parameter_sets_of(data@).len(),
        forall|k: int| 0 <= k < r@.len()
            ==> (#[trigger] r@[k])@ == parameter_sets_of(data@)[k],
        forall|k: int| 0 <= k < r@.len() ==> (#[trigger] r@[k])@.len() > 0
            && ((r@[k]@[0] & 0x1f) == NAL_SEQUENCE_PARAMETER_SET
                || (r@[k]@[0] & 0x1f) == NAL_PICTURE_PARAMETER_SET),
{
    let mut out: Vec<Vec<u8>> = Vec::new();
    let n = data.len();
    if n < 3 {
        proof {
            let sp = start_points_from(data@, 0);
            assert(sp =~= Seq::<int>::empty());
            assert(Seq::new(sp.len(), |k: int| nal_unit_at(data@, sp, k))
                =~= Seq::<Seq<u8>>::empty());
            assert(parameter_sets_of(data@) =~= Seq::<Seq<u8>>::empty());
        }
        return out;
    }

    // positions just after each `00 00 01` start code
    let mut starts: Vec<usize> = Vec::new();
    let ghost mut gs: Seq<int> = Seq::empty();
    let mut i: usize = 0;
    while i < n - 2
        invariant
            3 <= n == data@.len(),
            i <= n,
            gs.len() == starts@.len(),
            forall|k: int| 0 <= k < gs.len() ==> gs[k] == #[trigger] starts@[k] as int,
            forall|k: int| 0 <= k < starts@.len() ==> 3 <= #[trigger] starts@[k] <= i,
            forall|k: int, l: int| 0 <= k <= l < starts@.len()
                ==> #[trigger] starts@[k] <= #[trigger] starts@[l],
            gs + start_points_from(data@, i as int) == start_points_from(data@, 0),
        decreases n - i,
    {
        if data[i] == 0 && data[i + 1] == 0 && data[i + 2] == 1 {
            proof {
                assert(start_code_at(data@, i as int));
                assert(start_points_from(data@, i as int)
                    == seq![i as int + 3] + start_points_from(data@, i as int + 3));
                assert(gs.push(i as int + 3) + start_points_from(data@, i as int + 3)
                    =~= gs + start_points_from(data@, i as int));
                gs = gs.push(i as int + 3);
            }
            starts.push(i + 3);
            i += 3;
        } else {
            proof {
                assert(!start_code_at(data@, i as int));
                assert(start_points_from(data@, i as int)
                    == start_points_from(data@, i as int + 1));
            }
            i += 1;
        }
    }
    proof {
        assert(start_points_from(data@, i as int) =~= Seq::<int>::empty());
        assert(gs =~= start_points_from(data@, 0));
    }
    let ghost units = Seq::new(gs.len(), |m: int| nal_unit_at(data@, gs, m));

    // each unit runs from one start to the next start code (minus its
    // trailing zero prefix) or to the end of the access unit
    let mut k: usize = 0;
    while k < starts.len()
        invariant
            3 <= n == data@.len(),
            k <= starts@.len(),
            gs.len() == starts@.len(),
            forall|m: int| 0 <= m < gs.len() ==> gs[m] == #[trigger] starts@[m] as int,
            forall|m: int| 0 <= m < starts@.len() ==> 3 <= #[trigger] starts@[m] <= n,
            forall|m: int, l: int| 0 <= m <= l < starts@.len()
                ==> #[trigger] starts@[m] <= #[trigger] starts@[l],
            units == Seq::new(gs.len(), |m: int| nal_unit_at(data@, gs, m)),
            out@.len() == keep_parameter_sets(units.subrange(0, k as int)).len(),
            forall|m: int| 0 <= m < out@.len() ==> (#[trigger] out@[m])@
                == keep_parameter_sets(units.subrange(0, k as int))[m],
        decreases starts@.len() - k,
    {
        let ghost prefix = units.subrange(0, k as int);
        let from = starts[k];
        let mut to = if k + 1 < starts.len() {
            starts[k + 1] - 3
        } else {
            n
        };
        if to < from {
            // overlapping start codes cannot delimit a unit
            to = from;
        }
        let ghost bounded = to as int;
        while to > from && data[to - 1] == 0
            invariant
                from <= to <= n == data@.len(),
                bounded <= n,
                strip_zeros(data@, from as int, to as int)
                    == strip_zeros(data@, from as int, bounded),
            decreases to,
        {
            to -= 1;
        }
        proof {
            assert(strip_zeros(data@, from as int, to as int) == to as int);
            assert(units[k as int] == nal_unit_at(data@, gs, k as int));
            assert(units[k as int] == data@.subrange(from as int, to as int));
            assert(units.subrange(0, k as int + 1).drop_last() =~= prefix);
            assert(units.subrange(0, k as int + 1).last() == units[k as int]);
        }
        if to > from {
            let header = data[from];
            let kind = header & 0x1f;
            if kind == NAL_SEQUENCE_PARAMETER_SET || kind == NAL_PICTURE_PARAMETER_SET {
                let unit = copy_range(data, from, to);
                proof {
                    assert(unit@ =~= units[k as int]);
                    assert(unit@[0] == data@[from as int]);
                    assert(is_parameter_set(units[k as int]));
                    assert(keep_parameter_sets(units.subrange(0, k as int + 1))
                        == keep_parameter_sets(prefix).push(units[k as int]));
                }
                out.push(unit);
            } else {
                proof {
                    assert(!is_parameter_set(units[k as int]));
                    assert(keep_parameter_sets(units.subrange(0, k as int + 1))
                        == keep_parameter_sets(prefix));
                }
            }
        } else {
            proof {
                assert(units[k as int].len() == 0);
                assert(!is_parameter_set(units[k as int]));
                assert(keep_parameter_sets(units.subrange(0, k as int + 1))
                    == keep_parameter_sets(prefix));
            }
        }
        k += 1;
    }
    proof {
        assert(units.subrange(0, k as int) =~= units);
        assert(units =~= Seq::new(start_points_from(data@, 0).len(), |m: int| nal_unit_at(
            data@, start_points_from(data@, 0), m)));
        lemma_kept_are_parameter_sets(units);
    }
    out
}

/// A plane of `n` copies of `value`.
fn filled_plane(n: usize, value: u8) -> (r: Vec<u8>)
    ensures
        r@.len() == n,
        forall|i: int| 0 <= i < n ==> r@[i] == value,
{
    let mut v: Vec<u8> = Vec::new();
    let mut i: usize = 0;
    while i < n
        invariant
            i <= n,
            v@.len() == i,
            forall|k: int| 0 <= k < i ==> v@[k] == value,
        decreases n - i,
    {
        v.push(value);
        i += 1;
    }
    v
}

/// An exact copy of a plane.
fn copy_plane(src: &Vec<u8>) -> (r: Vec<u8>)
    ensures
        r@ =~= src@,
{
    let mut v: Vec<u8> = Vec::new();
    let mut i: usize = 0;
    while i < src.len()
        invariant
            i <= src@.len(),
            v@ =~= src@.subrange(0, i as int),
        decreases src@.len() - i,
    {
        let b = src[i];
        v.push(b);
        i += 1;
    }
    v
}

} // verus!
