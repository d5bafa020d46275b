use encode_stream::audio::{AudioCtx, AudioParams, AudioTransport};
use encode_stream::stream::{EncodeError, EncodeStream, StreamSegment};
use encode_stream::time::{MediaDuration, MediaTime};
use encode_stream::video::{
    EncoderSettings, PixelFormat, Profile, RateControl, SpeedPreset, VideoCtx, VideoFrame,
    VideoParams,
};

fn audio_ctx() -> AudioCtx {
    AudioCtx::new(&AudioParams {
        bit_rate: 128_000,
        sample_rate: 44100,
        transport: AudioTransport::Adts,
    })
    .unwrap()
}

fn video_ctx() -> VideoCtx {
    VideoCtx::new(VideoParams {
        width: 64,
        height: 64,
        time_base: 1000,
        pixel_format: PixelFormat::Yuv420p,
        profile: Profile::Monitor,
    })
    .unwrap()
}

fn stream() -> EncodeStream {
    EncodeStream::new(audio_ctx(), video_ctx())
}

fn test_frame() -> VideoFrame {
    VideoFrame {
        width: 64,
        height: 64,
        y: vec![100; 64 * 64],
        u: vec![128; 32 * 32],
        v: vec![128; 32 * 32],
        presentation_timestamp: 0,
        force_key_frame: false,
    }
}

#[test]
fn audio_lookahead_unmet() {
    // Two batches of exactly one granule (2048 interleaved samples) buffer
    // 4096 samples; one frame is completed, and with no video queued,
    // recv_segment must return nothing.
    let mut s = stream();
    let samples = [0i16; 2048];
    s.send_audio(&samples).unwrap();
    assert_eq!(s.audio_queue_len(), 0);
    s.send_audio(&samples).unwrap();
    assert_eq!(s.audio_queue_len(), 1);
    assert_eq!(s.video_queue_len(), 0);
    assert!(s.recv_segment().is_none());
}

#[test]
fn empty_audio_batch_is_buffered_only() {
    let mut s = stream();
    s.send_audio(&[]).unwrap();
    assert_eq!(s.audio_queue_len(), 0);
    let t = s.audio_timestamp();
    assert_eq!(t.ticks(), 0);
}

#[test]
fn audio_clock_is_sum_of_frame_durations() {
    // Each completed frame lasts exactly 1024/44100 s; after two frames
    // the clock reads 2048/44100 s.
    let mut s = stream();
    let samples = [0i16; 2048];
    s.send_audio(&samples).unwrap();
    s.send_audio(&samples).unwrap();
    s.send_audio(&samples).unwrap();
    assert_eq!(s.audio_queue_len(), 2);
    let t = s.audio_timestamp();
    assert_eq!(t.ticks(), 2048);
    assert_eq!(t.base(), 44100);
    // first frame starts at the origin, second one frame later
    assert_eq!(s.audio_segment(0).decode_timestamp.ticks(), 0);
    assert_eq!(s.audio_segment(1).decode_timestamp.ticks(), 1024);
    assert_eq!(s.audio_segment(1).decode_timestamp.base(), 44100);
    assert_eq!(s.audio_segment(0).duration.ticks(), 1024);
    assert_eq!(s.audio_segment(0).duration.base(), 44100);
}

#[test]
fn video_duration_recomputed_from_end() {
    // Frames claim [0,10), [10,20), [25,35) in base 1000 with hint 10 each.
    // Each encoded duration is end - clock, so the gap before the third
    // frame is absorbed into it: 10, 10, 15.
    let mut s = stream();
    let hint = MediaDuration::new(10, 1000);
    s.send_video(MediaTime::new(0, 1000), hint, test_frame()).unwrap();
    s.send_video(MediaTime::new(10, 1000), hint, test_frame()).unwrap();
    s.send_video(MediaTime::new(25, 1000), hint, test_frame()).unwrap();
    assert_eq!(s.video_queue_len(), 3);
    assert_eq!(s.video_segment(0).duration.ticks(), 10);
    assert_eq!(s.video_segment(1).duration.ticks(), 10);
    assert_eq!(s.video_segment(2).duration.ticks(), 15);
    assert_eq!(s.video_segment(0).decode_timestamp.ticks(), 0);
    assert_eq!(s.video_segment(1).decode_timestamp.ticks(), 10);
    assert_eq!(s.video_segment(2).decode_timestamp.ticks(), 20);
    let t = s.video_timestamp();
    assert_eq!(t.ticks(), 35);
    assert_eq!(t.base(), 1000);
}

#[test]
fn late_video_frame_is_dropped() {
    // A frame whose end lies strictly before the clock is a no-op: queue
    // length and clock unchanged.
    let mut s = stream();
    s.send_video(MediaTime::new(0, 1000), MediaDuration::new(20, 1000), test_frame())
        .unwrap();
    assert_eq!(s.video_queue_len(), 1);
    s.send_video(MediaTime::new(5, 1000), MediaDuration::new(10, 1000), test_frame())
        .unwrap();
    assert_eq!(s.video_queue_len(), 1);
    let t = s.video_timestamp();
    assert_eq!(t.ticks(), 20);
    assert_eq!(t.base(), 1000);
}

#[test]
fn barrier_fills_gap_with_one_blank_frame() {
    // With the clock at 40/1000, a barrier at 100/1000 encodes exactly one
    // blank frame covering 60 ticks.
    let mut s = stream();
    s.barrier(MediaTime::new(40, 1000)).unwrap();
    assert_eq!(s.video_queue_len(), 1);
    assert_eq!(s.video_segment(0).duration.ticks(), 40);
    s.barrier(MediaTime::new(100, 1000)).unwrap();
    assert_eq!(s.video_queue_len(), 2);
    assert_eq!(s.video_segment(1).duration.ticks(), 60);
    assert_eq!(s.video_segment(1).decode_timestamp.ticks(), 40);
    let t = s.video_timestamp();
    assert_eq!(t.ticks(), 100);
    assert_eq!(t.base(), 1000);
}

#[test]
fn barrier_at_or_before_clock_is_noop() {
    let mut s = stream();
    s.barrier(MediaTime::new(50, 1000)).unwrap();
    assert_eq!(s.video_queue_len(), 1);
    // exactly at the clock: no-op
    s.barrier(MediaTime::new(50, 1000)).unwrap();
    // strictly before the clock: no-op
    s.barrier(MediaTime::new(10, 1000)).unwrap();
    assert_eq!(s.video_queue_len(), 1);
    let t = s.video_timestamp();
    assert_eq!(t.ticks(), 50);
}

#[test]
fn global_order_with_audio_winning_ties() {
    let mut s = stream();
    // three completed audio frames: decode times 0, 1024/44100, 2048/44100 s
    let samples = [0i16; 2048];
    for _ in 0..4 {
        s.send_audio(&samples).unwrap();
    }
    // two video frames: decode times 0 and 10/1000 s
    let hint = MediaDuration::new(10, 1000);
    s.send_video(MediaTime::new(0, 1000), hint, test_frame()).unwrap();
    s.send_video(MediaTime::new(10, 1000), hint, test_frame()).unwrap();
    assert_eq!(s.audio_queue_len(), 3);
    assert_eq!(s.video_queue_len(), 2);

    // both fronts sit at time zero: audio wins the tie
    match s.recv_segment() {
        Some(StreamSegment::Audio(a)) => {
            assert_eq!(a.decode_timestamp.ticks(), 0);
        }
        other => panic!("expected the audio segment first, got {:?}", other.is_some()),
    }
    // audio front is now ~23.2 ms, video front 10 ms: video is earlier
    match s.recv_segment() {
        Some(StreamSegment::Video(v)) => {
            assert_eq!(v.decode_timestamp.ticks(), 0);
        }
        other => panic!("expected the video segment next, got {:?}", other.is_some()),
    }
    // the video queue is down to one element: lookahead unmet
    assert!(s.recv_segment().is_none());
}

#[test]
fn audio_configuration_error_on_bad_rate() {
    let r = AudioCtx::new(&AudioParams {
        bit_rate: 128_000,
        sample_rate: 0,
        transport: AudioTransport::Raw,
    });
    assert_eq!(r.err().unwrap(), EncodeError::Config);
}

#[test]
fn video_configuration_error_on_bad_params() {
    let r = VideoCtx::new(VideoParams {
        width: 63,
        height: 64,
        time_base: 1000,
        pixel_format: PixelFormat::Yuv420p,
        profile: Profile::Monitor,
    });
    assert_eq!(r.err().unwrap(), EncodeError::Config);
    let r = VideoCtx::new(VideoParams {
        width: 64,
        height: 64,
        time_base: 0,
        pixel_format: PixelFormat::Yuv420p,
        profile: Profile::Stream,
    });
    assert_eq!(r.err().unwrap(), EncodeError::Config);
}

#[test]
fn timestamp_overflow_is_a_structured_error() {
    let mut s = stream();
    let r = s.send_video(MediaTime::new(i64::MAX, 1), MediaDuration::new(1, 1), test_frame());
    assert_eq!(r.err().unwrap(), EncodeError::TimeOutOfRange);
}

#[test]
fn out_of_band_configuration_is_available() {
    let s = stream();
    let conf = s.audio_configuration_data().unwrap();
    assert!(!conf.is_empty());
    assert!(conf.len() <= 64);
    let dcr = s.video_decoder_configuration_record();
    assert_eq!(dcr.width, 64);
    assert_eq!(dcr.height, 64);
    assert_eq!(dcr.time_base, 1000);
}

#[test]
fn profiles_select_coherent_setting_bundles() {
    let m = Profile::Monitor.encoder_settings();
    assert_eq!(
        m,
        EncoderSettings {
            rate_control: RateControl::Quality,
            speed: SpeedPreset::Fast,
            key_frame_interval: 1,
        }
    );
    let st = Profile::Stream.encoder_settings();
    assert_eq!(
        st,
        EncoderSettings {
            rate_control: RateControl::ConstantBitRate(1_500_000),
            speed: SpeedPreset::Slow,
            key_frame_interval: 0,
        }
    );
}

#[test]
fn parameter_sets_are_captured_from_first_key_frame() {
    let mut s = stream();
    let dcr = s.video_decoder_configuration_record();
    assert!(dcr.parameter_sets.is_empty());
    s.barrier(MediaTime::new(20, 1000)).unwrap();
    let dcr = s.video_decoder_configuration_record();
    // the first key frame carries at least one sequence and one picture
    // parameter set
    assert!(dcr.parameter_sets.len() >= 2);
    assert_eq!(dcr.parameter_sets[0][0] & 0x1f, 7);
    assert!(dcr.parameter_sets.iter().any(|u| u[0] & 0x1f == 8));
}

#[test]
fn codec_consumes_whole_granules() {
    let mut ctx = audio_ctx();
    assert_eq!(ctx.granule_mismatch_count(), 0);
    let s = EncodeStream::new(ctx, video_ctx());
    let mut s = s;
    let samples = [0i16; 2048];
    s.send_audio(&samples).unwrap();
    s.send_audio(&samples).unwrap();
    assert_eq!(s.audio_queue_len(), 1);
}

#[test]
fn broadcast_profile_encodes_too() {
    let vctx = VideoCtx::new(VideoParams {
        width: 64,
        height: 64,
        time_base: 1000,
        pixel_format: PixelFormat::Yuv420p,
        profile: Profile::Stream,
    })
    .unwrap();
    let mut s = EncodeStream::new(audio_ctx(), vctx);
    s.send_video(MediaTime::new(0, 1000), MediaDuration::new(20, 1000), test_frame())
        .unwrap();
    assert_eq!(s.video_queue_len(), 1);
    assert!(s.video_segment(0).frame.is_key_frame);
}
