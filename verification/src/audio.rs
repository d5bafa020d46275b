//! Audio encode context.
//!
//! Buffers raw stereo PCM samples (interleaved, 16-bit signed — callers
//! convert and clip their floating-point samples before handing them in)
//! and emits one fixed-size AAC access unit whenever more than one full
//! granule is buffered.  The AAC codec itself comes from the `fdk-aac`
//! crate and stands behind trusted wrappers; everything around it — the
//! FIFO buffering, the granule arithmetic, the exact frame duration — is
//! verified.

use vstd::prelude::*;
use crate::time::{MediaDuration, Rat};
use crate::stream::EncodeError;

verus! {

/// Samples per channel consumed by one encoded AAC frame.  This must match
/// the encoder's native granule size.
pub const SAMPLES_PER_CHANNEL_PER_FRAGMENT: usize = 1024;

pub const AUDIO_CHANNELS: usize = 2;

/// Interleaved samples consumed by one encoded frame.
pub const AUDIO_FRAME_SAMPLE_COUNT: usize = AUDIO_CHANNELS * SAMPLES_PER_CHANNEL_PER_FRAGMENT;

/// Transport framing of the encoded AAC stream.
#[derive(Clone, Copy, Debug, PartialEq, Eq, Structural)]
pub enum AudioTransport {
    Adts,
    Raw,
}

/// Construction-time audio configuration, immutable for the context's
/// lifetime: constant bit rate in bits per second, sample rate in Hz, and
/// transport framing.
#[derive(Clone, Copy, Debug)]
pub struct AudioParams {
    pub bit_rate: u32,
    pub sample_rate: usize,
    pub transport: AudioTransport,
}

#[verifier::external_type_specification]
#[verifier::external_body]
pub struct ExAacEncoder(fdk_aac::enc::Encoder);

#[verifier::external_type_specification]
#[verifier::external_body]
pub struct ExAacEncoderError(fdk_aac::enc::EncoderError);

/// Relies on fdk-aac's `Encoder::new`: builds a stereo AAC-LC encoder for
/// the given constant bit rate, sample rate and transport, or reports a
/// configuration error.
#[verifier::external_body]
fn aac_encoder_new(bit_rate: u32, sample_rate: u32, transport: &AudioTransport)
    -> (r: Result<fdk_aac::enc::Encoder, fdk_aac::enc::EncoderError>)
{
    fdk_aac::enc::Encoder::new(fdk_aac::enc::EncoderParams {
        bit_rate: fdk_aac::enc::BitRate::Cbr(bit_rate),
        sample_rate,
        transport: match transport {
            AudioTransport::Adts => fdk_aac::enc::Transport::Adts,
            AudioTransport::Raw => fdk_aac::enc::Transport::Raw,
        },
        channels: fdk_aac::enc::ChannelMode::Stereo,
        audio_object_type: fdk_aac::enc::AudioObjectType::Mpeg4LowComplexity,
    })
}

/// Relies on fdk-aac's `Encoder::encode`: encodes the first `n` samples of
/// `input` into one access unit.  The library reports how many input
/// samples it consumed — never more than it was given — and returns the
/// valid prefix of its output buffer.
#[verifier::external_body]
fn aac_encode(codec: &fdk_aac::enc::Encoder, input: &Vec<i16>, n: usize)
    -> (r: Result<(usize, Vec<u8>), fdk_aac::enc::EncoderError>)
    requires
        n <= input@.len(),
    ensures
        (r matches Ok(p) ==> p.0 <= n),
{
    let mut buf = [0u8; 4096];
    let info = codec.encode(&input[0..n], &mut buf)?;
    Ok((info.input_consumed, buf[0..info.output_size].to_vec()))
}

/// Relies on fdk-aac's `Encoder::info`: the out-of-band audio decoder
/// configuration blob, at most the 64 bytes of the info struct's buffer.
#[verifier::external_body]
fn aac_configuration(codec: &fdk_aac::enc::Encoder)
    -> (r: Result<Vec<u8>, fdk_aac::enc::EncoderError>)
    ensures
        (r matches Ok(b) ==> b@.len() <= 64),
{
    let info = codec.info()?;
    Ok(info.confBuf[0..info.confSize as usize].to_vec())
}

/// Audio encode context: the AAC codec handle, the FIFO of samples not yet
/// encoded, and the configured sample rate.
pub struct AudioCtx {
    codec: fdk_aac::enc::Encoder,
    pcm_buff: Vec<i16>,
    sample_rate: i64,
    granule_mismatches: u64,
}

impl AudioCtx {
    pub closed spec fn wf(self) -> bool {
        1 <= self.sample_rate
    }

    /// The configured sample rate in Hz.
    pub closed spec fn rate(self) -> int {
        self.sample_rate as int
    }

    /// The samples buffered and not yet encoded, oldest first.
    pub closed spec fn buffered(self) -> Seq<i16> {
        self.pcm_buff@
    }

    /// How many times the codec consumed a number of samples other than
    /// the granule it was given (a diagnosable, non-fatal inconsistency).
    pub closed spec fn mismatches(self) -> int {
        self.granule_mismatches as int
    }

    /// The exact duration of one encoded frame:
    /// `SAMPLES_PER_CHANNEL_PER_FRAGMENT / sample_rate` seconds.
    pub open spec fn frame_duration(self) -> Rat {
        Rat { num: SAMPLES_PER_CHANNEL_PER_FRAGMENT as int, den: self.rate() }
    }

    /// How many times the codec consumed a number of samples other than
    /// the granule it was given, for diagnosis.
    pub fn granule_mismatch_count(&self) -> (r: u64)
        ensures
            r as int == self.mismatches(),
    {
        self.granule_mismatches
    }

    /// Builds the context.  A sample rate of zero, or one too large for the
    /// codec's 32-bit parameter, is a configuration error; whatever the
    /// codec itself rejects surfaces as one too.
    pub fn new(params: &AudioParams) -> (r: Result<AudioCtx, EncodeError>)
        ensures
            (r matches Ok(c) ==> c.wf() && c.rate() == params.sample_rate as int
                && c.buffered() =~= Seq::<i16>::empty() && c.mismatches() == 0),
            (r matches Err(e) ==> e == EncodeError::Config),
            (params.sample_rate == 0 || params.sample_rate > u32::MAX as usize)
                ==> (r is Err),
    {
        if params.sample_rate == 0 || params.sample_rate > u32::MAX as usize {
            return Err(EncodeError::Config);
        }
        let sample_rate: u32 = params.sample_rate as u32;
        match aac_encoder_new(params.bit_rate, sample_rate, &params.transport) {
            Ok(codec) => Ok(AudioCtx {
                codec,
                pcm_buff: Vec::new(),
                sample_rate: sample_rate as i64,
                granule_mismatches: 0,
            }),
            Err(_) => Err(EncodeError::Config),
        }
    }

    /// The out-of-band decoder configuration required before any audio
    /// segment can be interpreted.
    pub fn configuration_data(&self) -> (r: Result<Vec<u8>, EncodeError>)
        ensures
            (r matches Ok(b) ==> b@.len() <= 64),
            (r matches Err(e) ==> e == EncodeError::AudioEncoder),
    {
        match aac_configuration(&self.codec) {
            Ok(b) => Ok(b),
            Err(_) => Err(EncodeError::AudioEncoder),
        }
    }

    /// Appends `samples` to the FIFO; when the FIFO then holds more than
    /// one full granule, encodes exactly one granule, drops it from the
    /// front, and returns the frame with its exact duration.
    pub(crate) fn send_audio(&mut self, samples: &[i16])
        -> (r: Result<Option<(MediaDuration, Vec<u8>)>, EncodeError>)
        requires
            old(self).wf(),
        ensures
            final(self).wf(),
            final(self).rate() == old(self).rate(),
            final(self).mismatches() >= old(self).mismatches(),
            // a batch that leaves at most one granule buffered makes no
            // codec call: success is owed
            old(self).buffered().len() + samples@.len() <= AUDIO_FRAME_SAMPLE_COUNT
                ==> (r matches Ok(o) && o is None),
            (match r {
                Ok(out) => match out {
                    None => final(self).buffered() =~= old(self).buffered() + samples@
                        && old(self).buffered().len() + samples@.len()
                            <= AUDIO_FRAME_SAMPLE_COUNT
                        && final(self).mismatches() == old(self).mismatches(),
                    Some(p) => old(self).buffered().len() + samples@.len()
                            > AUDIO_FRAME_SAMPLE_COUNT
                        && final(self).buffered() =~= (old(self).buffered() + samples@)
                            .skip(AUDIO_FRAME_SAMPLE_COUNT as int)
                        && p.0@ == old(self).frame_duration()
                        && p.0@.wf()
                        && p.0@.num > 0,
                },
                Err(e) => e == EncodeError::AudioEncoder
                    && final(self).buffered() =~= old(self).buffered() + samples@
                    && final(self).mismatches() == old(self).mismatches(),
            }),
    {
        let ghost old_buff = self.pcm_buff@;
        let mut i: usize = 0;
        while i < samples.len()
            invariant
                i <= samples@.len(),
                self.pcm_buff@ == old_buff + samples@.subrange(0, i as int),
                self.sample_rate == old(self).sample_rate,
                self.granule_mismatches == old(self).granule_mismatches,
            decreases samples@.len() - i,
        {
            self.pcm_buff.push(samples[i]);
            proof {
                assert(samples@.subrange(0, i + 1 as int)
                    =~= samples@.subrange(0, i as int).push(samples@[i as int]));
            }
            i += 1;
        }
        proof {
            assert(samples@.subrange(0, samples@.len() as int) =~= samples@);
        }

        if self.pcm_buff.len() > AUDIO_FRAME_SAMPLE_COUNT {
            let encoded = match aac_encode(&self.codec, &self.pcm_buff, AUDIO_FRAME_SAMPLE_COUNT) {
                Ok(p) => p,
                Err(_) => {
                    return Err(EncodeError::AudioEncoder);
                }
            };
            if encoded.0 != AUDIO_FRAME_SAMPLE_COUNT {
                // The codec consumed a different amount than its granule:
                // a non-fatal contract inconsistency, counted for diagnosis.
                if self.granule_mismatches < u64::MAX {
                    self.granule_mismatches = self.granule_mismatches + 1;
                }
            }

            let duration = MediaDuration::new(
                SAMPLES_PER_CHANNEL_PER_FRAGMENT as i64,
                self.sample_rate,
            );

            let ghost full = self.pcm_buff@;
            let mut rest: Vec<i16> = Vec::new();
            let mut j: usize = AUDIO_FRAME_SAMPLE_COUNT;
            while j < self.pcm_buff.len()
                invariant
                    AUDIO_FRAME_SAMPLE_COUNT <= j <= self.pcm_buff@.len(),
                    self.pcm_buff@ == full,
                    full.len() > AUDIO_FRAME_SAMPLE_COUNT,
                    rest@ == full.subrange(AUDIO_FRAME_SAMPLE_COUNT as int, j as int),
                decreases self.pcm_buff@.len() - j,
            {
                let s = self.pcm_buff[j];
                rest.push(s);
                proof {
                    assert(full.subrange(AUDIO_FRAME_SAMPLE_COUNT as int, j + 1 as int)
                        =~= full.subrange(AUDIO_FRAME_SAMPLE_COUNT as int, j as int)
                            .push(full[j as int]));
                }
                j += 1;
            }
            self.pcm_buff = rest;
            proof {
                assert(self.pcm_buff@ =~= full.skip(AUDIO_FRAME_SAMPLE_COUNT as int));
            }

            Ok(Some((duration, encoded.1)))
        } else {
            Ok(None)
        }
    }
}

} // verus!
