//! Audio formats accepted for transcription, the checks made on uploaded
//! audio, FLAC and Base64 encoding, and the recorder's state.
use vstd::prelude::*;

use base64::Engine;
use flacenc::component::BitRepr;
use flacenc::error::Verify;

use crate::text::{
    ascii_lower, chars_eq, chars_of, decimal, decimal_string, find_char, find_char_from,
    lemma_find_char_from_bounds, slice_chars, trim, trim_chars, ascii_lower_chars,
};

verus! {

/// The sample rate every recording is brought to before encoding.
pub const SAMPLE_RATE: u32 = 16000;

/// The media type of a `Content-Type` value: the part before the first `;`,
/// trimmed and in ASCII lower case.
pub open spec fn media_type(content_type: Seq<char>) -> Seq<char> {
    ascii_lower(trim(content_type.take(find_char_from(content_type, ';', 0))))
}

/// The file extension that a media type is decoded as.
pub open spec fn extension_of_media(m: Seq<char>) -> Option<Seq<char>> {
    if m == "audio/flac"@ || m == "audio/x-flac"@ {
        Some("flac"@)
    } else if m == "audio/mpeg"@ || m == "audio/mp3"@ {
        Some("mp3"@)
    } else if m == "audio/mp4"@ || m == "audio/m4a"@ || m == "audio/x-m4a"@ {
        Some("m4a"@)
    } else if m == "audio/wav"@ || m == "audio/wave"@ || m == "audio/x-wav"@ {
        Some("wav"@)
    } else {
        None
    }
}

fn is_literal(v: &Vec<char>, lit: &str) -> (b: bool)
    ensures
        b == (v@ == lit@),
{
    chars_eq(v, &chars_of(lit))
}

/// The file extension for an audio `Content-Type`, or `None` for a type
/// that is not accepted.
pub fn extension_for_content_type(content_type: &str) -> (r: Option<&'static str>)
    ensures
        match r {
            Some(e) => extension_of_media(media_type(content_type@)) == Some(e@),
            None => extension_of_media(media_type(content_type@)) is None,
        },
{
    let ct = chars_of(content_type);
    let semi = find_char(&ct, ';', 0);
    proof {
        lemma_find_char_from_bounds(ct@, ';', 0);
    }
    let head = slice_chars(&ct, 0, semi);
    assert(head@ == ct@.take(semi as int));
    let m = ascii_lower_chars(&trim_chars(&head));
    if is_literal(&m, "audio/flac") || is_literal(&m, "audio/x-flac") {
        Some("flac")
    } else if is_literal(&m, "audio/mpeg") || is_literal(&m, "audio/mp3") {
        Some("mp3")
    } else if is_literal(&m, "audio/mp4") || is_literal(&m, "audio/m4a") || is_literal(&m, "audio/x-m4a") {
        Some("m4a")
    } else if is_literal(&m, "audio/wav") || is_literal(&m, "audio/wave") || is_literal(&m, "audio/x-wav") {
        Some("wav")
    } else {
        None
    }
}

/// The message for an audio `Content-Type` that is not accepted.
pub open spec fn unsupported_format_error(content_type: Seq<char>) -> Seq<char> {
    "不支持的音频格式："@ + content_type
}

/// Accepts a `Content-Type` exactly when it names a supported audio format.
pub fn validate_content_type(content_type: &str) -> (r: Result<(), String>)
    ensures
        r is Ok <==> extension_of_media(media_type(content_type@)) is Some,
        r is Err ==> r->Err_0@ == unsupported_format_error(content_type@),
{
    match extension_for_content_type(content_type) {
        Some(_) => Ok(()),
        None => {
            let mut msg = String::from_str("不支持的音频格式：");
            msg.append(content_type);
            Err(msg)
        },
    }
}

/// The checks made on uploaded audio before it is decoded: its type must be
/// supported and it must not be empty. Gives the extension to decode it as.
pub fn check_audio_input(byte_len: usize, content_type: &str) -> (r: Result<&'static str, String>)
    ensures
        match r {
            Ok(e) => extension_of_media(media_type(content_type@)) == Some(e@) && byte_len > 0,
            Err(msg) => if extension_of_media(media_type(content_type@)) is None {
                msg@ == unsupported_format_error(content_type@)
            } else {
                byte_len == 0 && msg@ == "音频内容为空"@
            },
        },
{
    let extension = match extension_for_content_type(content_type) {
        Some(e) => e,
        None => {
            let mut msg = String::from_str("不支持的音频格式：");
            msg.append(content_type);
            return Err(msg);
        },
    };
    if byte_len == 0 {
        return Err(String::from_str("音频内容为空"));
    }
    Ok(extension)
}

/// The message for audio longer than `max_seconds`.
pub open spec fn too_long_error(max_seconds: u32) -> Seq<char> {
    "音频时长超过 "@ + decimal(max_seconds as nat) + " 秒限制"@
}

/// Audio of `samples` mono samples at `sample_rate` is accepted when it
/// lasts no longer than `max_seconds`, that is when
/// `samples / sample_rate <= max_seconds`.
pub fn check_duration(samples: u64, sample_rate: u32, max_seconds: u32) -> (r: Result<(), String>)
    requires
        sample_rate > 0,
    ensures
        r is Ok <==> samples <= max_seconds as int * sample_rate as int,
        r is Err ==> r->Err_0@ == too_long_error(max_seconds),
{
    assert(max_seconds as int * sample_rate as int <= 0xffff_ffff * 0xffff_ffff) by (nonlinear_arith)
        requires
            max_seconds <= 0xffff_ffff,
            sample_rate <= 0xffff_ffff,
    ;
    let limit: u128 = (max_seconds as u128) * (sample_rate as u128);
    if (samples as u128) > limit {
        let mut msg = String::from_str("音频时长超过 ");
        let n = decimal_string(max_seconds as u64);
        msg.append(n.as_str());
        msg.append(" 秒限制");
        return Err(msg);
    }
    Ok(())
}

/// Audio brought to 16 kHz mono and encoded as FLAC.
pub struct NormalizedAudio {
    pub flac: Vec<u8>,
}

/// The FLAC stream that `flacenc` writes for 16-bit mono samples at 16 kHz
/// with its default encoder settings.
pub uninterp spec fn flac_stream(samples: Seq<i16>) -> Seq<u8>;

/// The most samples `flacenc` encodes: frames of 4096 samples are numbered
/// below 2^31.
pub const MAX_FLAC_SAMPLES: u64 = 0x800_0000_0000;

/// Encodes 16-bit mono PCM at 16 kHz as FLAC with `flacenc`: the samples
/// are widened to `i32`, read from a `MemSource`, encoded with the default
/// configuration and a fixed block size, and written to a `ByteSink`.
/// Claimed: a success holds `flac_stream` of the samples. With the crate's
/// default `par` feature the default configuration encodes on worker
/// threads, whose number comes from `std::thread::available_parallelism`
/// (which may fail) or an environment variable; so whether encoding
/// succeeds depends on the machine, and is not stated, nor is the text of
/// an error. A frame numbered 2^31 or more makes a worker panic, so the
/// number of samples is bounded.
#[verifier::external_body]
fn flacenc_encode(samples: &[i16]) -> (r: Result<Vec<u8>, String>)
    requires
        samples@.len() <= MAX_FLAC_SAMPLES,
    ensures
        r is Ok ==> r->Ok_0@ == flac_stream(samples@),
{
    let wide: Vec<i32> = samples.iter().map(|&s| s as i32).collect();
    let source = flacenc::source::MemSource::from_samples(&wide, 1, 16, 16000);
    let config = flacenc::config::Encoder::default().into_verified()
        .map_err(|e| format!("FLAC config error: {:?}", e))?;
    let stream = flacenc::encode_with_fixed_block_size(&config, source, config.block_size)
        .map_err(|e| format!("FLAC encode error: {:?}", e))?;
    let mut sink = flacenc::bitsink::ByteSink::new();
    stream.write(&mut sink).map_err(|e| format!("FLAC write error: {:?}", e))?;
    Ok(sink.into_inner())
}

/// Encodes 16-bit mono PCM at 16 kHz as FLAC. A success holds the FLAC
/// stream of the samples; whether the encoder's worker threads can be set
/// up is the machine's affair.
pub fn encode_flac(samples: &[i16]) -> (r: Result<Vec<u8>, String>)
    requires
        samples@.len() <= MAX_FLAC_SAMPLES,
    ensures
        r is Ok ==> r->Ok_0@ == flac_stream(samples@),
{
    flacenc_encode(samples)
}

/// The error of a cancellable FLAC encoding that failed at `stage`
/// (`encode` or `write`) with `detail`: a cancelled request is reported as
/// such, whatever the encoder said.
pub fn cancellable_encode_error(cancelled: bool, stage: &str, detail: &str) -> (e: String)
    ensures
        cancelled ==> e@ == "请求已取消"@,
        !cancelled ==> e@ == "FLAC "@ + stage@ + " error: "@ + detail@,
{
    if cancelled {
        return String::from_str("请求已取消");
    }
    let mut e = String::from_str("FLAC ");
    e.append(stage);
    e.append(" error: ");
    e.append(detail);
    e
}

/// The standard Base64 encoding (RFC 4648 alphabet, with `=` padding) of
/// `bytes`, as the `base64` crate's `STANDARD` engine writes it.
pub uninterp spec fn base64_standard(bytes: Seq<u8>) -> Seq<char>;

/// `Engine::encode_string` of the `STANDARD` engine: appends the Base64
/// text of `input` to `out`. Claimed: the text appended is `base64_standard`
/// of the input and nothing else changes in `out`.
#[verifier::external_body]
pub(crate) fn append_base64(out: &mut String, input: &[u8])
    requires
        input@.len() <= usize::MAX / 4,
    ensures
        final(out)@ == old(out)@ + base64_standard(input@),
{
    base64::engine::general_purpose::STANDARD.encode_string(input, out);
}

/// The Base64 text of `bytes`.
pub fn audio_to_base64(bytes: &[u8]) -> (r: String)
    requires
        bytes@.len() <= usize::MAX / 4,
    ensures
        r@ == base64_standard(bytes@),
{
    let mut out = String::new();
    append_base64(&mut out, bytes);
    proof {
        assert(Seq::<char>::empty() + base64_standard(bytes@) =~= base64_standard(bytes@));
    }
    out
}

/// Whether the microphone is being recorded.
#[derive(Debug, Clone, Copy, PartialEq, Eq)]
pub enum RecordingState {
    Idle,
    Recording,
}

/// The recorder's bookkeeping: whether it records, since when (in
/// milliseconds of a monotonic clock), and whether the first audible
/// samples have arrived. The input stream itself is held by the caller,
/// which opens it between `prepare_start` and `started`, and closes it
/// after `stop` or `cancel`.
pub struct AudioRecorder {
    state: RecordingState,
    started_at_ms: Option<u64>,
    audio_started: bool,
}

impl AudioRecorder {
    pub closed spec fn spec_state(&self) -> RecordingState {
        self.state
    }

    pub closed spec fn spec_started_at(&self) -> Option<u64> {
        self.started_at_ms
    }

    pub closed spec fn spec_audio_started(&self) -> bool {
        self.audio_started
    }

    /// A start time is known exactly while recording.
    pub closed spec fn wf(&self) -> bool {
        (self.state == RecordingState::Recording) == self.started_at_ms is Some
    }

    /// An idle recorder.
    pub fn new() -> (r: Self)
        ensures
            r.wf(),
            r.spec_state() == RecordingState::Idle,
            r.spec_started_at() is None,
            !r.spec_audio_started(),
    {
        AudioRecorder { state: RecordingState::Idle, started_at_ms: None, audio_started: false }
    }

    pub fn is_recording(&self) -> (b: bool)
        ensures
            b == (self.spec_state() == RecordingState::Recording),
    {
        match self.state {
            RecordingState::Recording => true,
            RecordingState::Idle => false,
        }
    }

    /// Milliseconds since the recording started, `None` when idle.
    pub fn elapsed_since_start(&self, now_ms: u64) -> (r: Option<u64>)
        ensures
            match self.spec_started_at() {
                Some(t) => r == Some(if now_ms >= t { (now_ms - t) as u64 } else { 0u64 }),
                None => r is None,
            },
    {
        match self.started_at_ms {
            Some(t) => Some(now_ms.saturating_sub(t)),
            None => None,
        }
    }

    /// Whether audible samples have arrived since the recording started.
    pub fn audio_started(&self) -> (b: bool)
        ensures
            b == self.spec_audio_started(),
    {
        self.audio_started
    }

    /// Notes that audible samples have arrived.
    pub fn mark_audio_started(&mut self)
        ensures
            final(self).spec_audio_started(),
            final(self).spec_state() == old(self).spec_state(),
            final(self).spec_started_at() == old(self).spec_started_at(),
    {
        self.audio_started = true;
    }

    /// Refuses a second recording; otherwise forgets that audio had started,
    /// before the caller opens the input stream.
    pub fn prepare_start(&mut self) -> (r: Result<(), String>)
        ensures
            r is Err <==> old(self).spec_state() == RecordingState::Recording,
            r is Err ==> r->Err_0@ == "Already recording"@ && *final(self) == *old(self),
            r is Ok ==> final(self).spec_state() == old(self).spec_state()
                && final(self).spec_started_at() == old(self).spec_started_at()
                && !final(self).spec_audio_started(),
    {
        if self.is_recording() {
            return Err(String::from_str("Already recording"));
        }
        self.audio_started = false;
        Ok(())
    }

    /// The input stream plays: the recorder records from `now_ms` on.
    pub fn started(&mut self, now_ms: u64)
        ensures
            final(self).wf(),
            final(self).spec_state() == RecordingState::Recording,
            final(self).spec_started_at() == Some(now_ms),
            final(self).spec_audio_started() == old(self).spec_audio_started(),
    {
        self.state = RecordingState::Recording;
        self.started_at_ms = Some(now_ms);
    }

    /// Ends the recording; an idle recorder gives "Not recording".
    pub fn stop(&mut self) -> (r: Result<(), String>)
        ensures
            r is Err <==> old(self).spec_state() == RecordingState::Idle,
            r is Err ==> r->Err_0@ == "Not recording"@ && *final(self) == *old(self),
            r is Ok ==> final(self).wf() && final(self).spec_state() == RecordingState::Idle
                && final(self).spec_started_at() is None,
    {
        if !self.is_recording() {
            return Err(String::from_str("Not recording"));
        }
        self.state = RecordingState::Idle;
        self.started_at_ms = None;
        Ok(())
    }

    /// Drops the recording without encoding it; an idle recorder gives
    /// "Not recording".
    pub fn cancel(&mut self) -> (r: Result<(), String>)
        ensures
            r is Err <==> old(self).spec_state() == RecordingState::Idle,
            r is Err ==> r->Err_0@ == "Not recording"@ && *final(self) == *old(self),
            r is Ok ==> final(self).wf() && final(self).spec_state() == RecordingState::Idle
                && final(self).spec_started_at() is None,
    {
        self.stop()
    }
}

/// A stopped recording must have captured some samples.
pub fn check_captured(sample_count: usize) -> (r: Result<(), String>)
    ensures
        r is Ok <==> sample_count > 0,
        r is Err ==> r->Err_0@ == "No audio data captured"@,
{
    if sample_count == 0 {
        return Err(String::from_str("No audio data captured"));
    }
    Ok(())
}

} // verus!
