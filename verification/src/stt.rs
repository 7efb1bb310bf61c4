//! Captured audio and the STT upload payload: which encoding is sent (progressive Opus from
//! capture, Opus encoded after stop, or WAV) and the WAV encoding itself.
use vstd::prelude::*;
use crate::audio_validation::sample;
use crate::traits::{AudioData, PreEncodedAudio};
use crate::text::{chars_of, contains, contains_chars, lower, str_eq};

verus! {

/// Payload prepared for the multipart STT upload.
#[derive(Debug, Clone)]
pub struct UploadAudio {
    pub bytes: Vec<u8>,
    pub file_name: &'static str,
    pub mime: &'static str,
    pub codec: &'static str,
    pub pcm_bytes: usize,
}

/// The `COSMIC_SCRIBE_STT_CODEC` setting asks for WAV (any ASCII case).
pub fn prefers_wav(codec_setting: Option<&str>) -> (b: bool)
    ensures
        b == match crate::keyring::opt_view(codec_setting) {
            Some(v) => lower(v) == "wav"@,
            None => false,
        },
{
    match codec_setting {
        Some(v) => {
            let l = crate::text::to_ascii_lower(&chars_of(v));
            let s = crate::text::string_from(&l);
            str_eq(s.as_str(), "wav")
        },
        None => false,
    }
}

pub open spec fn opt_bytes(v: Option<Vec<u8>>) -> Option<Seq<u8>> {
    match v {
        Some(b) => Some(b@),
        None => None,
    }
}

/// Capture produced usable progressive audio.
pub open spec fn has_pre_encoded(audio: AudioData) -> bool {
    audio.pre_encoded matches Some(p) && p.bytes@.len() > 0
}

/// Whether an Opus encode after stop is worth running: not when WAV is preferred or the
/// capture already produced progressive audio.
pub fn wants_opus_encode(audio: &AudioData, prefer_wav: bool) -> (b: bool)
    ensures
        b == (!prefer_wav && !has_pre_encoded(*audio)),
{
    if prefer_wav {
        return false;
    }
    match &audio.pre_encoded {
        Some(p) => p.bytes.len() == 0,
        None => true,
    }
}

/// Which payload an upload uses: 1 progressive capture audio, 2 Opus encoded after stop
/// (only when it is non-empty and more than 256 bytes smaller than the PCM), 3 WAV.
pub open spec fn upload_choice(audio: AudioData, prefer_wav: bool, opus: Option<Seq<u8>>) -> int {
    if !prefer_wav && has_pre_encoded(audio) {
        1
    } else if !prefer_wav && (opus matches Some(o) && o.len() > 0 && o.len() + 256 < audio.bytes@.len()) {
        2
    } else {
        3
    }
}

/// Asking for WAV always uploads WAV: whatever progressive or Opus audio is at hand, the
/// choice is the WAV encode. Without that request, progressive capture audio comes first,
/// and an Opus encode is used only when it is non-empty and more than 256 bytes smaller
/// than the PCM.
pub proof fn lemma_upload_choice_rules(audio: AudioData, opus: Option<Seq<u8>>)
    ensures
        upload_choice(audio, true, opus) == 3,
        (audio.pre_encoded matches Some(p) && p.bytes@.len() > 0) ==> upload_choice(audio, false, opus) == 1,
        upload_choice(audio, false, opus) == 2 ==> (opus matches Some(o) && 0 < o.len() && o.len() + 256
            < audio.bytes@.len()),
        audio.pre_encoded is None ==> ((opus matches Some(o) && 0 < o.len() && o.len() + 256
            < audio.bytes@.len()) ==> upload_choice(audio, false, opus) == 2),
        (audio.pre_encoded is None && opus is None) ==> upload_choice(audio, false, opus) == 3,
{
}

/// Upload fields for progressive capture audio: known file names and types kept, anything
/// else taken as Ogg; codec `opus-progressive` when the capture says so.
pub open spec fn pre_encoded_fields(p: PreEncodedAudio) -> (Seq<char>, Seq<char>, Seq<char>) {
    (
        if p.file_name@ == "recording.wav"@ { "recording.wav"@ } else { "recording.ogg"@ },
        if p.mime@ == "audio/wav"@ { "audio/wav"@ } else { "audio/ogg"@ },
        if contains(p.codec@, "progressive"@) { "opus-progressive"@ } else { "opus"@ },
    )
}

/// 16-bit little-endian samples of PCM bytes (a trailing odd byte is dropped).
pub open spec fn pcm_samples(b: Seq<u8>) -> Seq<i16> {
    Seq::new(b.len() / 2, |i: int| sample(b, i) as i16)
}

/// Little-endian bytes of one 16-bit sample.
pub open spec fn sample_le(s: i16) -> Seq<u8> {
    crate::api::le16((if s < 0 { s + 65536 } else { s as int }) as nat)
}

/// The samples written one after another, each as two little-endian bytes.
pub open spec fn samples_le(s: Seq<i16>) -> Seq<u8>
    decreases s.len(),
{
    if s.len() == 0 {
        Seq::empty()
    } else {
        samples_le(s.drop_last()) + sample_le(s.last())
    }
}

/// The 16-bit PCM WAV file for one or two channels: the 44-byte RIFF header with a
/// `PCMWAVEFORMAT` chunk, then the samples.
pub open spec fn pcm16_wav(channels: u16, sample_rate: u32, samples: Seq<i16>) -> Seq<u8> {
    let data_len = 2 * samples.len();
    crate::api::ascii4('R', 'I', 'F', 'F') + crate::api::le32(36 + data_len)
        + crate::api::ascii4('W', 'A', 'V', 'E') + crate::api::ascii4('f', 'm', 't', ' ')
        + crate::api::le32(16) + crate::api::le16(1) + crate::api::le16(channels as nat)
        + crate::api::le32(sample_rate as nat) + crate::api::le32(sample_rate as nat * 2 * channels as nat)
        + crate::api::le16(2 * channels as nat) + crate::api::le16(16)
        + crate::api::ascii4('d', 'a', 't', 'a') + crate::api::le32(data_len) + samples_le(samples)
}

/// The speaker mask of a `WAVE_FORMAT_EXTENSIBLE` header: one bit per channel, at most 18.
pub open spec fn channel_mask(channels: u16) -> nat {
    (vstd::arithmetic::power2::pow2(if channels > 18 { 18 } else { channels as nat }) - 1) as nat
}

/// The `KSDATAFORMAT_SUBTYPE_PCM` GUID.
pub open spec fn pcm_subtype_guid() -> Seq<u8> {
    seq![0x01u8, 0x00, 0x00, 0x00, 0x00, 0x00, 0x10, 0x00, 0x80, 0x00, 0x00, 0xaa, 0x00, 0x38, 0x9b, 0x71]
}

/// The 16-bit PCM WAV file for more than two channels: the 68-byte RIFF header with a
/// `WAVE_FORMAT_EXTENSIBLE` chunk, then the samples.
pub open spec fn extensible_wav(channels: u16, sample_rate: u32, samples: Seq<i16>) -> Seq<u8> {
    let data_len = 2 * samples.len();
    crate::api::ascii4('R', 'I', 'F', 'F') + crate::api::le32(60 + data_len)
        + crate::api::ascii4('W', 'A', 'V', 'E') + crate::api::ascii4('f', 'm', 't', ' ')
        + crate::api::le32(40) + crate::api::le16(0xfffe) + crate::api::le16(channels as nat)
        + crate::api::le32(sample_rate as nat) + crate::api::le32(sample_rate as nat * 2 * channels as nat)
        + crate::api::le16(2 * channels as nat) + crate::api::le16(16) + crate::api::le16(22)
        + crate::api::le16(16) + crate::api::le32(channel_mask(channels)) + pcm_subtype_guid()
        + crate::api::ascii4('d', 'a', 't', 'a') + crate::api::le32(data_len) + samples_le(samples)
}

/// The 16-bit WAV file for these samples: the `PCMWAVEFORMAT` layout for one or two
/// channels, the `WAVE_FORMAT_EXTENSIBLE` one for more.
pub open spec fn wav_file(channels: u16, sample_rate: u32, samples: Seq<i16>) -> Seq<u8> {
    if channels <= 2 {
        pcm16_wav(channels, sample_rate, samples)
    } else {
        extensible_wav(channels, sample_rate, samples)
    }
}

/// What a 16-bit WAV encode gives: the [`wav_file`] when the samples fill whole frames
/// (a multiple of the channel count), `None` otherwise.
pub open spec fn wav_of(channels: u16, sample_rate: u32, samples: Seq<i16>) -> Option<Seq<u8>> {
    if samples.len() % (channels as nat) == 0 {
        Some(wav_file(channels, sample_rate, samples))
    } else {
        None
    }
}

/// The channel count, sample rate and length that a 16-bit WAV encode can take: at least one
/// channel, a non-zero rate, and a byte rate and file size that fit in 32 bits.
pub open spec fn wav_encodable(channels: u16, sample_rate: u32, pcm_len: nat) -> bool {
    &&& channels >= 1
    &&& sample_rate >= 1
    &&& sample_rate as nat * 2 * channels as nat <= u32::MAX
    &&& pcm_len + 60 <= u32::MAX
}

fn wav_encodable_exec(channels: u16, sample_rate: u32, pcm_len: usize) -> (b: bool)
    ensures
        b == wav_encodable(channels, sample_rate, pcm_len as nat),
{
    let rate: u64 = sample_rate as u64;
    let ch: u64 = channels as u64;
    assert(rate * 2 * ch <= 0xffff_ffff * 2 * 0xffff) by (nonlinear_arith)
        requires rate <= 0xffff_ffff, ch <= 0xffff;
    channels >= 1 && sample_rate >= 1 && rate * 2 * ch <= 0xffff_ffff && pcm_len <= 0xffff_ffff - 60
}

/// A capture's WAV encode: an error for a format that WAV cannot hold (no channel, a zero
/// rate, or a byte rate or size past 32 bits), else [`wav_of`] its samples.
pub open spec fn wav_encode_result(audio: AudioData) -> Result<Seq<u8>, Seq<char>> {
    if !wav_encodable(audio.channels, audio.sample_rate, audio.bytes@.len()) {
        Err("unsupported audio format for WAV"@)
    } else {
        match wav_of(audio.channels, audio.sample_rate, pcm_samples(audio.bytes@)) {
            Some(w) => Ok(w),
            None => Err("WAV encoding failed"@),
        }
    }
}

/// `hound::WavWriter` over an in-memory buffer with a 16-bit integer `WavSpec`: one
/// `write_sample` per sample, then `finalize`. `hound` writes the `PCMWAVEFORMAT` header for
/// one or two channels and the `WAVE_FORMAT_EXTENSIBLE` one for more, then the samples as
/// little-endian pairs, and `finalize` fails (`UnfinishedSample`) when the samples do not
/// fill whole frames.
#[verifier::external_body]
fn hound_encode(channels: u16, sample_rate: u32, samples: &[i16]) -> (r: Option<Vec<u8>>)
    requires
        wav_encodable(channels, sample_rate, 2 * samples@.len()),
    ensures
        r matches Some(w) ==> w@ == wav_file(channels, sample_rate, samples@),
        r is None <==> samples@.len() % (channels as nat) != 0,
{
    let spec = hound::WavSpec { channels, sample_rate, bits_per_sample: 16, sample_format: hound::SampleFormat::Int };
    let mut buf = std::io::Cursor::new(Vec::new());
    let mut writer = match hound::WavWriter::new(&mut buf, spec) {
        Ok(w) => w,
        Err(_) => return None,
    };
    for s in samples {
        if writer.write_sample(*s).is_err() {
            return None;
        }
    }
    if writer.finalize().is_err() {
        return None;
    }
    Some(buf.into_inner())
}

fn pcm_samples_vec(b: &[u8]) -> (r: Vec<i16>)
    ensures
        r@ == pcm_samples(b@),
{
    let len = b.len();
    let n = len / 2;
    let mut out: Vec<i16> = Vec::new();
    let mut i: usize = 0;
    while i < n
        invariant
            len == b@.len(),
            n == b@.len() / 2,
            i <= n,
            out@ == pcm_samples(b@).take(i as int),
        decreases n - i,
    {
        assert(2 * i + 1 < b@.len());
        let k = i + i;
        let lo = b[k] as i32;
        let hi = b[k + 1] as i32;
        let v = lo + 256 * hi;
        let s: i32 = if v >= 32768 { v - 65536 } else { v };
        assert(s == sample(b@, i as int));
        out.push(s as i16);
        assert(pcm_samples(b@).take(i + 1) =~= pcm_samples(b@).take(i as int).push(s as i16));
        i += 1;
    }
    assert(pcm_samples(b@).take(n as int) =~= pcm_samples(b@));
    out
}

/// Encodes the capture's PCM as a 16-bit WAV file.
pub fn encode_wav(audio: &AudioData) -> (r: Result<Vec<u8>, String>)
    ensures
        match wav_encode_result(*audio) {
            Ok(w) => r matches Ok(v) && v@ == w,
            Err(m) => r matches Err(e) && e@ == m,
        },
{
    if !wav_encodable_exec(audio.channels, audio.sample_rate, audio.bytes.len()) {
        return Err(String::from_str("unsupported audio format for WAV"));
    }
    let samples = pcm_samples_vec(audio.bytes.as_slice());
    match hound_encode(audio.channels, audio.sample_rate, samples.as_slice()) {
        Some(w) => Ok(w),
        None => Err(String::from_str("WAV encoding failed")),
    }
}

/// The WAV upload of a capture.
pub fn encode_wav_upload(audio: &AudioData) -> (r: Result<UploadAudio, String>)
    ensures
        match wav_encode_result(*audio) {
            Ok(w) => r matches Ok(u) && u.bytes@ == w && u.file_name@ == "recording.wav"@
                && u.mime@ == "audio/wav"@ && u.codec@ == "wav"@ && u.pcm_bytes == audio.bytes@.len(),
            Err(m) => r matches Err(e) && e@ == m,
        },
{
    let bytes = encode_wav(audio)?;
    Ok(UploadAudio {
        pcm_bytes: audio.bytes.len(),
        bytes,
        file_name: "recording.wav",
        mime: "audio/wav",
        codec: "wav",
    })
}

/// The STT upload for a capture: progressive capture audio when there is some, else the
/// Opus encode (`opus`, done by the caller when [`wants_opus_encode`] says so) when it is
/// worth it, else WAV.
pub fn encode_for_upload(audio: &AudioData, prefer_wav: bool, opus: Option<Vec<u8>>) -> (r: Result<UploadAudio, String>)
    ensures
        upload_choice(*audio, prefer_wav, opt_bytes(opus)) == 1 ==> (r matches Ok(u) && ({
            let p = audio.pre_encoded->Some_0;
            &&& u.bytes@ == p.bytes@
            &&& (u.file_name@, u.mime@, u.codec@) == pre_encoded_fields(p)
            &&& u.pcm_bytes == audio.bytes@.len()
        })),
        upload_choice(*audio, prefer_wav, opt_bytes(opus)) == 2 ==> (r matches Ok(u) && ({
            &&& u.bytes@ == opus->Some_0@
            &&& u.file_name@ == "recording.ogg"@
            &&& u.mime@ == "audio/ogg"@
            &&& u.codec@ == "opus"@
            &&& u.pcm_bytes == audio.bytes@.len()
        })),
        prefer_wav ==> match wav_encode_result(*audio) {
            Ok(w) => r matches Ok(u) && u.bytes@ == w && u.file_name@ == "recording.wav"@
                && u.mime@ == "audio/wav"@ && u.codec@ == "wav"@ && u.pcm_bytes == audio.bytes@.len(),
            Err(m) => r matches Err(e) && e@ == m,
        },
        upload_choice(*audio, prefer_wav, opt_bytes(opus)) == 3 ==> match wav_encode_result(*audio) {
            Ok(w) => r matches Ok(u) && u.bytes@ == w && u.file_name@ == "recording.wav"@
                && u.mime@ == "audio/wav"@ && u.codec@ == "wav"@ && u.pcm_bytes == audio.bytes@.len(),
            Err(m) => r matches Err(e) && e@ == m,
        },
{
    if !prefer_wav {
        if let Some(pre) = &audio.pre_encoded {
            if pre.bytes.len() > 0 {
                proof {
                    reveal_strlit("recording.wav");
                    reveal_strlit("audio/wav");
                }
                let file_name = if str_eq(pre.file_name.as_str(), "recording.wav") { "recording.wav" } else { "recording.ogg" };
                let mime = if str_eq(pre.mime.as_str(), "audio/wav") { "audio/wav" } else { "audio/ogg" };
                let codec = if contains_chars(&chars_of(pre.codec.as_str()), &chars_of("progressive")) {
                    "opus-progressive"
                } else {
                    "opus"
                };
                return Ok(UploadAudio {
                    pcm_bytes: audio.bytes.len(),
                    bytes: pre.bytes.clone(),
                    file_name,
                    mime,
                    codec,
                });
            }
        }
        if let Some(o) = opus {
            if o.len() > 0 && o.len() < audio.bytes.len() && audio.bytes.len() - o.len() > 256 {
                return Ok(UploadAudio {
                    pcm_bytes: audio.bytes.len(),
                    bytes: o,
                    file_name: "recording.ogg",
                    mime: "audio/ogg",
                    codec: "opus",
                });
            }
        }
    }
    encode_wav_upload(audio)
}

/// One sign-in refresh and retry, only for a 401 while signed in with a sign-in token.
pub fn retry_after_unauthorized(status: u16, logged_in: bool, bearer: &str) -> (b: bool)
    ensures
        b == (status == 401 && logged_in && crate::xai_oauth::oauth_bearer_shape(bearer@)),
{
    status == 401 && logged_in && crate::xai_oauth::looks_like_oauth_bearer(bearer)
}

} // verus!
