//! Test capture from a PCM file.
use vstd::prelude::*;
use crate::audio_validation::{duration_ms_from_pcm, pcm_duration_ms};
use crate::traits::AudioData;

verus! {

/// Capture that reads a pre-recorded raw PCM file (16 kHz mono) instead of the microphone.
#[derive(Debug, Clone)]
pub struct FileAudioCapture {
    pub path: String,
}

impl FileAudioCapture {
    pub fn new(path: String) -> (c: FileAudioCapture)
        ensures
            c.path@ == path@,
    {
        FileAudioCapture { path }
    }

    /// The capture of the file's bytes: 16 kHz mono PCM with the duration they hold.
    pub fn captured(bytes: Vec<u8>) -> (a: AudioData)
        ensures
            a.bytes@ == bytes@,
            a.sample_rate == 16000,
            a.channels == 1,
            a.duration_ms == pcm_duration_ms(bytes@.len() as nat),
            a.pre_encoded is None,
    {
        let d = duration_ms_from_pcm(bytes.as_slice());
        AudioData::pcm(bytes, 16000, 1, d)
    }
}

/// Progressive Opus from a live capture is used for the upload only when the encoder ran,
/// produced something, and it is clearly smaller than the PCM (or the take is tiny).
pub open spec fn progressive_usable(progressive: bool, encoded_len: nat, pcm_len: nat) -> bool {
    progressive && encoded_len > 0 && (encoded_len + 256 < pcm_len || pcm_len < 4096)
}

pub fn keep_progressive(progressive: bool, encoded_len: usize, pcm_len: usize) -> (b: bool)
    ensures
        b == progressive_usable(progressive, encoded_len as nat, pcm_len as nat),
{
    progressive && encoded_len > 0 && ((encoded_len as u128) + 256 < pcm_len as u128 || pcm_len < 4096)
}

/// A live take lasts as long as its PCM says, or as long as the wall clock ran when that is
/// longer (a truncated capture still reports the time the user spoke).
pub fn captured_duration_ms(pcm_len: usize, wall_ms: u64) -> (ms: u64)
    ensures
        ms == if pcm_duration_ms(pcm_len as nat) >= wall_ms { pcm_duration_ms(pcm_len as nat) } else { wall_ms as nat },
{
    let len = pcm_len as u64;
    let d = len / 32 + if len % 32 >= 16 { 1 } else { 0 };
    if d >= wall_ms { d } else { wall_ms }
}

} // verus!
