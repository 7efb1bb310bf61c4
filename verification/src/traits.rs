//! The seams between the verified logic and the outside world that stay synchronous:
//! captured audio, credential storage and the tray.
use vstd::prelude::*;

verus! {

/// Compressed audio produced during capture (progressive Opus) for a fast upload.
#[derive(Debug, Clone)]
pub struct PreEncodedAudio {
    pub bytes: Vec<u8>,
    pub file_name: String,
    pub mime: String,
    pub codec: String,
}

/// A finished capture.
#[derive(Debug, Clone)]
pub struct AudioData {
    /// Raw PCM s16le (kept for local history and playback).
    pub bytes: Vec<u8>,
    pub sample_rate: u32,
    pub channels: u16,
    pub duration_ms: u64,
    /// When set, the upload uses this instead of encoding after stop.
    pub pre_encoded: Option<PreEncodedAudio>,
}

impl AudioData {
    /// Plain PCM capture, nothing encoded yet.
    pub fn pcm(bytes: Vec<u8>, sample_rate: u32, channels: u16, duration_ms: u64) -> (a: AudioData)
        ensures
            a.bytes@ == bytes@,
            a.sample_rate == sample_rate,
            a.channels == channels,
            a.duration_ms == duration_ms,
            a.pre_encoded is None,
    {
        AudioData { bytes, sample_rate, channels, duration_ms, pre_encoded: None }
    }
}

/// Speech credential storage, implemented by the caller over the real files.
pub trait KeyringStore {
    fn get_api_key(&self) -> Result<String, String>;

    fn set_api_key(&self, key: &str) -> Result<(), String>;

    fn clear(&self) -> Result<(), String>;

    /// Local-only: may a STT request be attempted? Must not hit the network.
    /// By default: the key lookup gives a usable credential (see [`usable_credential`]).
    fn has_local_credentials(&self) -> bool {
        let r = self.get_api_key();
        usable_credential(&r)
    }
}

/// A credential lookup counts when it produced a non-empty key.
pub fn usable_credential(r: &Result<String, String>) -> (b: bool)
    ensures
        b == (r matches Ok(k) && k@.len() > 0),
{
    match r {
        Ok(k) => !k.as_str().is_empty(),
        Err(_) => false,
    }
}

/// Receives the tray state name on every state change.
pub trait TrayController {
    fn set_state(&self, state: &str);
}

} // verus!
