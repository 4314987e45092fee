//! Media screening: classifies input paths as eligible audio/video by
//! extension.
//! The conversion of eligible files into canonical PCM is an opaque external
//! decode operation performed outside this library.

use crate::paths::{extension_of_path, extension_vec};
use crate::text::{chars_eq_str, chars_of, lower_seq, lower_vec};
use vstd::prelude::*;

verus! {

/// An extension, already lower-cased, that is on the media allow-list.
pub open spec fn is_allowed_extension(e: Seq<char>) -> bool {
    ||| e == "mp3"@
    ||| e == "wav"@
    ||| e == "flac"@
    ||| e == "m4a"@
    ||| e == "aac"@
    ||| e == "ogg"@
    ||| e == "wma"@
    ||| e == "opus"@
    ||| e == "mp4"@
    ||| e == "mkv"@
    ||| e == "avi"@
    ||| e == "mov"@
    ||| e == "wmv"@
    ||| e == "flv"@
    ||| e == "webm"@
    ||| e == "3gp"@
}

/// A path is eligible media when its extension, compared without regard to
/// ASCII case, is on the allow-list.
pub open spec fn is_media_path(p: Seq<char>) -> bool {
    match extension_of_path(p) {
        Some(e) => is_allowed_extension(lower_seq(e)),
        None => false,
    }
}

pub struct AudioConverter {}

impl AudioConverter {
    pub fn new() -> (r: Self)
        ensures
            r == (AudioConverter {  }),
    {
        AudioConverter {  }
    }

    /// Whether `path` counts as eligible media; non-matching paths are
    /// silently dropped by ingestion, never reported as errors.
    pub fn is_audio_file(&self, path: &str) -> (r: bool)
        ensures
            r == is_media_path(path@),
    {
        let cs = chars_of(path);
        match extension_vec(&cs) {
            Some(e) => {
                let low = lower_vec(&e);
                chars_eq_str(&low, "mp3") || chars_eq_str(&low, "wav") || chars_eq_str(
                    &low,
                    "flac",
                ) || chars_eq_str(&low, "m4a") || chars_eq_str(&low, "aac") || chars_eq_str(
                    &low,
                    "ogg",
                ) || chars_eq_str(&low, "wma") || chars_eq_str(&low, "opus") || chars_eq_str(
                    &low,
                    "mp4",
                ) || chars_eq_str(&low, "mkv") || chars_eq_str(&low, "avi") || chars_eq_str(
                    &low,
                    "mov",
                ) || chars_eq_str(&low, "wmv") || chars_eq_str(&low, "flv") || chars_eq_str(
                    &low,
                    "webm",
                ) || chars_eq_str(&low, "3gp")
            },
            None => false,
        }
    }
}

} // verus!
