//! Transcription engine adapter: holds the bound model path and validates
//! the canonical PCM intermediate (a RIFF/WAVE container holding mono,
//! 16 kHz, 16-bit signed little-endian samples) before inference. Running
//! the inference engine itself is an opaque external call made outside this
//! library; it hands results back as plain timed segments.

use vstd::prelude::*;
use vstd::string::*;

verus! {

/// Little-endian 16-bit value at `i`.
pub open spec fn le16(b: Seq<u8>, i: int) -> int
    recommends
        0 <= i,
        i + 2 <= b.len(),
{
    b[i] + 256 * b[i + 1]
}

/// Little-endian 32-bit value at `i`.
pub open spec fn le32(b: Seq<u8>, i: int) -> int
    recommends
        0 <= i,
        i + 4 <= b.len(),
{
    le16(b, i) + 65536 * le16(b, i + 2)
}

/// The signed 16-bit sample encoded by two little-endian bytes.
pub open spec fn i16_of_le(lo: u8, hi: u8) -> int {
    if hi < 128 {
        lo + 256 * hi
    } else {
        lo + 256 * hi - 65536
    }
}

/// Position of the header of the first chunk whose four-byte id is
/// `c0 c1 c2 c3`, scanning forward from `pos`; chunks are 8 bytes of header
/// plus their size, padded to an even byte count.
pub open spec fn find_chunk(b: Seq<u8>, pos: int, c0: u8, c1: u8, c2: u8, c3: u8) -> Option<int>
    decreases b.len() - pos,
{
    if pos < 0 || b.len() - pos < 8 {
        None
    } else if b[pos] == c0 && b[pos + 1] == c1 && b[pos + 2] == c2 && b[pos + 3] == c3 {
        Some(pos)
    } else {
        let sz = le32(b, pos + 4);
        let next = pos + 8 + sz + (if sz % 2 == 1 {
            1int
        } else {
            0int
        });
        if next > b.len() {
            None
        } else {
            find_chunk(b, next, c0, c1, c2, c3)
        }
    }
}

/// "RIFF" at the start and "WAVE" as the form type.
pub open spec fn wav_has_riff_header(b: Seq<u8>) -> bool {
    &&& b.len() >= 12
    &&& b[0] == 82 && b[1] == 73 && b[2] == 70 && b[3] == 70
    &&& b[8] == 87 && b[9] == 65 && b[10] == 86 && b[11] == 69
}

/// Header position of the "fmt " chunk.
pub open spec fn wav_fmt_pos(b: Seq<u8>) -> Option<int> {
    find_chunk(b, 12, 102, 109, 116, 32)
}

/// Header position of the "data" chunk.
pub open spec fn wav_data_pos(b: Seq<u8>) -> Option<int> {
    find_chunk(b, 12, 100, 97, 116, 97)
}

/// A complete container: RIFF/WAVE header, a "fmt " chunk with the 16
/// descriptor bytes present, and a "data" chunk whose declared size fits.
pub open spec fn wav_parse_ok(b: Seq<u8>) -> bool {
    &&& wav_has_riff_header(b)
    &&& (wav_fmt_pos(b) matches Some(p) && le32(b, p + 4) >= 16 && p + 24 <= b.len())
    &&& (wav_data_pos(b) matches Some(d) && d + 8 + le32(b, d + 4) <= b.len())
}

pub open spec fn wav_audio_format(b: Seq<u8>) -> int {
    le16(b, wav_fmt_pos(b)->0 + 8)
}

pub open spec fn wav_channels(b: Seq<u8>) -> int {
    le16(b, wav_fmt_pos(b)->0 + 10)
}

pub open spec fn wav_sample_rate(b: Seq<u8>) -> int {
    le32(b, wav_fmt_pos(b)->0 + 12)
}

pub open spec fn wav_bits_per_sample(b: Seq<u8>) -> int {
    le16(b, wav_fmt_pos(b)->0 + 22)
}

/// The canonical PCM intermediate: integer PCM, mono, 16 kHz, 16 bits.
pub open spec fn wav_is_canonical(b: Seq<u8>) -> bool {
    &&& wav_parse_ok(b)
    &&& wav_channels(b) == 1
    &&& wav_audio_format(b) == 1
    &&& wav_sample_rate(b) == 16000
    &&& wav_bits_per_sample(b) == 16
}

pub open spec fn wav_sample_count(b: Seq<u8>) -> int {
    le32(b, wav_data_pos(b)->0 + 4) / 2
}

pub open spec fn wav_sample_at(b: Seq<u8>, k: int) -> int {
    let off = wav_data_pos(b)->0 + 8;
    i16_of_le(b[off + 2 * k], b[off + 2 * k + 1])
}

/// Which diagnostic a rejected container gets, checked in this order:
/// container shape, channel count, sample encoding, rate, sample width.
pub open spec fn wav_error_msg(b: Seq<u8>) -> Seq<char> {
    if !wav_parse_ok(b) {
        "invalid WAV data"@
    } else if wav_channels(b) != 1 {
        "expected mono audio file"@
    } else if wav_audio_format(b) != 1 {
        "expected integer sample format"@
    } else if wav_sample_rate(b) != 16000 {
        "expected 16KHz sample rate"@
    } else {
        "expected 16 bits per sample"@
    }
}

fn le16_exec(b: &Vec<u8>, i: usize) -> (r: u16)
    requires
        i + 2 <= b@.len(),
    ensures
        r as int == le16(b@, i as int),
{
    let n = b.len();
    assert(i + 2 <= n);
    (b[i] as u16) + 256 * (b[i + 1] as u16)
}

fn le32_exec(b: &Vec<u8>, i: usize) -> (r: u32)
    requires
        i + 4 <= b@.len(),
    ensures
        r as int == le32(b@, i as int),
{
    let n = b.len();
    assert(i + 4 <= n);
    (le16_exec(b, i) as u32) + 65536 * (le16_exec(b, i + 2) as u32)
}

fn find_chunk_exec(b: &Vec<u8>, pos: usize, c0: u8, c1: u8, c2: u8, c3: u8) -> (r: Option<usize>)
    requires
        pos <= b@.len(),
    ensures
        match r {
            Some(p) => find_chunk(b@, pos as int, c0, c1, c2, c3) == Some(p as int) && pos <= p && p
                + 8 <= b@.len(),
            None => find_chunk(b@, pos as int, c0, c1, c2, c3) is None,
        },
    decreases b@.len() - pos,
{
    let n = b.len();
    if n - pos < 8 {
        return None;
    }
    if b[pos] == c0 && b[pos + 1] == c1 && b[pos + 2] == c2 && b[pos + 3] == c3 {
        return Some(pos);
    }
    let sz = le32_exec(b, pos + 4);
    let avail: usize = n - pos - 8;
    if sz as u64 > avail as u64 {
        return None;
    }
    let base: usize = pos + 8 + (sz as usize);
    if sz % 2 == 1 {
        if base >= n {
            return None;
        }
        find_chunk_exec(b, base + 1, c0, c1, c2, c3)
    } else {
        find_chunk_exec(b, base, c0, c1, c2, c3)
    }
}

pub struct WhisperTranscriber {
    pub model_path: Option<String>,
}

impl WhisperTranscriber {
    pub fn new() -> (r: Self)
        ensures
            r.model_path is None,
    {
        WhisperTranscriber { model_path: None }
    }

    /// Binds a model file path; whether the file exists and is a valid
    /// model image is checked by the engine when inference starts.
    pub fn load_model(&mut self, model_path: &str) -> (r: Result<(), String>)
        ensures
            r is Ok,
            final(self).model_path matches Some(p) && p@ == model_path@,
    {
        self.model_path = Some(String::from_str(model_path));
        Ok(())
    }

    /// Decodes a canonical PCM container into its samples. Rejects, with
    /// the diagnostic `wav_error_msg` gives, anything that is not a
    /// well-formed mono 16 kHz 16-bit integer WAVE file.
    pub fn parse_wav_file(bytes: &Vec<u8>) -> (r: Result<Vec<i16>, String>)
        ensures
            r is Ok <==> wav_is_canonical(bytes@),
            r matches Ok(s) ==> {
                &&& s@.len() == wav_sample_count(bytes@)
                &&& forall|k: int| 0 <= k < s@.len() ==> (#[trigger] s@[k]) as int == wav_sample_at(
                    bytes@,
                    k,
                )
            },
            r matches Err(e) ==> e@ == wav_error_msg(bytes@),
    {
        let n = bytes.len();
        if n < 12 {
            return Err(String::from_str("invalid WAV data"));
        }
        if !(bytes[0] == 82 && bytes[1] == 73 && bytes[2] == 70 && bytes[3] == 70 && bytes[8] == 87
            && bytes[9] == 65 && bytes[10] == 86 && bytes[11] == 69) {
            return Err(String::from_str("invalid WAV data"));
        }
        let fmt_pos = match find_chunk_exec(bytes, 12, 102, 109, 116, 32) {
            Some(p) => p,
            None => {
                return Err(String::from_str("invalid WAV data"));
            },
        };
        let fmt_size = le32_exec(bytes, fmt_pos + 4);
        if fmt_size < 16 || n - fmt_pos - 8 < 16 {
            return Err(String::from_str("invalid WAV data"));
        }
        let data_pos = match find_chunk_exec(bytes, 12, 100, 97, 116, 97) {
            Some(d) => d,
            None => {
                return Err(String::from_str("invalid WAV data"));
            },
        };
        let data_size = le32_exec(bytes, data_pos + 4);
        if data_size as u64 > (n - data_pos - 8) as u64 {
            return Err(String::from_str("invalid WAV data"));
        }
        let audio_format = le16_exec(bytes, fmt_pos + 8);
        let channels = le16_exec(bytes, fmt_pos + 10);
        let sample_rate = le32_exec(bytes, fmt_pos + 12);
        let bits = le16_exec(bytes, fmt_pos + 22);
        if channels != 1 {
            return Err(String::from_str("expected mono audio file"));
        }
        if audio_format != 1 {
            return Err(String::from_str("expected integer sample format"));
        }
        if sample_rate != 16000 {
            return Err(String::from_str("expected 16KHz sample rate"));
        }
        if bits != 16 {
            return Err(String::from_str("expected 16 bits per sample"));
        }
        let count: usize = (data_size / 2) as usize;
        let off: usize = data_pos + 8;
        let mut samples: Vec<i16> = Vec::new();
        let mut k: usize = 0;
        while k < count
            invariant
                k <= count,
                n == bytes@.len(),
                off + 2 * count <= n,
                off == wav_data_pos(bytes@)->0 + 8,
                count == wav_sample_count(bytes@),
                samples@.len() == k,
                forall|j: int|
                    0 <= j < k ==> (#[trigger] samples@[j]) as int == wav_sample_at(bytes@, j),
            decreases count - k,
        {
            let lo = bytes[off + 2 * k];
            let hi = bytes[off + 2 * k + 1];
            let wide: i32 = (lo as i32) + 256 * (hi as i32) - (if hi >= 128 {
                65536
            } else {
                0
            });
            samples.push(wide as i16);
            k = k + 1;
        }
        Ok(samples)
    }
}

} // verus!
