use whisper_batch::transcriber::WhisperTranscriber;

fn chunk(id: &[u8; 4], body: &[u8]) -> Vec<u8> {
    let mut out = Vec::new();
    out.extend_from_slice(id);
    out.extend_from_slice(&(body.len() as u32).to_le_bytes());
    out.extend_from_slice(body);
    if body.len() % 2 == 1 {
        out.push(0);
    }
    out
}

fn fmt_body(format: u16, channels: u16, rate: u32, bits: u16) -> Vec<u8> {
    let block_align = channels * bits / 8;
    let byte_rate = rate * block_align as u32;
    let mut b = Vec::new();
    b.extend_from_slice(&format.to_le_bytes());
    b.extend_from_slice(&channels.to_le_bytes());
    b.extend_from_slice(&rate.to_le_bytes());
    b.extend_from_slice(&byte_rate.to_le_bytes());
    b.extend_from_slice(&block_align.to_le_bytes());
    b.extend_from_slice(&bits.to_le_bytes());
    b
}

fn wav_file(format: u16, channels: u16, rate: u32, bits: u16, samples: &[i16]) -> Vec<u8> {
    let mut data = Vec::new();
    for s in samples {
        data.extend_from_slice(&s.to_le_bytes());
    }
    let mut chunks = chunk(b"fmt ", &fmt_body(format, channels, rate, bits));
    chunks.extend_from_slice(&chunk(b"data", &data));
    let mut out = Vec::new();
    out.extend_from_slice(b"RIFF");
    out.extend_from_slice(&((4 + chunks.len()) as u32).to_le_bytes());
    out.extend_from_slice(b"WAVE");
    out.extend_from_slice(&chunks);
    out
}

#[test]
fn parses_canonical_wav() {
    let samples = [0i16, 1, -1, 32767, -32768, 12345];
    let bytes = wav_file(1, 1, 16000, 16, &samples);
    let got = WhisperTranscriber::parse_wav_file(&bytes).expect("canonical file parses");
    assert_eq!(got, samples.to_vec());
}

#[test]
fn parses_empty_data_chunk() {
    let bytes = wav_file(1, 1, 16000, 16, &[]);
    let got = WhisperTranscriber::parse_wav_file(&bytes).unwrap();
    assert!(got.is_empty());
}

#[test]
fn skips_foreign_chunks_before_fmt_and_data() {
    let samples = [7i16, -7];
    let mut data = Vec::new();
    for s in samples {
        data.extend_from_slice(&s.to_le_bytes());
    }
    let mut chunks = chunk(b"LIST", &[1, 2, 3, 4, 5]);
    chunks.extend_from_slice(&chunk(b"fmt ", &fmt_body(1, 1, 16000, 16)));
    chunks.extend_from_slice(&chunk(b"junk", &[9; 3]));
    chunks.extend_from_slice(&chunk(b"data", &data));
    let mut bytes = Vec::new();
    bytes.extend_from_slice(b"RIFF");
    bytes.extend_from_slice(&((4 + chunks.len()) as u32).to_le_bytes());
    bytes.extend_from_slice(b"WAVE");
    bytes.extend_from_slice(&chunks);
    let got = WhisperTranscriber::parse_wav_file(&bytes).unwrap();
    assert_eq!(got, samples.to_vec());
}

#[test]
fn rejects_stereo() {
    let bytes = wav_file(1, 2, 16000, 16, &[0, 0]);
    let err = WhisperTranscriber::parse_wav_file(&bytes).unwrap_err();
    assert_eq!(err, "expected mono audio file");
}

#[test]
fn rejects_float_format() {
    let bytes = wav_file(3, 1, 16000, 16, &[0]);
    let err = WhisperTranscriber::parse_wav_file(&bytes).unwrap_err();
    assert_eq!(err, "expected integer sample format");
}

#[test]
fn rejects_wrong_rate() {
    let bytes = wav_file(1, 1, 44100, 16, &[0]);
    let err = WhisperTranscriber::parse_wav_file(&bytes).unwrap_err();
    assert_eq!(err, "expected 16KHz sample rate");
}

#[test]
fn rejects_wrong_bit_depth() {
    let bytes = wav_file(1, 1, 16000, 8, &[0]);
    let err = WhisperTranscriber::parse_wav_file(&bytes).unwrap_err();
    assert_eq!(err, "expected 16 bits per sample");
}

#[test]
fn rejects_garbage_and_truncation() {
    assert_eq!(WhisperTranscriber::parse_wav_file(&vec![]).unwrap_err(), "invalid WAV data");
    assert_eq!(
        WhisperTranscriber::parse_wav_file(&b"RIFFxxxxWONK".to_vec()).unwrap_err(),
        "invalid WAV data"
    );
    let mut bytes = wav_file(1, 1, 16000, 16, &[1, 2, 3]);
    bytes.truncate(bytes.len() - 2);
    assert_eq!(WhisperTranscriber::parse_wav_file(&bytes).unwrap_err(), "invalid WAV data");
}

#[test]
fn transcriber_binds_model_path() {
    let mut t = WhisperTranscriber::new();
    assert_eq!(t.model_path, None);
    t.load_model("/models/ggml-base.bin").unwrap();
    assert_eq!(t.model_path, Some("/models/ggml-base.bin".to_string()));
}
