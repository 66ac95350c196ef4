use syn2::{read_raw_wav, write_wav_pcm16, WavError};

#[test]
fn each_kind_has_its_phrase() {
    assert_eq!(WavError::Truncated.message(), "file is truncated");
    assert_eq!(
        WavError::BadHeader("RIFF missing").message(),
        "bad WAV header: RIFF missing"
    );
    assert_eq!(
        WavError::MissingChunk("fmt ").message(),
        "missing required chunk: fmt "
    );
    assert_eq!(
        WavError::Invalid("duplicate fmt chunk").message(),
        "invalid WAV: duplicate fmt chunk"
    );
}

#[test]
fn unsupported_format_is_spelled_out_in_decimal() {
    let e = WavError::UnsupportedFormat { audio_format: 3, bits_per_sample: 32, channels: 2 };
    assert_eq!(
        e.message(),
        "unsupported WAV format: audio_format=3, bits_per_sample=32, channels=2"
    );
    let e = WavError::UnsupportedFormat { audio_format: 65534, bits_per_sample: 0, channels: 10 };
    assert_eq!(
        e.message(),
        "unsupported WAV format: audio_format=65534, bits_per_sample=0, channels=10"
    );
    let e = WavError::UnsupportedFormat { audio_format: 65535, bits_per_sample: 1000, channels: 909 };
    assert_eq!(
        e.message(),
        "unsupported WAV format: audio_format=65535, bits_per_sample=1000, channels=909"
    );
}

#[test]
fn io_message_starts_with_its_prefix_and_quotes_the_platform() {
    let inner = std::io::Error::new(std::io::ErrorKind::PermissionDenied, "locked away");
    let text = inner.to_string();
    let message = WavError::from(inner).message();
    assert_eq!(message, format!("I/O error: {}", text));
    assert!(message.starts_with("I/O error: "));
    assert!(message.ends_with("locked away"));
}

#[test]
fn codec_errors_read_well() {
    let e = read_raw_wav(b"RIFF\x00\x00\x00\x00WAVX").unwrap_err();
    assert_eq!(e.message(), "bad WAV header: WAVE missing");
    let e = read_raw_wav(b"RIFF\x00\x00\x00\x00WAVE").unwrap_err();
    assert_eq!(e.message(), "missing required chunk: fmt ");
    let e = write_wav_pcm16(&[1, 2, 3], 8000, 2).unwrap_err();
    assert_eq!(e.message(), "invalid WAV: samples length not divisible by num_channels");
    let e = write_wav_pcm16(&[], 8000, 0).unwrap_err();
    assert_eq!(e.message(), "invalid WAV: num_channels must be >= 1");
}
