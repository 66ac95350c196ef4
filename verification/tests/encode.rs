use syn2::{write_wav_pcm16, write_wav_pcm16_mono, write_wav_pcm16_stereo, WavError};

#[test]
fn mono_container_has_the_canonical_bytes() {
    let bytes = write_wav_pcm16_mono(&[1, -2], 8000).unwrap();
    let expected: Vec<u8> = vec![
        b'R', b'I', b'F', b'F', 40, 0, 0, 0, b'W', b'A', b'V', b'E', // header
        b'f', b'm', b't', b' ', 16, 0, 0, 0, // format chunk, 16 bytes
        1, 0, // linear PCM
        1, 0, // one channel
        0x40, 0x1f, 0, 0, // 8000 Hz
        0x80, 0x3e, 0, 0, // 16000 bytes per second
        2, 0, // block alignment
        16, 0, // bits per sample
        b'd', b'a', b't', b'a', 4, 0, 0, 0, // sample chunk, 4 bytes
        0x01, 0x00, 0xfe, 0xff,
    ];
    assert_eq!(bytes, expected);
}

#[test]
fn stereo_container_states_alignment_and_byte_rate() {
    let bytes = write_wav_pcm16_stereo(&[0x0102, 0x0304, -1, i16::MIN], 44100).unwrap();
    assert_eq!(bytes.len(), 44 + 8);
    // total size = 36 + data size
    assert_eq!(&bytes[4..8], &[44, 0, 0, 0]);
    // channels
    assert_eq!(&bytes[22..24], &[2, 0]);
    // 44100 = 0x0000ac44
    assert_eq!(&bytes[24..28], &[0x44, 0xac, 0x00, 0x00]);
    // 44100 * 4 = 176400 = 0x0002b110
    assert_eq!(&bytes[28..32], &[0x10, 0xb1, 0x02, 0x00]);
    // block alignment = 2 channels * 2 bytes
    assert_eq!(&bytes[32..34], &[4, 0]);
    assert_eq!(&bytes[34..36], &[16, 0]);
    assert_eq!(&bytes[40..44], &[8, 0, 0, 0]);
    assert_eq!(&bytes[44..], &[0x02, 0x01, 0x04, 0x03, 0xff, 0xff, 0x00, 0x80]);
}

#[test]
fn mono_and_stereo_are_the_general_encoder_at_one_and_two_channels() {
    let samples: Vec<i16> = vec![5, -5, 300, -300];
    assert_eq!(
        write_wav_pcm16_mono(&samples, 22050).unwrap(),
        write_wav_pcm16(&samples, 22050, 1).unwrap()
    );
    assert_eq!(
        write_wav_pcm16_stereo(&samples, 22050).unwrap(),
        write_wav_pcm16(&samples, 22050, 2).unwrap()
    );
}

#[test]
fn no_samples_give_a_bare_preamble() {
    let bytes = write_wav_pcm16(&[], 48000, 3).unwrap();
    assert_eq!(bytes.len(), 44);
    assert_eq!(&bytes[4..8], &[36, 0, 0, 0]);
    assert_eq!(&bytes[32..34], &[6, 0]);
    assert_eq!(&bytes[40..44], &[0, 0, 0, 0]);
}

#[test]
fn extreme_samples_are_written_in_twos_complement() {
    let bytes = write_wav_pcm16_mono(&[i16::MAX, i16::MIN, -1, 0, 256, -256], 8000).unwrap();
    assert_eq!(
        &bytes[44..],
        &[0xff, 0x7f, 0x00, 0x80, 0xff, 0xff, 0x00, 0x00, 0x00, 0x01, 0x00, 0xff]
    );
}

#[test]
fn zero_channels_are_invalid() {
    let r = write_wav_pcm16(&[1, 2], 8000, 0);
    assert!(matches!(r, Err(WavError::Invalid("num_channels must be >= 1"))));
}

#[test]
fn samples_that_do_not_fill_the_frames_are_invalid() {
    let r = write_wav_pcm16(&[1, 2, 3], 8000, 2);
    assert!(matches!(
        r,
        Err(WavError::Invalid("samples length not divisible by num_channels"))
    ));
    let r = write_wav_pcm16_stereo(&[1], 8000);
    assert!(matches!(r, Err(WavError::Invalid(_))));
}

#[test]
fn block_alignment_must_fit_sixteen_bits() {
    let r = write_wav_pcm16(&[], 8000, 32768);
    assert!(matches!(r, Err(WavError::Invalid("block_align overflow"))));
    // 32767 channels give 65534, the largest alignment there is.
    let bytes = write_wav_pcm16(&[], 1, 32767).unwrap();
    assert_eq!(&bytes[32..34], &[0xfe, 0xff]);
}

#[test]
fn byte_rate_must_fit_thirty_two_bits() {
    let r = write_wav_pcm16(&[], 0x8000_0000, 1);
    assert!(matches!(r, Err(WavError::Invalid("byte_rate overflow"))));
    // 0x7fffffff * 2 = 0xfffffffe still fits.
    let bytes = write_wav_pcm16(&[], 0x7fff_ffff, 1).unwrap();
    assert_eq!(&bytes[28..32], &[0xfe, 0xff, 0xff, 0xff]);
}

#[test]
fn channel_check_comes_before_the_frame_check() {
    // With no channel the sample count is not looked at.
    let r = write_wav_pcm16(&[1, 2, 3], 8000, 0);
    assert!(matches!(r, Err(WavError::Invalid("num_channels must be >= 1"))));
    // An odd count at 40000 channels fails for the frames, not for the alignment.
    let r = write_wav_pcm16(&[1], 8000, 40000);
    assert!(matches!(
        r,
        Err(WavError::Invalid("samples length not divisible by num_channels"))
    ));
}
