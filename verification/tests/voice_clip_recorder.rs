use schizoid::voice_clip_recorder::{
    ClipError, UserAudioBuffer, VoiceClipRecorderState, VoiceEvent, VoiceFrame, MAX_SAMPLES,
};
use std::time::{Duration, Instant};

fn samples_of(wav: &[u8]) -> Vec<i16> {
    wav[44..]
        .chunks(2)
        .map(|c| i16::from_le_bytes([c[0], c[1]]))
        .collect()
}

fn header(n: u32) -> Vec<u8> {
    let mut h = Vec::new();
    h.extend_from_slice(b"RIFF");
    h.extend_from_slice(&(36 + 2 * n).to_le_bytes());
    h.extend_from_slice(b"WAVE");
    h.extend_from_slice(b"fmt ");
    h.extend_from_slice(&16u32.to_le_bytes());
    h.extend_from_slice(&1u16.to_le_bytes());
    h.extend_from_slice(&1u16.to_le_bytes());
    h.extend_from_slice(&48_000u32.to_le_bytes());
    h.extend_from_slice(&96_000u32.to_le_bytes());
    h.extend_from_slice(&2u16.to_le_bytes());
    h.extend_from_slice(&16u16.to_le_bytes());
    h.extend_from_slice(b"data");
    h.extend_from_slice(&(2 * n).to_le_bytes());
    h
}

#[test]
fn empty_buffer_has_no_wav() {
    let buf = UserAudioBuffer::new();
    assert!(buf.to_wav_bytes().is_none());
}

#[test]
fn wav_bytes_are_header_then_little_endian_pcm() {
    let mut buf = UserAudioBuffer::new();
    buf.write_slice(&[1, -1, 256, i16::MIN, i16::MAX]);
    let wav = buf.to_wav_bytes().unwrap();
    let mut expected = header(5);
    expected.extend_from_slice(&[1, 0, 0xff, 0xff, 0, 1, 0x00, 0x80, 0xff, 0x7f]);
    assert_eq!(wav, expected);
    assert_eq!(wav.len(), 44 + 10);
    assert_eq!(&wav[4..8], &46u32.to_le_bytes());
}

#[test]
fn empty_slice_changes_nothing() {
    let mut buf = UserAudioBuffer::new();
    buf.write_slice(&[]);
    assert!(buf.to_wav_bytes().is_none());
    buf.write_slice(&[7]);
    buf.write_slice(&[]);
    assert_eq!(samples_of(&buf.to_wav_bytes().unwrap()), vec![7]);
}

#[test]
fn ring_keeps_the_last_minute() {
    let mut buf = UserAudioBuffer::new();
    let first: Vec<i16> = (0..(MAX_SAMPLES - 10)).map(|i| (i % 1000) as i16).collect();
    buf.write_slice(&first);
    let second: Vec<i16> = (0..25).map(|i| 2000 + i as i16).collect();
    buf.write_slice(&second);
    let got = samples_of(&buf.to_wav_bytes().unwrap());
    assert_eq!(got.len(), MAX_SAMPLES);
    let mut all = first.clone();
    all.extend_from_slice(&second);
    assert_eq!(got, all[all.len() - MAX_SAMPLES..].to_vec());
}

#[test]
fn oversized_slice_keeps_its_tail() {
    let mut buf = UserAudioBuffer::new();
    buf.write_slice(&[9, 9, 9]);
    let big: Vec<i16> = (0..(MAX_SAMPLES + 7)).map(|i| (i % 30000) as i16).collect();
    buf.write_slice(&big);
    let got = samples_of(&buf.to_wav_bytes().unwrap());
    assert_eq!(got, big[7..].to_vec());
}

#[test]
fn silence_is_capped_at_a_buffer() {
    let mut buf = UserAudioBuffer::new();
    buf.write_slice(&[5, 6]);
    buf.write_silence(3);
    assert_eq!(samples_of(&buf.to_wav_bytes().unwrap()), vec![5, 6, 0, 0, 0]);
    buf.write_silence(MAX_SAMPLES * 2);
    let got = samples_of(&buf.to_wav_bytes().unwrap());
    assert_eq!(got.len(), MAX_SAMPLES);
    assert!(got.iter().all(|s| *s == 0));
    let mut other = UserAudioBuffer::new();
    other.write_silence(0);
    assert!(other.to_wav_bytes().is_none());
}

#[test]
fn gap_between_frames_becomes_silence() {
    let mut buf = UserAudioBuffer::new();
    buf.push_frame_after(&[1, 2], None);
    buf.push_frame_after(&[3], Some(100));
    let got = samples_of(&buf.to_wav_bytes().unwrap());
    // (100 - 20) ms at 48 kHz
    assert_eq!(got.len(), 2 + 3840 + 1);
    assert_eq!(&got[..2], &[1, 2]);
    assert!(got[2..3842].iter().all(|s| *s == 0));
    assert_eq!(got[3842], 3);
}

#[test]
fn short_gap_adds_nothing() {
    let mut buf = UserAudioBuffer::new();
    buf.push_frame_after(&[1], None);
    buf.push_frame_after(&[2], Some(35));
    buf.push_frame_after(&[3], Some(20));
    assert_eq!(samples_of(&buf.to_wav_bytes().unwrap()), vec![1, 2, 3]);
}

#[test]
fn long_silence_forgets_history() {
    let mut buf = UserAudioBuffer::new();
    buf.push_frame_after(&[1, 2, 3], None);
    buf.push_frame_after(&[4], Some(60_000));
    assert_eq!(samples_of(&buf.to_wav_bytes().unwrap()), vec![4]);
    let mut other = UserAudioBuffer::new();
    other.push_frame_after(&[1], None);
    other.push_frame_after(&[2], Some(59_999));
    let got = samples_of(&other.to_wav_bytes().unwrap());
    assert_eq!(got.len(), 1 + 2_878_992 + 1);
}

#[test]
fn push_frame_measures_the_gap() {
    let mut buf = UserAudioBuffer::new();
    let t0 = Instant::now();
    buf.push_frame(&[1], t0);
    buf.push_frame(&[2], t0 + Duration::from_millis(100));
    let got = samples_of(&buf.to_wav_bytes().unwrap());
    assert_eq!(got.len(), 1 + 3840 + 1);
    buf.push_frame(&[3], t0 + Duration::from_millis(100) + Duration::from_secs(61));
    assert_eq!(samples_of(&buf.to_wav_bytes().unwrap()), vec![3]);
}

#[test]
fn recorder_follows_speakers() {
    let mut state = VoiceClipRecorderState::new();
    state.act(&VoiceEvent::SpeakingStateUpdate { ssrc: 7, user_id: Some(42) });
    assert_eq!(state.clip_wav(42), Err(ClipError::EmptyRecording));
    assert_eq!(state.clip_wav(43), Err(ClipError::NoRecordedAudio));
    let now = Instant::now();
    state.apply(
        &VoiceEvent::VoiceTick(vec![
            VoiceFrame { ssrc: 7, decoded: Some(vec![10, 11]) },
            VoiceFrame { ssrc: 8, decoded: Some(vec![99]) },
            VoiceFrame { ssrc: 7, decoded: None },
        ]),
        now,
    );
    let wav = state.clip_wav(42).unwrap();
    assert_eq!(samples_of(&wav), vec![10, 11]);
    assert_eq!(state.clip_wav(0), Err(ClipError::NoRecordedAudio));
    state.act(&VoiceEvent::ClientDisconnect { user_id: 42 });
    assert_eq!(state.clip_wav(42), Err(ClipError::NoRecordedAudio));
    assert!(state.ssrc_map.contains_key(&7));
    state.act(&VoiceEvent::DriverDisconnect);
    assert!(state.ssrc_map.is_empty());
    assert!(state.buffers.is_empty());
}

#[test]
fn tick_creates_buffer_for_known_speaker() {
    let mut state = VoiceClipRecorderState::new();
    state.ssrc_map.insert(3, 5);
    state.apply(
        &VoiceEvent::VoiceTick(vec![VoiceFrame { ssrc: 3, decoded: Some(vec![1]) }]),
        Instant::now(),
    );
    assert_eq!(samples_of(&state.clip_wav(5).unwrap()), vec![1]);
    state.act(&VoiceEvent::Other);
    assert!(state.buffers.contains_key(&5));
    state.act(&VoiceEvent::SpeakingStateUpdate { ssrc: 9, user_id: None });
    assert!(!state.ssrc_map.contains_key(&9));
}

#[test]
fn defaults_are_empty() {
    let buf = UserAudioBuffer::default();
    assert!(buf.to_wav_bytes().is_none());
    let state = VoiceClipRecorderState::default();
    assert!(state.buffers.is_empty() && state.ssrc_map.is_empty());
}

#[test]
fn ticks_keep_earlier_audio() {
    let mut state = VoiceClipRecorderState::new();
    state.ssrc_map.insert(3, 5);
    let t0 = Instant::now();
    state.apply(
        &VoiceEvent::VoiceTick(vec![
            VoiceFrame { ssrc: 3, decoded: Some(vec![1, 2]) },
            VoiceFrame { ssrc: 3, decoded: Some(vec![3]) },
        ]),
        t0,
    );
    assert_eq!(samples_of(&state.clip_wav(5).unwrap()), vec![1, 2, 3]);
    state.apply(&VoiceEvent::VoiceTick(vec![VoiceFrame { ssrc: 3, decoded: Some(vec![4]) }]), t0);
    assert_eq!(samples_of(&state.clip_wav(5).unwrap()), vec![1, 2, 3, 4]);
    // 100 ms later: 3840 samples of silence come first.
    state.apply(
        &VoiceEvent::VoiceTick(vec![VoiceFrame { ssrc: 3, decoded: Some(vec![5]) }]),
        t0 + Duration::from_millis(100),
    );
    let got = samples_of(&state.clip_wav(5).unwrap());
    assert_eq!(got.len(), 4 + 3840 + 1);
    assert_eq!(&got[..4], &[1, 2, 3, 4]);
    assert!(got[4..4 + 3840].iter().all(|s| *s == 0));
    assert_eq!(got[4 + 3840], 5);
}

#[test]
fn frames_of_one_instant_follow_each_other() {
    let mut buf = UserAudioBuffer::new();
    let t0 = Instant::now();
    buf.push_frame(&[1, 2], t0);
    buf.push_frame(&[3], t0);
    buf.push_frame(&[4, 5], t0);
    assert_eq!(samples_of(&buf.to_wav_bytes().unwrap()), vec![1, 2, 3, 4, 5]);
}
