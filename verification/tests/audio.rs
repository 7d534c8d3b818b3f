use byetype::audio::{
    audio_to_base64, check_audio_input, check_captured, check_duration, encode_flac,
    extension_for_content_type, validate_content_type, AudioRecorder,
};

#[test]
fn unsupported_content_type_is_rejected() {
    let error = check_audio_input(b"not audio".len(), "text/plain").unwrap_err();

    assert_eq!(error, "不支持的音频格式：text/plain");
}

#[test]
fn empty_audio_is_rejected() {
    assert_eq!(check_audio_input(0, "audio/wav"), Err("音频内容为空".to_string()));
    assert_eq!(check_audio_input(10, "audio/wav"), Ok("wav"));
}

#[test]
fn content_types_map_to_extensions() {
    assert_eq!(extension_for_content_type("audio/flac"), Some("flac"));
    assert_eq!(extension_for_content_type("audio/x-flac"), Some("flac"));
    assert_eq!(extension_for_content_type("audio/MPEG"), Some("mp3"));
    assert_eq!(extension_for_content_type(" audio/x-m4a ; codecs=aac"), Some("m4a"));
    assert_eq!(extension_for_content_type("audio/wave"), Some("wav"));
    assert_eq!(extension_for_content_type("audio/ogg"), None);
    assert_eq!(extension_for_content_type(""), None);
    assert!(validate_content_type("audio/mp3").is_ok());
    assert_eq!(
        validate_content_type("video/mp4"),
        Err("不支持的音频格式：video/mp4".to_string())
    );
}

#[test]
fn audio_over_the_configured_duration_is_rejected() {
    assert_eq!(
        check_duration(8_000, 8_000, 0),
        Err("音频时长超过 0 秒限制".to_string())
    );
    assert_eq!(check_duration(8_000, 8_000, 1), Ok(()));
    assert_eq!(check_duration(16_001, 8_000, 2), Err("音频时长超过 2 秒限制".to_string()));
}

#[test]
fn flac_stream_starts_with_its_marker() {
    let pcm: Vec<i16> = (0..4096).map(|i| ((i % 100) * 100) as i16).collect();
    let flac = encode_flac(&pcm).unwrap();

    assert!(flac.starts_with(b"fLaC"));
}

#[test]
fn base64_of_audio_bytes() {
    assert_eq!(audio_to_base64(b"fake"), "ZmFrZQ==");
    assert_eq!(audio_to_base64(b""), "");
}

#[test]
fn test_new_recorder_is_idle() {
    let recorder = AudioRecorder::new();
    assert!(!recorder.is_recording());
}

#[test]
fn test_stop_when_not_recording_returns_error() {
    let mut recorder = AudioRecorder::new();
    assert!(recorder.stop().is_err());
}

#[test]
fn test_elapsed_since_start_is_none_when_idle() {
    let recorder = AudioRecorder::new();
    assert!(recorder.elapsed_since_start(1_000).is_none());
}

#[test]
fn test_cancel_when_not_recording_returns_error() {
    let mut recorder = AudioRecorder::new();
    assert!(recorder.cancel().is_err());
}

#[test]
fn recorder_refuses_a_second_start_and_stops_once() {
    let mut recorder = AudioRecorder::new();
    recorder.prepare_start().unwrap();
    recorder.started(1_000);
    assert!(recorder.is_recording());
    assert_eq!(recorder.elapsed_since_start(1_250), Some(250));
    assert_eq!(recorder.prepare_start(), Err("Already recording".to_string()));
    recorder.mark_audio_started();
    assert!(recorder.audio_started());

    assert_eq!(recorder.stop(), Ok(()));
    assert!(!recorder.is_recording());
    assert!(recorder.elapsed_since_start(2_000).is_none());
    assert_eq!(recorder.stop(), Err("Not recording".to_string()));
    assert_eq!(recorder.prepare_start(), Ok(()));
    assert!(!recorder.audio_started());
}

#[test]
fn empty_capture_is_an_error() {
    assert_eq!(check_captured(0), Err("No audio data captured".to_string()));
    assert_eq!(check_captured(1), Ok(()));
}

#[test]
fn cancelled_encoding_reports_the_cancellation() {
    assert_eq!(byetype::audio::cancellable_encode_error(true, "encode", "x"), "请求已取消");
    assert_eq!(byetype::audio::cancellable_encode_error(false, "write", "Io"), "FLAC write error: Io");
}
