use std::collections::VecDeque;

use codex_tui_kit::audio::{
    convert_pcm16, convert_u16_to_i16_and_peak, fill_output_i16, fill_output_u16, peak_i16,
    RecordedAudio,
};
use codex_tui_kit::transcription::{
    normalize_chatgpt_base_url, retry_step, transcription_request_attempts,
    transcription_retry_decision, RetryStep,
    TranscriptionAttempt, TranscriptionFailure, TranscriptionRetryDecision,
    TranscriptionRetryNotice,
};

#[test]
fn convert_pcm16_downmixes_and_resamples_for_model_input() {
    let input = vec![100, 300, 200, 400, 500, 700, 600, 800];
    let converted = convert_pcm16(
        &input, /*input_sample_rate*/ 48_000, /*input_channels*/ 2,
        /*output_sample_rate*/ 24_000, /*output_channels*/ 1,
    );
    assert_eq!(converted, vec![200, 700]);
}

#[test]
fn convert_pcm16_upmixes_and_keeps_rate() {
    assert_eq!(convert_pcm16(&[1, 2, 3], 16_000, 1, 16_000, 2), vec![1, 1, 2, 2, 3, 3]);
    assert_eq!(convert_pcm16(&[1, 2, 3, 4], 8_000, 2, 8_000, 3), vec![1, 2, 2, 3, 4, 4]);
    assert_eq!(convert_pcm16(&[1, 2, 3, 4, 5, 6], 8_000, 3, 8_000, 2), vec![1, 2, 4, 5]);
    assert_eq!(convert_pcm16(&[], 8_000, 1, 24_000, 1), Vec::<i16>::new());
    assert_eq!(convert_pcm16(&[5], 8_000, 2, 24_000, 1), Vec::<i16>::new());
}

#[test]
fn downmix_rounds_toward_zero() {
    assert_eq!(convert_pcm16(&[-3, -4], 8_000, 2, 8_000, 1), vec![-3]);
    assert_eq!(convert_pcm16(&[i16::MIN, i16::MIN], 8_000, 2, 8_000, 1), vec![i16::MIN]);
}

#[test]
fn upsampling_spreads_input_frames() {
    assert_eq!(convert_pcm16(&[10, 20], 1, 1, 2, 1), vec![10, 10, 10, 20]);
    assert_eq!(convert_pcm16(&[10, 20, 30, 40], 4, 1, 1, 1), vec![10]);
}

#[test]
fn peaks_use_absolute_values() {
    assert_eq!(peak_i16(&[]), 0);
    assert_eq!(peak_i16(&[3, -7, 5]), 7);
    assert_eq!(peak_i16(&[i16::MIN]), 32768);
    let mut out = vec![9];
    let peak = convert_u16_to_i16_and_peak(&[0, 32768, 65535], &mut out);
    assert_eq!(out, vec![9, -32768, 0, 32767]);
    assert_eq!(peak, 32768);
}

#[test]
fn playback_drains_the_queue_then_plays_silence() {
    let mut queue: VecDeque<i16> = VecDeque::from(vec![1, 2, 3]);
    let mut out = vec![7; 2];
    fill_output_i16(&mut out, &mut queue);
    assert_eq!(out, vec![1, 2]);
    assert_eq!(queue, VecDeque::from(vec![3]));
    let mut out = vec![7u16; 3];
    fill_output_u16(&mut out, &mut queue);
    assert_eq!(out, vec![32771, 32768, 32768]);
    assert!(queue.is_empty());
}

#[test]
fn recorded_audio_holds_interleaved_samples() {
    let audio = RecordedAudio {
        data: vec![100, -100, 200, -200],
        sample_rate: 48_000,
        channels: 2,
    };
    assert_eq!(
        convert_pcm16(&audio.data, audio.sample_rate, audio.channels, 24_000, 1),
        vec![0]
    );
}

#[test]
fn transcription_retry_decision_retries_only_transient_failures() {
    let next_attempt = Some(TranscriptionAttempt {
        number: 2,
        timeout_ms: 4_000,
    });

    assert_eq!(
        transcription_retry_decision(
            &TranscriptionFailure::Timeout { after_ms: 2_000 },
            next_attempt
        ),
        TranscriptionRetryDecision::Retry { delay_ms: None }
    );
    assert_eq!(
        transcription_retry_decision(
            &TranscriptionFailure::Send("connection reset".to_string()),
            next_attempt
        ),
        TranscriptionRetryDecision::Retry { delay_ms: None }
    );
    assert_eq!(
        transcription_retry_decision(
            &TranscriptionFailure::Status {
                status: 502,
                body: "bad gateway".to_string(),
                retry_after_ms: None,
            },
            next_attempt
        ),
        TranscriptionRetryDecision::Retry { delay_ms: None }
    );
    assert_eq!(
        transcription_retry_decision(
            &TranscriptionFailure::Status {
                status: 429,
                body: "slow down".to_string(),
                retry_after_ms: Some(3_000),
            },
            next_attempt
        ),
        TranscriptionRetryDecision::Retry {
            delay_ms: Some(3_000)
        }
    );
    assert_eq!(
        transcription_retry_decision(
            &TranscriptionFailure::Status {
                status: 429,
                body: "slow down".to_string(),
                retry_after_ms: Some(5_000),
            },
            next_attempt
        ),
        TranscriptionRetryDecision::Stop
    );
    assert_eq!(
        transcription_retry_decision(
            &TranscriptionFailure::Status {
                status: 401,
                body: "no".to_string(),
                retry_after_ms: None,
            },
            next_attempt
        ),
        TranscriptionRetryDecision::Stop
    );
    assert_eq!(
        transcription_retry_decision(&TranscriptionFailure::Json("invalid".to_string()), next_attempt),
        TranscriptionRetryDecision::Stop
    );
    assert_eq!(
        transcription_retry_decision(&TranscriptionFailure::Timeout { after_ms: 60_000 }, None),
        TranscriptionRetryDecision::Stop
    );
}

#[test]
fn retry_step_announces_the_next_attempt() {
    let attempts = [
        TranscriptionAttempt { number: 1, timeout_ms: 2_000 },
        TranscriptionAttempt { number: 2, timeout_ms: 4_000 },
        TranscriptionAttempt { number: 3, timeout_ms: 60_000 },
    ];
    assert_eq!(
        retry_step(&attempts, 0, &TranscriptionFailure::Send("reset".to_string())),
        RetryStep::Retry {
            notice: TranscriptionRetryNotice { next_attempt: 2, max_attempts: 3 },
            delay_ms: None,
        }
    );
    assert_eq!(
        retry_step(&attempts, 2, &TranscriptionFailure::Send("reset".to_string())),
        RetryStep::GiveUp
    );
}

#[test]
fn chatgpt_base_url_gains_backend_api() {
    assert_eq!(normalize_chatgpt_base_url("https://chatgpt.com/"), "https://chatgpt.com/backend-api");
    assert_eq!(
        normalize_chatgpt_base_url("https://chatgpt.com/backend-api//"),
        "https://chatgpt.com/backend-api"
    );
    assert_eq!(
        normalize_chatgpt_base_url("https://chat.openai.com"),
        "https://chat.openai.com/backend-api"
    );
    assert_eq!(normalize_chatgpt_base_url("https://example.com/"), "https://example.com");
}

#[test]
fn transcription_request_attempts_scale_with_audio_duration() {
    let actual = [0u64, 1_000, 5_000, 10_000, 20_000]
        .into_iter()
        .map(|duration_ms| transcription_request_attempts(duration_ms).map(|attempt| attempt.timeout_ms))
        .collect::<Vec<_>>();

    assert_eq!(
        actual,
        vec![
            [2_000, 4_000, 60_000],
            [2_000, 4_000, 60_000],
            [10_000, 15_000, 60_000],
            [15_000, 30_000, 60_000],
            [15_000, 30_000, 60_000],
        ]
    );
}

#[test]
fn transcription_attempts_are_numbered_in_order() {
    let attempts = transcription_request_attempts(3_000);
    assert_eq!(
        attempts.map(|attempt| attempt.number),
        [1, 2, 3]
    );
    assert_eq!(attempts[0].timeout_ms, 6_000);
    assert_eq!(attempts[1].timeout_ms, 9_000);
}

#[test]
fn convert_pcm16_output_length_follows_frames_and_channels() {
    let input: Vec<i16> = (0..20).collect();
    // 10 stereo frames at 48 kHz become 5 frames at 24 kHz, 3 channels each.
    assert_eq!(convert_pcm16(&input, 48_000, 2, 24_000, 3).len(), 15);
    // Upsampling 10 mono frames by 3/2 gives 15 frames.
    assert_eq!(convert_pcm16(&input[..10], 16_000, 1, 24_000, 2).len(), 30);
    // A tiny ratio still gives one frame.
    assert_eq!(convert_pcm16(&input[..2], 48_000, 1, 8_000, 1).len(), 1);
    // Same rate and channels: the whole frames come back unchanged.
    let odd: Vec<i16> = vec![1, -2, 3, -4, 5, -6, 7];
    assert_eq!(convert_pcm16(&odd, 16_000, 2, 16_000, 2), vec![1, -2, 3, -4, 5, -6]);
    assert_eq!(convert_pcm16(&odd, 16_000, 1, 16_000, 1), odd);
}
