use dictum::config::Config;
use dictum::transcript::{adaptive_timeout_secs, whisper_args, whisper_failed, whisper_output_text};

#[test]
fn whisper_output_keeps_only_speech() {
    let raw = "1\r\n[00:00.000 --> 00:02.000]\r\n Bonjour  le\r\n(Music)\r\nmonde\n\n--> x\nBLANK_AUDIO\n  2024 \n";
    assert_eq!(whisper_output_text(raw), "Bonjour le monde");
}

#[test]
fn whisper_output_strips_escape_codes() {
    assert_eq!(whisper_output_text("\u{1b}[38;5;160mSalut\u{1b}[0m tout\rle monde"), "Salut tout le monde");
    assert_eq!(whisper_output_text(""), "");
}

#[test]
fn timeouts() {
    assert_eq!(adaptive_timeout_secs(0), 60);
    assert_eq!(adaptive_timeout_secs(3), 60);
    assert_eq!(adaptive_timeout_secs(10), 100);
    assert_eq!(adaptive_timeout_secs(30), 300);
    assert_eq!(adaptive_timeout_secs(3600), 300);
}

#[test]
fn failure_needs_an_error_and_almost_no_output() {
    assert!(whisper_failed(false, 9));
    assert!(!whisper_failed(false, 10));
    assert!(!whisper_failed(true, 0));
}

fn strs(v: &[&str]) -> Vec<String> {
    v.iter().map(|s| s.to_string()).collect()
}

#[test]
fn default_whisper_arguments() {
    let c = Config::defaults_at("m.bin".to_string());
    assert_eq!(
        whisper_args(&c, 4, "0.00", "w.wav"),
        strs(&[
            "--model", "m.bin", "--no-timestamps", "--threads", "4", "--best-of", "1", "--beam-size", "1",
            "--print-colors", "false", "--print-special", "false", "--word-thold", "0.01", "--file", "w.wav",
        ])
    );
}

#[test]
fn optional_whisper_arguments() {
    let mut c = Config::defaults_at("m.bin".to_string());
    c.language = "fr".to_string();
    c.whisper_no_speech = true;
    c.whisper_temperature_bits = 0.2f32.to_bits();
    assert_eq!(
        whisper_args(&c, 8, "0.20", "w.wav"),
        strs(&[
            "--model", "m.bin", "--no-timestamps", "--threads", "8", "--best-of", "1", "--beam-size", "1",
            "--print-colors", "false", "--print-special", "false", "--word-thold", "0.01", "--no-speech-thold",
            "0.6", "--temperature", "0.20", "--file", "w.wav", "--language", "fr",
        ])
    );
    c.whisper_temperature_bits = (-0.0f32).to_bits();
    assert!(!whisper_args(&c, 8, "-0.00", "w.wav").contains(&"--temperature".to_string()));
}
