use dictum::downloader::{
    download_all_binaries, download_file, download_start, parse_nvidia_smi, range_header, status_accepted,
    user_agent, BinaryEntry, DownloadSink, DownloadStart, Manifest, ModelEntry,
};

const SHA_ABC: &str = "ba7816bf8f01cfea414140de5dae2223b00361a396177a9cb410ff61f20015ad";

#[test]
fn user_agent_names_the_version() {
    assert_eq!(user_agent(), "Dictum/1.0.0 (Windows)");
}

#[test]
fn download_start_cases() {
    assert_eq!(download_start(100, 0), DownloadStart::Fresh);
    assert_eq!(download_start(100, 40), DownloadStart::Resume(40));
    assert_eq!(download_start(100, 100), DownloadStart::Complete);
    assert_eq!(download_start(100, 150), DownloadStart::Complete);
    assert_eq!(download_start(0, 40), DownloadStart::Resume(40));
    assert_eq!(download_start(0, 0), DownloadStart::Fresh);
}

#[test]
fn range_header_text() {
    assert_eq!(range_header(1048576), "bytes=1048576-");
}

#[test]
fn accepted_statuses() {
    assert!(status_accepted(200));
    assert!(status_accepted(206));
    assert!(status_accepted(204));
    assert!(!status_accepted(301));
    assert!(!status_accepted(404));
    assert!(!status_accepted(500));
}

#[test]
fn checksum_of_received_bytes_matches() {
    let mut sink = DownloadSink::new();
    sink.feed(b"a");
    sink.feed(b"bc");
    assert_eq!(sink.downloaded(), 3);
    assert!(sink.finish(SHA_ABC).is_ok());
}

#[test]
fn checksum_mismatch_is_reported() {
    let mut sink = DownloadSink::new();
    sink.feed(b"ab");
    sink.feed(b"d");
    assert_eq!(sink.downloaded(), 3);
    let err = sink.finish(SHA_ABC).err().expect("mismatch");
    assert_eq!(err.expected, SHA_ABC);
    assert_eq!(err.actual.len(), 64);
    assert_ne!(err.actual, SHA_ABC);
}

#[test]
fn resumed_download_is_checked_on_the_whole_file() {
    let mut sink = DownloadSink::new();
    sink.feed(b"a");
    assert_eq!(sink.downloaded(), 1);
    sink.feed(b"bc");
    assert_eq!(sink.downloaded(), 3);
    assert!(sink.finish(SHA_ABC).is_ok());
}

#[test]
fn empty_expected_checksum_is_not_checked() {
    let mut sink = DownloadSink::new();
    sink.feed(b"whatever");
    assert!(sink.finish("").is_ok());
}

#[test]
fn checksum_of_nothing() {
    let sink = DownloadSink::new();
    assert!(sink
        .finish("e3b0c44298fc1c149afbf4c8996fb92427ae41e4649b934ca495991b7852b855")
        .is_ok());
}

#[test]
fn uppercase_checksum_does_not_match() {
    let mut sink = DownloadSink::new();
    sink.feed(b"abc");
    assert!(sink.finish(&SHA_ABC.to_uppercase()).is_err());
}

#[test]
fn file_entry() {
    let e = download_file("https://x/y.bin", "ff", 12);
    assert_eq!(e.url, "https://x/y.bin");
    assert_eq!(e.sha256, "ff");
    assert_eq!(e.size_bytes, 12);
    assert_eq!(e.description, "");
}

fn bin(url: &str) -> BinaryEntry {
    BinaryEntry { url: url.to_string(), size_bytes: 3, sha256: "aa".to_string() }
}

#[test]
fn binaries_on_disk_are_skipped() {
    let m = Manifest {
        version: "1".to_string(),
        models: vec![],
        binaries: vec![
            ("whisper-cli.exe".to_string(), bin("u1")),
            ("ggml.dll".to_string(), bin("u2")),
            ("whisper.dll".to_string(), bin("u3")),
        ],
    };
    let jobs = download_all_binaries(&m, &vec![false, true, false]);
    let names: Vec<String> = jobs.iter().map(|j| j.name.clone()).collect();
    assert_eq!(names, vec!["whisper-cli.exe".to_string(), "whisper.dll".to_string()]);
    assert_eq!(jobs[1].entry.url, "u3");
    assert_eq!(jobs[1].entry.size_bytes, 3);
    assert!(download_all_binaries(&m, &vec![true, true, true]).is_empty());
}

#[test]
fn model_lookup_by_name() {
    let m = Manifest {
        version: "1".to_string(),
        models: vec![(
            "medium".to_string(),
            ModelEntry { url: "m".to_string(), size_bytes: 1, sha256: String::new(), description: "d".to_string() },
        )],
        binaries: vec![],
    };
    assert_eq!(m.model("medium").map(|e| e.url.clone()), Some("m".to_string()));
    assert!(m.model("large-v3").is_none());
}

#[test]
fn nvidia_output_is_read() {
    let g = parse_nvidia_smi("NVIDIA GeForce RTX 3060, 12288\r\n").expect("gpu");
    assert_eq!(g.name, "NVIDIA GeForce RTX 3060");
    assert_eq!(g.vram_mb, 12288);
    assert!(g.capable);
}

#[test]
fn old_or_small_cards_are_not_capable() {
    let g = parse_nvidia_smi("Quadro K2000, 2048\n").expect("gpu");
    assert!(!g.capable);
    let g = parse_nvidia_smi("NVIDIA GeForce GTX 1050, 2048").expect("gpu");
    assert!(!g.capable);
    let g = parse_nvidia_smi("NVIDIA GeForce GTX 1080, 8192\nsecond, 1").expect("gpu");
    assert!(g.capable);
}

#[test]
fn unreadable_memory_counts_as_zero() {
    let g = parse_nvidia_smi("Tesla T4, [N/A]").expect("gpu");
    assert_eq!(g.vram_mb, 0);
    assert!(!g.capable);
}

#[test]
fn no_comma_no_card() {
    assert!(parse_nvidia_smi("").is_none());
    assert!(parse_nvidia_smi("No devices were found\n").is_none());
}
