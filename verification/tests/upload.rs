use collector::bench_processor::{ArtifactIdNumber, CollectionId};
use collector::stat_output::SelfProfileFiles;
use collector::upload::{compress_profile, compressed_body, upload_prefix, Upload, UploadError};
use std::io::Read;

fn seven() -> SelfProfileFiles {
    SelfProfileFiles::Seven {
        dir: "/d".to_string(),
        string_data: Some("p.string_data".to_string()),
        string_index: None,
        events: Some("p.events".to_string()),
    }
}

#[test]
fn the_place_is_made_of_artifact_benchmark_profile_and_scenario() {
    let prefix = upload_prefix(ArtifactIdNumber(42), "helloworld", "opt", "incr-full");
    assert_eq!(prefix, "self-profile/42/helloworld/opt/incr-full");
    let prefix = upload_prefix(ArtifactIdNumber(0), "", "", "");
    assert_eq!(prefix, "self-profile/0///");
}

#[test]
fn three_files_travel_as_an_archive() {
    let upload = Upload::new("self-profile/1/b/check/full", CollectionId(305), seven());
    assert_eq!(upload.file_name, "self-profile-305.tar.sz");
    assert_eq!(upload.destination, "s3://rustc-perf/self-profile/1/b/check/full/self-profile-305.tar.sz");
    assert_eq!(upload.files, seven());
    assert_eq!(
        upload.members(),
        vec![
            ("p.string_data".to_string(), "self-profile.string_data".to_string()),
            ("p.events".to_string(), "self-profile.events".to_string()),
        ]
    );
}

#[test]
fn the_archive_lists_index_data_events() {
    let files = SelfProfileFiles::Seven {
        dir: "/d".to_string(),
        string_data: Some("d".to_string()),
        string_index: Some("i".to_string()),
        events: Some("e".to_string()),
    };
    let upload = Upload::new("p", CollectionId(1), files);
    let names: Vec<String> = upload.members().into_iter().map(|m| m.1).collect();
    assert_eq!(names, vec!["self-profile.string_index", "self-profile.string_data", "self-profile.events"]);
}

#[test]
fn one_file_travels_as_it_is() {
    let files = SelfProfileFiles::Eight { file: "/tmp/x.mm_profdata".to_string() };
    let upload = Upload::new("self-profile/1/b/doc/full", CollectionId(4294967295), files);
    assert_eq!(upload.file_name, "self-profile-4294967295.mm_profdata.sz");
    assert!(upload.members().is_empty());
}

#[test]
fn the_upload_command_copies_to_the_destination() {
    let upload = Upload::new("pre", CollectionId(9), seven());
    let cmd = upload.command("/tmp/up", "/work");
    assert_eq!(cmd.program, "aws");
    assert_eq!(cmd.cwd, "/work");
    assert!(cmd.envs.is_empty());
    assert_eq!(
        cmd.args,
        vec![
            "s3", "cp", "--storage-class", "INTELLIGENT_TIERING", "--only-show-errors", "/tmp/up",
            "s3://rustc-perf/pre/self-profile-9.tar.sz",
        ]
    );
}

#[test]
fn a_failed_upload_is_an_error() {
    let upload = Upload::new("pre", CollectionId(9), seven());
    assert_eq!(upload.clone().wait(true), Ok(()));
    assert_eq!(upload.wait(false), Err(UploadError::Failed));
}

#[test]
fn compressed_data_reads_back() {
    let data: Vec<u8> = (0..200_000u32).map(|i| (i % 7) as u8).collect();
    let body = compress_profile(&data).unwrap();
    assert_ne!(body, data);
    assert!(body.len() < data.len());
    assert_eq!(&body[..10], b"\xFF\x06\x00\x00sNaPpY");
    let mut back = Vec::new();
    snap::read::FrameDecoder::new(&body[..]).read_to_end(&mut back).unwrap();
    assert_eq!(back, data);
}

#[test]
fn compression_depends_on_the_data_alone() {
    let data = b"the same bytes give the same frames".to_vec();
    assert_eq!(compress_profile(&data), compress_profile(&data));
    assert_eq!(compress_profile(&vec![]), Ok(vec![]));
}

#[test]
fn every_input_has_a_compressed_form() {
    for len in [0usize, 1, 65_535, 65_536, 65_537, 300_000] {
        let data: Vec<u8> = (0..len).map(|i| (i * 31 % 251) as u8).collect();
        let body = compress_profile(&data).unwrap();
        let mut back = Vec::new();
        snap::read::FrameDecoder::new(&body[..]).read_to_end(&mut back).unwrap();
        assert_eq!(back, data, "length {}", len);
    }
}

#[test]
fn a_missing_body_is_a_compression_error() {
    assert_eq!(compressed_body(None), Err(UploadError::Compression));
    assert_eq!(compressed_body(Some(vec![1, 2])), Ok(vec![1, 2]));
}
