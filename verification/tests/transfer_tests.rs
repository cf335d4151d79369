use dietpi_dashboard::files::FileAction;
use dietpi_dashboard::files::FileRequest;
use dietpi_dashboard::files::file_request_step;
use dietpi_dashboard::transfer::CHUNK_SIZE;
use dietpi_dashboard::transfer::UploadState;
use dietpi_dashboard::transfer::chunk;
use dietpi_dashboard::transfer::chunk_count;
use dietpi_dashboard::transfer::split_chunks;

fn file_request(cmd: &str, path: &str, arg: &str) -> FileRequest {
    FileRequest {
        cmd: cmd.to_string(),
        path: path.to_string(),
        arg: arg.to_string(),
        token: String::new(),
    }
}

#[test]
fn chunk_count_is_the_ceiling_of_the_size() {
    assert_eq!(chunk_count(0), 0);
    assert_eq!(chunk_count(1), 1);
    assert_eq!(chunk_count(CHUNK_SIZE - 1), 1);
    assert_eq!(chunk_count(CHUNK_SIZE), 1);
    assert_eq!(chunk_count(CHUNK_SIZE + 1), 2);
    assert_eq!(chunk_count(2 * CHUNK_SIZE), 2);
    assert_eq!(chunk_count(2 * CHUNK_SIZE + 5), 3);
}

#[test]
fn chunks_are_full_sized_except_the_last_and_reassemble() {
    let mut data = Vec::new();
    let mut x: u32 = 1;
    while data.len() < 2 * CHUNK_SIZE + 123 {
        x = x.wrapping_mul(1664525).wrapping_add(1013904223);
        data.push((x >> 16) as u8);
    }
    let chunks = split_chunks(&data);
    assert_eq!(chunks.len(), 3);
    assert_eq!(chunks[0].len(), CHUNK_SIZE);
    assert_eq!(chunks[1].len(), CHUNK_SIZE);
    assert_eq!(chunks[2].len(), 123);
    let mut rebuilt = Vec::new();
    for c in &chunks {
        rebuilt.extend_from_slice(c);
    }
    assert_eq!(rebuilt, data);

    assert_eq!(chunk(&data, 2), chunks[2]);
    assert_eq!(&chunk(&data, 0)[..], &data[..CHUNK_SIZE]);
}

#[test]
fn upload_commits_exactly_at_the_declared_count() {
    // an upload declaring three chunks is written if and only if all three
    // binary frames arrive; fewer frames leave nothing committed
    let mut upload = UploadState::new();
    upload.begin("/tmp/dest".to_string(), 3);

    assert_eq!(upload.push_chunk(vec![1, 2]), None);
    assert_eq!(upload.push_chunk(vec![3]), None);
    // two of three received: a disconnect here would discard the buffer
    assert_eq!(upload.received, 2);

    let commit = upload.push_chunk(vec![4, 5, 6]);
    match commit {
        Some((path, body)) => {
            assert_eq!(path, "/tmp/dest");
            assert_eq!(body, vec![1, 2, 3, 4, 5, 6]);
        }
        None => panic!("the declared last chunk must commit the upload"),
    }
    // the accumulator is empty again, and later frames commit nothing more
    assert_eq!(upload.declared, 0);
    assert_eq!(upload.received, 0);
    assert!(upload.buf.is_empty());
    assert_eq!(upload.push_chunk(vec![7, 8]), None);
    assert_eq!(upload.push_chunk(vec![9]), None);
}

#[test]
fn upload_with_no_declaration_never_commits() {
    let mut upload = UploadState::new();
    assert_eq!(upload.push_chunk(vec![9, 9]), None);
    assert_eq!(upload.push_chunk(vec![9]), None);
    assert_eq!(upload.received, 2);
}

#[test]
fn new_up_command_resets_leftover_state() {
    let mut upload = UploadState::new();
    upload.begin("/tmp/a".to_string(), 5);
    upload.push_chunk(vec![1]);
    upload.begin("/tmp/b".to_string(), 1);
    assert_eq!(upload.received, 0);
    assert!(upload.buf.is_empty());
    let commit = upload.push_chunk(vec![7]);
    match commit {
        Some((path, body)) => {
            assert_eq!(path, "/tmp/b");
            assert_eq!(body, vec![7]);
        }
        None => panic!("the single declared chunk must commit"),
    }
}

#[test]
fn open_and_save_pass_path_and_content_through_verbatim() {
    // the round trip `open` → client → `save` keeps bytes identical as far
    // as the session layer goes: both hand path and content on unchanged
    let mut upload = UploadState::new();
    let action = file_request_step(&mut upload, file_request("open", "/etc/hostname", ""), false, "", 0);
    assert!(matches!(action, FileAction::ReadFile(p) if p == "/etc/hostname"));

    let content = "name=\"x\"\nvalue=42\n";
    let action = file_request_step(
        &mut upload,
        file_request("save", "/etc/hostname", content),
        false,
        "",
        0,
    );
    match action {
        FileAction::WriteFile(path, text) => {
            assert_eq!(path, "/etc/hostname");
            assert_eq!(text, content);
        }
        _ => panic!("expected a write"),
    }
}

#[test]
fn download_command_builds_an_archive_of_the_path() {
    let mut upload = UploadState::new();
    let action = file_request_step(&mut upload, file_request("dl", "/var/log", ""), false, "", 0);
    assert!(matches!(action, FileAction::BuildArchive(p) if p == "/var/log"));
}

#[test]
fn upload_command_arms_the_accumulator() {
    let mut upload = UploadState::new();
    let action = file_request_step(&mut upload, file_request("up", "/tmp/up.bin", "17"), false, "", 0);
    assert!(matches!(action, FileAction::UploadStarted));
    assert_eq!(upload.path, "/tmp/up.bin");
    assert_eq!(upload.declared, 17);
    assert_eq!(upload.received, 0);
}

#[test]
fn upload_command_with_bad_count_is_a_request_error() {
    let mut upload = UploadState::new();
    upload.begin("/tmp/keep".to_string(), 2);
    let action = file_request_step(&mut upload, file_request("up", "/tmp/up.bin", "17x"), false, "", 0);
    assert!(matches!(action, FileAction::RequestError));
    // the earlier declaration stays untouched
    assert_eq!(upload.path, "/tmp/keep");
    assert_eq!(upload.declared, 2);

    let action = file_request_step(&mut upload, file_request("up", "/tmp/up.bin", ""), false, "", 0);
    assert!(matches!(action, FileAction::RequestError));
}

#[test]
fn unauthorized_file_request_is_denied_and_changes_nothing() {
    let mut config = dietpi_dashboard::Config::default();
    config.pass = true;
    config.hash = {
        let digest = ring::digest::digest(&ring::digest::SHA512, b"pw");
        let mut out = String::new();
        for b in digest.as_ref() {
            out.push_str(&format!("{:02x}", b));
        }
        out
    };
    config.secret = "s3cr3t".to_string();
    let now: u64 = 1_600_000_000;

    let mut upload = UploadState::new();
    upload.begin("/tmp/keep".to_string(), 2);
    let mut request = file_request("up", "/tmp/other", "5");
    request.token = "invalid".to_string();
    let action = file_request_step(&mut upload, request, true, "s3cr3t", now);
    assert!(matches!(action, FileAction::Denied));
    assert_eq!(upload.path, "/tmp/keep");
    assert_eq!(upload.declared, 2);

    let token = match dietpi_dashboard::login_attempt(b"pw", &config, now) {
        dietpi_dashboard::LoginOutcome::Token(token) => token,
        _ => panic!("expected a token"),
    };
    let mut request = file_request("open", "/etc/hostname", "");
    request.token = token;
    let action = file_request_step(&mut upload, request, true, "s3cr3t", now);
    assert!(matches!(action, FileAction::ReadFile(p) if p == "/etc/hostname"));
}

#[test]
fn unknown_file_command_is_a_no_op() {
    let mut upload = UploadState::new();
    let action = file_request_step(&mut upload, file_request("chmod", "/etc", "777"), false, "", 0);
    assert!(matches!(action, FileAction::Ignore));
}
