use std::io::Read;

use dietpi_dashboard::archive::ZipEntry;
use dietpi_dashboard::archive::build_zip;
use dietpi_dashboard::transfer::CHUNK_SIZE;
use dietpi_dashboard::transfer::chunk_count;
use dietpi_dashboard::transfer::split_chunks;

fn noisy_bytes(len: usize) -> Vec<u8> {
    let mut data = Vec::with_capacity(len);
    let mut x: u32 = 7;
    while data.len() < len {
        x = x.wrapping_mul(1664525).wrapping_add(1013904223);
        data.push((x >> 16) as u8);
    }
    data
}

fn sample_entries() -> Vec<ZipEntry> {
    vec![
        ZipEntry {
            name: "root".to_string(),
            is_dir: true,
            data: Vec::new(),
        },
        ZipEntry {
            name: "root/a.txt".to_string(),
            is_dir: false,
            data: b"hello zip\n".to_vec(),
        },
        ZipEntry {
            name: "root/sub".to_string(),
            is_dir: true,
            data: Vec::new(),
        },
        ZipEntry {
            name: "root/sub/noise.bin".to_string(),
            is_dir: false,
            data: noisy_bytes(CHUNK_SIZE + CHUNK_SIZE / 2),
        },
    ]
}

#[test]
fn download_round_trip_reassembles_the_archive() {
    // build the archive, cut it into chunks, concatenate the chunks, and
    // unzip the result: the same file set and bytes come back
    let entries = sample_entries();
    let archive = build_zip(&entries).expect("the archive must build");

    let chunks = split_chunks(&archive);
    assert_eq!(chunks.len(), chunk_count(archive.len()));
    assert_eq!(
        chunks.len(),
        (archive.len() + CHUNK_SIZE - 1) / CHUNK_SIZE
    );
    for c in chunks.iter().take(chunks.len() - 1) {
        assert_eq!(c.len(), CHUNK_SIZE);
    }

    let mut rebuilt = Vec::new();
    for c in &chunks {
        rebuilt.extend_from_slice(c);
    }
    assert_eq!(rebuilt, archive);

    let mut unzipped =
        zip::ZipArchive::new(std::io::Cursor::new(rebuilt)).expect("a valid zip archive");
    assert_eq!(unzipped.len(), entries.len());
    for entry in &entries {
        if entry.is_dir {
            let dir = unzipped
                .by_name(&format!("{}/", entry.name))
                .expect("directory entry present");
            assert!(dir.is_dir());
        } else {
            let mut file = unzipped.by_name(&entry.name).expect("file entry present");
            assert!(file.is_file());
            let mut content = Vec::new();
            file.read_to_end(&mut content).expect("entry readable");
            assert_eq!(content, entry.data);
        }
    }
}

#[test]
fn empty_entry_list_builds_an_empty_archive() {
    let archive = build_zip(&Vec::new()).expect("the empty archive must build");
    let unzipped =
        zip::ZipArchive::new(std::io::Cursor::new(archive)).expect("a valid zip archive");
    assert_eq!(unzipped.len(), 0);
}

#[test]
fn directory_name_ending_in_a_separator_is_refused() {
    // stored in the archive, such a name is indistinguishable from the
    // same name without the separator, so the builder refuses it
    let entries = vec![ZipEntry {
        name: "root/".to_string(),
        is_dir: true,
        data: Vec::new(),
    }];
    assert!(build_zip(&entries).is_none());
}

#[test]
fn zero_byte_file_survives_the_round_trip() {
    let entries = vec![ZipEntry {
        name: "empty.txt".to_string(),
        is_dir: false,
        data: Vec::new(),
    }];
    let archive = build_zip(&entries).expect("the archive must build");
    let mut unzipped =
        zip::ZipArchive::new(std::io::Cursor::new(archive)).expect("a valid zip archive");
    let mut file = unzipped.by_name("empty.txt").expect("file entry present");
    let mut content = Vec::new();
    file.read_to_end(&mut content).expect("entry readable");
    assert!(content.is_empty());
}
