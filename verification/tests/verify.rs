use truckersmp::digest::hex_matches;
use truckersmp::error::Error;
use truckersmp::manifest::{ContentFile, RawContentFile};
use truckersmp::verify::{check_file_hash, verify, FileCheck, LocalFile, VerificationResult};

fn expecting(md5: &str) -> ContentFile {
    ContentFile::parse(&RawContentFile {
        md5: md5.to_string(),
        ctype: "system".to_string(),
        file_path: "/bin/file".to_string(),
    })
    .unwrap()
}

fn read_in(chunks: &[&[u8]]) -> LocalFile {
    let mut check = FileCheck::new();
    for chunk in chunks {
        check.update(chunk);
    }
    LocalFile::Read(check)
}

#[test]
fn file_with_expected_hash_matches() {
    let file = expecting("900150983cd24fb0d6963f7d28e17f72");
    assert_eq!(verify(&file, read_in(&[b"abc"])), Ok(VerificationResult::Match));
}

#[test]
fn empty_file_has_the_hash_of_nothing() {
    let file = expecting("d41d8cd98f00b204e9800998ecf8427e");
    assert_eq!(verify(&file, read_in(&[])), Ok(VerificationResult::Match));
    assert_eq!(verify(&file, read_in(&[b""])), Ok(VerificationResult::Match));
    assert_eq!(verify(&file, read_in(&[b"a"])), Ok(VerificationResult::Mismatch));
}

#[test]
fn file_with_other_content_mismatches() {
    let file = expecting("900150983cd24fb0d6963f7d28e17f72");
    assert_eq!(verify(&file, read_in(&[b"abd"])), Ok(VerificationResult::Mismatch));
    assert_eq!(verify(&file, read_in(&[b"abc", b"d"])), Ok(VerificationResult::Mismatch));
    assert_eq!(verify(&file, read_in(&[])), Ok(VerificationResult::Mismatch));
}

#[test]
fn absent_file_is_missing() {
    let file = expecting("900150983cd24fb0d6963f7d28e17f72");
    assert_eq!(verify(&file, LocalFile::Absent), Ok(VerificationResult::Missing));
}

#[test]
fn unreadable_file_is_an_error_not_a_mismatch() {
    let file = expecting("900150983cd24fb0d6963f7d28e17f72");
    assert_eq!(verify(&file, LocalFile::Unreadable), Err(Error::VerificationIOError));
}

#[test]
fn hash_comparison_is_case_sensitive() {
    let upper = expecting("900150983CD24FB0D6963F7D28E17F72");
    assert_eq!(verify(&upper, read_in(&[b"abc"])), Ok(VerificationResult::Mismatch));
    let lower = expecting("c3fcd3d76192e4007dfb496cca67e13b");
    assert_eq!(
        verify(&lower, read_in(&[b"abcdefghijklmnopqrstuvwxyz"])),
        Ok(VerificationResult::Match)
    );
}

#[test]
fn malformed_expected_hash_never_matches() {
    for md5 in [
        "",
        "900150983cd24fb0d6963f7d28e17f7",
        "900150983cd24fb0d6963f7d28e17f720",
        " 900150983cd24fb0d6963f7d28e17f72",
        "900150983cd24fb0d6963f7d28e17f7é",
        "abc",
    ] {
        let file = expecting(md5);
        assert_eq!(verify(&file, read_in(&[b"abc"])), Ok(VerificationResult::Mismatch), "{:?}", md5);
    }
}

#[test]
fn verdict_does_not_depend_on_chunking() {
    let data: Vec<u8> = (0..20000u32).map(|i| (i % 251) as u8).collect();
    let file = expecting("c968d3e881d1ec95343a421fe3e79a1a");
    assert_eq!(verify(&file, read_in(&[&data])), Ok(VerificationResult::Match));
    for size in [1usize, 7, 63, 64, 65, 4096, 8192] {
        let chunks: Vec<&[u8]> = data.chunks(size).collect();
        assert_eq!(verify(&file, read_in(&chunks)), Ok(VerificationResult::Match));
    }
}

#[test]
fn long_file_read_in_chunks_matches_its_hash() {
    let data = b"12345678901234567890123456789012345678901234567890123456789012345678901234567890";
    let file = expecting("57edf4a22be3c955ac49da2e2107b67a");
    let chunks: Vec<&[u8]> = data.chunks(13).collect();
    assert_eq!(verify(&file, read_in(&chunks)), Ok(VerificationResult::Match));
    assert_eq!(verify(&file, read_in(&[&data[..]])), Ok(VerificationResult::Match));
    assert_eq!(verify(&file, read_in(&[&data[..79]])), Ok(VerificationResult::Mismatch));
}

#[test]
fn finish_gives_the_verdict_on_what_was_taken_in() {
    let file = expecting("0cc175b9c0f1b6a831c399e269772661");
    let mut check = FileCheck::new();
    check.update(b"a");
    assert_eq!(check.finish(&file), VerificationResult::Match);
    let mut check = FileCheck::new();
    check.update(b"a");
    check.update(b"a");
    assert_eq!(check.finish(&file), VerificationResult::Mismatch);
}

#[test]
fn check_file_hash_is_true_on_match_only() {
    let file = expecting("f96b697d7cb7938d525a2f31aaf161d0");
    assert_eq!(check_file_hash(&file, read_in(&[b"message ", b"digest"])), Ok(true));
    assert_eq!(check_file_hash(&file, read_in(&[b"message"])), Ok(false));
    assert_eq!(check_file_hash(&file, LocalFile::Absent), Ok(false));
    assert_eq!(check_file_hash(&file, LocalFile::Unreadable), Err(Error::VerificationIOError));
}

#[test]
fn hex_matches_compares_with_lower_case_hex() {
    let digest: [u8; 16] = [
        0x00, 0x01, 0x09, 0x0a, 0x0f, 0x10, 0x7f, 0x80, 0x9a, 0xa9, 0xab, 0xcd, 0xef, 0xf0, 0xfe,
        0xff,
    ];
    assert!(hex_matches(&digest, "0001090a0f107f809aa9abcdeff0feff"));
    assert!(!hex_matches(&digest, "0001090A0F107F809AA9ABCDEFF0FEFF"));
    assert!(!hex_matches(&digest, "0001090a0f107f809aa9abcdeff0fefe"));
    assert!(!hex_matches(&digest, "1001090a0f107f809aa9abcdeff0feff"));
    assert!(!hex_matches(&digest, "0001090a0f107f809aa9abcdeff0fef"));
    assert!(!hex_matches(&digest, "0001090a0f107f809aa9abcdeff0feff0"));
    assert!(!hex_matches(&digest, ""));
    assert!(!hex_matches(&[0u8; 16], "0000000000000000000000000000000g"));
    assert!(hex_matches(&[0u8; 16], "00000000000000000000000000000000"));
}
