use veil::{
    after_remove, append_extension, decode, decode_base64, decrypt_bytes, derive_output_path,
    encode, encode_base64, encrypt_bytes, is_stdio_path, map_io_error, run_transform, transform, CipherError, Cli,
    CodecError, Completion, Direction, Format, IoError, IoErrorKind, IoOperation, PipelineError,
};

fn pw(s: &str) -> String {
    String::from(s)
}

fn cli(input: &str, output: Option<&str>, decrypt: bool, remove: bool) -> Cli {
    Cli {
        input: String::from(input),
        output: output.map(String::from),
        decrypt,
        remove,
        input_format: Format::Bytes,
        output_format: Format::Bytes,
    }
}

#[test]
fn hello_encrypts_and_decrypts_raw() {
    let c = encrypt_bytes(b"hello".to_vec(), pw("pw"));
    assert!(c.len() >= 5);
    assert_eq!(c.len() % 16, 0);
    assert_eq!(c.len(), 16);
    assert_ne!(&c[..5], b"hello");
    assert_eq!(decrypt_bytes(c.clone(), pw("pw")), Ok(b"hello".to_vec()));
    assert_eq!(
        decrypt_bytes(c, pw("wrong")),
        Err(CipherError::InvalidCiphertextOrPassword)
    );
}

#[test]
fn round_trip_over_many_lengths() {
    for n in 0..70usize {
        let b: Vec<u8> = (0..n).map(|i| (i * 37 + 11) as u8).collect();
        let c = encrypt_bytes(b.clone(), pw("secret"));
        assert_eq!(c.len(), (n / 16 + 1) * 16);
        assert_eq!(decrypt_bytes(c, pw("secret")), Ok(b));
    }
}

#[test]
fn round_trip_with_empty_password() {
    let c = encrypt_bytes(b"data".to_vec(), pw(""));
    assert_eq!(decrypt_bytes(c, pw("")), Ok(b"data".to_vec()));
}

#[test]
fn encryption_is_deterministic() {
    let a = encrypt_bytes(b"same input".to_vec(), pw("pw"));
    let b = encrypt_bytes(b"same input".to_vec(), pw("pw"));
    assert_eq!(a, b);
    let other = encrypt_bytes(b"same input".to_vec(), pw("pw2"));
    assert_ne!(a, other);
}

#[test]
fn wrong_password_fails_closed() {
    let b = b"attack at dawn".to_vec();
    let c = encrypt_bytes(b.clone(), pw("p1"));
    let r = decrypt_bytes(c, pw("p2"));
    assert!(r != Ok(b));
    assert_eq!(r, Err(CipherError::InvalidCiphertextOrPassword));
}

#[test]
fn decrypt_rejects_non_ciphertext() {
    assert_eq!(
        decrypt_bytes(Vec::new(), pw("pw")),
        Err(CipherError::InvalidCiphertextOrPassword)
    );
    assert_eq!(
        decrypt_bytes(b"hello".to_vec(), pw("pw")),
        Err(CipherError::InvalidCiphertextOrPassword)
    );
    let mut c = encrypt_bytes(b"hello".to_vec(), pw("pw"));
    c.pop();
    assert_eq!(
        decrypt_bytes(c, pw("pw")),
        Err(CipherError::InvalidCiphertextOrPassword)
    );
}

#[test]
fn base64_encodes_known_values() {
    assert_eq!(encode_base64(b""), b"".to_vec());
    assert_eq!(encode_base64(b"h"), b"aA==".to_vec());
    assert_eq!(encode_base64(b"he"), b"aGU=".to_vec());
    assert_eq!(encode_base64(b"hel"), b"aGVs".to_vec());
    assert_eq!(encode_base64(b"hello"), b"aGVsbG8=".to_vec());
    assert_eq!(encode_base64(&[0xfb, 0xff, 0xbf]), b"+/+/".to_vec());
}

#[test]
fn base64_round_trip_including_empty() {
    assert_eq!(decode_base64(&encode_base64(b"")), Ok(Vec::new()));
    let all: Vec<u8> = (0..=255u8).collect();
    for n in 0..all.len() {
        let b = &all[..n];
        assert_eq!(decode_base64(&encode_base64(b)), Ok(b.to_vec()));
    }
}

#[test]
fn base64_decodes_known_values() {
    assert_eq!(decode_base64(b"aGVsbG8="), Ok(b"hello".to_vec()));
    assert_eq!(decode_base64(b"aGVsbG8=\n"), Ok(b"hello".to_vec()));
    assert_eq!(decode_base64(b"aGVs\r\nbG8=\r\n"), Ok(b"hello".to_vec()));
    assert_eq!(decode_base64(b"aA=="), Ok(b"h".to_vec()));
    assert_eq!(decode_base64(b""), Ok(Vec::new()));
}

#[test]
fn base64_rejects_malformed_text() {
    let bad: [&[u8]; 8] = [b"abc", b"ab=c", b"a===", b"====", b"ab!d", b"aA==aGVs", b"aGVsb", b"a-_b"];
    for t in bad.iter() {
        assert_eq!(decode_base64(t), Err(CodecError::MalformedBase64));
    }
}

#[test]
fn base64_rejects_non_utf8() {
    assert_eq!(decode_base64(&[0xff, 0xfe, 0x41, 0x41]), Err(CodecError::InvalidText));
    assert_eq!(
        decode(Format::Base64, vec![0xc3, 0x28]),
        Err(CodecError::InvalidText)
    );
}

#[test]
fn raw_format_is_identity() {
    let b = vec![0u8, 1, 2, 255];
    assert_eq!(encode(Format::Bytes, b.clone()), b);
    assert_eq!(decode(Format::Bytes, b.clone()), Ok(b));
}

#[test]
fn codec_by_format_round_trips() {
    let b = b"any bytes \x00\xff".to_vec();
    for f in [Format::Bytes, Format::Base64] {
        assert_eq!(decode(f, encode(f, b.clone())), Ok(b.clone()));
    }
    assert_eq!(encode(Format::Base64, b"hello".to_vec()), b"aGVsbG8=".to_vec());
}

#[test]
fn output_names_are_derived() {
    assert_eq!(derive_output_path("a.txt", Direction::Encrypt), "a.txt.enc");
    assert_eq!(derive_output_path("a.txt", Direction::Decrypt), "a.txt.dec");
    assert_eq!(derive_output_path("data", Direction::Encrypt), "data.enc");
    assert_eq!(derive_output_path("report.pdf", Direction::Encrypt), "report.pdf.enc");
}

#[test]
fn append_extension_keeps_existing_one() {
    let mut p = String::from("dir/archive.tar");
    append_extension(&mut p, "gz");
    assert_eq!(p, "dir/archive.tar.gz");
}

#[test]
fn cli_chooses_output_and_prompt() {
    let c = cli("a.txt", None, false, false);
    assert_eq!(c.direction(), Direction::Encrypt);
    assert_eq!(c.output_path(), "a.txt.enc");
    assert_eq!(c.password_prompt(), "Set a password: ");
    let d = cli("a.txt.enc", None, true, false);
    assert_eq!(d.direction(), Direction::Decrypt);
    assert_eq!(d.output_path(), "a.txt.enc.dec");
    assert_eq!(d.password_prompt(), "Enter the password: ");
    let e = cli("a.txt", Some("out.bin"), false, false);
    assert_eq!(e.output_path(), "out.bin");
}

#[test]
fn failed_write_keeps_source() {
    let c = cli("a.txt", None, false, true);
    assert_eq!(
        c.after_write(Err(IoError::PermissionDenied)),
        Err(PipelineError::Io(IoOperation::Write, IoError::PermissionDenied))
    );
    assert_eq!(c.after_write(Ok(())), Ok(Completion::RemoveSource));
    let keep = cli("a.txt", None, false, false);
    assert_eq!(keep.after_write(Ok(())), Ok(Completion::Done));
    assert_eq!(
        keep.after_write(Err(IoError::ReadWriteFailed)),
        Err(PipelineError::Io(IoOperation::Write, IoError::ReadWriteFailed))
    );
}

#[test]
fn removal_outcome_is_reported() {
    assert_eq!(after_remove(Ok(())), Ok(()));
    assert_eq!(
        after_remove(Err(IoError::FileNotFound)),
        Err(PipelineError::Io(IoOperation::Remove, IoError::FileNotFound))
    );
}

#[test]
fn io_errors_are_mapped() {
    assert_eq!(map_io_error(IoErrorKind::NotFound), IoError::FileNotFound);
    assert_eq!(map_io_error(IoErrorKind::PermissionDenied), IoError::PermissionDenied);
    assert_eq!(map_io_error(IoErrorKind::Other), IoError::ReadWriteFailed);
    assert_eq!(IoError::FileNotFound.message(), "File not found");
    assert_eq!(IoError::PermissionDenied.message(), "Permission denied");
    assert_eq!(IoError::ReadWriteFailed.message(), "Failed to read/write file");
    assert_eq!(IoOperation::Remove.message(), "Failed to remove file");
    assert_eq!(CipherError::InvalidCiphertextOrPassword.message(), "Failed to decrypt file");
    assert_eq!(CodecError::InvalidText.message(), "Failed to read file as string");
}

#[test]
fn base64_input_encrypts_like_raw_input() {
    let r = run_transform(
        Direction::Encrypt,
        Format::Base64,
        Format::Bytes,
        b"aGVsbG8=".to_vec(),
        pw("pw"),
    );
    assert_eq!(r, Ok(encrypt_bytes(b"hello".to_vec(), pw("pw"))));
}

#[test]
fn pipeline_round_trips_through_base64_output() {
    let enc = run_transform(
        Direction::Encrypt,
        Format::Bytes,
        Format::Base64,
        b"hello".to_vec(),
        pw("pw"),
    )
    .unwrap();
    assert!(enc.iter().all(|c| c.is_ascii()));
    let dec = run_transform(Direction::Decrypt, Format::Base64, Format::Bytes, enc, pw("pw"));
    assert_eq!(dec, Ok(b"hello".to_vec()));
}

#[test]
fn pipeline_reports_stage_of_failure() {
    let c = encrypt_bytes(b"hello".to_vec(), pw("pw"));
    assert_eq!(
        run_transform(Direction::Decrypt, Format::Bytes, Format::Bytes, c, pw("wrong")),
        Err(PipelineError::Cipher(CipherError::InvalidCiphertextOrPassword))
    );
    assert_eq!(
        run_transform(Direction::Encrypt, Format::Base64, Format::Bytes, b"a=b".to_vec(), pw("pw")),
        Err(PipelineError::Codec(CodecError::MalformedBase64))
    );
}

#[test]
fn transform_goes_both_ways() {
    let c = transform(Direction::Encrypt, b"hello".to_vec(), pw("pw")).unwrap();
    assert_eq!(c, encrypt_bytes(b"hello".to_vec(), pw("pw")));
    assert_eq!(transform(Direction::Decrypt, c.clone(), pw("pw")), Ok(b"hello".to_vec()));
    assert_eq!(
        transform(Direction::Decrypt, c, pw("wrong")),
        Err(CipherError::InvalidCiphertextOrPassword)
    );
}

#[test]
fn paths_without_file_name_stay_unchanged() {
    for p in ["", "/", "..", "a/..", ".", "./", "//"] {
        assert_eq!(derive_output_path(p, Direction::Encrypt), p);
        let mut q = String::from(p);
        append_extension(&mut q, "enc");
        assert_eq!(q, p);
    }
}

#[test]
fn trailing_separators_are_dropped_before_the_extension() {
    assert_eq!(derive_output_path("a.txt/", Direction::Encrypt), "a.txt.enc");
    assert_eq!(derive_output_path("dir/a.txt//", Direction::Decrypt), "dir/a.txt.dec");
    assert_eq!(derive_output_path("a/.", Direction::Encrypt), "a.enc");
    assert_eq!(derive_output_path("a/./", Direction::Encrypt), "a.enc");
    assert_eq!(derive_output_path("/x/.bashrc", Direction::Encrypt), "/x/.bashrc.enc");
    assert_eq!(derive_output_path("...", Direction::Encrypt), "....enc");
    assert_eq!(derive_output_path("a.", Direction::Encrypt), "a..enc");
}

#[test]
fn empty_extension_adds_a_dot_only_after_an_existing_one() {
    let mut a = String::from("a.txt");
    append_extension(&mut a, "");
    assert_eq!(a, "a.txt.");
    let mut b = String::from("data/");
    append_extension(&mut b, "");
    assert_eq!(b, "data");
}

#[test]
fn standard_streams_are_never_named_or_removed() {
    assert!(is_stdio_path("-"));
    assert!(!is_stdio_path("-x"));
    assert!(!is_stdio_path(""));
    let c = cli("-", None, false, true);
    assert_eq!(c.output_path(), "-");
    assert_eq!(c.after_write(Ok(())), Ok(Completion::Done));
    let d = cli("-", Some("out.enc"), false, false);
    assert_eq!(d.output_path(), "out.enc");
}
