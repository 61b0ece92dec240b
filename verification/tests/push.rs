use std::io::Read;

use cachix::api::types::{
    CompletedPart, CompressionMethod, CreateMultipartUploadResponse, NarInfoCreate, Uuid,
};
use cachix::config::PushCredential;
use cachix::nix::store::PathInfo;
use cachix::push::compress::{compress_nar, level_fits, xz_result, zstd_result, CompressError};
use cachix::push::narinfo::{build_narinfo, prepare, push_store_path, Digested, PushError};
use cachix::push::upload::{
    completed_parts, completion, content_md5, do_multipart_upload, upload_parts, UploadEvent,
    UploadState,
};
use cachix::push::{closure_hashes, push_paths, push_result, PushOptions};

const HASH: &str = "aaaaaaaaaaaaaaaaaaaaaaaaaaaaaaa1";
const PATH: &str = "/nix/store/aaaaaaaaaaaaaaaaaaaaaaaaaaaaaaa1-test";
const SECRET: &str = "mycache-1:nWGxne/9WmC6hEr0kuwsxERJxWl7MmkZcDusAxyuf2DXWpgBgrEKt9VL/tPJZAc6DuFy89qmIyWvAhpo9wdRGg==";

fn path_info() -> PathInfo {
    PathInfo {
        path: PATH.to_string(),
        nar_hash: String::new(),
        nar_size: 0,
        references: vec![
            "/nix/store/bbbb-lib".to_string(),
            "elsewhere".to_string(),
            "/nix/store/aaaa-lib".to_string(),
        ],
        deriver: Some("/nix/store/cccc-test.drv".to_string()),
    }
}

fn token() -> PushCredential {
    PushCredential::Token("t".to_string())
}

fn signing(key: &str) -> PushCredential {
    PushCredential::SigningKey { auth_token: None, signing_key: key.to_string() }
}

fn unxz(data: &[u8]) -> Vec<u8> {
    let mut out = Vec::new();
    xz2::read::XzDecoder::new(data).read_to_end(&mut out).unwrap();
    out
}

#[test]
fn default_options() {
    let opts = PushOptions::default();
    assert_eq!(opts.compression_method, CompressionMethod::Zstd);
    assert_eq!(opts.compression_level, 2);
    assert_eq!(opts.chunk_size, 32 * 1024 * 1024);
    assert_eq!((opts.num_concurrent_chunks, opts.jobs, opts.omit_deriver), (4, 8, false));
}

#[test]
fn compressed_data_is_decompressed_to_the_same() {
    let data: Vec<u8> = (0..100_000u32).map(|n| (n % 251) as u8).collect();
    let zst = compress_nar(&data, &CompressionMethod::Zstd, 2).unwrap();
    assert!(zst.len() < data.len());
    assert_eq!(zstd::decode_all(zst.as_slice()).unwrap(), data);
    let xz = compress_nar(&data, &CompressionMethod::Xz, 2).unwrap();
    assert!(xz.len() < data.len());
    assert_eq!(unxz(&xz), data);
    assert_eq!(unxz(&compress_nar(&[], &CompressionMethod::Xz, 0).unwrap()), Vec::<u8>::new());
}

#[test]
fn compression_level_counts() {
    let data: Vec<u8> = (0..200_000u32).map(|n| ((n * n) % 253) as u8).collect();
    let fast = compress_nar(&data, &CompressionMethod::Zstd, 1).unwrap();
    let small = compress_nar(&data, &CompressionMethod::Zstd, 19).unwrap();
    assert_ne!(fast, small);
    assert_eq!(zstd::decode_all(small.as_slice()).unwrap(), data);
}

#[test]
fn levels_of_each_method() {
    assert!(level_fits(CompressionMethod::Zstd, u32::MAX));
    assert!(level_fits(CompressionMethod::Xz, 16));
    assert!(!level_fits(CompressionMethod::Xz, 17));
    assert!(level_fits(CompressionMethod::Xz, 0x8000_0009));
    assert!(!level_fits(CompressionMethod::Xz, 0x8000_000a));
}

#[test]
fn levels_up_to_16_compress() {
    let data: Vec<u8> = (0..5_000u32).map(|n| (n % 7) as u8).collect();
    for level in 0..=16 {
        let zst = compress_nar(&data, &CompressionMethod::Zstd, level).unwrap();
        assert_eq!(zstd::decode_all(zst.as_slice()).unwrap(), data);
        let xz = compress_nar(&data, &CompressionMethod::Xz, level).unwrap();
        assert_eq!(unxz(&xz), data);
    }
    let highest = compress_nar(&data, &CompressionMethod::Xz, 9).unwrap();
    assert_eq!(compress_nar(&data, &CompressionMethod::Xz, 16).unwrap(), highest);
}

#[test]
fn compression_errors() {
    let error = || std::io::Error::other("x");
    assert_eq!(xz_result(Ok(Ok(vec![1]))).unwrap(), [1]);
    assert_eq!(xz_result(Err(error())).unwrap_err().message(), "xz compression failed");
    assert_eq!(xz_result(Ok(Err(error()))).unwrap_err().message(), "xz finish failed");
    assert_eq!(zstd_result(Ok(vec![2])).unwrap(), [2]);
    assert_eq!(zstd_result(Err(error())).unwrap_err().message(), "zstd compression failed");
}

#[test]
fn narinfo_without_a_key() {
    let opts = PushOptions::default();
    let push = push_store_path(PATH, b"hello nar", &path_info(), &token(), &opts).unwrap();
    assert_eq!(zstd::decode_all(push.compressed.as_slice()).unwrap(), b"hello nar");
    let n = push.narinfo;
    assert_eq!(n.c_store_hash, HASH);
    assert_eq!(n.c_store_suffix, "-test");
    assert_eq!(
        n.c_nar_hash,
        "sha256:01hnck4zgjmx7sh1332alz69fib03s0gckipgxx8rvxvb9gzpfws"
    );
    assert_eq!(n.c_nar_size, 9);
    assert_eq!(n.c_file_size, push.compressed.len() as u64);
    assert!(n.c_file_hash.starts_with("sha256:"));
    assert_eq!(n.c_file_hash.len(), 7 + 64);
    assert_eq!(n.c_references, ["bbbb-lib", "aaaa-lib"]);
    assert_eq!(n.c_deriver, "cccc-test.drv");
    assert_eq!(n.c_sig, None);
}

#[test]
fn push_of_given_compressed_data() {
    let push = prepare(PATH, b"", Ok(b"hello nar".to_vec()), &path_info(), &token(), false);
    let push = push.unwrap();
    assert_eq!(push.compressed, b"hello nar");
    assert_eq!(
        push.narinfo.c_nar_hash,
        "sha256:0mdqa9w1p6cmli6976v4wi0sw9r4p5prkj7lzfd1877wk11c9c73"
    );
    assert_eq!(
        push.narinfo.c_file_hash,
        "sha256:9abbfb5f5abbef8c7a7f374ef6801e604597cca74a8c11a03ebdcaf7c9641606"
    );
    assert_eq!((push.narinfo.c_nar_size, push.narinfo.c_file_size), (0, 9));
    let failed = Err(CompressError::Zstd(std::io::Error::other("x")));
    let e = prepare("/tmp/x", b"", failed, &path_info(), &token(), false).unwrap_err();
    assert_eq!(e.message(), "zstd compression failed");
}

#[test]
fn narinfo_from_given_digests() {
    let nar = Digested { digest: vec![1], size: 5 };
    let file = Digested { digest: vec![255, 0], size: 6 };
    let n = build_narinfo(PATH, &nar, &file, &path_info(), &signing(SECRET), true).unwrap();
    assert_eq!(n.c_nar_hash, "sha256:01");
    assert_eq!(n.c_file_hash, "sha256:ff00");
    assert_eq!((n.c_nar_size, n.c_file_size), (5, 6));
    assert_eq!(n.c_deriver, "");
    let sig = n.c_sig.unwrap();
    let fingerprint = format!(
        "1;{PATH};sha256:01;5;/nix/store/aaaa-lib,/nix/store/bbbb-lib,elsewhere"
    );
    assert_eq!(sig, cachix::nix::sign::sign_narinfo(SECRET, &fingerprint).unwrap());
}

#[test]
fn deriver_that_is_none() {
    let nar = Digested { digest: vec![1], size: 5 };
    let mut info = path_info();
    info.deriver = Some("unknown".to_string());
    let n = build_narinfo(PATH, &nar, &nar, &info, &token(), false).unwrap();
    assert_eq!(n.c_deriver, "");
    info.deriver = None;
    let n = build_narinfo(PATH, &nar, &nar, &info, &token(), false).unwrap();
    assert_eq!(n.c_deriver, "");
}

#[test]
fn paths_and_keys_that_cannot_be_published() {
    let opts = PushOptions::default();
    let push = |path: &str, c: &PushCredential| push_store_path(path, b"x", &path_info(), c, &opts);
    let e = push("/tmp/x", &signing("bad")).unwrap_err();
    assert!(matches!(e, PushError::StorePath(_)));
    assert_eq!(e.message(), "not a valid store path");
    let e = push(&format!("/nix/store/{HASH}"), &token()).unwrap_err();
    assert_eq!(e.message(), format!("store path basename too short: /nix/store/{HASH}"));
    let e = push(PATH, &signing("bad")).unwrap_err();
    assert!(matches!(e, PushError::Sign(_)));
    assert_eq!(e.message(), "invalid secret key format, expected 'name:base64data'");
}

#[test]
fn parts_make_up_the_data() {
    let data: Vec<u8> = (0..10).collect();
    let parts = upload_parts(&data, 4);
    let numbers: Vec<u32> = parts.iter().map(|p| p.part_number).collect();
    assert_eq!(numbers, [1, 2, 3]);
    let lengths: Vec<usize> = parts.iter().map(|p| p.data.len()).collect();
    assert_eq!(lengths, [4, 4, 2]);
    let whole: Vec<u8> = parts.iter().flat_map(|p| p.data.clone()).collect();
    assert_eq!(whole, data);
    assert!(upload_parts(&[], 4).is_empty());
    assert_eq!(upload_parts(&data, 5).len(), 2);
    assert_eq!(upload_parts(&data, 100).len(), 1);
}

#[test]
fn parts_have_their_digests() {
    assert_eq!(content_md5(b"hello"), "XUFAKrxLKna5cZ2REBfFkg==");
    let parts = upload_parts(b"abc", 2);
    assert_eq!(parts[0].content_md5, "GH70Q2Ei0cwvQNwrkvDroA==");
    assert_eq!(parts[1].content_md5, "SooI8J03tzeVZJA4QItfMw==");
}

fn narinfo() -> NarInfoCreate {
    let nar = Digested { digest: vec![1], size: 5 };
    build_narinfo(PATH, &nar, &nar, &path_info(), &token(), true).unwrap()
}

fn part(part_number: u32, e_tag: &str) -> CompletedPart {
    CompletedPart { part_number, e_tag: e_tag.to_string() }
}

#[test]
fn completed_parts_are_in_order() {
    let done = completion(vec![part(3, "c"), part(1, "a"), part(2, "b")], narinfo());
    let tags: Vec<String> = done.parts.unwrap().into_iter().map(|p| p.e_tag).collect();
    assert_eq!(tags, ["a", "b", "c"]);
    let done = completion(vec![part(1, "x"), part(1, "y"), part(0, "z")], narinfo());
    let tags: Vec<String> = done.parts.unwrap().into_iter().map(|p| p.e_tag).collect();
    assert_eq!(tags, ["z", "x", "y"]);
    let done = completion(Vec::new(), narinfo());
    assert!(done.parts.is_none());
    assert_eq!(done.nar_info_create.c_store_hash, HASH);
}

fn upload() -> CreateMultipartUploadResponse {
    CreateMultipartUploadResponse { nar_id: Uuid { value: 7 }, upload_id: "u".to_string() }
}

#[test]
fn upload_that_succeeds() {
    let s = do_multipart_upload(UploadState::Creating, UploadEvent::Created(upload()));
    assert!(matches!(&s, UploadState::Uploading(u) if u.upload_id == "u"));
    let parts = vec![part(1, "a"), part(2, "b")];
    let s = do_multipart_upload(s, UploadEvent::PartsUploaded(Some(parts)));
    assert!(matches!(
        &s,
        UploadState::Completing(u, p) if u.nar_id == Uuid { value: 7 } && p[1].e_tag == "b"
    ));
    let s = do_multipart_upload(s, UploadEvent::Completed);
    assert!(matches!(s, UploadState::Succeeded));
}

#[test]
fn tags_stand_beside_their_parts() {
    let parts = upload_parts(b"abcde", 2);
    let tags = [Some("x".to_string()), Some("y".to_string()), Some("z".to_string())];
    let completed = completed_parts(&parts, &tags).unwrap();
    let seen: Vec<(u32, String)> =
        completed.iter().map(|p| (p.part_number, p.e_tag.clone())).collect();
    assert_eq!(seen, [(1, "x".to_string()), (2, "y".to_string()), (3, "z".to_string())]);
    let done = completion(completed, narinfo());
    let order: Vec<u32> = done.parts.unwrap().into_iter().map(|p| p.part_number).collect();
    assert_eq!(order, [1, 2, 3]);
    assert!(completed_parts(&[], &[]).unwrap().is_empty());
}

#[test]
fn upload_with_a_missing_part_is_aborted() {
    let parts = upload_parts(b"abcde", 2);
    for missing in 0..3 {
        let mut tags = vec![Some("t".to_string()); 3];
        tags[missing] = None;
        let completed = completed_parts(&parts, &tags);
        assert!(completed.is_none());
        let s = do_multipart_upload(UploadState::Creating, UploadEvent::Created(upload()));
        let s = do_multipart_upload(s, UploadEvent::PartsUploaded(completed));
        assert!(matches!(&s, UploadState::Aborting(u) if u.upload_id == "u"));
        assert!(matches!(do_multipart_upload(s, UploadEvent::Aborted), UploadState::Failed));
    }
}

#[test]
fn upload_that_fails_is_aborted() {
    let s = do_multipart_upload(UploadState::Creating, UploadEvent::Created(upload()));
    let s = do_multipart_upload(s, UploadEvent::RequestFailed);
    assert!(matches!(&s, UploadState::Aborting(u) if u.upload_id == "u"));
    let s = do_multipart_upload(s, UploadEvent::RequestFailed);
    assert!(matches!(s, UploadState::Failed));
    let completing = UploadState::Completing(upload(), Vec::new());
    let s = do_multipart_upload(completing, UploadEvent::RequestFailed);
    assert!(matches!(&s, UploadState::Aborting(_)));
    assert!(matches!(do_multipart_upload(s, UploadEvent::Aborted), UploadState::Failed));
    let s = do_multipart_upload(UploadState::Creating, UploadEvent::RequestFailed);
    assert!(matches!(s, UploadState::Failed));
}

#[test]
fn only_missing_paths_are_pushed() {
    let other = "/nix/store/bbbbbbbbbbbbbbbbbbbbbbbbbbbbbbb2-b".to_string();
    let closure = vec![PATH.to_string(), "not a path".to_string(), other.clone()];
    assert_eq!(closure_hashes(&closure), [HASH, "bbbbbbbbbbbbbbbbbbbbbbbbbbbbbbb2"]);
    let missing = vec!["bbbbbbbbbbbbbbbbbbbbbbbbbbbbbbb2".to_string()];
    assert_eq!(push_paths(&closure, &missing), [other.clone()]);
    assert!(push_paths(&closure, &[]).is_empty());
    assert_eq!(push_paths(&closure, &closure_hashes(&closure)), [PATH.to_string(), other]);
}

#[test]
fn failed_pushes_are_counted() {
    assert!(push_result(&[true, true]).is_ok());
    assert!(push_result(&[]).is_ok());
    let e = push_result(&[false, true, false]).unwrap_err();
    assert_eq!(e.message(), "2 path(s) failed to push");
}
