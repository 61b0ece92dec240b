use cachix::api::client::{upload_part_etag, ApiClient, Body, Method};
use cachix::api::types::{
    CompletedMultipartUpload, CompressionMethod, DeploySpec, NarInfoCreate, PinCreate, Uuid,
};

fn client() -> ApiClient {
    ApiClient::new("https://cachix.org//", Some("tok")).unwrap()
}

const ID: Uuid = Uuid { value: 0x0123_4567_89ab_cdef_0123_4567_89ab_cdef };

#[test]
fn address_and_token() {
    let api = client();
    assert_eq!(api.base_url(), "https://cachix.org");
    assert_eq!(api.auth_token(), Some("tok"));
    assert_eq!(api.api_url("/x"), "https://cachix.org/api/v1/x");
    let headers = api.default_headers();
    assert_eq!(headers[0], ("content-type".to_string(), "application/json".to_string()));
    assert_eq!(headers[1], ("authorization".to_string(), "Bearer tok".to_string()));
    let api = ApiClient::new("", None).unwrap();
    assert_eq!(api.auth_token(), None);
    assert_eq!(api.default_headers().len(), 1);
}

#[test]
fn tokens_that_no_header_can_hold() {
    let message = |t: &str| match ApiClient::new("x", Some(t)) {
        Ok(_) => String::new(),
        Err(e) => e.message,
    };
    assert_eq!(message("a\nb"), "invalid auth token");
    assert_eq!(message("a\u{7f}"), "invalid auth token");
    assert_eq!(message("a\tb é"), "");
}

#[test]
fn identifiers_as_text() {
    assert_eq!(ID.to_text(), "01234567-89ab-cdef-0123-456789abcdef");
    assert_eq!(Uuid { value: 0 }.to_text(), "00000000-0000-0000-0000-000000000000");
}

#[test]
fn compression_methods_as_text() {
    assert_eq!(CompressionMethod::Xz.to_text(), "xz");
    assert_eq!(CompressionMethod::Zstd.to_text(), "zst");
    assert_eq!(CompressionMethod::Zstd.file_extension(), "zst");
}

#[test]
fn addresses_of_requests() {
    let api = client();
    let base = "https://cachix.org/api/v1";
    let r = api.get_cache("c");
    assert_eq!((r.method, r.url), (Method::Get, format!("{base}/cache/c")));
    let r = api.get_nix_cache_info("c");
    assert_eq!((r.method, r.url), (Method::Get, format!("{base}/cache/c/nix-cache-info")));
    let r = api.head_narinfo("c", "h");
    assert_eq!((r.method, r.url), (Method::Head, format!("{base}/cache/c/h.narinfo")));
    let r = api.narinfo_bulk("c", vec!["h".to_string()]);
    assert_eq!((r.method, r.url), (Method::Post, format!("{base}/cache/c/narinfo")));
    assert!(matches!(r.body, Body::StoreHashes(h) if h == ["h"]));
    let r = api.create_multipart_upload("c", &CompressionMethod::Zstd);
    assert_eq!(
        (r.method, r.url),
        (Method::Post, format!("{base}/cache/c/multipart-nar?compression=zst"))
    );
    let nar = format!("{base}/cache/c/multipart-nar/01234567-89ab-cdef-0123-456789abcdef");
    let r = api.get_upload_part_url("c", &ID, "u", 12, "md5");
    assert_eq!(r.url, format!("{nar}?uploadId=u&partNumber=12"));
    assert!(matches!(r.body, Body::Signing(s) if s.content_md5 == "md5"));
    let r = api.abort_multipart_upload("c", &ID, "u");
    assert_eq!((r.method, r.url), (Method::Post, format!("{nar}/abort?uploadId=u")));
    let r = api.upload_signing_key("c", "k");
    assert_eq!((r.method, r.url), (Method::Post, format!("{base}/cache/c/key")));
    assert!(matches!(r.body, Body::PublicSigningKey(k) if k == "k"));
    let pin = PinCreate {
        name: "p".to_string(),
        store_path: "/s".to_string(),
        artifacts: Vec::new(),
        keep: None,
    };
    let r = api.create_pin("c", pin);
    assert_eq!(
        r.check(400, "400 Bad Request", "x").unwrap_err().message,
        "failed to create pin: 400 Bad Request x"
    );
    assert_eq!((r.method, r.url), (Method::Post, format!("{base}/cache/c/pin")));
    let r = api.deploy_activate(DeploySpec { agents: Vec::new(), rollback_script: None });
    assert_eq!(r.url, "https://cachix.org/api/v2/deploy/activate");
    let r = api.get_deployment(&ID);
    assert_eq!(
        (r.method, r.url),
        (Method::Get, format!("{base}/deploy/deployment/01234567-89ab-cdef-0123-456789abcdef"))
    );
}

#[test]
fn completion_of_an_upload() {
    let body = CompletedMultipartUpload {
        parts: None,
        nar_info_create: NarInfoCreate {
            c_store_hash: "h".to_string(),
            c_store_suffix: String::new(),
            c_nar_hash: String::new(),
            c_nar_size: 1,
            c_file_hash: String::new(),
            c_file_size: 2,
            c_references: Vec::new(),
            c_deriver: String::new(),
            c_sig: None,
        },
    };
    let r = client().complete_multipart_upload("c", &ID, "u", body);
    assert_eq!(
        (r.method, r.url.as_str()),
        (
            Method::Post,
            "https://cachix.org/api/v1/cache/c/multipart-nar/01234567-89ab-cdef-0123-456789abcdef/complete?uploadId=u"
        )
    );
    assert_eq!(
        r.check(500, "500 Internal Server Error", "x").unwrap_err().message,
        "failed to complete multipart upload: 500 Internal Server Error x"
    );
    assert!(matches!(r.body, Body::Completion(c) if c.nar_info_create.c_store_hash == "h"));
}

#[test]
fn part_is_sent_without_the_token() {
    let r = client().upload_part("https://s3/x", vec![1, 2], "md5");
    assert_eq!((r.method, r.url.as_str()), (Method::Put, "https://s3/x"));
    assert_eq!(r.headers.len(), 2);
    assert_eq!(r.headers[0].1, "application/octet-stream");
    assert_eq!(r.headers[1], ("Content-MD5".to_string(), "md5".to_string()));
    assert!(matches!(r.body, Body::Part(d) if d == [1, 2]));
}

#[test]
fn refused_requests() {
    let api = client();
    assert!(api.get_cache("c").check(200, "200 OK", "").unwrap());
    assert!(api.get_cache("c").check(299, "", "").unwrap());
    let message = |r: cachix::api::client::ApiRequest| {
        r.check(404, "404 Not Found", "gone").unwrap_err().message
    };
    assert_eq!(message(api.get_cache("c")), "failed to get cache c: 404 Not Found gone");
    assert_eq!(
        message(api.get_nix_cache_info("c")),
        "failed to get nix-cache-info: 404 Not Found"
    );
    assert_eq!(
        message(api.narinfo_bulk("c", Vec::new())),
        "bulk narinfo query failed: 404 Not Found"
    );
    assert_eq!(
        message(api.create_multipart_upload("c", &CompressionMethod::Xz)),
        "failed to create multipart upload: 404 Not Found gone"
    );
    assert_eq!(
        message(api.get_upload_part_url("c", &ID, "u", 1, "m")),
        "failed to get upload part URL: 404 Not Found gone"
    );
    assert_eq!(
        message(api.upload_part("x", Vec::new(), "m")),
        "part upload failed: 404 Not Found gone"
    );
    assert_eq!(
        message(api.upload_signing_key("c", "k")),
        "failed to upload signing key: 404 Not Found gone"
    );
    assert_eq!(
        message(api.deploy_activate(DeploySpec { agents: Vec::new(), rollback_script: None })),
        "failed to activate deployment: 404 Not Found gone"
    );
    assert_eq!(message(api.get_deployment(&ID)), "failed to get deployment: 404 Not Found");
}

#[test]
fn refusals_that_are_no_errors() {
    let api = client();
    assert!(!api.head_narinfo("c", "h").check(404, "", "").unwrap());
    assert!(api.head_narinfo("c", "h").check(200, "", "").unwrap());
    assert!(!api.abort_multipart_upload("c", &ID, "u").check(500, "", "").unwrap());
    assert!(api.get_cache("c").check(300, "", "").is_err());
    assert!(api.get_cache("c").check(199, "", "").is_err());
}

#[test]
fn entity_tags() {
    assert_eq!(upload_part_etag(Some(b"\"abc\"")).unwrap(), "\"abc\"");
    assert_eq!(upload_part_etag(Some(b"a\tb")).unwrap(), "a\tb");
    assert_eq!(upload_part_etag(Some(b"")).unwrap(), "");
    assert_eq!(upload_part_etag(None).unwrap_err().message, "missing ETag in upload response");
    assert_eq!(upload_part_etag(Some(&[200])).unwrap_err().message, "invalid ETag header");
    assert_eq!(upload_part_etag(Some(&[127])).unwrap_err().message, "invalid ETag header");
}
