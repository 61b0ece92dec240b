//! Requests to the service, and what its responses mean.

use reqwest::header::HeaderValue;
use vstd::prelude::*;
use vstd::string::*;
use vstd::utf8::*;

use crate::api::types;
use crate::api::types::{
    CompletedMultipartUpload, CompressionMethod, DeploySpec, PinCreate, SigningData, Uuid,
};
use crate::text;

verus! {

/// Whether a byte may stand in the value of a header.
pub open spec fn is_header_byte(b: u8) -> bool {
    b >= 32 && b != 127 || b == 9
}

/// Whether a text may be the value of a header.
pub open spec fn is_header_value(s: Seq<char>) -> bool {
    forall|i: int| 0 <= i < encode_utf8(s).len() ==> is_header_byte(#[trigger] encode_utf8(s)[i])
}

/// `reqwest::header::HeaderValue::from_str`: it takes a text whose bytes are all
/// visible, a tab, or not ASCII.
#[verifier::external_body]
fn header_accepts(value: &str) -> (r: bool)
    ensures
        r == is_header_value(value@),
{
    HeaderValue::from_str(value).is_ok()
}

/// The method of a request.
#[derive(Debug, Clone, Copy, PartialEq, Eq, Structural)]
pub enum Method {
    Get,
    Head,
    Post,
    Put,
}

/// What a request is for.
#[derive(Debug, Clone)]
pub enum Purpose {
    GetCache { name: String },
    GetNixCacheInfo,
    HeadNarinfo,
    NarinfoBulk,
    CreateMultipartUpload,
    GetUploadPartUrl,
    UploadPart,
    CompleteMultipartUpload,
    AbortMultipartUpload,
    UploadSigningKey,
    CreatePin,
    DeployActivate,
    GetDeployment,
}

/// The body of a request.
#[derive(Debug, Clone)]
pub enum Body {
    Empty,
    StoreHashes(Vec<String>),
    Signing(SigningData),
    Part(Vec<u8>),
    Completion(CompletedMultipartUpload),
    PublicSigningKey(String),
    Pin(PinCreate),
    Deploy(DeploySpec),
}

/// A request. `headers` are those beside the default ones.
#[derive(Debug, Clone)]
pub struct ApiRequest {
    pub purpose: Purpose,
    pub method: Method,
    pub url: String,
    pub headers: Vec<(String, String)>,
    pub body: Body,
}

/// The service refused a request, or its response cannot be used.
#[derive(Debug)]
pub struct ApiError {
    pub message: String,
}

/// Whether a status code is one of success.
pub open spec fn is_success(status: u16) -> bool {
    200 <= status < 300
}

impl Purpose {
    /// Whether a refusal is no error: the caller goes on.
    pub open spec fn tolerates_refusal(self) -> bool {
        self is HeadNarinfo || self is AbortMultipartUpload
    }

    /// The message for a refusal, from the status and the body of the response.
    pub open spec fn refusal_text(self, status: Seq<char>, body: Seq<char>) -> Seq<char> {
        match self {
            Purpose::GetCache { name } => "failed to get cache "@ + name@ + ": "@ + status + " "@
                + body,
            Purpose::GetNixCacheInfo => "failed to get nix-cache-info: "@ + status,
            Purpose::HeadNarinfo => Seq::empty(),
            Purpose::NarinfoBulk => "bulk narinfo query failed: "@ + status,
            Purpose::CreateMultipartUpload => "failed to create multipart upload: "@ + status
                + " "@ + body,
            Purpose::GetUploadPartUrl => "failed to get upload part URL: "@ + status + " "@ + body,
            Purpose::UploadPart => "part upload failed: "@ + status + " "@ + body,
            Purpose::CompleteMultipartUpload => "failed to complete multipart upload: "@ + status
                + " "@ + body,
            Purpose::AbortMultipartUpload => Seq::empty(),
            Purpose::UploadSigningKey => "failed to upload signing key: "@ + status + " "@ + body,
            Purpose::CreatePin => "failed to create pin: "@ + status + " "@ + body,
            Purpose::DeployActivate => "failed to activate deployment: "@ + status + " "@ + body,
            Purpose::GetDeployment => "failed to get deployment: "@ + status,
        }
    }
}

/// Three texts one after the other, with a space before the last.
fn with_body(what: &str, status: &str, body: &str) -> (r: String)
    ensures
        r@ == what@ + status@ + " "@ + body@,
{
    let mut r = what.to_string();
    r.append(status);
    r.append(" ");
    r.append(body);
    r
}

/// Two texts one after the other.
fn with_status(what: &str, status: &str) -> (r: String)
    ensures
        r@ == what@ + status@,
{
    let mut r = what.to_string();
    r.append(status);
    r
}

impl ApiRequest {
    /// What a response means, from its status code, the text of its status and its
    /// body: whether the request succeeded, or the error that it failed with.
    pub fn check(&self, code: u16, status: &str, body: &str) -> (r: Result<bool, ApiError>)
        ensures
            match r {
                Ok(succeeded) => {
                    &&& succeeded == is_success(code)
                    &&& !succeeded ==> self.purpose.tolerates_refusal()
                },
                Err(e) => {
                    &&& !is_success(code)
                    &&& !self.purpose.tolerates_refusal()
                    &&& e.message@ == self.purpose.refusal_text(status@, body@)
                },
            },
            200 <= code <= 299 <==> r == Ok::<bool, ApiError>(true),
            r == Ok::<bool, ApiError>(false) <==> !(200 <= code <= 299) && (self.purpose
                is HeadNarinfo || self.purpose is AbortMultipartUpload),
    {
        if 200 <= code && code < 300 {
            return Ok(true);
        }
        let message = match &self.purpose {
            Purpose::GetCache { name } => {
                let mut what = "failed to get cache ".to_string();
                what.append(name.as_str());
                what.append(": ");
                with_body(what.as_str(), status, body)
            },
            Purpose::GetNixCacheInfo => with_status("failed to get nix-cache-info: ", status),
            Purpose::HeadNarinfo => return Ok(false),
            Purpose::NarinfoBulk => with_status("bulk narinfo query failed: ", status),
            Purpose::CreateMultipartUpload => with_body(
                "failed to create multipart upload: ",
                status,
                body,
            ),
            Purpose::GetUploadPartUrl => with_body("failed to get upload part URL: ", status, body),
            Purpose::UploadPart => with_body("part upload failed: ", status, body),
            Purpose::CompleteMultipartUpload => with_body(
                "failed to complete multipart upload: ",
                status,
                body,
            ),
            Purpose::AbortMultipartUpload => return Ok(false),
            Purpose::UploadSigningKey => with_body("failed to upload signing key: ", status, body),
            Purpose::CreatePin => with_body("failed to create pin: ", status, body),
            Purpose::DeployActivate => with_body("failed to activate deployment: ", status, body),
            Purpose::GetDeployment => with_status("failed to get deployment: ", status),
        };
        Err(ApiError { message })
    }
}

/// A byte of a header value that is text: visible ASCII, or a tab.
pub open spec fn is_text_byte(b: u8) -> bool {
    32 <= b < 127 || b == 9
}

/// Whether the value of a header is text.
pub open spec fn is_text(value: Seq<u8>) -> bool {
    forall|i: int| 0 <= i < value.len() ==> is_text_byte(#[trigger] value[i])
}

/// The entity tag of an uploaded part, from the value of the response's header.
pub fn upload_part_etag(header: Option<&[u8]>) -> (r: Result<String, ApiError>)
    ensures
        match header {
            None => r is Err && r->Err_0.message@ == "missing ETag in upload response"@,
            Some(bytes) => if is_text(bytes@) {
                r is Ok && r->Ok_0@ == bytes@.map_values(|b: u8| b as char)
            } else {
                r is Err && r->Err_0.message@ == "invalid ETag header"@
            },
        },
{
    let bytes = match header {
        None => return Err(
            ApiError { message: "missing ETag in upload response".to_string() },
        ),
        Some(bytes) => bytes,
    };
    let mut etag = String::new();
    let mut i: usize = 0;
    while i < bytes.len()
        invariant
            header == Some(bytes),
            i <= bytes@.len(),
            forall|j: int| 0 <= j < i ==> is_text_byte(#[trigger] bytes@[j]),
            etag@ == bytes@.take(i as int).map_values(|b: u8| b as char),
        decreases bytes@.len() - i,
    {
        let b: u8 = bytes[i];
        if !(32 <= b && b < 127 || b == 9) {
            assert(!is_text_byte(bytes@[i as int]));
            assert(!is_text(bytes@));
            return Err(ApiError { message: "invalid ETag header".to_string() });
        }
        let ghost before = etag@;
        etag.push(b as char);
        assert(bytes@.take(i + 1).map_values(|b: u8| b as char) == before.push(b as char));
        i = i + 1;
    }
    assert(bytes@.take(i as int) == bytes@);
    Ok(etag)
}

/// Cachix API client: where the service is, and the token to present.
#[derive(Debug, Clone)]
pub struct ApiClient {
    base_url: String,
    auth_token: Option<String>,
}

/// The address of the service without the slashes at its end.
pub open spec fn base_of(base_url: Seq<char>) -> Seq<char> {
    text::trim_end_matches(base_url, "/"@)
}

/// The address of the service does not end in a slash, and an address that does
/// not is left as it is.
pub proof fn base_has_no_slash_at_its_end(base_url: Seq<char>)
    ensures
        !"/"@.is_suffix_of(base_of(base_url)),
        base_of(base_of(base_url)) == base_of(base_url),
    decreases base_url.len(),
{
    reveal_strlit("/");
    if "/"@.is_suffix_of(base_url) {
        base_has_no_slash_at_its_end(base_url.take(base_url.len() - "/"@.len()));
    }
}

/// The value of the authorization header for a token.
pub open spec fn bearer(token: Seq<char>) -> Seq<char> {
    "Bearer "@ + token
}

/// Whether `r` is the client for an address and a token, or the error for a token that
/// no header can hold.
pub open spec fn is_client(
    base_url: Seq<char>,
    token: Option<Seq<char>>,
    r: Result<ApiClient, ApiError>,
) -> bool {
    match r {
        Ok(client) => {
            &&& token is Some ==> is_header_value(bearer(token->0))
            &&& client.base() == base_of(base_url)
            &&& client.token() == token
        },
        Err(e) => {
            &&& token is Some
            &&& !is_header_value(bearer(token->0))
            &&& e.message@ == "invalid auth token"@
        },
    }
}

/// The texts of headers.
pub open spec fn header_texts(headers: Seq<(String, String)>) -> Seq<(Seq<char>, Seq<char>)> {
    types::pair_texts(headers)
}

impl ApiClient {
    /// The address of the service.
    pub closed spec fn base(self) -> Seq<char> {
        self.base_url@
    }

    /// The token to present.
    pub closed spec fn token(self) -> Option<Seq<char>> {
        text::opt_text(self.auth_token)
    }

    /// The address of a path of the API.
    pub open spec fn url_of(self, path: Seq<char>) -> Seq<char> {
        self.base() + "/api/v1"@ + path
    }

    /// A client for the service at `base_url`. A token that no header can hold is
    /// refused.
    pub fn new(base_url: &str, auth_token: Option<&str>) -> (r: Result<ApiClient, ApiError>)
        ensures
            is_client(base_url@, text::opt_str(auth_token), r),
    {
        let base_url = text::drop_trailing(base_url, "/");
        match auth_token {
            Some(token) => {
                let mut value = "Bearer ".to_string();
                value.append(token);
                if !header_accepts(value.as_str()) {
                    return Err(ApiError { message: "invalid auth token".to_string() });
                }
                Ok(ApiClient { base_url, auth_token: Some(token.to_string()) })
            },
            None => Ok(ApiClient { base_url, auth_token: None }),
        }
    }

    pub fn auth_token(&self) -> (r: Option<&str>)
        ensures
            text::opt_str(r) == self.token(),
    {
        match &self.auth_token {
            Some(token) => Some(token.as_str()),
            None => None,
        }
    }

    pub fn base_url(&self) -> (r: &str)
        ensures
            r@ == self.base(),
    {
        self.base_url.as_str()
    }

    /// The headers that each request to the service has.
    pub fn default_headers(&self) -> (r: Vec<(String, String)>)
        ensures
            header_texts(r@) == match self.token() {
                Some(token) => seq![
                    ("content-type"@, "application/json"@),
                    ("authorization"@, bearer(token)),
                ],
                None => seq![("content-type"@, "application/json"@)],
            },
            self.token() matches Some(token) ==> r@.len() == 2 && r@[1].0@ == "authorization"@
                && r@[1].1@ == "Bearer "@ + token,
    {
        let mut headers: Vec<(String, String)> = Vec::new();
        headers.push(("content-type".to_string(), "application/json".to_string()));
        match &self.auth_token {
            Some(token) => {
                let mut value = "Bearer ".to_string();
                value.append(token.as_str());
                headers.push(("authorization".to_string(), value));
                assert(header_texts(headers@) == seq![
                    ("content-type"@, "application/json"@),
                    ("authorization"@, bearer(token@)),
                ]);
            },
            None => {
                assert(header_texts(headers@) == seq![("content-type"@, "application/json"@)]);
            },
        }
        headers
    }

    /// The address of a path of the API.
    pub fn api_url(&self, path: &str) -> (r: String)
        ensures
            r@ == self.url_of(path@),
            r@ == self.base() + "/api/v1"@ + path@,
    {
        let mut r = self.base_url.clone();
        r.append("/api/v1");
        r.append(path);
        r
    }

    /// A request for a path of the API.
    fn request(&self, purpose: Purpose, method: Method, path: &str, body: Body) -> (r: ApiRequest)
        ensures
            r.purpose == purpose,
            r.method == method,
            r.url@ == self.url_of(path@),
            r.headers@.len() == 0,
            r.body == body,
    {
        ApiRequest { purpose, method, url: self.api_url(path), headers: Vec::new(), body }
    }

    /// Get binary cache metadata.
    pub fn get_cache(&self, name: &str) -> (r: ApiRequest)
        ensures
            r.purpose is GetCache,
            r.purpose->GetCache_name@ == name@,
            r.method == Method::Get,
            r.url@ == self.url_of("/cache/"@ + name@),
            r.headers@.len() == 0,
            r.body is Empty,
    {
        let mut path = "/cache/".to_string();
        path.append(name);
        let purpose = Purpose::GetCache { name: name.to_string() };
        self.request(purpose, Method::Get, path.as_str(), Body::Empty)
    }

    /// Get nix-cache-info for a cache.
    pub fn get_nix_cache_info(&self, name: &str) -> (r: ApiRequest)
        ensures
            r.purpose is GetNixCacheInfo,
            r.method == Method::Get,
            r.url@ == self.url_of("/cache/"@ + name@ + "/nix-cache-info"@),
            r.headers@.len() == 0,
            r.body is Empty,
    {
        let mut path = "/cache/".to_string();
        path.append(name);
        path.append("/nix-cache-info");
        self.request(Purpose::GetNixCacheInfo, Method::Get, path.as_str(), Body::Empty)
    }

    /// Check if a narinfo exists (HEAD request).
    pub fn head_narinfo(&self, cache: &str, store_hash: &str) -> (r: ApiRequest)
        ensures
            r.purpose is HeadNarinfo,
            r.method == Method::Head,
            r.url@ == self.url_of("/cache/"@ + cache@ + "/"@ + store_hash@ + ".narinfo"@),
            r.headers@.len() == 0,
            r.body is Empty,
    {
        let mut path = "/cache/".to_string();
        path.append(cache);
        path.append("/");
        path.append(store_hash);
        path.append(".narinfo");
        self.request(Purpose::HeadNarinfo, Method::Head, path.as_str(), Body::Empty)
    }

    /// Bulk query: given store hashes, return which are missing.
    pub fn narinfo_bulk(&self, cache: &str, store_hashes: Vec<String>) -> (r: ApiRequest)
        ensures
            r.purpose is NarinfoBulk,
            r.method == Method::Post,
            r.url@ == self.url_of("/cache/"@ + cache@ + "/narinfo"@),
            r.headers@.len() == 0,
            r.body == Body::StoreHashes(store_hashes),
    {
        let mut path = "/cache/".to_string();
        path.append(cache);
        path.append("/narinfo");
        let body = Body::StoreHashes(store_hashes);
        self.request(Purpose::NarinfoBulk, Method::Post, path.as_str(), body)
    }

    /// Create a multipart NAR upload.
    pub fn create_multipart_upload(&self, cache: &str, compression: &CompressionMethod) -> (r:
        ApiRequest)
        ensures
            r.purpose is CreateMultipartUpload,
            r.method == Method::Post,
            r.url@ == self.url_of(
                "/cache/"@ + cache@ + "/multipart-nar?compression="@ + compression.spec_name(),
            ),
            r.headers@.len() == 0,
            r.body is Empty,
    {
        let mut path = "/cache/".to_string();
        path.append(cache);
        path.append("/multipart-nar?compression=");
        path.append(compression.to_text().as_str());
        self.request(Purpose::CreateMultipartUpload, Method::Post, path.as_str(), Body::Empty)
    }

    /// Get a presigned URL for uploading a part.
    pub fn get_upload_part_url(
        &self,
        cache: &str,
        nar_id: &Uuid,
        upload_id: &str,
        part_number: u32,
        content_md5: &str,
    ) -> (r: ApiRequest)
        ensures
            r.purpose is GetUploadPartUrl,
            r.method == Method::Post,
            r.url@ == self.url_of(
                "/cache/"@ + cache@ + "/multipart-nar/"@ + types::uuid_text(nar_id.value)
                    + "?uploadId="@ + upload_id@ + "&partNumber="@ + text::decimal(
                    part_number as nat,
                ),
            ),
            r.headers@.len() == 0,
            r.body is Signing,
            r.body->Signing_0.content_md5@ == content_md5@,
    {
        let mut path = "/cache/".to_string();
        path.append(cache);
        path.append("/multipart-nar/");
        path.append(nar_id.to_text().as_str());
        path.append("?uploadId=");
        path.append(upload_id);
        path.append("&partNumber=");
        path.append(text::decimal_text(part_number as u64).as_str());
        let body = Body::Signing(SigningData { content_md5: content_md5.to_string() });
        self.request(Purpose::GetUploadPartUrl, Method::Post, path.as_str(), body)
    }

    /// Upload a part to the presigned URL. It is sent without the default headers,
    /// since the URL has its own authentication.
    pub fn upload_part(&self, upload_url: &str, data: Vec<u8>, content_md5: &str) -> (r: ApiRequest)
        ensures
            r.purpose is UploadPart,
            r.method == Method::Put,
            r.url@ == upload_url@,
            header_texts(r.headers@) == seq![
                ("content-type"@, "application/octet-stream"@),
                ("Content-MD5"@, content_md5@),
            ],
            r.body == Body::Part(data),
    {
        let mut headers: Vec<(String, String)> = Vec::new();
        headers.push(("content-type".to_string(), "application/octet-stream".to_string()));
        headers.push(("Content-MD5".to_string(), content_md5.to_string()));
        assert(header_texts(headers@) == seq![
            ("content-type"@, "application/octet-stream"@),
            ("Content-MD5"@, content_md5@),
        ]);
        ApiRequest {
            purpose: Purpose::UploadPart,
            method: Method::Put,
            url: upload_url.to_string(),
            headers,
            body: Body::Part(data),
        }
    }

    /// Complete a multipart upload.
    pub fn complete_multipart_upload(
        &self,
        cache: &str,
        nar_id: &Uuid,
        upload_id: &str,
        body: CompletedMultipartUpload,
    ) -> (r: ApiRequest)
        ensures
            r.purpose is CompleteMultipartUpload,
            r.method == Method::Post,
            r.url@ == self.url_of(
                "/cache/"@ + cache@ + "/multipart-nar/"@ + types::uuid_text(nar_id.value)
                    + "/complete?uploadId="@ + upload_id@,
            ),
            r.headers@.len() == 0,
            r.body == Body::Completion(body),
    {
        let mut path = "/cache/".to_string();
        path.append(cache);
        path.append("/multipart-nar/");
        path.append(nar_id.to_text().as_str());
        path.append("/complete?uploadId=");
        path.append(upload_id);
        let body = Body::Completion(body);
        self.request(Purpose::CompleteMultipartUpload, Method::Post, path.as_str(), body)
    }

    /// Abort a multipart upload.
    pub fn abort_multipart_upload(&self, cache: &str, nar_id: &Uuid, upload_id: &str) -> (r:
        ApiRequest)
        ensures
            r.purpose is AbortMultipartUpload,
            r.method == Method::Post,
            r.url@ == self.url_of(
                "/cache/"@ + cache@ + "/multipart-nar/"@ + types::uuid_text(nar_id.value)
                    + "/abort?uploadId="@ + upload_id@,
            ),
            r.headers@.len() == 0,
            r.body is Empty,
    {
        let mut path = "/cache/".to_string();
        path.append(cache);
        path.append("/multipart-nar/");
        path.append(nar_id.to_text().as_str());
        path.append("/abort?uploadId=");
        path.append(upload_id);
        self.request(Purpose::AbortMultipartUpload, Method::Post, path.as_str(), Body::Empty)
    }

    /// Upload a signing public key.
    pub fn upload_signing_key(&self, cache: &str, public_key: &str) -> (r: ApiRequest)
        ensures
            r.purpose is UploadSigningKey,
            r.method == Method::Post,
            r.url@ == self.url_of("/cache/"@ + cache@ + "/key"@),
            r.headers@.len() == 0,
            r.body is PublicSigningKey,
            r.body->PublicSigningKey_0@ == public_key@,
    {
        let mut path = "/cache/".to_string();
        path.append(cache);
        path.append("/key");
        let body = Body::PublicSigningKey(public_key.to_string());
        self.request(Purpose::UploadSigningKey, Method::Post, path.as_str(), body)
    }

    /// Create a pin.
    pub fn create_pin(&self, cache: &str, pin: PinCreate) -> (r: ApiRequest)
        ensures
            r.purpose is CreatePin,
            r.method == Method::Post,
            r.url@ == self.url_of("/cache/"@ + cache@ + "/pin"@),
            r.headers@.len() == 0,
            r.body == Body::Pin(pin),
    {
        let mut path = "/cache/".to_string();
        path.append(cache);
        path.append("/pin");
        self.request(Purpose::CreatePin, Method::Post, path.as_str(), Body::Pin(pin))
    }

    /// Activate a deployment (V2).
    pub fn deploy_activate(&self, spec: DeploySpec) -> (r: ApiRequest)
        ensures
            r.purpose is DeployActivate,
            r.method == Method::Post,
            r.url@ == self.base() + "/api/v2/deploy/activate"@,
            r.headers@.len() == 0,
            r.body == Body::Deploy(spec),
    {
        let mut url = self.base_url.clone();
        url.append("/api/v2/deploy/activate");
        ApiRequest {
            purpose: Purpose::DeployActivate,
            method: Method::Post,
            url,
            headers: Vec::new(),
            body: Body::Deploy(spec),
        }
    }

    /// Get deployment status.
    pub fn get_deployment(&self, deployment_id: &Uuid) -> (r: ApiRequest)
        ensures
            r.purpose is GetDeployment,
            r.method == Method::Get,
            r.url@ == self.url_of(
                "/deploy/deployment/"@ + types::uuid_text(deployment_id.value),
            ),
            r.headers@.len() == 0,
            r.body is Empty,
    {
        let mut path = "/deploy/deployment/".to_string();
        path.append(deployment_id.to_text().as_str());
        self.request(Purpose::GetDeployment, Method::Get, path.as_str(), Body::Empty)
    }
}

/// The status codes of success are those from 200 to 299.
pub proof fn codes_of_success(status: u16)
    ensures
        is_success(status) <==> status / 100 == 2,
{
}

/// That the service has no narinfo, or gives up no upload, is no error; any other refusal is.
pub proof fn tolerated_refusals(purpose: Purpose)
    ensures
        purpose.tolerates_refusal() <==> purpose is HeadNarinfo || purpose is AbortMultipartUpload,
{
}

/// An error tells what was refused, with the whole status; it ends in the whole body of the
/// response, except where only the status is told.
pub proof fn refusal_messages(name: String, status: Seq<char>, body: Seq<char>)
    ensures
        (Purpose::GetCache { name }).refusal_text(status, body) == "failed to get cache "@ + name@
            + ": "@ + status + " "@ + body,
        Purpose::GetNixCacheInfo.refusal_text(status, body) == "failed to get nix-cache-info: "@
            + status,
        Purpose::NarinfoBulk.refusal_text(status, body) == "bulk narinfo query failed: "@ + status,
        Purpose::CreateMultipartUpload.refusal_text(status, body)
            == "failed to create multipart upload: "@ + status + " "@ + body,
        Purpose::GetUploadPartUrl.refusal_text(status, body) == "failed to get upload part URL: "@
            + status + " "@ + body,
        Purpose::UploadPart.refusal_text(status, body) == "part upload failed: "@ + status + " "@
            + body,
        Purpose::CompleteMultipartUpload.refusal_text(status, body)
            == "failed to complete multipart upload: "@ + status + " "@ + body,
        Purpose::UploadSigningKey.refusal_text(status, body) == "failed to upload signing key: "@
            + status + " "@ + body,
        Purpose::CreatePin.refusal_text(status, body) == "failed to create pin: "@ + status + " "@
            + body,
        Purpose::DeployActivate.refusal_text(status, body) == "failed to activate deployment: "@
            + status + " "@ + body,
        Purpose::GetDeployment.refusal_text(status, body) == "failed to get deployment: "@ + status,
{
}

/// The value of a header is text exactly if its bytes are visible ASCII characters, spaces
/// and tabs.
pub proof fn text_of_a_header(value: Seq<u8>)
    ensures
        is_text(value) <==> forall|i: int|
            0 <= i < value.len() ==> (0x20 <= #[trigger] value[i] <= 0x7e || value[i] == 0x9),
{
    if is_text(value) {
        assert forall|i: int| 0 <= i < value.len() implies (0x20 <= #[trigger] value[i] <= 0x7e
            || value[i] == 0x9) by {
            assert(is_text_byte(value[i]));
        }
    }
}

/// The slashes at the end of an address are taken away, all of them, and nothing else.
pub proof fn slashes_at_the_end_are_dropped(address: Seq<char>)
    ensures
        base_of(address + "/"@) == base_of(address),
        !"/"@.is_suffix_of(address) ==> base_of(address) == address,
{
    reveal_strlit("/");
    text::repetitions_are_taken_away(address, "/"@);
}

/// A client presents the token that it was given and asks the service that it was given. It
/// is refused exactly if the token cannot stand in a header.
pub proof fn client_is_for_the_address_and_token(
    base_url: Seq<char>,
    token: Option<Seq<char>>,
    r: Result<ApiClient, ApiError>,
)
    requires
        is_client(base_url, token, r),
    ensures
        token is None ==> r is Ok,
        token is Some ==> (r is Ok <==> is_header_value("Bearer "@ + token->0)),
        r matches Ok(client) ==> client.token() == token,
        r is Ok && !"/"@.is_suffix_of(base_url) ==> r->Ok_0.base() == base_url,
        r matches Ok(client) ==> client.base() == base_of(base_url),
        r matches Err(e) ==> e.message@ == "invalid auth token"@,
{
    slashes_at_the_end_are_dropped(base_url);
}

/// A path of the API stands behind the address of the service and the version.
pub proof fn address_of_a_path(client: ApiClient, path: Seq<char>)
    ensures
        client.url_of(path) == client.base() + "/api/v1"@ + path,
        bearer(path) == "Bearer "@ + path,
{
}

/// A header has a name and a value, each in its place.
pub proof fn headers_have_names_and_values(headers: Seq<(String, String)>, i: int)
    requires
        0 <= i < headers.len(),
    ensures
        header_texts(headers).len() == headers.len(),
        header_texts(headers)[i] == (headers[i].0@, headers[i].1@),
{
}

/// The bytes that no header can hold are the control characters but the tab.
pub proof fn bytes_of_a_header(s: Seq<char>)
    ensures
        is_header_value(s) <==> forall|i: int|
            0 <= i < encode_utf8(s).len() ==> (#[trigger] encode_utf8(s)[i] == 0x9 || 0x20
                <= encode_utf8(s)[i] <= 0x7e || 0x80 <= encode_utf8(s)[i]),
{
    let bytes = encode_utf8(s);
    if is_header_value(s) {
        assert forall|i: int| 0 <= i < bytes.len() implies (#[trigger] bytes[i] == 0x9 || 0x20
            <= bytes[i] <= 0x7e || 0x80 <= bytes[i]) by {
            assert(is_header_byte(bytes[i]));
        }
    }
    if forall|i: int|
        0 <= i < bytes.len() ==> (#[trigger] bytes[i] == 0x9 || 0x20 <= bytes[i] <= 0x7e || 0x80
            <= bytes[i]) {
        assert forall|i: int| 0 <= i < bytes.len() implies is_header_byte(#[trigger] bytes[i]) by {
            assert(bytes[i] == 0x9 || 0x20 <= bytes[i] <= 0x7e || 0x80 <= bytes[i]);
        }
    }
}

}
