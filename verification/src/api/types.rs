//! The messages that the service, the push daemon and the deploy agent exchange.

use vstd::arithmetic::power2::*;
use vstd::prelude::*;
use vstd::string::*;

use crate::text;

verus! {

/// A universally unique identifier, as a number of 128 bits.
#[derive(Debug, Clone, Copy, PartialEq, Eq, Structural)]
pub struct Uuid {
    pub value: u128,
}

/// The number of hexadecimal digits before position `i` of an identifier's text.
pub open spec fn uuid_digits_before(i: int) -> int {
    if i <= 8 {
        i
    } else if i <= 13 {
        i - 1
    } else if i <= 18 {
        i - 2
    } else if i <= 23 {
        i - 3
    } else {
        i - 4
    }
}

/// The text of an identifier: 32 hexadecimal digits in lower case, the most
/// significant first, in groups of 8, 4, 4, 4 and 12 with a hyphen between them.
pub open spec fn uuid_text(value: u128) -> Seq<char> {
    Seq::new(
        36,
        |i: int|
            if i == 8 || i == 13 || i == 18 || i == 23 {
                '-'
            } else {
                text::hex_digit(
                    value as nat / pow2((4 * (31 - uuid_digits_before(i))) as nat) % 16,
                )
            },
    )
}

/// `Uuid::to_string` of the identifier that `uuid::Uuid::from_u128` makes of a
/// number: the hyphenated form in lower case.
#[verifier::external_body]
fn uuid_to_string(value: u128) -> (r: String)
    ensures
        r@ == uuid_text(value),
{
    uuid::Uuid::from_u128(value).to_string()
}

impl Uuid {
    /// The text of the identifier.
    pub fn to_text(&self) -> (r: String)
        ensures
            r@ == uuid_text(self.value),
    {
        uuid_to_string(self.value)
    }
}

/// A point in time, in UTC: seconds since the Unix epoch, and nanoseconds.
#[derive(Debug, Clone, Copy, PartialEq, Eq, Structural)]
pub struct Timestamp {
    pub secs: i64,
    pub nanos: u32,
}

/// Binary cache metadata returned by the API.
#[derive(Debug, Clone)]
pub struct BinaryCache {
    pub name: String,
    pub uri: String,
    pub is_public: bool,
    pub public_signing_keys: Vec<String>,
    pub github_username: Option<String>,
    pub permission: Permission,
    pub preferred_compression_method: Option<CompressionMethod>,
}

#[derive(Debug, Clone, Copy, PartialEq, Eq, Structural)]
pub enum Permission {
    Read,
    Write,
    Admin,
}

#[derive(Debug, Clone, Copy, PartialEq, Eq, Structural)]
pub enum CompressionMethod {
    Xz,
    Zstd,
}

impl CompressionMethod {
    /// The name of the method.
    pub open spec fn spec_name(self) -> Seq<char> {
        match self {
            CompressionMethod::Xz => "xz"@,
            CompressionMethod::Zstd => "zst"@,
        }
    }

    /// The method as it stands in a request.
    pub fn to_text(&self) -> (r: String)
        ensures
            r@ == self.spec_name(),
            self is Xz ==> r@ == "xz"@,
            self is Zstd ==> r@ == "zst"@,
    {
        self.file_extension().to_string()
    }

    /// The extension of a file that is compressed with the method.
    pub fn file_extension(&self) -> (r: &'static str)
        ensures
            r@ == self.spec_name(),
            self is Xz ==> r@ == "xz"@,
            self is Zstd ==> r@ == "zst"@,
    {
        match self {
            CompressionMethod::Xz => "xz",
            CompressionMethod::Zstd => "zst",
        }
    }
}

/// Info about a Nix cache (nix-cache-info).
#[derive(Debug, Clone)]
pub struct NixCacheInfo {
    pub store_dir: String,
    pub want_mass_query: i64,
    pub priority: i64,
}

/// NarInfo creation request sent after uploading a NAR.
#[derive(Debug, Clone)]
pub struct NarInfoCreate {
    pub c_store_hash: String,
    pub c_store_suffix: String,
    pub c_nar_hash: String,
    pub c_nar_size: u64,
    pub c_file_hash: String,
    pub c_file_size: u64,
    pub c_references: Vec<String>,
    pub c_deriver: String,
    pub c_sig: Option<String>,
}

/// The texts of a `NarInfoCreate`.
pub struct NarInfoCreateView {
    pub store_hash: Seq<char>,
    pub store_suffix: Seq<char>,
    pub nar_hash: Seq<char>,
    pub nar_size: u64,
    pub file_hash: Seq<char>,
    pub file_size: u64,
    pub references: Seq<Seq<char>>,
    pub deriver: Seq<char>,
    pub sig: Option<Seq<char>>,
}

impl View for NarInfoCreate {
    type V = NarInfoCreateView;

    open spec fn view(&self) -> NarInfoCreateView {
        NarInfoCreateView {
            store_hash: self.c_store_hash@,
            store_suffix: self.c_store_suffix@,
            nar_hash: self.c_nar_hash@,
            nar_size: self.c_nar_size,
            file_hash: self.c_file_hash@,
            file_size: self.c_file_size,
            references: text::texts(self.c_references@),
            deriver: self.c_deriver@,
            sig: text::opt_text(self.c_sig),
        }
    }
}

/// Response from creating a multipart upload.
#[derive(Debug, Clone)]
pub struct CreateMultipartUploadResponse {
    pub nar_id: Uuid,
    pub upload_id: String,
}

/// Request body for getting a presigned upload URL.
#[derive(Debug, Clone)]
pub struct SigningData {
    pub content_md5: String,
}

/// Response with presigned URL for uploading a part.
#[derive(Debug, Clone)]
pub struct UploadPartResponse {
    pub upload_url: String,
}

/// A completed upload part.
#[derive(Debug, Clone)]
pub struct CompletedPart {
    pub part_number: u32,
    pub e_tag: String,
}

impl View for CompletedPart {
    type V = (u32, Seq<char>);

    open spec fn view(&self) -> (u32, Seq<char>) {
        (self.part_number, self.e_tag@)
    }
}

/// Request body for completing a multipart upload.
#[derive(Debug, Clone)]
pub struct CompletedMultipartUpload {
    pub parts: Option<Vec<CompletedPart>>,
    pub nar_info_create: NarInfoCreate,
}

/// Bulk narinfo query: send store hashes, get back which are missing.
#[derive(Debug, Clone)]
pub struct NarInfoBulkResponse {
    pub missing_hashes: Vec<String>,
}

/// Pin creation request.
#[derive(Debug, Clone)]
pub struct PinCreate {
    pub name: String,
    pub store_path: String,
    pub artifacts: Vec<String>,
    pub keep: Option<PinKeep>,
}

#[derive(Debug, Clone, Copy)]
pub enum PinKeep {
    Days(u64),
    Revisions(u64),
    Forever,
}

/// Deploy specification: the store path of each agent, and the rollback script
/// of each agent that has one. No agent is named twice.
#[derive(Debug, Clone)]
pub struct DeploySpec {
    pub agents: Vec<(String, String)>,
    pub rollback_script: Option<Vec<(String, String)>>,
}

/// The texts of pairs of strings.
pub open spec fn pair_texts(pairs: Seq<(String, String)>) -> Seq<(Seq<char>, Seq<char>)> {
    pairs.map_values(|p: (String, String)| (p.0@, p.1@))
}

/// Whether no two pairs have the same first text.
pub open spec fn distinct_keys(pairs: Seq<(Seq<char>, Seq<char>)>) -> bool {
    forall|i: int, j: int|
        0 <= i < j < pairs.len() ==> (#[trigger] pairs[i]).0 != (#[trigger] pairs[j]).0
}

impl DeploySpec {
    /// No agent is named twice.
    pub open spec fn wf(self) -> bool {
        &&& distinct_keys(pair_texts(self.agents@))
        &&& self.rollback_script matches Some(scripts) ==> distinct_keys(pair_texts(scripts@))
    }
}

/// Response from deploy activate (V2).
#[derive(Debug, Clone)]
pub struct DeployActivateResponse {
    pub agents: Vec<DeployAgentResponse>,
}

#[derive(Debug, Clone)]
pub struct DeployAgentResponse {
    pub id: Uuid,
    pub name: String,
    pub deployment_id: Uuid,
    pub log_url: Option<String>,
}

/// Deployment status.
#[derive(Debug, Clone)]
pub struct Deployment {
    pub id: Uuid,
    pub status: DeploymentStatus,
    pub agent_name: Option<String>,
    pub store_path: Option<String>,
    pub started_at: Option<Timestamp>,
    pub finished_at: Option<Timestamp>,
}

#[derive(Debug, Clone, Copy, PartialEq, Eq, Structural)]
pub enum DeploymentStatus {
    Pending,
    InProgress,
    Succeeded,
    Failed,
    Cancelled,
}

/// WebSocket messages for deploy agent.
#[derive(Debug, Clone)]
pub enum BackendMessage {
    AgentRegistered(AgentInformation),
    Deployment(DeploymentDetails),
}

#[derive(Debug, Clone)]
pub struct AgentInformation {
    pub cache: Option<AgentCache>,
    pub id: Uuid,
}

#[derive(Debug, Clone)]
pub struct AgentCache {
    pub name: String,
    pub public_signing_keys: Vec<String>,
}

#[derive(Debug, Clone)]
pub struct DeploymentDetails {
    pub store_path: String,
    pub id: Uuid,
    pub index: i64,
    pub rollback_script: Option<String>,
}

#[derive(Debug, Clone, Copy)]
pub enum AgentMessage {
    DeploymentStarted { id: Uuid, time: Timestamp, closure_size: Option<u64> },
    DeploymentFinished { id: Uuid, time: Timestamp, has_succeeded: bool },
}

/// Daemon protocol messages.
#[derive(Debug, Clone)]
pub enum DaemonClientMessage {
    ClientPushRequest(PushRequest),
    ClientStop,
    ClientPing,
    ClientDiagnosticsRequest,
}

#[derive(Debug, Clone)]
pub struct PushRequest {
    pub store_paths: Vec<String>,
    pub subscribe_to_updates: bool,
}

#[derive(Debug, Clone)]
pub enum DaemonServerMessage {
    DaemonPong,
    DaemonExit(DaemonExitInfo),
    DaemonPushEvent(PushEvent),
    DaemonError(DaemonError),
    DaemonDiagnosticsResult(DaemonDiagnostics),
}

#[derive(Debug, Clone)]
pub struct DaemonExitInfo {
    pub exit_code: i32,
    pub exit_message: String,
}

#[derive(Debug, Clone)]
pub enum PushEvent {
    PushStarted { path: String },
    PushCompleted { path: String },
    PushFailed { path: String, error: String },
    AllComplete,
}

#[derive(Debug, Clone)]
pub struct DaemonError {
    pub message: String,
}

#[derive(Debug, Clone)]
pub struct DaemonDiagnostics {
    pub is_healthy: bool,
    pub message: String,
}

/// The texts of a `DaemonServerMessage`.
pub enum ServerMessageView {
    Pong,
    Exit { code: i32, message: Seq<char> },
    Started { path: Seq<char> },
    Completed { path: Seq<char> },
    Failed { path: Seq<char>, error: Seq<char> },
    AllComplete,
    Error { message: Seq<char> },
    Diagnostics { is_healthy: bool, message: Seq<char> },
}

impl View for DaemonServerMessage {
    type V = ServerMessageView;

    open spec fn view(&self) -> ServerMessageView {
        match *self {
            DaemonServerMessage::DaemonPong => ServerMessageView::Pong,
            DaemonServerMessage::DaemonExit(info) => ServerMessageView::Exit {
                code: info.exit_code,
                message: info.exit_message@,
            },
            DaemonServerMessage::DaemonPushEvent(event) => match event {
                PushEvent::PushStarted { path } => ServerMessageView::Started { path: path@ },
                PushEvent::PushCompleted { path } => ServerMessageView::Completed { path: path@ },
                PushEvent::PushFailed { path, error } => ServerMessageView::Failed {
                    path: path@,
                    error: error@,
                },
                PushEvent::AllComplete => ServerMessageView::AllComplete,
            },
            DaemonServerMessage::DaemonError(error) => ServerMessageView::Error {
                message: error.message@,
            },
            DaemonServerMessage::DaemonDiagnosticsResult(result) => ServerMessageView::Diagnostics {
                is_healthy: result.is_healthy,
                message: result.message@,
            },
        }
    }
}

/// The methods by their names.
pub proof fn names_of_the_methods()
    ensures
        CompressionMethod::Xz.spec_name() == "xz"@,
        CompressionMethod::Zstd.spec_name() == "zst"@,
{
}

/// Pairs of strings hold their texts, each in its place.
pub proof fn pairs_hold_their_texts(pairs: Seq<(String, String)>, i: int)
    requires
        0 <= i < pairs.len(),
    ensures
        pair_texts(pairs).len() == pairs.len(),
        pair_texts(pairs)[i] == (pairs[i].0@, pairs[i].1@),
{
}

/// What is published holds the texts of its fields.
pub proof fn narinfo_holds_its_texts(narinfo: NarInfoCreate)
    ensures
        narinfo@.store_hash == narinfo.c_store_hash@,
        narinfo@.store_suffix == narinfo.c_store_suffix@,
        narinfo@.nar_hash == narinfo.c_nar_hash@,
        narinfo@.nar_size == narinfo.c_nar_size,
        narinfo@.file_hash == narinfo.c_file_hash@,
        narinfo@.file_size == narinfo.c_file_size,
        narinfo@.references.len() == narinfo.c_references@.len(),
        forall|i: int|
            0 <= i < narinfo.c_references@.len() ==> narinfo@.references[i] == (
            #[trigger] narinfo.c_references@[i])@,
        narinfo@.deriver == narinfo.c_deriver@,
        narinfo.c_sig is None <==> narinfo@.sig is None,
        narinfo.c_sig is Some ==> narinfo@.sig == Some(narinfo.c_sig->0@),
{
}

/// A message of the daemon says what it holds.
pub proof fn messages_say_what_they_hold(
    info: DaemonExitInfo,
    path: String,
    error: String,
    result: DaemonDiagnostics,
)
    ensures
        DaemonServerMessage::DaemonPong@ is Pong,
        DaemonServerMessage::DaemonExit(info)@ == (ServerMessageView::Exit {
            code: info.exit_code,
            message: info.exit_message@,
        }),
        DaemonServerMessage::DaemonPushEvent(PushEvent::PushStarted { path })@ == (
        ServerMessageView::Started { path: path@ }),
        DaemonServerMessage::DaemonPushEvent(PushEvent::PushCompleted { path })@ == (
        ServerMessageView::Completed { path: path@ }),
        DaemonServerMessage::DaemonPushEvent(PushEvent::PushFailed { path, error })@ == (
        ServerMessageView::Failed { path: path@, error: error@ }),
        DaemonServerMessage::DaemonPushEvent(PushEvent::AllComplete)@ is AllComplete,
        DaemonServerMessage::DaemonError(DaemonError { message: error })@ == (
        ServerMessageView::Error { message: error@ }),
        DaemonServerMessage::DaemonDiagnosticsResult(result)@ == (
        ServerMessageView::Diagnostics {
            is_healthy: result.is_healthy,
            message: result.message@,
        }),
{
}

/// The text of an identifier has 36 characters: hyphens after 8, 12, 16 and 20 digits, and
/// digits in lower case. The last digits stand for the lowest bits.
pub proof fn text_of_an_identifier(value: u128)
    ensures
        uuid_text(value).len() == 36,
        uuid_text(value)[8] == '-',
        uuid_text(value)[13] == '-',
        uuid_text(value)[18] == '-',
        uuid_text(value)[23] == '-',
        uuid_text(value)[35] == text::hex_digit(value as nat % 16),
        uuid_text(value)[34] == text::hex_digit(value as nat / 16 % 16),
{
    lemma2_to64();
    let v = value as nat;
    assert(pow2((4 * (31 - uuid_digits_before(35))) as nat) == 1);
    assert(v / 1 == v) by (nonlinear_arith);
    assert(pow2((4 * (31 - uuid_digits_before(34))) as nat) == 16);
}

/// A deploy spec is sound exactly if no agent is named twice in it.
pub proof fn sound_specs_name_no_agent_twice(spec: DeploySpec, i: int, j: int)
    requires
        spec.wf(),
        0 <= i < j < spec.agents@.len(),
    ensures
        spec.agents@[i].0@ != spec.agents@[j].0@,
{
    let pairs = pair_texts(spec.agents@);
    assert(pairs[i].0 != pairs[j].0);
}

/// A completed part is its number and its tag.
pub proof fn part_is_number_and_tag(part: CompletedPart)
    ensures
        part@ == (part.part_number, part.e_tag@),
{
}

}
