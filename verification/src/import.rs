//! Import of NARs from S3-compatible storage.

use vstd::prelude::*;
use vstd::string::*;

use crate::api::types;
use crate::nix::store;
use crate::nix::store::{CommandOutput, StoreCommand};
use crate::text;

verus! {

/// The error of `url` on a text that is no URL.
#[verifier::external_type_specification]
#[verifier::external_body]
pub struct ExParseError(url::ParseError);

/// The parts of a URL that say where a bucket is: the scheme, the host, and the pairs
/// of the query.
#[derive(Debug)]
pub struct UrlParts {
    pub scheme: String,
    pub host: Option<String>,
    pub query: Vec<(String, String)>,
}

/// The texts of a `UrlParts`.
pub struct UrlPartsView {
    pub scheme: Seq<char>,
    pub host: Option<Seq<char>>,
    pub query: Seq<(Seq<char>, Seq<char>)>,
}

impl View for UrlParts {
    type V = UrlPartsView;

    open spec fn view(&self) -> UrlPartsView {
        UrlPartsView {
            scheme: self.scheme@,
            host: text::opt_text(self.host),
            query: types::pair_texts(self.query@),
        }
    }
}

/// What `url::Url::parse` reads in a text, by `scheme`, `host_str` and `query_pairs`,
/// where it gives no error.
pub uninterp spec fn url_parts(s: Seq<char>) -> Option<UrlPartsView>;

/// `url::Url::parse`, and `scheme`, `host_str` and `query_pairs` of what it gives.
#[verifier::external_body]
fn parse_url(s: &str) -> (r: Result<UrlParts, url::ParseError>)
    ensures
        match r {
            Ok(parts) => url_parts(s@) == Some(parts@),
            Err(_) => url_parts(s@) is None,
        },
{
    let parsed = url::Url::parse(s)?;
    Ok(
        UrlParts {
            scheme: parsed.scheme().to_string(),
            host: parsed.host_str().map(|host| host.to_string()),
            query: parsed.query_pairs().map(|(k, v)| (k.to_string(), v.to_string())).collect(),
        },
    )
}

/// Why nothing is imported.
#[derive(Debug)]
pub enum ImportError {
    InvalidUri(url::ParseError),
    WrongScheme,
    MissingBucket,
    MissingEndpoint,
    ListFailed(String),
}

impl ImportError {
    /// The text of the message for the user.
    pub open spec fn message_text(self) -> Seq<char> {
        match self {
            ImportError::InvalidUri(_) => "invalid S3 URI"@,
            ImportError::WrongScheme => "expected s3:// URI scheme"@,
            ImportError::MissingBucket => "missing bucket name in S3 URI"@,
            ImportError::MissingEndpoint => "missing endpoint parameter"@,
            ImportError::ListFailed(stderr) => "aws s3 ls failed: "@ + stderr@,
        }
    }

    /// The message for the user.
    pub fn message(&self) -> (r: String)
        ensures
            r@ == self.message_text(),
    {
        match self {
            ImportError::InvalidUri(_) => "invalid S3 URI".to_string(),
            ImportError::WrongScheme => "expected s3:// URI scheme".to_string(),
            ImportError::MissingBucket => "missing bucket name in S3 URI".to_string(),
            ImportError::MissingEndpoint => "missing endpoint parameter".to_string(),
            ImportError::ListFailed(stderr) => {
                let mut r = "aws s3 ls failed: ".to_string();
                r.append(stderr.as_str());
                r
            },
        }
    }
}

/// Where NARs are imported from.
#[derive(Debug)]
pub struct S3Source {
    pub bucket: String,
    pub endpoint: String,
    pub region: String,
}

/// The value of the last pair with the given key.
pub open spec fn value_of(pairs: Seq<(Seq<char>, Seq<char>)>, key: Seq<char>) -> Option<Seq<char>>
    decreases pairs.len(),
{
    if pairs.len() == 0 {
        None
    } else if pairs.last().0 == key {
        Some(pairs.last().1)
    } else {
        value_of(pairs.drop_last(), key)
    }
}

/// Computes `value_of`.
fn query_value(pairs: &[(String, String)], key: &str) -> (r: Option<String>)
    ensures
        text::opt_text(r) == value_of(types::pair_texts(pairs@), key@),
{
    let ghost all = types::pair_texts(pairs@);
    let mut n: usize = pairs.len();
    assert(all.take(n as int) == all);
    while n > 0
        invariant
            n <= pairs@.len(),
            all == types::pair_texts(pairs@),
            value_of(all, key@) == value_of(all.take(n as int), key@),
        decreases n,
    {
        assert(all.take(n as int).drop_last() == all.take(n - 1));
        assert(all.take(n as int).last() == all[n - 1]);
        if text::same_text(pairs[n - 1].0.as_str(), key) {
            return Some(pairs[n - 1].1.clone());
        }
        n = n - 1;
    }
    None
}

/// Whether `r` is where the parts of a URL say that NARs are imported from. The scheme
/// is s3, the host is the bucket, and the query gives the endpoint and may give the
/// region.
pub open spec fn is_source(parts: UrlPartsView, r: Result<S3Source, ImportError>) -> bool {
    let endpoint = value_of(parts.query, "endpoint"@);
    match r {
        Ok(source) => {
            &&& parts.scheme == "s3"@
            &&& parts.host == Some(source.bucket@)
            &&& endpoint == Some(source.endpoint@)
            &&& source.region@ == match value_of(parts.query, "region"@) {
                Some(region) => region,
                None => "us-east-1"@,
            }
        },
        Err(e) => if parts.scheme != "s3"@ {
            e is WrongScheme
        } else if parts.host is None {
            e is MissingBucket
        } else {
            endpoint is None && e is MissingEndpoint
        },
    }
}

/// Where the parts of a URL say that NARs are imported from.
pub fn s3_source(parts: &UrlParts) -> (r: Result<S3Source, ImportError>)
    ensures
        is_source(parts@, r),
{
    if !text::same_text(parts.scheme.as_str(), "s3") {
        return Err(ImportError::WrongScheme);
    }
    let bucket = match &parts.host {
        Some(host) => host.clone(),
        None => return Err(ImportError::MissingBucket),
    };
    let endpoint = match query_value(parts.query.as_slice(), "endpoint") {
        Some(endpoint) => endpoint,
        None => return Err(ImportError::MissingEndpoint),
    };
    let region = match query_value(parts.query.as_slice(), "region") {
        Some(region) => region,
        None => "us-east-1".to_string(),
    };
    Ok(S3Source { bucket, endpoint, region })
}

/// Where an S3 URI says that NARs are imported from:
/// s3://bucket?endpoint=...&region=...
pub fn parse_s3_uri(s3_uri: &str) -> (r: Result<S3Source, ImportError>)
    ensures
        match url_parts(s3_uri@) {
            None => r is Err && r->Err_0 is InvalidUri,
            Some(parts) => is_source(parts, r),
        },
{
    match parse_url(s3_uri) {
        Ok(parts) => s3_source(&parts),
        Err(e) => Err(ImportError::InvalidUri(e)),
    }
}

/// The address of an object of a bucket.
pub open spec fn object_of(source: S3Source, key: Seq<char>) -> Seq<char> {
    "s3://"@ + source.bucket@ + "/"@ + key
}

fn object(source: &S3Source, key: &str) -> (r: String)
    ensures
        r@ == object_of(*source, key@),
{
    let mut r = "s3://".to_string();
    r.append(source.bucket.as_str());
    r.append("/");
    r.append(key);
    r
}

/// The command that lists a bucket.
pub fn list_command(source: &S3Source) -> (r: StoreCommand)
    ensures
        r@.0 == "aws"@,
        r@.1 == seq![
            "s3"@,
            "ls"@,
            "s3://"@ + source.bucket@ + "/"@,
            "--endpoint-url"@,
            source.endpoint@,
            "--region"@,
            source.region@,
            "--recursive"@,
        ],
{
    let address = object(source, "");
    proof {
        reveal_strlit("");
        assert(address@ == "s3://"@ + source.bucket@ + "/"@);
    }
    let r = store::command_of(
        "aws",
        &[
            "s3",
            "ls",
            address.as_str(),
            "--endpoint-url",
            source.endpoint.as_str(),
            "--region",
            source.region.as_str(),
            "--recursive",
        ],
    );
    assert(r@.1 == seq![
        "s3"@,
        "ls"@,
        "s3://"@ + source.bucket@ + "/"@,
        "--endpoint-url"@,
        source.endpoint@,
        "--region"@,
        source.region@,
        "--recursive"@,
    ]);
    r
}

/// The command that copies an object of a bucket.
pub fn copy_command(source: &S3Source, key: &str, target: &str) -> (r: StoreCommand)
    ensures
        r@.0 == "aws"@,
        r@.1 == seq![
            "s3"@,
            "cp"@,
            object_of(*source, key@),
            target@,
            "--endpoint-url"@,
            source.endpoint@,
            "--region"@,
            source.region@,
        ],
        r@.1[2] == "s3://"@ + source.bucket@ + "/"@ + key@,
{
    let address = object(source, key);
    let r = store::command_of(
        "aws",
        &[
            "s3",
            "cp",
            address.as_str(),
            target,
            "--endpoint-url",
            source.endpoint.as_str(),
            "--region",
            source.region.as_str(),
        ],
    );
    assert(r@.1 == seq![
        "s3"@,
        "cp"@,
        object_of(*source, key@),
        target@,
        "--endpoint-url"@,
        source.endpoint@,
        "--region"@,
        source.region@,
    ]);
    r
}

/// The command that restores a NAR into the store.
pub fn restore_command(store_path: &str) -> (r: StoreCommand)
    ensures
        r@.0 == "nix-store"@,
        r@.1 == seq!["--restore"@, store_path@],
{
    let r = store::command_of("nix-store", &["--restore", store_path]);
    assert(r@.1 == seq!["--restore"@, store_path@]);
    r
}

/// The narinfo files in lines of a listing: the last words of the lines, as far as
/// they end in ".narinfo".
pub open spec fn narinfo_files(lines: Seq<Seq<char>>) -> Seq<Seq<char>>
    decreases lines.len(),
{
    if lines.len() == 0 {
        Seq::empty()
    } else {
        let earlier = narinfo_files(lines.drop_last());
        let words = text::words(lines.last());
        if words.len() > 0 && ".narinfo"@.is_suffix_of(words.last()) {
            earlier.push(words.last())
        } else {
            earlier
        }
    }
}

/// The narinfo files that a listing of a bucket names.
pub fn list_narinfos(output: &CommandOutput) -> (r: Result<Vec<String>, ImportError>)
    ensures
        match r {
            Ok(files) => output.success && text::texts(files@) == narinfo_files(
                text::lines(output.stdout@),
            ),
            Err(e) => !output.success && e is ListFailed && e->ListFailed_0@ == output.stderr@,
        },
{
    if !output.success {
        return Err(ImportError::ListFailed(output.stderr.clone()));
    }
    let lines = text::split_lines(output.stdout.as_str());
    let ghost all = text::texts(lines@);
    let mut out: Vec<String> = Vec::new();
    let mut i: usize = 0;
    assert(text::texts(out@) == narinfo_files(all.take(0)));
    while i < lines.len()
        invariant
            i <= lines@.len(),
            all == text::texts(lines@),
            text::texts(out@) == narinfo_files(all.take(i as int)),
        decreases lines@.len() - i,
    {
        assert(all.take(i + 1).drop_last() == all.take(i as int));
        assert(all.take(i + 1).last() == lines@[i as int]@);
        let words = text::split_words(lines[i].as_str());
        let n: usize = words.len();
        if n > 0 {
            assert(text::texts(words@)[n - 1] == words@[n - 1]@);
            if text::has_suffix(words[n - 1].as_str(), ".narinfo") {
                let ghost earlier = text::texts(out@);
                out.push(words[n - 1].clone());
                assert(text::texts(out@) == earlier.push(words@[n - 1]@));
            }
        }
        i = i + 1;
    }
    assert(all.take(i as int) == all);
    Ok(out)
}

/// The store hash that a narinfo file is named after.
pub fn narinfo_hash(narinfo_file: &str) -> (r: String)
    ensures
        r@ == text::trim_end_matches(narinfo_file@, ".narinfo"@),
{
    text::drop_trailing(narinfo_file, ".narinfo")
}

/// A narinfo file that is named after a store hash gives the hash back.
pub proof fn hash_of_narinfo_file(hash: Seq<char>)
    requires
        !".narinfo"@.is_suffix_of(hash),
    ensures
        text::trim_end_matches(hash + ".narinfo"@, ".narinfo"@) == hash,
{
    let file = hash + ".narinfo"@;
    reveal_strlit(".narinfo");
    assert(file.subrange(file.len() - 8, file.len() as int) == ".narinfo"@);
    assert(file.take(file.len() - 8) == hash);
    assert(text::trim_end_matches(hash, ".narinfo"@) == hash);
}

/// The value of a field: what follows its name in the first line that starts with it,
/// without the white space at either end.
pub open spec fn field_in(lines: Seq<Seq<char>>, name: Seq<char>) -> Option<Seq<char>>
    decreases lines.len(),
{
    if lines.len() == 0 {
        None
    } else {
        match text::strip_prefix(lines[0], name) {
            Some(value) => Some(text::trim(value)),
            None => field_in(lines.drop_first(), name),
        }
    }
}

/// The value of a field of a narinfo.
pub fn narinfo_field(narinfo: &str, name: &str) -> (r: Option<String>)
    ensures
        text::opt_text(r) == field_in(text::lines(narinfo@), name@),
{
    let lines = text::split_lines(narinfo);
    let ghost all = text::texts(lines@);
    let mut i: usize = 0;
    assert(all.skip(0) == all);
    while i < lines.len()
        invariant
            i <= lines@.len(),
            all == text::texts(lines@),
            all == text::lines(narinfo@),
            field_in(all, name@) == field_in(all.skip(i as int), name@),
        decreases lines@.len() - i,
    {
        assert(all.skip(i as int)[0] == lines@[i as int]@);
        assert(all.skip(i as int).drop_first() == all.skip(i + 1));
        if let Some(value) = text::after_prefix(lines[i].as_str(), name) {
            return Some(text::trimmed(value.as_str()));
        }
        i = i + 1;
    }
    None
}

/// What is imported by a narinfo: the store path, and the address of its NAR.
#[derive(Debug)]
pub struct ImportItem {
    pub store_path: String,
    pub nar_url: String,
}

/// What a narinfo says is imported: nothing where it names no store path or no NAR.
pub fn narinfo_item(narinfo: &str) -> (r: Option<ImportItem>)
    ensures
        ({
            let store_path = field_in(text::lines(narinfo@), "StorePath: "@);
            let nar_url = field_in(text::lines(narinfo@), "URL: "@);
            match r {
                Some(item) => store_path == Some(item.store_path@) && nar_url == Some(
                    item.nar_url@,
                ),
                None => store_path is None || nar_url is None,
            }
        }),
{
    match narinfo_field(narinfo, "StorePath: ") {
        Some(store_path) => match narinfo_field(narinfo, "URL: ") {
            Some(nar_url) => Some(ImportItem { store_path, nar_url }),
            None => None,
        },
        None => None,
    }
}

/// How far the import of a narinfo file has come. The states name what is to be done
/// next.
#[derive(Debug)]
pub enum ImportState {
    /// It is to be found out whether the cache has the narinfo.
    Checking,
    /// The narinfo is to be downloaded.
    FetchingNarinfo,
    /// The NAR is to be downloaded.
    FetchingNar(ImportItem),
    /// The NAR is to be restored into the store.
    Restoring(ImportItem),
    /// The store path is to be pushed.
    Pushing(ImportItem),
    /// The file is done with.
    Over,
}

/// What became of what was to be done.
#[derive(Debug)]
pub enum ImportEvent {
    /// It succeeded, or what was to be found out is so.
    Yes,
    /// It failed, or what was to be found out is not so.
    No,
    /// A narinfo was downloaded, and this is imported by it.
    Narinfo(Option<ImportItem>),
}

/// The next state of the import of a narinfo file.
pub open spec fn next_state(state: ImportState, event: ImportEvent) -> ImportState {
    match (state, event) {
        (ImportState::Checking, ImportEvent::No) => ImportState::FetchingNarinfo,
        (ImportState::FetchingNarinfo, ImportEvent::Narinfo(Some(item))) =>
            ImportState::FetchingNar(item),
        (ImportState::FetchingNar(item), ImportEvent::Yes) => ImportState::Restoring(item),
        (ImportState::Restoring(item), ImportEvent::Yes) => ImportState::Pushing(item),
        _ => ImportState::Over,
    }
}

/// Computes `next_state`.
pub fn import_step(state: ImportState, event: ImportEvent) -> (r: ImportState)
    ensures
        r == next_state(state, event),
{
    match (state, event) {
        (ImportState::Checking, ImportEvent::No) => ImportState::FetchingNarinfo,
        (ImportState::FetchingNarinfo, ImportEvent::Narinfo(Some(item))) =>
            ImportState::FetchingNar(item),
        (ImportState::FetchingNar(item), ImportEvent::Yes) => ImportState::Restoring(item),
        (ImportState::Restoring(item), ImportEvent::Yes) => ImportState::Pushing(item),
        _ => ImportState::Over,
    }
}

/// The state of the import of a narinfo file after the given events.
pub open spec fn after(events: Seq<ImportEvent>) -> ImportState
    decreases events.len(),
{
    if events.len() == 0 {
        ImportState::Checking
    } else {
        next_state(after(events.drop_last()), events.last())
    }
}

/// A store path is pushed only where the cache did not have the narinfo, the narinfo
/// that was downloaded names it and its NAR, and the NAR was downloaded and restored.
pub proof fn pushed_path_was_restored(events: Seq<ImportEvent>, item: ImportItem)
    ensures
        after(events) == ImportState::Pushing(item) <==> events == seq![
            ImportEvent::No,
            ImportEvent::Narinfo(Some(item)),
            ImportEvent::Yes,
            ImportEvent::Yes,
        ],
{
    reveal_with_fuel(after, 6);
    let e1 = events.drop_last();
    let e2 = e1.drop_last();
    let e3 = e2.drop_last();
    let wanted = seq![
        ImportEvent::No,
        ImportEvent::Narinfo(Some(item)),
        ImportEvent::Yes,
        ImportEvent::Yes,
    ];
    if after(events) == ImportState::Pushing(item) {
        assert(after(e1) == ImportState::Restoring(item));
        assert(after(e2) == ImportState::FetchingNar(item));
        assert(after(e3) == ImportState::FetchingNarinfo);
        assert(after(e3.drop_last()) is Checking);
        lemma_checking_is_first(e3.drop_last());
        assert(events =~= wanted);
    }
    if events == wanted {
        assert(e3.drop_last().len() == 0);
        assert(after(events) == ImportState::Pushing(item));
    }
}

proof fn lemma_checking_is_first(events: Seq<ImportEvent>)
    requires
        after(events) is Checking,
    ensures
        events.len() == 0,
{
}

/// The import of a narinfo file is over after five events, whatever they are.
pub proof fn import_ends(events: Seq<ImportEvent>)
    requires
        events.len() >= 5,
    ensures
        after(events) is Over,
    decreases events.len(),
{
    reveal_with_fuel(after, 6);
    if events.len() > 5 {
        import_ends(events.drop_last());
    }
}

/// A field is found wherever it stands: its value is what follows its name in the first
/// line that starts with it, and there is none exactly if no line starts with it.
pub proof fn field_is_in_the_first_line_with_its_name(
    lines: Seq<Seq<char>>,
    name: Seq<char>,
    value: Seq<char>,
    i: int,
)
    ensures
        0 <= i < lines.len() && lines[i] == name + value && (forall|j: int|
            0 <= j < i ==> !name.is_prefix_of(#[trigger] lines[j])) ==> field_in(lines, name)
            == Some(text::trim(value)),
        field_in(lines, name) is None <==> forall|j: int|
            0 <= j < lines.len() ==> !name.is_prefix_of(#[trigger] lines[j]),
    decreases lines.len(),
{
    if lines.len() > 0 {
        let rest = lines.drop_first();
        field_is_in_the_first_line_with_its_name(rest, name, value, i - 1);
        assert(forall|j: int| 0 <= j < rest.len() ==> rest[j] == lines[j + 1]);
        if 0 <= i < lines.len() && lines[i] == name + value && (forall|j: int|
            0 <= j < i ==> !name.is_prefix_of(#[trigger] lines[j])) {
            if i == 0 {
                assert(lines[0].subrange(0, name.len() as int) == name);
                assert(lines[0].skip(name.len() as int) == value);
            } else {
                assert(!name.is_prefix_of(lines[0]));
                assert forall|j: int| 0 <= j < i - 1 implies !name.is_prefix_of(
                    #[trigger] rest[j],
                ) by {
                    assert(!name.is_prefix_of(lines[j + 1]));
                }
            }
        }
        if field_in(lines, name) is None {
            assert forall|j: int| 0 <= j < lines.len() implies !name.is_prefix_of(
                #[trigger] lines[j],
            ) by {
                if j > 0 {
                    assert(!name.is_prefix_of(rest[j - 1]));
                }
            }
        }
        if forall|j: int| 0 <= j < lines.len() ==> !name.is_prefix_of(#[trigger] lines[j]) {
            assert(!name.is_prefix_of(lines[0]));
            assert forall|j: int| 0 <= j < rest.len() implies !name.is_prefix_of(
                #[trigger] rest[j],
            ) by {
                assert(!name.is_prefix_of(lines[j + 1]));
            }
        }
    }
}

/// A key of the query has the value of its last pair, and none exactly if no pair has it.
pub proof fn last_pair_of_a_key_counts(
    before: Seq<(Seq<char>, Seq<char>)>,
    key: Seq<char>,
    value: Seq<char>,
    behind: Seq<(Seq<char>, Seq<char>)>,
)
    requires
        forall|i: int| 0 <= i < behind.len() ==> (#[trigger] behind[i]).0 != key,
    ensures
        value_of(behind, key) is None,
        value_of(before + seq![(key, value)] + behind, key) == Some(value),
    decreases behind.len(),
{
    let all = before + seq![(key, value)] + behind;
    if behind.len() == 0 {
        assert(all.last() == (key, value));
    } else {
        let init = behind.drop_last();
        assert(behind[behind.len() - 1].0 != key);
        assert forall|i: int| 0 <= i < init.len() implies (#[trigger] init[i]).0 != key by {
            assert(init[i] == behind[i]);
        }
        last_pair_of_a_key_counts(before, key, value, init);
        assert(all.drop_last() == before + seq![(key, value)] + init);
        assert(all.last() == behind.last());
    }
}

/// NARs are imported from the bucket that is the host of an s3 address, at the endpoint and
/// in the region that the query gives. The scheme, the bucket and the endpoint are needed,
/// and missed in this order; without a region it is us-east-1.
pub proof fn source_of_an_address(parts: UrlPartsView, r: Result<S3Source, ImportError>)
    requires
        is_source(parts, r),
    ensures
        r is Ok <==> parts.scheme == "s3"@ && parts.host is Some && value_of(
            parts.query,
            "endpoint"@,
        ) is Some,
        r matches Ok(source) ==> {
            &&& source.bucket@ == parts.host->0
            &&& source.endpoint@ == value_of(parts.query, "endpoint"@)->0
            &&& value_of(parts.query, "region"@) is None ==> source.region@ == "us-east-1"@
            &&& value_of(parts.query, "region"@) is Some ==> source.region@ == value_of(
                parts.query,
                "region"@,
            )->0
        },
        parts.scheme != "s3"@ ==> r is Err && r->Err_0 is WrongScheme,
        parts.scheme == "s3"@ && parts.host is None ==> r is Err && r->Err_0 is MissingBucket,
        parts.scheme == "s3"@ && parts.host is Some && value_of(parts.query, "endpoint"@) is None
            ==> r is Err && r->Err_0 is MissingEndpoint,
{
}

/// The address of an object is that of the bucket with the whole key behind it.
pub proof fn address_of_an_object(source: S3Source, key: Seq<char>)
    ensures
        object_of(source, key) == "s3://"@ + source.bucket@ + "/"@ + key,
{
}

/// A listing is read line by line, all of it in order: a line names a narinfo file exactly if
/// its last word ends in ".narinfo", and that word is the file.
pub proof fn listing_is_read_line_by_line(
    first: Seq<Seq<char>>,
    second: Seq<Seq<char>>,
    line: Seq<char>,
)
    ensures
        narinfo_files(first + second) == narinfo_files(first) + narinfo_files(second),
        narinfo_files(Seq::empty()) == Seq::<Seq<char>>::empty(),
        narinfo_files(seq![line]) == if text::words(line).len() > 0 && ".narinfo"@.is_suffix_of(
            text::words(line).last(),
        ) {
            seq![text::words(line).last()]
        } else {
            Seq::<Seq<char>>::empty()
        },
    decreases second.len(),
{
    let none = Seq::<Seq<char>>::empty();
    assert(narinfo_files(none) == none);
    assert(seq![line].drop_last() == none && seq![line].last() == line);
    assert(none.push(text::words(line).last()) == seq![text::words(line).last()]);
    if second.len() == 0 {
        assert(first + second == first);
        assert(narinfo_files(first) + narinfo_files(second) == narinfo_files(first));
    } else {
        listing_is_read_line_by_line(first, second.drop_last(), line);
        assert((first + second).drop_last() == first + second.drop_last());
        assert((first + second).last() == second.last());
        assert(narinfo_files(first + second) == narinfo_files(first) + narinfo_files(second));
    }
}

/// A narinfo file is imported step by step: it is downloaded where the cache has it not, its
/// NAR where it names one, then restored, and then pushed. Where a step comes to nothing, or
/// the cache has it, it is done with.
pub proof fn import_goes_on(item: ImportItem)
    ensures
        after(seq![]) is Checking,
        after(seq![ImportEvent::No]) is FetchingNarinfo,
        after(seq![ImportEvent::Yes]) is Over,
        after(seq![ImportEvent::No, ImportEvent::Narinfo(Some(item))])
            == ImportState::FetchingNar(item),
        after(seq![ImportEvent::No, ImportEvent::Narinfo(None)]) is Over,
        after(seq![ImportEvent::No, ImportEvent::No]) is Over,
        after(seq![ImportEvent::No, ImportEvent::Narinfo(Some(item)), ImportEvent::Yes])
            == ImportState::Restoring(item),
        after(seq![ImportEvent::No, ImportEvent::Narinfo(Some(item)), ImportEvent::No]) is Over,
        after(
            seq![
                ImportEvent::No,
                ImportEvent::Narinfo(Some(item)),
                ImportEvent::Yes,
                ImportEvent::Yes,
            ],
        ) == ImportState::Pushing(item),
        after(
            seq![
                ImportEvent::No,
                ImportEvent::Narinfo(Some(item)),
                ImportEvent::Yes,
                ImportEvent::No,
            ],
        ) is Over,
{
    let no = ImportEvent::No;
    let yes = ImportEvent::Yes;
    let found = ImportEvent::Narinfo(Some(item));
    let s1 = seq![no];
    let s2 = seq![no, found];
    let s3 = seq![no, found, yes];
    assert(s1.drop_last() == Seq::<ImportEvent>::empty());
    assert(seq![yes].drop_last() == Seq::<ImportEvent>::empty());
    assert(s2.drop_last() == s1);
    assert(seq![no, ImportEvent::Narinfo(None)].drop_last() == s1);
    assert(seq![no, no].drop_last() == s1);
    assert(s3.drop_last() == s2);
    assert(seq![no, found, no].drop_last() == s2);
    assert(seq![no, found, yes, yes].drop_last() == s3);
    assert(seq![no, found, yes, no].drop_last() == s3);
    assert(after(Seq::<ImportEvent>::empty()) is Checking);
    assert(after(s1) is FetchingNarinfo);
    assert(after(s2) == ImportState::FetchingNar(item));
    assert(after(s3) == ImportState::Restoring(item));
}

/// The messages say what is amiss, with all that the command wrote.
pub proof fn import_messages(text: String, error: url::ParseError)
    ensures
        ImportError::InvalidUri(error).message_text() == "invalid S3 URI"@,
        ImportError::WrongScheme.message_text() == "expected s3:// URI scheme"@,
        ImportError::MissingBucket.message_text() == "missing bucket name in S3 URI"@,
        ImportError::MissingEndpoint.message_text() == "missing endpoint parameter"@,
        ImportError::ListFailed(text).message_text() == "aws s3 ls failed: "@ + text@,
{
}

/// The parts of an address are the texts that it holds.
pub proof fn address_has_its_parts(parts: UrlParts)
    ensures
        parts@.scheme == parts.scheme@,
        parts.host is None <==> parts@.host is None,
        parts.host is Some ==> parts@.host == Some(parts.host->0@),
        parts@.query.len() == parts.query@.len(),
        forall|i: int|
            0 <= i < parts.query@.len() ==> parts@.query[i] == (
                (#[trigger] parts.query@[i]).0@,
                parts.query@[i].1@,
            ),
{
}

}
