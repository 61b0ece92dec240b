//! What is asked of the Nix store, and what its answers mean.

use vstd::prelude::*;
use vstd::string::*;

use crate::text;

verus! {

/// A program with its arguments.
#[derive(Debug, Clone)]
pub struct StoreCommand {
    pub program: String,
    pub args: Vec<String>,
}

impl View for StoreCommand {
    type V = (Seq<char>, Seq<Seq<char>>);

    open spec fn view(&self) -> (Seq<char>, Seq<Seq<char>>) {
        (self.program@, text::texts(self.args@))
    }
}

/// What a program that has ended left: whether it succeeded, and what it wrote.
#[derive(Debug, Clone)]
pub struct CommandOutput {
    pub success: bool,
    pub stdout: String,
    pub stderr: String,
}

/// A command of the given words.
pub fn command_of(program: &str, words: &[&str]) -> (r: StoreCommand)
    ensures
        r@.0 == program@,
        r@.1 == words@.map_values(|w: &str| w@),
{
    let mut args: Vec<String> = Vec::new();
    for i in 0..words.len()
        invariant
            text::texts(args@) == words@.take(i as int).map_values(|w: &str| w@),
    {
        let ghost before = text::texts(args@);
        args.push(words[i].to_string());
        assert(text::texts(args@) == before.push(words@[i as int]@));
        assert(words@.take(i + 1).map_values(|w: &str| w@) == before.push(words@[i as int]@));
    }
    assert(words@.take(words@.len() as int) == words@);
    StoreCommand { program: program.to_string(), args }
}

/// The question for the closure of store paths. For no paths there is none: their
/// closure is empty.
pub fn closure_command(store_paths: &[String]) -> (r: Option<StoreCommand>)
    ensures
        store_paths@.len() == 0 <==> r is None,
        r matches Some(command) ==> {
            &&& command@.0 == "nix-store"@
            &&& command@.1 == seq!["--query"@, "--requisites"@] + text::texts(store_paths@)
        },
{
    if store_paths.len() == 0 {
        return None;
    }
    let mut args: Vec<String> = Vec::new();
    args.push("--query".to_string());
    args.push("--requisites".to_string());
    let ghost head = text::texts(args@);
    assert(head == seq!["--query"@, "--requisites"@]);
    for i in 0..store_paths.len()
        invariant
            text::texts(args@) == head + text::texts(store_paths@).take(i as int),
    {
        let ghost before = text::texts(args@);
        args.push(store_paths[i].clone());
        assert(text::texts(args@) == before.push(text::texts(store_paths@)[i as int]));
        assert(text::texts(store_paths@).take(i + 1) == text::texts(store_paths@).take(
            i as int,
        ).push(text::texts(store_paths@)[i as int]));
    }
    assert(text::texts(store_paths@).take(store_paths@.len() as int) == text::texts(store_paths@));
    Some(StoreCommand { program: "nix-store".to_string(), args })
}

/// The question for the deriver of a store path.
pub fn deriver_command(store_path: &str) -> (r: StoreCommand)
    ensures
        r@.0 == "nix-store"@,
        r@.1 == seq!["--query"@, "--deriver"@, store_path@],
{
    let r = command_of("nix-store", &["--query", "--deriver", store_path]);
    assert(r@.1 == seq!["--query"@, "--deriver"@, store_path@]);
    r
}

/// The question for the references of a store path.
pub fn references_command(store_path: &str) -> (r: StoreCommand)
    ensures
        r@.0 == "nix-store"@,
        r@.1 == seq!["--query"@, "--references"@, store_path@],
{
    let r = command_of("nix-store", &["--query", "--references", store_path]);
    assert(r@.1 == seq!["--query"@, "--references"@, store_path@]);
    r
}

/// The command that writes the NAR of a store path.
pub fn dump_nar(store_path: &str) -> (r: StoreCommand)
    ensures
        r@.0 == "nix-store"@,
        r@.1 == seq!["--dump"@, store_path@],
{
    let r = command_of("nix-store", &["--dump", store_path]);
    assert(r@.1 == seq!["--dump"@, store_path@]);
    r
}

/// The question for the path info of a store path.
pub fn path_info_command(store_path: &str) -> (r: StoreCommand)
    ensures
        r@.0 == "nix"@,
        r@.1 == seq!["path-info"@, "--json"@, store_path@],
{
    let r = command_of("nix", &["path-info", "--json", store_path]);
    assert(r@.1 == seq!["path-info"@, "--json"@, store_path@]);
    r
}

/// The command that downloads or builds a store path.
pub fn realise_command(store_path: &str) -> (r: StoreCommand)
    ensures
        r@.0 == "nix-store"@,
        r@.1 == seq!["--realise"@, store_path@],
{
    let r = command_of("nix-store", &["--realise", store_path]);
    assert(r@.1 == seq!["--realise"@, store_path@]);
    r
}

/// The question whether a store path is valid. It is, if the command succeeds.
pub fn is_valid_path(store_path: &str) -> (r: StoreCommand)
    ensures
        r@.0 == "nix-store"@,
        r@.1 == seq!["--check-validity"@, store_path@],
{
    let r = command_of("nix-store", &["--check-validity", store_path]);
    assert(r@.1 == seq!["--check-validity"@, store_path@]);
    r
}

/// The command that writes the name of each new entry of the store.
pub fn watch_store() -> (r: StoreCommand)
    ensures
        r@.0 == "inotifywait"@,
        r@.1 == seq!["-m"@, "-e"@, "create"@, "--format"@, "%f"@, "/nix/store"@],
{
    let r = command_of(
        "inotifywait",
        &["-m", "-e", "create", "--format", "%f", "/nix/store"],
    );
    assert(r@.1 == seq!["-m"@, "-e"@, "create"@, "--format"@, "%f"@, "/nix/store"@]);
    r
}

/// What went wrong with a question to the store.
#[derive(Debug)]
pub enum StoreError {
    ClosureFailed(String),
    ReferencesFailed(String),
    PathInfoFailed(String),
    RealiseFailed(String),
    EmptyPathInfo,
    NoPathInfo,
}

impl StoreError {
    /// The text of the message for the user.
    pub open spec fn message_text(self) -> Seq<char> {
        match self {
            StoreError::ClosureFailed(stderr) =>
                "nix-store --query --requisites failed: "@ + stderr@,
            StoreError::ReferencesFailed(stderr) =>
                "nix-store --query --references failed: "@ + stderr@,
            StoreError::PathInfoFailed(stderr) => "nix path-info failed: "@ + stderr@,
            StoreError::RealiseFailed(stderr) => "nix-store --realise failed: "@ + stderr@,
            StoreError::EmptyPathInfo => "empty path-info response"@,
            StoreError::NoPathInfo => "no path info returned"@,
        }
    }

    /// The message for the user.
    pub fn message(&self) -> (r: String)
        ensures
            r@ == self.message_text(),
    {
        match self {
            StoreError::ClosureFailed(stderr) => {
                let mut r = "nix-store --query --requisites failed: ".to_string();
                r.append(stderr.as_str());
                r
            },
            StoreError::ReferencesFailed(stderr) => {
                let mut r = "nix-store --query --references failed: ".to_string();
                r.append(stderr.as_str());
                r
            },
            StoreError::PathInfoFailed(stderr) => {
                let mut r = "nix path-info failed: ".to_string();
                r.append(stderr.as_str());
                r
            },
            StoreError::RealiseFailed(stderr) => {
                let mut r = "nix-store --realise failed: ".to_string();
                r.append(stderr.as_str());
                r
            },
            StoreError::EmptyPathInfo => "empty path-info response".to_string(),
            StoreError::NoPathInfo => "no path info returned".to_string(),
        }
    }
}

/// Whether a line is not empty.
pub open spec fn is_filled() -> spec_fn(Seq<char>) -> bool {
    |line: Seq<char>| line.len() > 0
}

/// The lines of a text that are not empty.
pub fn filled_lines(s: &str) -> (r: Vec<String>)
    ensures
        text::texts(r@) == text::lines(s@).filter(is_filled()),
{
    let lines = text::split_lines(s);
    let ghost all = text::texts(lines@);
    let mut out: Vec<String> = Vec::new();
    let mut i: usize = 0;
    proof {
        reveal(Seq::filter);
        assert(text::texts(out@) == all.take(0).filter(is_filled()));
    }
    while i < lines.len()
        invariant
            i <= lines@.len(),
            all == text::texts(lines@),
            text::texts(out@) == all.take(i as int).filter(is_filled()),
        decreases lines@.len() - i,
    {
        proof {
            reveal(Seq::filter);
            assert(all.take(i + 1).drop_last() == all.take(i as int));
            assert(all.take(i + 1).last() == lines@[i as int]@);
        }
        if !lines[i].as_str().is_empty() {
            let ghost shorter = text::texts(out@);
            out.push(lines[i].clone());
            assert(text::texts(out@) == shorter.push(lines@[i as int]@));
        }
        i = i + 1;
    }
    assert(all.take(i as int) == all);
    out
}

/// The transitive closure of store paths, from the answer of nix-store.
pub fn query_closure(output: &CommandOutput) -> (r: Result<Vec<String>, StoreError>)
    ensures
        match r {
            Ok(paths) => output.success && text::texts(paths@) == text::lines(
                output.stdout@,
            ).filter(is_filled()),
            Err(e) => !output.success && e is ClosureFailed && e->ClosureFailed_0@
                == output.stderr@,
        },
{
    if !output.success {
        return Err(StoreError::ClosureFailed(output.stderr.clone()));
    }
    Ok(filled_lines(output.stdout.as_str()))
}

/// The references (direct dependencies) of a store path, from the answer of nix-store.
pub fn query_references(output: &CommandOutput) -> (r: Result<Vec<String>, StoreError>)
    ensures
        match r {
            Ok(paths) => output.success && text::texts(paths@) == text::lines(
                output.stdout@,
            ).filter(is_filled()),
            Err(e) => !output.success && e is ReferencesFailed && e->ReferencesFailed_0@
                == output.stderr@,
        },
{
    if !output.success {
        return Err(StoreError::ReferencesFailed(output.stderr.clone()));
    }
    Ok(filled_lines(output.stdout.as_str()))
}

/// The deriver of a store path, from the answer of nix-store.
pub fn query_deriver(output: &CommandOutput) -> (r: Option<String>)
    ensures
        ({
            let deriver = text::trim(output.stdout@);
            text::opt_text(r) == if !output.success || deriver == "unknown-deriver"@
                || deriver.len() == 0 {
                None
            } else {
                Some(deriver)
            }
        }),
{
    if !output.success {
        return None;
    }
    let deriver = text::trimmed(output.stdout.as_str());
    if text::same_text(deriver.as_str(), "unknown-deriver") || deriver.as_str().is_empty() {
        None
    } else {
        Some(deriver)
    }
}

/// Whether a store path was realised, from the answer of nix-store.
pub fn realise(output: &CommandOutput) -> (r: Result<(), StoreError>)
    ensures
        match r {
            Ok(()) => output.success,
            Err(e) => !output.success && e is RealiseFailed && e->RealiseFailed_0@
                == output.stderr@,
        },
{
    if !output.success {
        return Err(StoreError::RealiseFailed(output.stderr.clone()));
    }
    Ok(())
}

/// What the store knows of a path.
#[derive(Debug, Clone)]
pub struct PathInfo {
    pub path: String,
    pub nar_hash: String,
    pub nar_size: u64,
    pub references: Vec<String>,
    pub deriver: Option<String>,
}

/// What nix path-info answered: an object of entries by store path, of which the
/// first is taken, or an array of entries. An entry of an object may leave out its
/// path.
#[derive(Debug, Clone)]
pub enum PathInfoAnswer {
    Failed { stderr: String },
    Object { first: Option<PathInfoEntry> },
    Array { entries: Vec<PathInfo> },
}

/// The first entry of an object, with the store path that it is stored under.
/// `info.path` counts only where `names_path` is set.
#[derive(Debug, Clone)]
pub struct PathInfoEntry {
    pub store_path: String,
    pub names_path: bool,
    pub info: PathInfo,
}

/// The path info of a store path, from the answer of nix path-info.
pub fn query_path_info(answer: PathInfoAnswer) -> (r: Result<PathInfo, StoreError>)
    ensures
        match answer {
            PathInfoAnswer::Failed { stderr } => r is Err && r->Err_0 is PathInfoFailed
                && r->Err_0->PathInfoFailed_0@ == stderr@,
            PathInfoAnswer::Object { first } => match first {
                None => r is Err && r->Err_0 is EmptyPathInfo,
                Some(entry) => {
                    &&& r is Ok
                    &&& r->Ok_0 == (PathInfo {
                        path: if entry.names_path {
                            entry.info.path
                        } else {
                            entry.store_path
                        },
                        ..entry.info
                    })
                },
            },
            PathInfoAnswer::Array { entries } => if entries@.len() == 0 {
                r is Err && r->Err_0 is NoPathInfo
            } else {
                r is Ok && r->Ok_0 == entries@[0]
            },
        },
{
    match answer {
        PathInfoAnswer::Failed { stderr } => Err(StoreError::PathInfoFailed(stderr)),
        PathInfoAnswer::Object { first } => match first {
            None => Err(StoreError::EmptyPathInfo),
            Some(entry) => {
                let mut info = entry.info;
                if !entry.names_path {
                    info.path = entry.store_path;
                }
                Ok(info)
            },
        },
        PathInfoAnswer::Array { entries } => {
            let mut entries = entries;
            if entries.len() == 0 {
                Err(StoreError::NoPathInfo)
            } else {
                Ok(entries.swap_remove(0))
            }
        },
    }
}

/// The store path of an entry of the store directory.
pub fn watched_path(name: &str) -> (r: String)
    ensures
        r@ == "/nix/store/"@ + name@,
{
    let mut r = "/nix/store/".to_string();
    r.append(name);
    r
}

/// Whether a new path is to be pushed: it is a store path, and neither a
/// derivation nor a lock.
pub fn is_pushable(path: &str) -> (r: bool)
    ensures
        r == ("/nix/store/"@.is_prefix_of(path@) && !text::contains(path@, ".drv"@)
            && !text::contains(path@, ".lock"@)),
{
    text::has_prefix(path, "/nix/store/") && !text::has_text(path, ".drv") && !text::has_text(
        path,
        ".lock",
    )
}

/// The store paths of the entries that a listing of the store names.
pub open spec fn listed(listing: Seq<char>) -> Seq<Seq<char>> {
    text::lines(listing).map_values(|name: Seq<char>| "/nix/store/"@ + name)
}

/// The store paths that a listing of the store names, one on each line.
pub fn snapshot_store(listing: &str) -> (r: Vec<String>)
    ensures
        text::texts(r@) == listed(listing@),
{
    let names = text::split_lines(listing);
    let mut out: Vec<String> = Vec::new();
    for i in 0..names.len()
        invariant
            text::texts(names@) == text::lines(listing@),
            out@.len() == i,
            forall|j: int| 0 <= j < i ==> (#[trigger] out@[j])@ == "/nix/store/"@ + names@[j]@,
    {
        out.push(watched_path(names[i].as_str()));
    }
    assert forall|j: int| 0 <= j < out@.len() implies text::texts(out@)[j] == listed(
        listing@,
    )[j] by {
        assert(text::texts(names@)[j] == names@[j]@);
    }
    assert(text::texts(out@) == listed(listing@));
    out
}

/// The values of `after` that are not in `before`, each once, by their first
/// occurrences.
pub open spec fn added(before: Seq<Seq<char>>, after: Seq<Seq<char>>) -> Seq<Seq<char>>
    decreases after.len(),
{
    if after.len() == 0 {
        Seq::empty()
    } else {
        let earlier = added(before, after.drop_last());
        if before.contains(after.last()) || earlier.contains(after.last()) {
            earlier
        } else {
            earlier.push(after.last())
        }
    }
}

/// The paths of a snapshot that are not in an earlier one.
pub fn new_paths(before: &[String], after: &[String]) -> (r: Vec<String>)
    ensures
        text::texts(r@) == added(text::texts(before@), text::texts(after@)),
{
    let ghost all = text::texts(after@);
    let mut out: Vec<String> = Vec::new();
    let mut i: usize = 0;
    assert(text::texts(out@) == added(text::texts(before@), all.take(0)));
    while i < after.len()
        invariant
            i <= after@.len(),
            all == text::texts(after@),
            text::texts(out@) == added(text::texts(before@), all.take(i as int)),
        decreases after@.len() - i,
    {
        assert(all.take(i + 1).drop_last() == all.take(i as int));
        assert(all.take(i + 1).last() == after@[i as int]@);
        if !text::holds(before, after[i].as_str()) && !text::holds(
            out.as_slice(),
            after[i].as_str(),
        ) {
            let ghost shorter = text::texts(out@);
            out.push(after[i].clone());
            assert(text::texts(out@) == shorter.push(after@[i as int]@));
        }
        i = i + 1;
    }
    assert(all.take(i as int) == all);
    out
}

/// The added paths are the paths of the later snapshot that are not in the earlier
/// one, and none is there twice.
pub proof fn added_is_difference(before: Seq<Seq<char>>, after: Seq<Seq<char>>)
    ensures
        forall|path: Seq<char>|
            #[trigger] added(before, after).contains(path) <==> after.contains(path)
                && !before.contains(path),
        added(before, after).no_duplicates(),
    decreases after.len(),
{
    if after.len() > 0 {
        let init = after.drop_last();
        let x = after.last();
        added_is_difference(before, init);
        let earlier = added(before, init);
        let all = added(before, after);
        assert forall|path: Seq<char>| #[trigger] all.contains(path) <==> after.contains(path)
            && !before.contains(path) by {
            assert(after == init.push(x));
            if after.contains(path) {
                let i = choose|i: int| 0 <= i < after.len() && after[i] == path;
                if i < init.len() {
                    assert(init[i] == path);
                    assert(init.contains(path));
                }
            }
            if init.contains(path) {
                let i = choose|i: int| 0 <= i < init.len() && init[i] == path;
                assert(after[i] == path);
            }
            assert(after[init.len() as int] == x);
            if !(before.contains(x) || earlier.contains(x)) {
                assert(all == earlier.push(x));
                assert(all[earlier.len() as int] == x);
                if earlier.contains(path) {
                    let i = choose|i: int| 0 <= i < earlier.len() && earlier[i] == path;
                    assert(all[i] == path);
                }
                if all.contains(path) {
                    let i = choose|i: int| 0 <= i < all.len() && all[i] == path;
                    if i < earlier.len() {
                        assert(earlier[i] == path);
                    }
                }
            }
        }
    }
}

/// The lines that count are those that are not empty.
pub proof fn filled_lines_are_not_empty(line: Seq<char>)
    ensures
        is_filled()(line) <==> line != Seq::<char>::empty(),
{
    if line.len() == 0 {
        assert(line == Seq::<char>::empty());
    }
}

/// Each line of a listing is a store path, with the whole name below the store directory.
pub proof fn listed_paths_are_the_lines(listing: Seq<char>)
    ensures
        listed(listing).len() == text::lines(listing).len(),
        forall|i: int|
            0 <= i < listed(listing).len() ==> #[trigger] listed(listing)[i] == "/nix/store/"@
                + text::lines(listing)[i],
{
}

/// The added paths come in the order of the later snapshot: those of its first part come
/// first.
pub proof fn added_paths_stay_in_order(
    before: Seq<Seq<char>>,
    first: Seq<Seq<char>>,
    second: Seq<Seq<char>>,
)
    ensures
        added(before, first).is_prefix_of(added(before, first + second)),
    decreases second.len(),
{
    if second.len() == 0 {
        assert(first + second == first);
    } else {
        let init = second.drop_last();
        added_paths_stay_in_order(before, first, init);
        assert((first + second).drop_last() == first + init);
        let start = added(before, first);
        let earlier = added(before, first + init);
        let all = added(before, first + second);
        assert(earlier.subrange(0, start.len() as int) == start);
        assert(all.subrange(0, start.len() as int) == start) by {
            assert forall|i: int| 0 <= i < start.len() implies all[i] == start[i] by {
                assert(earlier.subrange(0, start.len() as int)[i] == earlier[i]);
                assert(all[i] == earlier[i]);
            }
        }
    }
}

/// The messages say which question failed, with all that the command wrote.
pub proof fn store_messages(text: String)
    ensures
        StoreError::ClosureFailed(text).message_text() == "nix-store --query --requisites failed: "@
            + text@,
        StoreError::ReferencesFailed(text).message_text()
            == "nix-store --query --references failed: "@ + text@,
        StoreError::PathInfoFailed(text).message_text() == "nix path-info failed: "@ + text@,
        StoreError::RealiseFailed(text).message_text() == "nix-store --realise failed: "@ + text@,
        StoreError::EmptyPathInfo.message_text() == "empty path-info response"@,
        StoreError::NoPathInfo.message_text() == "no path info returned"@,
{
}

/// A command is its program and all its arguments, in their order.
pub proof fn command_has_its_arguments(command: StoreCommand)
    ensures
        command@.0 == command.program@,
        command@.1.len() == command.args@.len(),
        forall|i: int|
            0 <= i < command.args@.len() ==> command@.1[i] == (#[trigger] command.args@[i])@,
{
}

}
