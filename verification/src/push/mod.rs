//! Pushing store paths.

pub mod compress;
pub mod narinfo;
pub mod upload;

pub use crate::push::narinfo::push_store_path;

use vstd::prelude::*;
use vstd::string::*;

use crate::api::types::CompressionMethod;
use crate::nix::sign;
use crate::text;

verus! {

/// Options for pushing store paths.
#[derive(Debug, Clone, Copy)]
pub struct PushOptions {
    pub compression_method: CompressionMethod,
    pub compression_level: u32,
    pub chunk_size: usize,
    pub num_concurrent_chunks: usize,
    pub jobs: usize,
    pub omit_deriver: bool,
}

impl Default for PushOptions {
    fn default() -> (r: PushOptions)
        ensures
            r == (PushOptions {
                compression_method: CompressionMethod::Zstd,
                compression_level: 2,
                chunk_size: 33554432,
                num_concurrent_chunks: 4,
                jobs: 8,
                omit_deriver: false,
            }),
    {
        PushOptions {
            compression_method: CompressionMethod::Zstd,
            compression_level: 2,
            chunk_size: 33554432,
            num_concurrent_chunks: 4,
            jobs: 8,
            omit_deriver: false,
        }
    }
}

/// The hashes of those paths that have one.
pub open spec fn hashes_of(paths: Seq<Seq<char>>) -> Seq<Seq<char>>
    decreases paths.len(),
{
    if paths.len() == 0 {
        Seq::empty()
    } else {
        let earlier = hashes_of(paths.drop_last());
        match sign::hash_part(paths.last()) {
            Some(hash) => earlier.push(hash),
            None => earlier,
        }
    }
}

/// Whether a path has a hash, and it is one of `hashes`.
pub open spec fn hash_among(hashes: Seq<Seq<char>>) -> spec_fn(Seq<char>) -> bool {
    |path: Seq<char>|
        match sign::hash_part(path) {
            Some(hash) => hashes.contains(hash),
            None => false,
        }
}

/// The hashes that the cache is asked about, for the paths of a closure.
pub fn closure_hashes(closure: &[String]) -> (r: Vec<String>)
    ensures
        text::texts(r@) == hashes_of(text::texts(closure@)),
{
    let ghost all = text::texts(closure@);
    let mut out: Vec<String> = Vec::new();
    let mut i: usize = 0;
    assert(text::texts(out@) == hashes_of(all.take(0)));
    while i < closure.len()
        invariant
            i <= closure@.len(),
            all == text::texts(closure@),
            text::texts(out@) == hashes_of(all.take(i as int)),
        decreases closure@.len() - i,
    {
        assert(all.take(i + 1).drop_last() == all.take(i as int));
        assert(all.take(i + 1).last() == all[i as int]);
        if let Ok(hash) = sign::store_path_hash(closure[i].as_str()) {
            let ghost earlier = text::texts(out@);
            let ghost name = hash@;
            out.push(hash);
            assert(text::texts(out@) == earlier.push(name));
        }
        i = i + 1;
    }
    assert(all.take(i as int) == all);
    out
}

/// The paths of a closure to push: those whose hash the cache named as missing.
pub fn push_paths(closure: &[String], missing_hashes: &[String]) -> (r: Vec<String>)
    ensures
        text::texts(r@) == text::texts(closure@).filter(
            hash_among(text::texts(missing_hashes@)),
        ),
{
    let ghost all = text::texts(closure@);
    let ghost keep = hash_among(text::texts(missing_hashes@));
    let mut out: Vec<String> = Vec::new();
    let mut i: usize = 0;
    proof {
        reveal(Seq::filter);
        assert(text::texts(out@) == all.take(0).filter(keep));
    }
    while i < closure.len()
        invariant
            i <= closure@.len(),
            all == text::texts(closure@),
            keep == hash_among(text::texts(missing_hashes@)),
            text::texts(out@) == all.take(i as int).filter(keep),
        decreases closure@.len() - i,
    {
        proof {
            reveal(Seq::filter);
            assert(all.take(i + 1).drop_last() == all.take(i as int));
            assert(all.take(i + 1).last() == closure@[i as int]@);
        }
        let missing = match sign::store_path_hash(closure[i].as_str()) {
            Ok(hash) => text::holds(missing_hashes, hash.as_str()),
            Err(_) => false,
        };
        if missing {
            let ghost earlier = text::texts(out@);
            out.push(closure[i].clone());
            assert(text::texts(out@) == earlier.push(closure@[i as int]@));
        }
        i = i + 1;
    }
    assert(all.take(i as int) == all);
    out
}

/// Some paths were not pushed.
#[derive(Debug)]
pub struct PushesFailed {
    pub count: usize,
}

impl PushesFailed {
    /// The message for the user.
    pub fn message(&self) -> (r: String)
        ensures
            r@ == text::decimal(self.count as nat) + " path(s) failed to push"@,
    {
        let mut r = text::decimal_text(self.count as u64);
        r.append(" path(s) failed to push");
        r
    }
}

/// The number of pushes that failed.
pub open spec fn failures(pushed: Seq<bool>) -> nat
    decreases pushed.len(),
{
    if pushed.len() == 0 {
        0
    } else {
        failures(pushed.drop_last()) + if pushed.last() {
            0nat
        } else {
            1nat
        }
    }
}

/// What becomes of a push of several paths, from whether each was pushed.
pub fn push_result(pushed: &[bool]) -> (r: Result<(), PushesFailed>)
    ensures
        match r {
            Ok(()) => failures(pushed@) == 0,
            Err(e) => e.count > 0 && e.count == failures(pushed@),
        },
{
    let mut count: usize = 0;
    let mut i: usize = 0;
    while i < pushed.len()
        invariant
            i <= pushed@.len(),
            count <= i,
            count == failures(pushed@.take(i as int)),
        decreases pushed@.len() - i,
    {
        assert(pushed@.take(i + 1).drop_last() == pushed@.take(i as int));
        if !pushed[i] {
            count = count + 1;
        }
        i = i + 1;
    }
    assert(pushed@.take(i as int) == pushed@);
    if count > 0 {
        Err(PushesFailed { count })
    } else {
        Ok(())
    }
}

/// A push succeeds exactly if each of its paths was pushed.
pub proof fn no_failures_iff_all_pushed(pushed: Seq<bool>)
    ensures
        failures(pushed) == 0 <==> forall|i: int| 0 <= i < pushed.len() ==> #[trigger] pushed[i],
    decreases pushed.len(),
{
    if pushed.len() > 0 {
        let init = pushed.drop_last();
        no_failures_iff_all_pushed(init);
        if failures(pushed) == 0 {
            assert forall|i: int| 0 <= i < pushed.len() implies #[trigger] pushed[i] by {
                if i < init.len() {
                    assert(init[i]);
                }
            }
        }
        if forall|i: int| 0 <= i < pushed.len() ==> #[trigger] pushed[i] {
            assert forall|i: int| 0 <= i < init.len() implies #[trigger] init[i] by {
                assert(pushed[i]);
            }
            assert(pushed[pushed.len() - 1]);
        }
    }
}

/// The hash of each path of a closure is asked for.
proof fn lemma_hash_is_asked(closure: Seq<Seq<char>>, i: int)
    requires
        0 <= i < closure.len(),
        sign::hash_part(closure[i]) is Some,
    ensures
        hashes_of(closure).contains(sign::hash_part(closure[i])->0),
    decreases closure.len(),
{
    let hash = sign::hash_part(closure[i])->0;
    let earlier = hashes_of(closure.drop_last());
    if i == closure.len() - 1 {
        assert(hashes_of(closure)[earlier.len() as int] == hash);
    } else {
        lemma_hash_is_asked(closure.drop_last(), i);
        let k = choose|k: int| 0 <= k < earlier.len() && earlier[k] == hash;
        assert(hashes_of(closure)[k] == hash);
    }
}

/// Each hash that is asked for is the hash of a path.
proof fn lemma_asked_is_hash(closure: Seq<Seq<char>>, hash: Seq<char>)
    requires
        hashes_of(closure).contains(hash),
    ensures
        exists|i: int|
            0 <= i < closure.len() && sign::hash_part(#[trigger] closure[i]) == Some(hash),
    decreases closure.len(),
{
    if closure.len() > 0 {
        let init = closure.drop_last();
        let earlier = hashes_of(init);
        let k = choose|k: int|
            0 <= k < hashes_of(closure).len() && hashes_of(closure)[k] == hash;
        if k < earlier.len() {
            assert(earlier[k] == hash);
            lemma_asked_is_hash(init, hash);
            let i = choose|i: int|
                0 <= i < init.len() && sign::hash_part(#[trigger] init[i]) == Some(hash);
            assert(closure[i] == init[i]);
        } else {
            assert(sign::hash_part(closure[closure.len() - 1]) == Some(hash));
        }
    }
}

/// Where the cache names hashes that it was asked about, each of them is the hash
/// of a path that is pushed, and each path that is pushed has one of them.
pub proof fn missing_hashes_are_pushed(closure: Seq<Seq<char>>, missing: Seq<Seq<char>>)
    requires
        forall|k: int|
            0 <= k < missing.len() ==> hashes_of(closure).contains(#[trigger] missing[k]),
    ensures
        forall|hash: Seq<char>| #[trigger]
            missing.contains(hash) <==> exists|path: Seq<char>| #[trigger]
                closure.filter(hash_among(missing)).contains(path) && sign::hash_part(path) == Some(
                    hash,
                ),
{
    let keep = hash_among(missing);
    let pushed = closure.filter(keep);
    assert forall|hash: Seq<char>| #[trigger] missing.contains(hash) <==> exists|
        path: Seq<char>,
    | #[trigger] pushed.contains(path) && sign::hash_part(path) == Some(hash) by {
        if missing.contains(hash) {
            let k = choose|k: int| 0 <= k < missing.len() && missing[k] == hash;
            assert(hashes_of(closure).contains(missing[k]));
            lemma_asked_is_hash(closure, hash);
            let i = choose|i: int|
                0 <= i < closure.len() && sign::hash_part(#[trigger] closure[i]) == Some(hash);
            assert(keep(closure[i]));
            closure.lemma_filter_contains(keep, i);
            assert(pushed.contains(closure[i]));
        }
        if exists|path: Seq<char>| #[trigger]
            pushed.contains(path) && sign::hash_part(path) == Some(hash) {
            let path = choose|path: Seq<char>| #[trigger]
                pushed.contains(path) && sign::hash_part(path) == Some(hash);
            closure.lemma_filter_contains_rev(keep, path);
            assert(keep(path));
        }
    }
}

/// Nothing is pushed where the cache misses nothing, and where it misses all that
/// it was asked about, each path that has a hash is pushed.
pub proof fn nothing_or_all_is_pushed(closure: Seq<Seq<char>>)
    ensures
        closure.filter(hash_among(Seq::empty())).len() == 0,
        forall|i: int|
            0 <= i < closure.len() && sign::hash_part(#[trigger] closure[i]) is Some
                ==> closure.filter(hash_among(hashes_of(closure))).contains(closure[i]),
{
    let none = hash_among(Seq::empty());
    if closure.filter(none).len() > 0 {
        let path = closure.filter(none)[0];
        assert(closure.filter(none).contains(path));
        closure.lemma_filter_contains_rev(none, path);
        assert(none(path));
    }
    let all = hash_among(hashes_of(closure));
    assert forall|i: int|
        0 <= i < closure.len() && sign::hash_part(#[trigger] closure[i]) is Some implies closure.filter(
        all,
    ).contains(closure[i]) by {
        lemma_hash_is_asked(closure, i);
        assert(all(closure[i]));
        closure.lemma_filter_contains(all, i);
    }
}

/// The hashes of the paths are asked for one by one, in the order of the paths: of a path of
/// the store the first 32 characters of its name, and of anything else none.
pub proof fn hashes_one_by_one(
    first: Seq<Seq<char>>,
    second: Seq<Seq<char>>,
    hash: Seq<char>,
    rest: Seq<char>,
    other: Seq<char>,
)
    requires
        hash.len() == 32,
        sign::hash_part(other) is None,
    ensures
        hashes_of(first + second) == hashes_of(first) + hashes_of(second),
        hashes_of(seq!["/nix/store/"@ + hash + rest]) == seq![hash],
        hashes_of(seq![other]) == Seq::<Seq<char>>::empty(),
    decreases second.len(),
{
    let none = Seq::<Seq<char>>::empty();
    let path = "/nix/store/"@ + hash + rest;
    assert(path == "/nix/store/"@ + (hash + rest));
    sign::hash_needs_a_long_name(hash + rest, other, sign::StorePathError::NotStorePath);
    assert((hash + rest).take(32) == hash);
    assert(hashes_of(none) == none);
    assert(seq![path].drop_last() == none && seq![path].last() == path);
    assert(seq![other].drop_last() == none && seq![other].last() == other);
    assert(hashes_of(seq![path]) == none.push(hash));
    assert(none.push(hash) == seq![hash]);
    if second.len() == 0 {
        assert(first + second == first);
        assert(hashes_of(first) + hashes_of(second) == hashes_of(first));
    } else {
        hashes_one_by_one(first, second.drop_last(), hash, rest, other);
        assert((first + second).drop_last() == first + second.drop_last());
        assert((first + second).last() == second.last());
        assert(hashes_of(first + second) == hashes_of(first) + hashes_of(second));
    }
}

/// A path is pushed exactly if the cache named its hash as missing; the paths that are pushed
/// stay in their order, each as often as it is given.
pub proof fn missing_paths_are_pushed(
    first: Seq<Seq<char>>,
    second: Seq<Seq<char>>,
    hash: Seq<char>,
    rest: Seq<char>,
    other: Seq<char>,
    missing: Seq<Seq<char>>,
)
    requires
        hash.len() == 32,
        sign::hash_part(other) is None,
    ensures
        (first + second).filter(hash_among(missing)) == first.filter(hash_among(missing))
            + second.filter(hash_among(missing)),
        seq!["/nix/store/"@ + hash + rest].filter(hash_among(missing)) == if missing.contains(
            hash,
        ) {
            seq!["/nix/store/"@ + hash + rest]
        } else {
            Seq::<Seq<char>>::empty()
        },
        seq![other].filter(hash_among(missing)) == Seq::<Seq<char>>::empty(),
{
    let keep = hash_among(missing);
    let none = Seq::<Seq<char>>::empty();
    let path = "/nix/store/"@ + hash + rest;
    assert(path == "/nix/store/"@ + (hash + rest));
    sign::hash_needs_a_long_name(hash + rest, other, sign::StorePathError::NotStorePath);
    assert((hash + rest).take(32) == hash);
    Seq::filter_distributes_over_add(first, second, keep);
    reveal(Seq::filter);
    assert(seq![path].drop_last() == none && seq![path].last() == path);
    assert(seq![other].drop_last() == none && seq![other].last() == other);
    assert(none.filter(keep) == none);
    assert(none.push(path) == seq![path]);
}

/// Each path that was not pushed counts as one failure, and no other does.
pub proof fn failures_are_counted(first: Seq<bool>, second: Seq<bool>)
    ensures
        failures(first + second) == failures(first) + failures(second),
        failures(seq![false]) == 1,
        failures(seq![true]) == 0,
        failures(Seq::empty()) == 0,
    decreases second.len(),
{
    assert(seq![false].drop_last() == Seq::<bool>::empty());
    assert(seq![true].drop_last() == Seq::<bool>::empty());
    assert(failures(Seq::<bool>::empty()) == 0);
    if second.len() == 0 {
        assert(first + second == first);
    } else {
        failures_are_counted(first, second.drop_last());
        assert((first + second).drop_last() == first + second.drop_last());
        assert((first + second).last() == second.last());
    }
}

}
