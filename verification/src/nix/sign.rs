//! Signing keys, narinfo fingerprints and store path names.

use vstd::prelude::*;
use vstd::relations::*;
use vstd::seq_lib::*;
use vstd::string::*;
use vstd::utf8::*;

use crate::crypto;
use crate::text;

pub use crate::nix::base32::nix_base32_encode;

verus! {

/// An Ed25519 secret key, by the 32 bytes that it is made from.
pub struct SecretKey {
    pub seed: [u8; 32],
}

impl View for SecretKey {
    type V = Seq<u8>;

    open spec fn view(&self) -> Seq<u8> {
        self.seed@
    }
}

/// Why a text is no secret key.
#[derive(Debug)]
pub enum SignError {
    MissingSeparator,
    InvalidBase64(base64::DecodeError),
    InvalidLength(usize),
}

impl SignError {
    /// The text of the message for the user.
    pub open spec fn message_text(self) -> Seq<char> {
        match self {
            SignError::MissingSeparator =>
                "invalid secret key format, expected 'name:base64data'"@,
            SignError::InvalidBase64(_) => "invalid base64 in secret key"@,
            SignError::InvalidLength(n) =>
                "invalid secret key length: expected 64 bytes, got "@ + text::decimal(n as nat),
        }
    }

    /// The message for the user.
    pub fn message(&self) -> (r: String)
        ensures
            r@ == self.message_text(),
    {
        match self {
            SignError::MissingSeparator =>
                "invalid secret key format, expected 'name:base64data'".to_string(),
            SignError::InvalidBase64(_) => "invalid base64 in secret key".to_string(),
            SignError::InvalidLength(n) => {
                let mut r = "invalid secret key length: expected 64 bytes, got ".to_string();
                r.append(text::decimal_text(*n as u64).as_str());
                r
            },
        }
    }
}

/// The name and the seed that a secret key "name:base64data" holds.
pub open spec fn parsed_secret_key(key: Seq<char>) -> Option<(Seq<char>, Seq<u8>)> {
    match text::split_once(key, ':') {
        Some((name, b64)) => match crypto::base64_bytes(b64) {
            Some(bytes) => if bytes.len() == 64 {
                Some((name, bytes.take(32)))
            } else {
                None
            },
            None => None,
        },
        None => None,
    }
}

/// What is wrong with a text that is no secret key.
pub open spec fn is_secret_key_error(key: Seq<char>, error: SignError) -> bool {
    match text::split_once(key, ':') {
        None => error is MissingSeparator,
        Some((_, b64)) => match crypto::base64_bytes(b64) {
            None => error is InvalidBase64,
            Some(bytes) => bytes.len() != 64 && error == SignError::InvalidLength(
                bytes.len() as usize,
            ),
        },
    }
}

/// The secret key of decoded bytes. The first half of the 64 bytes is the seed,
/// the second the public key.
pub fn decoded_secret_key(decoded: Result<Vec<u8>, base64::DecodeError>) -> (r: Result<
    SecretKey,
    SignError,
>)
    ensures
        match decoded {
            Ok(bytes) => if bytes@.len() == 64 {
                r is Ok && r->Ok_0@ == bytes@.take(32)
            } else {
                r == Err::<SecretKey, SignError>(SignError::InvalidLength(bytes@.len() as usize))
            },
            Err(e) => r == Err::<SecretKey, SignError>(SignError::InvalidBase64(e)),
        },
{
    match decoded {
        Ok(bytes) => {
            if bytes.len() != 64 {
                return Err(SignError::InvalidLength(bytes.len()));
            }
            let mut seed: [u8; 32] = [0u8;32];
            let mut i: usize = 0;
            while i < 32
                invariant
                    i <= 32,
                    bytes@.len() == 64,
                    forall|j: int| 0 <= j < i ==> seed@[j] == bytes@[j],
                decreases 32 - i,
            {
                seed[i] = bytes[i];
                i = i + 1;
            }
            assert(seed@ == bytes@.take(32));
            Ok(SecretKey { seed })
        },
        Err(e) => Err(SignError::InvalidBase64(e)),
    }
}

/// Parse a Nix-format secret key: "name:base64data"
pub fn parse_secret_key(key_str: &str) -> (r: Result<(String, SecretKey), SignError>)
    ensures
        match r {
            Ok((name, key)) => parsed_secret_key(key_str@) == Some((name@, key@)),
            Err(e) => parsed_secret_key(key_str@) is None && is_secret_key_error(key_str@, e),
        },
{
    match text::cut_at(key_str, ':') {
        Some((name, b64)) => match decoded_secret_key(crypto::base64_decode(b64.as_str())) {
            Ok(key) => Ok((name, key)),
            Err(e) => Err(e),
        },
        None => Err(SignError::MissingSeparator),
    }
}

/// The key text "name:base64data".
pub open spec fn key_text(name: Seq<char>, data: Seq<u8>) -> Seq<char> {
    name + ":"@ + crypto::base64_text(data)
}

/// The name under which the keys of a cache are known.
pub open spec fn key_name(cache_name: Seq<char>) -> Seq<char> {
    cache_name + "-1"@
}

/// The secret key text of a cache: the seed and the public key.
pub open spec fn secret_key_text(cache_name: Seq<char>, seed: Seq<u8>) -> Seq<char> {
    key_text(key_name(cache_name), seed + crypto::ed25519_public_key(seed))
}

/// The public key text of a cache.
pub open spec fn public_key_text(cache_name: Seq<char>, seed: Seq<u8>) -> Seq<char> {
    key_text(key_name(cache_name), crypto::ed25519_public_key(seed))
}

/// The text of a key or a signature: its name and its bytes in base64.
pub fn named_base64(name: &str, data: &[u8]) -> (r: String)
    requires
        data@.len() <= usize::MAX / 4,
    ensures
        r@ == key_text(name@, data@),
        crypto::base64_bytes(crypto::base64_text(data@)) == Some(data@),
{
    let mut r = name.to_string();
    r.append(":");
    r.append(crypto::base64_encode(data).as_str());
    r
}

/// A text cut at its first colon, where the part before it has none.
proof fn lemma_key_text_splits(name: Seq<char>, data: Seq<u8>)
    requires
        !name.contains(':'),
    ensures
        text::split_once(key_text(name, data), ':') == Some((name, crypto::base64_text(data))),
{
    reveal_strlit(":");
    let s = key_text(name, data);
    let n = name.len() as int;
    assert(s[n] == ':');
    assert forall|i: int| 0 <= i < n implies #[trigger] s[i] != ':' by {
        assert(s[i] == name[i]);
    }
    text::lemma_find_is(s, ':', n);
    assert(s.take(n) == name);
    assert(s.skip(n + 1) == crypto::base64_text(data));
}

/// The secret and the public key text of a seed.
pub fn keypair_from_seed(cache_name: &str, seed: &[u8; 32]) -> (r: (String, String))
    ensures
        is_keypair(cache_name@, seed@, r.0@, r.1@),
{
    let public = crypto::ed25519_public(seed);
    let mut secret: Vec<u8> = Vec::new();
    let mut i: usize = 0;
    while i < 32
        invariant
            i <= 32,
            secret@ == seed@.take(i as int),
        decreases 32 - i,
    {
        secret.push(seed[i]);
        i = i + 1;
        assert(secret@ == seed@.take(i as int));
    }
    let mut j: usize = 0;
    while j < public.len()
        invariant
            j <= public@.len(),
            secret@ == seed@ + public@.take(j as int),
        decreases public@.len() - j,
    {
        secret.push(public[j]);
        j = j + 1;
        assert(secret@ == seed@ + public@.take(j as int));
    }
    assert(secret@ == seed@ + public@);
    let mut name = cache_name.to_string();
    name.append("-1");
    let secret_text = named_base64(name.as_str(), secret.as_slice());
    let public_text = named_base64(name.as_str(), public.as_slice());
    proof {
        if !cache_name@.contains(':') {
            reveal_strlit("-1");
            assert(!name@.contains(':')) by {
                if name@.contains(':') {
                    let k = choose|k: int| 0 <= k < name@.len() && name@[k] == ':';
                    if k < cache_name@.len() {
                        assert(cache_name@[k] == ':');
                    }
                }
            }
            lemma_key_text_splits(name@, secret@);
            lemma_key_text_splits(name@, public@);
            assert(secret@.take(32) == seed@);
        }
    }
    (secret_text, public_text)
}

/// Whether two texts are the secret and the public key of a cache, made from a seed. The
/// secret key of a cache without a colon in its name parses to the seed, and the public
/// key text holds the public key of the seed.
pub open spec fn is_keypair(
    cache_name: Seq<char>,
    seed: Seq<u8>,
    secret_key: Seq<char>,
    public_key: Seq<char>,
) -> bool {
    let public = crypto::ed25519_public_key(seed);
    &&& seed.len() == 32
    &&& secret_key == secret_key_text(cache_name, seed)
    &&& public_key == public_key_text(cache_name, seed)
    &&& !cache_name.contains(':') ==> parsed_secret_key(secret_key) == Some(
        (key_name(cache_name), seed),
    )
    &&& !cache_name.contains(':') ==> text::split_once(public_key, ':') == Some(
        (key_name(cache_name), crypto::base64_text(public)),
    )
    &&& crypto::base64_bytes(crypto::base64_text(public)) == Some(public)
}

/// Generate a new Ed25519 keypair for Nix signing.
/// Returns (secret_key_string, public_key_string) in Nix format "name:base64".
/// The seed is random.
pub fn generate_keypair(cache_name: &str) -> (r: (String, String))
    ensures
        exists|seed: Seq<u8>| #[trigger] is_keypair(cache_name@, seed, r.0@, r.1@),
{
    let seed = crypto::ed25519_random_seed();
    let r = keypair_from_seed(cache_name, &seed);
    assert(is_keypair(cache_name@, seed@, r.0@, r.1@));
    r
}

/// Whether `r` is the signature of a fingerprint with a secret key, or the error of a
/// text that is no secret key. A signature is the name of the key and 64 bytes in base64,
/// which verify under the public key.
pub open spec fn is_signed(
    secret_key: Seq<char>,
    fingerprint: Seq<char>,
    r: Result<String, SignError>,
) -> bool {
    match parsed_secret_key(secret_key) {
        Some((name, seed)) => {
            let message = encode_utf8(fingerprint);
            let signature = crypto::ed25519_signature(seed, message);
            &&& r is Ok
            &&& r->Ok_0@ == key_text(name, signature)
            &&& signature.len() == 64
            &&& crypto::base64_bytes(crypto::base64_text(signature)) == Some(signature)
            &&& crypto::ed25519_verifies(crypto::ed25519_public_key(seed), message, signature)
        },
        None => r is Err && is_secret_key_error(secret_key, r->Err_0),
    }
}

/// Sign a narinfo fingerprint with the given secret key string.
pub fn sign_narinfo(secret_key_str: &str, fingerprint: &str) -> (r: Result<String, SignError>)
    ensures
        is_signed(secret_key_str@, fingerprint@, r),
{
    match parse_secret_key(secret_key_str) {
        Ok((name, key)) => {
            let signature = crypto::ed25519_sign(&key.seed, fingerprint.as_bytes());
            Ok(named_base64(name.as_str(), signature.as_slice()))
        },
        Err(e) => Err(e),
    }
}

/// What is signed with a generated secret key is the name of the key and a signature of
/// 64 bytes in base64. The signature verifies under the public key that was generated
/// with the secret one, and signing again gives the same text.
pub proof fn signature_of_generated_key(
    cache_name: Seq<char>,
    secret_key: Seq<char>,
    public_key: Seq<char>,
    fingerprint: Seq<char>,
    first: Result<String, SignError>,
    second: Result<String, SignError>,
)
    requires
        !cache_name.contains(':'),
        exists|seed: Seq<u8>| #[trigger] is_keypair(cache_name, seed, secret_key, public_key),
        is_signed(secret_key, fingerprint, first),
        is_signed(secret_key, fingerprint, second),
    ensures
        first is Ok,
        second is Ok,
        first->Ok_0@ == second->Ok_0@,
        exists|signature: Seq<u8>, public: Seq<u8>|
            {
                &&& signature.len() == 64
                &&& first->Ok_0@ == cache_name + "-1"@ + ":"@ + crypto::base64_text(signature)
                &&& crypto::base64_bytes(crypto::base64_text(signature)) == Some(signature)
                &&& public_key == cache_name + "-1"@ + ":"@ + crypto::base64_text(public)
                &&& crypto::base64_bytes(crypto::base64_text(public)) == Some(public)
                &&& #[trigger] crypto::ed25519_verifies(public, encode_utf8(fingerprint), signature)
            },
{
    let seed = choose|seed: Seq<u8>| #[trigger]
        is_keypair(cache_name, seed, secret_key, public_key);
    let message = encode_utf8(fingerprint);
    let signature = crypto::ed25519_signature(seed, message);
    let public = crypto::ed25519_public_key(seed);
    assert(crypto::ed25519_verifies(public, message, signature));
}

/// A text is signed with exactly if it can be read as a secret key.
pub proof fn signs_iff_key_parses(
    secret_key: Seq<char>,
    fingerprint: Seq<char>,
    r: Result<String, SignError>,
)
    requires
        is_signed(secret_key, fingerprint, r),
    ensures
        r is Ok <==> parsed_secret_key(secret_key) is Some,
{
}

/// The text that a narinfo signature signs: the store path, the hash and the size
/// of the NAR, and the references in ascending order.
pub open spec fn fingerprint(
    store_path: Seq<char>,
    nar_hash: Seq<char>,
    nar_size: nat,
    references: Seq<Seq<char>>,
) -> Seq<char> {
    "1;"@ + store_path + ";"@ + nar_hash + ";"@ + text::decimal(nar_size) + ";"@ + text::join(
        text::sorted(references),
        ","@,
    )
}

/// Build the narinfo fingerprint for signing.
/// Format: "1;{store_path};{nar_hash};{nar_size};{sorted_refs}"
pub fn narinfo_fingerprint(
    store_path: &str,
    nar_hash: &str,
    nar_size: u64,
    references: &[String],
) -> (r: String)
    ensures
        r@ == fingerprint(store_path@, nar_hash@, nar_size as nat, text::texts(references@)),
{
    let sorted_refs = text::in_order(references);
    let mut r = "1;".to_string();
    r.append(store_path);
    r.append(";");
    r.append(nar_hash);
    r.append(";");
    r.append(text::decimal_text(nar_size).as_str());
    r.append(";");
    r.append(text::joined(sorted_refs.as_slice(), ",").as_str());
    r
}

/// The order in which the references are given does not change the fingerprint.
pub proof fn fingerprint_ignores_order(
    store_path: Seq<char>,
    nar_hash: Seq<char>,
    nar_size: nat,
    a: Seq<Seq<char>>,
    b: Seq<Seq<char>>,
)
    requires
        a.to_multiset() == b.to_multiset(),
    ensures
        fingerprint(store_path, nar_hash, nar_size, a) == fingerprint(
            store_path,
            nar_hash,
            nar_size,
            b,
        ),
{
    let le = |x: Seq<char>, y: Seq<char>| text::text_le(x, y);
    text::lemma_text_le_total_order();
    a.lemma_sort_by_ensures(le);
    b.lemma_sort_by_ensures(le);
    lemma_sorted_unique(text::sorted(a), text::sorted(b), le);
}

/// Why a text names no entry of the store.
#[derive(Debug)]
pub enum StorePathError {
    NotStorePath,
    TooShort(String),
}

impl StorePathError {
    /// The text of the message for the user.
    pub open spec fn message_text(self) -> Seq<char> {
        match self {
            StorePathError::NotStorePath => "not a valid store path"@,
            StorePathError::TooShort(path) => "store path basename too short: "@ + path@,
        }
    }

    /// The message for the user.
    pub fn message(&self) -> (r: String)
        ensures
            r@ == self.message_text(),
    {
        match self {
            StorePathError::NotStorePath => "not a valid store path".to_string(),
            StorePathError::TooShort(path) => {
                let mut r = "store path basename too short: ".to_string();
                r.append(path.as_str());
                r
            },
        }
    }
}

/// The name of a store path below the store directory.
pub open spec fn basename(store_path: Seq<char>) -> Option<Seq<char>> {
    text::strip_prefix(store_path, "/nix/store/"@)
}

/// The first 32 characters of the basename.
pub open spec fn hash_part(store_path: Seq<char>) -> Option<Seq<char>> {
    match basename(store_path) {
        Some(name) => if name.len() >= 32 {
            Some(name.take(32))
        } else {
            None
        },
        None => None,
    }
}

/// What follows the hash in the basename, of which there is at least one character.
pub open spec fn suffix_part(store_path: Seq<char>) -> Option<Seq<char>> {
    match basename(store_path) {
        Some(name) => if name.len() >= 33 {
            Some(name.skip(32))
        } else {
            None
        },
        None => None,
    }
}

/// What is wrong with a text that has no hash or no suffix.
pub open spec fn is_store_path_error(store_path: Seq<char>, error: StorePathError) -> bool {
    match basename(store_path) {
        None => error is NotStorePath,
        Some(_) => error is TooShort && error->TooShort_0@ == store_path,
    }
}

/// Extract the store hash (first 32 chars of basename) from a store path.
pub fn store_path_hash(store_path: &str) -> (r: Result<String, StorePathError>)
    ensures
        match hash_part(store_path@) {
            Some(hash) => r is Ok && r->Ok_0@ == hash,
            None => r is Err && is_store_path_error(store_path@, r->Err_0),
        },
{
    match text::after_prefix(store_path, "/nix/store/") {
        Some(name) => {
            let cs = text::chars_of(name.as_str());
            if cs.len() < 32 {
                return Err(StorePathError::TooShort(store_path.to_string()));
            }
            assert(cs@.subrange(0, 32) == cs@.take(32));
            Ok(text::string_between(&cs, 0, 32))
        },
        None => Err(StorePathError::NotStorePath),
    }
}

/// Extract the store suffix (everything after the hash) from a store path.
pub fn store_path_suffix(store_path: &str) -> (r: Result<String, StorePathError>)
    ensures
        match suffix_part(store_path@) {
            Some(suffix) => r is Ok && r->Ok_0@ == suffix,
            None => r is Err && is_store_path_error(store_path@, r->Err_0),
        },
{
    match text::after_prefix(store_path, "/nix/store/") {
        Some(name) => {
            let cs = text::chars_of(name.as_str());
            if cs.len() < 33 {
                return Err(StorePathError::TooShort(store_path.to_string()));
            }
            assert(cs@.subrange(32, cs@.len() as int) == cs@.skip(32));
            Ok(text::string_between(&cs, 32, cs.len()))
        },
        None => Err(StorePathError::NotStorePath),
    }
}

/// A store path is the store directory, its hash and its suffix, in this order.
pub proof fn store_path_is_hash_and_suffix(store_path: Seq<char>)
    requires
        suffix_part(store_path) is Some,
    ensures
        hash_part(store_path) is Some,
        hash_part(store_path)->0.len() == 32,
        store_path == "/nix/store/"@ + hash_part(store_path)->0 + suffix_part(store_path)->0,
{
    let name = basename(store_path)->0;
    let prefix = "/nix/store/"@;
    assert(store_path == prefix + name) by {
        assert(store_path.subrange(0, prefix.len() as int) == prefix);
    }
    assert(name == name.take(32) + name.skip(32));
    assert(prefix + hash_part(store_path)->0 + suffix_part(store_path)->0 == prefix + name);
}

/// A store path of a hash and a suffix has that hash and that suffix.
pub proof fn hash_and_suffix_of_store_path(hash: Seq<char>, suffix: Seq<char>)
    requires
        hash.len() == 32,
        suffix.len() > 0,
    ensures
        hash_part("/nix/store/"@ + hash + suffix) == Some(hash),
        suffix_part("/nix/store/"@ + hash + suffix) == Some(suffix),
{
    let prefix = "/nix/store/"@;
    let path = prefix + hash + suffix;
    let name = hash + suffix;
    assert(path.subrange(0, prefix.len() as int) == prefix);
    assert(path.skip(prefix.len() as int) == name);
    assert(name.take(32) == hash);
    assert(name.skip(32) == suffix);
}

/// The basename of a store path is what follows the store directory, all of it; what does
/// not start with that directory has none.
pub proof fn basename_follows_the_store(store_path: Seq<char>, name: Seq<char>)
    ensures
        basename(store_path) == Some(name) <==> store_path == "/nix/store/"@ + name,
        basename(store_path) is Some <==> "/nix/store/"@.is_prefix_of(store_path),
{
    let prefix = "/nix/store/"@;
    if store_path == prefix + name {
        assert(store_path.subrange(0, prefix.len() as int) == prefix);
        assert(store_path.skip(prefix.len() as int) == name);
    }
    if basename(store_path) == Some(name) {
        assert(store_path.subrange(0, prefix.len() as int) == prefix);
        assert(store_path == prefix + store_path.skip(prefix.len() as int));
    }
}

/// A path has a hash exactly if it is one of the store with a name of 32 characters or more,
/// and a suffix exactly if the name has more. The error says which of the two is amiss.
pub proof fn hash_needs_a_long_name(name: Seq<char>, other: Seq<char>, error: StorePathError)
    ensures
        hash_part("/nix/store/"@ + name) is Some <==> name.len() >= 32,
        name.len() >= 32 ==> hash_part("/nix/store/"@ + name) == Some(name.take(32)),
        suffix_part("/nix/store/"@ + name) is Some <==> name.len() > 32,
        name.len() > 32 ==> suffix_part("/nix/store/"@ + name) == Some(name.skip(32)),
        !"/nix/store/"@.is_prefix_of(other) ==> hash_part(other) is None && suffix_part(
            other,
        ) is None && (is_store_path_error(other, error) <==> error is NotStorePath),
        is_store_path_error("/nix/store/"@ + name, error) <==> error is TooShort
            && error->TooShort_0@ == "/nix/store/"@ + name,
{
    basename_follows_the_store("/nix/store/"@ + name, name);
    basename_follows_the_store(other, name);
}

/// A secret key is a name without a colon, a colon, and 64 bytes in base64, the first 32 of
/// which are the seed.
pub proof fn secret_key_is_name_and_bytes(name: Seq<char>, b64: Seq<char>, bytes: Seq<u8>)
    requires
        !name.contains(':'),
        crypto::base64_bytes(b64) == Some(bytes),
        bytes.len() == 64,
    ensures
        parsed_secret_key(name + ":"@ + b64) == Some((name, bytes.take(32))),
{
    lemma_split_at_colon(name, b64);
}

/// A text without a colon is no secret key, and neither is one whose second part is no base64
/// or holds another number of bytes. The error says which of them it is.
pub proof fn other_texts_are_no_secret_key(
    text: Seq<char>,
    name: Seq<char>,
    b64: Seq<char>,
    error: SignError,
)
    requires
        !name.contains(':'),
    ensures
        !text.contains(':') ==> parsed_secret_key(text) is None && (is_secret_key_error(
            text,
            error,
        ) <==> error is MissingSeparator),
        crypto::base64_bytes(b64) is None ==> parsed_secret_key(name + ":"@ + b64) is None && (
        is_secret_key_error(name + ":"@ + b64, error) <==> error is InvalidBase64),
        crypto::base64_bytes(b64) is Some && crypto::base64_bytes(b64)->0.len() != 64
            ==> parsed_secret_key(name + ":"@ + b64) is None && (is_secret_key_error(
            name + ":"@ + b64,
            error,
        ) <==> error == SignError::InvalidLength(crypto::base64_bytes(b64)->0.len() as usize)),
{
    lemma_split_at_colon(name, b64);
    text::lemma_find(text, ':');
    let n = text::find(text, ':') as int;
    if n < text.len() {
        assert(text[n] == ':');
        assert(text.contains(':'));
    }
}

proof fn lemma_split_at_colon(name: Seq<char>, rest: Seq<char>)
    requires
        !name.contains(':'),
    ensures
        text::split_once(name + ":"@ + rest, ':') == Some((name, rest)),
{
    reveal_strlit(":");
    let s = name + ":"@ + rest;
    let n = name.len() as int;
    assert(s[n] == ':');
    assert forall|i: int| 0 <= i < n implies #[trigger] s[i] != ':' by {
        assert(s[i] == name[i]);
    }
    text::lemma_find_is(s, ':', n);
    assert(s.take(n) == name);
    assert(s.skip(n + 1) == rest);
}

/// The keys of a cache are named after it, with "-1" behind its name. The secret one holds the
/// seed and then the public key, the public one the public key.
pub proof fn keys_of_a_cache(
    cache_name: Seq<char>,
    seed: Seq<u8>,
    secret_key: Seq<char>,
    public_key: Seq<char>,
)
    requires
        is_keypair(cache_name, seed, secret_key, public_key),
    ensures
        seed.len() == 32,
        secret_key == cache_name + "-1"@ + ":"@ + crypto::base64_text(
            seed + crypto::ed25519_public_key(seed),
        ),
        public_key == cache_name + "-1"@ + ":"@ + crypto::base64_text(
            crypto::ed25519_public_key(seed),
        ),
        !cache_name.contains(':') ==> parsed_secret_key(secret_key) == Some(
            (cache_name + "-1"@, seed),
        ),
{
}

/// What is signed with a readable secret key is the name of the key, a colon, and 64 bytes in
/// base64 that verify, for the bytes of the fingerprint, under the public key of the seed.
pub proof fn signature_has_the_name_of_the_key(
    name: Seq<char>,
    b64: Seq<char>,
    bytes: Seq<u8>,
    fingerprint: Seq<char>,
    r: Result<String, SignError>,
)
    requires
        !name.contains(':'),
        crypto::base64_bytes(b64) == Some(bytes),
        bytes.len() == 64,
        is_signed(name + ":"@ + b64, fingerprint, r),
    ensures
        r is Ok,
        exists|signature: Seq<u8>|
            {
                &&& signature.len() == 64
                &&& r->Ok_0@ == name + ":"@ + crypto::base64_text(signature)
                &&& #[trigger] crypto::ed25519_verifies(
                    crypto::ed25519_public_key(bytes.take(32)),
                    encode_utf8(fingerprint),
                    signature,
                )
            },
{
    secret_key_is_name_and_bytes(name, b64, bytes);
    let signature = crypto::ed25519_signature(bytes.take(32), encode_utf8(fingerprint));
    assert(crypto::ed25519_verifies(
        crypto::ed25519_public_key(bytes.take(32)),
        encode_utf8(fingerprint),
        signature,
    ));
}

/// A fingerprint is made of the store path, the hash and the size of the NAR and all
/// references, each as often as it is given, in ascending order.
pub proof fn fingerprint_of_ordered_references(
    store_path: Seq<char>,
    nar_hash: Seq<char>,
    nar_size: nat,
    references: Seq<Seq<char>>,
    ordered: Seq<Seq<char>>,
)
    requires
        ordered.to_multiset() == references.to_multiset(),
        forall|i: int, j: int|
            0 <= i < j < ordered.len() ==> text::text_le(
                #[trigger] ordered[i],
                #[trigger] ordered[j],
            ),
    ensures
        fingerprint(store_path, nar_hash, nar_size, references) == "1;"@ + store_path + ";"@
            + nar_hash + ";"@ + text::decimal(nar_size) + ";"@ + text::join(ordered, ","@),
{
    let le = |x: Seq<char>, y: Seq<char>| text::text_le(x, y);
    text::lemma_text_le_total_order();
    references.lemma_sort_by_ensures(le);
    assert(sorted_by(ordered, le));
    lemma_sorted_unique(text::sorted(references), ordered, le);
}

/// The messages say what is wrong with a key or a path, with its length or the whole path.
pub proof fn key_and_path_messages(n: usize, path: String, error: base64::DecodeError)
    ensures
        SignError::MissingSeparator.message_text()
            == "invalid secret key format, expected 'name:base64data'"@,
        SignError::InvalidBase64(error).message_text() == "invalid base64 in secret key"@,
        SignError::InvalidLength(n).message_text()
            == "invalid secret key length: expected 64 bytes, got "@ + text::decimal(n as nat),
        StorePathError::NotStorePath.message_text() == "not a valid store path"@,
        StorePathError::TooShort(path).message_text() == "store path basename too short: "@ + path@,
{
}

}
