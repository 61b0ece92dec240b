//! What is published of a store path.

use vstd::prelude::*;
use vstd::string::*;
use vstd::utf8::*;

use crate::api::types::{NarInfoCreate, NarInfoCreateView};
use crate::config::PushCredential;
use crate::crypto;
use crate::nix::base32;
use crate::nix::sign;
use crate::nix::sign::{SignError, StorePathError};
use crate::nix::store::PathInfo;
use crate::push::compress;
use crate::push::compress::CompressError;
use crate::push::PushOptions;
use crate::text;

verus! {

/// The text of the hash of a NAR: its SHA-256 digest in the base 32 of Nix.
pub open spec fn nar_hash_text(digest: Seq<u8>) -> Seq<char> {
    "sha256:"@ + base32::nix_base32(digest)
}

/// The text of the hash of a file: its SHA-256 digest in hexadecimal.
pub open spec fn file_hash_text(digest: Seq<u8>) -> Seq<char> {
    "sha256:"@ + text::hex(digest)
}

/// The basenames of those references that are store paths.
pub open spec fn reference_names(references: Seq<Seq<char>>) -> Seq<Seq<char>>
    decreases references.len(),
{
    if references.len() == 0 {
        Seq::empty()
    } else {
        let earlier = reference_names(references.drop_last());
        match sign::basename(references.last()) {
            Some(name) => earlier.push(name),
            None => earlier,
        }
    }
}

/// The basename of a deriver, or nothing where there is none, where it is no store
/// path, or where it is left out.
pub open spec fn deriver_name(omit_deriver: bool, deriver: Option<Seq<char>>) -> Seq<char> {
    if omit_deriver || deriver is None {
        Seq::empty()
    } else {
        match sign::basename(deriver->0) {
            Some(name) => name,
            None => Seq::empty(),
        }
    }
}

/// The signature of a fingerprint with a secret key that can be read.
pub open spec fn signature_text(
    key: Option<Seq<char>>,
    fingerprint: Seq<char>,
) -> Option<Seq<char>> {
    match key {
        Some(key) => match sign::parsed_secret_key(key) {
            Some((name, seed)) => Some(
                sign::key_text(
                    name,
                    crypto::ed25519_signature(seed, encode_utf8(fingerprint)),
                ),
            ),
            None => None,
        },
        None => None,
    }
}

/// What is published of a store path, from the digests and sizes of its NAR and of
/// the compressed file.
pub open spec fn published(
    store_path: Seq<char>,
    nar: (Seq<u8>, u64),
    file: (Seq<u8>, u64),
    references: Seq<Seq<char>>,
    deriver: Option<Seq<char>>,
    omit_deriver: bool,
    key: Option<Seq<char>>,
) -> NarInfoCreateView {
    NarInfoCreateView {
        store_hash: sign::hash_part(store_path)->0,
        store_suffix: sign::suffix_part(store_path)->0,
        nar_hash: nar_hash_text(nar.0),
        nar_size: nar.1,
        file_hash: file_hash_text(file.0),
        file_size: file.1,
        references: reference_names(references),
        deriver: deriver_name(omit_deriver, deriver),
        sig: signature_text(
            key,
            sign::fingerprint(store_path, nar_hash_text(nar.0), nar.1 as nat, references),
        ),
    }
}

/// Whether something can be published of a store path: it has a hash and a suffix,
/// and the key to sign with, where there is one, can be read.
pub open spec fn publishable(store_path: Seq<char>, key: Option<Seq<char>>) -> bool {
    &&& sign::hash_part(store_path) is Some
    &&& sign::suffix_part(store_path) is Some
    &&& key is Some ==> sign::parsed_secret_key(key->0) is Some
}

/// Why a store path was not pushed.
#[derive(Debug)]
pub enum PushError {
    Compress(CompressError),
    StorePath(StorePathError),
    Sign(SignError),
}

/// What keeps a store path from being published. A fault of the path comes before
/// one of the key.
pub open spec fn is_publish_error(
    store_path: Seq<char>,
    key: Option<Seq<char>>,
    error: PushError,
) -> bool {
    if sign::suffix_part(store_path) is None {
        error is StorePath && sign::is_store_path_error(store_path, error->StorePath_0)
    } else {
        error is Sign && sign::is_secret_key_error(key->0, error->Sign_0)
    }
}

impl PushError {
    /// The text of the message for the user.
    pub open spec fn message_text(self) -> Seq<char> {
        match self {
            PushError::Compress(e) => e.message_text(),
            PushError::StorePath(e) => e.message_text(),
            PushError::Sign(e) => e.message_text(),
        }
    }

    /// The message for the user.
    pub fn message(&self) -> (r: String)
        ensures
            r@ == self.message_text(),
    {
        match self {
            PushError::Compress(e) => e.message(),
            PushError::StorePath(e) => e.message(),
            PushError::Sign(e) => e.message(),
        }
    }
}

/// Computes `reference_names`.
pub fn references_as_basenames(references: &[String]) -> (r: Vec<String>)
    ensures
        text::texts(r@) == reference_names(text::texts(references@)),
{
    let ghost all = text::texts(references@);
    let mut out: Vec<String> = Vec::new();
    let mut i: usize = 0;
    assert(text::texts(out@) == reference_names(all.take(0)));
    while i < references.len()
        invariant
            i <= references@.len(),
            all == text::texts(references@),
            text::texts(out@) == reference_names(all.take(i as int)),
        decreases references@.len() - i,
    {
        assert(all.take(i + 1).drop_last() == all.take(i as int));
        assert(all.take(i + 1).last() == all[i as int]);
        if let Some(name) = text::after_prefix(references[i].as_str(), "/nix/store/") {
            let ghost earlier = text::texts(out@);
            let ghost added = name@;
            out.push(name);
            assert(text::texts(out@) == earlier.push(added));
        }
        i = i + 1;
    }
    assert(all.take(i as int) == all);
    out
}

/// Computes `deriver_name`.
pub fn deriver_as_basename(omit_deriver: bool, deriver: &Option<String>) -> (r: String)
    ensures
        r@ == deriver_name(omit_deriver, text::opt_text(*deriver)),
{
    if omit_deriver {
        return String::new();
    }
    match deriver {
        Some(deriver) => match text::after_prefix(deriver.as_str(), "/nix/store/") {
            Some(name) => name,
            None => String::new(),
        },
        None => String::new(),
    }
}

/// Computes `nar_hash_text`.
pub fn nar_hash(digest: &[u8]) -> (r: String)
    requires
        digest@.len() * 8 <= usize::MAX,
    ensures
        r@ == nar_hash_text(digest@),
{
    let mut r = "sha256:".to_string();
    r.append(base32::nix_base32_encode(digest).as_str());
    r
}

/// Computes `file_hash_text`.
pub fn file_hash(digest: &[u8]) -> (r: String)
    ensures
        r@ == file_hash_text(digest@),
{
    let mut r = "sha256:".to_string();
    r.append(text::hex_text(digest).as_str());
    r
}

/// The digest and the size of a NAR, or of a file.
#[derive(Debug, Clone)]
pub struct Digested {
    pub digest: Vec<u8>,
    pub size: u64,
}

impl View for Digested {
    type V = (Seq<u8>, u64);

    open spec fn view(&self) -> (Seq<u8>, u64) {
        (self.digest@, self.size)
    }
}

/// Build what is published of a store path. The signature has 64 bytes, which verify
/// under the public key of the signing key.
pub fn build_narinfo(
    store_path: &str,
    nar: &Digested,
    file: &Digested,
    path_info: &PathInfo,
    credential: &PushCredential,
    omit_deriver: bool,
) -> (r: Result<NarInfoCreate, PushError>)
    requires
        nar.digest@.len() * 8 <= usize::MAX,
    ensures
        r is Ok <==> publishable(store_path@, credential.key_text()),
        match r {
            Ok(narinfo) => narinfo@ == published(
                store_path@,
                nar@,
                file@,
                text::texts(path_info.references@),
                text::opt_text(path_info.deriver),
                omit_deriver,
                credential.key_text(),
            ),
            Err(e) => is_publish_error(store_path@, credential.key_text(), e),
        },
        r is Ok && credential.key_text() is Some ==> {
            let (_, seed) = sign::parsed_secret_key(credential.key_text()->0)->0;
            let message = encode_utf8(
                sign::fingerprint(
                    store_path@,
                    nar_hash_text(nar.digest@),
                    nar.size as nat,
                    text::texts(path_info.references@),
                ),
            );
            let signature = crypto::ed25519_signature(seed, message);
            &&& signature.len() == 64
            &&& crypto::ed25519_verifies(crypto::ed25519_public_key(seed), message, signature)
        },
        r is Ok ==> (r->Ok_0.c_sig is Some <==> credential is SigningKey),
        r is Ok && credential is SigningKey ==> {
            let (name, seed) = sign::parsed_secret_key(credential->signing_key@)->0;
            exists|signature: Seq<u8>|
                {
                    &&& signature.len() == 64
                    &&& r->Ok_0.c_sig->0@ == name + ":"@ + crypto::base64_text(signature)
                    &&& crypto::base64_bytes(crypto::base64_text(signature)) == Some(signature)
                    &&& #[trigger] crypto::ed25519_verifies(
                        crypto::ed25519_public_key(seed),
                        encode_utf8(
                            sign::fingerprint(
                                store_path@,
                                "sha256:"@ + base32::nix_base32(nar.digest@),
                                nar.size as nat,
                                text::texts(path_info.references@),
                            ),
                        ),
                        signature,
                    )
                }
        },
        r is Ok ==> {
            &&& store_path@ == "/nix/store/"@ + r->Ok_0.c_store_hash@ + r->Ok_0.c_store_suffix@
            &&& r->Ok_0.c_store_hash@.len() == 32
            &&& r->Ok_0.c_nar_hash@ == "sha256:"@ + base32::nix_base32(nar.digest@)
            &&& r->Ok_0.c_nar_size == nar.size
            &&& r->Ok_0.c_file_hash@ == "sha256:"@ + text::hex(file.digest@)
            &&& r->Ok_0.c_file_size == file.size
        },
{
    let nar_hash = nar_hash(nar.digest.as_slice());
    let references = references_as_basenames(path_info.references.as_slice());
    let deriver = deriver_as_basename(omit_deriver, &path_info.deriver);
    let store_hash = match sign::store_path_hash(store_path) {
        Ok(hash) => hash,
        Err(e) => return Err(PushError::StorePath(e)),
    };
    let store_suffix = match sign::store_path_suffix(store_path) {
        Ok(suffix) => suffix,
        Err(e) => return Err(PushError::StorePath(e)),
    };
    let sig = match credential.signing_key() {
        Some(key) => {
            let fingerprint = sign::narinfo_fingerprint(
                store_path,
                nar_hash.as_str(),
                nar.size,
                path_info.references.as_slice(),
            );
            match sign::sign_narinfo(key, fingerprint.as_str()) {
                Ok(sig) => Some(sig),
                Err(e) => return Err(PushError::Sign(e)),
            }
        },
        None => None,
    };
    proof {
        sign::store_path_is_hash_and_suffix(store_path@);
        if credential is SigningKey {
            let (name, seed) = sign::parsed_secret_key(credential->signing_key@)->0;
            let message = encode_utf8(
                sign::fingerprint(
                    store_path@,
                    nar_hash@,
                    nar.size as nat,
                    text::texts(path_info.references@),
                ),
            );
            let signature = crypto::ed25519_signature(seed, message);
            assert(crypto::ed25519_verifies(crypto::ed25519_public_key(seed), message, signature));
            assert(sig->0@ == name + ":"@ + crypto::base64_text(signature));
        }
    }
    Ok(
        NarInfoCreate {
            c_store_hash: store_hash,
            c_store_suffix: store_suffix,
            c_nar_hash: nar_hash,
            c_nar_size: nar.size,
            c_file_hash: file_hash(file.digest.as_slice()),
            c_file_size: file.size,
            c_references: references,
            c_deriver: deriver,
            c_sig: sig,
        },
    )
}

/// What is uploaded for a store path.
#[derive(Debug)]
pub struct Prepared {
    pub compressed: Vec<u8>,
    pub narinfo: NarInfoCreate,
}

/// What a push of a store path uploads, from its NAR and from what became of its
/// compression.
pub fn prepare(
    store_path: &str,
    nar_data: &[u8],
    compressed: Result<Vec<u8>, CompressError>,
    path_info: &PathInfo,
    credential: &PushCredential,
    omit_deriver: bool,
) -> (r: Result<Prepared, PushError>)
    ensures
        match compressed {
            Err(e) => r == Err::<Prepared, PushError>(PushError::Compress(e)),
            Ok(data) => {
                &&& r is Ok <==> publishable(store_path@, credential.key_text())
                &&& match r {
                    Ok(push) => {
                        &&& push.compressed == data
                        &&& push.narinfo@ == published(
                            store_path@,
                            (crypto::sha256_digest(nar_data@), nar_data@.len() as u64),
                            (crypto::sha256_digest(data@), data@.len() as u64),
                            text::texts(path_info.references@),
                            text::opt_text(path_info.deriver),
                            omit_deriver,
                            credential.key_text(),
                        )
                    },
                    Err(e) => is_publish_error(store_path@, credential.key_text(), e),
                }
            },
        },
        r is Ok ==> (r->Ok_0.narinfo.c_sig is Some <==> credential is SigningKey),
        r is Ok && credential is SigningKey ==> {
            let (name, seed) = sign::parsed_secret_key(credential->signing_key@)->0;
            exists|signature: Seq<u8>|
                {
                    &&& signature.len() == 64
                    &&& r->Ok_0.narinfo.c_sig->0@ == name + ":"@ + crypto::base64_text(signature)
                    &&& crypto::base64_bytes(crypto::base64_text(signature)) == Some(signature)
                    &&& #[trigger] crypto::ed25519_verifies(
                        crypto::ed25519_public_key(seed),
                        encode_utf8(
                            sign::fingerprint(
                                store_path@,
                                "sha256:"@ + base32::nix_base32(crypto::sha256_digest(nar_data@)),
                                nar_data@.len(),
                                text::texts(path_info.references@),
                            ),
                        ),
                        signature,
                    )
                }
        },
        r is Ok ==> {
            &&& store_path@ == "/nix/store/"@ + r->Ok_0.narinfo.c_store_hash@ + r->Ok_0.narinfo.c_store_suffix@
            &&& r->Ok_0.narinfo.c_store_hash@.len() == 32
            &&& r->Ok_0.narinfo.c_nar_hash@ == "sha256:"@ + base32::nix_base32(crypto::sha256_digest(nar_data@))
            &&& r->Ok_0.narinfo.c_nar_size == nar_data@.len()
            &&& r->Ok_0.narinfo.c_file_hash@ == "sha256:"@ + text::hex(crypto::sha256_digest(r->Ok_0.compressed@))
            &&& r->Ok_0.narinfo.c_file_size == r->Ok_0.compressed@.len()
        },
{
    let compressed = match compressed {
        Ok(compressed) => compressed,
        Err(e) => return Err(PushError::Compress(e)),
    };
    let nar = Digested { digest: crypto::sha256(nar_data), size: nar_data.len() as u64 };
    let file = Digested {
        digest: crypto::sha256(compressed.as_slice()),
        size: compressed.len() as u64,
    };
    match build_narinfo(store_path, &nar, &file, path_info, credential, omit_deriver) {
        Ok(narinfo) => Ok(Prepared { compressed, narinfo }),
        Err(e) => Err(e),
    }
}

/// What a push of a store path uploads, from its NAR and its path info: the
/// compressed NAR, and what is published of it.
pub fn push_store_path(
    store_path: &str,
    nar_data: &[u8],
    path_info: &PathInfo,
    credential: &PushCredential,
    opts: &PushOptions,
) -> (r: Result<Prepared, PushError>)
    requires
        compress::takes_level(opts.compression_method, opts.compression_level),
    ensures
        r is Ok <==> publishable(store_path@, credential.key_text()),
        match r {
            Ok(push) => {
                &&& compress::compresses(
                    nar_data@,
                    opts.compression_method,
                    opts.compression_level,
                    push.compressed@,
                )
                &&& compress::contents(opts.compression_method, push.compressed@) == Some(nar_data@)
                &&& push.narinfo@ == published(
                    store_path@,
                    (crypto::sha256_digest(nar_data@), nar_data@.len() as u64),
                    (crypto::sha256_digest(push.compressed@), push.compressed@.len() as u64),
                    text::texts(path_info.references@),
                    text::opt_text(path_info.deriver),
                    opts.omit_deriver,
                    credential.key_text(),
                )
            },
            Err(e) => is_publish_error(store_path@, credential.key_text(), e),
        },
        r is Ok ==> (r->Ok_0.narinfo.c_sig is Some <==> credential is SigningKey),
        r is Ok && credential is SigningKey ==> {
            let (name, seed) = sign::parsed_secret_key(credential->signing_key@)->0;
            exists|signature: Seq<u8>|
                {
                    &&& signature.len() == 64
                    &&& r->Ok_0.narinfo.c_sig->0@ == name + ":"@ + crypto::base64_text(signature)
                    &&& crypto::base64_bytes(crypto::base64_text(signature)) == Some(signature)
                    &&& #[trigger] crypto::ed25519_verifies(
                        crypto::ed25519_public_key(seed),
                        encode_utf8(
                            sign::fingerprint(
                                store_path@,
                                "sha256:"@ + base32::nix_base32(crypto::sha256_digest(nar_data@)),
                                nar_data@.len(),
                                text::texts(path_info.references@),
                            ),
                        ),
                        signature,
                    )
                }
        },
        r is Ok ==> {
            &&& store_path@ == "/nix/store/"@ + r->Ok_0.narinfo.c_store_hash@ + r->Ok_0.narinfo.c_store_suffix@
            &&& r->Ok_0.narinfo.c_store_hash@.len() == 32
            &&& r->Ok_0.narinfo.c_nar_hash@ == "sha256:"@ + base32::nix_base32(crypto::sha256_digest(nar_data@))
            &&& r->Ok_0.narinfo.c_nar_size == nar_data@.len()
            &&& r->Ok_0.narinfo.c_file_hash@ == "sha256:"@ + text::hex(crypto::sha256_digest(r->Ok_0.compressed@))
            &&& r->Ok_0.narinfo.c_file_size == r->Ok_0.compressed@.len()
        },
{
    let compressed = compress::compress_nar(
        nar_data,
        &opts.compression_method,
        opts.compression_level,
    );
    prepare(store_path, nar_data, compressed, path_info, credential, opts.omit_deriver)
}

/// A reference that is a store path is published by its basename, and so is a
/// deriver that is not left out.
pub proof fn published_names(name: Seq<char>, references: Seq<Seq<char>>)
    requires
        references.contains("/nix/store/"@ + name),
    ensures
        reference_names(references).contains(name),
        deriver_name(false, Some("/nix/store/"@ + name)) == name,
    decreases references.len(),
{
    let path = "/nix/store/"@ + name;
    assert(path.subrange(0, "/nix/store/"@.len() as int) == "/nix/store/"@);
    assert(path.skip("/nix/store/"@.len() as int) == name);
    assert(sign::basename(path) == Some(name));
    let init = references.drop_last();
    let earlier = reference_names(init);
    let i = choose|i: int| 0 <= i < references.len() && references[i] == path;
    if i < init.len() {
        assert(init[i] == path);
        published_names(name, init);
        let k = choose|k: int| 0 <= k < earlier.len() && earlier[k] == name;
        assert(reference_names(references)[k] == name);
    } else {
        assert(reference_names(references)[earlier.len() as int] == name);
    }
}

/// What is published carries a signature exactly where there is a signing key: the name of
/// the key, a colon, and the signature of the fingerprint of this path, this NAR and these
/// references in base64.
pub proof fn published_signature(
    store_path: Seq<char>,
    nar: (Seq<u8>, u64),
    file: (Seq<u8>, u64),
    references: Seq<Seq<char>>,
    deriver: Option<Seq<char>>,
    omit_deriver: bool,
    name: Seq<char>,
    b64: Seq<char>,
    bytes: Seq<u8>,
)
    requires
        !name.contains(':'),
        crypto::base64_bytes(b64) == Some(bytes),
        bytes.len() == 64,
    ensures
        published(
            store_path,
            nar,
            file,
            references,
            deriver,
            omit_deriver,
            Some(name + ":"@ + b64),
        ).sig == Some(
            name + ":"@ + crypto::base64_text(
                crypto::ed25519_signature(
                    bytes.take(32),
                    encode_utf8(
                        sign::fingerprint(
                            store_path,
                            "sha256:"@ + base32::nix_base32(nar.0),
                            nar.1 as nat,
                            references,
                        ),
                    ),
                ),
            ),
        ),
        published(store_path, nar, file, references, deriver, omit_deriver, None).sig is None,
{
    sign::secret_key_is_name_and_bytes(name, b64, bytes);
}

/// What is published says of which path, which NAR and which file it is.
pub proof fn published_fields(
    hash: Seq<char>,
    suffix: Seq<char>,
    nar: (Seq<u8>, u64),
    file: (Seq<u8>, u64),
    references: Seq<Seq<char>>,
    deriver: Option<Seq<char>>,
    omit_deriver: bool,
    key: Option<Seq<char>>,
)
    requires
        hash.len() == 32,
        suffix.len() > 0,
    ensures
        ({
            let path = "/nix/store/"@ + hash + suffix;
            let all = published(path, nar, file, references, deriver, omit_deriver, key);
            &&& all.store_hash == hash
            &&& all.store_suffix == suffix
            &&& all.nar_hash == "sha256:"@ + base32::nix_base32(nar.0)
            &&& all.nar_size == nar.1
            &&& all.file_hash == "sha256:"@ + text::hex(file.0)
            &&& all.file_size == file.1
            &&& all.references == reference_names(references)
            &&& all.deriver == deriver_name(omit_deriver, deriver)
        }),
{
    sign::hash_and_suffix_of_store_path(hash, suffix);
}

/// The references are published one by one, in the order in which they are given: a store
/// path by its basename, anything else not at all.
pub proof fn references_one_by_one(
    first: Seq<Seq<char>>,
    second: Seq<Seq<char>>,
    name: Seq<char>,
    other: Seq<char>,
)
    requires
        !"/nix/store/"@.is_prefix_of(other),
    ensures
        reference_names(first + second) == reference_names(first) + reference_names(second),
        reference_names(seq!["/nix/store/"@ + name]) == seq![name],
        reference_names(seq![other]) == Seq::<Seq<char>>::empty(),
    decreases second.len(),
{
    let path = "/nix/store/"@ + name;
    sign::basename_follows_the_store(path, name);
    sign::basename_follows_the_store(other, name);
    assert(seq![path].drop_last() == Seq::<Seq<char>>::empty());
    assert(seq![other].drop_last() == Seq::<Seq<char>>::empty());
    let none = Seq::<Seq<char>>::empty();
    assert(reference_names(none) == none);
    assert(seq![path].last() == path && seq![other].last() == other);
    assert(reference_names(seq![path]) == none.push(name));
    assert(none.push(name) == seq![name]);
    if second.len() == 0 {
        assert(first + second == first);
        assert(reference_names(first) + reference_names(second) == reference_names(first));
    } else {
        references_one_by_one(first, second.drop_last(), name, other);
        assert((first + second).drop_last() == first + second.drop_last());
        assert((first + second).last() == second.last());
        assert(reference_names(first + second) == reference_names(first) + reference_names(
            second,
        ));
    }
}

/// The deriver is published by its basename, unless it is left out or is no store path.
pub proof fn deriver_is_a_basename(name: Seq<char>, other: Seq<char>)
    ensures
        deriver_name(false, Some("/nix/store/"@ + name)) == name,
        !"/nix/store/"@.is_prefix_of(other) ==> deriver_name(false, Some(other)).len() == 0,
        deriver_name(true, Some(other)).len() == 0,
        deriver_name(false, None).len() == 0,
        deriver_name(true, None).len() == 0,
{
    sign::basename_follows_the_store("/nix/store/"@ + name, name);
    sign::basename_follows_the_store(other, name);
}

/// A path below the store directory with a name of more than 32 characters can be published,
/// and no other; a key that is given has to be readable.
pub proof fn publishable_paths(name: Seq<char>, other: Seq<char>, key: Option<Seq<char>>)
    ensures
        publishable("/nix/store/"@ + name, None) <==> name.len() > 32,
        !"/nix/store/"@.is_prefix_of(other) ==> !publishable(other, key),
        publishable(other, key) <==> publishable(other, None) && (key is None
            || sign::parsed_secret_key(key->0) is Some),
{
    sign::basename_follows_the_store("/nix/store/"@ + name, name);
    sign::basename_follows_the_store(other, name);
}

/// A path that cannot be published is refused before a key that cannot be read.
pub proof fn path_is_refused_before_the_key(
    store_path: Seq<char>,
    key: Option<Seq<char>>,
    error: PushError,
)
    requires
        !publishable(store_path, key),
        is_publish_error(store_path, key, error),
    ensures
        !publishable(store_path, None) ==> error is StorePath && sign::is_store_path_error(
            store_path,
            error->StorePath_0,
        ),
        publishable(store_path, None) ==> key is Some && error is Sign
            && sign::is_secret_key_error(key->0, error->Sign_0),
{
}

/// The message of a push is that of what went wrong.
pub proof fn push_messages(
    compress: CompressError,
    store_path: StorePathError,
    sign: SignError,
)
    ensures
        PushError::Compress(compress).message_text() == compress.message_text(),
        PushError::StorePath(store_path).message_text() == store_path.message_text(),
        PushError::Sign(sign).message_text() == sign.message_text(),
        compress is Zstd ==> compress.message_text() == "zstd compression failed"@,
        compress is Xz ==> compress.message_text() == "xz compression failed"@,
        compress is XzFinish ==> compress.message_text() == "xz finish failed"@,
{
}

/// A digest stands beside its size.
pub proof fn digest_and_size(nar: Digested)
    ensures
        nar@ == (nar.digest@, nar.size),
{
}

}
