//! The configuration file, and the credentials for a push.

use vstd::prelude::*;
use vstd::string::*;

use crate::text;

verus! {

/// Cachix configuration.
#[derive(Debug, Clone)]
pub struct Config {
    pub auth_token: Option<String>,
    pub hostname: String,
    pub binary_caches: Vec<BinaryCacheConfig>,
}

/// The secret key of a cache.
#[derive(Debug, Clone)]
pub struct BinaryCacheConfig {
    pub name: String,
    pub secret_key: String,
}

impl View for BinaryCacheConfig {
    type V = (Seq<char>, Seq<char>);

    open spec fn view(&self) -> (Seq<char>, Seq<char>) {
        (self.name@, self.secret_key@)
    }
}

/// The names and secret keys of configured caches.
pub open spec fn cache_keys(caches: Seq<BinaryCacheConfig>) -> Seq<(Seq<char>, Seq<char>)> {
    caches.map_values(|c: BinaryCacheConfig| c@)
}

/// The key of the first cache with the given name.
pub open spec fn key_in(caches: Seq<(Seq<char>, Seq<char>)>, name: Seq<char>) -> Option<Seq<char>>
    decreases caches.len(),
{
    if caches.len() == 0 {
        None
    } else if caches[0].0 == name {
        Some(caches[0].1)
    } else {
        key_in(caches.drop_first(), name)
    }
}

/// The caches with the key of the first of the given name replaced, or with a new
/// cache at the end where none has that name.
pub open spec fn set_key_in(
    caches: Seq<(Seq<char>, Seq<char>)>,
    name: Seq<char>,
    key: Seq<char>,
) -> Seq<(Seq<char>, Seq<char>)>
    decreases caches.len(),
{
    if caches.len() == 0 {
        seq![(name, key)]
    } else if caches[0].0 == name {
        seq![(name, key)] + caches.drop_first()
    } else {
        seq![caches[0]] + set_key_in(caches.drop_first(), name, key)
    }
}

/// The position of the first cache with the given name decides what `key_in` and
/// `set_key_in` give.
proof fn lemma_first_named(
    caches: Seq<(Seq<char>, Seq<char>)>,
    name: Seq<char>,
    key: Seq<char>,
    n: int,
)
    requires
        0 <= n <= caches.len(),
        forall|i: int| 0 <= i < n ==> (#[trigger] caches[i]).0 != name,
        n < caches.len() ==> caches[n].0 == name,
    ensures
        key_in(caches, name) == if n < caches.len() {
            Some(caches[n].1)
        } else {
            None
        },
        set_key_in(caches, name, key) == if n < caches.len() {
            caches.update(n, (name, key))
        } else {
            caches.push((name, key))
        },
    decreases n,
{
    if n > 0 {
        let rest = caches.drop_first();
        assert forall|i: int| 0 <= i < n - 1 implies (#[trigger] rest[i]).0 != name by {
            assert(rest[i] == caches[i + 1]);
        }
        lemma_first_named(rest, name, key, n - 1);
    }
}

/// The host of the service.
fn default_hostname() -> (r: String)
    ensures
        r@ == "https://cachix.org"@,
{
    "https://cachix.org".to_string()
}

impl Default for Config {
    fn default() -> (r: Config)
        ensures
            r.auth_token is None,
            r.hostname@ == "https://cachix.org"@,
            r.binary_caches@.len() == 0,
    {
        Config { auth_token: None, hostname: default_hostname(), binary_caches: Vec::new() }
    }
}

impl Config {
    /// The configuration that is stored, or the default one where none is.
    pub fn load(stored: Option<Config>) -> (r: Config)
        ensures
            match stored {
                Some(config) => r == config,
                None => {
                    &&& r.auth_token is None
                    &&& r.hostname@ == "https://cachix.org"@
                    &&& r.binary_caches@.len() == 0
                },
            },
    {
        match stored {
            Some(config) => config,
            None => Config::default(),
        }
    }

    /// Set the auth token.
    pub fn set_auth_token(&mut self, token: String)
        ensures
            final(self).auth_token == Some(token),
            final(self).hostname == old(self).hostname,
            final(self).binary_caches == old(self).binary_caches,
    {
        self.auth_token = Some(token);
    }

    /// The position of the first cache with the given name, or the number of caches.
    fn position(&self, cache_name: &str) -> (r: usize)
        ensures
            r <= self.binary_caches@.len(),
            forall|i: int|
                0 <= i < r ==> (#[trigger] cache_keys(self.binary_caches@)[i]).0 != cache_name@,
            r < self.binary_caches@.len() ==> cache_keys(self.binary_caches@)[r as int].0
                == cache_name@,
    {
        let mut i: usize = 0;
        while i < self.binary_caches.len()
            invariant
                i <= self.binary_caches@.len(),
                forall|j: int|
                    0 <= j < i ==> (#[trigger] cache_keys(self.binary_caches@)[j]).0
                        != cache_name@,
            decreases self.binary_caches@.len() - i,
        {
            if text::same_text(self.binary_caches[i].name.as_str(), cache_name) {
                return i;
            }
            i = i + 1;
        }
        i
    }

    /// Get the secret key for a given cache name.
    pub fn get_secret_key(&self, cache_name: &str) -> (r: Option<&str>)
        ensures
            text::opt_str(r) == key_in(cache_keys(self.binary_caches@), cache_name@),
    {
        let i: usize = self.position(cache_name);
        proof {
            lemma_first_named(
                cache_keys(self.binary_caches@),
                cache_name@,
                Seq::empty(),
                i as int,
            );
        }
        if i < self.binary_caches.len() {
            Some(self.binary_caches[i].secret_key.as_str())
        } else {
            None
        }
    }

    /// Set or update the secret key for a given cache name.
    pub fn set_secret_key(&mut self, cache_name: &str, secret_key: &str)
        ensures
            cache_keys(final(self).binary_caches@) == set_key_in(
                cache_keys(old(self).binary_caches@),
                cache_name@,
                secret_key@,
            ),
            final(self).auth_token == old(self).auth_token,
            final(self).hostname == old(self).hostname,
    {
        let i: usize = self.position(cache_name);
        let ghost before = cache_keys(self.binary_caches@);
        proof {
            lemma_first_named(before, cache_name@, secret_key@, i as int);
        }
        let entry = BinaryCacheConfig {
            name: cache_name.to_string(),
            secret_key: secret_key.to_string(),
        };
        if i < self.binary_caches.len() {
            self.binary_caches.set(i, entry);
            assert(cache_keys(self.binary_caches@) == before.update(
                i as int,
                (cache_name@, secret_key@),
            ));
        } else {
            self.binary_caches.push(entry);
            assert(cache_keys(self.binary_caches@) == before.push((cache_name@, secret_key@)));
        }
    }
}

/// A key that was set is the key that is found.
pub proof fn key_after_set(caches: Seq<(Seq<char>, Seq<char>)>, name: Seq<char>, key: Seq<char>)
    ensures
        key_in(set_key_in(caches, name, key), name) == Some(key),
    decreases caches.len(),
{
    let after = set_key_in(caches, name, key);
    if caches.len() > 0 && caches[0].0 != name {
        key_after_set(caches.drop_first(), name, key);
        assert(after.drop_first() == set_key_in(caches.drop_first(), name, key));
    }
}

/// The keys of other caches stay when a key is set.
pub proof fn set_key_keeps_others(
    caches: Seq<(Seq<char>, Seq<char>)>,
    name: Seq<char>,
    key: Seq<char>,
    other: Seq<char>,
)
    requires
        other != name,
    ensures
        key_in(set_key_in(caches, name, key), other) == key_in(caches, other),
    decreases caches.len(),
{
    let after = set_key_in(caches, name, key);
    if caches.len() == 0 {
        assert(after.drop_first() == caches);
    } else if caches[0].0 == name {
        assert(after.drop_first() == caches.drop_first());
    } else {
        set_key_keeps_others(caches.drop_first(), name, key, other);
        assert(after.drop_first() == set_key_in(caches.drop_first(), name, key));
    }
}

/// A key that is set twice is the key that was set last, in the same place.
pub proof fn set_key_twice(
    caches: Seq<(Seq<char>, Seq<char>)>,
    name: Seq<char>,
    first: Seq<char>,
    second: Seq<char>,
)
    ensures
        set_key_in(set_key_in(caches, name, first), name, second) == set_key_in(
            caches,
            name,
            second,
        ),
    decreases caches.len(),
{
    let after = set_key_in(caches, name, first);
    if caches.len() == 0 {
        assert(after.drop_first() == caches);
        assert(set_key_in(after, name, second) == seq![(name, second)]);
    } else if caches[0].0 == name {
        assert(after.drop_first() == caches.drop_first());
    } else {
        set_key_twice(caches.drop_first(), name, first, second);
        assert(after.drop_first() == set_key_in(caches.drop_first(), name, first));
    }
}

/// Push credentials.
#[derive(Debug, Clone)]
pub enum PushCredential {
    /// Auth token + signing key (signs NARs locally).
    SigningKey { auth_token: Option<String>, signing_key: String },
    /// Auth token only (server-side signing).
    Token(String),
}

impl PushCredential {
    /// The text of the auth token.
    pub open spec fn token_text(self) -> Option<Seq<char>> {
        match self {
            PushCredential::SigningKey { auth_token, .. } => text::opt_text(auth_token),
            PushCredential::Token(token) => Some(token@),
        }
    }

    /// The text of the signing key.
    pub open spec fn key_text(self) -> Option<Seq<char>> {
        match self {
            PushCredential::SigningKey { signing_key, .. } => Some(signing_key@),
            PushCredential::Token(_) => None,
        }
    }

    pub fn auth_token(&self) -> (r: Option<&str>)
        ensures
            text::opt_str(r) == self.token_text(),
    {
        match self {
            PushCredential::SigningKey { auth_token, .. } => match auth_token {
                Some(token) => Some(token.as_str()),
                None => None,
            },
            PushCredential::Token(token) => Some(token.as_str()),
        }
    }

    pub fn signing_key(&self) -> (r: Option<&str>)
        ensures
            text::opt_str(r) == self.key_text(),
    {
        match self {
            PushCredential::SigningKey { signing_key, .. } => Some(signing_key.as_str()),
            PushCredential::Token(_) => None,
        }
    }
}

/// There is neither a signing key nor an auth token for the named cache.
#[derive(Debug)]
pub struct NoCredentials {
    pub cache_name: String,
}

impl NoCredentials {
    /// The message for the user.
    pub fn message(&self) -> (r: String)
        ensures
            r@ == "No credentials found for cache '"@ + self.cache_name@
                + "'. Set CACHIX_AUTH_TOKEN or CACHIX_SIGNING_KEY, or run 'cachix authtoken' to configure."@,
    {
        let mut r = "No credentials found for cache '".to_string();
        r.append(self.cache_name.as_str());
        r.append(
            "'. Set CACHIX_AUTH_TOKEN or CACHIX_SIGNING_KEY, or run 'cachix authtoken' to configure.",
        );
        r
    }
}

/// The first of two texts that is there.
pub open spec fn first_of(a: Option<Seq<char>>, b: Option<Seq<char>>) -> Option<Seq<char>> {
    if a is Some {
        a
    } else {
        b
    }
}

/// Resolve push credentials from the values of `CACHIX_SIGNING_KEY` and
/// `CACHIX_AUTH_TOKEN`, and from the configuration where they are not set.
pub fn resolve_push_credential(
    config: &Config,
    cache_name: &str,
    env_signing_key: Option<String>,
    env_auth_token: Option<String>,
) -> (r: Result<PushCredential, NoCredentials>)
    ensures
        ({
            let key = first_of(
                text::opt_text(env_signing_key),
                key_in(cache_keys(config.binary_caches@), cache_name@),
            );
            let token = first_of(
                text::opt_text(env_auth_token),
                text::opt_text(config.auth_token),
            );
            match r {
                Ok(credential) => {
                    &&& key is Some || token is Some
                    &&& credential.key_text() == key
                    &&& credential.token_text() == token
                },
                Err(e) => key is None && token is None && e.cache_name@ == cache_name@,
            }
        }),
        env_signing_key is Some ==> r is Ok && r->Ok_0 is SigningKey && r->Ok_0->signing_key@
            == env_signing_key->0@,
        env_signing_key is None && key_in(cache_keys(config.binary_caches@), cache_name@) is Some
            ==> r is Ok && r->Ok_0 is SigningKey && r->Ok_0->signing_key@ == key_in(
            cache_keys(config.binary_caches@),
            cache_name@,
        )->0,
        r is Ok && r->Ok_0 is SigningKey ==> text::opt_text(r->Ok_0->auth_token) == if env_auth_token
            is Some {
            Some(env_auth_token->0@)
        } else {
            text::opt_text(config.auth_token)
        },
        r is Ok && r->Ok_0 is Token && env_auth_token is Some ==> r->Ok_0->Token_0@
            == env_auth_token->0@,
        r is Ok && r->Ok_0 is Token && env_auth_token is None ==> config.auth_token is Some
            && r->Ok_0->Token_0@ == config.auth_token->0@,
{
    let signing_key = match env_signing_key {
        Some(key) => Some(key),
        None => match config.get_secret_key(cache_name) {
            Some(key) => Some(key.to_string()),
            None => None,
        },
    };
    let auth_token = match env_auth_token {
        Some(token) => Some(token),
        None => match &config.auth_token {
            Some(token) => Some(token.clone()),
            None => None,
        },
    };
    match signing_key {
        Some(signing_key) => Ok(PushCredential::SigningKey { auth_token, signing_key }),
        None => match auth_token {
            Some(token) => Ok(PushCredential::Token(token)),
            None => Err(NoCredentials { cache_name: cache_name.to_string() }),
        },
    }
}

/// The secret key of a cache is that of the first entry with its name. To set it changes that
/// entry and no other, and where there is none, adds one at the end.
pub proof fn first_entry_of_a_cache_counts(
    before: Seq<(Seq<char>, Seq<char>)>,
    name: Seq<char>,
    old_key: Seq<char>,
    behind: Seq<(Seq<char>, Seq<char>)>,
    key: Seq<char>,
)
    requires
        forall|i: int| 0 <= i < before.len() ==> (#[trigger] before[i]).0 != name,
    ensures
        key_in(before, name) is None,
        set_key_in(before, name, key) == before.push((name, key)),
        key_in(before + seq![(name, old_key)] + behind, name) == Some(old_key),
        set_key_in(before + seq![(name, old_key)] + behind, name, key) == before + seq![
            (name, key),
        ] + behind,
{
    let n = before.len() as int;
    let all = before + seq![(name, old_key)] + behind;
    lemma_first_named(before, name, key, n);
    assert forall|i: int| 0 <= i < n implies (#[trigger] all[i]).0 != name by {
        assert(all[i] == before[i]);
    }
    assert(all[n] == (name, old_key));
    lemma_first_named(all, name, key, n);
    assert(all.update(n, (name, key)) == before + seq![(name, key)] + behind);
}

/// A value of the environment counts before one of the configuration.
pub proof fn environment_counts_first(a: Seq<char>, b: Option<Seq<char>>)
    ensures
        first_of(Some(a), b) == Some(a),
        first_of(None, b) == b,
{
}

/// A credential with a signing key holds that key, and its token where there is one; one
/// with a token alone holds no key.
pub proof fn credentials_hold_what_was_given(
    auth_token: Option<String>,
    signing_key: String,
    token: String,
)
    ensures
        (PushCredential::SigningKey { auth_token, signing_key }).key_text() == Some(signing_key@),
        (PushCredential::SigningKey { auth_token, signing_key }).token_text() == match auth_token {
            Some(token) => Some(token@),
            None => None,
        },
        PushCredential::Token(token).key_text() is None,
        PushCredential::Token(token).token_text() == Some(token@),
{
}

/// The caches of a configuration are known by their names and keys, each in its place.
pub proof fn caches_have_their_keys(caches: Seq<BinaryCacheConfig>, i: int)
    requires
        0 <= i < caches.len(),
    ensures
        cache_keys(caches).len() == caches.len(),
        cache_keys(caches)[i] == (caches[i].name@, caches[i].secret_key@),
{
}

}
