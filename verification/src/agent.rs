//! Composition and one-time caching of the User-Agent string
//! `"antigravity/<version> <os>/<arch>"`.

use vstd::prelude::*;

use crate::version::is_version_triple;

verus! {

/// The composed User-Agent text for a given version, operating system
/// and architecture.
pub open spec fn user_agent_spec(version: Seq<char>, os: Seq<char>, arch: Seq<char>) -> Seq<char> {
    "antigravity/"@ + version + " "@ + os + "/"@ + arch
}

/// Whitespace, in the sense the User-Agent shape forbids inside a token.
pub open spec fn is_whitespace(c: char) -> bool {
    c == ' ' || c == '\t' || c == '\n' || c == '\r'
}

/// A non-empty word with no embedded whitespace: the form required of
/// the platform's operating-system and architecture names.
pub open spec fn is_token(s: Seq<char>) -> bool {
    s.len() > 0 && forall|i: int| 0 <= i < s.len() ==> !is_whitespace(#[trigger] s[i])
}

/// The shape of a well-formed User-Agent string: the product literal and
/// a slash, then a version triple, a space, and two non-empty
/// whitespace-free tokens separated by a slash.
pub open spec fn user_agent_shape(s: Seq<char>) -> bool {
    exists|v: Seq<char>, os: Seq<char>, arch: Seq<char>|
        {
            &&& is_version_triple(v)
            &&& is_token(os)
            &&& is_token(arch)
            &&& s == #[trigger] user_agent_spec(v, os, arch)
        }
}

/// Composed from a version triple and two tokens, the User-Agent string
/// always has the shape `antigravity/X.Y.Z os/arch`.
pub proof fn lemma_user_agent_shape(version: Seq<char>, os: Seq<char>, arch: Seq<char>)
    requires
        is_version_triple(version),
        is_token(os),
        is_token(arch),
    ensures
        user_agent_shape(user_agent_spec(version, os, arch)),
{
}

/// Provenance of the version number carried by the User-Agent string.
#[derive(Clone, Copy, Debug, PartialEq, Eq, Structural)]
pub enum VersionSource {
    Remote,
    CargoToml,
}

/// Yields the version the User-Agent will carry, with its provenance.
/// The remote updater endpoint is deliberately not consulted: it may
/// answer with an older version and cause upstream services to reject
/// requests made with it, so the compile-time fallback the caller
/// supplies is always used.
pub fn fetch_remote_version(fallback: &str) -> (r: (String, VersionSource))
    ensures
        r.0@ == fallback@,
        r.1 == VersionSource::CargoToml,
{
    (String::from_str(fallback), VersionSource::CargoToml)
}

/// Composes `"antigravity/<version> <os>/<arch>"`.
pub fn build_user_agent(version: &str, os: &str, arch: &str) -> (r: String)
    ensures
        r@ == user_agent_spec(version@, os@, arch@),
        is_version_triple(version@) && is_token(os@) && is_token(arch@) ==> user_agent_shape(
            r@,
        ),
{
    let mut s = String::from_str("antigravity/");
    s.append(version);
    s.append(" ");
    s.append(os);
    s.append("/");
    s.append(arch);
    proof {
        assert(s@ =~= user_agent_spec(version@, os@, arch@));
        if is_version_triple(version@) && is_token(os@) && is_token(arch@) {
            lemma_user_agent_shape(version@, os@, arch@);
        }
    }
    s
}

/// The User-Agent value, computed once: the first `get_or_init` resolves
/// and stores it, every later call returns the stored string unchanged.
pub struct UserAgentCache {
    value: Option<String>,
}

impl UserAgentCache {
    /// The cached text, if the value has been computed.
    pub closed spec fn cached(self) -> Option<Seq<char>> {
        match self.value {
            Some(s) => Some(s@),
            None => None,
        }
    }

    /// A fresh cache holds nothing.
    pub fn new() -> (r: Self)
        ensures
            r.cached() is None,
    {
        UserAgentCache { value: None }
    }

    /// Whether the value has been computed and stored.
    pub fn is_initialized(&self) -> (r: bool)
        ensures
            r == (self.cached() is Some),
    {
        self.value.is_some()
    }

    /// On the first call, resolves the version (the remote stub falls
    /// through to `fallback`), composes the User-Agent string and stores
    /// it. Every later call returns the stored string and changes
    /// nothing, whatever arguments it is given.
    pub fn get_or_init(&mut self, fallback: &str, os: &str, arch: &str) -> (r: String)
        ensures
            final(self).cached() == Some(r@),
            match old(self).cached() {
                Some(v) => r@ == v && *final(self) == *old(self),
                None => r@ == user_agent_spec(fallback@, os@, arch@),
            },
    {
        match &self.value {
            Some(s) => s.clone(),
            None => {
                let resolved = fetch_remote_version(fallback);
                let ua = build_user_agent(resolved.0.as_str(), os, arch);
                self.value = Some(ua.clone());
                ua
            },
        }
    }
}

} // verus!
