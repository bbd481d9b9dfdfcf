//! Image references: `registry/repository[:tag|@digest]`.
use vstd::prelude::*;

use crate::text::{
    find_char, first_index, has_char, lemma_first_index, lemma_first_index_concat, str_eq,
};

verus! {

/// The registry that references name when they give none (or give its `docker.io` alias).
pub const DOCKER_REGISTRY: &'static str = "registry.hub.docker.com";

/// A reference to an image in a registry.
#[derive(Debug, Default)]
pub struct ImageReference {
    /// The registry the image is on, `registry.hub.docker.com` unless another is named.
    pub registry: String,
    /// The repository the image is in, e.g. `library/ubuntu`.
    pub repository: String,
    /// An image tag, e.g. `22.04`.
    pub tag: Option<String>,
    /// An image digest, e.g. `sha256:e07ee1baac5f...`; takes precedence over `tag`.
    pub digest: Option<String>,
}

/// The parts of an image reference as character sequences.
pub struct ReferenceView {
    pub registry: Seq<char>,
    pub repository: Seq<char>,
    pub tag: Option<Seq<char>>,
    pub digest: Option<Seq<char>>,
}

pub open spec fn opt_view(o: Option<String>) -> Option<Seq<char>> {
    match o {
        Some(s) => Some(s@),
        None => None,
    }
}

impl View for ImageReference {
    type V = ReferenceView;

    open spec fn view(&self) -> ReferenceView {
        ReferenceView {
            registry: self.registry@,
            repository: self.repository@,
            tag: opt_view(self.tag),
            digest: opt_view(self.digest),
        }
    }
}

/// Whether the first path component of a reference names a registry host.
pub open spec fn is_registry_host(first: Seq<char>) -> bool {
    first == "localhost"@ || first.contains('.') || first.contains(':')
}

/// The registry and the rest of a reference string.
pub open spec fn split_registry(s: Seq<char>) -> (Seq<char>, Seq<char>) {
    let slash = first_index(s, '/');
    if slash >= 0 && is_registry_host(s.subrange(0, slash)) {
        let first = s.subrange(0, slash);
        let registry = if first == "docker.io"@ {
            DOCKER_REGISTRY@
        } else {
            first
        };
        (registry, s.subrange(slash + 1, s.len() as int))
    } else {
        (DOCKER_REGISTRY@, s)
    }
}

/// The name, tag and digest in what follows the registry: split at the first `@`
/// (a digest), else at the first `:` (a tag).
pub open spec fn split_name(rest: Seq<char>) -> (Seq<char>, Option<Seq<char>>, Option<Seq<char>>) {
    let at = first_index(rest, '@');
    let colon = first_index(rest, ':');
    if at >= 0 {
        (rest.subrange(0, at), None, Some(rest.subrange(at + 1, rest.len() as int)))
    } else if colon >= 0 {
        (rest.subrange(0, colon), Some(rest.subrange(colon + 1, rest.len() as int)), None)
    } else {
        (rest, None, None)
    }
}

/// The reference that a string denotes.
pub open spec fn parse_reference(s: Seq<char>) -> ReferenceView {
    let (registry, rest) = split_registry(s);
    let (name, tag, digest) = split_name(rest);
    let repository = if registry == DOCKER_REGISTRY@ && !name.contains('/') {
        "library/"@ + name
    } else {
        name
    };
    ReferenceView { registry, repository, tag, digest }
}

/// The reference as `registry/repository:tag`, with `latest` for a missing tag.
pub open spec fn tag_or_latest_string(r: ReferenceView) -> Seq<char> {
    r.registry + "/"@ + r.repository + ":"@ + match r.tag {
        Some(t) => t,
        None => "latest"@,
    }
}

/// The reference as `registry/repository@digest` where it has a digest, else as
/// `tag_or_latest_string`.
pub open spec fn reference_string(r: ReferenceView) -> Seq<char> {
    match r.digest {
        Some(d) => r.registry + "/"@ + r.repository + "@"@ + d,
        None => tag_or_latest_string(r),
    }
}

impl ImageReference {
    /// Parses a reference string.
    ///
    /// The first path component is the registry only where it holds a `.` or a `:` or is
    /// `localhost`; `docker.io` stands for the default registry. A single-segment repository
    /// on the default registry gets the `library/` prefix.
    pub fn parse(s: &str) -> (r: ImageReference)
        ensures
            r@ == parse_reference(s@),
    {
        let n = s.unicode_len();
        let slash = find_char(s, '/');
        proof {
            lemma_first_index(s@, '/');
        }
        let mut registry = String::from_str(DOCKER_REGISTRY);
        let mut rest = s;
        if slash < n {
            let first = s.substring_char(0, slash);
            if str_eq(first, "localhost") || has_char(first, '.') || has_char(first, ':') {
                if !str_eq(first, "docker.io") {
                    registry = first.to_string();
                }
                rest = s.substring_char(slash + 1, n);
            }
        }
        let m = rest.unicode_len();
        let at = find_char(rest, '@');
        let colon = find_char(rest, ':');
        proof {
            lemma_first_index(rest@, '@');
            lemma_first_index(rest@, ':');
        }
        let name: &str;
        let mut tag: Option<String> = None;
        let mut digest: Option<String> = None;
        if at < m {
            name = rest.substring_char(0, at);
            digest = Some(rest.substring_char(at + 1, m).to_string());
        } else if colon < m {
            name = rest.substring_char(0, colon);
            tag = Some(rest.substring_char(colon + 1, m).to_string());
        } else {
            name = rest;
        }
        let default_registry = String::from_str(DOCKER_REGISTRY);
        let repository = if registry == default_registry && !has_char(name, '/') {
            let mut prefixed = String::from_str("library/");
            prefixed.append(name);
            prefixed
        } else {
            name.to_string()
        };
        ImageReference { registry, repository, tag, digest }
    }

    /// The digest, else the tag, else `latest`: what to pull for this reference.
    pub fn digest_or_tag_or_latest(&self) -> (r: String)
        ensures
            r@ == match self@.digest {
                Some(d) => d,
                None => match self@.tag {
                    Some(t) => t,
                    None => "latest"@,
                },
            },
    {
        match &self.digest {
            Some(d) => d.clone(),
            None => match &self.tag {
                Some(t) => t.clone(),
                None => String::from_str("latest"),
            },
        }
    }

    /// The tag, else `latest`: what to push this reference as.
    pub fn tag_or_latest(&self) -> (r: String)
        ensures
            r@ == match self@.tag {
                Some(t) => t,
                None => "latest"@,
            },
    {
        match &self.tag {
            Some(t) => t.clone(),
            None => String::from_str("latest"),
        }
    }

    /// The reference as `registry/repository:tag`, ignoring any digest.
    pub fn to_string_tag_or_latest(&self) -> (r: String)
        ensures
            r@ == tag_or_latest_string(self@),
    {
        let mut out = self.registry.clone();
        out.append("/");
        out.append(self.repository.as_str());
        out.append(":");
        match &self.tag {
            Some(t) => out.append(t.as_str()),
            None => out.append("latest"),
        }
        out
    }

    /// The reference as `registry/repository@digest`, or as `to_string_tag_or_latest`
    /// when there is no digest.
    pub fn to_string(&self) -> (r: String)
        ensures
            r@ == reference_string(self@),
    {
        match &self.digest {
            Some(d) => {
                let mut out = self.registry.clone();
                out.append("/");
                out.append(self.repository.as_str());
                out.append("@");
                out.append(d.as_str());
                out
            },
            None => self.to_string_tag_or_latest(),
        }
    }
}

/// Two references are equal when all four parts are.
impl PartialEq for ImageReference {
    fn eq(&self, other: &ImageReference) -> (r: bool) {
        self.registry == other.registry && self.repository == other.repository
            && opt_string_eq(&self.tag, &other.tag) && opt_string_eq(&self.digest, &other.digest)
    }
}

impl vstd::std_specs::cmp::PartialEqSpecImpl for ImageReference {
    open spec fn obeys_eq_spec() -> bool {
        true
    }

    open spec fn eq_spec(&self, other: &ImageReference) -> bool {
        self@ == other@
    }
}

fn opt_string_eq(a: &Option<String>, b: &Option<String>) -> (r: bool)
    ensures
        r == (opt_view(*a) == opt_view(*b)),
{
    match a {
        Some(x) => match b {
            Some(y) => {
                let same = *x == *y;
                assert(same ==> opt_view(*a) == opt_view(*b));
                same
            },
            None => false,
        },
        None => b.is_none(),
    }
}

/// The error of parsing a reference string. Every string parses, so none is produced.
#[derive(Debug, Clone, Copy, PartialEq, Eq)]
pub struct ParseError;

impl std::str::FromStr for ImageReference {
    type Err = ParseError;

    fn from_str(s: &str) -> Result<ImageReference, ParseError> {
        Ok(ImageReference::parse(s))
    }
}

/// A repository path whose first component names no registry host parses to the same
/// reference whether the registry is left out, written `docker.io`, or written
/// `registry.hub.docker.com`.
pub proof fn lemma_default_registry_spellings(path: Seq<char>)
    requires
        !(first_index(path, '/') >= 0 && is_registry_host(
            path.subrange(0, first_index(path, '/')),
        )),
    ensures
        parse_reference("docker.io/"@ + path) == parse_reference(path),
        parse_reference(DOCKER_REGISTRY@ + "/"@ + path) == parse_reference(path),
{
    reveal_strlit("docker.io/");
    reveal_strlit("docker.io");
    reveal_strlit("registry.hub.docker.com");
    reveal_strlit("/");
    let alias = "docker.io"@;
    let full = DOCKER_REGISTRY@;
    assert("docker.io/"@ =~= alias + "/"@);
    assert(alias[6] == '.');
    assert(full[8] == '.');
    assert(!alias.contains('/'));
    assert(!full.contains('/'));
    lemma_host_prefix(alias, path);
    lemma_host_prefix(full, path);
    assert(split_registry(alias + "/"@ + path) == split_registry(path));
    assert(split_registry(full + "/"@ + path) == split_registry(path));
}

/// `host/path` for a host without `/` that holds a `.` splits into that host and `path`.
proof fn lemma_host_prefix(host: Seq<char>, path: Seq<char>)
    requires
        !host.contains('/'),
        host.contains('.'),
    ensures
        split_registry(host + "/"@ + path) == (
            if host == "docker.io"@ {
                DOCKER_REGISTRY@
            } else {
                host
            },
            path,
        ),
{
    reveal_strlit("/");
    let s = host + "/"@ + path;
    assert(s =~= host + ("/"@ + path));
    lemma_first_index_concat(host, "/"@ + path, '/');
    lemma_first_index("/"@ + path, '/');
    assert(("/"@ + path)[0] == '/');
    assert(first_index("/"@ + path, '/') == 0);
    assert(s.subrange(0, host.len() as int) =~= host);
    assert(s.subrange(host.len() as int + 1, s.len() as int) =~= path);
}

/// A reference that names a registry host, whose repository holds no `@` or `:`
/// (and a `/` on the default registry), whose tag holds no `@`, and that has a tag or a
/// digest but not both, parses back from its string form.
#[verifier::rlimit(40)]
pub proof fn lemma_reference_round_trip(r: ReferenceView)
    requires
        is_registry_host(r.registry),
        !r.registry.contains('/'),
        r.registry != "docker.io"@,
        !r.repository.contains('@'),
        !r.repository.contains(':'),
        r.registry == DOCKER_REGISTRY@ ==> r.repository.contains('/'),
        r.tag.is_some() != r.digest.is_some(),
        r.tag matches Some(t) ==> !t.contains('@'),
    ensures
        parse_reference(reference_string(r)) == r,
{
    reveal_strlit("/");
    reveal_strlit("@");
    reveal_strlit(":");
    let s = reference_string(r);
    let (sep, tail) = match r.digest {
        Some(d) => ("@"@, d),
        None => (":"@, r.tag.unwrap()),
    };
    let rest = r.repository + sep + tail;
    assert(s =~= r.registry + ("/"@ + rest));
    lemma_first_index_concat(r.registry, "/"@ + rest, '/');
    lemma_first_index("/"@ + rest, '/');
    assert(("/"@ + rest)[0] == '/');
    assert(first_index("/"@ + rest, '/') == 0);
    assert(s.subrange(0, r.registry.len() as int) =~= r.registry);
    assert(s.subrange(r.registry.len() as int + 1, s.len() as int) =~= rest);
    assert(split_registry(s) == (r.registry, rest));
    assert(rest =~= r.repository + (sep + tail));
    lemma_first_index_concat(r.repository, sep + tail, '@');
    lemma_first_index_concat(r.repository, sep + tail, ':');
    lemma_first_index(sep + tail, '@');
    lemma_first_index(sep + tail, ':');
    assert((sep + tail)[0] == sep[0]);
    let n = r.repository.len() as int;
    assert(rest.subrange(0, n) =~= r.repository);
    assert(rest.subrange(n + 1, rest.len() as int) =~= tail);
    if r.digest.is_none() {
        assert forall|j: int| 0 <= j < rest.len() implies rest[j] != '@' by {
            if j < n {
                assert(rest[j] == r.repository[j]);
            } else if j > n {
                assert(rest[j] == tail[j - n - 1]);
            }
        }
        crate::text::lemma_first_index_none(rest, '@');
    }
}

} // verus!
