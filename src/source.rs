//! Where a distribution's artifact lives: a registry file, a remote archive, or
//! a Git checkout; read off a URL, and written back as a URL or as a direct-URL
//! provenance record.

use vstd::prelude::*;
use crate::weburl::{ParsedUrl, UrlError, url_fragment, url_parse, url_with_fragment};

verus! {

/// The key of the fragment token that names a subdirectory, with its `=`.
pub open spec fn subdirectory_key() -> Seq<char> {
    "subdirectory="@
}

/// The length of the first `&`-separated token of `f`.
pub open spec fn first_token_len(f: Seq<char>) -> nat
    decreases f.len(),
{
    if f.len() == 0 || f[0] == '&' {
        0
    } else {
        1 + first_token_len(f.drop_first())
    }
}

/// The subdirectory that a fragment names: the value of its first `&`-separated
/// token whose key is `subdirectory`, taken verbatim; `None` if no token has it.
pub open spec fn subdirectory_of(f: Seq<char>) -> Option<Seq<char>>
    decreases f.len(),
{
    let n = first_token_len(f) as int;
    let token = f.take(n);
    if subdirectory_key().is_prefix_of(token) {
        Some(token.skip(subdirectory_key().len() as int))
    } else if n >= f.len() {
        None
    } else {
        subdirectory_of(f.skip(n + 1))
    }
}

/// The subdirectory that a URL names in its fragment; `None` without a fragment.
pub open spec fn url_subdirectory(u: Seq<char>) -> Option<Seq<char>> {
    match url_fragment(u) {
        Some(f) => subdirectory_of(f),
        None => None,
    }
}

/// The text after a leading `git+`, if the text has one.
pub open spec fn git_remainder(s: Seq<char>) -> Option<Seq<char>> {
    if "git+"@.is_prefix_of(s) {
        Some(s.skip(4))
    } else {
        None
    }
}

/// The characters of an optional string.
pub open spec fn opt_text(o: Option<String>) -> Option<Seq<char>> {
    match o {
        Some(s) => Some(s@),
        None => None,
    }
}

/// Whether `s`, from character `at` on, starts with `prefix`.
fn has_prefix_at(s: &str, at: usize, prefix: &str) -> (r: bool)
    requires
        at <= s@.len(),
    ensures
        r == prefix@.is_prefix_of(s@.skip(at as int)),
{
    let n = s.unicode_len();
    let m = prefix.unicode_len();
    if n - at < m {
        return false;
    }
    let mut i: usize = 0;
    while i < m
        invariant
            n == s@.len(),
            m == prefix@.len(),
            at + m <= n,
            i <= m,
            forall|j: int| 0 <= j < i ==> prefix@[j] == s@[at + j],
        decreases m - i,
    {
        if s.get_char(at + i) != prefix.get_char(i) {
            assert(s@.skip(at as int).subrange(0, m as int)[i as int] == s@[at + i]);
            return false;
        }
        i = i + 1;
    }
    assert(prefix@ =~= s@.skip(at as int).subrange(0, m as int));
    true
}

/// The subdirectory that a fragment names (see [`subdirectory_of`]).
pub fn subdirectory_in(fragment: &str) -> (r: Option<String>)
    ensures
        opt_text(r) == subdirectory_of(fragment@),
{
    let key = "subdirectory=";
    proof {
        reveal_strlit("subdirectory=");
        assert(key@.len() == 13);
    }
    let n = fragment.unicode_len();
    let mut start: usize = 0;
    assert(fragment@.skip(0) =~= fragment@);
    loop
        invariant
            n == fragment@.len(),
            start <= n,
            key@ == subdirectory_key(),
            key@.len() == 13,
            subdirectory_of(fragment@) == subdirectory_of(fragment@.skip(start as int)),
        decreases n + 1 - start,
    {
        let ghost rest = fragment@.skip(start as int);
        let mut end: usize = start;
        while end < n && fragment.get_char(end) != '&'
            invariant
                n == fragment@.len(),
                start <= end <= n,
                rest == fragment@.skip(start as int),
                first_token_len(rest) == (end - start) + first_token_len(fragment@.skip(end as int)),
            decreases n - end,
        {
            proof {
                assert(fragment@.skip(end as int).drop_first() =~= fragment@.skip(end + 1));
            }
            end = end + 1;
        }
        let ghost token = rest.take(end - start);
        proof {
            assert(first_token_len(fragment@.skip(end as int)) == 0);
            assert(first_token_len(rest) == end - start);
        }
        let is_key = end - start >= 13 && has_prefix_at(fragment, start, key);
        proof {
            if end - start >= 13 {
                assert(rest.subrange(0, 13) =~= token.subrange(0, 13));
            }
            assert(is_key == subdirectory_key().is_prefix_of(token));
        }
        if is_key {
            let value = fragment.substring_char(start + 13, end);
            proof {
                assert(value@ =~= token.skip(13));
            }
            return Some(value.to_string());
        }
        if end >= n {
            return None;
        }
        proof {
            assert(rest.skip((end - start) + 1) =~= fragment@.skip(end + 1));
        }
        start = end + 1;
    }
}


/// The text of an optional string, copied.
fn copy_opt(o: &Option<String>) -> (r: Option<String>)
    ensures
        opt_text(r) == opt_text(*o),
{
    match o {
        Some(s) => Some(s.clone()),
        None => None,
    }
}

/// A Git repository to check out: the repository URL, the reference that was asked
/// for, if any, and the revision that it was resolved to, if it was.
///
/// The locator also holds its URL with the `git+` prefix, parsed once when it is
/// made, so that writing a source back as a URL cannot fail.
#[derive(Debug)]
pub struct GitLocator {
    url: ParsedUrl,
    prefixed: ParsedUrl,
    reference: Option<String>,
    precise: Option<String>,
}

impl GitLocator {
    /// The repository URL.
    pub closed spec fn spec_url(&self) -> Seq<char> {
        self.url@
    }

    /// The repository URL with the `git+` prefix, as the `url` crate serializes it.
    pub closed spec fn spec_prefixed(&self) -> Seq<char> {
        self.prefixed@
    }

    /// The reference that was asked for.
    pub closed spec fn spec_reference(&self) -> Option<Seq<char>> {
        opt_text(self.reference)
    }

    /// The revision that the reference was resolved to.
    pub closed spec fn spec_precise(&self) -> Option<Seq<char>> {
        opt_text(self.precise)
    }

    /// Makes a locator; fails only where `git+` followed by the URL does not parse.
    pub fn new(url: ParsedUrl, reference: Option<String>, precise: Option<String>) -> (r: Result<
        GitLocator,
        UrlError,
    >)
        ensures
            r is Ok <==> url_parse("git+"@ + url@) is Some,
            r matches Ok(g) ==> {
                &&& g.spec_url() == url@
                &&& g.spec_prefixed() == url_parse("git+"@ + url@)->0
                &&& g.spec_reference() == opt_text(reference)
                &&& g.spec_precise() == opt_text(precise)
            },
    {
        let text = String::from_str("git+").concat(url.as_str());
        match ParsedUrl::parse(text.as_str()) {
            Ok(prefixed) => Ok(GitLocator { url, prefixed, reference, precise }),
            Err(e) => Err(e),
        }
    }

    /// The repository URL.
    pub fn url(&self) -> (r: &ParsedUrl)
        ensures
            r@ == self.spec_url(),
    {
        &self.url
    }

    /// The reference that was asked for.
    pub fn reference(&self) -> (r: Option<String>)
        ensures
            opt_text(r) == self.spec_reference(),
    {
        copy_opt(&self.reference)
    }

    /// The revision that the reference was resolved to.
    pub fn precise(&self) -> (r: Option<String>)
        ensures
            opt_text(r) == self.spec_precise(),
    {
        copy_opt(&self.precise)
    }
}

/// The source of a distribution.
#[derive(Debug)]
pub enum Source {
    /// The distribution is available at a URL in a registry, like PyPI.
    RegistryUrl(ParsedUrl),
    /// The distribution is available at an arbitrary remote URL, like a GitHub
    /// release, with the subdirectory of the archive that holds the project.
    RemoteUrl(ParsedUrl, Option<String>),
    /// The distribution is available in a remote Git repository, with the
    /// subdirectory of the checkout that holds the project.
    Git(GitLocator, Option<String>),
}

/// A distribution as the registry or the user named it.
#[derive(Debug)]
pub enum RemoteDistributionRef {
    /// A file of a registry, with the URL that the registry gives for it.
    Registry(String),
    /// A URL that the user gave.
    Url(ParsedUrl),
}

/// Why a distribution's source could not be read.
#[derive(Debug)]
pub enum SourceError {
    /// A text that should be a URL is not one.
    UrlParse(UrlError),
    /// The Git locator refused the repository URL.
    VcsLocator(String),
}

/// A registry source has no direct-URL record.
#[derive(Debug)]
pub struct NotDirectError;

/// How a distribution installed from a direct URL was obtained.
#[derive(Debug)]
pub enum DirectUrl {
    /// A remote archive.
    ArchiveUrl { url: String, archive_info: ArchiveInfo, subdirectory: Option<String> },
    /// A version-control checkout.
    VcsUrl { url: String, vcs_info: VcsInfo, subdirectory: Option<String> },
}

/// What is known of an archive's content; the hash is filled in elsewhere.
#[derive(Debug)]
pub struct ArchiveInfo {
    pub hash: Option<String>,
}

/// The version-control system of a checkout.
#[derive(Debug)]
pub enum VcsKind {
    Git,
    Hg,
    Bzr,
    Svn,
}

/// Which revision of a repository was checked out.
#[derive(Debug)]
pub struct VcsInfo {
    pub vcs: VcsKind,
    pub commit_id: Option<String>,
    pub requested_revision: Option<String>,
}

/// Whether `r` is what classifying the URL `url` gives, where `locate` builds
/// the Git locator from the repository URL.
pub open spec fn classified<F: FnOnce(ParsedUrl) -> Result<GitLocator, String>>(
    url: ParsedUrl,
    locate: F,
    r: Result<Source, SourceError>,
) -> bool {
    match git_remainder(url@) {
        None => r matches Ok(Source::RemoteUrl(u, sub)) && u@ == url@ && opt_text(sub) == url_subdirectory(url@),
        Some(rest) => match url_parse(rest) {
            None => r matches Err(SourceError::UrlParse(_)),
            Some(repository) => match r {
                Ok(Source::Git(g, sub)) => opt_text(sub) == url_subdirectory(url@) && exists|u: ParsedUrl|
                    u@ == repository && #[trigger] locate.ensures((u,), Ok::<GitLocator, String>(g)),
                Err(SourceError::VcsLocator(e)) => exists|u: ParsedUrl|
                    u@ == repository && #[trigger] locate.ensures((u,), Err::<GitLocator, String>(e)),
                _ => false,
            },
        },
    }
}

impl Source {
    /// Reads a URL: a `git+` prefix makes it a Git source, whose repository URL is
    /// the rest of the text and whose locator `locate` builds; any other URL is a
    /// remote archive, kept as it is. Either way the first `subdirectory=` token of
    /// the fragment names the subdirectory.
    pub fn from_url<F: FnOnce(ParsedUrl) -> Result<GitLocator, String>>(url: ParsedUrl, locate: F) -> (r: Result<Source, SourceError>)
        requires
            forall|u: ParsedUrl| locate.requires((u,)),
        ensures
            classified(url, locate, r),
    {
        let subdirectory = match url.fragment() {
            Some(f) => subdirectory_in(f.as_str()),
            None => None,
        };
        proof {
            reveal_strlit("git+");
        }
        let text = url.as_str();
        let n = text.unicode_len();
        let prefixed = has_prefix_at(text, 0, "git+");
        proof {
            assert(text@.skip(0) =~= text@);
        }
        if prefixed {
            let rest = text.substring_char(4, n);
            proof {
                assert(rest@ =~= text@.skip(4));
            }
            match ParsedUrl::parse(rest) {
                Ok(repository) => {
                    let ghost repo = repository;
                    match locate(repository) {
                        Ok(g) => Ok(Source::Git(g, subdirectory)),
                        Err(e) => {
                            let ghost err = e;
                            let r = Err(SourceError::VcsLocator(e));
                            assert(r->Err_0->VcsLocator_0 == err);
                            assert(locate.ensures((repo,), Err::<GitLocator, String>(err)));
                            r
                        }
                    }
                }
                Err(e) => Err(SourceError::UrlParse(e)),
            }
        } else {
            Ok(Source::RemoteUrl(url, subdirectory))
        }
    }
}

/// The fragment that writes a subdirectory back into a URL.
pub open spec fn subdirectory_fragment(sub: Seq<char>) -> Seq<char> {
    subdirectory_key() + sub
}

/// The URL that a source is written back as.
pub open spec fn source_url(s: Source) -> Seq<char> {
    match s {
        Source::RegistryUrl(u) => u@,
        Source::RemoteUrl(u, None) => u@,
        Source::RemoteUrl(u, Some(sub)) => url_with_fragment(u@, subdirectory_fragment(sub@)),
        Source::Git(g, None) => g.spec_prefixed(),
        Source::Git(g, Some(sub)) => url_with_fragment(g.spec_prefixed(), subdirectory_fragment(sub@)),
    }
}

/// Whether a source's URL is short enough for a fragment to be written into it.
pub open spec fn source_url_fits(s: Source) -> bool {
    match s {
        Source::RemoteUrl(u, Some(_)) => u@.len() < 0x4000_0000,
        Source::Git(g, Some(_)) => g.spec_prefixed().len() < 0x4000_0000,
        _ => true,
    }
}

/// Whether `r` is the direct-URL record of `s`.
pub open spec fn direct_record(s: Source, r: Result<DirectUrl, NotDirectError>) -> bool {
    match s {
        Source::RegistryUrl(_) => r is Err,
        Source::RemoteUrl(u, sub) => r matches Ok(DirectUrl::ArchiveUrl { url, archive_info, subdirectory })
            && url@ == u@ && archive_info.hash is None && opt_text(subdirectory) == opt_text(sub),
        Source::Git(g, sub) => r matches Ok(DirectUrl::VcsUrl { url, vcs_info, subdirectory })
            && url@ == g.spec_url() && vcs_info.vcs is Git
            && opt_text(vcs_info.commit_id) == g.spec_precise()
            && opt_text(vcs_info.requested_revision) == g.spec_reference()
            && opt_text(subdirectory) == opt_text(sub),
    }
}

/// The fragment `subdirectory=<sub>`.
fn make_subdirectory_fragment(sub: &String) -> (r: String)
    ensures
        r@ == subdirectory_fragment(sub@),
{
    proof {
        reveal_strlit("subdirectory=");
    }
    String::from_str("subdirectory=").concat(sub.as_str())
}

impl Source {
    /// Reads a distribution reference: a registry file is a registry source at the
    /// file's URL; a URL is read as [`Source::from_url`] does.
    pub fn from_distribution<F: FnOnce(ParsedUrl) -> Result<GitLocator, String>>(
        reference: RemoteDistributionRef,
        locate: F,
    ) -> (r: Result<Source, SourceError>)
        requires
            forall|u: ParsedUrl| locate.requires((u,)),
        ensures
            match reference {
                RemoteDistributionRef::Registry(file_url) => match url_parse(file_url@) {
                    Some(t) => r matches Ok(Source::RegistryUrl(u)) && u@ == t,
                    None => r matches Err(SourceError::UrlParse(_)),
                },
                RemoteDistributionRef::Url(url) => classified(url, locate, r),
            },
    {
        match reference {
            RemoteDistributionRef::Registry(file_url) => match ParsedUrl::parse(file_url.as_str()) {
                Ok(u) => Ok(Source::RegistryUrl(u)),
                Err(e) => Err(SourceError::UrlParse(e)),
            },
            RemoteDistributionRef::Url(url) => Source::from_url(url, locate),
        }
    }

    /// Writes the source back as a URL. A registry URL comes back as it is. A remote
    /// URL comes back as it is without a subdirectory; with one, its fragment is
    /// replaced by `subdirectory=<path>`, so any other fragment text is lost. A Git
    /// source comes back as its `git+` URL, with that fragment if it has a
    /// subdirectory.
    pub fn into_url(self) -> (r: ParsedUrl)
        requires
            source_url_fits(self),
        ensures
            r@ == source_url(self),
    {
        match self {
            Source::RegistryUrl(u) => u,
            Source::RemoteUrl(u, subdirectory) => match subdirectory {
                Some(sub) => u.with_fragment(make_subdirectory_fragment(&sub).as_str()),
                None => u,
            },
            Source::Git(g, subdirectory) => match subdirectory {
                Some(sub) => g.prefixed.with_fragment(make_subdirectory_fragment(&sub).as_str()),
                None => g.prefixed,
            },
        }
    }

    /// The direct-URL record of the source: an archive record for a remote URL, a
    /// Git record for a Git source; a registry source has none.
    pub fn into_direct_url(self) -> (r: Result<DirectUrl, NotDirectError>)
        ensures
            direct_record(self, r),
    {
        match self {
            Source::RegistryUrl(_) => Err(NotDirectError),
            Source::RemoteUrl(u, subdirectory) => Ok(DirectUrl::ArchiveUrl {
                url: u.to_text(),
                archive_info: ArchiveInfo { hash: None },
                subdirectory,
            }),
            Source::Git(g, subdirectory) => Ok(DirectUrl::VcsUrl {
                url: g.url().to_text(),
                vcs_info: VcsInfo {
                    vcs: VcsKind::Git,
                    commit_id: g.precise(),
                    requested_revision: g.reference(),
                },
                subdirectory,
            }),
        }
    }
}

/// Whether `t` holds no `&`.
pub open spec fn no_ampersand(t: Seq<char>) -> bool {
    forall|i: int| 0 <= i < t.len() ==> t[i] != '&'
}

proof fn lemma_first_token_len_of_token(t: Seq<char>, rest: Seq<char>)
    requires
        no_ampersand(t),
    ensures
        first_token_len(t + seq!['&'] + rest) == t.len(),
    decreases t.len(),
{
    let f = t + seq!['&'] + rest;
    if t.len() > 0 {
        assert(f.drop_first() =~= t.drop_first() + seq!['&'] + rest);
        lemma_first_token_len_of_token(t.drop_first(), rest);
    } else {
        assert(f[0] == '&');
    }
}

/// A token without the `subdirectory` key is passed over: the fragment names the
/// subdirectory that the tokens after it name.
pub proof fn lemma_other_token_skipped(t: Seq<char>, rest: Seq<char>)
    requires
        no_ampersand(t),
        !subdirectory_key().is_prefix_of(t),
    ensures
        subdirectory_of(t + seq!['&'] + rest) == subdirectory_of(rest),
{
    let f = t + seq!['&'] + rest;
    lemma_first_token_len_of_token(t, rest);
    assert(f.take(t.len() as int) =~= t);
    assert(f.skip(t.len() as int + 1) =~= rest);
}

/// The first `subdirectory=` token decides: what follows it, another such token
/// included, is not read.
pub proof fn lemma_first_subdirectory_token_wins(value: Seq<char>, rest: Seq<char>)
    requires
        no_ampersand(value),
    ensures
        subdirectory_of(subdirectory_key() + value + seq!['&'] + rest) == Some(value),
{
    let t = subdirectory_key() + value;
    reveal_strlit("subdirectory=");
    assert(no_ampersand(t)) by {
        assert forall|i: int| 0 <= i < t.len() implies t[i] != '&' by {
            if i >= 13 {
                assert(t[i] == value[i - 13]);
            }
        }
    }
    let f = t + seq!['&'] + rest;
    assert(f =~= subdirectory_key() + value + seq!['&'] + rest);
    lemma_first_token_len_of_token(t, rest);
    assert(f.take(t.len() as int) =~= t);
    assert(t.subrange(0, 13) =~= subdirectory_key());
    assert(t.skip(13) =~= value);
}

/// In the fragment `a=1&subdirectory=pkg&b=2` the subdirectory is `pkg`: tokens
/// with other keys, before or after it, do not count.
pub proof fn lemma_subdirectory_among_other_tokens(url: ParsedUrl)
    requires
        url_fragment(url@) == Some("a=1&subdirectory=pkg&b=2"@),
    ensures
        url_subdirectory(url@) == Some("pkg"@),
{
    reveal_strlit("a=1&subdirectory=pkg&b=2");
    reveal_strlit("a=1");
    reveal_strlit("pkg");
    reveal_strlit("b=2");
    reveal_strlit("subdirectory=");
    let tail = subdirectory_key() + "pkg"@ + seq!['&'] + "b=2"@;
    assert("a=1&subdirectory=pkg&b=2"@ =~= "a=1"@ + seq!['&'] + tail);
    assert(!subdirectory_key().is_prefix_of("a=1"@));
    lemma_other_token_skipped("a=1"@, tail);
    lemma_first_subdirectory_token_wins("pkg"@, "b=2"@);
}

/// In the fragment `subdirectory=x&subdirectory=y` the subdirectory is `x`: the
/// first such token wins.
pub proof fn lemma_first_of_two_subdirectories(url: ParsedUrl)
    requires
        url_fragment(url@) == Some("subdirectory=x&subdirectory=y"@),
    ensures
        url_subdirectory(url@) == Some("x"@),
{
    reveal_strlit("subdirectory=x&subdirectory=y");
    reveal_strlit("subdirectory=y");
    reveal_strlit("x");
    reveal_strlit("subdirectory=");
    assert("subdirectory=x&subdirectory=y"@ =~= subdirectory_key() + "x"@ + seq!['&'] + "subdirectory=y"@);
    lemma_first_subdirectory_token_wins("x"@, "subdirectory=y"@);
}

} // verus!
