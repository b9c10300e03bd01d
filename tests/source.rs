use dist_source::source::{
    subdirectory_in, DirectUrl, GitLocator, NotDirectError, RemoteDistributionRef, Source,
    SourceError, VcsKind,
};
use dist_source::weburl::ParsedUrl;

fn url(text: &str) -> ParsedUrl {
    ParsedUrl::parse(text).unwrap()
}

fn plain_locator(u: ParsedUrl) -> Result<GitLocator, String> {
    GitLocator::new(u, None, None).map_err(|_| "not a git URL".to_string())
}

fn classify(text: &str) -> Result<Source, SourceError> {
    Source::from_url(url(text), plain_locator)
}

fn subdirectory(source: &Source) -> Option<String> {
    match source {
        Source::RegistryUrl(_) => None,
        Source::RemoteUrl(_, sub) | Source::Git(_, sub) => sub.clone(),
    }
}

#[test]
fn subdirectory_among_other_tokens() {
    let source = classify("https://example.com/pkg.tar.gz#a=1&subdirectory=pkg&b=2").unwrap();
    assert_eq!(subdirectory(&source), Some("pkg".to_string()));
    let source = classify("git+https://example.com/r.git#a=1&subdirectory=pkg&b=2").unwrap();
    assert_eq!(subdirectory(&source), Some("pkg".to_string()));
}

#[test]
fn first_subdirectory_token_wins() {
    let source = classify("https://example.com/pkg.tar.gz#subdirectory=x&subdirectory=y").unwrap();
    assert_eq!(subdirectory(&source), Some("x".to_string()));
}

#[test]
fn fragment_tokens() {
    assert_eq!(subdirectory_in("egg=foo"), None);
    assert_eq!(subdirectory_in(""), None);
    assert_eq!(subdirectory_in("subdirectory="), Some(String::new()));
    assert_eq!(subdirectory_in("egg=foo&subdirectory=a/b"), Some("a/b".to_string()));
    assert_eq!(subdirectory_in("xsubdirectory=a&&subdirectory=b"), Some("b".to_string()));
    assert_eq!(subdirectory_in("subdirectory"), None);
}

#[test]
fn no_fragment_no_subdirectory() {
    let source = classify("https://example.com/pkg.tar.gz").unwrap();
    assert_eq!(subdirectory(&source), None);
    let source = classify("https://example.com/pkg.tar.gz#egg=pkg").unwrap();
    assert_eq!(subdirectory(&source), None);
}

#[test]
fn git_prefix_gives_git_source() {
    match classify("git+https://example.com/r.git").unwrap() {
        Source::Git(g, sub) => {
            assert_eq!(g.url().as_str(), "https://example.com/r.git");
            assert_eq!(sub, None);
        }
        other => panic!("expected a Git source, got {:?}", other),
    }
}

#[test]
fn git_prefix_with_bad_remainder_fails() {
    assert!(ParsedUrl::parse("git+not a url").is_err());
    assert!(matches!(classify("git+https://"), Err(SourceError::UrlParse(_))));
}

#[test]
fn locator_refusal_is_reported() {
    let r = Source::from_url(url("git+https://example.com/r.git"), |_| Err("no".to_string()));
    assert!(matches!(r, Err(SourceError::VcsLocator(e)) if e == "no"));
}

#[test]
fn remote_url_kept_as_given() {
    match classify("https://example.com/pkg.tar.gz#subdirectory=dir").unwrap() {
        Source::RemoteUrl(u, sub) => {
            assert_eq!(u.as_str(), "https://example.com/pkg.tar.gz#subdirectory=dir");
            assert_eq!(sub, Some("dir".to_string()));
        }
        other => panic!("expected a remote source, got {:?}", other),
    }
}

#[test]
fn remote_round_trip_drops_other_fragment_text() {
    let source = classify("https://example.com/pkg.tar.gz#subdirectory=dir").unwrap();
    let back = source.into_url();
    assert_eq!(back.fragment(), Some("subdirectory=dir".to_string()));
    let source = classify("https://example.com/pkg.tar.gz#egg=pkg&subdirectory=dir").unwrap();
    let back = source.into_url();
    assert_eq!(back.as_str(), "https://example.com/pkg.tar.gz#subdirectory=dir");
    let source = classify("https://example.com/pkg.tar.gz#egg=pkg").unwrap();
    assert_eq!(source.into_url().as_str(), "https://example.com/pkg.tar.gz#egg=pkg");
}

#[test]
fn git_round_trip() {
    let source = classify("git+https://example.com/r.git#subdirectory=pkg").unwrap();
    assert_eq!(source.into_url().as_str(), "git+https://example.com/r.git#subdirectory=pkg");
    let source = classify("git+https://example.com/r.git").unwrap();
    assert_eq!(source.into_url().as_str(), "git+https://example.com/r.git");
}

#[test]
fn registry_file_url() {
    let r = Source::from_distribution(
        RemoteDistributionRef::Registry("https://files.example.com/a-1.0.tar.gz".to_string()),
        plain_locator,
    );
    match r.unwrap() {
        Source::RegistryUrl(u) => {
            assert_eq!(u.as_str(), "https://files.example.com/a-1.0.tar.gz");
            assert_eq!(Source::RegistryUrl(u).into_url().as_str(), "https://files.example.com/a-1.0.tar.gz");
        }
        other => panic!("expected a registry source, got {:?}", other),
    }
    let r = Source::from_distribution(RemoteDistributionRef::Registry("no url".to_string()), plain_locator);
    assert!(matches!(r, Err(SourceError::UrlParse(_))));
    let r = Source::from_distribution(
        RemoteDistributionRef::Url(url("https://example.com/x.whl")),
        plain_locator,
    );
    assert!(matches!(r, Ok(Source::RemoteUrl(_, None))));
}

#[test]
fn registry_source_is_not_direct() {
    let r = Source::RegistryUrl(url("https://files.example.com/a-1.0.tar.gz")).into_direct_url();
    assert!(matches!(r, Err(NotDirectError)));
}

#[test]
fn archive_record() {
    let source = classify("https://example.com/pkg.tar.gz#subdirectory=dir").unwrap();
    match source.into_direct_url().unwrap() {
        DirectUrl::ArchiveUrl { url, archive_info, subdirectory } => {
            assert_eq!(url, "https://example.com/pkg.tar.gz#subdirectory=dir");
            assert_eq!(archive_info.hash, None);
            assert_eq!(subdirectory, Some("dir".to_string()));
        }
        other => panic!("expected an archive record, got {:?}", other),
    }
}

#[test]
fn git_record_with_subdirectory() {
    let locator = GitLocator::new(
        url("https://example.com/r.git"),
        Some("main".to_string()),
        Some("0123abcd".to_string()),
    )
    .unwrap();
    let r = Source::Git(locator, Some("pkg".to_string())).into_direct_url().unwrap();
    match r {
        DirectUrl::VcsUrl { url, vcs_info, subdirectory } => {
            assert_eq!(url, "https://example.com/r.git");
            assert!(matches!(vcs_info.vcs, VcsKind::Git));
            assert_eq!(vcs_info.commit_id, Some("0123abcd".to_string()));
            assert_eq!(vcs_info.requested_revision, Some("main".to_string()));
            assert_eq!(subdirectory, Some("pkg".to_string()));
        }
        other => panic!("expected a VCS record, got {:?}", other),
    }
}

#[test]
fn git_record_unresolved() {
    let locator = GitLocator::new(url("https://example.com/r.git"), Some("v1".to_string()), None).unwrap();
    match Source::Git(locator, Some("pkg".to_string())).into_direct_url().unwrap() {
        DirectUrl::VcsUrl { vcs_info, subdirectory, .. } => {
            assert_eq!(vcs_info.commit_id, None);
            assert_eq!(vcs_info.requested_revision, Some("v1".to_string()));
            assert_eq!(subdirectory, Some("pkg".to_string()));
        }
        other => panic!("expected a VCS record, got {:?}", other),
    }
}
