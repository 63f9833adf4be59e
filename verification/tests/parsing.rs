use runix::flake_ref::attributes::{AttrValue, AttributeError};
use runix::flake_ref::file::{FileRef, ParseFileError, TarballRef};
use runix::flake_ref::git::{GitRef, ParseGitError};
use runix::flake_ref::git_service::{GitServiceRef, ParseGitServiceError, Service};
use runix::flake_ref::indirect::{IndirectRef, ParseIndirectError};
use runix::flake_ref::path::{ParsePathRefError, PathRef};
use runix::flake_ref::protocol::Transport;
use runix::flake_ref::timestamp::{ParseTimeError, Timestamp};
use runix::flake_ref::{FlakeRef, FlakeRefSource, ParseFlakeRefError};

fn roundtrip_to(input: &str, output: &str) {
    let parsed = match FlakeRef::from_str(input) {
        Ok(parsed) => parsed,
        Err(e) => panic!("'{input}' should parse: {e:?}"),
    };
    assert_eq!(parsed.to_string(), output);
}

fn roundtrip(input: &str) {
    roundtrip_to(input, input)
}

#[test]
fn test_all_parsing() {
    assert!(matches!(
        FlakeRef::from_str("file+file:///somewhere/there").unwrap(),
        FlakeRef::FileFile(_)
    ));
    assert!(matches!(
        FlakeRef::from_str("file:///somewhere/there").unwrap(),
        FlakeRef::FileFile(_)
    ));
    assert!(matches!(
        FlakeRef::from_str("file+http://my.de/path/to/file").unwrap(),
        FlakeRef::FileHTTP(_)
    ));
    assert!(matches!(
        FlakeRef::from_str("http://my.de/path/to/file").unwrap(),
        FlakeRef::FileHTTP(_)
    ));
    assert!(matches!(
        FlakeRef::from_str("file+https://my.de/path/to/file").unwrap(),
        FlakeRef::FileHTTPS(_)
    ));
    assert!(matches!(
        FlakeRef::from_str("https://my.de/path/to/file").unwrap(),
        FlakeRef::FileHTTPS(_)
    ));
    assert!(matches!(
        FlakeRef::from_str("tarball+file:///somewhere/there").unwrap(),
        FlakeRef::TarballFile(_)
    ));
    assert!(matches!(
        FlakeRef::from_str("file:///somewhere/there.tar.gz").unwrap(),
        FlakeRef::TarballFile(_)
    ));
    assert!(matches!(
        FlakeRef::from_str("tarball+http://my.de/path/to/file").unwrap(),
        FlakeRef::TarballHTTP(_)
    ));
    assert!(matches!(
        FlakeRef::from_str("http://my.de/path/to/file.tar.gz").unwrap(),
        FlakeRef::TarballHTTP(_)
    ));
    assert!(matches!(
        FlakeRef::from_str("tarball+https://my.de/path/to/file").unwrap(),
        FlakeRef::TarballHTTPS(_)
    ));
    assert!(matches!(
        FlakeRef::from_str("https://my.de/path/to/file.tar.gz").unwrap(),
        FlakeRef::TarballHTTPS(_)
    ));
    assert!(matches!(
        FlakeRef::from_str("github:flox/runix").unwrap(),
        FlakeRef::Github(_)
    ));
    assert!(matches!(
        FlakeRef::from_str("gitlab:flox/runix").unwrap(),
        FlakeRef::Gitlab(_)
    ));
    assert!(matches!(
        FlakeRef::from_str("path:/somewhere/there").unwrap(),
        FlakeRef::Path(_)
    ));
    assert!(matches!(
        FlakeRef::from_str("git+file:///somewhere/there").unwrap(),
        FlakeRef::GitPath(_)
    ));
    assert!(matches!(
        FlakeRef::from_str("git+ssh://github.com/flox/runix").unwrap(),
        FlakeRef::GitSsh(_)
    ));
    assert!(matches!(
        FlakeRef::from_str("git+https://github.com/flox/runix").unwrap(),
        FlakeRef::GitHttps(_)
    ));
    assert!(matches!(
        FlakeRef::from_str("git+http://github.com/flox/runix").unwrap(),
        FlakeRef::GitHttp(_)
    ));
    assert!(matches!(
        FlakeRef::from_str("flake:nixpkgs").unwrap(),
        FlakeRef::Indirect(_)
    ));
}

#[test]
fn canonical_forms_round_trip() {
    roundtrip("file+file:///somewhere/there");
    roundtrip("file:///somewhere/there");
    roundtrip("file+http://my.de/path/to/file");
    roundtrip("http://my.de/path/to/file");
    roundtrip("file+https://my.de/path/to/file");
    roundtrip("https://my.de/path/to/file");
    roundtrip("tarball+file:///somewhere/there");
    roundtrip("file:///somewhere/there.tar.gz");
    roundtrip("tarball+http://my.de/path/to/file");
    roundtrip("http://my.de/path/to/file.tar.gz");
    roundtrip("tarball+https://my.de/path/to/file");
    roundtrip("https://my.de/path/to/file.tar.gz");
    roundtrip("github:flox/runix");
    roundtrip("gitlab:flox/runix");
    roundtrip("path:/somewhere/there");
    roundtrip("git+file:///somewhere/there");
    roundtrip("git+ssh://github.com/flox/runix");
    roundtrip("git+https://github.com/flox/runix");
    roundtrip("git+http://github.com/flox/runix");
    roundtrip("flake:nixpkgs");
}

#[test]
fn references_with_revisions_and_attributes_round_trip() {
    roundtrip("github:flox/runix/main");
    roundtrip("gitlab:flox/runix/v1.0?host=gitlab.example.org");
    roundtrip("flake:nixpkgs/release-23.05");
    roundtrip("path:./relative/dir?dir=sub");
    roundtrip("git+https://github.com/flox/runix?ref=main&rev=abc123&shallow=true&submodules=false");
    roundtrip("git+ssh://git@github.com/flox/runix?lastModified=1700000000");
    roundtrip("https://my.de/file.tar.gz?unknown=kept&dir=inner");
    roundtrip("file+file:///x?a=b=c");
}

#[test]
fn a_plain_spelling_is_kept_whatever_its_attributes() {
    for input in [
        "file+file:///x?a=1&b=2&c=3",
        "https://my.de/f?=",
        "git+http://h/r?ref=&rev==&x=?",
        "github:a/b/c?host=h&dir=d/e",
        "path:rel?shallow=true&submodules=true",
        "flake:a/b?c",
        "tarball+https://h/p?lastModified=0",
    ] {
        match FlakeRef::from_str(input) {
            Ok(parsed) => assert_eq!(parsed.to_string(), input),
            Err(_) => assert_eq!(input, "https://my.de/f?="),
        }
    }
}

#[test]
fn spellings_that_are_not_canonical_are_normalized() {
    roundtrip_to("nixpkgs", "flake:nixpkgs");
    roundtrip_to("nixpkgs/unstable", "flake:nixpkgs/unstable");
    roundtrip_to("path:/somewhere?", "path:/somewhere");
    roundtrip_to("git+file:///repo?lastModified=0017", "git+file:///repo?lastModified=17");
}

#[test]
fn a_round_trip_keeps_the_value() {
    let inputs = [
        "file+file:///somewhere/there",
        "https://my.de/path/to/file.tar.gz?dir=a&x=y",
        "github:flox/runix/main?host=example.org",
        "git+ssh://github.com/flox/runix?shallow=true&lastModified=1700000000",
        "path:/somewhere/there?rev=1",
        "nixpkgs/unstable",
    ];
    for input in inputs {
        let first = FlakeRef::from_str(input).unwrap();
        let spelled = first.to_string();
        let second = FlakeRef::from_str(&spelled).unwrap();
        assert_eq!(first, second, "{input}");
        assert_eq!(second.to_string(), spelled, "{input}");
    }
}

#[test]
fn the_fields_of_a_file_reference() {
    match FlakeRef::from_str("file+https://my.de/path/to/file?dir=sub").unwrap() {
        FlakeRef::FileHTTPS(r) => {
            assert_eq!(r.transport, Transport::HTTPS);
            assert!(r.qualified);
            assert_eq!(r.location, "my.de/path/to/file");
            assert_eq!(r.attributes.entries.len(), 1);
            assert_eq!(r.attributes.dir(), Some(&"sub".to_string()));
        },
        other => panic!("{other:?}"),
    }
    match FlakeRef::from_str("file:///somewhere/there").unwrap() {
        FlakeRef::FileFile(r) => {
            assert_eq!(r.transport, Transport::File);
            assert!(!r.qualified);
            assert_eq!(r.location, "/somewhere/there");
            assert!(r.attributes.is_empty());
        },
        other => panic!("{other:?}"),
    }
}

#[test]
fn the_fields_of_a_git_reference() {
    let input = "git+ssh://git@github.com/flox/runix?ref=main&rev=abc&shallow=true&submodules=false&lastModified=1700000000&extra=1";
    match FlakeRef::from_str(input).unwrap() {
        FlakeRef::GitSsh(r) => {
            assert_eq!(r.transport, Transport::SSH);
            assert_eq!(r.location, "git@github.com/flox/runix");
            assert_eq!(r.attributes.reference(), Some(&"main".to_string()));
            assert_eq!(r.attributes.rev(), Some(&"abc".to_string()));
            assert_eq!(r.attributes.shallow(), Some(true));
            assert_eq!(r.attributes.submodules(), Some(false));
            assert_eq!(r.attributes.last_modified(), Some(Timestamp(1_700_000_000)));
            assert_eq!(r.attributes.get("extra"), Some(&AttrValue::Text("1".to_string())));
            assert_eq!(r.attributes.get("missing"), None);
            assert_eq!(r.attributes.dir(), None);
            assert_eq!(r.attributes.host(), None);
            assert_eq!(r.attributes.flag("ref"), None);
            assert_eq!(r.attributes.text("shallow"), None);
            assert!(r.attributes.contains_key(&"rev".to_string()));
            assert!(!r.attributes.contains_key(&"re".to_string()));
        },
        other => panic!("{other:?}"),
    }
}

#[test]
fn the_fields_of_a_shorthand_reference() {
    match FlakeRef::from_str("gitlab:flox/runix/main?host=example.org").unwrap() {
        FlakeRef::Gitlab(r) => {
            assert_eq!(r.service, Service::Gitlab);
            assert_eq!(r.owner, "flox");
            assert_eq!(r.repo, "runix");
            assert_eq!(r.rev_or_ref, Some("main".to_string()));
            assert_eq!(r.attributes.host(), Some(&"example.org".to_string()));
        },
        other => panic!("{other:?}"),
    }
    match FlakeRef::from_str("github:flox/runix").unwrap() {
        FlakeRef::Github(r) => {
            assert_eq!(r.service, Service::Github);
            assert_eq!(r.rev_or_ref, None);
            assert!(r.attributes.is_empty());
        },
        other => panic!("{other:?}"),
    }
}

#[test]
fn the_fields_of_path_and_indirect_references() {
    match FlakeRef::from_str("path:/somewhere/there?dir=x").unwrap() {
        FlakeRef::Path(r) => {
            assert_eq!(r.path, "/somewhere/there");
            assert_eq!(r.attributes.dir(), Some(&"x".to_string()));
        },
        other => panic!("{other:?}"),
    }
    match FlakeRef::from_str("flake:nixpkgs/unstable").unwrap() {
        FlakeRef::Indirect(r) => {
            assert_eq!(r.id, "nixpkgs");
            assert_eq!(r.rev_or_ref, Some("unstable".to_string()));
        },
        other => panic!("{other:?}"),
    }
    match FlakeRef::from_str("nixpkgs").unwrap() {
        FlakeRef::Indirect(r) => {
            assert_eq!(r.id, "nixpkgs");
            assert_eq!(r.rev_or_ref, None);
        },
        other => panic!("{other:?}"),
    }
}

#[test]
fn strings_of_no_shape_are_invalid() {
    for input in [
        "",
        "not a ref",
        "1-not-a-ref",
        "ftp://my.de/file",
        "file+ssh://my.de/file",
        "tarball+git://x",
        "git+ftp://x",
        "git://x",
        "ssh://x",
        "hub:flox/runix",
        "FLAKE:nixpkgs",
        "nixpkgs?dir=x",
        "a/b/c",
        "a/",
        "./relative",
        "/absolute",
    ] {
        assert_eq!(
            FlakeRef::from_str(input),
            Err(ParseFlakeRefError::Invalid),
            "{input:?}"
        );
    }
}

#[test]
fn a_bare_name_is_an_indirect_reference() {
    assert!(matches!(
        FlakeRef::from_str("not-a-ref").unwrap(),
        FlakeRef::Indirect(_)
    ));
    assert_eq!(FlakeRef::from_str("not-a-ref").unwrap().to_string(), "flake:not-a-ref");
}

#[test]
fn owner_and_repository_must_be_identifiers() {
    assert!(matches!(
        FlakeRef::from_str("github:fl0x-/runix").unwrap(),
        FlakeRef::Github(_)
    ));
    assert_eq!(
        FlakeRef::from_str("github:1flox/runix"),
        Err(ParseFlakeRefError::GitService(ParseGitServiceError::InvalidOwner))
    );
    assert_eq!(
        FlakeRef::from_str("github:flox/9runix"),
        Err(ParseFlakeRefError::GitService(ParseGitServiceError::InvalidRepo))
    );
    assert_eq!(
        FlakeRef::from_str("gitlab:flox/run.ix"),
        Err(ParseFlakeRefError::GitService(ParseGitServiceError::InvalidRepo))
    );
    assert_eq!(
        FlakeRef::from_str("github:/runix"),
        Err(ParseFlakeRefError::GitService(ParseGitServiceError::InvalidOwner))
    );
    assert_eq!(
        FlakeRef::from_str("flake:9nix"),
        Err(ParseFlakeRefError::Indirect(ParseIndirectError::InvalidIdentifier))
    );
}

#[test]
fn an_archive_ending_makes_a_tarball_whatever_the_attributes() {
    for input in [
        "https://my.de/path/to/file.tar.gz",
        "https://my.de/path/to/file.tar.gz?dir=x",
        "https://my.de/path/to/file.tar.gz?ref=main&unknown=1",
        "https://my.de/path/to/file.tar.gz?lastModified=1700000000",
    ] {
        assert!(
            matches!(FlakeRef::from_str(input).unwrap(), FlakeRef::TarballHTTPS(_)),
            "{input}"
        );
        assert!(TarballRef::parses(input));
        assert!(!FileRef::parses(input));
    }
    assert_eq!(
        FlakeRef::from_str("https://my.de/file.tar.gz?shallow=maybe"),
        Err(ParseFlakeRefError::File(ParseFileError::Attribute(AttributeError::Boolean)))
    );
}

#[test]
fn every_archive_ending_is_known() {
    for ending in [".zip", ".tar", ".tgz", ".tar.gz", ".tar.xz", ".tar.bz2", ".tar.zst"] {
        let input = format!("http://my.de/file{ending}");
        assert!(
            matches!(FlakeRef::from_str(&input).unwrap(), FlakeRef::TarballHTTP(_)),
            "{input}"
        );
    }
    for input in [
        "http://my.de/file.gz",
        "http://my.de/file.tar.gz.sig",
        "http://my.de/file.tar.gz/",
        "http://my.de/filetar",
        "https://archive.tar.gz",
        "https://file.zip?x=/y.zip",
    ] {
        assert!(
            matches!(
                FlakeRef::from_str(input).unwrap(),
                FlakeRef::FileHTTP(_) | FlakeRef::FileHTTPS(_)
            ),
            "{input}"
        );
    }
}

#[test]
fn a_qualifier_wins_over_the_ending() {
    assert!(matches!(
        FlakeRef::from_str("file+https://my.de/file.tar.gz").unwrap(),
        FlakeRef::FileHTTPS(_)
    ));
    assert!(matches!(
        FlakeRef::from_str("tarball+https://my.de/file").unwrap(),
        FlakeRef::TarballHTTPS(_)
    ));
    roundtrip("file+https://my.de/file.tar.gz");
}

#[test]
fn errors_of_the_file_grammar() {
    assert_eq!(
        FlakeRef::from_str("file+file:/somewhere"),
        Err(ParseFlakeRefError::File(ParseFileError::InvalidUrl))
    );
    assert_eq!(
        FlakeRef::from_str("http://"),
        Err(ParseFlakeRefError::File(ParseFileError::InvalidUrl))
    );
    assert_eq!(
        FlakeRef::from_str("tarball+https://?a=b"),
        Err(ParseFlakeRefError::File(ParseFileError::InvalidUrl))
    );
    assert_eq!(
        FlakeRef::from_str("https://my.de/f?a=1&a=2"),
        Err(ParseFlakeRefError::File(ParseFileError::Attribute(AttributeError::Duplicate)))
    );
    assert_eq!(
        FlakeRef::from_str("https://my.de/f?novalue"),
        Err(ParseFlakeRefError::File(ParseFileError::Attribute(AttributeError::Malformed)))
    );
    assert_eq!(
        FlakeRef::from_str("https://my.de/f?=x"),
        Err(ParseFlakeRefError::File(ParseFileError::Attribute(AttributeError::Malformed)))
    );
    assert_eq!(
        FlakeRef::from_str("https://my.de/f?a=1&"),
        Err(ParseFlakeRefError::File(ParseFileError::Attribute(AttributeError::Malformed)))
    );
    assert_eq!(
        FlakeRef::from_str("https://my.de/f?dir=/abs"),
        Err(ParseFlakeRefError::File(ParseFileError::Attribute(AttributeError::Dir)))
    );
    assert_eq!(
        FlakeRef::from_str("https://my.de/f?dir="),
        Err(ParseFlakeRefError::File(ParseFileError::Attribute(AttributeError::Dir)))
    );
    assert_eq!(
        FlakeRef::from_str("https://my.de/f?lastModified=yesterday"),
        Err(ParseFlakeRefError::File(ParseFileError::Attribute(AttributeError::Timestamp(
            ParseTimeError::FromString
        ))))
    );
    assert_eq!(FileRef::from_str("github:flox/runix"), Err(ParseFileError::UnsupportedScheme));
    assert_eq!(
        FileRef::from_str("https://my.de/file.tar.gz"),
        Err(ParseFileError::UnsupportedScheme)
    );
    assert_eq!(
        TarballRef::from_str("https://my.de/file"),
        Err(ParseFileError::UnsupportedScheme)
    );
}

#[test]
fn errors_of_the_other_grammars() {
    assert_eq!(
        FlakeRef::from_str("git+https:github.com"),
        Err(ParseFlakeRefError::Git(ParseGitError::InvalidUrl))
    );
    assert_eq!(
        FlakeRef::from_str("git+ssh://host/repo?shallow=1"),
        Err(ParseFlakeRefError::Git(ParseGitError::Attribute(AttributeError::Boolean)))
    );
    assert_eq!(GitRef::from_str("https://host/repo"), Err(ParseGitError::UnsupportedScheme));
    assert_eq!(
        FlakeRef::from_str("github:flox"),
        Err(ParseFlakeRefError::GitService(ParseGitServiceError::MalformedPath))
    );
    assert_eq!(
        FlakeRef::from_str("github:flox/runix/a/b"),
        Err(ParseFlakeRefError::GitService(ParseGitServiceError::MalformedPath))
    );
    assert_eq!(
        FlakeRef::from_str("github:flox/runix/"),
        Err(ParseFlakeRefError::GitService(ParseGitServiceError::MalformedPath))
    );
    assert_eq!(
        FlakeRef::from_str("github:flox/runix?x"),
        Err(ParseFlakeRefError::GitService(ParseGitServiceError::Attribute(
            AttributeError::Malformed
        )))
    );
    assert_eq!(
        GitServiceRef::from_str("flake:nixpkgs"),
        Err(ParseGitServiceError::UnsupportedScheme)
    );
    assert_eq!(
        FlakeRef::from_str("path:"),
        Err(ParseFlakeRefError::Path(ParsePathRefError::InvalidPath))
    );
    assert_eq!(
        FlakeRef::from_str("path:?dir=x"),
        Err(ParseFlakeRefError::Path(ParsePathRefError::InvalidPath))
    );
    assert_eq!(
        FlakeRef::from_str("path:/x?dir=/y"),
        Err(ParseFlakeRefError::Path(ParsePathRefError::Attribute(AttributeError::Dir)))
    );
    assert_eq!(PathRef::from_str("/x"), Err(ParsePathRefError::UnsupportedScheme));
    assert_eq!(
        FlakeRef::from_str("flake:nixpkgs/a/b"),
        Err(ParseFlakeRefError::Indirect(ParseIndirectError::MalformedPath))
    );
    assert_eq!(
        FlakeRef::from_str("flake:nixpkgs/"),
        Err(ParseFlakeRefError::Indirect(ParseIndirectError::MalformedPath))
    );
    assert_eq!(
        FlakeRef::from_str("flake:"),
        Err(ParseFlakeRefError::Indirect(ParseIndirectError::InvalidIdentifier))
    );
    assert_eq!(IndirectRef::from_str("path:/x"), Err(ParseIndirectError::UnsupportedScheme));
}

#[test]
fn the_shapes_exclude_each_other() {
    let inputs = [
        "file+file:///a",
        "tarball+http://a/b",
        "git+ssh://a/b",
        "https://a/b",
        "https://a/b.zip",
        "github:a/b",
        "gitlab:a/b",
        "path:/a",
        "flake:a",
        "a",
        "not a ref",
    ];
    for input in inputs {
        let hits = [
            FileRef::parses(input),
            TarballRef::parses(input),
            GitRef::parses(input),
            GitServiceRef::parses(input),
            PathRef::parses(input),
            IndirectRef::parses(input),
        ];
        let count = hits.iter().filter(|hit| **hit).count();
        let expected = if input == "not a ref" { 0 } else { 1 };
        assert_eq!(count, expected, "{input}: {hits:?}");
    }
}

#[test]
fn a_variant_reads_what_the_dispatcher_reads() {
    assert_eq!(
        FlakeRef::from_str("git+https://github.com/flox/runix?ref=main").unwrap(),
        FlakeRef::GitHttps(GitRef::from_str("git+https://github.com/flox/runix?ref=main").unwrap())
    );
    assert_eq!(
        FlakeRef::from_str("github:flox/runix").unwrap(),
        FlakeRef::Github(GitServiceRef::from_str("github:flox/runix").unwrap())
    );
    assert_eq!(
        FlakeRef::from_str("file:///x.zip").unwrap(),
        FlakeRef::TarballFile(TarballRef::from_str("file:///x.zip").unwrap())
    );
    assert_eq!(
        FlakeRef::from_str("path:x").unwrap(),
        FlakeRef::Path(PathRef::from_str("path:x").unwrap())
    );
    assert_eq!(
        FlakeRef::from_str("nixpkgs").unwrap(),
        FlakeRef::Indirect(IndirectRef::from_str("flake:nixpkgs").unwrap())
    );
}

#[test]
fn the_builders_pick_the_variant_of_the_transport() {
    let file = FileRef::from_str("file+http://my.de/f").unwrap();
    assert!(matches!(FlakeRef::from_file(file.clone()), Ok(FlakeRef::FileHTTP(_))));
    let over_ssh = FileRef { transport: Transport::SSH, ..file };
    assert_eq!(
        FlakeRef::from_file(over_ssh),
        Err(ParseFlakeRefError::File(ParseFileError::UnsupportedScheme))
    );
    let tarball = TarballRef::from_str("tarball+file:///f").unwrap();
    assert!(matches!(FlakeRef::from_tarball(tarball.clone()), Ok(FlakeRef::TarballFile(_))));
    let over_ssh = TarballRef { transport: Transport::SSH, ..tarball };
    assert_eq!(
        FlakeRef::from_tarball(over_ssh),
        Err(ParseFlakeRefError::File(ParseFileError::UnsupportedScheme))
    );
    let git = GitRef::from_str("git+ssh://host/repo").unwrap();
    assert!(matches!(FlakeRef::from_git(git), FlakeRef::GitSsh(_)));
    let service = GitServiceRef::from_str("gitlab:a/b").unwrap();
    assert!(matches!(FlakeRef::from_git_service(service), FlakeRef::Gitlab(_)));
}

#[test]
fn every_variant_offers_the_same_three_operations() {
    fn check<T: FlakeRefSource + std::fmt::Debug>(spelled: &str, foreign: &str)
    where
        T::ParseErr: std::fmt::Debug,
    {
        assert!(T::parses(spelled), "{spelled}");
        assert!(!T::parses(foreign), "{foreign}");
        let parsed = T::parse(spelled).unwrap();
        assert_eq!(parsed.render(), spelled);
        assert!(T::parse(foreign).is_err());
    }
    check::<FileRef>("file+http://my.de/f?dir=x", "http://my.de/f.zip");
    check::<TarballRef>("http://my.de/f.zip", "http://my.de/f");
    check::<GitRef>("git+ssh://host/repo?ref=main", "ssh://host/repo");
    check::<GitServiceRef>("github:flox/runix/main", "git+ssh://host/repo");
    check::<PathRef>("path:./here", "./here");
    check::<IndirectRef>("flake:nixpkgs/unstable", "path:nixpkgs");
}
