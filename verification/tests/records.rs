use runix::flake_ref::attributes::{AttrValue, AttributeError, Attributes};
use runix::flake_ref::file::ParseFileError;
use runix::flake_ref::git::ParseGitError;
use runix::flake_ref::git_service::ParseGitServiceError;
use runix::flake_ref::indirect::ParseIndirectError;
use runix::flake_ref::path::ParsePathRefError;
use runix::flake_ref::record::{find_field, find_text, names_identity, Field, Scalar};
use runix::flake_ref::timestamp::{ParseTimeError, Timestamp};
use runix::flake_ref::{FlakeRef, ParseFlakeRefError};
use runix::text::to_chars;

fn text(name: &str, value: &str) -> Field {
    Field { name: name.to_string(), value: Scalar::Text(value.to_string()) }
}

fn flag(name: &str, value: bool) -> Field {
    Field { name: name.to_string(), value: Scalar::Flag(value) }
}

fn number(name: &str, value: i64) -> Field {
    Field { name: name.to_string(), value: Scalar::Number(value) }
}

#[test]
fn a_flag_is_read_from_either_shape() {
    let native = Scalar::Flag(true).decode(&to_chars("shallow"));
    let spelled = Scalar::Text("true".to_string()).decode(&to_chars("shallow"));
    assert_eq!(native, Ok(AttrValue::Flag(true)));
    assert_eq!(native, spelled);
    assert_eq!(
        Scalar::Text("false".to_string()).decode(&to_chars("submodules")),
        Ok(AttrValue::Flag(false))
    );
    assert_eq!(
        Scalar::Text("yes".to_string()).decode(&to_chars("shallow")),
        Err(AttributeError::Boolean)
    );
    assert_eq!(Scalar::Number(1).decode(&to_chars("shallow")), Err(AttributeError::Boolean));
    assert_eq!(Scalar::encode(&AttrValue::Flag(true)), Scalar::Flag(true));
}

#[test]
fn an_instant_is_read_from_either_shape() {
    let native = Scalar::Number(1_700_000_000).decode(&to_chars("lastModified"));
    let spelled = Scalar::Text("1700000000".to_string()).decode(&to_chars("lastModified"));
    assert_eq!(native, Ok(AttrValue::Time(Timestamp(1_700_000_000))));
    assert_eq!(native, spelled);
    assert_eq!(
        Scalar::Number(i64::MAX).decode(&to_chars("lastModified")),
        Err(AttributeError::Timestamp(ParseTimeError::FromInt(i64::MAX)))
    );
    assert_eq!(
        Scalar::Text("soon".to_string()).decode(&to_chars("lastModified")),
        Err(AttributeError::Timestamp(ParseTimeError::FromString))
    );
    assert_eq!(
        Scalar::Flag(true).decode(&to_chars("lastModified")),
        Err(AttributeError::Timestamp(ParseTimeError::FromString))
    );
    assert_eq!(
        Scalar::encode(&AttrValue::Time(Timestamp(1_700_000_000))),
        Scalar::Number(1_700_000_000)
    );
}

#[test]
fn other_attributes_are_kept_as_text() {
    assert_eq!(
        Scalar::Text("abc".to_string()).decode(&to_chars("narHash")),
        Ok(AttrValue::Text("abc".to_string()))
    );
    assert_eq!(
        Scalar::Number(12).decode(&to_chars("revCount")),
        Ok(AttrValue::Text("12".to_string()))
    );
    assert_eq!(
        Scalar::Flag(false).decode(&to_chars("flake")),
        Ok(AttrValue::Text("false".to_string()))
    );
    assert_eq!(
        Scalar::Text("a&b".to_string()).decode(&to_chars("x")),
        Err(AttributeError::Malformed)
    );
    assert_eq!(
        Scalar::Text("sub/dir".to_string()).decode(&to_chars("dir")),
        Ok(AttrValue::Text("sub/dir".to_string()))
    );
    assert_eq!(Scalar::Text("/abs".to_string()).decode(&to_chars("dir")), Err(AttributeError::Dir));
    assert_eq!(Scalar::Text("a&b".to_string()).decode(&to_chars("dir")), Err(AttributeError::Dir));
    assert_eq!(Scalar::Number(1).decode(&to_chars("dir")), Err(AttributeError::Dir));
}

#[test]
fn the_attributes_among_the_fields() {
    let fields = vec![
        text("type", "git"),
        text("url", "ssh://host/repo"),
        flag("shallow", true),
        text("submodules", "false"),
        number("lastModified", 5),
        text("ref", "main"),
    ];
    let attributes = Attributes::from_fields(&fields).unwrap();
    assert_eq!(attributes.entries.len(), 4);
    assert_eq!(attributes.shallow(), Some(true));
    assert_eq!(attributes.submodules(), Some(false));
    assert_eq!(attributes.last_modified(), Some(Timestamp(5)));
    assert_eq!(attributes.reference(), Some(&"main".to_string()));
    let mut written = Vec::new();
    attributes.write_fields(&mut written);
    assert_eq!(
        written,
        vec![flag("shallow", true), flag("submodules", false), number("lastModified", 5), text("ref", "main")]
    );
    assert_eq!(
        Attributes::from_fields(&vec![text("a", "1"), text("a", "2")]),
        Err(AttributeError::Duplicate)
    );
    assert_eq!(Attributes::from_fields(&vec![text("", "1")]), Err(AttributeError::Malformed));
    assert_eq!(Attributes::from_fields(&vec![text("a=b", "1")]), Err(AttributeError::Malformed));
    assert_eq!(Attributes::from_fields(&vec![text("a&b", "1")]), Err(AttributeError::Malformed));
    assert_eq!(text("a", "1").to_attribute().unwrap().key, "a");
}

#[test]
fn looking_fields_up() {
    let fields = vec![text("type", "path"), text("path", "/x"), number("n", 1), text("path", "/y")];
    assert_eq!(find_field(&fields, "n"), Some(&Scalar::Number(1)));
    assert_eq!(find_field(&fields, "missing"), None);
    assert_eq!(find_text(&fields, "path"), Some(&"/x".to_string()));
    assert_eq!(find_text(&fields, "n"), None);
    for name in ["type", "url", "owner", "repo", "path", "id", "revOrRef"] {
        assert!(names_identity(&to_chars(name)));
    }
    for name in ["", "ref", "rev", "dir", "Type", "urls", "revorref"] {
        assert!(!names_identity(&to_chars(name)));
    }
}

#[test]
fn a_record_and_a_string_hold_the_same_reference() {
    let cases: Vec<(&str, Vec<Field>)> = vec![
        ("file+https://my.de/f", vec![text("type", "file"), text("url", "https://my.de/f")]),
        ("https://my.de/f", vec![text("url", "https://my.de/f")]),
        ("https://my.de/f.tar.gz", vec![text("url", "https://my.de/f.tar.gz")]),
        ("tarball+file:///f", vec![text("type", "tarball"), text("url", "file:///f")]),
        (
            "git+ssh://host/repo?ref=main&shallow=true&lastModified=17",
            vec![
                text("type", "git"),
                text("url", "ssh://host/repo"),
                text("ref", "main"),
                flag("shallow", true),
                number("lastModified", 17),
            ],
        ),
        (
            "github:flox/runix",
            vec![text("type", "github"), text("owner", "flox"), text("repo", "runix")],
        ),
        (
            "gitlab:flox/runix/main?host=example.org",
            vec![
                text("type", "gitlab"),
                text("owner", "flox"),
                text("repo", "runix"),
                text("revOrRef", "main"),
                text("host", "example.org"),
            ],
        ),
        ("path:/somewhere?dir=x", vec![text("type", "path"), text("path", "/somewhere"), text("dir", "x")]),
        ("flake:nixpkgs", vec![text("type", "indirect"), text("id", "nixpkgs")]),
        (
            "flake:nixpkgs/unstable",
            vec![text("type", "indirect"), text("id", "nixpkgs"), text("revOrRef", "unstable")],
        ),
    ];
    for (spelled, fields) in cases {
        let from_string = FlakeRef::from_str(spelled).unwrap();
        let from_record = FlakeRef::from_fields(&fields).unwrap();
        assert_eq!(from_string, from_record, "{spelled}");
        assert_eq!(from_string.to_fields(), fields, "{spelled}");
        assert_eq!(from_record.to_string(), spelled);
    }
}

#[test]
fn a_record_emits_the_normalized_form_of_its_values() {
    let fields = vec![
        text("url", "git.example.org"),
        text("type", "git"),
        text("shallow", "true"),
        text("lastModified", "0017"),
        number("revCount", 3),
    ];
    assert_eq!(
        FlakeRef::from_fields(&fields),
        Err(ParseFlakeRefError::Git(ParseGitError::UnsupportedScheme))
    );
    let fields = vec![
        text("url", "https://git.example.org/repo"),
        text("type", "git"),
        text("shallow", "true"),
        text("lastModified", "0017"),
        number("revCount", 3),
    ];
    let parsed = FlakeRef::from_fields(&fields).unwrap();
    assert!(matches!(parsed, FlakeRef::GitHttps(_)));
    assert_eq!(
        parsed.to_fields(),
        vec![
            text("type", "git"),
            text("url", "https://git.example.org/repo"),
            flag("shallow", true),
            number("lastModified", 17),
            text("revCount", "3"),
        ]
    );
    assert_eq!(
        parsed.to_string(),
        "git+https://git.example.org/repo?shallow=true&lastModified=17&revCount=3"
    );
}

#[test]
fn the_kind_of_a_record_follows_the_order_of_the_dispatcher() {
    let typed = vec![text("type", "file"), text("url", "https://my.de/f.tar.gz")];
    assert!(matches!(FlakeRef::from_fields(&typed).unwrap(), FlakeRef::FileHTTPS(_)));
    let sniffed = vec![text("url", "https://my.de/f.tar.gz"), text("dir", "x")];
    assert!(matches!(FlakeRef::from_fields(&sniffed).unwrap(), FlakeRef::TarballHTTPS(_)));
    let plain = vec![text("url", "http://my.de/f")];
    assert!(matches!(FlakeRef::from_fields(&plain).unwrap(), FlakeRef::FileHTTP(_)));
    let git = vec![text("type", "git"), text("url", "file:///repo")];
    assert!(matches!(FlakeRef::from_fields(&git).unwrap(), FlakeRef::GitPath(_)));
    let git = vec![text("type", "git"), text("url", "http://host/repo")];
    assert!(matches!(FlakeRef::from_fields(&git).unwrap(), FlakeRef::GitHttp(_)));
}

#[test]
fn records_of_no_shape_are_invalid() {
    let cases: Vec<Vec<Field>> = vec![
        vec![],
        vec![text("owner", "flox"), text("repo", "runix")],
        vec![text("type", "mercurial"), text("url", "https://x/y")],
        vec![number("type", 1), text("url", "https://x/y")],
        vec![text("path", "/x")],
        vec![text("id", "nixpkgs")],
    ];
    for fields in cases {
        assert_eq!(FlakeRef::from_fields(&fields), Err(ParseFlakeRefError::Invalid), "{fields:?}");
    }
}

#[test]
fn errors_of_the_kinds_of_records() {
    let file = |fields: Vec<Field>| FlakeRef::from_fields(&fields);
    assert_eq!(
        file(vec![text("type", "file")]),
        Err(ParseFlakeRefError::File(ParseFileError::InvalidUrl))
    );
    assert_eq!(
        file(vec![text("type", "file"), number("url", 1)]),
        Err(ParseFlakeRefError::File(ParseFileError::InvalidUrl))
    );
    assert_eq!(
        file(vec![text("type", "file"), text("url", "ssh://host/f")]),
        Err(ParseFlakeRefError::File(ParseFileError::UnsupportedScheme))
    );
    assert_eq!(
        file(vec![text("type", "tarball"), text("url", "https://")]),
        Err(ParseFlakeRefError::File(ParseFileError::InvalidUrl))
    );
    assert_eq!(
        file(vec![text("type", "file"), text("url", "https://x/y?a=b")]),
        Err(ParseFlakeRefError::File(ParseFileError::InvalidUrl))
    );
    assert_eq!(
        file(vec![text("url", "https://x/y"), text("owner", "flox")]),
        Err(ParseFlakeRefError::File(ParseFileError::InvalidUrl))
    );
    assert_eq!(
        file(vec![text("url", "https://x/y"), text("shallow", "maybe")]),
        Err(ParseFlakeRefError::File(ParseFileError::Attribute(AttributeError::Boolean)))
    );
    assert_eq!(
        file(vec![text("type", "git"), text("url", "host/repo")]),
        Err(ParseFlakeRefError::Git(ParseGitError::UnsupportedScheme))
    );
    assert_eq!(
        file(vec![text("type", "git"), text("url", "ssh:host")]),
        Err(ParseFlakeRefError::Git(ParseGitError::InvalidUrl))
    );
    assert_eq!(
        file(vec![text("type", "git"), text("url", "ssh://h/r"), text("a", "1"), text("a", "1")]),
        Err(ParseFlakeRefError::Git(ParseGitError::Attribute(AttributeError::Duplicate)))
    );
    assert_eq!(
        file(vec![text("type", "github"), text("owner", "1flox"), text("repo", "runix")]),
        Err(ParseFlakeRefError::GitService(ParseGitServiceError::InvalidOwner))
    );
    assert_eq!(
        file(vec![text("type", "github"), text("owner", "flox")]),
        Err(ParseFlakeRefError::GitService(ParseGitServiceError::InvalidRepo))
    );
    assert_eq!(
        file(vec![text("type", "github"), text("owner", "a"), text("repo", "b"), text("revOrRef", "")]),
        Err(ParseFlakeRefError::GitService(ParseGitServiceError::MalformedPath))
    );
    assert_eq!(
        file(vec![text("type", "github"), text("owner", "a"), text("repo", "b"), text("revOrRef", "x?y")]),
        Err(ParseFlakeRefError::GitService(ParseGitServiceError::MalformedPath))
    );
    assert_eq!(
        file(vec![text("type", "gitlab"), text("owner", "a"), text("repo", "b"), text("url", "x")]),
        Err(ParseFlakeRefError::GitService(ParseGitServiceError::MalformedPath))
    );
    assert_eq!(
        file(vec![text("type", "gitlab"), text("owner", "a"), text("repo", "b"), text("dir", "/x")]),
        Err(ParseFlakeRefError::GitService(ParseGitServiceError::Attribute(AttributeError::Dir)))
    );
    assert_eq!(
        file(vec![text("type", "path")]),
        Err(ParseFlakeRefError::Path(ParsePathRefError::InvalidPath))
    );
    assert_eq!(
        file(vec![text("type", "path"), text("path", "")]),
        Err(ParseFlakeRefError::Path(ParsePathRefError::InvalidPath))
    );
    assert_eq!(
        file(vec![text("type", "path"), text("path", "/x"), text("id", "y")]),
        Err(ParseFlakeRefError::Path(ParsePathRefError::InvalidPath))
    );
    assert_eq!(
        file(vec![text("type", "path"), text("path", "/x"), text("a", "b&c")]),
        Err(ParseFlakeRefError::Path(ParsePathRefError::Attribute(AttributeError::Malformed)))
    );
    assert_eq!(
        file(vec![text("type", "indirect"), text("id", "9")]),
        Err(ParseFlakeRefError::Indirect(ParseIndirectError::InvalidIdentifier))
    );
    assert_eq!(
        file(vec![text("type", "indirect"), text("id", "a"), text("revOrRef", "b/c")]),
        Err(ParseFlakeRefError::Indirect(ParseIndirectError::MalformedPath))
    );
    assert_eq!(
        file(vec![text("type", "indirect"), text("id", "a"), text("dir", "x")]),
        Err(ParseFlakeRefError::Indirect(ParseIndirectError::MalformedPath))
    );
}
