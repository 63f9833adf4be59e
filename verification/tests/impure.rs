use runix::flake_ref::{FlakeRef, ImpureFlakeRef, ParseFlakeRefError};

#[test]
fn a_url_must_be_a_flake_reference() {
    assert_eq!(
        ImpureFlakeRef::from_str("github:flox/runix"),
        Ok(ImpureFlakeRef::Pure(FlakeRef::from_str("github:flox/runix").unwrap()))
    );
    assert!(matches!(
        ImpureFlakeRef::from_str("https://my.de/file.tar.gz"),
        Ok(ImpureFlakeRef::Pure(FlakeRef::TarballHTTPS(_)))
    ));
    assert_eq!(
        ImpureFlakeRef::from_str("ftp://my.de/file"),
        Err(ParseFlakeRefError::Invalid)
    );
    assert_eq!(ImpureFlakeRef::from_str("unknown:thing"), Err(ParseFlakeRefError::Invalid));
}

#[test]
fn what_is_no_url_is_kept_for_later() {
    for input in ["nixpkgs", "./relative/path", "/absolute/path", "", "not a ref", ".#attr"] {
        assert_eq!(
            ImpureFlakeRef::from_str(input),
            Ok(ImpureFlakeRef::Impure(input.to_string())),
            "{input:?}"
        );
        assert!(url::Url::parse(input).is_err());
    }
}

#[test]
fn the_decision_after_the_url_check() {
    assert_eq!(
        ImpureFlakeRef::from_checked("flake:nixpkgs", false),
        Ok(ImpureFlakeRef::Impure("flake:nixpkgs".to_string()))
    );
    assert!(matches!(
        ImpureFlakeRef::from_checked("flake:nixpkgs", true),
        Ok(ImpureFlakeRef::Pure(FlakeRef::Indirect(_)))
    ));
    assert!(matches!(
        ImpureFlakeRef::from_checked("nixpkgs", true),
        Ok(ImpureFlakeRef::Pure(FlakeRef::Indirect(_)))
    ));
    assert_eq!(
        ImpureFlakeRef::from_checked("not a ref", true),
        Err(ParseFlakeRefError::Invalid)
    );
}
