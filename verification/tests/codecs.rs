use chrono::{DateTime, Utc};
use runix::flake_ref::boolean::{bool_text, read_bool, BoolReprs, BooleanDecodeError};
use runix::flake_ref::identifier::{is_flake_identifier, is_identifier};
use runix::flake_ref::timestamp::{
    ParseTimeError, Timestamp, TimestampDeserialize, MAX_EPOCH_SECONDS, MIN_EPOCH_SECONDS,
};
use runix::text::to_chars;

#[test]
fn a_boolean_decodes_alike_from_both_shapes() {
    assert_eq!(BoolReprs::deserialize_bool(BoolReprs::Bool(true)), Ok(true));
    assert_eq!(BoolReprs::deserialize_bool(BoolReprs::String("true".to_string())), Ok(true));
    assert_eq!(BoolReprs::deserialize_bool(BoolReprs::Bool(false)), Ok(false));
    assert_eq!(BoolReprs::deserialize_bool(BoolReprs::String("false".to_string())), Ok(false));
    assert_eq!(bool::try_from(BoolReprs::String("true".to_string())), Ok(true));
    assert_eq!(bool::try_from(BoolReprs::Bool(false)), Ok(false));
}

#[test]
fn a_spelling_is_read_as_the_standard_library_reads_it() {
    for text in ["true", "false", "", "True", "1", "no", "truee", "fals"] {
        assert_eq!(read_bool(&to_chars(text)), text.parse::<bool>().ok(), "{text:?}");
    }
}

#[test]
fn a_boolean_is_rendered_in_its_native_spelling() {
    assert_eq!(bool_text(true), "true");
    assert_eq!(bool_text(false), "false");
    for b in [true, false] {
        let decoded = BoolReprs::deserialize_bool(BoolReprs::String(bool_text(b).to_string()));
        assert_eq!(decoded, Ok(b));
    }
}

#[test]
fn other_spellings_of_a_boolean_are_refused() {
    for text in ["", "1", "0", "True", "FALSE", "yes", " true", "true ", "truefalse"] {
        assert_eq!(
            BoolReprs::deserialize_bool(BoolReprs::String(text.to_string())),
            Err(BooleanDecodeError),
            "{text:?}"
        );
        assert_eq!(read_bool(&to_chars(text)), None);
        assert_eq!(text.parse::<bool>().ok(), None);
    }
    assert_eq!(bool::try_from(BoolReprs::String("on".to_string())), Err(BooleanDecodeError));
}

#[test]
fn a_timestamp_decodes_alike_from_both_shapes() {
    let from_int = Timestamp::try_from(TimestampDeserialize::TsI64(1_700_000_000));
    let from_string =
        Timestamp::try_from(TimestampDeserialize::TsString("1700000000".to_string()));
    assert_eq!(from_int, Ok(Timestamp(1_700_000_000)));
    assert_eq!(from_int, from_string);
    assert_eq!(from_int.unwrap().epoch_seconds(), 1_700_000_000);
}

#[test]
fn a_timestamp_is_the_instant_that_chrono_builds() {
    for secs in [0i64, 1, 59, 86_399, 86_400, 1_700_000_000, -1, -86_401, 253_402_300_799] {
        let ours = Timestamp::from_epoch_seconds(secs).unwrap();
        let theirs = DateTime::<Utc>::from_timestamp(secs, 0).unwrap();
        assert_eq!(ours.epoch_seconds(), theirs.timestamp());
        assert_eq!(ours, Timestamp(secs));
    }
}

#[test]
fn the_range_of_timestamps_is_that_of_utc_instants() {
    assert_eq!(DateTime::<Utc>::MIN_UTC.timestamp(), MIN_EPOCH_SECONDS);
    assert_eq!(DateTime::<Utc>::MAX_UTC.timestamp(), MAX_EPOCH_SECONDS);
    assert_eq!(MIN_EPOCH_SECONDS, -8_334_601_228_800);
    assert_eq!(MAX_EPOCH_SECONDS, 8_210_266_876_799);
    assert_eq!(
        Timestamp::from_epoch_seconds(MAX_EPOCH_SECONDS),
        Ok(Timestamp(MAX_EPOCH_SECONDS))
    );
    assert_eq!(
        Timestamp::from_epoch_seconds(MIN_EPOCH_SECONDS),
        Ok(Timestamp(MIN_EPOCH_SECONDS))
    );
    assert_eq!(
        Timestamp::from_epoch_seconds(MAX_EPOCH_SECONDS + 1),
        Err(ParseTimeError::FromInt(MAX_EPOCH_SECONDS + 1))
    );
    assert_eq!(
        Timestamp::from_epoch_seconds(MIN_EPOCH_SECONDS - 1),
        Err(ParseTimeError::FromInt(MIN_EPOCH_SECONDS - 1))
    );
    assert_eq!(
        Timestamp::try_from(TimestampDeserialize::TsI64(i64::MAX)),
        Err(ParseTimeError::FromInt(i64::MAX))
    );
    assert_eq!(
        Timestamp::try_from(TimestampDeserialize::TsI64(i64::MIN)),
        Err(ParseTimeError::FromInt(i64::MIN))
    );
    assert!(DateTime::<Utc>::from_timestamp(MAX_EPOCH_SECONDS + 1, 0).is_none());
    assert!(DateTime::<Utc>::from_timestamp(MIN_EPOCH_SECONDS - 1, 0).is_none());
}

#[test]
fn a_string_that_spells_no_seconds_is_refused() {
    for text in ["", "abc", "12abc", "1.5", "-5", "+5", "0x10", "99999999999999999999"] {
        assert_eq!(
            Timestamp::try_from(TimestampDeserialize::TsString(text.to_string())),
            Err(ParseTimeError::FromString),
            "{text:?}"
        );
        assert_eq!(Timestamp::from_text(text), Err(ParseTimeError::FromString));
    }
}

#[test]
fn a_string_of_seconds_is_read_as_chrono_reads_it() {
    assert_eq!(Timestamp::from_text("0"), Ok(Timestamp(0)));
    assert_eq!(Timestamp::from_text("0017"), Ok(Timestamp(17)));
    assert_eq!(Timestamp::from_text("8210266876799"), Ok(Timestamp(MAX_EPOCH_SECONDS)));
    assert_eq!(Timestamp::from_text("8210266876800"), Err(ParseTimeError::FromString));
}

#[test]
fn what_follows_the_date_parser() {
    assert_eq!(Timestamp::from_parsed_seconds(Some(5)), Ok(Timestamp(5)));
    assert_eq!(Timestamp::from_parsed_seconds(None), Err(ParseTimeError::FromString));
    assert_eq!(
        Timestamp::from_parsed_seconds(Some(i64::MAX)),
        Err(ParseTimeError::FromInt(i64::MAX))
    );
}

#[test]
fn identifiers_begin_with_a_letter() {
    for id in ["a", "Z", "nixpkgs", "fl0x-", "a_b-c", "not-a-ref", "A1", "x-", "x_"] {
        assert!(is_flake_identifier(id), "{id:?}");
        assert!(is_identifier(&to_chars(id)));
    }
    for id in ["", "1flox", "_a", "-a", "a b", "a.b", "a/b", "a:b", "é", "aé", "a+b", " a", "a "] {
        assert!(!is_flake_identifier(id), "{id:?}");
        assert!(!is_identifier(&to_chars(id)));
    }
}

#[test]
fn identifiers_are_what_the_pattern_matches() {
    let pattern = regex::Regex::new("^[a-zA-Z][a-zA-Z0-9_-]*$").unwrap();
    let alphabet = ['a', 'Z', '0', '9', '_', '-', '.', '/', ' ', 'é', '+', ':'];
    let mut samples: Vec<String> = vec![String::new()];
    for first in alphabet {
        samples.push(first.to_string());
        for second in alphabet {
            samples.push(format!("{first}{second}"));
            for third in alphabet {
                samples.push(format!("{first}{second}{third}"));
            }
        }
    }
    for sample in samples {
        assert_eq!(is_flake_identifier(&sample), pattern.is_match(&sample), "{sample:?}");
    }
}
