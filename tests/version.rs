use rrdl::error::DecodeError;
use rrdl::version::Version;

#[test]
fn version_parses_three_segments() {
    assert_eq!(
        Version::parse("1.2.3"),
        Ok(Version {
            major: 1,
            minor: 2,
            patch: 3
        })
    );
}

#[test]
fn version_with_two_segments_is_missing_one() {
    assert_eq!(Version::parse("1.2"), Err(DecodeError::MissingSegment));
    assert_eq!(Version::parse("7"), Err(DecodeError::MissingSegment));
}

#[test]
fn version_with_four_segments_has_too_many() {
    assert_eq!(Version::parse("1.2.3.4"), Err(DecodeError::TooManySegments));
}

#[test]
fn version_with_a_letter_is_invalid() {
    assert_eq!(Version::parse("a.2.3"), Err(DecodeError::InvalidInteger));
    assert_eq!(Version::parse("1..3"), Err(DecodeError::InvalidInteger));
    assert_eq!(Version::parse("1.2.-3"), Err(DecodeError::InvalidInteger));
    assert_eq!(Version::parse("1.x"), Err(DecodeError::InvalidInteger));
    assert_eq!(Version::parse(""), Err(DecodeError::InvalidInteger));
}

#[test]
fn version_beyond_64_bits_is_invalid() {
    assert_eq!(
        Version::parse("18446744073709551615.0.0"),
        Ok(Version {
            major: u64::MAX,
            minor: 0,
            patch: 0
        })
    );
    assert_eq!(
        Version::parse("18446744073709551616.0.0"),
        Err(DecodeError::InvalidInteger)
    );
}

#[test]
fn version_formats_without_padding() {
    let v = Version {
        major: 1,
        minor: 2,
        patch: 3,
    };
    assert_eq!(v.format(), "1.2.3");
    let w = Version {
        major: 10,
        minor: 0,
        patch: 407,
    };
    assert_eq!(w.format(), "10.0.407");
}

#[test]
fn version_parse_of_format_round_trips() {
    for v in [
        Version { major: 0, minor: 0, patch: 0 },
        Version { major: 4, minor: 5, patch: 6 },
        Version { major: u64::MAX, minor: 12, patch: 99 },
    ] {
        assert_eq!(Version::parse(&v.format()), Ok(v));
    }
}
