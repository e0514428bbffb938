use std::str::FromStr;
use rtow::config::{parse_resolution, Resolution, ResolutionError};

#[test]
fn named_presets_are_recognized() {
    assert_eq!(parse_resolution("720p"), Ok(Resolution { width: 1280, height: 720 }));
    assert_eq!(parse_resolution("1080p"), Ok(Resolution { width: 1920, height: 1080 }));
    assert_eq!(parse_resolution("4k"), Ok(Resolution { width: 3840, height: 2160 }));
    assert_eq!(parse_resolution("8k"), Ok(Resolution { width: 7680, height: 4320 }));
}

#[test]
fn plain_dimensions_parse_with_either_separator() {
    assert_eq!(parse_resolution("800x600"), Ok(Resolution { width: 800, height: 600 }));
    assert_eq!(parse_resolution("800X600"), Ok(Resolution { width: 800, height: 600 }));
    assert_eq!(parse_resolution("1x1"), Ok(Resolution { width: 1, height: 1 }));
}

#[test]
fn the_group_is_found_anywhere_in_the_string() {
    assert_eq!(
        parse_resolution("size=1024x768;"),
        Ok(Resolution { width: 1024, height: 768 })
    );
    // The leftmost group wins.
    assert_eq!(parse_resolution("12x34x56"), Ok(Resolution { width: 12, height: 34 }));
}

#[test]
fn malformed_strings_are_rejected() {
    assert_eq!(parse_resolution(""), Err(ResolutionError::Malformed));
    assert_eq!(parse_resolution("abc"), Err(ResolutionError::Malformed));
    assert_eq!(parse_resolution("800x"), Err(ResolutionError::Malformed));
    assert_eq!(parse_resolution("x600"), Err(ResolutionError::Malformed));
    assert_eq!(parse_resolution("800 x 600"), Err(ResolutionError::Malformed));
    assert_eq!(parse_resolution("720P"), Err(ResolutionError::Malformed));
}

#[test]
fn oversized_dimensions_are_rejected() {
    assert_eq!(
        parse_resolution("99999999999x2"),
        Err(ResolutionError::OutOfRange)
    );
    assert_eq!(
        parse_resolution("2x4294967296"),
        Err(ResolutionError::OutOfRange)
    );
    // The largest 32-bit value still fits.
    assert_eq!(
        parse_resolution("4294967295x1"),
        Ok(Resolution { width: 4294967295, height: 1 })
    );
}

#[test]
fn from_str_goes_through_the_parser() {
    assert_eq!(Resolution::from_str("640x480"), Ok(Resolution { width: 640, height: 480 }));
    assert_eq!(Resolution::from_str("nope"), Err(ResolutionError::Malformed));
}
