//! Tests of the version-string shape classifier and the house-style
//! rewrite.

use findupdate::filter::{version_type, VersionStr, VersioningType};

#[test]
fn test_version_type() {
    let normal_version_str = &"1.2.3";
    let version_str_with_letter_notation = &"1.2.3-p6";
    let version_str_with_dashes = &"2023-07-18";
    let version_str_with_rev = &"6.4-20230718";
    let version_str_with_rel = &"5.3-56";
    let version_str_with_rc = &"0.9.1rc1";
    let version_str_with_rc_and_dash = &"2.16-rc1";
    let version_str_with_alpha = &"3.0-alpha5";
    let version_str_with_shortned_alpha = &"2.4a1";
    let version_str_with_shortned_beta = &"2.3b3";

    assert_eq!(version_type(normal_version_str), VersioningType::Normal);
    assert_eq!(
        version_type(version_str_with_letter_notation),
        VersioningType::LetterNotation
    );
    assert_eq!(version_type(version_str_with_dashes), VersioningType::Dashes);
    assert_eq!(version_type(version_str_with_rev), VersioningType::Revision);
    assert_eq!(version_type(version_str_with_rel), VersioningType::Revision);
    assert_eq!(
        version_type(version_str_with_alpha),
        VersioningType::ReleaseTypes
    );
    assert_eq!(
        version_type(version_str_with_rc),
        VersioningType::ReleaseTypes
    );
    assert_eq!(
        version_type(version_str_with_rc_and_dash),
        VersioningType::ReleaseTypes
    );
    assert_eq!(
        version_type(version_str_with_shortned_alpha),
        VersioningType::ReleaseTypes
    );
    assert_eq!(
        version_type(version_str_with_shortned_beta),
        VersioningType::ReleaseTypes
    );
}

#[test]
fn test_comply_with_aosc() {
    let normal_version_str = &"1.2.3";
    let version_str_with_letter_notation = &"1.2.3-p6";
    let version_str_with_dashes = &"2023-07-18";
    let version_str_with_rev = &"6.4-20230718";
    let version_str_with_rel = &"5.3-56";
    let version_str_with_rc = &"0.9.1rc1";
    let version_str_with_rc_and_dash = &"2.16-rc1";
    let version_str_with_alpha = &"3.0-alpha5";
    let version_str_with_shortned_alpha = &"2.4a1";
    let version_str_with_shortned_beta = &"2.3b3";
    assert_eq!(
        normal_version_str.compily_with_aosc(),
        String::from(normal_version_str.to_owned())
    );
    assert_eq!(
        version_str_with_letter_notation.compily_with_aosc(),
        String::from("1.2.3p6")
    );
    assert_eq!(
        version_str_with_dashes.compily_with_aosc(),
        String::from("2023.07.18")
    );
    assert_eq!(
        version_str_with_rev.compily_with_aosc(),
        String::from("6.4+20230718")
    );
    assert_eq!(
        version_str_with_rel.compily_with_aosc(),
        String::from("5.3+56")
    );
    assert_eq!(
        version_str_with_rc.compily_with_aosc(),
        String::from("0.9.1~rc1")
    );
    assert_eq!(
        version_str_with_rc_and_dash.compily_with_aosc(),
        String::from("2.16~rc1")
    );
    assert_eq!(
        version_str_with_alpha.compily_with_aosc(),
        String::from("3.0~alpha5")
    );
    assert_eq!(
        version_str_with_shortned_alpha.compily_with_aosc(),
        String::from("2.4~a1")
    );
    assert_eq!(
        version_str_with_shortned_beta.compily_with_aosc(),
        String::from("2.3~b3")
    );
}

#[test]
fn test_comply_lower_cases() {
    // an upper-case input must come back lower-cased and rewritten
    assert_eq!("2.4A1".compily_with_aosc(), String::from("2.4~a1"));
}
