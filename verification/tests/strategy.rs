use dfu::strategy::Strategy;

#[test]
fn strat_parsing() {
    let fixtures = vec![
        ("latest", Strategy::Latest, "latest"),
        ("next-patch", Strategy::NextPatch, "next patch"),
        ("latest-patch", Strategy::LatestPatch, "latest patch"),
        ("next-minor", Strategy::NextMinor, "next minor"),
        ("latest-minor", Strategy::LatestMinor, "latest minor"),
        ("next-major", Strategy::NextMajor, "next major"),
        ("latest-major", Strategy::LatestMajor, "latest major"),
    ];
    for fixture in fixtures {
        assert_eq!(Strategy::from_str(fixture.0, true).unwrap(), fixture.1);
        assert_eq!(fixture.1.to_string(), fixture.2);
    }
}

#[test]
fn case_counts_unless_it_is_ignored() {
    assert_eq!(Strategy::from_str("Next-PATCH", true), Ok(Strategy::NextPatch));
    assert_eq!(Strategy::from_str("LATEST", true), Ok(Strategy::Latest));
    assert_eq!(Strategy::from_str("Next-PATCH", false), Err("invalid variant: Next-PATCH".to_string()));
    assert_eq!(Strategy::from_str("latest-major", false), Ok(Strategy::LatestMajor));
}

#[test]
fn other_texts_name_no_strategy() {
    assert_eq!(Strategy::from_str("newest", true), Err("invalid variant: newest".to_string()));
    assert_eq!(Strategy::from_str("", true), Err("invalid variant: ".to_string()));
    assert_eq!(Strategy::from_str("next patch", true), Err("invalid variant: next patch".to_string()));
    // The long s is no ASCII letter, so it is not taken for an s.
    assert!(Strategy::from_str("late\u{017F}t", true).is_err());
}

#[test]
fn names_ask_for_their_strategy() {
    for strategy in Strategy::value_variants() {
        assert_eq!(Strategy::from_str(strategy.value_name(), false), Ok(strategy));
        assert_eq!(Strategy::from_str(&strategy.value_name().to_ascii_uppercase(), true), Ok(strategy));
    }
}

#[test]
fn strategies_are_default_values_of_arguments() {
    for strategy in Strategy::value_variants() {
        let value = strategy.into_os_str();
        assert_eq!(value.as_os_str().to_str(), Some(strategy.value_name()));
    }
    assert!(Strategy::LatestMinor.into_os_str() == *"latest-minor");
}

#[test]
fn latest_is_the_default() {
    assert_eq!(Strategy::default(), Strategy::Latest);
}
