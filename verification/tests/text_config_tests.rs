use dietpi_dashboard::Config;
use dietpi_dashboard::parse_usize;
use dietpi_dashboard::str_is;

#[test]
fn decimal_counts_parse_exactly() {
    assert_eq!(parse_usize("0"), Some(0));
    assert_eq!(parse_usize("7"), Some(7));
    assert_eq!(parse_usize("12345"), Some(12345));
    assert_eq!(parse_usize("000042"), Some(42));
}

#[test]
fn counts_at_the_machine_limit_parse_exactly() {
    assert_eq!(parse_usize("18446744073709551615"), Some(usize::MAX));
    assert_eq!(parse_usize("18446744073709551616"), None);
}

#[test]
fn non_numeric_counts_are_rejected() {
    assert_eq!(parse_usize(""), None);
    assert_eq!(parse_usize("12a"), None);
    assert_eq!(parse_usize("-3"), None);
    assert_eq!(parse_usize(" 5"), None);
    assert_eq!(parse_usize("1.5"), None);
    // too large for a usize
    assert_eq!(parse_usize("99999999999999999999999999"), None);
}

#[test]
fn string_comparison_is_exact() {
    assert!(str_is("dl", "dl"));
    assert!(!str_is("dl", "dL"));
    assert!(!str_is("dl", "dl "));
    assert!(str_is("", ""));
    assert!(str_is("naïve", "naïve"));
    assert!(!str_is("naïve", "naive"));
}

#[test]
fn default_config_matches_the_documented_values() {
    let config = Config::default();
    assert_eq!(config.log_level, "info");
    assert_eq!(config.port, 5252);
    assert!(!config.tls);
    assert_eq!(config.cert, "");
    assert_eq!(config.key, "");
    assert!(!config.pass);
    assert_eq!(config.hash, "");
    assert_eq!(config.secret, "");
    assert_eq!(config.expiry, 3600);
}
