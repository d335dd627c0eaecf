use debuginfod::util::format_build_id;
use debuginfod::util::split_env_var_contents;

/// Make sure that we can properly "stringify" a build ID.
#[test]
fn build_id_formatting() {
    let bytes = [
        165, 120, 253, 173, 168, 51, 14, 181, 3, 35, 210, 155, 210, 77, 246, 177, 168, 59, 252, 5,
    ];
    let expected = "a578fdada8330eb50323d29bd24df6b1a83bfc05";

    let build_id = format_build_id(&bytes);
    assert_eq!(build_id, expected);
}

/// Check that we can properly parse a space separated list of URLs.
#[test]
fn split_space_separated_urls() {
    let urls_str = "https://debug.infod https://de.bug.info.d";
    let urls = split_env_var_contents(urls_str).into_iter().collect::<Vec<_>>();
    assert_eq!(urls, vec!["https://debug.infod", "https://de.bug.info.d",],);

    // Note the trailing space.
    let urls_str = "https://debug.infod ";
    let urls = split_env_var_contents(urls_str).into_iter().collect::<Vec<_>>();
    assert_eq!(urls, vec!["https://debug.infod"]);
}

/// Check that we can properly parse a comma separated list of URLs.
#[test]
fn parse_comma_separated_urls() {
    let urls_str = "https://debug.infod,https://de.bug.info.d";
    let urls = split_env_var_contents(urls_str).into_iter().collect::<Vec<_>>();
    assert_eq!(urls, vec!["https://debug.infod", "https://de.bug.info.d",],);
}

/// Check that an empty list holds no URL.
#[test]
fn parse_no_valid_urls() {
    let urls = split_env_var_contents("").into_iter().collect::<Vec<_>>();
    assert_eq!(urls, Vec::<&str>::new());
}

#[test]
fn split_mixed_separators_and_white_space() {
    let urls = split_env_var_contents(" ,a,, b\t ,\n c ,");
    assert_eq!(urls, vec!["a", "b", "c"]);
}

#[test]
fn split_only_separators() {
    assert!(split_env_var_contents(" , ,,  ").is_empty());
}

#[test]
fn split_trims_unicode_white_space() {
    let urls = split_env_var_contents("\u{3000}x\u{a0},y");
    assert_eq!(urls, vec!["x", "y"]);
}

#[test]
fn format_empty_and_single_bytes() {
    assert_eq!(format_build_id(&[]), "");
    assert_eq!(format_build_id(&[0x00]), "00");
    assert_eq!(format_build_id(&[0x0f, 0xf0, 0xff]), "0ff0ff");
}
