use mirror_caddy::config::{base_url_of, parse_jobs, DEFAULT_JOBS, METADATA_DIR};

#[test]
fn unset_gives_the_default() {
    assert_eq!(DEFAULT_JOBS, 50);
    assert_eq!(parse_jobs(None), 50);
}

#[test]
fn positive_number_is_taken() {
    assert_eq!(parse_jobs(Some("1")), 1);
    assert_eq!(parse_jobs(Some("8")), 8);
    assert_eq!(parse_jobs(Some("007")), 7);
    assert_eq!(parse_jobs(Some("+12")), 12);
    assert_eq!(parse_jobs(Some("1000000")), 1_000_000);
}

#[test]
fn largest_number_of_the_machine_is_taken() {
    let text = usize::MAX.to_string();
    assert_eq!(parse_jobs(Some(&text)), usize::MAX);
}

#[test]
fn invalid_settings_give_the_default() {
    for text in ["", "+", "0", "000", "-1", "abc", "5x", " 5", "5 ", "1.5", "++1", "1+", "٣"] {
        assert_eq!(parse_jobs(Some(text)), 50, "for {text:?}");
    }
}

#[test]
fn number_too_large_for_the_machine_gives_the_default() {
    assert_eq!(parse_jobs(Some("340282366920938463463374607431768211456")), 50);
    let mut text = usize::MAX.to_string();
    text.push('0');
    assert_eq!(parse_jobs(Some(&text)), 50);
}

#[test]
fn base_url_loses_its_trailing_slashes() {
    assert_eq!(base_url_of("http://host/files/"), "http://host/files");
    assert_eq!(base_url_of("http://host/files///"), "http://host/files");
    assert_eq!(base_url_of("http://host/files"), "http://host/files");
    assert_eq!(base_url_of("///"), "");
    assert_eq!(base_url_of(""), "");
}

#[test]
fn records_lie_in_a_hidden_directory() {
    assert_eq!(METADATA_DIR, ".metadata");
}
