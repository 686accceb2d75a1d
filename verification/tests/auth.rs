use recipe_store::auth::admitted;

fn pair(name: &str, password: &str) -> Option<(String, String)> {
    Some((name.to_string(), password.to_string()))
}

#[test]
fn without_expected_credentials_everyone_passes() {
    assert!(admitted(None, None));
    assert!(admitted(None, pair("anyone", "anything")));
}

#[test]
fn without_presented_credentials_nobody_passes() {
    assert!(!admitted(pair("cook", "secret"), None));
}

#[test]
fn matching_credentials_pass() {
    assert!(admitted(pair("cook", "secret"), pair("cook", "secret")));
}

#[test]
fn credentials_that_differ_in_both_parts_are_turned_away() {
    assert!(!admitted(pair("cook", "secret"), pair("thief", "guess")));
    assert!(!admitted(pair("cook", "secret"), pair("", "")));
}

#[test]
fn credentials_that_match_in_one_part_pass() {
    assert!(admitted(pair("cook", "secret"), pair("cook", "guess")));
    assert!(admitted(pair("cook", "secret"), pair("thief", "secret")));
}
