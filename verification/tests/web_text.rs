use bancho::web::{
    login_url, parse_login_response, user_info_url, user_rank_url, username_url, Credentials,
    LoginError,
};

#[test]
fn login_refusals_are_read() {
    assert_eq!(parse_login_response("invalid username"), Some(Err(LoginError::InvalidUsername)));
    assert_eq!(parse_login_response("invalid password"), Some(Err(LoginError::InvalidPassword)));
    assert_eq!(parse_login_response("unloginable user"), Some(Err(LoginError::UnloginableUser)));
}

#[test]
fn login_ids_are_read() {
    assert_eq!(parse_login_response("42"), Some(Ok(42)));
    assert_eq!(parse_login_response("-5"), Some(Ok(-5)));
    assert_eq!(parse_login_response("+7"), Some(Ok(7)));
    assert_eq!(parse_login_response("2147483647"), Some(Ok(i32::MAX)));
    assert_eq!(parse_login_response("-2147483648"), Some(Ok(i32::MIN)));
}

#[test]
fn other_login_answers_mean_nothing() {
    assert_eq!(parse_login_response(""), None);
    assert_eq!(parse_login_response("-"), None);
    assert_eq!(parse_login_response("abc"), None);
    assert_eq!(parse_login_response(" 42"), None);
    assert_eq!(parse_login_response("2147483648"), None);
    assert_eq!(parse_login_response("Invalid username"), None);
    assert_eq!(parse_login_response("invalid username "), None);
}

#[test]
fn credentials_come_trimmed_from_the_login_lines() {
    let c = Credentials::from_login_lines("  bob \r\n", "\tabc123\n");
    assert_eq!(c.username, "bob");
    assert_eq!(c.password_hash, "abc123");
}

#[test]
fn login_address() {
    let c = Credentials { username: "bob".to_string(), password_hash: "h4sh".to_string() };
    assert_eq!(login_url("http://api", &c), "http://api/api/login?u=bob&p=h4sh");
}

#[test]
fn user_addresses() {
    assert_eq!(user_info_url("http://a", 12), "http://a/api/user/12/info");
    assert_eq!(user_rank_url("http://a", -3), "http://a/api/user/-3/rank");
    assert_eq!(username_url("http://a", 0), "http://a/api/user/0/username");
}

#[test]
fn login_ids_follow_integer_parsing() {
    assert_eq!(parse_login_response("00012"), Some(Ok(12)));
    assert_eq!(parse_login_response("-0"), Some(Ok(0)));
    assert_eq!(parse_login_response("+"), None);
    assert_eq!(parse_login_response("--1"), None);
    assert_eq!(parse_login_response("1_000"), None);
    assert_eq!(parse_login_response("٣"), None);
    assert_eq!(parse_login_response("42\n"), None);
    assert_eq!(parse_login_response("99999999999999999999"), None);
    assert_eq!(parse_login_response("-2147483649"), None);
}

#[test]
fn credentials_trim_unicode_white_space_only() {
    let c = Credentials::from_login_lines("\u{3000}\u{a0}al ice\u{2029}", "x\u{200b}");
    assert_eq!(c.username, "al ice");
    assert_eq!(c.password_hash, "x\u{200b}");
}
