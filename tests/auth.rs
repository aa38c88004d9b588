use vidhost::auth::{extract_access_token, is_admin, is_registered, CookieError, CookieHeader, Role, UserClaims};

fn token(header: &str) -> Result<String, String> {
    extract_access_token(&CookieHeader::Text(header.to_string())).map_err(|e| e.message().clone())
}

#[test]
fn token_is_the_value_of_the_first_cookie() {
    assert_eq!(token("access_token=abc.def; refresh_token=xyz"), Ok("abc.def".to_string()));
    assert_eq!(token("access_token=abc"), Ok("abc".to_string()));
}

#[test]
fn token_stops_at_the_next_equals_sign() {
    assert_eq!(token("a=b=c; d=e"), Ok("b".to_string()));
}

#[test]
fn token_may_be_empty() {
    assert_eq!(token("a=; b=c"), Ok(String::new()));
    assert_eq!(token("=v"), Ok("v".to_string()));
}

#[test]
fn first_cookie_without_equals_has_no_token() {
    assert_eq!(token("plain; a=b"), Err("Access token not found in cookie!".to_string()));
    assert_eq!(token(""), Err("Access token not found in cookie!".to_string()));
}

#[test]
fn missing_or_unreadable_header_is_reported() {
    assert_eq!(
        extract_access_token(&CookieHeader::Missing).unwrap_err().message(),
        "Cookie header not found!"
    );
    assert_eq!(
        extract_access_token(&CookieHeader::Unreadable).unwrap_err().message(),
        "Cookie header contains invalid characters!"
    );
}

#[test]
fn cookie_error_keeps_its_message() {
    assert_eq!(CookieError::new("nope").message(), "nope");
}

#[test]
fn roles_are_checked() {
    let admin = UserClaims { id: 1, role: Role::Admin };
    let user = UserClaims { id: 2, role: Role::RegisteredUser };
    assert!(is_admin(&admin).is_ok());
    assert_eq!(is_admin(&user).unwrap_err().message(), "Requires Administrator privileges!");
    assert!(is_registered(&user).is_ok());
    assert_eq!(is_registered(&admin).unwrap_err().message(), "Requires Registration!");
}
