use md5_registrar::md5::md5_utf8;
use md5_registrar::registrar::{check_regex, Registrar};

#[test]
fn check_password_length() {
    let password = "some_pa\n";
    assert_eq!(password.len(), 8);
    assert!(Registrar::check_length(password).is_ok());
    assert!(Registrar::check_length(password.trim()).is_err())
}

#[test]
fn check_password_is_valid() {
    let password_valid = "somePa@_ss1";
    let invalid_passwords = ["somepass", "SOMEPASS", "Somepass", "somePass1", "somePa@ ss1"];

    assert!(Registrar::check_symbols(password_valid).is_ok());

    for invalid_pass in invalid_passwords {
        assert!(Registrar::check_symbols(invalid_pass).is_err());
    }
}

#[test]
fn symbol_rule_messages() {
    let err = |p: &str| Registrar::check_symbols(p).unwrap_err();
    assert_eq!(err("somepass"), "Check password has upper case letters failed");
    assert_eq!(err("SOMEPASS"), "Check password has lower case letters failed");
    assert_eq!(err("Somepass"), "Check password has numbers failed");
    assert_eq!(err("somePass1"), "Check password has special symbols failed");
    assert_eq!(err("somePa@ ss1"), "Check password has no spaces failed");
}

#[test]
fn each_special_symbol_is_accepted() {
    for sym in ["@", "\"", "#", "№", "$", ";", "%", "^", ":", "&", "?", "*", "(", ")", "_", "-",
        "=", "+", "{", "}", ".", ",", "!", "[", "]"] {
        let password = format!("abcDE12{}", sym);
        assert!(Registrar::check_symbols(&password).is_ok(), "{}", password);
    }
    assert!(Registrar::check_symbols("abcDE12~").is_err());
    assert!(Registrar::check_symbols("abcDE12\\").is_err());
}

#[test]
fn check_password_orders_length_first() {
    assert_eq!(
        Registrar::check_password("aB1@").unwrap_err(),
        "Password length is less than 8 symbols"
    );
    assert_eq!(
        Registrar::check_password("abcdefgh").unwrap_err(),
        "Check password has upper case letters failed"
    );
    assert!(Registrar::check_password("somePa@_ss1").is_ok());
}

#[test]
fn check_length_boundary() {
    assert!(Registrar::check_length("1234567").is_err());
    assert!(Registrar::check_length("12345678").is_ok());
    assert_eq!(
        Registrar::check_length("").unwrap_err(),
        "Password length is less than 8 symbols"
    );
    // Length counts bytes: four two-byte letters make eight.
    assert!(Registrar::check_length("пару").is_ok());
}

#[test]
fn access_levels() {
    assert_eq!(Registrar::convert_to_access_lvl("1").unwrap(), "admin");
    assert_eq!(Registrar::convert_to_access_lvl("2").unwrap(), "user");
    for raw in ["", "3", "12", " 1", "admin"] {
        assert_eq!(
            Registrar::convert_to_access_lvl(raw).unwrap_err(),
            "There is no such access level"
        );
    }
}

#[test]
fn new_credentials_checks() {
    assert_eq!(
        Registrar::check_new_credentials("somePa@_ss1", "somePa@_ss1").unwrap_err(),
        "Login is equal to password"
    );
    assert!(Registrar::check_new_credentials("alice", "somePa@_ss1").is_ok());
    assert_eq!(
        Registrar::check_new_credentials("alice", "short").unwrap_err(),
        "Password length is less than 8 symbols"
    );
}

#[test]
fn credential_entry_digests() {
    let (key, (pass, level)) =
        Registrar::credential_entry("abc", "message digest", "user".to_string());
    assert_eq!(key, "900150983cd24fb0d6963f7d28e17f72");
    assert_eq!(pass, "f96b697d7cb7938d525a2f31aaf161d0");
    assert_eq!(level, "user");
    assert_eq!(key, md5_utf8("abc"));
}

#[test]
fn check_regex_reports_compile_error() {
    let err = check_regex("[a-", "abc", "no match").unwrap_err();
    assert_eq!(err, regex::Regex::new("[a-").unwrap_err().to_string());
    assert_ne!(err, "no match");
    assert_eq!(check_regex("[0-9]", "abc", "no match").unwrap_err(), "no match");
    assert!(check_regex("[0-9]", "a1c", "no match").is_ok());
}

#[test]
fn escaped_meta_characters_match_literally() {
    // "|" is a meta character outside the special set, "-" one inside it.
    assert!(Registrar::check_symbols("abcDE12|").is_err());
    assert!(Registrar::check_symbols("abcDE12-").is_ok());
}
