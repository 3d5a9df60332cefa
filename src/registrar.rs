use vstd::prelude::*;
use vstd::string::StringSliceAdditionalSpecFns;
use crate::md5::{digest_hex, md5_utf8};

verus! {

pub const LENGTH_ERROR: &'static str = "Password length is less than 8 symbols";

pub const UPPER_PATTERN: &'static str = "[A-Z]";

pub const UPPER_ERROR: &'static str = "Check password has upper case letters failed";

pub const LOWER_PATTERN: &'static str = "[a-z]";

pub const LOWER_ERROR: &'static str = "Check password has lower case letters failed";

pub const DIGIT_PATTERN: &'static str = "[0-9]";

pub const DIGIT_ERROR: &'static str = "Check password has numbers failed";

/// The special symbols of which a password needs at least one.
pub const SPECIAL_SYMBOLS: &'static str = "!№@#$%^&*():;[]?*()-_=+{},.\"";

pub const SPECIAL_ERROR: &'static str = "Check password has special symbols failed";

pub const NO_SPACE_PATTERN: &'static str = "^\\S*$";

pub const NO_SPACE_ERROR: &'static str = "Check password has no spaces failed";

pub const SAME_LOGIN_ERROR: &'static str = "Login is equal to password";

pub const ACCESS_LEVEL_ERROR: &'static str = "There is no such access level";

pub const ADMIN_LEVEL: &'static str = "admin";

pub const USER_LEVEL: &'static str = "user";

/// Whether `regex::Regex::new` accepts the pattern.
pub uninterp spec fn regex_compiles(pattern: Seq<char>) -> bool;

/// Whether the compiled pattern finds a match somewhere in the text.
pub uninterp spec fn regex_found(pattern: Seq<char>, text: Seq<char>) -> bool;

/// The text of the error that `regex::Regex::new` reports for a pattern it refuses.
pub uninterp spec fn regex_error(pattern: Seq<char>) -> Seq<char>;

/// The characters that have a meaning of their own in a regex pattern.
pub open spec fn is_regex_meta(c: char) -> bool {
    c == '\\' || c == '.' || c == '+' || c == '*' || c == '?' || c == '(' || c == ')' || c == '|'
        || c == '[' || c == ']' || c == '{' || c == '}' || c == '^' || c == '$' || c == '#' || c
        == '&' || c == '-' || c == '~'
}

/// A text as a pattern that matches it literally: a backslash before each
/// meta character, every other character kept.
pub open spec fn regex_escaped(text: Seq<char>) -> Seq<char>
    decreases text.len(),
{
    if text.len() == 0 {
        Seq::empty()
    } else {
        let rest = regex_escaped(text.drop_last());
        let c = text.last();
        if is_regex_meta(c) {
            rest + seq!['\\', c]
        } else {
            rest.push(c)
        }
    }
}

/// Relies on regex::Regex::new, which compiles the pattern or reports why not
/// (the error's text), and Regex::find, which looks for the leftmost match in
/// the text.
#[verifier::external_body]
fn regex_search(pattern: &str, text: &str) -> (r: Result<bool, String>)
    ensures
        r is Ok <==> regex_compiles(pattern@),
        r matches Ok(found) ==> found == regex_found(pattern@, text@),
        r matches Err(e) ==> e@ == regex_error(pattern@),
{
    match regex::Regex::new(pattern) {
        Ok(re) => Ok(re.find(text).is_some()),
        Err(e) => Err(e.to_string()),
    }
}

/// Relies on regex::escape, which puts a backslash before every meta character
/// of the text and keeps the others.
#[verifier::external_body]
fn regex_escape(text: &str) -> (r: String)
    ensures
        r@ == regex_escaped(text@),
{
    regex::escape(text)
}

/// A rule holds of a text when its pattern compiles and matches in the text.
pub open spec fn rule_holds(pattern: Seq<char>, text: Seq<char>) -> bool {
    regex_compiles(pattern) && regex_found(pattern, text)
}

/// Looks for a match of `re` in `text`; when there is none, fails with
/// `err_message`, and when `re` does not compile, with the compile error's text.
pub fn check_regex(re: &str, text: &str, err_message: &str) -> (r: Result<(), String>)
    ensures
        r is Ok <==> rule_holds(re@, text@),
        regex_compiles(re@) ==> (r matches Err(e) ==> e@ == err_message@),
        !regex_compiles(re@) ==> (r matches Err(e) ==> e@ == regex_error(re@)),
{
    match regex_search(re, text) {
        Err(e) => Err(e),
        Ok(found) => {
            if found {
                Ok(())
            } else {
                Err(err_message.to_owned())
            }
        },
    }
}

} // verus!

verus! {

/// The pattern of the special-symbol rule: a class of the escaped symbols.
pub open spec fn special_pattern() -> Seq<char> {
    seq!['['] + regex_escaped(SPECIAL_SYMBOLS@) + seq![']']
}

/// Whether a password passes every symbol rule.
pub open spec fn symbols_ok(p: Seq<char>) -> bool {
    rule_holds(UPPER_PATTERN@, p) && rule_holds(LOWER_PATTERN@, p) && rule_holds(DIGIT_PATTERN@, p)
        && rule_holds(special_pattern(), p) && rule_holds(NO_SPACE_PATTERN@, p)
}

/// Whether every pattern of the symbol rules compiles.
pub open spec fn symbol_patterns_compile() -> bool {
    regex_compiles(UPPER_PATTERN@) && regex_compiles(LOWER_PATTERN@) && regex_compiles(
        DIGIT_PATTERN@,
    ) && regex_compiles(special_pattern()) && regex_compiles(NO_SPACE_PATTERN@)
}

/// The message of the first symbol rule that a password breaks.
pub open spec fn symbol_failure(p: Seq<char>) -> Seq<char> {
    if !regex_found(UPPER_PATTERN@, p) {
        UPPER_ERROR@
    } else if !regex_found(LOWER_PATTERN@, p) {
        LOWER_ERROR@
    } else if !regex_found(DIGIT_PATTERN@, p) {
        DIGIT_ERROR@
    } else if !regex_found(special_pattern(), p) {
        SPECIAL_ERROR@
    } else {
        NO_SPACE_ERROR@
    }
}

/// Whether a password is long enough: at least 8 bytes of UTF-8.
pub open spec fn length_ok(p: Seq<u8>) -> bool {
    p.len() > 7
}

/// The access level named by the raw input: "1" for admin, "2" for user.
pub open spec fn access_level_of(raw: Seq<u8>) -> Option<Seq<char>> {
    if raw == seq![0x31u8] {
        Some(ADMIN_LEVEL@)
    } else if raw == seq![0x32u8] {
        Some(USER_LEVEL@)
    } else {
        None
    }
}

fn same_bytes(a: &[u8], b: &[u8]) -> (r: bool)
    ensures
        r == (a@ == b@),
{
    if a.len() != b.len() {
        return false;
    }
    let mut i: usize = 0;
    while i < a.len()
        invariant
            i <= a@.len(),
            a@.len() == b@.len(),
            a@.subrange(0, i as int) == b@.subrange(0, i as int),
        decreases a@.len() - i,
    {
        if a[i] != b[i] {
            assert(a@[i as int] != b@[i as int]);
            return false;
        }
        i = i + 1;
        assert(a@.subrange(0, i as int) =~= a@.subrange(0, i as int - 1).push(a@[i - 1]));
        assert(b@.subrange(0, i as int) =~= b@.subrange(0, i as int - 1).push(b@[i - 1]));
    }
    assert(a@ =~= a@.subrange(0, i as int));
    assert(b@ =~= b@.subrange(0, i as int));
    true
}

/// Password policy and the computations of a registration.
pub struct Registrar;

impl Registrar {
    /// Checks the length rule, then the symbol rules.
    pub fn check_password(password: &str) -> (r: Result<(), String>)
        ensures
            r is Ok <==> length_ok(password.spec_bytes()) && symbols_ok(password@),
            !length_ok(password.spec_bytes()) ==> (r matches Err(e) ==> e@ == LENGTH_ERROR@),
            length_ok(password.spec_bytes()) && symbol_patterns_compile() ==> (r matches Err(e)
                ==> e@ == symbol_failure(password@)),
    {
        match Self::check_length(password) {
            Err(e) => Err(e),
            Ok(()) => Self::check_symbols(password),
        }
    }

    pub fn check_length(password: &str) -> (r: Result<(), String>)
        ensures
            r is Ok <==> length_ok(password.spec_bytes()),
            r matches Err(e) ==> e@ == LENGTH_ERROR@,
    {
        if password.as_bytes().len() <= 7 {
            return Err(LENGTH_ERROR.to_owned());
        }
        Ok(())
    }

    /// Checks, in order, for an upper case letter, a lower case letter, a digit,
    /// a special symbol, and the absence of white space.
    pub fn check_symbols(password: &str) -> (r: Result<(), String>)
        ensures
            r is Ok <==> symbols_ok(password@),
            symbol_patterns_compile() ==> (r matches Err(e) ==> e@ == symbol_failure(password@)),
    {
        check_regex(UPPER_PATTERN, password, UPPER_ERROR)?;
        check_regex(LOWER_PATTERN, password, LOWER_ERROR)?;
        check_regex(DIGIT_PATTERN, password, DIGIT_ERROR)?;
        let mut special = String::new();
        special.append("[");
        special.append(regex_escape(SPECIAL_SYMBOLS).as_str());
        special.append("]");
        proof {
            reveal_strlit("[");
            reveal_strlit("]");
        }
        assert(special@ =~= special_pattern());
        check_regex(special.as_str(), password, SPECIAL_ERROR)?;
        check_regex(NO_SPACE_PATTERN, password, NO_SPACE_ERROR)
    }

    /// The checks on a login and password before registration: they must differ,
    /// and the password must meet the policy of `check_password`.
    pub fn check_new_credentials(login: &str, password: &str) -> (r: Result<(), String>)
        ensures
            r is Ok <==> login.spec_bytes() != password.spec_bytes() && length_ok(
                password.spec_bytes(),
            ) && symbols_ok(password@),
            login.spec_bytes() == password.spec_bytes() ==> (r matches Err(e) ==> e@
                == SAME_LOGIN_ERROR@),
            login.spec_bytes() != password.spec_bytes() && !length_ok(password.spec_bytes()) ==> (
            r matches Err(e) ==> e@ == LENGTH_ERROR@),
            login.spec_bytes() != password.spec_bytes() && length_ok(password.spec_bytes())
                && symbol_patterns_compile() ==> (r matches Err(e) ==> e@ == symbol_failure(
                password@)),
    {
        if same_bytes(login.as_bytes(), password.as_bytes()) {
            return Err(SAME_LOGIN_ERROR.to_owned());
        }
        Self::check_password(password)
    }

    /// The record stored for a new user: the login digest as key, and the
    /// password digest with the access level as value.
    pub fn credential_entry(login: &str, password: &str, access_level: String) -> (r: (
        String,
        (String, String),
    ))
        ensures
            r.0@ == digest_hex(login.spec_bytes()),
            r.1.0@ == digest_hex(password.spec_bytes()),
            r.1.1 == access_level,
    {
        (md5_utf8(login), (md5_utf8(password), access_level))
    }

    /// Maps the raw input "1" to "admin" and "2" to "user"; anything else is an error.
    pub fn convert_to_access_lvl(lvl: &str) -> (r: Result<String, String>)
        ensures
            r is Ok <==> access_level_of(lvl.spec_bytes()) is Some,
            r matches Ok(s) ==> Some(s@) == access_level_of(lvl.spec_bytes()),
            r matches Err(e) ==> e@ == ACCESS_LEVEL_ERROR@,
    {
        let b = lvl.as_bytes();
        if b.len() == 1 && b[0] == 0x31u8 {
            assert(b@ =~= seq![0x31u8]);
            Ok(ADMIN_LEVEL.to_owned())
        } else if b.len() == 1 && b[0] == 0x32u8 {
            assert(b@ =~= seq![0x32u8]);
            Ok(USER_LEVEL.to_owned())
        } else {
            assert(b@.len() != 1 ==> b@ != seq![0x31u8] && b@ != seq![0x32u8]);
            Err(ACCESS_LEVEL_ERROR.to_owned())
        }
    }
}

} // verus!
