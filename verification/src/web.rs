//! The text side of the web API: the addresses the server asks, how it reads the
//! answer to a login, and the credentials a client logs in with.
use vstd::prelude::*;
use vstd::utf8::*;

verus! {

/// What a client logs in with.
pub struct Credentials {
    pub username: String,
    pub password_hash: String,
}

/// Why the web API refused a login.
#[derive(Debug, Clone, Copy, PartialEq, Eq, Structural)]
pub enum LoginError {
    InvalidUsername,
    InvalidPassword,
    UnloginableUser,
}

/// Whether `c` has Unicode's `White_Space` property: tab, line feed, vertical
/// tab, form feed, carriage return, space, next line, no-break space, ogham space
/// mark, the spaces from en quad to hair space, line and paragraph separator,
/// narrow no-break space, medium mathematical space and ideographic space.
pub open spec fn is_white_space(c: char) -> bool {
    ||| '\u{9}' <= c <= '\u{d}'
    ||| c == ' '
    ||| c == '\u{85}'
    ||| c == '\u{a0}'
    ||| c == '\u{1680}'
    ||| '\u{2000}' <= c <= '\u{200a}'
    ||| c == '\u{2028}'
    ||| c == '\u{2029}'
    ||| c == '\u{202f}'
    ||| c == '\u{205f}'
    ||| c == '\u{3000}'
}

/// `s` without its leading white space.
pub open spec fn trim_start_chars(s: Seq<char>) -> Seq<char>
    decreases s.len(),
{
    if s.len() > 0 && is_white_space(s[0]) {
        trim_start_chars(s.drop_first())
    } else {
        s
    }
}

/// `s` without its trailing white space.
pub open spec fn trim_end_chars(s: Seq<char>) -> Seq<char>
    decreases s.len(),
{
    if s.len() > 0 && is_white_space(s.last()) {
        trim_end_chars(s.drop_last())
    } else {
        s
    }
}

/// `s` without leading and trailing white space.
pub open spec fn trimmed(s: Seq<char>) -> Seq<char> {
    trim_end_chars(trim_start_chars(s))
}

/// `str::trim` of std: `s` without leading and trailing white space, where white
/// space is what Unicode's `White_Space` property names; the contract states that.
#[verifier::external_body]
fn trim(s: &str) -> (r: &str)
    ensures
        r@ == trimmed(s@),
{
    s.trim()
}

impl Credentials {
    /// The credentials in the first two lines a client sends: its name and its
    /// password hash, each without the white space around it.
    pub fn from_login_lines(username_line: &str, password_line: &str) -> (c: Credentials)
        ensures
            c.username@ == trimmed(username_line@),
            c.password_hash@ == trimmed(password_line@),
    {
        Credentials {
            username: trim(username_line).to_owned(),
            password_hash: trim(password_line).to_owned(),
        }
    }
}

/// Whether `c` is an ASCII decimal digit.
pub open spec fn is_decimal_digit(c: char) -> bool {
    '0' <= c && c <= '9'
}

/// The value of a run of decimal digits.
pub open spec fn digits_value(s: Seq<char>) -> int
    decreases s.len(),
{
    if s.len() == 0 {
        0
    } else {
        10 * digits_value(s.drop_last()) + (s.last() as int - '0' as int)
    }
}

/// Whether every character of `s` is a decimal digit.
pub open spec fn all_decimal_digits(s: Seq<char>) -> bool {
    forall|i: int| 0 <= i < s.len() ==> is_decimal_digit(#[trigger] s[i])
}

/// The signed 32-bit value that `s` spells, as `str::parse::<i32>` reads it: an
/// optional `+` or `-`, then one or more decimal digits and nothing else, with a
/// value in range.
pub open spec fn spec_parse_i32(s: Seq<char>) -> Option<i32> {
    let signed = s.len() > 0 && (s[0] == '-' || s[0] == '+');
    let digits = if signed { s.drop_first() } else { s };
    let value = if s.len() > 0 && s[0] == '-' { -digits_value(digits) } else { digits_value(digits) };
    if digits.len() > 0 && all_decimal_digits(digits) && i32::MIN <= value <= i32::MAX {
        Some(value as i32)
    } else {
        None
    }
}

/// The value of a run of decimal digits is never negative.
proof fn lemma_digits_value_nonneg(s: Seq<char>)
    requires
        forall|i: int| 0 <= i < s.len() ==> is_decimal_digit(#[trigger] s[i]),
    ensures
        digits_value(s) >= 0,
    decreases s.len(),
{
    if s.len() > 0 {
        lemma_digits_value_nonneg(s.drop_last());
    }
}

/// A run of decimal digits is worth at least as much as any of its prefixes.
proof fn lemma_digits_value_prefix(s: Seq<char>, k: int)
    requires
        forall|i: int| 0 <= i < s.len() ==> is_decimal_digit(#[trigger] s[i]),
        0 <= k <= s.len(),
    ensures
        digits_value(s.take(k)) <= digits_value(s),
    decreases s.len(),
{
    if k < s.len() {
        lemma_digits_value_prefix(s.drop_last(), k);
        assert(s.drop_last().take(k) =~= s.take(k));
        lemma_digits_value_nonneg(s.drop_last());
    } else {
        assert(s.take(k) =~= s);
    }
}

/// An ASCII character's byte has the character's value.
proof fn lemma_ascii_byte(ch: char)
    requires
        ch <= '\u{7f}',
    ensures
        (ch as u8) as int == ch as int,
{
}

/// A text with a character outside ASCII spells no number.
proof fn lemma_non_ascii_is_no_number(s: Seq<char>)
    requires
        !is_ascii_chars(s),
    ensures
        spec_parse_i32(s) is None,
{
    let i = choose|i: int| 0 <= i < s.len() && !('\0' <= #[trigger] s[i] <= '\u{7f}');
    assert(!is_decimal_digit(s[i]));
    if s.len() > 0 && (s[0] == '-' || s[0] == '+') {
        assert(i >= 1);
        assert(s.drop_first()[i - 1] == s[i]);
        assert(!all_decimal_digits(s.drop_first()));
    } else {
        assert(!all_decimal_digits(s));
    }
}

/// The signed 32-bit value that `s` spells, as `str::parse::<i32>` (`FromStr` for
/// `i32`) reads it.
fn parse_i32(s: &str) -> (r: Option<i32>)
    ensures
        r == spec_parse_i32(s@),
{
    broadcast use is_ascii_chars_encode_utf8;

    if !s.is_ascii() {
        proof {
            lemma_non_ascii_is_no_number(s@);
        }
        return None;
    }
    let b = s.as_bytes();
    let n = b.len();
    assert(n == s@.len());
    assert(forall|k: int| 0 <= k < n ==> b@[k] == s@[k] as u8 && s@[k] <= '\u{7f}');
    if n == 0 {
        return None;
    }
    let negative = b[0] == 45u8;
    let start: usize = if b[0] == 45u8 || b[0] == 43u8 {
        1
    } else {
        0
    };
    assert(negative == (s@[0] == '-'));
    assert((start == 1) == (s@[0] == '-' || s@[0] == '+'));
    if start == n {
        return None;
    }
    let ghost digits = s@.subrange(start as int, n as int);
    assert(start == 1 ==> digits =~= s@.drop_first());
    assert(start == 0 ==> digits =~= s@);
    let mut acc: i64 = 0;
    let mut i: usize = start;
    while i < n
        invariant
            start <= i <= n,
            n == s@.len(),
            n == b@.len(),
            forall|k: int| 0 <= k < n ==> b@[k] == s@[k] as u8 && s@[k] <= '\u{7f}',
            digits == s@.subrange(start as int, n as int),
            n > 0,
            negative == (s@[0] == '-'),
            (start == 1) == (s@[0] == '-' || s@[0] == '+'),
            start == 1 ==> digits == s@.drop_first(),
            start == 0 ==> digits == s@,
            start <= 1,
            forall|k: int| 0 <= k < i - start ==> is_decimal_digit(#[trigger] digits[k]),
            acc == digits_value(digits.take(i - start)),
            0 <= acc <= 2147483648,
        decreases n - i,
    {
        let c = b[i];
        assert(digits[i - start] == s@[i as int]);
        proof {
            lemma_ascii_byte(s@[i as int]);
        }
        if c < 48u8 || c > 57u8 {
            assert(!is_decimal_digit(digits[i - start]));
            return None;
        }
        let ghost j = i - start;
        assert(digits.take(j + 1).drop_last() =~= digits.take(j));
        assert(digits.take(j + 1).last() == digits[j]);
        acc = acc * 10 + (c - 48u8) as i64;
        assert(acc == digits_value(digits.take(j + 1)));
        if acc > 2147483648 {
            proof {
                if all_decimal_digits(digits) {
                    lemma_digits_value_prefix(digits, j + 1);
                    assert(digits_value(digits) > 2147483648);
                    if start == 1 {
                        let t = s@;
                        let dv = digits_value(t.drop_first());
                        assert(dv > 2147483648);
                        assert(t.len() > 0 && (t[0] == '-' || t[0] == '+'));
                        let value = if t.len() > 0 && t[0] == '-' { -dv } else { dv };
                        assert(!(i32::MIN <= value <= i32::MAX));
                        assert(spec_parse_i32(t) is None);
                    } else {
                        let t = s@;
                        assert(!(t[0] == '-' || t[0] == '+'));
                        assert(digits_value(t) > 2147483648);
                        assert(spec_parse_i32(t) is None);
                    }
                }
            }
            return None;
        }
        i = i + 1;
    }
    assert(digits.take(n - start) =~= digits);
    let v: i64 = if negative {
        -acc
    } else {
        acc
    };
    if v < -2147483648 || v > 2147483647 {
        return None;
    }
    Some(v as i32)
}

/// The decimal digit that stands for `d`.
pub open spec fn digit_char(d: int) -> char {
    ('0' as int + d) as char
}

/// `n` in decimal, without leading zeros.
pub open spec fn nat_decimal(n: nat) -> Seq<char>
    decreases n,
{
    if n < 10 {
        seq![digit_char(n as int)]
    } else {
        nat_decimal(n / 10).push(digit_char((n % 10) as int))
    }
}

/// `x` in decimal, with a `-` in front when it is negative.
pub open spec fn int_decimal(x: int) -> Seq<char> {
    if x < 0 {
        seq!['-'] + nat_decimal((-x) as nat)
    } else {
        nat_decimal(x as nat)
    }
}

/// The one-character string of the decimal digit `d`.
fn digit_str(d: u32) -> (s: &'static str)
    requires
        d < 10,
    ensures
        s@ == seq![digit_char(d as int)],
{
    proof {
        reveal_strlit("0");
        reveal_strlit("1");
        reveal_strlit("2");
        reveal_strlit("3");
        reveal_strlit("4");
        reveal_strlit("5");
        reveal_strlit("6");
        reveal_strlit("7");
        reveal_strlit("8");
        reveal_strlit("9");
    }
    let s = if d == 0 {
        "0"
    } else if d == 1 {
        "1"
    } else if d == 2 {
        "2"
    } else if d == 3 {
        "3"
    } else if d == 4 {
        "4"
    } else if d == 5 {
        "5"
    } else if d == 6 {
        "6"
    } else if d == 7 {
        "7"
    } else if d == 8 {
        "8"
    } else {
        "9"
    };
    assert(s@ =~= seq![digit_char(d as int)]);
    s
}

/// Appends `n` in decimal to `out`.
fn append_decimal(out: &mut String, n: u32)
    ensures
        final(out)@ == old(out)@ + nat_decimal(n as nat),
    decreases n,
{
    if n >= 10 {
        append_decimal(out, n / 10);
    }
    out.append(digit_str(n % 10));
    assert(out@ =~= old(out)@ + nat_decimal(n as nat));
}

/// `x` in decimal, as `to_string` writes an `i32`.
fn i32_to_string(x: i32) -> (r: String)
    ensures
        r@ == int_decimal(x as int),
{
    let mut r = String::new();
    if x < 0 {
        r.append("-");
        proof {
            reveal_strlit("-");
        }
        let magnitude: u32 = (0i64 - x as i64) as u32;
        append_decimal(&mut r, magnitude);
        assert(r@ =~= int_decimal(x as int));
    } else {
        append_decimal(&mut r, x as u32);
        assert(r@ =~= int_decimal(x as int));
    }
    r
}

/// Whether two strings hold the same characters.
fn str_eq(a: &str, b: &str) -> (r: bool)
    ensures
        r == (a@ == b@),
{
    broadcast use encode_utf8_decode_utf8;

    let x = a.as_bytes();
    let y = b.as_bytes();
    if x.len() != y.len() {
        return false;
    }
    let mut i: usize = 0;
    while i < x.len()
        invariant
            x@ == encode_utf8(a@),
            y@ == encode_utf8(b@),
            x@.len() == y@.len(),
            i <= x@.len(),
            forall|j: int| 0 <= j < i ==> x@[j] == y@[j],
        decreases x@.len() - i,
    {
        if x[i] != y[i] {
            return false;
        }
        i = i + 1;
    }
    proof {
        assert(x@ =~= y@);
        encode_utf8_decode_utf8(a@);
        encode_utf8_decode_utf8(b@);
    }
    true
}

/// What the web API's answer to a login means: a refusal for each of its three
/// refusal texts, the player's id for a number; none for any other text.
pub open spec fn spec_login_response(s: Seq<char>) -> Option<Result<i32, LoginError>> {
    if s == "invalid username"@ {
        Some(Err(LoginError::InvalidUsername))
    } else if s == "invalid password"@ {
        Some(Err(LoginError::InvalidPassword))
    } else if s == "unloginable user"@ {
        Some(Err(LoginError::UnloginableUser))
    } else {
        match spec_parse_i32(s) {
            Some(id) => Some(Ok(id)),
            None => None,
        }
    }
}

/// Reads the web API's answer to a login; none when it is neither a refusal nor
/// a number.
pub fn parse_login_response(resp: &str) -> (r: Option<Result<i32, LoginError>>)
    ensures
        r == spec_login_response(resp@),
{
    if str_eq(resp, "invalid username") {
        Some(Err(LoginError::InvalidUsername))
    } else if str_eq(resp, "invalid password") {
        Some(Err(LoginError::InvalidPassword))
    } else if str_eq(resp, "unloginable user") {
        Some(Err(LoginError::UnloginableUser))
    } else {
        match parse_i32(resp) {
            Some(id) => Some(Ok(id)),
            None => None,
        }
    }
}

/// The address that checks `credentials`.
pub fn login_url(api_host: &str, credentials: &Credentials) -> (url: String)
    ensures
        url@ == api_host@ + "/api/login?u="@ + credentials.username@ + "&p="@
            + credentials.password_hash@,
{
    let mut url = String::new();
    url.append(api_host);
    url.append("/api/login?u=");
    url.append(credentials.username.as_str());
    url.append("&p=");
    url.append(credentials.password_hash.as_str());
    assert(url@ =~= api_host@ + "/api/login?u="@ + credentials.username@ + "&p="@
        + credentials.password_hash@);
    url
}

/// The address `{api_host}/api/user/{user_id}/{what}`.
fn user_url(api_host: &str, user_id: i32, what: &str) -> (url: String)
    ensures
        url@ == api_host@ + "/api/user/"@ + int_decimal(user_id as int) + "/"@ + what@,
{
    let id = i32_to_string(user_id);
    let mut url = String::new();
    url.append(api_host);
    url.append("/api/user/");
    url.append(id.as_str());
    url.append("/");
    url.append(what);
    assert(url@ =~= api_host@ + "/api/user/"@ + int_decimal(user_id as int) + "/"@ + what@);
    url
}

/// The address of a player's statistics.
pub fn user_info_url(api_host: &str, user_id: i32) -> (url: String)
    ensures
        url@ == api_host@ + "/api/user/"@ + int_decimal(user_id as int) + "/"@ + "info"@,
{
    user_url(api_host, user_id, "info")
}

/// The address of a player's rank.
pub fn user_rank_url(api_host: &str, user_id: i32) -> (url: String)
    ensures
        url@ == api_host@ + "/api/user/"@ + int_decimal(user_id as int) + "/"@ + "rank"@,
{
    user_url(api_host, user_id, "rank")
}

/// The address of a player's name.
pub fn username_url(api_host: &str, user_id: i32) -> (url: String)
    ensures
        url@ == api_host@ + "/api/user/"@ + int_decimal(user_id as int) + "/"@ + "username"@,
{
    user_url(api_host, user_id, "username")
}

} // verus!
