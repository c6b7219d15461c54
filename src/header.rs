//! Request headers given as `Name: Value` lines.

use vstd::prelude::*;
use crate::error::ConfigError;

verus! {

/// A character with the Unicode White_Space property.
pub open spec fn is_white_space(c: char) -> bool {
    let u = c as u32;
    ||| 9 <= u <= 13
    ||| u == 0x20
    ||| u == 0x85
    ||| u == 0xA0
    ||| u == 0x1680
    ||| 0x2000 <= u <= 0x200A
    ||| u == 0x2028
    ||| u == 0x2029
    ||| u == 0x202F
    ||| u == 0x205F
    ||| u == 0x3000
}

/// `s` without its leading white space.
pub open spec fn trim_start(s: Seq<char>) -> Seq<char>
    decreases s.len(),
{
    if s.len() > 0 && is_white_space(s[0]) {
        trim_start(s.drop_first())
    } else {
        s
    }
}

/// `s` without its trailing white space.
pub open spec fn trim_end(s: Seq<char>) -> Seq<char>
    decreases s.len(),
{
    if s.len() > 0 && is_white_space(s.last()) {
        trim_end(s.drop_last())
    } else {
        s
    }
}

/// `s` without leading and trailing white space.
pub open spec fn trimmed(s: Seq<char>) -> Seq<char> {
    trim_end(trim_start(s))
}

/// Relies on `str::trim`: it removes the leading and trailing characters for
/// which `char::is_whitespace` holds, which is the Unicode White_Space
/// property.
#[verifier::external_body]
fn trim(s: &str) -> (r: &str)
    ensures
        r@ == trimmed(s@),
{
    s.trim()
}

/// A token character of HTTP: a letter, a digit or one of ``!#$%&'*+-.^_`|~``.
pub open spec fn is_token_char(c: char) -> bool {
    ||| '0' <= c <= '9'
    ||| 'a' <= c <= 'z'
    ||| 'A' <= c <= 'Z'
    ||| c == '!' || c == '#' || c == '$' || c == '%' || c == '&' || c == '\''
    ||| c == '*' || c == '+' || c == '-' || c == '.' || c == '^' || c == '_'
    ||| c == '`' || c == '|' || c == '~'
}

/// A header name: between 1 and 65535 token characters.
pub open spec fn valid_header_name(s: Seq<char>) -> bool {
    &&& 1 <= s.len() <= 65535
    &&& forall|i: int| 0 <= i < s.len() ==> is_token_char(#[trigger] s[i])
}

/// Relies on `reqwest::header::HeaderName::from_bytes`, which `FromStr`
/// calls: it accepts a name of 1 to 65535 bytes each of which its character
/// table maps to a non-zero byte, and those are exactly the token characters
/// (all ASCII, so bytes and characters agree).
#[verifier::external_body]
fn header_name_ok(s: &str) -> (r: bool)
    ensures
        r == valid_header_name(s@),
{
    reqwest::header::HeaderName::from_bytes(s.as_bytes()).is_ok()
}

/// A header value may hold any character but control characters other than tab.
pub open spec fn valid_header_value(s: Seq<char>) -> bool {
    forall|i: int|
        0 <= i < s.len() ==> ((#[trigger] s[i]) as u32 >= 32 && s[i] as u32 != 127) || s[i]
            == '\t'
}

/// Relies on `reqwest::header::HeaderValue::from_str`: it refuses a string
/// exactly when one of its UTF-8 bytes is below 32 other than tab, or is 127.
/// Characters beyond ASCII encode to bytes of 128 and above, all accepted.
#[verifier::external_body]
fn header_value_ok(s: &str) -> (r: bool)
    ensures
        r == valid_header_value(s@),
{
    reqwest::header::HeaderValue::from_str(s).is_ok()
}

/// Index of the first `c` in `s`, if any.
pub open spec fn first_index_of(s: Seq<char>, c: char) -> Option<int>
    decreases s.len(),
{
    if s.len() == 0 {
        None
    } else if s[0] == c {
        Some(0)
    } else {
        match first_index_of(s.drop_first(), c) {
            Some(i) => Some(i + 1),
            None => None,
        }
    }
}

/// Name and value of a header line: the trimmed text before and after its
/// first `:`; `None` when it has none.
pub open spec fn split_header(line: Seq<char>) -> Option<(Seq<char>, Seq<char>)> {
    match first_index_of(line, ':') {
        Some(i) => Some(
            (trimmed(line.subrange(0, i)), trimmed(line.subrange(i + 1, line.len() as int))),
        ),
        None => None,
    }
}

/// A line that gives a valid header.
pub open spec fn header_ok(line: Seq<char>) -> bool {
    match split_header(line) {
        Some((n, v)) => valid_header_name(n) && valid_header_value(v),
        None => false,
    }
}

/// `e` is the error that a faulty header line gives.
pub open spec fn header_error(e: ConfigError, line: Seq<char>) -> bool {
    match split_header(line) {
        None => e matches ConfigError::InvalidHeader(l) && l@ == line,
        Some((n, v)) => if !valid_header_name(n) {
            e matches ConfigError::InvalidHeaderName(x) && x@ == n
        } else {
            e matches ConfigError::InvalidHeaderValue(x) && x@ == v
        },
    }
}

proof fn lemma_first_index_of(s: Seq<char>, c: char)
    ensures
        first_index_of(s, c) matches Some(i) ==> 0 <= i < s.len() && s[i] == c,
        first_index_of(s, c) matches Some(i) ==> forall|j: int| 0 <= j < i ==> s[j] != c,
        first_index_of(s, c) is None ==> forall|j: int| 0 <= j < s.len() ==> s[j] != c,
    decreases s.len(),
{
    if s.len() > 0 && s[0] != c {
        lemma_first_index_of(s.drop_first(), c);
        assert forall|j: int| 1 <= j < s.len() implies s[j] == s.drop_first()[j - 1] by {}
    }
}

proof fn lemma_first_index_of_found(s: Seq<char>, c: char, i: int)
    requires
        0 <= i < s.len(),
        s[i] == c,
        forall|j: int| 0 <= j < i ==> s[j] != c,
    ensures
        first_index_of(s, c) == Some(i),
    decreases i,
{
    if i > 0 {
        lemma_first_index_of_found(s.drop_first(), c, i - 1);
    }
}

fn find_first(s: &str, c: char) -> (r: Option<usize>)
    ensures
        r matches Some(i) ==> first_index_of(s@, c) == Some(i as int) && i < s@.len(),
        r is None ==> first_index_of(s@, c) is None,
{
    let n = s.unicode_len();
    let mut i: usize = 0;
    while i < n
        invariant
            n == s@.len(),
            i <= n,
            forall|j: int| 0 <= j < i ==> s@[j] != c,
        decreases n - i,
    {
        if s.get_char(i) == c {
            proof {
                lemma_first_index_of_found(s@, c, i as int);
            }
            return Some(i);
        }
        i = i + 1;
    }
    proof {
        lemma_first_index_of(s@, c);
    }
    None
}

/// Parses one `Name: Value` line into a trimmed name and value.
pub fn parse_header(line: &str) -> (r: Result<(String, String), ConfigError>)
    ensures
        r is Ok <==> header_ok(line@),
        r matches Ok((n, v)) ==> split_header(line@) == Some((n@, v@)),
        r matches Err(e) ==> header_error(e, line@),
{
    match find_first(line, ':') {
        None => Err(ConfigError::InvalidHeader(String::from_str(line))),
        Some(i) => {
            let n = line.unicode_len();
            let name = trim(line.substring_char(0, i));
            let value = trim(line.substring_char(i + 1, n));
            if !header_name_ok(name) {
                Err(ConfigError::InvalidHeaderName(String::from_str(name)))
            } else if !header_value_ok(value) {
                Err(ConfigError::InvalidHeaderValue(String::from_str(value)))
            } else {
                Ok((String::from_str(name), String::from_str(value)))
            }
        },
    }
}

/// Parses every header line, stopping at the first faulty one.
pub fn to_header_map(headers: &Vec<String>) -> (r: Result<Vec<(String, String)>, ConfigError>)
    ensures
        r is Ok <==> forall|i: int| 0 <= i < headers@.len() ==> header_ok(#[trigger] headers@[i]@),
        r matches Ok(v) ==> v@.len() == headers@.len() && forall|i: int|
            0 <= i < headers@.len() ==> split_header(#[trigger] headers@[i]@) == Some(
                (v@[i].0@, v@[i].1@),
            ),
        r matches Err(e) ==> exists|i: int|
            0 <= i < headers@.len() && #[trigger] header_error(e, headers@[i]@) && !header_ok(
                headers@[i]@,
            ) && forall|j: int| 0 <= j < i ==> header_ok(#[trigger] headers@[j]@),
{
    let mut out: Vec<(String, String)> = Vec::new();
    let mut i: usize = 0;
    while i < headers.len()
        invariant
            i <= headers@.len(),
            out@.len() == i,
            forall|j: int| 0 <= j < i ==> header_ok(#[trigger] headers@[j]@),
            forall|j: int|
                0 <= j < i ==> split_header(#[trigger] headers@[j]@) == Some(
                    (out@[j].0@, out@[j].1@),
                ),
        decreases headers@.len() - i,
    {
        match parse_header(headers[i].as_str()) {
            Ok(pair) => {
                out.push(pair);
            },
            Err(e) => {
                return Err(e);
            },
        }
        i = i + 1;
    }
    Ok(out)
}

} // verus!
