//! HTTP methods and the order in which body files are picked.

use vstd::prelude::*;

verus! {

/// The HTTP methods that a run can use.
#[derive(Debug, Copy, Clone, PartialEq, Eq, Structural)]
pub enum HttpMethod {
    Get,
    Post,
    Put,
    Delete,
    Patch,
    Head,
}

/// Which of several candidate bodies a request uses.
#[derive(Debug, Copy, Clone, PartialEq, Eq, Structural)]
pub enum Order {
    /// Request `i` uses candidate `i mod count`, in sorted order.
    Sequential,
    /// Each request uses a candidate drawn uniformly at random.
    Random,
}

/// The method's name, as it appears in messages.
pub open spec fn method_name(m: HttpMethod) -> Seq<char> {
    match m {
        HttpMethod::Get => "Get"@,
        HttpMethod::Post => "Post"@,
        HttpMethod::Put => "Put"@,
        HttpMethod::Delete => "Delete"@,
        HttpMethod::Patch => "Patch"@,
        HttpMethod::Head => "Head"@,
    }
}

impl HttpMethod {
    /// The method's name, as it appears in messages.
    pub fn name(&self) -> (r: &'static str)
        ensures
            r@ == method_name(*self),
    {
        match self {
            HttpMethod::Get => "Get",
            HttpMethod::Post => "Post",
            HttpMethod::Put => "Put",
            HttpMethod::Delete => "Delete",
            HttpMethod::Patch => "Patch",
            HttpMethod::Head => "Head",
        }
    }

    /// GET and HEAD send no body.
    pub fn allows_body(&self) -> (r: bool)
        ensures
            r == !(*self is Get || *self is Head),
    {
        !matches!(self, HttpMethod::Get | HttpMethod::Head)
    }
}

/// ASCII lower case of one character; other characters are unchanged.
pub open spec fn ascii_lower(c: char) -> char {
    if 'A' <= c && c <= 'Z' {
        ((c as u8) + 32) as char
    } else {
        c
    }
}

/// ASCII lower case of every character.
pub open spec fn lower_chars(s: Seq<char>) -> Seq<char> {
    s.map_values(|c: char| ascii_lower(c))
}

fn to_ascii_lower(c: char) -> (r: char)
    ensures
        r == ascii_lower(c),
{
    if 'A' <= c && c <= 'Z' {
        ((c as u8) + 32) as char
    } else {
        c
    }
}

/// Whether `s`, in ASCII lower case, is `word`.
pub fn equals_lowercased(s: &str, word: &str) -> (r: bool)
    ensures
        r == (lower_chars(s@) == word@),
{
    let n = s.unicode_len();
    if n != word.unicode_len() {
        proof {
            assert(lower_chars(s@).len() != word@.len());
        }
        return false;
    }
    let mut i: usize = 0;
    while i < n
        invariant
            n == s@.len() == word@.len(),
            i <= n,
            forall|j: int| 0 <= j < i ==> ascii_lower(#[trigger] s@[j]) == word@[j],
        decreases n - i,
    {
        if to_ascii_lower(s.get_char(i)) != word.get_char(i) {
            proof {
                assert(lower_chars(s@)[i as int] != word@[i as int]);
            }
            return false;
        }
        i = i + 1;
    }
    proof {
        assert(lower_chars(s@) =~= word@);
    }
    true
}

} // verus!
