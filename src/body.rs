//! Where request bodies come from, and which body each request uses.

use vstd::prelude::*;
use vstd::relations::sorted_by;
use crate::error::ConfigError;
use crate::method::{HttpMethod, Order};
use crate::text::push_char;

verus! {

/// The source of the request bodies of a run.
pub enum Body {
    /// The same bytes for every request.
    Data(Vec<u8>),
    /// The contents of one file, for every request.
    DataFile(String),
    /// One of the files of a directory per request.
    DataDir(String, Order),
    /// One entry of a line-delimited manifest per request.
    Manifest(String, Order),
}

/// A body source that sends something.
pub open spec fn sends_body(body: Option<Body>) -> bool {
    match body {
        None => false,
        Some(Body::Data(d)) => d@.len() > 0,
        Some(_) => true,
    }
}

/// Checks a method against a body source: GET and HEAD take no body, so they
/// refuse a file, a directory, a manifest or non-empty data.
pub fn check_body(method: HttpMethod, body: &Option<Body>) -> (r: Result<(), ConfigError>)
    ensures
        r is Err <==> ((method is Get || method is Head) && sends_body(*body)),
        r matches Err(e) ==> e == ConfigError::MethodNotSupported(method),
{
    let sends = match body {
        None => false,
        Some(Body::Data(d)) => d.len() > 0,
        Some(_) => true,
    };
    if sends && !method.allows_body() {
        Err(ConfigError::MethodNotSupported(method))
    } else {
        Ok(())
    }
}

/// Relies on rand's `Rng::random_range` over the thread-local generator: a
/// value of `0..bound`.
#[verifier::external_body]
fn random_below(bound: usize) -> (r: usize)
    requires
        bound > 0,
    ensures
        r < bound,
{
    rand::Rng::random_range(&mut rand::rng(), 0..bound)
}

/// Which of `count` candidates request `index` uses: `index mod count` in
/// sequential order, an independent uniform draw in random order.
pub fn select_index(order: Order, index: u64, count: usize) -> (r: usize)
    requires
        count > 0,
    ensures
        r < count,
        order is Sequential ==> r == (index as nat) % (count as nat),
{
    match order {
        Order::Sequential => (index % count as u64) as usize,
        Order::Random => random_below(count),
    }
}

/// Lexicographic order of character sequences, by code point.
pub open spec fn chars_le(a: Seq<char>, b: Seq<char>) -> bool
    decreases a.len(),
{
    if a.len() == 0 {
        true
    } else if b.len() == 0 {
        false
    } else if a[0] != b[0] {
        (a[0] as u32) < (b[0] as u32)
    } else {
        chars_le(a.drop_first(), b.drop_first())
    }
}

/// The order in which body file paths are sorted.
pub open spec fn path_le() -> spec_fn(String, String) -> bool {
    |a: String, b: String| chars_le(a@, b@)
}

/// Relies on `slice::sort`: the strings end up in ascending order of `Ord for
/// String`, which compares UTF-8 bytes and therefore code points, and keep
/// their multiplicities.
#[verifier::external_body]
fn sort_paths(v: &mut Vec<String>)
    ensures
        final(v)@.to_multiset() == old(v)@.to_multiset(),
        sorted_by(final(v)@, path_le()),
{
    v.sort();
}

/// Index of the last `c` in `s`, if any.
pub open spec fn last_index_of(s: Seq<char>, c: char) -> Option<int>
    decreases s.len(),
{
    if s.len() == 0 {
        None
    } else if s.last() == c {
        Some(s.len() - 1)
    } else {
        last_index_of(s.drop_last(), c)
    }
}

/// The final component of a path: what follows its last `/`.
pub open spec fn base_name(path: Seq<char>) -> Seq<char> {
    match last_index_of(path, '/') {
        Some(i) => path.subrange(i + 1, path.len() as int),
        None => path,
    }
}

/// A file name without its extension: what precedes the last `.`, unless
/// that `.` is the first character.
pub open spec fn stem(name: Seq<char>) -> Seq<char> {
    match last_index_of(name, '.') {
        Some(i) => if i > 0 {
            name.subrange(0, i)
        } else {
            name
        },
        None => name,
    }
}

/// The label of a body file: its base name without extension.
pub open spec fn source_label(path: Seq<char>) -> Seq<char> {
    stem(base_name(path))
}

proof fn lemma_last_index_of(s: Seq<char>, c: char)
    ensures
        last_index_of(s, c) matches Some(i) ==> 0 <= i < s.len() && s[i] == c,
    decreases s.len(),
{
    if s.len() > 0 && s.last() != c {
        lemma_last_index_of(s.drop_last(), c);
    }
}

fn find_last(s: &str, c: char) -> (r: Option<usize>)
    ensures
        r matches Some(i) ==> last_index_of(s@, c) == Some(i as int) && i < s@.len(),
        r is None ==> last_index_of(s@, c) is None,
{
    proof {
        lemma_last_index_of(s@, c);
    }
    let n = s.unicode_len();
    proof {
        assert(s@.subrange(0, n as int) =~= s@);
    }
    let mut i: usize = n;
    while i > 0
        invariant
            n == s@.len(),
            i <= n,
            last_index_of(s@, c) == last_index_of(s@.subrange(0, i as int), c),
        decreases i,
    {
        let ghost pre = s@.subrange(0, i as int);
        if s.get_char(i - 1) == c {
            return Some(i - 1);
        }
        proof {
            assert(pre.drop_last() =~= s@.subrange(0, i - 1));
        }
        i = i - 1;
    }
    proof {
        assert(s@.subrange(0, 0) =~= Seq::<char>::empty());
    }
    None
}

/// The base name of `path` without extension.
pub fn file_stem(path: &str) -> (r: String)
    ensures
        r@ == source_label(path@),
{
    let n = path.unicode_len();
    let name = match find_last(path, '/') {
        Some(i) => path.substring_char(i + 1, n),
        None => path,
    };
    match find_last(name, '.') {
        Some(i) => if i > 0 {
            String::from_str(name.substring_char(0, i))
        } else {
            String::from_str(name)
        },
        None => String::from_str(name),
    }
}

/// The files that serve as request bodies: sorted when they come from a
/// directory, in line order when they come from a manifest.
pub struct BodyFiles {
    paths: Vec<String>,
}

impl BodyFiles {
    /// The paths, in the order in which requests take them.
    pub closed spec fn spec_paths(&self) -> Seq<String> {
        self.paths@
    }

    /// Sorts the regular files found in directory `dir`; refuses an empty list.
    pub fn new(dir: &str, paths: Vec<String>) -> (r: Result<BodyFiles, ConfigError>)
        ensures
            paths@.len() == 0 <==> r is Err,
            r matches Err(e) ==> e matches ConfigError::NoBodyFiles(d) && d@ == dir@,
            r matches Ok(files) ==> files.spec_paths().to_multiset() == paths@.to_multiset()
                && sorted_by(files.spec_paths(), path_le()),
    {
        if paths.len() == 0 {
            return Err(ConfigError::NoBodyFiles(String::from_str(dir)));
        }
        let mut paths = paths;
        sort_paths(&mut paths);
        Ok(BodyFiles { paths })
    }

    /// Keeps the entries of manifest `path` in their order; refuses an empty
    /// manifest.
    pub fn from_manifest(path: &str, entries: Vec<String>) -> (r: Result<BodyFiles, ConfigError>)
        ensures
            entries@.len() == 0 <==> r is Err,
            r matches Err(e) ==> e matches ConfigError::EmptyManifest(p) && p@ == path@,
            r matches Ok(files) ==> files.spec_paths() == entries@,
    {
        if entries.len() == 0 {
            return Err(ConfigError::EmptyManifest(String::from_str(path)));
        }
        Ok(BodyFiles { paths: entries })
    }

    /// The file that request `index` uses, and its label. In sequential order
    /// the files come round in sorted order, `index mod count`.
    pub fn pick(&self, order: Order, index: u64) -> (r: (String, String))
        requires
            self.spec_paths().len() > 0,
        ensures
            exists|k: int|
                0 <= k < self.spec_paths().len() && r.0@ == self.spec_paths()[k]@ && (
                order is Sequential ==> k == (index as nat) % (self.spec_paths().len() as nat)),
            r.1@ == source_label(r.0@),
    {
        let k = select_index(order, index, self.paths.len());
        let path = self.paths[k].clone();
        let label = file_stem(path.as_str());
        (path, label)
    }
}

/// A line without its trailing carriage return.
pub open spec fn strip_cr(l: Seq<char>) -> Seq<char> {
    if l.len() > 0 && l.last() == '\r' {
        l.drop_last()
    } else {
        l
    }
}

/// The line as an entry, unless it is empty.
pub open spec fn entry_of(l: Seq<char>) -> Seq<Seq<char>> {
    if strip_cr(l).len() == 0 {
        Seq::empty()
    } else {
        seq![strip_cr(l)]
    }
}

/// Entries of the rest `s` of a manifest, the current line so far being `cur`.
pub open spec fn entries_from(s: Seq<char>, cur: Seq<char>) -> Seq<Seq<char>>
    decreases s.len(),
{
    if s.len() == 0 {
        entry_of(cur)
    } else if s[0] == '\n' {
        entry_of(cur) + entries_from(s.drop_first(), Seq::empty())
    } else {
        entries_from(s.drop_first(), cur.push(s[0]))
    }
}

/// The entries of a manifest: its non-empty lines, without line terminators.
pub open spec fn manifest_lines(text: Seq<char>) -> Seq<Seq<char>> {
    entries_from(text, Seq::empty())
}

/// The views of a list of strings.
pub open spec fn strings_view(v: Seq<String>) -> Seq<Seq<char>> {
    v.map_values(|x: String| x@)
}

fn push_entry(out: &mut Vec<String>, cur: String)
    ensures
        strings_view(final(out)@) == strings_view(old(out)@) + entry_of(cur@),
{
    let n = cur.as_str().unicode_len();
    let line = if n > 0 && cur.as_str().get_char(n - 1) == '\r' {
        String::from_str(cur.as_str().substring_char(0, n - 1))
    } else {
        cur
    };
    proof {
        assert(line@ == strip_cr(cur@));
    }
    if line.as_str().unicode_len() > 0 {
        out.push(line);
    }
    proof {
        assert(strings_view(out@) =~= strings_view(old(out)@) + entry_of(cur@));
    }
}

/// Splits a manifest into its entries, one body-file path per non-empty line.
pub fn manifest_entries(text: &str) -> (r: Vec<String>)
    ensures
        strings_view(r@) == manifest_lines(text@),
{
    let n = text.unicode_len();
    let mut out: Vec<String> = Vec::new();
    let mut cur = String::new();
    let mut i: usize = 0;
    proof {
        assert(text@.skip(0) =~= text@);
        assert(strings_view(out@) =~= Seq::<Seq<char>>::empty());
        assert(strings_view(out@) + manifest_lines(text@) =~= manifest_lines(text@));
    }
    while i < n
        invariant
            n == text@.len(),
            i <= n,
            manifest_lines(text@) == strings_view(out@) + entries_from(text@.skip(i as int), cur@),
        decreases n - i,
    {
        let c = text.get_char(i);
        proof {
            assert(text@.skip(i as int)[0] == c);
            assert(text@.skip(i as int).drop_first() =~= text@.skip(i + 1));
        }
        if c == '\n' {
            let line = cur;
            cur = String::new();
            let ghost before = out@;
            push_entry(&mut out, line);
            proof {
                assert(strings_view(out@) + entries_from(text@.skip(i + 1), cur@) =~= strings_view(
                    before,
                ) + entry_of(line@) + entries_from(text@.skip(i + 1), Seq::empty()));
            }
        } else {
            push_char(&mut cur, c);
        }
        i = i + 1;
    }
    push_entry(&mut out, cur);
    proof {
        assert(text@.skip(n as int) =~= Seq::<char>::empty());
    }
    out
}

} // verus!
