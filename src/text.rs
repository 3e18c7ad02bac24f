//! Character-level text handling: URL-safe identifiers and scheme prefixes.
use vstd::prelude::*;
use vstd::std_specs::iter::IteratorSpec;

verus! {

/// The characters of `s`, in order.
pub fn chars_of(s: &str) -> (r: Vec<char>)
    ensures
        r@ == s@,
{
    broadcast use vstd::string::axiom_spec_iter, vstd::string::next_postcondition;

    let mut it = s.chars();
    let mut out: Vec<char> = Vec::new();
    loop
        invariant
            it.obeys_prophetic_iter_laws(),
            it.decrease() is Some,
            out@ + it.remaining() == s@,
        decreases it.decrease()->0,
    {
        match it.next() {
            Some(c) => {
                out.push(c);
            },
            None => {
                assert(out@ =~= s@);
                return out;
            },
        }
    }
}

/// Relies on `String`'s `FromIterator<&char>`, through `collect`: the string made
/// of the characters of `cs`, in order.
#[verifier::external_body]
pub(crate) fn string_of(cs: &Vec<char>) -> (r: String)
    ensures
        r@ == cs@,
{
    cs.iter().collect()
}

/// The number of characters of `s`.
pub fn char_count(s: &str) -> (r: usize)
    ensures
        r == s@.len(),
{
    chars_of(s).len()
}

/// The length of `s` in bytes, encoded as UTF-8.
pub open spec fn byte_len(s: Seq<char>) -> int {
    vstd::utf8::encode_utf8(s).len() as int
}

/// The length of `s` in bytes, encoded as UTF-8.
pub fn byte_count(s: &str) -> (r: usize)
    ensures
        r == byte_len(s@),
{
    s.as_bytes().len()
}

/// A character that may stand in an identifier as it is: an ASCII letter or
/// digit, or one of `-`, `_`, `.`, `~`.
pub open spec fn url_safe(c: char) -> bool {
    ('a' <= c && c <= 'z') || ('A' <= c && c <= 'Z') || ('0' <= c && c <= '9') || c == '-'
        || c == '_' || c == '.' || c == '~'
}

/// `s` with every character that is not URL-safe replaced by `-`.
pub open spec fn sanitized(s: Seq<char>) -> Seq<char> {
    Seq::new(s.len(), |i: int| if url_safe(s[i]) { s[i] } else { '-' })
}

/// The scheme prefix given to a target that has none.
pub open spec fn http_prefix() -> Seq<char> {
    seq!['h', 't', 't', 'p', ':', '/', '/']
}

/// The other scheme prefix that a target may already carry.
pub open spec fn https_prefix() -> Seq<char> {
    seq!['h', 't', 't', 'p', 's', ':', '/', '/']
}

/// `s` begins with `p`.
pub open spec fn begins_with(s: Seq<char>, p: Seq<char>) -> bool {
    p.len() <= s.len() && s.subrange(0, p.len() as int) == p
}

/// `s` already carries an explicit scheme.
pub open spec fn has_scheme(s: Seq<char>) -> bool {
    begins_with(s, http_prefix()) || begins_with(s, https_prefix())
}

/// `s` with an explicit scheme: unchanged where it has one, else with `http://` in front.
pub open spec fn with_scheme(s: Seq<char>) -> Seq<char> {
    if has_scheme(s) {
        s
    } else {
        http_prefix() + s
    }
}

/// A target given a scheme carries one, and is not shorter than before.
pub proof fn lemma_with_scheme_has_scheme(s: Seq<char>)
    ensures
        has_scheme(with_scheme(s)),
        with_scheme(s).len() >= s.len(),
{
    if !has_scheme(s) {
        assert((http_prefix() + s).subrange(0, 7) =~= http_prefix());
    }
}

/// Whether `c` may stand in an identifier as it is.
pub fn is_url_safe(c: char) -> (r: bool)
    ensures
        r == url_safe(c),
{
    ('a' <= c && c <= 'z') || ('A' <= c && c <= 'Z') || ('0' <= c && c <= '9') || c == '-'
        || c == '_' || c == '.' || c == '~'
}

/// Whether the characters `s` begin with the characters `p`.
fn chars_begin_with(s: &Vec<char>, p: &Vec<char>) -> (r: bool)
    ensures
        r == begins_with(s@, p@),
{
    if p.len() > s.len() {
        return false;
    }
    let mut i: usize = 0;
    while i < p.len()
        invariant
            p.len() <= s.len(),
            0 <= i <= p.len(),
            forall|k: int| 0 <= k < i ==> s@[k] == p@[k],
        decreases p.len() - i,
    {
        if s[i] != p[i] {
            assert(s@.subrange(0, p@.len() as int)[i as int] != p@[i as int]);
            return false;
        }
        i = i + 1;
    }
    assert(s@.subrange(0, p@.len() as int) =~= p@);
    true
}

/// Whether `s` already carries an explicit scheme.
pub fn has_explicit_scheme(s: &str) -> (r: bool)
    ensures
        r == has_scheme(s@),
{
    let cs = chars_of(s);
    let http: Vec<char> = vec!['h', 't', 't', 'p', ':', '/', '/'];
    let https: Vec<char> = vec!['h', 't', 't', 'p', 's', ':', '/', '/'];
    assert(http@ =~= http_prefix());
    assert(https@ =~= https_prefix());
    chars_begin_with(&cs, &http) || chars_begin_with(&cs, &https)
}

/// Replaces every character of `id` that is not URL-safe by `-`.
pub fn replace_illegal_url_chars(id: &str) -> (r: String)
    ensures
        r@ == sanitized(id@),
{
    let cs = chars_of(id);
    let mut out: Vec<char> = Vec::new();
    let mut i: usize = 0;
    while i < cs.len()
        invariant
            cs@ == id@,
            0 <= i <= cs.len(),
            out@ =~= sanitized(cs@.subrange(0, i as int)),
        decreases cs.len() - i,
    {
        let c = cs[i];
        if is_url_safe(c) {
            out.push(c);
        } else {
            out.push('-');
        }
        i = i + 1;
        assert(out@ =~= sanitized(cs@.subrange(0, i as int)));
    }
    assert(cs@.subrange(0, cs@.len() as int) =~= cs@);
    string_of(&out)
}

/// Gives `link` an explicit scheme: a target that begins with `http://` or
/// `https://` is kept, any other gets `http://` in front.
pub fn ensure_http_prefix(link: String) -> (r: String)
    ensures
        r@ == with_scheme(link@),
{
    let cs = chars_of(link.as_str());
    let http: Vec<char> = vec!['h', 't', 't', 'p', ':', '/', '/'];
    let https: Vec<char> = vec!['h', 't', 't', 'p', 's', ':', '/', '/'];
    assert(http@ =~= http_prefix());
    assert(https@ =~= https_prefix());
    if chars_begin_with(&cs, &http) || chars_begin_with(&cs, &https) {
        return link;
    }
    let mut out = http;
    let mut i: usize = 0;
    while i < cs.len()
        invariant
            0 <= i <= cs.len(),
            out@ =~= http_prefix() + cs@.subrange(0, i as int),
        decreases cs.len() - i,
    {
        out.push(cs[i]);
        i = i + 1;
        assert(out@ =~= http_prefix() + cs@.subrange(0, i as int));
    }
    assert(cs@.subrange(0, cs@.len() as int) =~= cs@);
    string_of(&out)
}

/// The characters `a`, then `/`, then `b`.
pub fn join_path(a: &str, b: &str) -> (r: String)
    ensures
        r@ == a@ + seq!['/'] + b@,
{
    let mut out = chars_of(a);
    let tail = chars_of(b);
    out.push('/');
    let ghost head = out@;
    let mut i: usize = 0;
    while i < tail.len()
        invariant
            0 <= i <= tail.len(),
            head == a@ + seq!['/'],
            out@ =~= head + tail@.subrange(0, i as int),
        decreases tail.len() - i,
    {
        out.push(tail[i]);
        i = i + 1;
        assert(out@ =~= head + tail@.subrange(0, i as int));
    }
    assert(tail@.subrange(0, tail@.len() as int) =~= tail@);
    string_of(&out)
}

} // verus!
