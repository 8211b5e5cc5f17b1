//! Protein motifs in the shorthand `N{P}[ST]{P}`, where `{X}` means any
//! residue but `X`, searched for with a regular expression.

use regex::Regex;
use vstd::prelude::*;
use vstd::string::{StrSliceExecFns, StringExecFns};

use crate::text::push_char;

verus! {

#[verifier::external_type_specification]
#[verifier::external_body]
pub struct ExRegex(regex::Regex);

#[verifier::external_type_specification]
#[verifier::external_body]
pub struct ExRegexError(regex::Error);

/// Whether `regex::Regex::new` accepts a pattern.
pub uninterp spec fn regex_compiles(p: Seq<char>) -> bool;

/// Relies on `regex::Regex::new`: it accepts or rejects a pattern by the
/// pattern alone.
#[verifier::external_body]
fn compile(pattern: &str) -> (r: Result<Regex, regex::Error>)
    ensures
        r is Ok <==> regex_compiles(pattern@),
{
    Regex::new(pattern)
}

/// Relies on `regex::Regex::find_at`: it panics only when `start` exceeds
/// the byte length of the text, and a match it finds starts at or after
/// `start`, within the text.
#[verifier::external_body]
fn find_start(re: &Regex, haystack: &str, start: usize) -> (r: Option<usize>)
    requires
        start <= haystack.len(),
    ensures
        r is Some ==> start <= r->0 <= haystack.len(),
{
    re.find_at(haystack, start).map(|m| m.start())
}

pub open spec fn is_upper(c: char) -> bool {
    'A' <= c <= 'Z'
}

/// The regular expression that a motif stands for: every `{X}` with `X` an
/// upper-case letter becomes `[^X]`, scanning from the left; all other
/// characters stay.
pub open spec fn motif_regex(p: Seq<char>) -> Seq<char>
    decreases p.len(),
{
    if p.len() == 0 {
        Seq::empty()
    } else if p.len() >= 3 && p[0] == '{' && is_upper(p[1]) && p[2] == '}' {
        seq!['[', '^', p[1], ']'] + motif_regex(p.subrange(3, p.len() as int))
    } else {
        seq![p[0]] + motif_regex(p.drop_first())
    }
}

/// Rewrites a motif into its regular expression.
pub fn motif_to_regex(pattern: &str) -> (r: String)
    ensures
        r@ == motif_regex(pattern@),
{
    let ghost p = pattern@;
    let n = pattern.unicode_len();
    let mut out = String::new();
    let mut i: usize = 0;
    assert(p.subrange(0, n as int) =~= p);
    while i < n
        invariant
            p == pattern@,
            n == p.len(),
            i <= n,
            out@ + motif_regex(p.subrange(i as int, n as int)) == motif_regex(p),
        decreases n - i,
    {
        let ghost rest = p.subrange(i as int, n as int);
        let c = pattern.get_char(i);
        let replaced = if c == '{' && n - i > 2 {
            let x = pattern.get_char(i + 1);
            if 'A' <= x && x <= 'Z' && pattern.get_char(i + 2) == '}' {
                push_char(&mut out, '[');
                push_char(&mut out, '^');
                push_char(&mut out, x);
                push_char(&mut out, ']');
                proof {
                    assert(rest.subrange(3, rest.len() as int) =~= p.subrange(i + 3, n as int));
                    assert(out@ + motif_regex(p.subrange(i + 3, n as int)) =~= motif_regex(p));
                }
                true
            } else {
                false
            }
        } else {
            false
        };
        if replaced {
            i = i + 3;
        } else {
            push_char(&mut out, c);
            proof {
                assert(rest.drop_first() =~= p.subrange(i + 1, n as int));
                assert(out@ + motif_regex(p.subrange(i + 1, n as int)) =~= motif_regex(p));
            }
            i = i + 1;
        }
    }
    assert(out@ + Seq::<char>::empty() =~= out@);
    out
}

/// A compiled motif.
pub struct Motif {
    re: Regex,
    pattern: String,
}

impl Motif {
    /// The regular expression that the motif was compiled from.
    pub closed spec fn regex_text(&self) -> Seq<char> {
        self.pattern@
    }

    /// Compiles a motif; the error is the regular expression's, when its
    /// rewriting does not compile.
    pub fn new(pattern: &str) -> (r: Result<Motif, regex::Error>)
        ensures
            r is Ok <==> regex_compiles(motif_regex(pattern@)),
            r is Ok ==> r->Ok_0.regex_text() == motif_regex(pattern@),
    {
        let rewritten = motif_to_regex(pattern);
        match compile(rewritten.as_str()) {
            Ok(re) => Ok(Motif { re, pattern: rewritten }),
            Err(e) => Err(e),
        }
    }

    /// The regular expression that the motif was compiled from.
    pub fn as_str(&self) -> (r: &str)
        ensures
            r@ == self.regex_text(),
    {
        self.pattern.as_str()
    }

    /// Starts a search of `haystack` from its beginning.
    pub fn matches<'a>(&'a self, haystack: &'a str) -> (r: MotifMatches<'a, 'a>)
        ensures
            r.position() == 0,
            r.haystack() == haystack@,
    {
        MotifMatches { motif: self, position: 0, haystack }
    }
}

/// The start positions (byte offsets) of the matches of a motif, each
/// search beginning one byte after the previous match's start, so that
/// matches may overlap.
pub struct MotifMatches<'m, 'a> {
    motif: &'m Motif,
    position: usize,
    haystack: &'a str,
}

impl<'m, 'a> MotifMatches<'m, 'a> {
    /// Where the next search begins.
    pub closed spec fn position(&self) -> nat {
        self.position as nat
    }

    pub closed spec fn haystack(&self) -> Seq<char> {
        self.haystack@
    }

    /// The length of the text in bytes.
    pub closed spec fn haystack_len(&self) -> nat {
        self.haystack.len() as nat
    }

    /// The start of the next match at or after the current position; the
    /// next search then begins one byte later. `None` once the position has
    /// reached the end of the text, or when no match is left.
    pub fn next(&mut self) -> (r: Option<usize>)
        ensures
            final(self).haystack() == old(self).haystack(),
            final(self).haystack_len() == old(self).haystack_len(),
            old(self).position() >= old(self).haystack_len() ==> r is None,
            r is None ==> final(self).position() == old(self).position(),
            r is Some ==> {
                &&& old(self).position() <= r->0 <= old(self).haystack_len()
                &&& r->0 < old(self).haystack_len() ==> final(self).position() == r->0 + 1
                &&& r->0 == old(self).haystack_len() ==> final(self).position() == r->0
            },
    {
        let len = self.haystack.len();
        if self.position >= len {
            return None;
        }
        match find_start(&self.motif.re, self.haystack, self.position) {
            None => None,
            Some(start) => {
                self.position = if start < len {
                    start + 1
                } else {
                    len
                };
                Some(start)
            },
        }
    }
}

} // verus!
