//! The generic symbol sequence and the comparison algorithms on it.

use vstd::prelude::*;
use vstd::string::StrSliceExecFns;

use crate::dna::DNA;
use crate::nucleotides::{same_symbol, Complementable, Nucleotide, Transcribable};
use crate::text::push_char;

verus! {

/// Parsing text that was joined from pieces gives the pieces' symbols,
/// joined.
pub proof fn lemma_parsed_concat<T: Nucleotide>(a: Seq<char>, b: Seq<char>)
    ensures
        parsed::<T>(a + b) == parsed::<T>(a) + parsed::<T>(b),
        all_valid::<T>(a + b) <==> all_valid::<T>(a) && all_valid::<T>(b),
{
    assert(parsed::<T>(a + b) =~= parsed::<T>(a) + parsed::<T>(b));
    if all_valid::<T>(a) && all_valid::<T>(b) {
        assert forall|i: int| 0 <= i < (a + b).len() implies (#[trigger] T::from_char_spec(
            (a + b)[i],
        )) is Some by {
            if i >= a.len() {
                assert((a + b)[i] == b[i - a.len()]);
            }
        }
    }
    if all_valid::<T>(a + b) {
        assert forall|i: int| 0 <= i < b.len() implies (#[trigger] T::from_char_spec(b[i])) is Some by {
            assert((a + b)[i + a.len()] == b[i]);
        }
        assert forall|i: int| 0 <= i < a.len() implies (#[trigger] T::from_char_spec(a[i])) is Some by {
            assert((a + b)[i] == a[i]);
        }
    }
}

/// Every character of `s` stands for a member of `T`'s alphabet.
pub open spec fn all_valid<T: Nucleotide>(s: Seq<char>) -> bool {
    forall|i: int| 0 <= i < s.len() ==> (#[trigger] T::from_char_spec(s[i])) is Some
}

/// Position `i` holds the first character of `s` that is no member of `T`'s alphabet.
pub open spec fn first_invalid<T: Nucleotide>(s: Seq<char>, i: int) -> bool {
    &&& 0 <= i < s.len()
    &&& T::from_char_spec(s[i]) is None
    &&& forall|j: int| 0 <= j < i ==> (#[trigger] T::from_char_spec(s[j])) is Some
}

/// The symbols that the characters of `s` stand for.
pub open spec fn parsed<T: Nucleotide>(s: Seq<char>) -> Seq<T> {
    Seq::new(s.len(), |i: int| T::from_char_spec(s[i])->0)
}

/// The text form of a sequence: one character per symbol.
pub open spec fn displayed<T: Nucleotide>(s: Seq<T>) -> Seq<char> {
    Seq::new(s.len(), |i: int| s[i].symbol_char())
}

/// Occurrences of `a` among the first `n` symbols of `s`.
pub open spec fn count_prefix<T>(s: Seq<T>, a: T, n: int) -> nat
    decreases n,
{
    if n <= 0 {
        0
    } else {
        count_prefix(s, a, n - 1) + if s[n - 1] == a {
            1nat
        } else {
            0nat
        }
    }
}

/// Occurrences of `a` in `s`.
pub open spec fn count_of<T>(s: Seq<T>, a: T) -> nat {
    count_prefix(s, a, s.len() as int)
}

/// Positions below `n` at which `a` and `b` differ.
pub open spec fn mismatches_prefix<T>(a: Seq<T>, b: Seq<T>, n: int) -> nat
    decreases n,
{
    if n <= 0 {
        0
    } else {
        mismatches_prefix(a, b, n - 1) + if a[n - 1] != b[n - 1] {
            1nat
        } else {
            0nat
        }
    }
}

/// The Hamming distance of two sequences of equal length.
pub open spec fn hamming<T>(a: Seq<T>, b: Seq<T>) -> nat {
    mismatches_prefix(a, b, a.len() as int)
}

/// `needle` stands in `haystack` from position `i` on.
pub open spec fn occurs_at<T>(needle: Seq<T>, haystack: Seq<T>, i: int) -> bool {
    &&& 0 <= i
    &&& i + needle.len() <= haystack.len()
    &&& haystack.subrange(i, i + needle.len()) == needle
}

/// The last `k` symbols of `a` are the first `k` symbols of `b`, for a
/// positive `k` that neither sequence is shorter than.
pub open spec fn overlaps<T>(a: Seq<T>, b: Seq<T>, k: int) -> bool {
    &&& 0 < k
    &&& k <= a.len()
    &&& k <= b.len()
    &&& a.subrange(a.len() - k, a.len() as int) == b.subrange(0, k)
}

/// The sequence read backwards, each symbol replaced by its pair.
pub open spec fn reverse_complement<T: Complementable>(s: Seq<T>) -> Seq<T> {
    Seq::new(s.len(), |i: int| s[s.len() - 1 - i].complement_spec())
}

/// Each symbol transcribed into alphabet `R`.
pub open spec fn transcription<T: Nucleotide, R: Transcribable<T>>(s: Seq<T>) -> Seq<R> {
    Seq::new(s.len(), |i: int| R::transcribed(s[i]))
}

/// Appends a copy of every element of `src` to `dst`.
fn extend_from<T: Copy>(dst: &mut Vec<T>, src: &Vec<T>)
    ensures
        final(dst)@ == old(dst)@ + src@,
{
    let ghost start = dst@;
    let mut i: usize = 0;
    while i < src.len()
        invariant
            i <= src@.len(),
            dst@ =~= start + src@.subrange(0, i as int),
        decreases src@.len() - i,
    {
        dst.push(src[i]);
        i = i + 1;
        assert(dst@ =~= start + src@.subrange(0, i as int));
    }
    assert(src@.subrange(0, i as int) =~= src@);
}

/// An ordered list of symbols of one alphabet.
#[derive(Debug, PartialEq, Eq)]
pub struct Strand<T: Nucleotide> {
    nucleotides: Vec<T>,
}

impl<T: Nucleotide> View for Strand<T> {
    type V = Seq<T>;

    closed spec fn view(&self) -> Seq<T> {
        self.nucleotides@
    }
}

impl<T: Nucleotide> Strand<T> {
    pub fn new(nucleotides: Vec<T>) -> (r: Self)
        ensures
            r@ == nucleotides@,
    {
        Strand { nucleotides }
    }

    /// Reads a strand from text, one symbol per character. The first
    /// character that is no member of the alphabet comes back as the error,
    /// and no strand is built.
    pub fn parse(s: &str) -> (r: Result<Self, char>)
        ensures
            match r {
                Ok(strand) => all_valid::<T>(s@) && strand@ == parsed::<T>(s@),
                Err(c) => exists|i: int| first_invalid::<T>(s@, i) && c == s@[i],
            },
    {
        let n = s.unicode_len();
        let mut nucleotides: Vec<T> = Vec::new();
        let mut i: usize = 0;
        while i < n
            invariant
                n == s@.len(),
                i <= n,
                nucleotides@.len() == i,
                forall|j: int| 0 <= j < i ==> (#[trigger] T::from_char_spec(s@[j])) is Some,
                forall|j: int| 0 <= j < i ==> nucleotides@[j] == T::from_char_spec(s@[j])->0,
            decreases n - i,
        {
            let c = s.get_char(i);
            match T::try_from_char(c) {
                Ok(a) => nucleotides.push(a),
                Err(e) => {
                    assert(first_invalid::<T>(s@, i as int));
                    return Err(e);
                },
            }
            i = i + 1;
        }
        assert(nucleotides@ =~= parsed::<T>(s@));
        Ok(Strand { nucleotides })
    }

    /// The text form: one character per symbol.
    pub fn to_string(&self) -> (r: String)
        ensures
            r@ == displayed(self@),
    {
        let mut out = String::new();
        let mut i: usize = 0;
        while i < self.nucleotides.len()
            invariant
                i <= self.nucleotides@.len(),
                out@ =~= displayed(self.nucleotides@.subrange(0, i as int)),
            decreases self.nucleotides@.len() - i,
        {
            push_char(&mut out, self.nucleotides[i].to_char());
            i = i + 1;
            assert(out@ =~= displayed(self.nucleotides@.subrange(0, i as int)));
        }
        assert(self.nucleotides@.subrange(0, i as int) =~= self.nucleotides@);
        out
    }

    /// A new strand holding this strand followed by `other`.
    pub fn concat(&self, other: &Strand<T>) -> (r: Self)
        ensures
            r@ == self@ + other@,
    {
        let mut nucleotides: Vec<T> = Vec::new();
        extend_from(&mut nucleotides, &self.nucleotides);
        extend_from(&mut nucleotides, &other.nucleotides);
        Strand { nucleotides }
    }

    /// Appends a copy of every symbol of `other`.
    pub fn extend(&mut self, other: &Strand<T>)
        ensures
            final(self)@ == old(self)@ + other@,
    {
        extend_from(&mut self.nucleotides, &other.nucleotides);
    }

    pub fn push(&mut self, nucleotide: T)
        ensures
            final(self)@ == old(self)@.push(nucleotide),
    {
        self.nucleotides.push(nucleotide);
    }

    /// The number of symbols in the strand.
    pub fn len(&self) -> (r: usize)
        ensures
            r == self@.len(),
    {
        self.nucleotides.len()
    }

    /// The symbol at position `i`.
    pub fn get(&self, i: usize) -> (r: T)
        requires
            i < self@.len(),
        ensures
            r == self@[i as int],
    {
        self.nucleotides[i]
    }

    /// Every member of the alphabet, in enumeration order, with the number
    /// of times it occurs in the strand (zero included).
    pub fn count_nucleotides(&self) -> (r: Vec<(T, u32)>)
        requires
            self@.len() <= u32::MAX,
        ensures
            r@.len() == T::alphabet_size(),
            forall|k: int|
                0 <= k < r@.len() ==> (#[trigger] r@[k]).0.rank() == k && r@[k].1 == count_of(
                    self@,
                    r@[k].0,
                ),
    {
        let alphabet = T::alphabet();
        let size = alphabet.len();
        let mut counts: Vec<u32> = Vec::new();
        let mut k: usize = 0;
        while k < size
            invariant
                size == alphabet@.len(),
                k <= size,
                counts@.len() == k,
                forall|j: int| 0 <= j < k ==> counts@[j] == 0,
            decreases size - k,
        {
            counts.push(0);
            k = k + 1;
        }
        let mut i: usize = 0;
        while i < self.nucleotides.len()
            invariant
                size == alphabet@.len() == T::alphabet_size(),
                forall|j: int| 0 <= j < size ==> (#[trigger] alphabet@[j]).rank() == j,
                i <= self.nucleotides@.len() <= u32::MAX,
                counts@.len() == size,
                forall|j: int|
                    0 <= j < size ==> #[trigger] counts@[j] == count_prefix(
                        self.nucleotides@,
                        alphabet@[j],
                        i as int,
                    ),
                forall|j: int|
                    0 <= j < size ==> count_prefix(self.nucleotides@, #[trigger] alphabet@[j], i as int)
                        <= i,
            decreases self.nucleotides@.len() - i,
        {
            let a = self.nucleotides[i];
            let r = a.index();
            proof {
                T::lemma_rank_bounded(a);
                assert forall|j: int| 0 <= j < size implies (#[trigger] alphabet@[j] == a) == (j
                    == r) by {
                    T::lemma_rank_injective(alphabet@[j], a);
                }
            }
            counts.set(r, counts[r] + 1);
            i = i + 1;
        }
        let mut out: Vec<(T, u32)> = Vec::new();
        let mut k: usize = 0;
        while k < size
            invariant
                size == alphabet@.len() == T::alphabet_size(),
                forall|j: int| 0 <= j < size ==> (#[trigger] alphabet@[j]).rank() == j,
                i == self.nucleotides@.len(),
                counts@.len() == size,
                forall|j: int|
                    0 <= j < size ==> #[trigger] counts@[j] == count_prefix(
                        self.nucleotides@,
                        alphabet@[j],
                        i as int,
                    ),
                k <= size,
                out@.len() == k,
                forall|j: int|
                    0 <= j < k ==> (#[trigger] out@[j]).0 == alphabet@[j] && out@[j].1
                        == counts@[j],
            decreases size - k,
        {
            out.push((alphabet[k], counts[k]));
            k = k + 1;
        }
        out
    }

    /// Each symbol transcribed into alphabet `R`.
    pub fn transcribe<R: Transcribable<T>>(&self) -> (r: Strand<R>)
        ensures
            r@ == transcription::<T, R>(self@),
    {
        let mut nucleotides: Vec<R> = Vec::new();
        let mut i: usize = 0;
        while i < self.nucleotides.len()
            invariant
                i <= self.nucleotides@.len(),
                nucleotides@ =~= transcription::<T, R>(self.nucleotides@.subrange(0, i as int)),
            decreases self.nucleotides@.len() - i,
        {
            nucleotides.push(R::transcribe_from(&self.nucleotides[i]));
            i = i + 1;
            assert(nucleotides@ =~= transcription::<T, R>(
                self.nucleotides@.subrange(0, i as int),
            ));
        }
        assert(self.nucleotides@.subrange(0, i as int) =~= self.nucleotides@);
        Strand { nucleotides }
    }

    /// The Hamming distance: the number of positions at which the two
    /// strands differ.
    pub fn distance(&self, other: &Self) -> (r: usize)
        requires
            self@.len() == other@.len(),
        ensures
            r == hamming(self@, other@),
    {
        let n = self.nucleotides.len();
        let mut count: usize = 0;
        let mut i: usize = 0;
        while i < n
            invariant
                n == self.nucleotides@.len() == other.nucleotides@.len(),
                i <= n,
                count == mismatches_prefix(self.nucleotides@, other.nucleotides@, i as int),
                count <= i,
            decreases n - i,
        {
            if !same_symbol(&self.nucleotides[i], &other.nucleotides[i]) {
                count = count + 1;
            }
            i = i + 1;
        }
        count
    }

    /// Whether this strand stands in `other` from `start_index` on.
    pub fn is_substr_starting_from(&self, other: &Strand<T>, start_index: usize) -> (r: bool)
        ensures
            r == occurs_at(self@, other@, start_index as int),
    {
        let n = self.nucleotides.len();
        let m = other.nucleotides.len();
        if start_index > m || n > m - start_index {
            return false;
        }
        let mut i: usize = 0;
        while i < n
            invariant
                n == self.nucleotides@.len(),
                m == other.nucleotides@.len(),
                start_index + n <= m,
                i <= n,
                forall|k: int|
                    0 <= k < i ==> other.nucleotides@[start_index + k] == self.nucleotides@[k],
            decreases n - i,
        {
            if !same_symbol(&self.nucleotides[i], &other.nucleotides[start_index + i]) {
                assert(other.nucleotides@.subrange(
                    start_index as int,
                    start_index + n,
                )[i as int] != self.nucleotides@[i as int]);
                return false;
            }
            i = i + 1;
        }
        assert(other.nucleotides@.subrange(start_index as int, start_index + n)
            =~= self.nucleotides@);
        true
    }

    /// Every position at which this strand stands in `other`, in ascending
    /// order, overlapping occurrences included.
    pub fn substrings(&self, other: &Strand<T>) -> (r: Vec<usize>)
        ensures
            forall|j: int| 0 <= j < r@.len() ==> occurs_at(self@, other@, #[trigger] r@[j] as int),
            forall|j: int, k: int| 0 <= j < k < r@.len() ==> r@[j] < r@[k],
            forall|i: int|
                occurs_at(self@, other@, i) ==> exists|j: int| 0 <= j < r@.len() && #[trigger] r@[j] == i,
    {
        let mut indexes: Vec<usize> = Vec::new();
        if other.nucleotides.len() < self.nucleotides.len() {
            return indexes;
        }
        let last = other.nucleotides.len() - self.nucleotides.len();
        let mut i: usize = 0;
        loop
            invariant_except_break
                forall|j: int| 0 <= j < indexes@.len() ==> #[trigger] indexes@[j] < i,
            invariant
                last + self@.len() == other@.len(),
                i <= last,
                forall|j: int| 0 <= j < indexes@.len() ==> occurs_at(self@, other@, #[trigger] indexes@[j] as int),
                forall|j: int, k: int| 0 <= j < k < indexes@.len() ==> indexes@[j] < indexes@[k],
                forall|p: int|
                    0 <= p < i && occurs_at(self@, other@, p) ==> exists|j: int|
                        0 <= j < indexes@.len() && #[trigger] indexes@[j] == p,
            ensures
                forall|j: int| 0 <= j < indexes@.len() ==> occurs_at(self@, other@, #[trigger] indexes@[j] as int),
                forall|j: int, k: int| 0 <= j < k < indexes@.len() ==> indexes@[j] < indexes@[k],
                forall|p: int|
                    0 <= p <= last && occurs_at(self@, other@, p) ==> exists|j: int|
                        0 <= j < indexes@.len() && #[trigger] indexes@[j] == p,
            decreases last - i,
        {
            let ghost before = indexes@;
            if self.is_substr_starting_from(other, i) {
                indexes.push(i);
                assert(indexes@[indexes@.len() - 1] == i);
            }
            proof {
                assert forall|p: int|
                    0 <= p <= i && occurs_at(self@, other@, p) implies exists|j: int|
                        0 <= j < indexes@.len() && #[trigger] indexes@[j] == p by {
                    if p < i {
                        let j = choose|j: int| 0 <= j < before.len() && #[trigger] before[j] == p;
                        assert(indexes@[j] == p);
                    } else {
                        assert(indexes@[indexes@.len() - 1] == p);
                    }
                }
            }
            if i == last {
                break;
            }
            i = i + 1;
        }
        indexes
    }

    /// Whether the last `length` symbols of this strand are the first
    /// `length` symbols of `other`; false for a length of zero or one that
    /// exceeds either strand.
    pub fn overlaps_with_length(&self, other: &Strand<T>, length: usize) -> (r: bool)
        ensures
            r == overlaps(self@, other@, length as int),
    {
        let n = self.nucleotides.len();
        if length == 0 || n < length || other.nucleotides.len() < length {
            return false;
        }
        let mut i: usize = 0;
        while i < length
            invariant
                n == self.nucleotides@.len(),
                0 < length <= n,
                length <= other.nucleotides@.len(),
                i <= length,
                forall|k: int|
                    0 <= k < i ==> self.nucleotides@[n - length + k] == other.nucleotides@[k],
            decreases length - i,
        {
            if !same_symbol(&self.nucleotides[n - length + i], &other.nucleotides[i]) {
                assert(self.nucleotides@.subrange(n - length, n as int)[i as int]
                    != other.nucleotides@.subrange(0, length as int)[i as int]);
                return false;
            }
            i = i + 1;
        }
        assert(self.nucleotides@.subrange(n - length, n as int) =~= other.nucleotides@.subrange(
            0,
            length as int,
        ));
        true
    }
}

impl<T: Nucleotide> core::str::FromStr for Strand<T> {
    type Err = char;

    /// See `Strand::parse`.
    fn from_str(s: &str) -> Result<Strand<T>, char> {
        Strand::parse(s)
    }
}

impl<T: Complementable> Strand<T> {
    /// The strand read backwards, each symbol replaced by its pair.
    pub fn reverse_compliment(&self) -> (r: Strand<T>)
        ensures
            r@ == reverse_complement(self@),
    {
        let n = self.nucleotides.len();
        let mut nucleotides: Vec<T> = Vec::new();
        let mut i: usize = 0;
        while i < n
            invariant
                n == self.nucleotides@.len(),
                i <= n,
                nucleotides@.len() == i,
                forall|k: int|
                    0 <= k < i ==> nucleotides@[k] == (#[trigger] self.nucleotides@[n - 1
                        - k]).complement_spec(),
            decreases n - i,
        {
            nucleotides.push(self.nucleotides[n - 1 - i].compliment());
            i = i + 1;
        }
        assert(nucleotides@ =~= reverse_complement(self.nucleotides@));
        Strand { nucleotides }
    }
}

impl Strand<DNA> {
    /// The number of G and C bases: the numerator of the GC content.
    pub fn gc_count(&self) -> (r: usize)
        ensures
            r == count_of(self@, DNA::G) + count_of(self@, DNA::C),
    {
        let mut g: usize = 0;
        let mut c: usize = 0;
        let mut i: usize = 0;
        while i < self.nucleotides.len()
            invariant
                i <= self.nucleotides@.len(),
                g == count_prefix(self.nucleotides@, DNA::G, i as int),
                c == count_prefix(self.nucleotides@, DNA::C, i as int),
                g + c <= i,
            decreases self.nucleotides@.len() - i,
        {
            let a = self.nucleotides[i];
            if a == DNA::G {
                g = g + 1;
            } else if a == DNA::C {
                c = c + 1;
            }
            i = i + 1;
        }
        g + c
    }
}

/// Text made of alphabet characters reads back as itself: displaying what
/// was parsed gives the text again.
pub proof fn lemma_parse_display_round_trip<T: Nucleotide>(s: Seq<char>)
    requires
        all_valid::<T>(s),
    ensures
        displayed(parsed::<T>(s)) == s,
{
    assert forall|i: int| 0 <= i < s.len() implies #[trigger] displayed(parsed::<T>(s))[i]
        == s[i] by {
        T::lemma_parsed_char(s[i]);
    }
    assert(displayed(parsed::<T>(s)) =~= s);
}

/// Every sequence displays as valid text, which parses back to it.
pub proof fn lemma_display_parse_round_trip<T: Nucleotide>(q: Seq<T>)
    ensures
        all_valid::<T>(displayed(q)),
        parsed::<T>(displayed(q)) == q,
{
    assert forall|i: int| 0 <= i < q.len() implies #[trigger] T::from_char_spec(
        displayed(q)[i],
    ) == Some(q[i]) by {
        T::lemma_char_round_trip(q[i]);
    }
    assert(parsed::<T>(displayed(q)) =~= q);
}

/// Taking the reverse complement twice gives the sequence back.
pub proof fn lemma_reverse_complement_involutive<T: Complementable>(s: Seq<T>)
    ensures
        reverse_complement(reverse_complement(s)) == s,
{
    assert forall|i: int| 0 <= i < s.len() implies #[trigger] reverse_complement(
        reverse_complement(s),
    )[i] == s[i] by {
        T::lemma_complement_involutive(s[i]);
    }
    assert(reverse_complement(reverse_complement(s)) =~= s);
}

proof fn lemma_mismatches_symmetric<T>(a: Seq<T>, b: Seq<T>, n: int)
    ensures
        mismatches_prefix(a, b, n) == mismatches_prefix(b, a, n),
        mismatches_prefix(a, a, n) == 0,
    decreases n,
{
    if n > 0 {
        lemma_mismatches_symmetric(a, b, n - 1);
    }
}

/// The Hamming distance is symmetric, and zero from a sequence to itself.
pub proof fn lemma_distance_symmetric<T>(a: Seq<T>, b: Seq<T>)
    requires
        a.len() == b.len(),
    ensures
        hamming(a, b) == hamming(b, a),
        hamming(a, a) == 0,
{
    lemma_mismatches_symmetric(a, b, a.len() as int);
}

} // verus!
