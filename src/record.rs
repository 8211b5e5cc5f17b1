//! DNA records read from one block of FASTA text: every `>` opens a record,
//! whose first line names it and whose other lines, trimmed, hold its bases.

use vstd::prelude::*;
use vstd::string::{StrSliceExecFns, StringExecFns};

use crate::dna::DNA;
use crate::dna_chain::DNAChain;
use crate::fasta::{is_header, joined, str_views};
use crate::strands::{all_valid, parsed};
use crate::text::{push_char, trim_of};

verus! {

/// What `str::lines` splits a text into.
pub uninterp spec fn lines_of(s: Seq<char>) -> Seq<Seq<char>>;

/// Relies on `str::lines`: the lines of the text, without their line
/// endings.
#[verifier::external_body]
fn lines(s: &str) -> (r: Vec<&str>)
    ensures
        str_views(r@) == lines_of(s@),
{
    s.lines().collect()
}

/// Why a block of text could not be read as records.
#[derive(Debug, Clone)]
pub struct ParseRecordError {
    message: String,
}

impl View for ParseRecordError {
    type V = Seq<char>;

    closed spec fn view(&self) -> Seq<char> {
        self.message@
    }
}

impl ParseRecordError {
    pub fn new(message: &str) -> (r: ParseRecordError)
        ensures
            r@ == message@,
    {
        ParseRecordError { message: String::from_str(message) }
    }

    /// The explanation.
    pub fn message(&self) -> (r: &str)
        ensures
            r@ == self@,
    {
        self.message.as_str()
    }
}

/// A named DNA record.
#[derive(Debug, PartialEq, Eq)]
pub struct Record {
    pub name: String,
    pub dna_string: DNAChain,
}

/// The text cut before every `>`; text before the first `>` belongs to no
/// record.
pub open spec fn record_chunks(s: Seq<char>) -> Seq<Seq<char>>
    decreases s.len(),
{
    if s.len() == 0 {
        Seq::empty()
    } else {
        let prev = record_chunks(s.drop_last());
        let c = s.last();
        if c == '>' {
            prev.push(seq!['>'])
        } else if prev.len() == 0 {
            prev
        } else {
            prev.update(prev.len() - 1, prev.last().push(c))
        }
    }
}

/// The lines of a record: a header first, then lines that hold only bases
/// once trimmed.
pub open spec fn record_lines_ok(ls: Seq<Seq<char>>) -> bool {
    &&& ls.len() > 0
    &&& is_header(ls[0])
    &&& forall|i: int| 1 <= i < ls.len() ==> all_valid::<DNA>(trim_of(#[trigger] ls[i]))
}

/// The bases of a record: its lines after the first, trimmed and joined.
pub open spec fn record_body(ls: Seq<Seq<char>>) -> Seq<char> {
    joined(Seq::new((ls.len() - 1) as nat, |i: int| trim_of(ls[i + 1])))
}

fn message_with_char(text: &str, c: char) -> (r: ParseRecordError)
    ensures
        r@ == text@.push(c),
{
    let mut m = String::from_str(text);
    push_char(&mut m, c);
    ParseRecordError { message: m }
}

impl Record {
    /// The name that the first line of a record gives.
    pub fn parse_name(s: &str) -> (r: Result<&str, ParseRecordError>)
        ensures
            r is Ok <==> is_header(s@),
            r is Ok ==> r->Ok_0@ == s@.drop_first(),
    {
        let n = s.unicode_len();
        if n == 0 {
            return Err(
                ParseRecordError::new("First line of record must start with a '>', received None"),
            );
        }
        let first = s.get_char(0);
        if first != '>' {
            return Err(
                message_with_char("First line of a record must start with a '>', received ", first),
            );
        }
        let rest = s.substring_char(1, n);
        assert(rest@ =~= s@.drop_first());
        Ok(rest)
    }

    /// Reads one record: a header line, then lines of bases.
    pub fn from_str(s: &str) -> (r: Result<Record, ParseRecordError>)
        ensures
            r is Ok <==> record_lines_ok(lines_of(s@)),
            r is Ok ==> r->Ok_0.name@ == lines_of(s@)[0].drop_first() && r->Ok_0.dna_string@
                == parsed::<DNA>(record_body(lines_of(s@))),
    {
        let ls = lines(s);
        let ghost v = lines_of(s@);
        assert(ls@.len() == v.len() && forall|i: int| 0 <= i < v.len() ==> ls@[i]@ == v[i]);
        if ls.len() == 0 {
            return Err(ParseRecordError::new("Expected a non-empty string"));
        }
        let name = match Record::parse_name(ls[0]) {
            Ok(name) => name,
            Err(e) => {
                return Err(e);
            },
        };
        let mut dna_chain = DNAChain::new(Vec::new());
        let mut i: usize = 1;
        proof {
            let body = Seq::new(0nat, |j: int| trim_of(v[j + 1]));
            assert(joined(body) =~= Seq::<char>::empty());
            assert(parsed::<DNA>(Seq::<char>::empty()) =~= Seq::<DNA>::empty());
        }
        while i < ls.len()
            invariant
                v == lines_of(s@),
                ls@.len() == v.len(),
                forall|j: int| 0 <= j < v.len() ==> ls@[j]@ == v[j],
                is_header(v[0]),
                1 <= i <= v.len(),
                forall|j: int| 1 <= j < i ==> all_valid::<DNA>(trim_of(#[trigger] v[j])),
                all_valid::<DNA>(joined(Seq::new((i - 1) as nat, |j: int| trim_of(v[j + 1])))),
                dna_chain@ == parsed::<DNA>(
                    joined(Seq::new((i - 1) as nat, |j: int| trim_of(v[j + 1]))),
                ),
            decreases v.len() - i,
        {
            match DNAChain::parse_str(ls[i]) {
                Ok(line) => {
                    proof {
                        let before = Seq::new((i - 1) as nat, |j: int| trim_of(v[j + 1]));
                        let after = Seq::new(i as nat, |j: int| trim_of(v[j + 1]));
                        assert(after.drop_last() =~= before);
                        crate::strands::lemma_parsed_concat::<DNA>(joined(before), trim_of(v[i as int]));
                    }
                    dna_chain.append(line);
                },
                Err(c) => {
                    proof {
                        assert(!all_valid::<DNA>(trim_of(v[i as int])));
                    }
                    return Err(message_with_char("Unrecognized base: ", c));
                },
            }
            i = i + 1;
        }
        Ok(Record { name: String::from_str(name), dna_string: dna_chain })
    }

    /// Reads every record of a block of text; the first record that cannot
    /// be read gives the error.
    pub fn parse_records(s: &str) -> (r: Result<Vec<Record>, ParseRecordError>)
        ensures
            r is Ok <==> forall|k: int|
                0 <= k < record_chunks(s@).len() ==> record_lines_ok(
                    lines_of(#[trigger] record_chunks(s@)[k]),
                ),
            r is Ok ==> r->Ok_0@.len() == record_chunks(s@).len(),
            r is Ok ==> forall|k: int|
                0 <= k < r->Ok_0@.len() ==> (#[trigger] r->Ok_0@[k]).name@ == lines_of(
                    record_chunks(s@)[k],
                )[0].drop_first() && r->Ok_0@[k].dna_string@ == parsed::<DNA>(
                    record_body(lines_of(record_chunks(s@)[k])),
                ),
    {
        let ghost cs = record_chunks(s@);
        let n = s.unicode_len();
        let mut chunks: Vec<String> = Vec::new();
        let mut open = false;
        let mut current = String::new();
        let mut i: usize = 0;
        while i < n
            invariant
                n == s@.len(),
                i <= n,
                open == (record_chunks(s@.subrange(0, i as int)).len() > 0),
                open ==> chunks@.len() + 1 == record_chunks(s@.subrange(0, i as int)).len(),
                !open ==> chunks@.len() == 0,
                open ==> current@ == record_chunks(s@.subrange(0, i as int)).last(),
                forall|k: int|
                    0 <= k < chunks@.len() ==> (#[trigger] chunks@[k])@ == record_chunks(
                        s@.subrange(0, i as int),
                    )[k],
            decreases n - i,
        {
            let c = s.get_char(i);
            proof {
                assert(s@.subrange(0, i + 1).drop_last() =~= s@.subrange(0, i as int));
            }
            if c == '>' {
                if open {
                    chunks.push(current);
                }
                current = String::new();
                push_char(&mut current, '>');
                open = true;
                proof {
                    assert(current@ =~= seq!['>']);
                }
            } else if open {
                push_char(&mut current, c);
            }
            i = i + 1;
        }
        assert(s@.subrange(0, n as int) =~= s@);
        if open {
            chunks.push(current);
        }
        let mut records: Vec<Record> = Vec::new();
        let mut k: usize = 0;
        while k < chunks.len()
            invariant
                cs == record_chunks(s@),
                chunks@.len() == cs.len(),
                forall|j: int| 0 <= j < chunks@.len() ==> (#[trigger] chunks@[j])@ == cs[j],
                k <= chunks@.len(),
                records@.len() == k,
                forall|j: int| 0 <= j < k ==> record_lines_ok(lines_of(#[trigger] cs[j])),
                forall|j: int|
                    0 <= j < k ==> (#[trigger] records@[j]).name@ == lines_of(cs[j])[0].drop_first()
                        && records@[j].dna_string@ == parsed::<DNA>(record_body(lines_of(cs[j]))),
            decreases chunks@.len() - k,
        {
            match Record::from_str(chunks[k].as_str()) {
                Ok(record) => records.push(record),
                Err(e) => {
                    return Err(e);
                },
            }
            k = k + 1;
        }
        Ok(records)
    }
}

} // verus!
