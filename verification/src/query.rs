//! Parsing an mDNS query out of a raw datagram.
//!
//! A datagram is a query when it is at least a full header long, its
//! response bit is clear, and its opcode is zero, and every question the
//! header announces parses: a name of plain labels (1 to 63 bytes each,
//! terminated by the root label) followed by a 16-bit type and class.
//! Anything else is not a query; the responder drops it silently.

use vstd::prelude::*;

use crate::wire::u16_of;

verus! {

/// One question of a query. The name is kept in wire form: length-prefixed
/// labels ending with the root label.
#[derive(Clone, Debug, PartialEq, Eq)]
pub struct Question {
    pub name: Vec<u8>,
    pub qtype: u16,
    pub qclass: u16,
}

/// The mathematical value of a question.
pub struct QuestionModel {
    pub name: Seq<u8>,
    pub qtype: u16,
    pub qclass: u16,
}

impl View for Question {
    type V = QuestionModel;

    open spec fn view(&self) -> QuestionModel {
        QuestionModel { name: self.name@, qtype: self.qtype, qclass: self.qclass }
    }
}

/// The values of a sequence of questions.
pub open spec fn question_views(qv: Seq<Question>) -> Seq<QuestionModel> {
    Seq::new(qv.len(), |i: int| qv[i]@)
}

/// A parsed query: its identifier and its questions.
#[derive(Clone, Debug, PartialEq, Eq)]
pub struct Query {
    pub id: u16,
    pub questions: Vec<Question>,
}

/// The mathematical value of a query.
pub struct QueryModel {
    pub id: u16,
    pub questions: Seq<QuestionModel>,
}

impl View for Query {
    type V = QueryModel;

    open spec fn view(&self) -> QueryModel {
        QueryModel { id: self.id, questions: question_views(self.questions@) }
    }
}

/// Parse a name at position `i`: the name in wire form and the position
/// after it. Only plain labels are accepted; a compressed or overlong
/// label makes the name unparseable.
pub open spec fn spec_parse_name(d: Seq<u8>, i: int) -> Option<(Seq<u8>, int)>
    decreases d.len() - i,
{
    if i < 0 || i >= d.len() {
        None
    } else if d[i] == 0 {
        Some((seq![0u8], i + 1))
    } else if d[i] <= 63 && i + 1 + d[i] <= d.len() {
        match spec_parse_name(d, i + 1 + d[i]) {
            None => None,
            Some((rest, j)) => Some((seq![d[i]] + d.subrange(i + 1, i + 1 + d[i]) + rest, j)),
        }
    } else {
        None
    }
}

/// Parse one question at position `i`.
pub open spec fn spec_parse_question(d: Seq<u8>, i: int) -> Option<(QuestionModel, int)> {
    match spec_parse_name(d, i) {
        None => None,
        Some((name, j)) => if j + 4 <= d.len() {
            Some(
                (
                    QuestionModel {
                        name,
                        qtype: u16_of(d[j], d[j + 1]),
                        qclass: u16_of(d[j + 2], d[j + 3]),
                    },
                    j + 4,
                ),
            )
        } else {
            None
        },
    }
}

/// Parse `n` questions in a row starting at position `i`.
pub open spec fn spec_parse_questions(d: Seq<u8>, i: int, n: int) -> Option<
    (Seq<QuestionModel>, int),
>
    decreases n,
{
    if n <= 0 {
        Some((Seq::empty(), i))
    } else {
        match spec_parse_question(d, i) {
            None => None,
            Some((q, j)) => match spec_parse_questions(d, j, n - 1) {
                None => None,
                Some((qs, k)) => Some((seq![q] + qs, k)),
            },
        }
    }
}

/// Parse a datagram as a query: header of at least 12 bytes, response bit
/// clear, opcode zero, and as many questions as the header announces.
/// Bytes after the questions (for instance known-answer records) are
/// ignored.
pub open spec fn spec_parse_query(d: Seq<u8>) -> Option<QueryModel> {
    if d.len() < 12 {
        None
    } else if d[2] & 0xF8 != 0 {
        None
    } else {
        match spec_parse_questions(d, 12, u16_of(d[4], d[5]) as int) {
            None => None,
            Some((qs, _)) => Some(QueryModel { id: u16_of(d[0], d[1]), questions: qs }),
        }
    }
}

/// A parsed name ends strictly after it starts and within the datagram.
pub proof fn lemma_parse_name_bounds(d: Seq<u8>, i: int)
    requires
        0 <= i,
        spec_parse_name(d, i) is Some,
    ensures
        i < spec_parse_name(d, i).unwrap().1 <= d.len(),
    decreases d.len() - i,
{
    if d[i] == 0 {
    } else {
        lemma_parse_name_bounds(d, i + 1 + d[i]);
    }
}

/// Parsing `n` questions yields exactly `n` questions.
pub proof fn lemma_parse_questions_count(d: Seq<u8>, i: int, n: int)
    requires
        n >= 0,
        spec_parse_questions(d, i, n) is Some,
    ensures
        spec_parse_questions(d, i, n).unwrap().0.len() == n,
    decreases n,
{
    if n > 0 {
        let j = spec_parse_question(d, i).unwrap().1;
        lemma_parse_questions_count(d, j, n - 1);
    }
}

/// Parse a name starting at `start`.
pub fn parse_name(d: &Vec<u8>, start: usize) -> (r: Option<(Vec<u8>, usize)>)
    ensures
        (match spec_parse_name(d@, start as int) {
            None => r is None,
            Some(p) => r is Some && r.unwrap().0@ == p.0 && r.unwrap().1 == p.1,
        }),
{
    let mut acc: Vec<u8> = Vec::new();
    let mut i: usize = start;
    loop
        invariant
            ({
                let cur = spec_parse_name(d@, i as int);
                let orig = spec_parse_name(d@, start as int);
                match cur {
                    None => orig is None,
                    Some(p) => orig is Some && orig.unwrap().0 == acc@ + p.0 && orig.unwrap().1
                        == p.1,
                }
            }),
        decreases d@.len() - i,
    {
        if i >= d.len() {
            return None;
        }
        let l = d[i];
        if l == 0 {
            let ghost prev = acc@;
            acc.push(0);
            proof {
                assert(acc@ =~= prev + seq![0u8]);
            }
            return Some((acc, i + 1));
        }
        if l > 63 {
            return None;
        }
        let li = l as usize;
        if d.len() - i - 1 < li {
            return None;
        }
        let ghost prev = acc@;
        acc.push(l);
        crate::wire::append_byte_range(&mut acc, d, i + 1, i + 1 + li);
        proof {
            let sub = d@.subrange(i + 1, i + 1 + l);
            assert(acc@ =~= prev + (seq![l] + sub));
            if spec_parse_name(d@, i + 1 + l) is Some {
                let p = spec_parse_name(d@, i + 1 + l).unwrap();
                assert(prev + (seq![l] + sub + p.0) =~= (prev + (seq![l] + sub)) + p.0);
            }
        }
        i = i + 1 + li;
    }
}

/// Parse one question starting at `start`.
pub fn parse_question(d: &Vec<u8>, start: usize) -> (r: Option<(Question, usize)>)
    ensures
        (match spec_parse_question(d@, start as int) {
            None => r is None,
            Some(p) => r is Some && r.unwrap().0@ == p.0 && r.unwrap().1 == p.1,
        }),
{
    match parse_name(d, start) {
        None => None,
        Some((name, j)) => {
            proof {
                lemma_parse_name_bounds(d@, start as int);
            }
            if d.len() - j < 4 {
                None
            } else {
                let qtype = crate::wire::read_u16(d[j], d[j + 1]);
                let qclass = crate::wire::read_u16(d[j + 2], d[j + 3]);
                Some((Question { name, qtype, qclass }, j + 4))
            }
        },
    }
}

/// Parse `n` questions starting at `start`.
pub fn parse_questions(d: &Vec<u8>, start: usize, n: u16) -> (r: Option<(Vec<Question>, usize)>)
    ensures
        (match spec_parse_questions(d@, start as int, n as int) {
            None => r is None,
            Some(p) => r is Some && question_views(r.unwrap().0@) == p.0 && r.unwrap().1 == p.1,
        }),
{
    let mut acc: Vec<Question> = Vec::new();
    let mut i: usize = start;
    let mut k: u16 = 0;
    while k < n
        invariant
            k <= n,
            ({
                let cur = spec_parse_questions(d@, i as int, n - k);
                let orig = spec_parse_questions(d@, start as int, n as int);
                match cur {
                    None => orig is None,
                    Some(p) => orig is Some && orig.unwrap().0 == question_views(acc@) + p.0
                        && orig.unwrap().1 == p.1,
                }
            }),
        decreases n - k,
    {
        match parse_question(d, i) {
            None => {
                return None;
            },
            Some((q, j)) => {
                let ghost prev = acc@;
                let ghost qm = q@;
                acc.push(q);
                proof {
                    assert(question_views(acc@) =~= question_views(prev) + seq![qm]);
                    if spec_parse_questions(d@, j as int, n - k - 1) is Some {
                        let p = spec_parse_questions(d@, j as int, n - k - 1).unwrap();
                        assert((question_views(prev) + seq![qm]) + p.0 =~= question_views(prev)
                            + (seq![qm] + p.0));
                    }
                }
                i = j;
                k = k + 1;
            },
        }
    }
    proof {
        assert(question_views(acc@) + Seq::<QuestionModel>::empty() =~= question_views(acc@));
    }
    Some((acc, i))
}

/// Parse a datagram as an mDNS query, or report that it is none.
pub fn parse_query(d: &Vec<u8>) -> (r: Option<Query>)
    ensures
        (match spec_parse_query(d@) {
            None => r is None,
            Some(qm) => r is Some && r.unwrap()@ == qm,
        }),
        r is Some ==> r.unwrap().questions@.len() <= 0xffff,
{
    if d.len() < 12 {
        return None;
    }
    if d[2] & 0xF8 != 0 {
        return None;
    }
    let n = crate::wire::read_u16(d[4], d[5]);
    match parse_questions(d, 12, n) {
        None => None,
        Some((qs, _)) => {
            proof {
                lemma_parse_questions_count(d@, 12, n as int);
                assert(question_views(qs@).len() == qs@.len());
            }
            Some(Query { id: crate::wire::read_u16(d[0], d[1]), questions: qs })
        },
    }
}

} // verus!
