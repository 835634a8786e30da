//! The per-line and per-file pipeline: framer, decoder and extraction engine
//! composed, and the law that fanning out over files merges their relations
//! without loss or duplication.

use crate::extract::{
    extract_record, group_view, record_result, Error, FaultV, Notice, NoticeV, UnknownPolicy,
};
use crate::framing::{frame_line, is_noise, spec_frame};
use crate::json::{json_of, parse_json};
use crate::{Relation, RelationV};
use vstd::prelude::*;

verus! {

/// What one raw dump line yields: nothing for a structural line, otherwise
/// the parsed record's outcome; a candidate that does not parse is fatal.
pub open spec fn spec_line_result(line: Seq<char>, policy: UnknownPolicy) -> Result<
    (Seq<RelationV>, Seq<NoticeV>),
    FaultV,
> {
    match spec_frame(line) {
        None => Ok((Seq::empty(), Seq::empty())),
        Some(text) => match json_of(text) {
            None => Err(FaultV::Parse(text)),
            Some(j) => record_result(j, policy),
        },
    }
}

/// Extract the relations of one raw dump line.
pub fn line_to_relations(line: &str, policy: UnknownPolicy) -> (r: Result<
    (Vec<Relation>, Vec<Notice>),
    Error,
>)
    ensures
        group_view(r) == spec_line_result(line@, policy),
{
    match frame_line(line) {
        None => {
            let rels: Vec<Relation> = Vec::new();
            let notes: Vec<Notice> = Vec::new();
            proof {
                assert(rels.deep_view() =~= Seq::<RelationV>::empty());
                assert(notes.deep_view() =~= Seq::<NoticeV>::empty());
            }
            Ok((rels, notes))
        },
        Some(text) => match parse_json(text) {
            None => Err(Error::Parse(text.to_owned())),
            Some(j) => extract_record(&j, policy),
        },
    }
}

/// What one input file's ordered lines yield, earliest fatal condition first.
pub open spec fn spec_lines_result(lines: Seq<String>, policy: UnknownPolicy) -> Result<
    (Seq<RelationV>, Seq<NoticeV>),
    FaultV,
>
    decreases lines.len(),
{
    if lines.len() == 0 {
        Ok((Seq::empty(), Seq::empty()))
    } else {
        match spec_lines_result(lines.drop_last(), policy) {
            Err(f) => Err(f),
            Ok(acc) => match spec_line_result(lines.last()@, policy) {
                Err(f) => Err(f),
                Ok(lr) => Ok((acc.0 + lr.0, acc.1 + lr.1)),
            },
        }
    }
}

/// A fatal condition in a prefix of a file decides the whole file.
proof fn lemma_lines_err(lines: Seq<String>, policy: UnknownPolicy, i: int)
    requires
        0 <= i <= lines.len(),
        spec_lines_result(lines.take(i), policy) is Err,
    ensures
        spec_lines_result(lines, policy) == spec_lines_result(lines.take(i), policy),
    decreases lines.len() - i,
{
    if i == lines.len() {
        assert(lines.take(i) =~= lines);
    } else {
        assert(lines.take(i + 1).drop_last() =~= lines.take(i));
        lemma_lines_err(lines, policy, i + 1);
    }
}

/// Extract the relations of one input file, given as its ordered lines.
pub fn lines_to_relations(lines: &Vec<String>, policy: UnknownPolicy) -> (r: Result<
    (Vec<Relation>, Vec<Notice>),
    Error,
>)
    ensures
        group_view(r) == spec_lines_result(lines@, policy),
{
    let mut rels: Vec<Relation> = Vec::new();
    let mut notes: Vec<Notice> = Vec::new();
    let n = lines.len();
    let mut i: usize = 0;
    proof {
        assert(lines@.take(0) =~= Seq::<String>::empty());
        assert(rels.deep_view() =~= Seq::<RelationV>::empty());
        assert(notes.deep_view() =~= Seq::<NoticeV>::empty());
    }
    while i < n
        invariant
            n == lines@.len(),
            i <= n,
            spec_lines_result(lines@.take(i as int), policy) == Ok::<_, FaultV>(
                (rels.deep_view(), notes.deep_view()),
            ),
        decreases n - i,
    {
        proof {
            assert(lines@.take(i + 1).drop_last() =~= lines@.take(i as int));
            assert(lines@.take(i + 1).last() == lines@[i as int]);
        }
        let ghost pre_r = rels.deep_view();
        let ghost pre_n = notes.deep_view();
        match line_to_relations(lines[i].as_str(), policy) {
            Ok((mut lr, mut ln)) => {
                let ghost lrv = lr.deep_view();
                let ghost lnv = ln.deep_view();
                rels.append(&mut lr);
                notes.append(&mut ln);
                proof {
                    assert(rels.deep_view() =~= pre_r + lrv);
                    assert(notes.deep_view() =~= pre_n + lnv);
                }
            },
            Err(e) => {
                proof {
                    lemma_lines_err(lines@, policy, i + 1);
                }
                return Err(e);
            },
        }
        i += 1;
    }
    proof {
        assert(lines@.take(n as int) =~= lines@);
    }
    Ok((rels, notes))
}

/// A structural bracket line yields zero relations, no notice and no fault,
/// and consults no parse or record outcome at all.
pub proof fn lemma_noise_line(line: Seq<char>, policy: UnknownPolicy)
    requires
        is_noise(line),
    ensures
        spec_line_result(line, policy) == Ok::<(Seq<RelationV>, Seq<NoticeV>), FaultV>(
            (Seq::empty(), Seq::empty()),
        ),
{
}

/// A record line ending in the separator comma and the identical line without
/// it yield the same outcome: the same relations, notices or fault.
pub proof fn lemma_trailing_comma_line(line: Seq<char>, policy: UnknownPolicy)
    requires
        !is_noise(line),
        line.len() == 0 || line.last() != ',',
    ensures
        spec_line_result(line.push(','), policy) == spec_line_result(line, policy),
{
    crate::framing::lemma_trailing_comma(line);
}

/// Fanning out over two input files merges their relations with none lost and
/// none duplicated: however the two files' outputs are interleaved, the merged
/// output is, as a multiset, the sum of the files' own outputs, so each
/// relation appears exactly as many times as the two files together produce
/// it.
pub proof fn lemma_fanout_union(
    a: Seq<String>,
    b: Seq<String>,
    policy: UnknownPolicy,
    ra: Seq<RelationV>,
    rb: Seq<RelationV>,
)
    requires
        spec_lines_result(a, policy) matches Ok(oa) && oa.0 == ra,
        spec_lines_result(b, policy) matches Ok(ob) && ob.0 == rb,
    ensures
        (ra + rb).to_multiset() == ra.to_multiset().add(rb.to_multiset()),
        forall|r: RelationV|
            (ra + rb).to_multiset().count(r) == ra.to_multiset().count(r)
                + rb.to_multiset().count(r),
{
    broadcast use vstd::multiset::group_multiset_axioms;

    vstd::seq_lib::lemma_multiset_commutative(ra, rb);
}

} // verus!
