//! The claim extraction engine: walks every claim group and every statement
//! within it, dispatches on the statement's declared datatype, and yields zero
//! or one relation per statement.

use crate::json::{get, get_key, get_str, get_string, json_text, str_eq, to_text, Json};
use crate::{Relation, RelationV};
use vstd::prelude::*;

verus! {

/// How a statement whose datatype the dispatch table does not model is
/// handled.
#[derive(Clone, Copy)]
pub enum UnknownPolicy {
    /// Skip the statement and carry a diagnostic notice.
    Report,
    /// Abort the record's processing.
    Abort,
}

/// A diagnostic for a statement whose datatype is not modeled, carried under
/// the reporting policy.
pub struct Notice {
    /// The unrecognized datatype.
    pub datatype: String,
    /// The offending statement, serialized.
    pub statement: String,
}

/// The ghost mirror of a notice.
pub struct NoticeV {
    pub datatype: Seq<char>,
    pub statement: Seq<char>,
}

impl View for Notice {
    type V = NoticeV;

    open spec fn view(&self) -> NoticeV {
        NoticeV { datatype: self.datatype@, statement: self.statement@ }
    }
}

impl DeepView for Notice {
    type V = NoticeV;

    open spec fn deep_view(&self) -> NoticeV {
        self.view()
    }
}

/// A fatal condition, carrying the offending content: the candidate text for
/// a parse failure, the serialized record or statement otherwise.
#[derive(Debug)]
pub enum Error {
    /// The candidate text did not parse as JSON.
    Parse(String),
    /// The record is not a JSON object.
    NotObject(String),
    /// The record lacks a string `id`.
    MissingId(String),
    /// The record lacks a `claims` object.
    MissingClaims(String),
    /// A claim group is not an array of statements: the property key and the
    /// serialized group.
    BadGroup(String, String),
    /// A statement declares a datatype but no property.
    MissingProperty(String),
    /// A monolingual-text statement lacks its text.
    MissingText(String),
    /// A datatype the dispatch table does not model, under the abort policy:
    /// the datatype and the serialized statement.
    UnknownDatatype(String, String),
}

/// The ghost mirror of a fatal condition.
pub enum FaultV {
    Parse(Seq<char>),
    NotObject(Seq<char>),
    MissingId(Seq<char>),
    MissingClaims(Seq<char>),
    BadGroup(Seq<char>, Seq<char>),
    MissingProperty(Seq<char>),
    MissingText(Seq<char>),
    UnknownDatatype(Seq<char>, Seq<char>),
}

impl View for Error {
    type V = FaultV;

    open spec fn view(&self) -> FaultV {
        match self {
            Error::Parse(t) => FaultV::Parse(t@),
            Error::NotObject(t) => FaultV::NotObject(t@),
            Error::MissingId(t) => FaultV::MissingId(t@),
            Error::MissingClaims(t) => FaultV::MissingClaims(t@),
            Error::BadGroup(p, t) => FaultV::BadGroup(p@, t@),
            Error::MissingProperty(t) => FaultV::MissingProperty(t@),
            Error::MissingText(t) => FaultV::MissingText(t@),
            Error::UnknownDatatype(d, t) => FaultV::UnknownDatatype(d@, t@),
        }
    }
}

/// The datatypes that carry no entity-graph-relevant string value: they are
/// intentionally ignored, never silently dropped as unrecognized.
pub open spec fn spec_ignored(d: Seq<char>) -> bool {
    ||| d == "external-id"@
    ||| d == "url"@
    ||| d == "globe-coordinate"@
    ||| d == "quantity"@
    ||| d == "string"@
    ||| d == "commonsMedia"@
    ||| d == "time"@
    ||| d == "math"@
}

/// Whether a datatype is in the ignore set.
pub fn is_ignored(d: &str) -> (r: bool)
    ensures
        r == spec_ignored(d@),
{
    str_eq(d, "external-id") || str_eq(d, "url") || str_eq(d, "globe-coordinate") || str_eq(
        d,
        "quantity",
    ) || str_eq(d, "string") || str_eq(d, "commonsMedia") || str_eq(d, "time") || str_eq(d, "math")
}

/// The string under `datavalue.value.<field>` of a mainsnak, when that path
/// exists and ends in a string.
pub open spec fn snak_value_field(m: Json, field: Seq<char>) -> Option<Seq<char>> {
    match get_key(m, "datavalue"@) {
        Some(dv) => match get_key(dv, "value"@) {
            Some(v) => get_str(v, field),
            None => None,
        },
        None => None,
    }
}

/// The string under `datavalue.value.<field>` of a mainsnak.
pub fn snak_field<'a>(mainsnak: &'a Json, field: &str) -> (r: Option<&'a String>)
    ensures
        match r {
            Some(s) => snak_value_field(*mainsnak, field@) == Some(s@),
            None => snak_value_field(*mainsnak, field@) is None,
        },
{
    match get(mainsnak, "datavalue") {
        Some(dv) => match get(dv, "value") {
            Some(v) => get_string(v, field),
            None => None,
        },
        None => None,
    }
}

/// The ghost outcome of dispatching one datatype against a mainsnak.
pub enum ValueOutcomeV {
    /// The snak yields a relation value.
    Value(Seq<char>),
    /// The snak yields nothing: an ignored datatype, or an item or property
    /// snak with no concrete target.
    Skip,
    /// The datatype is not modeled.
    Unknown,
    /// A monolingual-text snak lacks its text: the datatype's contract
    /// guarantees it, so the snak is inconsistent.
    MissingText,
}

/// The relation value a statement's mainsnak yields, per the fixed, total
/// datatype dispatch table.
pub open spec fn spec_parse_value(datatype: Seq<char>, m: Json) -> ValueOutcomeV {
    if datatype == "monolingualtext"@ {
        match snak_value_field(m, "text"@) {
            Some(t) => ValueOutcomeV::Value(t),
            None => ValueOutcomeV::MissingText,
        }
    } else if datatype == "wikibase-item"@ || datatype == "wikibase-property"@ {
        match snak_value_field(m, "id"@) {
            Some(v) => ValueOutcomeV::Value(v),
            None => ValueOutcomeV::Skip,
        }
    } else if spec_ignored(datatype) {
        ValueOutcomeV::Skip
    } else {
        ValueOutcomeV::Unknown
    }
}

/// The outcome of dispatching one datatype against a mainsnak.
pub enum ValueOutcome {
    /// The snak yields a relation value.
    Value(String),
    /// The snak yields nothing.
    Skip,
    /// The datatype is not modeled.
    Unknown,
    /// A monolingual-text snak lacks its text.
    MissingText,
}

impl View for ValueOutcome {
    type V = ValueOutcomeV;

    open spec fn view(&self) -> ValueOutcomeV {
        match self {
            ValueOutcome::Value(s) => ValueOutcomeV::Value(s@),
            ValueOutcome::Skip => ValueOutcomeV::Skip,
            ValueOutcome::Unknown => ValueOutcomeV::Unknown,
            ValueOutcome::MissingText => ValueOutcomeV::MissingText,
        }
    }
}

/// Dispatch one statement's datatype against its mainsnak.
pub fn parse_value(datatype: &str, mainsnak: &Json) -> (r: ValueOutcome)
    ensures
        r@ == spec_parse_value(datatype@, *mainsnak),
{
    if str_eq(datatype, "monolingualtext") {
        match snak_field(mainsnak, "text") {
            Some(t) => ValueOutcome::Value(t.clone()),
            None => ValueOutcome::MissingText,
        }
    } else if str_eq(datatype, "wikibase-item") || str_eq(datatype, "wikibase-property") {
        match snak_field(mainsnak, "id") {
            Some(v) => ValueOutcome::Value(v.clone()),
            None => ValueOutcome::Skip,
        }
    } else if is_ignored(datatype) {
        ValueOutcome::Skip
    } else {
        ValueOutcome::Unknown
    }
}

/// The ghost outcome of one whole statement.
pub enum StatementOutcomeV {
    /// The statement yields a relation: its property and value.
    Relation(Seq<char>, Seq<char>),
    /// The statement yields nothing.
    Skip,
    /// The datatype is not modeled: policy decides.
    Unknown(Seq<char>),
    /// The snak declares a datatype but no property.
    MissingProperty,
    /// A monolingual-text snak lacks its text.
    MissingText,
}

/// What one statement contributes: its mainsnak's datatype decides, a missing
/// datatype contributes nothing, and a missing property beside a present
/// datatype is an inconsistent snak.
pub open spec fn statement_outcome(s: Json) -> StatementOutcomeV {
    match get_key(s, "mainsnak"@) {
        None => StatementOutcomeV::Skip,
        Some(m) => match get_str(m, "datatype"@) {
            None => StatementOutcomeV::Skip,
            Some(d) => match get_str(m, "property"@) {
                None => StatementOutcomeV::MissingProperty,
                Some(p) => match spec_parse_value(d, m) {
                    ValueOutcomeV::Value(v) => StatementOutcomeV::Relation(p, v),
                    ValueOutcomeV::Skip => StatementOutcomeV::Skip,
                    ValueOutcomeV::Unknown => StatementOutcomeV::Unknown(d),
                    ValueOutcomeV::MissingText => StatementOutcomeV::MissingText,
                },
            },
        },
    }
}

/// The view of an optional borrowed title.
pub open spec fn opt_view(t: Option<&str>) -> Option<Seq<char>> {
    match t {
        Some(s) => Some(s@),
        None => None,
    }
}

/// The relations one statement contributes: one or none.
pub open spec fn stmt_relations(subject: Seq<char>, title: Option<Seq<char>>, s: Json) -> Seq<
    RelationV,
> {
    match statement_outcome(s) {
        StatementOutcomeV::Relation(p, v) => seq![
            RelationV { subject, property: p, value: v, title },
        ],
        _ => Seq::empty(),
    }
}

/// The notices one statement contributes: one for an unmodeled datatype under
/// the reporting policy, none otherwise.
pub open spec fn stmt_notices(s: Json, policy: UnknownPolicy) -> Seq<NoticeV> {
    match statement_outcome(s) {
        StatementOutcomeV::Unknown(d) => if policy is Report {
            seq![NoticeV { datatype: d, statement: json_text(s) }]
        } else {
            Seq::empty()
        },
        _ => Seq::empty(),
    }
}

/// The fatal condition one statement raises, if any.
pub open spec fn stmt_fault(s: Json, policy: UnknownPolicy) -> Option<FaultV> {
    match statement_outcome(s) {
        StatementOutcomeV::MissingProperty => Some(FaultV::MissingProperty(json_text(s))),
        StatementOutcomeV::MissingText => Some(FaultV::MissingText(json_text(s))),
        StatementOutcomeV::Unknown(d) => if policy is Abort {
            Some(FaultV::UnknownDatatype(d, json_text(s)))
        } else {
            None
        },
        _ => None,
    }
}

/// Carry an optional borrowed title into an owned one.
fn clone_title(t: Option<&str>) -> (r: Option<String>)
    ensures
        r.deep_view() == opt_view(t),
{
    match t {
        Some(s) => Some(s.to_owned()),
        None => None,
    }
}

/// Evaluate one statement: at most one relation or one notice, or a fatal
/// condition.
pub fn eval_statement(subject: &str, title: Option<&str>, s: &Json, policy: UnknownPolicy) -> (r:
    Result<(Option<Relation>, Option<Notice>), Error>)
    ensures
        match r {
            Ok(out) => {
                &&& stmt_fault(*s, policy) is None
                &&& stmt_relations(subject@, opt_view(title), *s) == (match out.0 {
                    Some(x) => seq![x@],
                    None => Seq::<RelationV>::empty(),
                })
                &&& stmt_notices(*s, policy) == (match out.1 {
                    Some(x) => seq![x@],
                    None => Seq::<NoticeV>::empty(),
                })
            },
            Err(e) => stmt_fault(*s, policy) == Some(e@),
        },
{
    let m: &Json = match get(s, "mainsnak") {
        Some(m) => m,
        None => {
            return Ok((None, None));
        },
    };
    let d: &String = match get(m, "datatype") {
        Some(Json::Str(d)) => d,
        _ => {
            return Ok((None, None));
        },
    };
    let p: &String = match get_string(m, "property") {
        Some(p) => p,
        None => {
            return Err(Error::MissingProperty(to_text(s)));
        },
    };
    match parse_value(d.as_str(), m) {
        ValueOutcome::Value(v) => Ok(
            (
                Some(
                    Relation {
                        subject: subject.to_owned(),
                        property: p.clone(),
                        value: v,
                        title: clone_title(title),
                    },
                ),
                None,
            ),
        ),
        ValueOutcome::Skip => Ok((None, None)),
        ValueOutcome::MissingText => Err(Error::MissingText(to_text(s))),
        ValueOutcome::Unknown => match policy {
            UnknownPolicy::Abort => Err(Error::UnknownDatatype(d.clone(), to_text(s))),
            UnknownPolicy::Report => Ok(
                (None, Some(Notice { datatype: d.clone(), statement: to_text(s) })),
            ),
        },
    }
}

/// What one claim group's statements yield, earliest fatal condition first.
pub open spec fn group_result(
    subject: Seq<char>,
    title: Option<Seq<char>>,
    stmts: Seq<Json>,
    policy: UnknownPolicy,
) -> Result<(Seq<RelationV>, Seq<NoticeV>), FaultV>
    decreases stmts.len(),
{
    if stmts.len() == 0 {
        Ok((Seq::empty(), Seq::empty()))
    } else {
        match group_result(subject, title, stmts.drop_last(), policy) {
            Err(f) => Err(f),
            Ok(acc) => match stmt_fault(stmts.last(), policy) {
                Some(f) => Err(f),
                None => Ok(
                    (
                        acc.0 + stmt_relations(subject, title, stmts.last()),
                        acc.1 + stmt_notices(stmts.last(), policy),
                    ),
                ),
            },
        }
    }
}

/// A fatal condition in a prefix of a group decides the whole group.
proof fn lemma_group_err(
    subject: Seq<char>,
    title: Option<Seq<char>>,
    stmts: Seq<Json>,
    policy: UnknownPolicy,
    i: int,
)
    requires
        0 <= i <= stmts.len(),
        group_result(subject, title, stmts.take(i), policy) is Err,
    ensures
        group_result(subject, title, stmts, policy) == group_result(
            subject,
            title,
            stmts.take(i),
            policy,
        ),
    decreases stmts.len() - i,
{
    if i == stmts.len() {
        assert(stmts.take(i) =~= stmts);
    } else {
        assert(stmts.take(i + 1).drop_last() =~= stmts.take(i));
        lemma_group_err(subject, title, stmts, policy, i + 1);
    }
}

/// Extract the relations of one claim group.
pub fn extract_group(
    subject: &str,
    title: Option<&str>,
    stmts: &Vec<Json>,
    policy: UnknownPolicy,
) -> (r: Result<(Vec<Relation>, Vec<Notice>), Error>)
    ensures
        group_view(r) == group_result(subject@, opt_view(title), stmts@, policy),
{
    let mut rels: Vec<Relation> = Vec::new();
    let mut notes: Vec<Notice> = Vec::new();
    let n = stmts.len();
    let mut i: usize = 0;
    proof {
        assert(stmts@.take(0) =~= Seq::<Json>::empty());
        assert(rels.deep_view() =~= Seq::<RelationV>::empty());
        assert(notes.deep_view() =~= Seq::<NoticeV>::empty());
    }
    while i < n
        invariant
            n == stmts@.len(),
            i <= n,
            group_result(subject@, opt_view(title), stmts@.take(i as int), policy) == Ok::<
                _,
                FaultV,
            >((rels.deep_view(), notes.deep_view())),
        decreases n - i,
    {
        proof {
            assert(stmts@.take(i + 1).drop_last() =~= stmts@.take(i as int));
            assert(stmts@.take(i + 1).last() == stmts@[i as int]);
        }
        let ghost pre_r = rels.deep_view();
        let ghost pre_n = notes.deep_view();
        match eval_statement(subject, title, &stmts[i], policy) {
            Ok((rel, note)) => {
                match rel {
                    Some(x) => {
                        let ghost xv = x@;
                        rels.push(x);
                        proof {
                            assert(rels.deep_view() =~= pre_r + seq![xv]);
                        }
                    },
                    None => {
                        proof {
                            assert(pre_r + Seq::<RelationV>::empty() =~= pre_r);
                        }
                    },
                }
                match note {
                    Some(x) => {
                        let ghost xv = x@;
                        notes.push(x);
                        proof {
                            assert(notes.deep_view() =~= pre_n + seq![xv]);
                        }
                    },
                    None => {
                        proof {
                            assert(pre_n + Seq::<NoticeV>::empty() =~= pre_n);
                        }
                    },
                }
            },
            Err(e) => {
                proof {
                    lemma_group_err(subject@, opt_view(title), stmts@, policy, i + 1);
                }
                return Err(e);
            },
        }
        i += 1;
    }
    proof {
        assert(stmts@.take(n as int) =~= stmts@);
    }
    Ok((rels, notes))
}

/// The ghost mirror of an extraction result.
pub open spec fn group_view(r: Result<(Vec<Relation>, Vec<Notice>), Error>) -> Result<
    (Seq<RelationV>, Seq<NoticeV>),
    FaultV,
> {
    match r {
        Ok(out) => Ok((out.0.deep_view(), out.1.deep_view())),
        Err(e) => Err(e@),
    }
}

/// What a whole claims mapping yields: each property's group in turn, a group
/// that is not an array of statements being fatal.
pub open spec fn claims_result(
    subject: Seq<char>,
    title: Option<Seq<char>>,
    claims: Seq<(String, Json)>,
    policy: UnknownPolicy,
) -> Result<(Seq<RelationV>, Seq<NoticeV>), FaultV>
    decreases claims.len(),
{
    if claims.len() == 0 {
        Ok((Seq::empty(), Seq::empty()))
    } else {
        match claims_result(subject, title, claims.drop_last(), policy) {
            Err(f) => Err(f),
            Ok(acc) => match claims.last().1 {
                Json::Arr(stmts) => match group_result(subject, title, stmts@, policy) {
                    Err(f) => Err(f),
                    Ok(gr) => Ok((acc.0 + gr.0, acc.1 + gr.1)),
                },
                _ => Err(FaultV::BadGroup(claims.last().0@, json_text(claims.last().1))),
            },
        }
    }
}

/// A fatal condition in a prefix of the claims mapping decides the whole
/// mapping.
proof fn lemma_claims_err(
    subject: Seq<char>,
    title: Option<Seq<char>>,
    claims: Seq<(String, Json)>,
    policy: UnknownPolicy,
    i: int,
)
    requires
        0 <= i <= claims.len(),
        claims_result(subject, title, claims.take(i), policy) is Err,
    ensures
        claims_result(subject, title, claims, policy) == claims_result(
            subject,
            title,
            claims.take(i),
            policy,
        ),
    decreases claims.len() - i,
{
    if i == claims.len() {
        assert(claims.take(i) =~= claims);
    } else {
        assert(claims.take(i + 1).drop_last() =~= claims.take(i));
        lemma_claims_err(subject, title, claims, policy, i + 1);
    }
}

/// Extract the relations of every claim group of one entity record.
pub fn extract_claims(
    subject: &str,
    title: Option<&str>,
    claims: &Vec<(String, Json)>,
    policy: UnknownPolicy,
) -> (r: Result<(Vec<Relation>, Vec<Notice>), Error>)
    ensures
        group_view(r) == claims_result(subject@, opt_view(title), claims@, policy),
{
    let mut rels: Vec<Relation> = Vec::new();
    let mut notes: Vec<Notice> = Vec::new();
    let n = claims.len();
    let mut i: usize = 0;
    proof {
        assert(claims@.take(0) =~= Seq::<(String, Json)>::empty());
        assert(rels.deep_view() =~= Seq::<RelationV>::empty());
        assert(notes.deep_view() =~= Seq::<NoticeV>::empty());
    }
    while i < n
        invariant
            n == claims@.len(),
            i <= n,
            claims_result(subject@, opt_view(title), claims@.take(i as int), policy) == Ok::<
                _,
                FaultV,
            >((rels.deep_view(), notes.deep_view())),
        decreases n - i,
    {
        proof {
            assert(claims@.take(i + 1).drop_last() =~= claims@.take(i as int));
            assert(claims@.take(i + 1).last() == claims@[i as int]);
        }
        let ghost pre_r = rels.deep_view();
        let ghost pre_n = notes.deep_view();
        match &claims[i].1 {
            Json::Arr(stmts) => {
                match extract_group(subject, title, stmts, policy) {
                    Ok((mut gr, mut gn)) => {
                        let ghost grv = gr.deep_view();
                        let ghost gnv = gn.deep_view();
                        rels.append(&mut gr);
                        notes.append(&mut gn);
                        proof {
                            assert(rels.deep_view() =~= pre_r + grv);
                            assert(notes.deep_view() =~= pre_n + gnv);
                        }
                    },
                    Err(e) => {
                        proof {
                            lemma_claims_err(subject@, opt_view(title), claims@, policy, i + 1);
                        }
                        return Err(e);
                    },
                }
            },
            _ => {
                let e = Error::BadGroup(claims[i].0.clone(), to_text(&claims[i].1));
                proof {
                    lemma_claims_err(subject@, opt_view(title), claims@, policy, i + 1);
                }
                return Err(e);
            },
        }
        i += 1;
    }
    proof {
        assert(claims@.take(n as int) =~= claims@);
    }
    Ok((rels, notes))
}

/// The subject's English-Wikipedia title: the `title` string of the `enwiki`
/// entry of the record's `sitelinks`. Any structural mismatch on the way
/// yields no title, never a failure.
pub open spec fn record_title(j: Json) -> Option<Seq<char>> {
    match get_key(j, "sitelinks"@) {
        Some(sl) => match get_key(sl, "enwiki"@) {
            Some(e) => get_str(e, "title"@),
            None => None,
        },
        None => None,
    }
}

/// Resolve the subject's English-Wikipedia title from its record.
pub fn resolve_title<'a>(j: &'a Json) -> (r: Option<&'a String>)
    ensures
        match r {
            Some(s) => record_title(*j) == Some(s@),
            None => record_title(*j) is None,
        },
{
    match get(j, "sitelinks") {
        Some(sl) => match get(sl, "enwiki") {
            Some(e) => get_string(e, "title"),
            None => None,
        },
        None => None,
    }
}

/// What one decoded entity record yields: its `id` and `claims` are required,
/// with a missing or mistyped one fatal; its title comes from the sitelinks.
pub open spec fn record_result(j: Json, policy: UnknownPolicy) -> Result<
    (Seq<RelationV>, Seq<NoticeV>),
    FaultV,
> {
    if !(j is Obj) {
        Err(FaultV::NotObject(json_text(j)))
    } else {
        match get_str(j, "id"@) {
            None => Err(FaultV::MissingId(json_text(j))),
            Some(id) => match get_key(j, "claims"@) {
                Some(Json::Obj(claims)) => claims_result(id, record_title(j), claims@, policy),
                _ => Err(FaultV::MissingClaims(json_text(j))),
            },
        }
    }
}

/// A statement whose datatype names an item or property and whose datavalue
/// carries a concrete identifier yields exactly one relation: its value is
/// that identifier, its property the statement's property, and it raises no
/// fault and no notice under either policy.
pub proof fn lemma_item_statement(
    subject: Seq<char>,
    title: Option<Seq<char>>,
    s: Json,
    m: Json,
    p: Seq<char>,
    v: Seq<char>,
    policy: UnknownPolicy,
)
    requires
        get_key(s, "mainsnak"@) == Some(m),
        get_str(m, "datatype"@) == Some("wikibase-item"@) || get_str(m, "datatype"@) == Some(
            "wikibase-property"@,
        ),
        get_str(m, "property"@) == Some(p),
        snak_value_field(m, "id"@) == Some(v),
    ensures
        stmt_relations(subject, title, s) == seq![
            RelationV { subject, property: p, value: v, title },
        ],
        stmt_fault(s, policy) is None,
        stmt_notices(s, policy) == Seq::<NoticeV>::empty(),
{
    reveal_strlit("wikibase-item");
    reveal_strlit("wikibase-property");
    reveal_strlit("monolingualtext");
    assert("wikibase-item"@.len() == 13);
    assert("wikibase-property"@.len() == 17);
    assert("monolingualtext"@.len() == 15);
    assert(statement_outcome(s) == StatementOutcomeV::Relation(p, v));
}

/// A statement whose datatype is in the ignore set yields no relation and no
/// notice, whatever its other fields hold.
pub proof fn lemma_ignored_statement(
    subject: Seq<char>,
    title: Option<Seq<char>>,
    s: Json,
    m: Json,
    d: Seq<char>,
    policy: UnknownPolicy,
)
    requires
        get_key(s, "mainsnak"@) == Some(m),
        get_str(m, "datatype"@) == Some(d),
        spec_ignored(d),
    ensures
        stmt_relations(subject, title, s) == Seq::<RelationV>::empty(),
        stmt_notices(s, policy) == Seq::<NoticeV>::empty(),
{
    reveal_strlit("monolingualtext");
    reveal_strlit("wikibase-item");
    reveal_strlit("wikibase-property");
    reveal_strlit("external-id");
    reveal_strlit("url");
    reveal_strlit("globe-coordinate");
    reveal_strlit("quantity");
    reveal_strlit("string");
    reveal_strlit("commonsMedia");
    reveal_strlit("time");
    reveal_strlit("math");
    assert("monolingualtext"@.len() == 15);
    assert("wikibase-item"@.len() == 13);
    assert("wikibase-property"@.len() == 17);
    assert("external-id"@.len() == 11);
    assert("url"@.len() == 3);
    assert("globe-coordinate"@.len() == 16);
    assert("quantity"@.len() == 8);
    assert("string"@.len() == 6);
    assert("commonsMedia"@.len() == 12);
    assert("time"@.len() == 4);
    assert("math"@.len() == 4);
    assert(spec_parse_value(d, m) == ValueOutcomeV::Skip);
}

proof fn lemma_concat_contains<A>(a: Seq<A>, b: Seq<A>, x: A)
    requires
        a.contains(x) || b.contains(x),
    ensures
        (a + b).contains(x),
{
    if a.contains(x) {
        let i = choose|i: int| 0 <= i < a.len() && a[i] == x;
        assert((a + b)[i] == x);
    } else {
        let i = choose|i: int| 0 <= i < b.len() && b[i] == x;
        assert((a + b)[a.len() + i] == x);
    }
}

/// In a group that extracts successfully, a statement that names an item or
/// property with a concrete identifier accounts for its relation in the
/// group's output.
pub proof fn lemma_item_in_group(
    subject: Seq<char>,
    title: Option<Seq<char>>,
    stmts: Seq<Json>,
    policy: UnknownPolicy,
    k: int,
    m: Json,
    p: Seq<char>,
    v: Seq<char>,
)
    requires
        0 <= k < stmts.len(),
        group_result(subject, title, stmts, policy) is Ok,
        get_key(stmts[k], "mainsnak"@) == Some(m),
        get_str(m, "datatype"@) == Some("wikibase-item"@) || get_str(m, "datatype"@) == Some(
            "wikibase-property"@,
        ),
        get_str(m, "property"@) == Some(p),
        snak_value_field(m, "id"@) == Some(v),
    ensures
        group_result(subject, title, stmts, policy) matches Ok(out) ==> out.0.contains(
            RelationV { subject, property: p, value: v, title },
        ),
    decreases stmts.len(),
{
    let rel = RelationV { subject, property: p, value: v, title };
    lemma_item_statement(subject, title, stmts[k], m, p, v, policy);
    let acc = group_result(subject, title, stmts.drop_last(), policy);
    match group_result(subject, title, stmts, policy) {
        Ok(out) => {
            if k == stmts.len() - 1 {
                assert(stmts.last() == stmts[k]);
                assert(stmt_relations(subject, title, stmts.last())[0] == rel);
                lemma_concat_contains(acc->Ok_0.0, stmt_relations(subject, title, stmts.last()), rel);
            } else {
                assert(stmts.drop_last()[k] == stmts[k]);
                lemma_item_in_group(subject, title, stmts.drop_last(), policy, k, m, p, v);
                lemma_concat_contains(acc->Ok_0.0, stmt_relations(subject, title, stmts.last()), rel);
            }
        },
        Err(_) => {},
    }
}

/// In a claims mapping that extracts successfully, a statement that names an
/// item or property with a concrete identifier accounts for its relation in
/// the output.
pub proof fn lemma_item_in_claims(
    subject: Seq<char>,
    title: Option<Seq<char>>,
    claims: Seq<(String, Json)>,
    policy: UnknownPolicy,
    g: int,
    stmts: Vec<Json>,
    k: int,
    m: Json,
    p: Seq<char>,
    v: Seq<char>,
)
    requires
        0 <= g < claims.len(),
        claims[g].1 == Json::Arr(stmts),
        claims_result(subject, title, claims, policy) is Ok,
        0 <= k < stmts@.len(),
        get_key(stmts@[k], "mainsnak"@) == Some(m),
        get_str(m, "datatype"@) == Some("wikibase-item"@) || get_str(m, "datatype"@) == Some(
            "wikibase-property"@,
        ),
        get_str(m, "property"@) == Some(p),
        snak_value_field(m, "id"@) == Some(v),
    ensures
        claims_result(subject, title, claims, policy) matches Ok(out) ==> out.0.contains(
            RelationV { subject, property: p, value: v, title },
        ),
    decreases claims.len(),
{
    let rel = RelationV { subject, property: p, value: v, title };
    let acc = claims_result(subject, title, claims.drop_last(), policy);
    match claims_result(subject, title, claims, policy) {
        Ok(out) => {
            if g == claims.len() - 1 {
                assert(claims.last() == claims[g]);
                lemma_item_in_group(subject, title, stmts@, policy, k, m, p, v);
                lemma_concat_contains(
                    acc->Ok_0.0,
                    group_result(subject, title, stmts@, policy)->Ok_0.0,
                    rel,
                );
            } else {
                assert(claims.drop_last()[g] == claims[g]);
                lemma_item_in_claims(
                    subject,
                    title,
                    claims.drop_last(),
                    policy,
                    g,
                    stmts,
                    k,
                    m,
                    p,
                    v,
                );
                match claims.last().1 {
                    Json::Arr(last_stmts) => {
                        lemma_concat_contains(
                            acc->Ok_0.0,
                            group_result(subject, title, last_stmts@, policy)->Ok_0.0,
                            rel,
                        );
                    },
                    _ => {},
                }
            }
        },
        Err(_) => {},
    }
}

/// An entity record with a statement that names an item or property with a
/// concrete identifier yields, when it extracts successfully, a relation
/// whose value is that identifier and whose property is the statement's
/// property, under the record's id and resolved title.
pub proof fn lemma_item_in_record(
    j: Json,
    policy: UnknownPolicy,
    g: int,
    stmts: Vec<Json>,
    k: int,
    m: Json,
    p: Seq<char>,
    v: Seq<char>,
)
    requires
        record_result(j, policy) is Ok,
        get_key(j, "claims"@) matches Some(Json::Obj(claims)) && 0 <= g < claims@.len()
            && claims@[g].1 == Json::Arr(stmts),
        0 <= k < stmts@.len(),
        get_key(stmts@[k], "mainsnak"@) == Some(m),
        get_str(m, "datatype"@) == Some("wikibase-item"@) || get_str(m, "datatype"@) == Some(
            "wikibase-property"@,
        ),
        get_str(m, "property"@) == Some(p),
        snak_value_field(m, "id"@) == Some(v),
    ensures
        record_result(j, policy) matches Ok(out) ==> get_str(j, "id"@) matches Some(id)
            && out.0.contains(
            RelationV { subject: id, property: p, value: v, title: record_title(j) },
        ),
{
    match get_key(j, "claims"@) {
        Some(Json::Obj(claims)) => {
            match get_str(j, "id"@) {
                Some(id) => {
                    lemma_item_in_claims(
                        id,
                        record_title(j),
                        claims@,
                        policy,
                        g,
                        stmts,
                        k,
                        m,
                        p,
                        v,
                    );
                },
                None => {},
            }
        },
        _ => {},
    }
}

/// Every relation one group yields carries the given subject and title.
proof fn lemma_group_uniform(
    subject: Seq<char>,
    title: Option<Seq<char>>,
    stmts: Seq<Json>,
    policy: UnknownPolicy,
)
    ensures
        group_result(subject, title, stmts, policy) matches Ok(out) ==> forall|i: int|
            0 <= i < out.0.len() ==> (#[trigger] out.0[i]).title == title && out.0[i].subject
                == subject,
    decreases stmts.len(),
{
    if stmts.len() > 0 {
        lemma_group_uniform(subject, title, stmts.drop_last(), policy);
    }
}

/// Every relation the claims mapping yields carries the given subject and
/// title.
proof fn lemma_claims_uniform(
    subject: Seq<char>,
    title: Option<Seq<char>>,
    claims: Seq<(String, Json)>,
    policy: UnknownPolicy,
)
    ensures
        claims_result(subject, title, claims, policy) matches Ok(out) ==> forall|i: int|
            0 <= i < out.0.len() ==> (#[trigger] out.0[i]).title == title && out.0[i].subject
                == subject,
    decreases claims.len(),
{
    if claims.len() > 0 {
        lemma_claims_uniform(subject, title, claims.drop_last(), policy);
        match claims.last().1 {
            Json::Arr(stmts) => lemma_group_uniform(subject, title, stmts@, policy),
            _ => {},
        }
    }
}

/// Every relation extracted from one record carries the record's id as its
/// subject and the record's resolved English-Wikipedia title: in particular,
/// all relations of one record share the same title value.
pub proof fn lemma_record_uniform(j: Json, policy: UnknownPolicy)
    ensures
        record_result(j, policy) matches Ok(out) ==> get_str(j, "id"@) matches Some(id) && forall|
            i: int,
        |
            0 <= i < out.0.len() ==> (#[trigger] out.0[i]).title == record_title(j)
                && out.0[i].subject == id,
{
    if record_result(j, policy) is Ok {
        match get_key(j, "claims"@) {
            Some(Json::Obj(claims)) => {
                match get_str(j, "id"@) {
                    Some(id) => lemma_claims_uniform(id, record_title(j), claims@, policy),
                    None => {},
                }
            },
            _ => {},
        }
    }
}

/// Decode one entity record and extract its relations.
pub fn extract_record(j: &Json, policy: UnknownPolicy) -> (r: Result<
    (Vec<Relation>, Vec<Notice>),
    Error,
>)
    ensures
        group_view(r) == record_result(*j, policy),
{
    match j {
        Json::Obj(_) => {},
        _ => {
            return Err(Error::NotObject(to_text(j)));
        },
    }
    let id: &String = match get_string(j, "id") {
        Some(s) => s,
        None => {
            return Err(Error::MissingId(to_text(j)));
        },
    };
    let claims: &Vec<(String, Json)> = match get(j, "claims") {
        Some(Json::Obj(fields)) => fields,
        _ => {
            return Err(Error::MissingClaims(to_text(j)));
        },
    };
    let title: Option<&str> = match resolve_title(j) {
        Some(s) => Some(s.as_str()),
        None => None,
    };
    extract_claims(id.as_str(), title, claims, policy)
}

} // verus!
