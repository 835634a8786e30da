//! Serialization of relations: each relation becomes one JSON object with
//! fields `subject`, `property`, `value` and `title` (`title` may be null),
//! emitted as one line, and the encoding decodes back to the same relation.

use crate::json::{get_key, get_str, get_string, json_text, lookup, to_text, Json};
use crate::{Relation, RelationV};
use vstd::prelude::*;

verus! {

/// The relation a JSON value encodes: the three string fields and a title
/// that is a string or null.
pub open spec fn spec_relation_of(j: Json) -> Option<RelationV> {
    match get_str(j, "subject"@) {
        None => None,
        Some(s) => match get_str(j, "property"@) {
            None => None,
            Some(p) => match get_str(j, "value"@) {
                None => None,
                Some(v) => match get_key(j, "title"@) {
                    Some(Json::Str(t)) => Some(
                        RelationV { subject: s, property: p, value: v, title: Some(t@) },
                    ),
                    Some(Json::Null) => Some(
                        RelationV { subject: s, property: p, value: v, title: None },
                    ),
                    _ => None,
                },
            },
        },
    }
}

/// Encode a relation as its JSON object: decoding the encoding yields the
/// relation back, equal in all four fields.
pub fn relation_to_json(r: &Relation) -> (j: Json)
    ensures
        spec_relation_of(j) == Some(r@),
{
    let title: Json = match &r.title {
        Some(t) => Json::Str(t.clone()),
        None => Json::Null,
    };
    let mut fields: Vec<(String, Json)> = Vec::new();
    fields.push(("subject".to_owned(), Json::Str(r.subject.clone())));
    fields.push(("property".to_owned(), Json::Str(r.property.clone())));
    fields.push(("value".to_owned(), Json::Str(r.value.clone())));
    fields.push(("title".to_owned(), title));
    let j = Json::Obj(fields);
    proof {
        reveal_strlit("subject");
        reveal_strlit("property");
        reveal_strlit("value");
        reveal_strlit("title");
        assert("subject"@.len() == 7);
        assert("property"@.len() == 8);
        assert("value"@.len() == 5);
        assert("title"@.len() == 5);
        assert("value"@[0] == 'v');
        assert("title"@[0] == 't');
        let f = fields@;
        assert(f.len() == 4);
        let f1 = f.drop_first();
        let f2 = f1.drop_first();
        let f3 = f2.drop_first();
        assert(f1[0] == f[1] && f2[0] == f[2] && f3[0] == f[3]);
        assert(lookup(f, "subject"@) == Some(f[0].1));
        assert(lookup(f, "property"@) == lookup(f1, "property"@));
        assert(lookup(f1, "property"@) == Some(f1[0].1));
        assert(lookup(f, "value"@) == lookup(f1, "value"@));
        assert(lookup(f1, "value"@) == lookup(f2, "value"@));
        assert(lookup(f2, "value"@) == Some(f2[0].1));
        assert(lookup(f, "title"@) == lookup(f1, "title"@));
        assert(lookup(f1, "title"@) == lookup(f2, "title"@));
        assert(lookup(f2, "title"@) == lookup(f3, "title"@));
        assert(lookup(f3, "title"@) == Some(f3[0].1));
    }
    j
}

/// Decode the relation a JSON value encodes, if it encodes one.
pub fn relation_of_json(j: &Json) -> (r: Option<Relation>)
    ensures
        match r {
            Some(rel) => spec_relation_of(*j) == Some(rel@),
            None => spec_relation_of(*j) is None,
        },
{
    let subject: String = match get_string(j, "subject") {
        Some(x) => x.clone(),
        None => {
            return None;
        },
    };
    let property: String = match get_string(j, "property") {
        Some(x) => x.clone(),
        None => {
            return None;
        },
    };
    let value: String = match get_string(j, "value") {
        Some(x) => x.clone(),
        None => {
            return None;
        },
    };
    let title: Option<String> = match crate::json::get(j, "title") {
        Some(Json::Str(t)) => Some(t.clone()),
        Some(Json::Null) => None,
        _ => {
            return None;
        },
    };
    Some(Relation { subject, property, value, title })
}

/// One output line for a relation: its JSON object, serialized compactly.
/// The encoding decodes back to the relation, and the line never holds a
/// newline, so one write emits one whole relation and nothing else.
pub fn relation_to_line(r: &Relation) -> (line: String)
    ensures
        exists|j: Json|
            #![trigger json_text(j)]
            spec_relation_of(j) == Some(r@) && line@ == json_text(j),
        forall|i: int| 0 <= i < line@.len() ==> line@[i] != '\n',
{
    let j = relation_to_json(r);
    let line = to_text(&j);
    proof {
        assert(spec_relation_of(j) == Some(r@) && line@ == json_text(j));
    }
    line
}

} // verus!
