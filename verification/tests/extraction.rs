use wikidata::codec::{relation_of_json, relation_to_json, relation_to_line};
use wikidata::extract::{Error, UnknownPolicy};
use wikidata::framing::frame_line;
use wikidata::json::parse_json;
use wikidata::pipeline::{line_to_relations, lines_to_relations};
use wikidata::Relation;

fn relations_of(line: &str) -> Vec<Relation> {
    let (rels, notes) = line_to_relations(line, UnknownPolicy::Report).expect("line should extract");
    assert!(notes.is_empty());
    rels
}

fn triple(r: &Relation) -> (String, String, String) {
    (r.subject.clone(), r.property.clone(), r.value.clone())
}

#[test]
fn single_item_claim_yields_relation() {
    let line = "{\"id\":\"Q5\",\"claims\":{\"P31\":[{\"mainsnak\":{\"datatype\":\"wikibase-item\",\"property\":\"P31\",\"datavalue\":{\"value\":{\"id\":\"Q101352\"}}}}]},\"sitelinks\":{\"enwiki\":{\"title\":\"Human\"}}},";
    let rels = relations_of(line);
    assert_eq!(rels.len(), 1);
    assert_eq!(rels[0].subject, "Q5");
    assert_eq!(rels[0].property, "P31");
    assert_eq!(rels[0].value, "Q101352");
    assert_eq!(rels[0].title.as_deref(), Some("Human"));
}

#[test]
fn wikibase_property_claim_yields_relation() {
    let line = "{\"id\":\"P6\",\"claims\":{\"P1647\":[{\"mainsnak\":{\"datatype\":\"wikibase-property\",\"property\":\"P1647\",\"datavalue\":{\"value\":{\"id\":\"P2\"}}}}]}}";
    let rels = relations_of(line);
    assert_eq!(rels.len(), 1);
    assert_eq!(rels[0].value, "P2");
    assert_eq!(rels[0].title, None);
}

#[test]
fn monolingualtext_yields_text() {
    let line = "{\"id\":\"Q1\",\"claims\":{\"P1705\":[{\"mainsnak\":{\"datatype\":\"monolingualtext\",\"property\":\"P1705\",\"datavalue\":{\"value\":{\"text\":\"Universum\"}}}}]}}";
    let rels = relations_of(line);
    assert_eq!(rels.len(), 1);
    assert_eq!(rels[0].property, "P1705");
    assert_eq!(rels[0].value, "Universum");
}

#[test]
fn ignored_datatypes_yield_nothing() {
    let ignored = [
        "external-id",
        "url",
        "globe-coordinate",
        "quantity",
        "string",
        "commonsMedia",
        "time",
        "math",
    ];
    for datatype in ignored {
        let line = format!(
            "{{\"id\":\"Q1\",\"claims\":{{\"P1\":[{{\"mainsnak\":{{\"datatype\":\"{}\",\"property\":\"P1\",\"datavalue\":{{\"value\":\"whatever\"}}}}}}]}}}},",
            datatype
        );
        let rels = relations_of(&line);
        assert!(rels.is_empty(), "datatype {} must yield no relation", datatype);
    }
}

#[test]
fn bracket_lines_yield_nothing() {
    for line in ["[", "]", "  [ ", "\t]", "[\n"] {
        assert!(frame_line(line).is_none());
        let (rels, notes) = line_to_relations(line, UnknownPolicy::Report).unwrap();
        assert!(rels.is_empty());
        assert!(notes.is_empty());
    }
}

#[test]
fn frame_strips_only_final_comma() {
    assert_eq!(frame_line("{\"a\":1},"), Some("{\"a\":1}"));
    assert_eq!(frame_line("{\"a\":1}"), Some("{\"a\":1}"));
    assert_eq!(frame_line("{\"a\":\"x,y\"}"), Some("{\"a\":\"x,y\"}"));
}

#[test]
fn trailing_comma_equivalence() {
    let with_comma = "{\"id\":\"Q5\",\"claims\":{\"P31\":[{\"mainsnak\":{\"datatype\":\"wikibase-item\",\"property\":\"P31\",\"datavalue\":{\"value\":{\"id\":\"Q101352\"}}}}]}},";
    let without = &with_comma[..with_comma.len() - 1];
    let a: Vec<_> = relations_of(with_comma).iter().map(triple).collect();
    let b: Vec<_> = relations_of(without).iter().map(triple).collect();
    assert_eq!(a, b);
    assert_eq!(a.len(), 1);
}

#[test]
fn title_shared_across_relations() {
    let line = "{\"id\":\"Q30\",\"claims\":{\"P31\":[{\"mainsnak\":{\"datatype\":\"wikibase-item\",\"property\":\"P31\",\"datavalue\":{\"value\":{\"id\":\"Q3624078\"}}}},{\"mainsnak\":{\"datatype\":\"wikibase-item\",\"property\":\"P31\",\"datavalue\":{\"value\":{\"id\":\"Q6256\"}}}}],\"P36\":[{\"mainsnak\":{\"datatype\":\"wikibase-item\",\"property\":\"P36\",\"datavalue\":{\"value\":{\"id\":\"Q61\"}}}}]},\"sitelinks\":{\"enwiki\":{\"title\":\"United States\"}}},";
    let rels = relations_of(line);
    assert_eq!(rels.len(), 3);
    for r in &rels {
        assert_eq!(r.title.as_deref(), Some("United States"));
        assert_eq!(r.subject, "Q30");
    }
}

#[test]
fn absent_sitelinks_degrade_to_no_title() {
    let line = "{\"id\":\"Q5\",\"claims\":{\"P31\":[{\"mainsnak\":{\"datatype\":\"wikibase-item\",\"property\":\"P31\",\"datavalue\":{\"value\":{\"id\":\"Q101352\"}}}}]}}";
    let rels = relations_of(line);
    assert_eq!(rels.len(), 1);
    assert_eq!(rels[0].title, None);
}

#[test]
fn malformed_sitelinks_degrade_to_no_title() {
    let line = "{\"id\":\"Q5\",\"claims\":{\"P31\":[{\"mainsnak\":{\"datatype\":\"wikibase-item\",\"property\":\"P31\",\"datavalue\":{\"value\":{\"id\":\"Q101352\"}}}}]},\"sitelinks\":\"oops\"}";
    let rels = relations_of(line);
    assert_eq!(rels.len(), 1);
    assert_eq!(rels[0].title, None);
}

#[test]
fn novalue_snak_skipped() {
    let line = "{\"id\":\"Q1\",\"claims\":{\"P31\":[{\"mainsnak\":{\"datatype\":\"wikibase-item\",\"property\":\"P31\"}}]}}";
    assert!(relations_of(line).is_empty());
}

#[test]
fn missing_datatype_skipped() {
    let line = "{\"id\":\"Q1\",\"claims\":{\"P31\":[{\"mainsnak\":{\"property\":\"P31\"}}]}}";
    assert!(relations_of(line).is_empty());
}

#[test]
fn missing_property_is_fatal() {
    let line = "{\"id\":\"Q1\",\"claims\":{\"P31\":[{\"mainsnak\":{\"datatype\":\"wikibase-item\",\"datavalue\":{\"value\":{\"id\":\"Q2\"}}}}]}}";
    let r = line_to_relations(line, UnknownPolicy::Report);
    assert!(matches!(r, Err(Error::MissingProperty(_))));
}

#[test]
fn monolingualtext_missing_text_is_fatal() {
    let line = "{\"id\":\"Q1\",\"claims\":{\"P1705\":[{\"mainsnak\":{\"datatype\":\"monolingualtext\",\"property\":\"P1705\",\"datavalue\":{\"value\":{}}}}]}}";
    let r = line_to_relations(line, UnknownPolicy::Report);
    assert!(matches!(r, Err(Error::MissingText(_))));
}

#[test]
fn unknown_datatype_reported() {
    let line = "{\"id\":\"Q1\",\"claims\":{\"P1\":[{\"mainsnak\":{\"datatype\":\"tabular-data\",\"property\":\"P1\"}}]}}";
    let (rels, notes) = line_to_relations(line, UnknownPolicy::Report).unwrap();
    assert!(rels.is_empty());
    assert_eq!(notes.len(), 1);
    assert_eq!(notes[0].datatype, "tabular-data");
    assert!(notes[0].statement.contains("tabular-data"));
}

#[test]
fn unknown_datatype_aborts_under_abort_policy() {
    let line = "{\"id\":\"Q1\",\"claims\":{\"P1\":[{\"mainsnak\":{\"datatype\":\"tabular-data\",\"property\":\"P1\"}}]}}";
    let r = line_to_relations(line, UnknownPolicy::Abort);
    match r {
        Err(Error::UnknownDatatype(d, _)) => assert_eq!(d, "tabular-data"),
        _ => panic!("expected an unknown-datatype error"),
    }
}

#[test]
fn bad_json_is_parse_error() {
    let r = line_to_relations("{not json},", UnknownPolicy::Report);
    match r {
        Err(Error::Parse(t)) => assert_eq!(t, "{not json}"),
        _ => panic!("expected a parse error"),
    }
}

#[test]
fn empty_line_is_parse_error() {
    assert!(matches!(
        line_to_relations("", UnknownPolicy::Report),
        Err(Error::Parse(_))
    ));
}

#[test]
fn missing_id_is_fatal() {
    let r = line_to_relations("{\"claims\":{}}", UnknownPolicy::Report);
    assert!(matches!(r, Err(Error::MissingId(_))));
}

#[test]
fn mistyped_id_is_fatal() {
    let r = line_to_relations("{\"id\":7,\"claims\":{}}", UnknownPolicy::Report);
    assert!(matches!(r, Err(Error::MissingId(_))));
}

#[test]
fn missing_claims_is_fatal() {
    let r = line_to_relations("{\"id\":\"Q1\"}", UnknownPolicy::Report);
    assert!(matches!(r, Err(Error::MissingClaims(_))));
}

#[test]
fn non_object_record_is_fatal() {
    let r = line_to_relations("[1,2],", UnknownPolicy::Report);
    assert!(matches!(r, Err(Error::NotObject(_))));
}

#[test]
fn claim_group_not_array_is_fatal() {
    let r = line_to_relations(
        "{\"id\":\"Q1\",\"claims\":{\"P31\":\"oops\"}}",
        UnknownPolicy::Report,
    );
    match r {
        Err(Error::BadGroup(p, _)) => assert_eq!(p, "P31"),
        _ => panic!("expected a bad-group error"),
    }
}

#[test]
fn whole_file_extraction() {
    let lines: Vec<String> = vec![
        "[".to_string(),
        "{\"id\":\"Q5\",\"claims\":{\"P31\":[{\"mainsnak\":{\"datatype\":\"wikibase-item\",\"property\":\"P31\",\"datavalue\":{\"value\":{\"id\":\"Q101352\"}}}}]},\"sitelinks\":{\"enwiki\":{\"title\":\"Human\"}}},".to_string(),
        "{\"id\":\"Q1\",\"claims\":{\"P1705\":[{\"mainsnak\":{\"datatype\":\"monolingualtext\",\"property\":\"P1705\",\"datavalue\":{\"value\":{\"text\":\"Universum\"}}}}]}}".to_string(),
        "]".to_string(),
    ];
    let (rels, notes) = lines_to_relations(&lines, UnknownPolicy::Report).unwrap();
    assert!(notes.is_empty());
    let mut got: Vec<_> = rels.iter().map(triple).collect();
    got.sort();
    assert_eq!(
        got,
        vec![
            ("Q1".to_string(), "P1705".to_string(), "Universum".to_string()),
            ("Q5".to_string(), "P31".to_string(), "Q101352".to_string()),
        ]
    );
}

#[test]
fn fanout_disjoint_union() {
    let file_a: Vec<String> = vec![
        "[".to_string(),
        "{\"id\":\"Q5\",\"claims\":{\"P31\":[{\"mainsnak\":{\"datatype\":\"wikibase-item\",\"property\":\"P31\",\"datavalue\":{\"value\":{\"id\":\"Q101352\"}}}}]}},".to_string(),
        "{\"id\":\"Q6\",\"claims\":{\"P31\":[{\"mainsnak\":{\"datatype\":\"wikibase-item\",\"property\":\"P31\",\"datavalue\":{\"value\":{\"id\":\"Q101352\"}}}}]}}".to_string(),
        "]".to_string(),
    ];
    let file_b: Vec<String> = vec![
        "[".to_string(),
        "{\"id\":\"Q7\",\"claims\":{\"P279\":[{\"mainsnak\":{\"datatype\":\"wikibase-item\",\"property\":\"P279\",\"datavalue\":{\"value\":{\"id\":\"Q8\"}}}}]}}".to_string(),
        "]".to_string(),
    ];
    let (ra, _) = lines_to_relations(&file_a, UnknownPolicy::Report).unwrap();
    let (rb, _) = lines_to_relations(&file_b, UnknownPolicy::Report).unwrap();
    let mut merged: Vec<_> = ra.iter().chain(rb.iter()).map(triple).collect();
    merged.sort();
    let mut separate: Vec<_> = ra.iter().map(triple).collect();
    separate.extend(rb.iter().map(triple));
    separate.sort();
    assert_eq!(merged, separate);
    assert_eq!(merged.len(), 3);
    let mut dedup = merged.clone();
    dedup.dedup();
    assert_eq!(dedup.len(), 3);
}

#[test]
fn relation_line_exact_text() {
    let r = Relation {
        subject: "Q5".to_string(),
        property: "P31".to_string(),
        value: "Q101352".to_string(),
        title: Some("Human".to_string()),
    };
    assert_eq!(
        relation_to_line(&r),
        "{\"property\":\"P31\",\"subject\":\"Q5\",\"title\":\"Human\",\"value\":\"Q101352\"}"
    );
}

#[test]
fn relation_line_null_title() {
    let r = Relation {
        subject: "Q1".to_string(),
        property: "P2".to_string(),
        value: "Q3".to_string(),
        title: None,
    };
    assert_eq!(
        relation_to_line(&r),
        "{\"property\":\"P2\",\"subject\":\"Q1\",\"title\":null,\"value\":\"Q3\"}"
    );
}

#[test]
fn relation_round_trip_through_text() {
    let original = Relation {
        subject: "Q42".to_string(),
        property: "P800".to_string(),
        value: "The \"Guide\", a\\b\ntext".to_string(),
        title: Some("Douglas Adams".to_string()),
    };
    let line = relation_to_line(&original);
    assert!(!line.contains('\n'));
    let parsed = parse_json(&line).expect("the emitted line must parse");
    let back = relation_of_json(&parsed).expect("the emitted object must decode");
    assert_eq!(back.subject, original.subject);
    assert_eq!(back.property, original.property);
    assert_eq!(back.value, original.value);
    assert_eq!(back.title, original.title);
}

#[test]
fn relation_round_trip_at_tree_level() {
    let original = Relation {
        subject: "Q1".to_string(),
        property: "P1".to_string(),
        value: "literal text".to_string(),
        title: None,
    };
    let back = relation_of_json(&relation_to_json(&original)).unwrap();
    assert_eq!(back.subject, original.subject);
    assert_eq!(back.property, original.property);
    assert_eq!(back.value, original.value);
    assert_eq!(back.title, original.title);
}

#[test]
fn emitted_line_matches_independent_parser() {
    let r = Relation {
        subject: "Q5".to_string(),
        property: "P31".to_string(),
        value: "Q101352".to_string(),
        title: Some("Human".to_string()),
    };
    let line = relation_to_line(&r);
    let v: serde_json::Value = serde_json::from_str(&line).expect("valid JSON");
    assert_eq!(v["subject"].as_str(), Some("Q5"));
    assert_eq!(v["property"].as_str(), Some("P31"));
    assert_eq!(v["value"].as_str(), Some("Q101352"));
    assert_eq!(v["title"].as_str(), Some("Human"));
}

#[test]
fn parse_json_rejects_garbage() {
    assert!(parse_json("{\"id\":").is_none());
    assert!(parse_json("").is_none());
}

#[test]
fn unicode_record_survives() {
    let line = "{\"id\":\"Q64\",\"claims\":{\"P1705\":[{\"mainsnak\":{\"datatype\":\"monolingualtext\",\"property\":\"P1705\",\"datavalue\":{\"value\":{\"text\":\"K\\u00f6ln \\u2014 \\ud83c\\udf09\"}}}}]},\"sitelinks\":{\"enwiki\":{\"title\":\"Cologne\"}}},";
    let rels = relations_of(line);
    assert_eq!(rels.len(), 1);
    assert_eq!(rels[0].value, "Köln — 🌉");
    assert_eq!(rels[0].title.as_deref(), Some("Cologne"));
}
