//! Extraction of subject–property–value relations from a Wikidata JSON dump.
//!
//! The dump is a pseudo-JSON array spread one entity object per line. The
//! library recovers each entity record from that framing, decodes its claim
//! structure, dispatches on each statement's datatype, and emits one relation
//! per qualifying statement, annotated with the subject's English-Wikipedia
//! title when one is present.

pub mod codec;
pub mod extract;
pub mod framing;
pub mod json;
pub mod pipeline;

use vstd::prelude::*;

verus! {

/// A relation triple extracted from one statement of one entity record.
pub struct Relation {
    /// The entity record's identifier.
    pub subject: String,
    /// The statement's property identifier.
    pub property: String,
    /// The referenced entity identifier or literal text.
    pub value: String,
    /// The subject's English-Wikipedia title, when resolved.
    pub title: Option<String>,
}

/// The ghost mirror of a relation: each field as its view.
pub struct RelationV {
    pub subject: Seq<char>,
    pub property: Seq<char>,
    pub value: Seq<char>,
    pub title: Option<Seq<char>>,
}

impl View for Relation {
    type V = RelationV;

    open spec fn view(&self) -> RelationV {
        RelationV {
            subject: self.subject@,
            property: self.property@,
            value: self.value@,
            title: self.title.deep_view(),
        }
    }
}

impl DeepView for Relation {
    type V = RelationV;

    open spec fn deep_view(&self) -> RelationV {
        self.view()
    }
}

} // verus!
