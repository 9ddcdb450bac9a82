//! The records that the library's rules read: chapters, artifacts, and the
//! continuity ledger with its reports.
use vstd::prelude::*;

verus! {

/// A chapter of a project.
#[derive(Debug, PartialEq, Eq)]
pub struct Chapter {
    pub id: i64,
    pub project_id: i64,
    pub chapter_no: i64,
    pub title: String,
    pub status: String,
    pub current_artifact_id: Option<i64>,
    pub created_at: String,
    pub updated_at: String,
}

/// A stored piece of writing: a draft, a revision, an approved body.
#[derive(Debug, PartialEq, Eq)]
pub struct Artifact {
    pub id: i64,
    pub project_id: i64,
    pub chapter_id: Option<i64>,
    pub stage: String,
    pub title: String,
    pub content: String,
    pub version: i64,
    pub status: String,
    pub parent_artifact_id: Option<i64>,
    pub created_at: String,
}

/// One state of one named entity, as an approved chapter establishes it,
/// with the verbatim quote that shows it.
#[derive(Debug, PartialEq, Eq)]
pub struct ContinuityLedgerEntry {
    pub id: i64,
    pub project_id: i64,
    pub chapter_id: i64,
    pub source_artifact_id: i64,
    pub source_text_hash: String,
    pub normalization_version: String,
    pub entity_kind: String,
    pub entity_key: String,
    pub entity_label: String,
    pub state_kind: String,
    pub state_value: String,
    pub evidence_quote: String,
    pub created_at: String,
}

/// A place where a candidate draft contradicts the ledger.
#[derive(Debug, PartialEq, Eq)]
pub struct LedgerContinuityIssue {
    pub severity: String,
    pub entity_label: String,
    pub entity_kind: String,
    pub state_kind: String,
    pub candidate_quote: String,
    pub source_chapter: String,
    pub source_quote: String,
    pub reason: String,
    pub suggestion: String,
}

/// The outcome of checking a candidate draft against the ledger.
#[derive(Debug, PartialEq, Eq)]
pub struct LedgerContinuityReport {
    pub project_id: i64,
    pub artifact_id: i64,
    pub summary: String,
    pub issues: Vec<LedgerContinuityIssue>,
}

/// A continuity issue as text.
pub struct IssueView {
    pub severity: Seq<char>,
    pub entity_label: Seq<char>,
    pub entity_kind: Seq<char>,
    pub state_kind: Seq<char>,
    pub candidate_quote: Seq<char>,
    pub source_chapter: Seq<char>,
    pub source_quote: Seq<char>,
    pub reason: Seq<char>,
    pub suggestion: Seq<char>,
}

impl View for LedgerContinuityIssue {
    type V = IssueView;

    open spec fn view(&self) -> IssueView {
        IssueView {
            severity: self.severity@,
            entity_label: self.entity_label@,
            entity_kind: self.entity_kind@,
            state_kind: self.state_kind@,
            candidate_quote: self.candidate_quote@,
            source_chapter: self.source_chapter@,
            source_quote: self.source_quote@,
            reason: self.reason@,
            suggestion: self.suggestion@,
        }
    }
}

/// The views of a list of issues.
pub open spec fn issue_views(s: Seq<LedgerContinuityIssue>) -> Seq<IssueView> {
    s.map_values(|i: LedgerContinuityIssue| i@)
}

/// A ledger entry as integers and text.
pub struct EntryView {
    pub id: i64,
    pub project_id: i64,
    pub chapter_id: i64,
    pub source_artifact_id: i64,
    pub source_text_hash: Seq<char>,
    pub normalization_version: Seq<char>,
    pub entity_kind: Seq<char>,
    pub entity_key: Seq<char>,
    pub entity_label: Seq<char>,
    pub state_kind: Seq<char>,
    pub state_value: Seq<char>,
    pub evidence_quote: Seq<char>,
    pub created_at: Seq<char>,
}

impl View for ContinuityLedgerEntry {
    type V = EntryView;

    open spec fn view(&self) -> EntryView {
        EntryView {
            id: self.id,
            project_id: self.project_id,
            chapter_id: self.chapter_id,
            source_artifact_id: self.source_artifact_id,
            source_text_hash: self.source_text_hash@,
            normalization_version: self.normalization_version@,
            entity_kind: self.entity_kind@,
            entity_key: self.entity_key@,
            entity_label: self.entity_label@,
            state_kind: self.state_kind@,
            state_value: self.state_value@,
            evidence_quote: self.evidence_quote@,
            created_at: self.created_at@,
        }
    }
}

/// The views of a list of ledger entries.
pub open spec fn entry_views(s: Seq<ContinuityLedgerEntry>) -> Seq<EntryView> {
    s.map_values(|e: ContinuityLedgerEntry| e@)
}

/// A named entity of the story index: a character, item, resource, place.
#[derive(Debug, PartialEq, Eq)]
pub struct StoryEntity {
    pub id: i64,
    pub project_id: i64,
    pub kind: String,
    pub name: String,
    pub status: String,
    pub first_seen_chapter_id: Option<i64>,
    pub source_artifact_id: Option<i64>,
    pub source_quote: String,
    pub created_at: String,
    pub updated_at: String,
}

/// One fact of the story index: a value of one dimension of an entity, as a
/// chapter states it.
#[derive(Debug, PartialEq, Eq)]
pub struct StoryFact {
    pub id: i64,
    pub project_id: i64,
    pub entity_id: i64,
    pub event_id: Option<i64>,
    pub dimension: String,
    pub value: String,
    pub visibility: String,
    pub status: String,
    pub narrative_chapter_id: Option<i64>,
    pub source_artifact_id: i64,
    pub source_quote: String,
    pub supersedes_fact_id: Option<i64>,
    pub created_at: String,
}

} // verus!
