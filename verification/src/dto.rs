//! The data that a run takes and hands back.

use vstd::prelude::*;
use crate::json::JsonObject;
use crate::keyed::{distinct_keys, lemma_map_of_len, lookup, map_of, pairs_view, put};

verus! {

/// The views of the elements of a sequence.
pub open spec fn views<T: View>(s: Seq<T>) -> Seq<T::V> {
    s.map_values(|t: T| t@)
}

/// The identifier that the platform gives a run.
#[derive(Debug)]
pub struct RunId(pub String);

/// Where a run was started from.
#[derive(Debug)]
pub struct Meta {
    pub origin: String,
    pub user_agent: String,
}

/// The limits a run was started with.
#[derive(Debug)]
pub struct Options {
    build: String,
    pub disk_m_bytes: u32,
    pub max_items: u32,
    pub memory_m_bytes: u32,
    pub timeout_secs: u32,
}

/// Counters of a run.
#[derive(Debug)]
pub struct Stats {
    pub compute_units: u32,
    pub input_body_len: u32,
    pub migration_count: u32,
    pub reboot_count: u32,
    pub restart_count: u32,
    pub resurrect_count: u32,
}

/// A moment in UTC: seconds since 1970-01-01T00:00:00Z, and the nanoseconds
/// into that second.
#[derive(Clone, Copy, Debug, PartialEq, Eq)]
pub struct Timestamp {
    pub secs: i64,
    pub nanos: u32,
}

/// What a mapped field holds.
#[derive(Debug)]
pub enum DataKind {
    /// A calendar date, written in `format`.
    Date { format: String },
    /// Plain text.
    String,
}

/// A [`DataKind`] in contracts.
pub enum DataKindView {
    Date { format: Seq<char> },
    String,
}

impl View for DataKind {
    type V = DataKindView;

    open spec fn view(&self) -> DataKindView {
        match self {
            DataKind::Date { format } => DataKindView::Date { format: format@ },
            DataKind::String => DataKindView::String,
        }
    }
}

/// A rule of the field extractor: the field `from` of a record feeds `to` of
/// the export item.
#[derive(Debug)]
pub struct KeyMapping {
    pub from: String,
    pub to: String,
    pub kind: DataKind,
}

/// A [`KeyMapping`] in contracts.
pub struct KeyMappingView {
    pub from: Seq<char>,
    pub to: Seq<char>,
    pub kind: DataKindView,
}

impl View for KeyMapping {
    type V = KeyMappingView;

    open spec fn view(&self) -> KeyMappingView {
        KeyMappingView { from: self.from@, to: self.to@, kind: self.kind@ }
    }
}

/// A rule of the state mapper.
#[derive(Debug)]
pub struct StateMapping {
    /// The key of the state that the rule writes, and that feeds the request.
    pub from: String,
    /// The key of the request payload that the state's value is copied to.
    pub to: String,
    /// A `$` and an expression, or anything else for a literal rule.
    pub update: String,
}

/// A [`StateMapping`] in contracts.
pub struct StateMappingView {
    pub from: Seq<char>,
    pub to: Seq<char>,
    pub update: Seq<char>,
}

impl View for StateMapping {
    type V = StateMappingView;

    open spec fn view(&self) -> StateMappingView {
        StateMappingView { from: self.from@, to: self.to@, update: self.update@ }
    }
}

/// The metadata of an export item: text under string keys, no key twice.
///
/// `==` holds of two values that have the same entries in the same order; the
/// contracts speak of the entries alone.
#[derive(Debug, PartialEq)]
pub struct Metadata {
    entries: Vec<(String, String)>,
}

impl View for Metadata {
    type V = Map<Seq<char>, Seq<char>>;

    closed spec fn view(&self) -> Map<Seq<char>, Seq<char>> {
        map_of(pairs_view(self.entries@))
    }
}

impl Clone for Metadata {
    fn clone(&self) -> (r: Metadata)
        ensures
            r@ == self@,
    {
        proof {
            use_type_invariant(self);
        }
        let mut entries: Vec<(String, String)> = Vec::new();
        let mut i: usize = 0;
        while i < self.entries.len()
            invariant
                i <= self.entries.len(),
                pairs_view(entries@) == pairs_view(self.entries@).subrange(0, i as int),
            decreases self.entries.len() - i,
        {
            let key = self.entries[i].0.clone();
            let value = self.entries[i].1.clone();
            let ghost before = pairs_view(entries@);
            entries.push((key, value));
            assert(pairs_view(entries@) =~= before.push((key@, value@)));
            assert(pairs_view(self.entries@)[i as int] == (key@, value@));
            i += 1;
            assert(pairs_view(entries@) =~= pairs_view(self.entries@).subrange(0, i as int));
        }
        assert(pairs_view(entries@) =~= pairs_view(self.entries@));
        Metadata { entries }
    }
}

impl Metadata {
    #[verifier::type_invariant]
    spec fn inv(self) -> bool {
        distinct_keys(pairs_view(self.entries@))
    }

    /// Metadata without entries.
    pub fn new() -> (r: Metadata)
        ensures
            r@ == Map::<Seq<char>, Seq<char>>::empty(),
    {
        Metadata { entries: Vec::new() }
    }

    /// The number of entries.
    pub fn len(&self) -> (r: usize)
        ensures
            r == self@.len(),
    {
        proof {
            use_type_invariant(self);
            lemma_map_of_len(pairs_view(self.entries@));
        }
        self.entries.len()
    }

    /// The text under `key`, if there is an entry for it.
    pub fn get(&self, key: &str) -> (r: Option<&String>)
        ensures
            match r {
                Some(v) => self@.contains_key(key@) && self@[key@] == v@,
                None => !self@.contains_key(key@),
            },
    {
        proof {
            use_type_invariant(self);
        }
        lookup(&self.entries, key)
    }

    /// Sets the entry `key` to `value`, in place of the text it had if it was
    /// there.
    pub fn insert(&mut self, key: String, value: String)
        ensures
            final(self)@ == old(self)@.insert(key@, value@),
    {
        proof {
            use_type_invariant(&*self);
        }
        let mut taken = Metadata { entries: Vec::new() };
        core::mem::swap(self, &mut taken);
        let mut entries = taken.entries;
        put(&mut entries, key, value);
        *self = Metadata { entries };
    }

    /// The entries, each key once, in no order that callers may rely on.
    pub fn entries(&self) -> (r: &Vec<(String, String)>)
        ensures
            distinct_keys(pairs_view(r@)),
            map_of(pairs_view(r@)) == self@,
    {
        proof {
            use_type_invariant(self);
        }
        &self.entries
    }
}

/// A normalized record. An item always has its content and its date: a record
/// that yields neither is dropped, never exported with a hole.
#[derive(Debug, PartialEq)]
pub struct ExportItem {
    pub id: Option<String>,
    pub content: String,
    /// Midnight UTC of the record's calendar date.
    pub date: Timestamp,
    pub metadata: Metadata,
}

/// An [`ExportItem`] in contracts.
pub struct ExportItemView {
    pub id: Option<Seq<char>>,
    pub content: Seq<char>,
    pub date: Timestamp,
    pub metadata: Map<Seq<char>, Seq<char>>,
}

impl View for ExportItem {
    type V = ExportItemView;

    open spec fn view(&self) -> ExportItemView {
        ExportItemView {
            id: match self.id {
                Some(s) => Some(s@),
                None => None,
            },
            content: self.content@,
            date: self.date,
            metadata: self.metadata@,
        }
    }
}

/// What a finished run hands back: the state to keep for the next run, as
/// JSON text, and the exported items.
#[derive(Debug, PartialEq)]
pub struct Response {
    pub state: String,
    pub result: Vec<ExportItem>,
}

/// The settings of a job on one of the known actors.
#[derive(Debug)]
pub struct Settings {
    /// The actor's configuration, read according to the actor type that the
    /// request names.
    pub actor_config: serde_json::Value,
    pub token: String,
    pub key_mapping: Vec<KeyMapping>,
    pub state_mapping: Option<Vec<StateMapping>>,
}

/// A job with its settings and the state of the run before it.
#[derive(Debug)]
pub struct JobCreation {
    pub settings: Settings,
    /// The state, as the text of a JSON object.
    pub state: String,
}

/// The settings of a job on an actor named by its identifier.
#[derive(Debug)]
pub struct ArbitraryActorSettings {
    /// The actor's identifier on the platform.
    pub actor_id: String,
    /// The actor's input where it is a JSON object; any other input counts as
    /// an empty one.
    pub actor_input: Option<JsonObject>,
    pub token: String,
    pub key_mapping: Vec<KeyMapping>,
    pub state_mapping: Option<Vec<StateMapping>>,
}

/// A job on an actor named by its identifier.
#[derive(Debug)]
pub struct ArbitraryActorJob {
    pub settings: ArbitraryActorSettings,
    /// The state, as the text of a JSON object.
    pub state: String,
}

} // verus!
