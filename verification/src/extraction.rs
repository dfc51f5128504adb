//! The field extractor: from the raw records of a run to export items.
//!
//! Each record is judged alone. One that is no object, that lacks its content
//! or its date, or whose date cannot be read is left out; the others come out
//! in the order in which they came in.

use vstd::prelude::*;
use crate::dto::{
    views, DataKind, DataKindView, ExportItem, ExportItemView, KeyMapping, KeyMappingView, Metadata,
    Timestamp,
};
use crate::json::{JsonObject, JsonValue, JsonView};
use crate::keyed::{distinct_keys, has_key, lemma_map_of_dom, lemma_map_of_entry, map_of};
use crate::text::str_eq;

verus! {

/// The error with which `chrono` refuses a text that holds no date.
#[verifier::external_type_specification]
#[verifier::external_body]
pub struct ExDateParseError(chrono::ParseError);

/// What `chrono` reads from `text` as a calendar date written in `format`: the
/// days from 1970-01-01 to that date, or `None` where it reads no date.
pub uninterp spec fn parsed_epoch_days(text: Seq<char>, format: Seq<char>) -> Option<int>;

/// `chrono::NaiveDate::parse_from_str`, and `NaiveDate::to_epoch_days` on the
/// date it found: the date that `text` holds in the strftime format `format`,
/// as days since 1970-01-01, or the error with which `chrono` refuses the pair.
#[verifier::external_body]
fn parse_epoch_days(text: &str, format: &str) -> (r: Result<i32, chrono::ParseError>)
    ensures
        match r {
            Ok(days) => parsed_epoch_days(text@, format@) == Some(days as int),
            Err(_) => parsed_epoch_days(text@, format@) is None,
        },
{
    chrono::NaiveDate::parse_from_str(text, format).map(|date| date.to_epoch_days())
}

/// Seconds in a day.
pub const SECONDS_PER_DAY: i64 = 86_400;

/// Midnight UTC of the day that lies `days` days after 1970-01-01.
pub open spec fn midnight_utc(days: int) -> Timestamp {
    Timestamp { secs: (days * 86_400) as i64, nanos: 0 }
}

/// One raw record of a run's result set.
#[derive(Debug, PartialEq)]
pub enum RawRecord {
    /// A JSON object.
    Object(JsonObject),
    /// Any other JSON value.
    NotObject,
}

impl View for RawRecord {
    type V = Option<Map<Seq<char>, JsonView>>;

    open spec fn view(&self) -> Option<Map<Seq<char>, JsonView>> {
        match self {
            RawRecord::Object(object) => Some(object@),
            RawRecord::NotObject => None,
        }
    }
}

/// Why a record yields no export item.
#[derive(Clone, Copy, Debug, PartialEq, Eq)]
pub enum ExtractionSkip {
    /// The record is not a JSON object.
    NotAnObject,
    /// A rule for `date` met a field that is no date in the rule's format.
    BadDate,
    /// No rule gave the item its content.
    MissingContent,
    /// No rule gave the item its date.
    MissingDate,
}

/// What the rules have gathered from a record so far.
pub struct Draft {
    pub id: Option<Seq<char>>,
    pub content: Option<Seq<char>>,
    /// The date, in days since 1970-01-01.
    pub date: Option<int>,
    pub metadata: Map<Seq<char>, Seq<char>>,
}

/// The draft before any rule.
pub open spec fn empty_draft() -> Draft {
    Draft { id: None, content: None, date: None, metadata: Map::empty() }
}

/// The characters of a value that is a string.
pub open spec fn text_of(value: JsonView) -> Option<Seq<char>> {
    match value {
        JsonView::Text(s) => Some(s),
        JsonView::Other(_) => None,
    }
}

/// The date that a rule of kind `kind` reads from `value`: the rule must be a
/// date rule and the value a string in the rule's format.
pub open spec fn date_of(value: JsonView, kind: DataKindView) -> Option<int> {
    match (value, kind) {
        (JsonView::Text(s), DataKindView::Date { format }) => parsed_epoch_days(s, format),
        _ => None,
    }
}

/// One rule applied to a draft. A rule whose `from` field the record lacks
/// changes nothing. Otherwise `id` and `content` take the field's text, or
/// nothing where the field is no string; `date` takes the field's date and
/// gives the record up where there is none; any other target takes the
/// field's text, if it is a string, as metadata.
pub open spec fn apply_rule(
    draft: Draft,
    record: Map<Seq<char>, JsonView>,
    rule: KeyMappingView,
) -> Result<Draft, ExtractionSkip> {
    if !record.contains_key(rule.from) {
        Ok(draft)
    } else if rule.to == "id"@ {
        Ok(Draft { id: text_of(record[rule.from]), ..draft })
    } else if rule.to == "content"@ {
        Ok(Draft { content: text_of(record[rule.from]), ..draft })
    } else if rule.to == "date"@ {
        match date_of(record[rule.from], rule.kind) {
            Some(days) => Ok(Draft { date: Some(days), ..draft }),
            None => Err(ExtractionSkip::BadDate),
        }
    } else {
        match record[rule.from] {
            JsonView::Text(s) => Ok(Draft { metadata: draft.metadata.insert(rule.to, s), ..draft }),
            JsonView::Other(_) => Ok(draft),
        }
    }
}

/// The rules applied in order, from the empty draft.
pub open spec fn apply_rules(record: Map<Seq<char>, JsonView>, rules: Seq<KeyMappingView>) -> Result<
    Draft,
    ExtractionSkip,
>
    decreases rules.len(),
{
    if rules.len() == 0 {
        Ok(empty_draft())
    } else {
        match apply_rules(record, rules.drop_last()) {
            Ok(draft) => apply_rule(draft, record, rules.last()),
            Err(skip) => Err(skip),
        }
    }
}

/// Some rule reads the field `key`.
pub open spec fn named_by_rule(rules: Seq<KeyMappingView>, key: Seq<char>) -> bool {
    exists|i: int| 0 <= i < rules.len() && (#[trigger] rules[i]).from == key
}

/// The fields that no rule reads and that hold a string: they pass into the
/// metadata under their own keys.
pub open spec fn pass_through(record: Map<Seq<char>, JsonView>, rules: Seq<KeyMappingView>) -> Map<
    Seq<char>,
    Seq<char>,
> {
    Map::new(
        |k: Seq<char>| record.contains_key(k) && record[k] is Text && !named_by_rule(rules, k),
        |k: Seq<char>| record[k]->Text_0,
    )
}

/// The export item of one record, or why it has none.
pub open spec fn extracted(
    record: Option<Map<Seq<char>, JsonView>>,
    rules: Seq<KeyMappingView>,
) -> Result<ExportItemView, ExtractionSkip> {
    match record {
        None => Err(ExtractionSkip::NotAnObject),
        Some(fields) => match apply_rules(fields, rules) {
            Err(skip) => Err(skip),
            Ok(draft) => if draft.content is None {
                Err(ExtractionSkip::MissingContent)
            } else if draft.date is None {
                Err(ExtractionSkip::MissingDate)
            } else {
                Ok(
                    ExportItemView {
                        id: draft.id,
                        content: draft.content->0,
                        date: midnight_utc(draft.date->0),
                        metadata: draft.metadata.union_prefer_right(pass_through(fields, rules)),
                    },
                )
            },
        },
    }
}

/// The export items of a sequence of records: those of the records that have
/// one, in the records' order.
pub open spec fn extract_all(
    records: Seq<Option<Map<Seq<char>, JsonView>>>,
    rules: Seq<KeyMappingView>,
) -> Seq<ExportItemView>
    decreases records.len(),
{
    if records.len() == 0 {
        Seq::empty()
    } else {
        match extracted(records.last(), rules) {
            Ok(item) => extract_all(records.drop_last(), rules).push(item),
            Err(_) => extract_all(records.drop_last(), rules),
        }
    }
}

/// The positions of the records that have an export item, ascending.
pub open spec fn kept_positions(
    records: Seq<Option<Map<Seq<char>, JsonView>>>,
    rules: Seq<KeyMappingView>,
) -> Seq<int>
    decreases records.len(),
{
    if records.len() == 0 {
        Seq::empty()
    } else if extracted(records.last(), rules) is Ok {
        kept_positions(records.drop_last(), rules).push(records.len() - 1)
    } else {
        kept_positions(records.drop_last(), rules)
    }
}

/// The extractor drops exactly the records without an item and keeps the
/// order of the others: the item at position `n` of the output is the item of
/// the record at position `kept_positions(..)[n]`, these positions ascend, and
/// every record that has an item is among them.
pub proof fn lemma_extraction_keeps_order(
    records: Seq<Option<Map<Seq<char>, JsonView>>>,
    rules: Seq<KeyMappingView>,
)
    ensures
        extract_all(records, rules).len() == kept_positions(records, rules).len(),
        forall|n: int|
            0 <= n < kept_positions(records, rules).len() ==> {
                let p = #[trigger] kept_positions(records, rules)[n];
                &&& 0 <= p < records.len()
                &&& extracted(records[p], rules) == Ok::<ExportItemView, ExtractionSkip>(
                    extract_all(records, rules)[n],
                )
            },
        forall|m: int, n: int|
            0 <= m < n < kept_positions(records, rules).len() ==> kept_positions(records, rules)[m]
                < kept_positions(records, rules)[n],
        forall|p: int|
            0 <= p < records.len() && extracted(#[trigger] records[p], rules) is Ok
                ==> kept_positions(records, rules).contains(p),
    decreases records.len(),
{
    if records.len() > 0 {
        let rest = records.drop_last();
        lemma_extraction_keeps_order(rest, rules);
        let kept = kept_positions(records, rules);
        let kept_rest = kept_positions(rest, rules);
        assert forall|p: int|
            0 <= p < records.len() && extracted(#[trigger] records[p], rules) is Ok implies kept.contains(
            p,
        ) by {
            if p < rest.len() {
                assert(rest[p] == records[p]);
                let n = choose|n: int| 0 <= n < kept_rest.len() && kept_rest[n] == p;
                assert(kept[n] == p);
            } else {
                assert(kept[kept.len() - 1] == p);
            }
        }
        assert forall|n: int| 0 <= n < kept.len() implies {
            let p = #[trigger] kept[n];
            &&& 0 <= p < records.len()
            &&& extracted(records[p], rules) == Ok::<ExportItemView, ExtractionSkip>(
                extract_all(records, rules)[n],
            )
        } by {
            if n < kept_rest.len() {
                assert(kept[n] == kept_rest[n]);
                assert(rest[kept_rest[n]] == records[kept_rest[n]]);
            }
        }
        assert forall|m: int, n: int| 0 <= m < n < kept.len() implies kept[m] < kept[n] by {
            if n < kept_rest.len() {
                assert(kept[m] == kept_rest[m] && kept[n] == kept_rest[n]);
            } else {
                assert(kept[m] == kept_rest[m]);
            }
        }
    }
}

/// A record yields an item only if the rules gave it a content and a date;
/// one without either is left out, whatever else it holds.
pub proof fn lemma_unresolved_record_is_excluded(
    record: Option<Map<Seq<char>, JsonView>>,
    rules: Seq<KeyMappingView>,
)
    ensures
        extracted(record, rules) is Ok <==> record is Some && apply_rules(record->0, rules) is Ok
            && apply_rules(record->0, rules)->Ok_0.content is Some && apply_rules(
            record->0,
            rules,
        )->Ok_0.date is Some,
{
}

/// The views of a sequence of records.
pub open spec fn record_views(records: Seq<RawRecord>) -> Seq<Option<Map<Seq<char>, JsonView>>> {
    records.map_values(|r: RawRecord| r@)
}

/// Whether some rule reads the field `key`.
fn names_field(key_mappings: &[KeyMapping], key: &str) -> (r: bool)
    ensures
        r == named_by_rule(views(key_mappings@), key@),
{
    let mut i: usize = 0;
    while i < key_mappings.len()
        invariant
            i <= key_mappings.len(),
            forall|j: int| 0 <= j < i ==> (#[trigger] views(key_mappings@)[j]).from != key@,
        decreases key_mappings.len() - i,
    {
        if str_eq(key_mappings[i].from.as_str(), key) {
            assert(views(key_mappings@)[i as int].from == key@);
            return true;
        }
        i += 1;
    }
    false
}

/// The text of an optional string.
pub open spec fn option_text(s: Option<String>) -> Option<Seq<char>> {
    match s {
        Some(s) => Some(s@),
        None => None,
    }
}

/// A copy of the text of a value that is a string.
fn owned_text(value: &JsonValue) -> (r: Option<String>)
    ensures
        option_text(r) == text_of(value@),
{
    match value.as_text() {
        Some(s) => Some(s.clone()),
        None => None,
    }
}

/// The date that the rule `rule` reads from `value`, in days since 1970-01-01.
fn read_date(value: &JsonValue, kind: &DataKind) -> (r: Option<i32>)
    ensures
        match r {
            Some(days) => date_of(value@, kind@) == Some(days as int),
            None => date_of(value@, kind@) is None,
        },
{
    match kind {
        DataKind::Date { format } => match value.as_text() {
            Some(s) => match parse_epoch_days(s.as_str(), format.as_str()) {
                Ok(days) => Some(days),
                Err(_) => None,
            },
            None => None,
        },
        DataKind::String => None,
    }
}

/// The fields among the first `n` of `fields` that pass into the metadata.
pub open spec fn passed_so_far(
    fields: Seq<(Seq<char>, JsonView)>,
    n: int,
    record: Map<Seq<char>, JsonView>,
    rules: Seq<KeyMappingView>,
) -> Map<Seq<char>, Seq<char>> {
    Map::new(
        |k: Seq<char>|
            has_key(fields.take(n), k) && record.contains_key(k) && record[k] is Text
                && !named_by_rule(rules, k),
        |k: Seq<char>| record[k]->Text_0,
    )
}

/// Taking one more field into account adds that field to what has passed, if
/// it holds a string and no rule reads it.
proof fn lemma_pass_step(
    fields: Seq<(Seq<char>, JsonView)>,
    j: int,
    record: Map<Seq<char>, JsonView>,
    rules: Seq<KeyMappingView>,
)
    requires
        distinct_keys(fields),
        record == map_of(fields),
        0 <= j < fields.len(),
    ensures
        passed_so_far(fields, j + 1, record, rules) == if fields[j].1 is Text && !named_by_rule(
            rules,
            fields[j].0,
        ) {
            passed_so_far(fields, j, record, rules).insert(fields[j].0, fields[j].1->Text_0)
        } else {
            passed_so_far(fields, j, record, rules)
        },
{
    let key = fields[j].0;
    let before = passed_so_far(fields, j, record, rules);
    let after = passed_so_far(fields, j + 1, record, rules);
    lemma_map_of_entry(fields, j);
    assert forall|k: Seq<char>| has_key(fields.take(j + 1), k) <==> (has_key(fields.take(j), k)
        || k == key) by {
        if has_key(fields.take(j + 1), k) {
            let n = choose|n: int|
                0 <= n < fields.take(j + 1).len() && #[trigger] fields.take(j + 1)[n].0 == k;
            if n < j {
                assert(fields.take(j)[n].0 == k);
            }
        }
        if has_key(fields.take(j), k) {
            let n = choose|n: int| 0 <= n < fields.take(j).len() && #[trigger] fields.take(j)[n].0 == k;
            assert(fields.take(j + 1)[n].0 == k);
        }
        if k == key {
            assert(fields.take(j + 1)[j].0 == k);
        }
    }
    assert(has_key(fields.take(j + 1), key)) by {
        assert(fields.take(j + 1)[j].0 == key);
    }
    if fields[j].1 is Text && !named_by_rule(rules, key) {
        let added = before.insert(key, fields[j].1->Text_0);
        assert forall|k: Seq<char>| after.contains_key(k) <==> added.contains_key(k) by {
            if k != key {
                assert(has_key(fields.take(j + 1), k) <==> has_key(fields.take(j), k));
            }
        }
        assert(after =~= added);
    } else {
        assert forall|k: Seq<char>| after.contains_key(k) <==> before.contains_key(k) by {
            if k != key {
                assert(has_key(fields.take(j + 1), k) <==> has_key(fields.take(j), k));
            }
        }
        assert(after =~= before);
    }
}

/// Once every field is taken into account, what has passed is what passes.
proof fn lemma_pass_done(
    fields: Seq<(Seq<char>, JsonView)>,
    record: Map<Seq<char>, JsonView>,
    rules: Seq<KeyMappingView>,
)
    requires
        record == map_of(fields),
    ensures
        passed_so_far(fields, fields.len() as int, record, rules) == pass_through(record, rules),
{
    assert(fields.take(fields.len() as int) =~= fields);
    assert forall|k: Seq<char>| has_key(fields, k) <==> record.contains_key(k) by {
        lemma_map_of_dom(fields, k);
    }
    assert(passed_so_far(fields, fields.len() as int, record, rules) =~= pass_through(
        record,
        rules,
    ));
}

/// Extracts the export item of one record.
///
/// The rules are applied in order; then every field that no rule reads and
/// that holds a string becomes metadata under its own key. The record yields
/// an item exactly when it is an object, no `date` rule met a field it could
/// not read, and both content and date were found.
pub fn extract_single_export_item(data: &RawRecord, key_mappings: &[KeyMapping]) -> (r: Result<
    ExportItem,
    ExtractionSkip,
>)
    ensures
        match r {
            Ok(item) => extracted(data@, views(key_mappings@)) == Ok::<ExportItemView, ExtractionSkip>(
                item@,
            ),
            Err(skip) => extracted(data@, views(key_mappings@)) == Err::<ExportItemView, ExtractionSkip>(
                skip,
            ),
        },
{
    let object = match data {
        RawRecord::Object(object) => object,
        RawRecord::NotObject => {
            return Err(ExtractionSkip::NotAnObject);
        },
    };
    let ghost rules = views(key_mappings@);
    let mut id: Option<String> = None;
    let mut content: Option<String> = None;
    let mut date: Option<i32> = None;
    let mut metadata = Metadata::new();
    let mut i: usize = 0;
    while i < key_mappings.len()
        invariant
            i <= key_mappings.len(),
            rules == views(key_mappings@),
            data@ == Some(object@),
            apply_rules(object@, rules.take(i as int)) == Ok::<Draft, ExtractionSkip>(
                Draft {
                    id: option_text(id),
                    content: option_text(content),
                    date: match date {
                        Some(days) => Some(days as int),
                        None => None,
                    },
                    metadata: metadata@,
                },
            ),
        decreases key_mappings.len() - i,
    {
        let rule = &key_mappings[i];
        proof {
            assert(rules.take(i + 1).drop_last() =~= rules.take(i as int));
            assert(rules.take(i + 1).last() == rule@);
        }
        match object.get(rule.from.as_str()) {
            None => {},
            Some(value) => {
                if str_eq(rule.to.as_str(), "id") {
                    id = owned_text(value);
                } else if str_eq(rule.to.as_str(), "content") {
                    content = owned_text(value);
                } else if str_eq(rule.to.as_str(), "date") {
                    match read_date(value, &rule.kind) {
                        Some(days) => {
                            date = Some(days);
                        },
                        None => {
                            proof {
                                assert(apply_rules(object@, rules.take(i + 1)) == Err::<
                                    Draft,
                                    ExtractionSkip,
                                >(ExtractionSkip::BadDate));
                                lemma_apply_rules_stays_failed(object@, rules, i + 1);
                            }
                            return Err(ExtractionSkip::BadDate);
                        },
                    }
                } else {
                    match value.as_text() {
                        Some(s) => {
                            metadata.insert(rule.to.clone(), s.clone());
                        },
                        None => {},
                    }
                }
            },
        }
        i += 1;
    }
    assert(rules.take(i as int) =~= rules);
    let content = match content {
        Some(content) => content,
        None => {
            return Err(ExtractionSkip::MissingContent);
        },
    };
    let days = match date {
        Some(days) => days,
        None => {
            return Err(ExtractionSkip::MissingDate);
        },
    };
    let ghost from_rules = metadata@;
    let count = object.len();
    let ghost fields = object.fields();
    let mut j: usize = 0;
    while j < count
        invariant
            j <= count,
            count == fields.len(),
            fields == object.fields(),
            distinct_keys(fields),
            object@ == map_of(fields),
            rules == views(key_mappings@),
            metadata@ == from_rules.union_prefer_right(
                passed_so_far(fields, j as int, object@, rules),
            ),
        decreases count - j,
    {
        let key = object.key(j);
        let value = object.value(j);
        proof {
            lemma_pass_step(fields, j as int, object@, rules);
        }
        let unread = !names_field(key_mappings, key.as_str());
        match value.as_text() {
            Some(s) => {
                if unread {
                    metadata.insert(key.clone(), s.clone());
                }
            },
            None => {},
        }
        j += 1;
    }
    proof {
        lemma_pass_done(fields, object@, rules);
    }
    Ok(
        ExportItem {
            id,
            content,
            date: Timestamp { secs: (days as i64) * SECONDS_PER_DAY, nanos: 0 },
            metadata,
        },
    )
}

/// Once a rule has given the record up, the rules after it change nothing.
proof fn lemma_apply_rules_stays_failed(
    record: Map<Seq<char>, JsonView>,
    rules: Seq<KeyMappingView>,
    n: int,
)
    requires
        0 <= n <= rules.len(),
        apply_rules(record, rules.take(n)) is Err,
    ensures
        apply_rules(record, rules) == apply_rules(record, rules.take(n)),
    decreases rules.len() - n,
{
    if n < rules.len() {
        assert(rules.take(n + 1).drop_last() =~= rules.take(n));
        lemma_apply_rules_stays_failed(record, rules, n + 1);
    } else {
        assert(rules.take(n) =~= rules);
    }
}

/// Extracts the export items of a run's records.
///
/// A record that yields no item is left out; the call itself never fails, and
/// the items keep the order of their records.
pub fn extract_export_items(data: Vec<RawRecord>, key_mappings: &[KeyMapping]) -> (items: Vec<
    ExportItem,
>)
    ensures
        views(items@) == extract_all(record_views(data@), views(key_mappings@)),
{
    let mut items: Vec<ExportItem> = Vec::new();
    let ghost records = record_views(data@);
    let ghost rules = views(key_mappings@);
    let mut i: usize = 0;
    while i < data.len()
        invariant
            i <= data.len(),
            records == record_views(data@),
            rules == views(key_mappings@),
            views(items@) == extract_all(records.take(i as int), rules),
        decreases data.len() - i,
    {
        proof {
            assert(records.take(i + 1).drop_last() =~= records.take(i as int));
            assert(records.take(i + 1).last() == data[i as int]@);
        }
        let ghost before = views(items@);
        match extract_single_export_item(&data[i], key_mappings) {
            Ok(item) => {
                items.push(item);
                assert(views(items@) =~= before.push(item@));
            },
            Err(_) => {},
        }
        i += 1;
    }
    assert(records.take(i as int) =~= records);
    items
}

} // verus!
