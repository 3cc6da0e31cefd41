//! Path expressions: dotted, array-aware addresses into a JSON document,
//! and the two traversals that follow them.

use vstd::prelude::*;
use crate::row::held;
use crate::row::Row;
use crate::text::chars_of;
use crate::text::string_of_range;
use crate::value::clone_items;
use crate::value::member_models;
use crate::value::models;
use crate::value::Json;
use crate::value::JsonMember;
use crate::value::JsonValue;

verus! {

/// The model of one segment of a path expression.
pub struct SegmentModel {
    pub name: Seq<char>,
    pub is_array: bool,
}

/// One segment of a path expression: a property name, marked when the
/// expression iterates the array found under it.
#[derive(Debug, PartialEq, Eq)]
pub struct Segment {
    pub name: String,
    pub is_array: bool,
}

impl View for Segment {
    type V = SegmentModel;

    open spec fn view(&self) -> SegmentModel {
        SegmentModel { name: self.name@, is_array: self.is_array }
    }
}

/// The models of a run of segments, in order.
pub open spec fn segment_models(segments: Seq<Segment>) -> Seq<SegmentModel> {
    Seq::new(segments.len(), |i: int| segments[i]@)
}

/// The model of a failed resolution.
pub enum PathFailure {
    RootNotContainer,
    MissingProperty(Seq<char>),
    NotAnArray(Seq<char>),
    NotAnObject,
}

/// Why a root expression could not be resolved.
#[derive(Debug, PartialEq, Eq)]
pub enum PathError {
    /// The expression is empty and the document is neither an array nor an object.
    RootNotContainer,
    /// The object reached has no property of this name.
    MissingProperty(String),
    /// The property is addressed with `[]` and does not hold an array.
    NotAnArray(String),
    /// A segment remains and the value reached is not an object.
    NotAnObject,
}

impl View for PathError {
    type V = PathFailure;

    open spec fn view(&self) -> PathFailure {
        match self {
            PathError::RootNotContainer => PathFailure::RootNotContainer,
            PathError::MissingProperty(name) => PathFailure::MissingProperty(name@),
            PathError::NotAnArray(name) => PathFailure::NotAnArray(name@),
            PathError::NotAnObject => PathFailure::NotAnObject,
        }
    }
}

/// The parts of `s` between its dots; a text without a dot is one part.
pub open spec fn split_dots(s: Seq<char>) -> Seq<Seq<char>>
    decreases s.len(),
{
    if s.len() == 0 {
        seq![Seq::empty()]
    } else {
        let before = split_dots(s.drop_last());
        if s.last() == '.' {
            before.push(Seq::empty())
        } else {
            before.update(before.len() - 1, before.last().push(s.last()))
        }
    }
}

/// Whether `part` ends in the array marker `[]`.
pub open spec fn has_array_marker(part: Seq<char>) -> bool {
    part.len() >= 2 && part[part.len() - 2] == '[' && part[part.len() - 1] == ']'
}

/// The segment that `part` denotes.
pub open spec fn segment_of(part: Seq<char>) -> SegmentModel {
    if has_array_marker(part) {
        SegmentModel { name: part.take(part.len() - 2), is_array: true }
    } else {
        SegmentModel { name: part, is_array: false }
    }
}

/// The segments of a path expression.
pub open spec fn segments_of(path: Seq<char>) -> Seq<SegmentModel> {
    split_dots(path).map_values(|part: Seq<char>| segment_of(part))
}

fn segment_from(chars: &Vec<char>, from: usize, to: usize) -> (segment: Segment)
    requires
        from <= to <= chars.len(),
    ensures
        segment@ == segment_of(chars@.subrange(from as int, to as int)),
{
    let ghost part = chars@.subrange(from as int, to as int);
    if to - from >= 2 && chars[to - 2] == '[' && chars[to - 1] == ']' {
        let name = string_of_range(chars, from, to - 2);
        proof {
            assert(part[part.len() - 2] == chars@[to - 2]);
            assert(part[part.len() - 1] == chars@[to - 1]);
            assert(part.take(part.len() - 2) =~= chars@.subrange(from as int, to - 2));
        }
        Segment { name, is_array: true }
    } else {
        let name = string_of_range(chars, from, to);
        proof {
            if part.len() >= 2 {
                assert(part[part.len() - 2] == chars@[to - 2]);
                assert(part[part.len() - 1] == chars@[to - 1]);
            }
        }
        Segment { name, is_array: false }
    }
}

/// Parses a path expression into its segments.
pub fn parse_path(path: &str) -> (segments: Vec<Segment>)
    ensures
        segment_models(segments@) == segments_of(path@),
        segments@.len() >= 1,
{
    let chars = chars_of(path);
    let mut segments: Vec<Segment> = Vec::new();
    let mut start: usize = 0;
    let mut i: usize = 0;
    proof {
        assert(chars@.take(0) =~= Seq::<char>::empty());
        assert(chars@.subrange(0, 0) =~= Seq::<char>::empty());
        assert(split_dots(chars@.take(0)) =~= Seq::<Seq<char>>::empty().push(
            chars@.subrange(0, 0),
        ));
    }
    while i < chars.len()
        invariant
            start <= i <= chars.len(),
            chars@ == path@,
            split_dots(chars@.take(i as int)).len() == segments@.len() + 1,
            split_dots(chars@.take(i as int)).last() == chars@.subrange(start as int, i as int),
            forall|k: int|
                0 <= k < segments@.len() ==> segments@[k]@ == segment_of(
                    #[trigger] split_dots(chars@.take(i as int))[k],
                ),
        decreases chars.len() - i,
    {
        let ghost before = split_dots(chars@.take(i as int));
        let ghost upto = chars@.take(i + 1);
        proof {
            assert(upto.drop_last() =~= chars@.take(i as int));
            assert(upto.last() == chars@[i as int]);
        }
        if chars[i] == '.' {
            let segment = segment_from(&chars, start, i);
            segments.push(segment);
            start = i + 1;
            proof {
                assert(split_dots(upto) == before.push(Seq::<char>::empty()));
                assert(chars@.subrange(start as int, i + 1) =~= Seq::<char>::empty());
            }
        } else {
            proof {
                assert(split_dots(upto) == before.update(
                    before.len() - 1,
                    before.last().push(chars@[i as int]),
                ));
                assert(chars@.subrange(start as int, i + 1) =~= chars@.subrange(
                    start as int,
                    i as int,
                ).push(chars@[i as int]));
            }
        }
        i += 1;
    }
    let segment = segment_from(&chars, start, i);
    segments.push(segment);
    proof {
        assert(chars@.take(i as int) =~= chars@);
        assert(segment_models(segments@) =~= segments_of(path@));
    }
    segments
}

/// The value stored under `key` in an object's entries, the first entry of
/// that name deciding.
pub open spec fn lookup(members: Seq<(Seq<char>, Json)>, key: Seq<char>) -> Option<Json>
    decreases members.len(),
{
    if members.len() == 0 {
        None
    } else if members[0].0 == key {
        Some(members[0].1)
    } else {
        lookup(members.drop_first(), key)
    }
}

/// Finds the value stored under `key`.
pub fn find_member<'a>(members: &'a Vec<JsonMember>, key: &str) -> (found: Option<&'a JsonValue>)
    ensures
        match found {
            Some(value) => lookup(member_models(members@), key@) == Some(value@),
            None => lookup(member_models(members@), key@) is None,
        },
{
    let ghost all = member_models(members@);
    let mut i: usize = 0;
    proof {
        assert(all.skip(0) =~= all);
    }
    while i < members.len()
        invariant
            i <= members.len(),
            all == member_models(members@),
            lookup(all, key@) == lookup(all.skip(i as int), key@),
        decreases members.len() - i,
    {
        proof {
            assert(all.skip(i as int)[0] == all[i as int]);
            assert(all.skip(i as int).drop_first() =~= all.skip(i + 1));
        }
        if members[i].key.as_str().eq(key) {
            return Some(&members[i].value);
        }
        i += 1;
    }
    proof {
        assert(all.skip(i as int).len() == 0);
    }
    None
}

/// Puts `more` behind the records found so far, or passes the failure on.
pub open spec fn followed_by(found: Seq<Json>, more: Result<Seq<Json>, PathFailure>) -> Result<
    Seq<Json>,
    PathFailure,
> {
    match more {
        Ok(records) => Ok(found + records),
        Err(failure) => Err(failure),
    }
}

/// The records that the segments from `index` on select inside `doc`.
///
/// A plain segment descends into the property of that name. An array segment
/// resolves the remaining segments inside every element of the array found
/// under the name and joins the results in array order. With no segment left,
/// `doc` itself is the one record.
pub open spec fn resolve_from(doc: Json, segments: Seq<SegmentModel>, index: int) -> Result<
    Seq<Json>,
    PathFailure,
>
    decreases 2 * (segments.len() - index), 0nat,
{
    if index < 0 || index >= segments.len() {
        Ok(seq![doc])
    } else {
        let segment = segments[index];
        match doc {
            Json::Object(members) => match lookup(members, segment.name) {
                None => Err(PathFailure::MissingProperty(segment.name)),
                Some(value) => if segment.is_array {
                    match value {
                        Json::Array(items) => resolve_each(items, segments, index + 1),
                        _ => Err(PathFailure::NotAnArray(segment.name)),
                    }
                } else {
                    resolve_from(value, segments, index + 1)
                },
            },
            _ => Err(PathFailure::NotAnObject),
        }
    }
}

/// The records selected inside each of `items` in turn, joined in order; the
/// first failure ends the resolution.
pub open spec fn resolve_each(items: Seq<Json>, segments: Seq<SegmentModel>, index: int) -> Result<
    Seq<Json>,
    PathFailure,
>
    decreases 2 * (segments.len() - index) + 1, items.len(),
{
    if index < 0 || index > segments.len() {
        Ok(items)
    } else if items.len() == 0 {
        Ok(Seq::empty())
    } else {
        match resolve_from(items[0], segments, index) {
            Err(failure) => Err(failure),
            Ok(first) => followed_by(first, resolve_each(items.drop_first(), segments, index)),
        }
    }
}

/// The records that a root expression selects in a document.
///
/// The empty expression selects the elements of an array document, or an
/// object document itself; no other document has records under it.
pub open spec fn root_objects(doc: Json, root_path: Seq<char>) -> Result<Seq<Json>, PathFailure> {
    if root_path.len() == 0 {
        match doc {
            Json::Array(items) => Ok(items),
            Json::Object(_) => Ok(seq![doc]),
            _ => Err(PathFailure::RootNotContainer),
        }
    } else {
        resolve_from(doc, segments_of(root_path), 0)
    }
}

/// What a resolution returned, as a model.
pub open spec fn outcome_model(out: Result<Vec<JsonValue>, PathError>) -> Result<
    Seq<Json>,
    PathFailure,
> {
    match out {
        Ok(records) => Ok(models(records@)),
        Err(error) => Err(error@),
    }
}

fn append_records(found: &mut Vec<JsonValue>, more: Vec<JsonValue>)
    ensures
        models(final(found)@) == models(old(found)@) + models(more@),
{
    let mut more = more;
    let ghost before = found@;
    let ghost added = more@;
    found.append(&mut more);
    assert(models(found@) =~= models(before) + models(added));
}

/// Resolves the segments from `current_index` on inside `data`.
pub fn process_segment(data: &JsonValue, segments: &Vec<Segment>, current_index: usize) -> (out:
    Result<Vec<JsonValue>, PathError>)
    ensures
        outcome_model(out) == resolve_from(
            data@,
            segment_models(segments@),
            current_index as int,
        ),
    decreases segments.len() - current_index,
{
    let ghost path = segment_models(segments@);
    if current_index >= segments.len() {
        let mut only: Vec<JsonValue> = Vec::new();
        only.push(data.clone());
        assert(models(only@) =~= seq![data@]);
        return Ok(only);
    }
    let segment = &segments[current_index];
    assert(path[current_index as int] == segment@);
    let members = match data {
        JsonValue::Object(members) => members,
        _ => {
            return Err(PathError::NotAnObject);
        },
    };
    let value = match find_member(members, segment.name.as_str()) {
        Some(value) => value,
        None => {
            return Err(PathError::MissingProperty(segment.name.clone()));
        },
    };
    if !segment.is_array {
        return process_segment(value, segments, current_index + 1);
    }
    let items = match value {
        JsonValue::Array(items) => items,
        _ => {
            return Err(PathError::NotAnArray(segment.name.clone()));
        },
    };
    let ghost all = models(items@);
    let mut found: Vec<JsonValue> = Vec::new();
    let mut i: usize = 0;
    proof {
        assert(all.skip(0) =~= all);
        lemma_followed_by_nothing(resolve_each(all, path, current_index + 1));
        assert(models(found@) =~= Seq::<Json>::empty());
    }
    while i < items.len()
        invariant
            i <= items.len(),
            current_index < segments.len(),
            all == models(items@),
            path == segment_models(segments@),
            resolve_from(data@, path, current_index as int) == resolve_each(
                all,
                path,
                current_index + 1,
            ),
            resolve_each(all, path, current_index + 1) == followed_by(
                models(found@),
                resolve_each(all.skip(i as int), path, current_index + 1),
            ),
        decreases items.len() - i,
    {
        let ghost rest = all.skip(i as int);
        proof {
            assert(rest[0] == items@[i as int]@);
            assert(rest.drop_first() =~= all.skip(i + 1));
        }
        match process_segment(&items[i], segments, current_index + 1) {
            Err(error) => {
                proof {
                    assert(resolve_from(rest[0], path, current_index + 1) == Err::<
                        Seq<Json>,
                        PathFailure,
                    >(error@));
                    assert(resolve_each(rest, path, current_index + 1) == Err::<
                        Seq<Json>,
                        PathFailure,
                    >(error@));
                }
                return Err(error);
            },
            Ok(records) => {
                let ghost before = models(found@);
                append_records(&mut found, records);
                proof {
                    let later = resolve_each(all.skip(i + 1), path, current_index + 1);
                    match later {
                        Ok(more) => {
                            assert(before + (models(records@) + more) =~= (before + models(
                                records@,
                            )) + more);
                        },
                        Err(_) => {},
                    }
                }
            },
        }
        i += 1;
    }
    proof {
        assert(all.skip(i as int).len() == 0);
        assert(models(found@) + Seq::<Json>::empty() =~= models(found@));
    }
    Ok(found)
}

/// Nothing found so far leaves a resolution as it is.
pub proof fn lemma_followed_by_nothing(more: Result<Seq<Json>, PathFailure>)
    ensures
        followed_by(Seq::empty(), more) == more,
{
    match more {
        Ok(records) => {
            assert(Seq::<Json>::empty() + records =~= records);
        },
        Err(_) => {},
    }
}

/// Extracts the record objects that `root_path` selects in `json_data`.
pub fn extract_root_objects(json_data: &JsonValue, root_path: &str) -> (out: Result<
    Vec<JsonValue>,
    PathError,
>)
    ensures
        outcome_model(out) == root_objects(json_data@, root_path@),
{
    if root_path.is_empty() {
        match json_data {
            JsonValue::Array(items) => Ok(clone_items(items)),
            JsonValue::Object(_) => {
                let mut only: Vec<JsonValue> = Vec::new();
                only.push(json_data.clone());
                assert(models(only@) =~= seq![json_data@]);
                Ok(only)
            },
            _ => Err(PathError::RootNotContainer),
        }
    } else {
        let segments = parse_path(root_path);
        process_segment(json_data, &segments, 0)
    }
}

/// The single value that the segments from `index` on address inside `doc`:
/// an array segment goes on in the first element of its array, and any
/// mismatch or missing property gives no value.
pub open spec fn walk_from(doc: Json, segments: Seq<SegmentModel>, index: int) -> Option<Json>
    decreases segments.len() - index,
{
    if index < 0 || index >= segments.len() {
        Some(doc)
    } else {
        let segment = segments[index];
        match doc {
            Json::Object(members) => match lookup(members, segment.name) {
                None => None,
                Some(value) => if segment.is_array {
                    match value {
                        Json::Array(items) => if items.len() == 0 {
                            None
                        } else {
                            walk_from(items[0], segments, index + 1)
                        },
                        _ => None,
                    }
                } else {
                    walk_from(value, segments, index + 1)
                },
            },
            _ => None,
        }
    }
}

/// The single value that a path expression addresses inside `doc`; the empty
/// expression addresses `doc` itself.
pub open spec fn value_at(doc: Json, path: Seq<char>) -> Option<Json> {
    if path.len() == 0 {
        Some(doc)
    } else {
        walk_from(doc, segments_of(path), 0)
    }
}

fn locate<'a>(obj: &'a JsonValue, segments: &Vec<Segment>, index: usize) -> (found: Option<
    &'a JsonValue,
>)
    ensures
        match found {
            Some(value) => walk_from(obj@, segment_models(segments@), index as int) == Some(
                value@,
            ),
            None => walk_from(obj@, segment_models(segments@), index as int) is None,
        },
    decreases segments.len() - index,
{
    if index >= segments.len() {
        return Some(obj);
    }
    let segment = &segments[index];
    assert(segment_models(segments@)[index as int] == segment@);
    let members = match obj {
        JsonValue::Object(members) => members,
        _ => {
            return None;
        },
    };
    let value = match find_member(members, segment.name.as_str()) {
        Some(value) => value,
        None => {
            return None;
        },
    };
    if !segment.is_array {
        return locate(value, segments, index + 1);
    }
    match value {
        JsonValue::Array(items) => {
            if items.len() == 0 {
                None
            } else {
                assert(models(items@)[0] == items@[0]@);
                locate(&items[0], segments, index + 1)
            }
        },
        _ => None,
    }
}

/// Looks up the single value that `path` addresses inside `obj`.
pub fn get_value_by_path(obj: &JsonValue, path: &str) -> (found: Option<JsonValue>)
    ensures
        held(found) == value_at(obj@, path@),
{
    if path.is_empty() {
        return Some(obj.clone());
    }
    let segments = parse_path(path);
    match locate(obj, &segments, 0) {
        Some(value) => Some(value.clone()),
        None => None,
    }
}

/// The model of one mapping rule: a path expression and the column it feeds.
pub struct RuleModel {
    pub path: Seq<char>,
    pub column: Seq<char>,
}

/// One mapping rule: the value found at `path` goes to `column`.
#[derive(Debug, PartialEq, Eq)]
pub struct MappingRule {
    pub path: String,
    pub column: String,
}

impl View for MappingRule {
    type V = RuleModel;

    open spec fn view(&self) -> RuleModel {
        RuleModel { path: self.path@, column: self.column@ }
    }
}

impl Clone for MappingRule {
    fn clone(&self) -> (out: Self)
        ensures
            out@ == self@,
    {
        MappingRule { path: self.path.clone(), column: self.column.clone() }
    }
}

/// The models of a run of mapping rules, in order.
pub open spec fn rule_models(rules: Seq<MappingRule>) -> Seq<RuleModel> {
    Seq::new(rules.len(), |i: int| rules[i]@)
}

/// The record that the rules build from `doc`: every rule is applied in
/// order, so the last rule for a column decides its value.
pub open spec fn mapped(doc: Json, rules: Seq<RuleModel>) -> Map<Seq<char>, Option<Json>>
    decreases rules.len(),
{
    if rules.len() == 0 {
        Map::empty()
    } else {
        mapped(doc, rules.drop_last()).insert(
            rules.last().column,
            value_at(doc, rules.last().path),
        )
    }
}

/// Applies the mapping rules to `obj`, giving the column values of one record.
pub fn apply_mapping(obj: &JsonValue, mapping: &Vec<MappingRule>) -> (row: Row)
    ensures
        row@ == mapped(obj@, rule_models(mapping@)),
{
    let mut row = Row::new();
    let ghost rules = rule_models(mapping@);
    let mut i: usize = 0;
    proof {
        assert(rules.take(0) =~= Seq::<RuleModel>::empty());
    }
    while i < mapping.len()
        invariant
            i <= mapping.len(),
            rules == rule_models(mapping@),
            row@ == mapped(obj@, rules.take(i as int)),
        decreases mapping.len() - i,
    {
        let value = get_value_by_path(obj, mapping[i].path.as_str());
        row.insert(mapping[i].column.clone(), value);
        proof {
            let upto = rules.take(i + 1);
            assert(upto.drop_last() =~= rules.take(i as int));
            assert(upto.last() == mapping@[i as int]@);
        }
        i += 1;
    }
    proof {
        assert(rules.take(i as int) =~= rules);
    }
    row
}

} // verus!
