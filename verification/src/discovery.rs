//! Path discovery: the paths that lead to values in a document, with the
//! type and a sample of what stands at each.

use vstd::prelude::*;
use vstd::string::StringExecFns;
use vstd::utf8::encode_utf8;
use crate::names::add_name;
use crate::names::lemma_with_names_joined;
use crate::names::with_name;
use crate::names::with_names;
use crate::path::extract_root_objects;
use crate::path::get_value_by_path;
use crate::path::root_objects;
use crate::path::value_at;
use crate::path::PathError;
use crate::path::PathFailure;
use crate::render::render;
use crate::render::rendered;
use crate::text::chars_of;
use crate::text::prefix;
use crate::text::string_of_range;
use crate::text::texts;
use crate::value::member_models;
use crate::value::models;
use crate::value::Json;
use crate::value::JsonMember;
use crate::value::JsonValue;

verus! {

/// The model of what is known of one path.
pub struct PathInfoModel {
    pub path: Seq<char>,
    pub data_type: Seq<char>,
    pub sample: Seq<char>,
}

/// One discovered path, with the type of the value found at it and a sample
/// of that value.
#[derive(Debug, PartialEq, Eq)]
pub struct JsonPathInfo {
    pub path: String,
    pub data_type: String,
    pub sample: String,
}

impl View for JsonPathInfo {
    type V = PathInfoModel;

    open spec fn view(&self) -> PathInfoModel {
        PathInfoModel { path: self.path@, data_type: self.data_type@, sample: self.sample@ }
    }
}

/// The models of a run of path descriptions, in order.
pub open spec fn info_models(infos: Seq<JsonPathInfo>) -> Seq<PathInfoModel> {
    Seq::new(infos.len(), |i: int| infos[i]@)
}

/// How deep discovery descends: values nested deeper are not visited.
pub const MAX_DEPTH: usize = 10;

/// The path of a property under `prefix`.
pub open spec fn child_path(prefix: Seq<char>, key: Seq<char>) -> Seq<char> {
    if prefix.len() == 0 {
        key
    } else {
        prefix + "."@ + key
    }
}

/// The path itself as a list, or nothing for the document root.
pub open spec fn own_path(path: Seq<char>, prefix: Seq<char>) -> Seq<Seq<char>> {
    if prefix.len() == 0 {
        Seq::empty()
    } else {
        seq![path]
    }
}

/// The paths met from `value` on, in the order of the walk; a path may be
/// met more than once.
///
/// An object gives its own path and then what each of its properties gives.
/// An array gives its own path with the array marker and then what its first
/// element gives under that path; its other elements are not visited. Any
/// other value gives its own path. The document root has no path of its own,
/// and nothing deeper than ten levels is visited.
pub open spec fn paths_from(prefix: Seq<char>, value: Json, depth: nat) -> Seq<Seq<char>>
    decreases 11 - depth, 1nat, 0nat,
{
    if depth > 10 {
        Seq::empty()
    } else {
        match value {
            Json::Object(members) => own_path(prefix, prefix) + member_paths(
                prefix,
                members,
                members.len(),
                depth,
            ),
            Json::Array(items) => own_path(prefix + "[]"@, prefix) + if items.len() > 0 {
                paths_from(prefix + "[]"@, items[0], depth + 1)
            } else {
                Seq::empty()
            },
            _ => own_path(prefix, prefix),
        }
    }
}

/// The paths met from the first `count` properties of an object on.
pub open spec fn member_paths(
    prefix: Seq<char>,
    members: Seq<(Seq<char>, Json)>,
    count: nat,
    depth: nat,
) -> Seq<Seq<char>>
    decreases 11 - depth, 0nat, count,
{
    if depth > 10 || count == 0 || count > members.len() {
        Seq::empty()
    } else {
        member_paths(prefix, members, (count - 1) as nat, depth) + paths_from(
            child_path(prefix, members[count - 1].0),
            members[count - 1].1,
            depth + 1,
        )
    }
}

fn push_own_path(paths: &mut Vec<String>, path: &str, prefix: &str)
    ensures
        texts(final(paths)@) == with_names(texts(old(paths)@), own_path(path@, prefix@)),
{
    let ghost before = texts(paths@);
    if !prefix.is_empty() {
        add_name(paths, path);
        proof {
            let own = seq![path@];
            assert(own.drop_last().len() == 0);
            assert(with_names(before, own.drop_last()) == before);
            assert(own.last() == path@);
            assert(with_names(before, own) == with_name(before, path@));
        }
    }
}

fn extract_member_paths(
    prefix: &str,
    members: &Vec<JsonMember>,
    paths: &mut Vec<String>,
    depth: usize,
)
    requires
        depth <= 10,
    ensures
        texts(final(paths)@) == with_names(
            texts(old(paths)@),
            member_paths(prefix@, member_models(members@), members@.len(), depth as nat),
        ),
    decreases 11 - depth, 0nat,
{
    let ghost start = texts(paths@);
    let ghost all = member_models(members@);
    let mut i: usize = 0;
    while i < members.len()
        invariant
            i <= members.len(),
            depth <= 10,
            all == member_models(members@),
            texts(paths@) == with_names(
                start,
                member_paths(prefix@, all, i as nat, depth as nat),
            ),
        decreases members.len() - i,
    {
        let mut child = String::new();
        if !prefix.is_empty() {
            child.append(prefix);
            child.append(".");
        }
        child.append(members[i].key.as_str());
        proof {
            assert(all[i as int] == (members@[i as int].key@, members@[i as int].value@));
            assert(child@ =~= child_path(prefix@, all[i as int].0));
        }
        extract_paths(child.as_str(), &members[i].value, paths, depth + 1);
        proof {
            lemma_with_names_joined(
                start,
                member_paths(prefix@, all, i as nat, depth as nat),
                paths_from(child@, all[i as int].1, (depth + 1) as nat),
            );
        }
        i += 1;
    }
}

/// Appends to `paths` the paths met from `value` on, each only where `paths`
/// does not hold it yet.
pub fn extract_paths(prefix: &str, value: &JsonValue, paths: &mut Vec<String>, depth: usize)
    ensures
        texts(final(paths)@) == with_names(
            texts(old(paths)@),
            paths_from(prefix@, value@, depth as nat),
        ),
    decreases 11 - depth, 1nat,
{
    let ghost start = texts(paths@);
    if depth > MAX_DEPTH {
        return ;
    }
    match value {
        JsonValue::Object(members) => {
            push_own_path(paths, prefix, prefix);
            extract_member_paths(prefix, members, paths, depth);
            proof {
                lemma_with_names_joined(
                    start,
                    own_path(prefix@, prefix@),
                    member_paths(
                        prefix@,
                        member_models(members@),
                        members@.len(),
                        depth as nat,
                    ),
                );
            }
        },
        JsonValue::Array(items) => {
            let mut marked = String::new();
            marked.append(prefix);
            marked.append("[]");
            assert(marked@ =~= prefix@ + "[]"@);
            push_own_path(paths, marked.as_str(), prefix);
            if items.len() > 0 {
                assert(models(items@)[0] == items@[0]@);
                extract_paths(marked.as_str(), &items[0], paths, depth + 1);
                proof {
                    lemma_with_names_joined(
                        start,
                        own_path(prefix@ + "[]"@, prefix@),
                        paths_from(prefix@ + "[]"@, models(items@)[0], (depth + 1) as nat),
                    );
                }
            } else {
                proof {
                    assert(own_path(prefix@ + "[]"@, prefix@) + Seq::<Seq<char>>::empty()
                        =~= own_path(prefix@ + "[]"@, prefix@));
                }
            }
        },
        _ => {
            push_own_path(paths, prefix, prefix);
        },
    }
}

/// The distinct paths of a document, each at the place where the walk first
/// meets it.
pub open spec fn discovered(doc: Json) -> Seq<Seq<char>> {
    with_names(Seq::empty(), paths_from(Seq::empty(), doc, 0))
}

/// Lists the distinct paths of a document.
pub fn discover_paths(json_data: &JsonValue) -> (paths: Vec<String>)
    ensures
        texts(paths@) == discovered(json_data@),
{
    let mut paths: Vec<String> = Vec::new();
    proof {
        reveal_strlit("");
        assert(""@ =~= Seq::<char>::empty());
        assert(texts(paths@) =~= Seq::<Seq<char>>::empty());
    }
    extract_paths("", json_data, &mut paths, 0);
    paths
}

/// The name of the type of a value, or `unknown` where there is no value.
pub open spec fn kind_name(found: Option<Json>) -> Seq<char> {
    match found {
        None => "unknown"@,
        Some(Json::Null) => "null"@,
        Some(Json::Bool(_)) => "boolean"@,
        Some(Json::Integer(_)) => "number"@,
        Some(Json::Decimal(_)) => "number"@,
        Some(Json::String(_)) => "string"@,
        Some(Json::Array(_)) => "array"@,
        Some(Json::Object(_)) => "object"@,
    }
}

/// The first `max_chars` characters of `s`, or all of `s` when it is shorter.
pub fn truncate_utf8_string(s: &str, max_chars: usize) -> (out: String)
    ensures
        out@ == prefix(s@, max_chars as nat),
{
    let chars = chars_of(s);
    if chars.len() <= max_chars {
        assert(chars@.subrange(0, chars@.len() as int) =~= s@);
        string_of_range(&chars, 0, chars.len())
    } else {
        string_of_range(&chars, 0, max_chars)
    }
}

/// A sample as it is shown: one that takes more than fifty bytes is cut to
/// its first forty-seven characters, followed by three dots.
pub open spec fn shortened(sample: Seq<char>) -> Seq<char> {
    if encode_utf8(sample).len() > 50 {
        prefix(sample, 47) + "..."@
    } else {
        sample
    }
}

/// Cuts a sample to the length shown.
pub fn shorten_sample(sample: String) -> (out: String)
    ensures
        out@ == shortened(sample@),
{
    if sample.as_str().as_bytes().len() > 50 {
        let mut out = truncate_utf8_string(sample.as_str(), 47);
        out.append("...");
        out
    } else {
        sample
    }
}

/// What is known of the value at `path`: its type and a sample, the compact
/// JSON text of the value, cut to the length shown. A path that leads to no
/// value has the type `unknown` and an empty sample.
pub open spec fn described(doc: Json, path: Seq<char>) -> PathInfoModel {
    let found = value_at(doc, path);
    PathInfoModel {
        path,
        data_type: kind_name(found),
        sample: shortened(
            match found {
                Some(value) => rendered(value),
                None => Seq::empty(),
            },
        ),
    }
}

/// Describes the value that `path` leads to in the document.
pub fn describe_path(json_data: &JsonValue, path: &str) -> (info: JsonPathInfo)
    ensures
        info@ == described(json_data@, path@),
{
    let found = get_value_by_path(json_data, path);
    let (data_type, sample) = match &found {
        None => ("unknown", String::new()),
        Some(value) => {
            let name = match value {
                JsonValue::Null => "null",
                JsonValue::Bool(_) => "boolean",
                JsonValue::Number(_) => "number",
                JsonValue::String(_) => "string",
                JsonValue::Array(_) => "array",
                JsonValue::Object(_) => "object",
            };
            (name, render(value))
        },
    };
    JsonPathInfo {
        path: path.to_owned(),
        data_type: data_type.to_owned(),
        sample: shorten_sample(sample),
    }
}

/// The description of every distinct path of a document, in discovery order.
pub open spec fn analyzed(doc: Json) -> Seq<PathInfoModel> {
    Seq::new(discovered(doc).len(), |i: int| described(doc, discovered(doc)[i]))
}

/// Discovers the paths of a document and describes the value at each.
pub fn analyze_structure(json_data: &JsonValue) -> (infos: Vec<JsonPathInfo>)
    ensures
        info_models(infos@) == analyzed(json_data@),
{
    let paths = discover_paths(json_data);
    let mut infos: Vec<JsonPathInfo> = Vec::new();
    let mut i: usize = 0;
    while i < paths.len()
        invariant
            i <= paths.len(),
            texts(paths@) == discovered(json_data@),
            infos@.len() == i,
            forall|k: int| 0 <= k < i ==> infos@[k]@ == described(json_data@, paths@[k]@),
        decreases paths.len() - i,
    {
        infos.push(describe_path(json_data, paths[i].as_str()));
        i += 1;
    }
    proof {
        assert(texts(paths@).len() == paths@.len());
        assert forall|k: int| 0 <= k < infos@.len() implies info_models(infos@)[k] == analyzed(
            json_data@,
        )[k] by {
            assert(texts(paths@)[k] == paths@[k]@);
        }
        assert(info_models(infos@) =~= analyzed(json_data@));
    }
    infos
}

/// The first `limit` records, or all of them where no limit is given.
pub open spec fn sampled(records: Seq<Json>, limit: Option<u32>) -> Seq<Json> {
    match limit {
        Some(n) => if n < records.len() {
            records.take(n as int)
        } else {
            records
        },
        None => records,
    }
}

/// What taking a sample returned, as a model.
pub open spec fn sample_model(out: Result<Vec<JsonValue>, PathError>) -> Result<
    Seq<Json>,
    PathFailure,
> {
    match out {
        Ok(records) => Ok(models(records@)),
        Err(error) => Err(error@),
    }
}

/// Takes the first `limit` of the records that `json_root` selects.
pub fn get_sample(json_data: &JsonValue, json_root: &str, limit: Option<u32>) -> (out: Result<
    Vec<JsonValue>,
    PathError,
>)
    ensures
        sample_model(out) == match root_objects(json_data@, json_root@) {
            Ok(records) => Ok::<Seq<Json>, PathFailure>(sampled(records, limit)),
            Err(failure) => Err::<Seq<Json>, PathFailure>(failure),
        },
{
    let mut records = match extract_root_objects(json_data, json_root) {
        Ok(records) => records,
        Err(error) => {
            return Err(error);
        },
    };
    match limit {
        Some(n) => {
            let ghost before = records@;
            records.truncate(n as usize);
            proof {
                if n < before.len() {
                    assert(records@ =~= before.take(n as int));
                    assert(models(records@) =~= models(before).take(n as int));
                } else {
                    assert(records@ =~= before);
                }
            }
        },
        None => {},
    }
    Ok(records)
}

} // verus!
