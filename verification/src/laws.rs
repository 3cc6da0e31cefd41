//! Laws that relate the library's functions to each other.

use vstd::prelude::*;
use crate::ambient::DrawsModel;
use crate::insert::after_limit;
use crate::insert::candidate_columns;
use crate::insert::kept;
use crate::insert::literal_columns;
use crate::insert::rule_columns;
use crate::insert::template_columns;
use crate::insert::target_columns;
use crate::path::mapped;
use crate::path::RuleModel;
use crate::schema::column_names;
use crate::synth::TemplateModel;
use crate::insert::count_of;
use crate::insert::import_step;
use crate::insert::windowed;
use crate::insert::ImportEvent;
use crate::insert::ImportModel;
use crate::insert::ImportStep;
use vstd::utf8::encode_utf8;
use crate::discovery::discovered;
use crate::discovery::shortened;
use crate::discovery::paths_from;
use crate::names::distinct;
use crate::names::lemma_with_names;
use crate::names::with_names;
use crate::path::has_array_marker;
use crate::path::lookup;
use crate::path::resolve_each;
use crate::path::resolve_from;
use crate::path::root_objects;
use crate::path::segments_of;
use crate::path::split_dots;
use crate::path::value_at;
use crate::path::walk_from;
use crate::path::PathFailure;
use crate::path::SegmentModel;
use crate::progress::consistent;
use crate::row::lacks_value;
use crate::row::value_in;
use crate::schema::by_position;
use crate::schema::column_named;
use crate::schema::ordered_names;
use crate::schema::placed;
use crate::schema::unique_columns_of;
use crate::schema::ColumnModel;
use crate::schema::IndexColumnModel;
use crate::schema::IndexModel;
use crate::synth::chained;
use crate::synth::backfill_rule;
use crate::synth::default_rule;
use crate::synth::dynamic_value;
use crate::synth::fixed_digits;
use crate::synth::real_literal;
use crate::synth::forced_rule;
use crate::synth::is_marker;
use crate::synth::links;
use crate::synth::traces;
use crate::synth::LiteralModel;
use crate::synth::Values;
use crate::text::contains;
use crate::text::decimal;
use crate::text::joined;
use crate::text::lowercase_of;
use crate::update::update_step;
use crate::update::UpdateEvent;
use crate::update::UpdateModel;
use crate::update::UpdateStep;
use crate::value::Json;

verus! {

/// Whether a name can stand as one plain segment of a path expression: it
/// holds no dot and does not end in the array marker.
pub open spec fn plain_name(name: Seq<char>) -> bool {
    &&& forall|i: int| 0 <= i < name.len() ==> name[i] != '.'
    &&& !has_array_marker(name)
}

/// Under the empty root expression an array document gives its elements, in
/// order, an object document gives itself alone, and any other document is
/// refused.
pub proof fn law_empty_root(doc: Json)
    ensures
        root_objects(doc, Seq::empty()) == match doc {
            Json::Array(items) => Ok::<Seq<Json>, PathFailure>(items),
            Json::Object(_) => Ok::<Seq<Json>, PathFailure>(seq![doc]),
            _ => Err::<Seq<Json>, PathFailure>(PathFailure::RootNotContainer),
        },
{
}

/// Splitting never yields an empty run of parts.
pub proof fn lemma_split_dots_nonempty(s: Seq<char>)
    ensures
        split_dots(s).len() >= 1,
    decreases s.len(),
{
    if s.len() > 0 {
        lemma_split_dots_nonempty(s.drop_last());
    }
}

/// The parts of a text, joined by dots again, give the text back, and no
/// part holds a dot.
pub proof fn law_split_and_join(s: Seq<char>)
    ensures
        joined(split_dots(s), seq!['.']) == s,
        forall|k: int, i: int|
            0 <= k < split_dots(s).len() && 0 <= i < split_dots(s)[k].len() ==> split_dots(
                s,
            )[k][i] != '.',
    decreases s.len(),
{
    let dot = seq!['.'];
    if s.len() == 0 {
        assert(joined(split_dots(s), dot) =~= s);
    } else {
        let shorter = s.drop_last();
        let before = split_dots(shorter);
        law_split_and_join(shorter);
        lemma_split_dots_nonempty(shorter);
        assert(shorter.push(s.last()) =~= s);
        if s.last() == '.' {
            let parts = before.push(Seq::<char>::empty());
            assert(parts.drop_last() =~= before);
            assert(joined(parts, dot) =~= s);
            assert forall|k: int, i: int|
                0 <= k < parts.len() && 0 <= i < parts[k].len() implies parts[k][i] != '.' by {
                if k < before.len() {
                    assert(parts[k] == before[k]);
                }
            }
        } else {
            let grown = before.last().push(s.last());
            let parts = before.update(before.len() - 1, grown);
            if before.len() == 1 {
                assert(joined(before, dot) == before[0]);
                assert(joined(parts, dot) =~= s);
            } else {
                assert(parts.drop_last() =~= before.drop_last());
                assert(joined(parts, dot) =~= (joined(before.drop_last(), dot) + dot
                    + before.last()).push(s.last()));
                assert(joined(parts, dot) =~= s);
            }
            assert forall|k: int, i: int|
                0 <= k < parts.len() && 0 <= i < parts[k].len() implies parts[k][i] != '.' by {
                if k < before.len() - 1 {
                    assert(parts[k] == before[k]);
                } else if i < before.last().len() {
                    assert(parts[k][i] == before.last()[i]);
                }
            }
        }
    }
}

/// A text without a dot is a single part.
pub proof fn lemma_split_without_dots(s: Seq<char>)
    requires
        forall|i: int| 0 <= i < s.len() ==> s[i] != '.',
    ensures
        split_dots(s) == seq![s],
    decreases s.len(),
{
    if s.len() == 0 {
        assert(s =~= Seq::<char>::empty());
    } else {
        let shorter = s.drop_last();
        assert forall|i: int| 0 <= i < shorter.len() implies shorter[i] != '.' by {
            assert(shorter[i] == s[i]);
        }
        lemma_split_without_dots(shorter);
        assert(shorter.push(s.last()) =~= s);
        assert(split_dots(s) =~= seq![s]);
    }
}

/// Two texts without a dot, joined by a dot, are two parts.
pub proof fn lemma_split_at_dot(a: Seq<char>, b: Seq<char>)
    requires
        forall|i: int| 0 <= i < a.len() ==> a[i] != '.',
        forall|i: int| 0 <= i < b.len() ==> b[i] != '.',
    ensures
        split_dots(a + seq!['.'] + b) == seq![a, b],
    decreases b.len(),
{
    let s = a + seq!['.'] + b;
    if b.len() == 0 {
        assert(s.drop_last() =~= a);
        assert(s.last() == '.');
        assert(b =~= Seq::<char>::empty());
        lemma_split_without_dots(a);
        assert(split_dots(s) == seq![a].push(Seq::<char>::empty()));
        assert(seq![a].push(b) =~= seq![a, b]);
    } else {
        let shorter = b.drop_last();
        assert forall|i: int| 0 <= i < shorter.len() implies shorter[i] != '.' by {
            assert(shorter[i] == b[i]);
        }
        lemma_split_at_dot(a, shorter);
        assert(s.drop_last() =~= a + seq!['.'] + shorter);
        assert(s.last() == b.last());
        assert(shorter.push(b.last()) =~= b);
        assert(split_dots(s) =~= seq![a, b]);
    }
}

/// With no segment left, every item is its own record.
pub proof fn lemma_resolve_each_at_end(items: Seq<Json>, segments: Seq<SegmentModel>)
    ensures
        resolve_each(items, segments, segments.len() as int) == Ok::<Seq<Json>, PathFailure>(
            items,
        ),
    decreases items.len(),
{
    let end = segments.len() as int;
    if items.len() == 0 {
        assert(items =~= Seq::<Json>::empty());
    } else {
        lemma_resolve_each_at_end(items.drop_first(), segments);
        assert(resolve_from(items[0], segments, end) == Ok::<Seq<Json>, PathFailure>(
            seq![items[0]],
        ));
        assert(seq![items[0]] + items.drop_first() =~= items);
    }
}

/// The root expression `name[]` on an object whose property `name` holds an
/// array gives the elements of that array, in order.
pub proof fn law_array_property(members: Seq<(Seq<char>, Json)>, name: Seq<char>, items: Seq<Json>)
    requires
        forall|i: int| 0 <= i < name.len() ==> name[i] != '.',
        lookup(members, name) == Some(Json::Array(items)),
    ensures
        root_objects(Json::Object(members), name + seq!['[', ']']) == Ok::<
            Seq<Json>,
            PathFailure,
        >(items),
{
    let path = name + seq!['[', ']'];
    assert forall|i: int| 0 <= i < path.len() implies path[i] != '.' by {
        if i < name.len() {
            assert(path[i] == name[i]);
        }
    }
    lemma_split_without_dots(path);
    assert(has_array_marker(path));
    assert(path.take(path.len() - 2) =~= name);
    let segments = segments_of(path);
    assert(segments =~= seq![SegmentModel { name, is_array: true }]);
    lemma_resolve_each_at_end(items, segments);
}

/// Under an array segment the number of records is the number of elements
/// times the number of records under each, where every element has as many.
pub proof fn law_record_count(
    items: Seq<Json>,
    segments: Seq<SegmentModel>,
    index: int,
    each: nat,
)
    requires
        0 <= index <= segments.len(),
        forall|i: int|
            0 <= i < items.len() ==> (#[trigger] resolve_from(items[i], segments, index)
                matches Ok(records) && records.len() == each),
    ensures
        resolve_each(items, segments, index) matches Ok(records) && records.len() == items.len()
            * each,
    decreases items.len(),
{
    if items.len() == 0 {
        assert(0 * each == 0) by (nonlinear_arith);
    } else {
        let rest = items.drop_first();
        assert forall|i: int| 0 <= i < rest.len() implies (#[trigger] resolve_from(
            rest[i],
            segments,
            index,
        ) matches Ok(records) && records.len() == each) by {
            assert(rest[i] == items[i + 1]);
        }
        law_record_count(rest, segments, index, each);
        assert(resolve_from(items[0], segments, index) is Ok);
        assert((items.len() - 1) * each + each == items.len() * each) by (nonlinear_arith);
    }
}

/// The path `a.b` leads to the property `b` of the object under the property
/// `a`, and to nothing where `a` is missing, `b` is missing, or `a` does not
/// hold an object.
pub proof fn law_nested_lookup(doc: Json, a: Seq<char>, b: Seq<char>)
    requires
        plain_name(a),
        plain_name(b),
    ensures
        value_at(doc, a + seq!['.'] + b) == match doc {
            Json::Object(members) => match lookup(members, a) {
                Some(Json::Object(inner)) => lookup(inner, b),
                _ => None::<Json>,
            },
            _ => None::<Json>,
        },
{
    let path = a + seq!['.'] + b;
    lemma_split_at_dot(a, b);
    let segments = segments_of(path);
    assert(segments =~= seq![
        SegmentModel { name: a, is_array: false },
        SegmentModel { name: b, is_array: false },
    ]);
    assert(path.len() > 0);
    match doc {
        Json::Object(members) => {
            match lookup(members, a) {
                Some(value) => {
                    assert(walk_from(doc, segments, 0) == walk_from(value, segments, 1));
                    match value {
                        Json::Object(inner) => {
                            match lookup(inner, b) {
                                Some(found) => {
                                    assert(walk_from(value, segments, 1) == walk_from(
                                        found,
                                        segments,
                                        2,
                                    ));
                                },
                                None => {},
                            }
                        },
                        _ => {},
                    }
                },
                None => {},
            }
        },
        _ => {},
    }
}

/// The last rule that feeds a column decides its value: the column has the
/// value found at that rule's path, or none where the path leads nowhere.
pub proof fn law_last_rule_wins(doc: Json, rules: Seq<RuleModel>, at: int)
    requires
        0 <= at < rules.len(),
        forall|i: int| at < i < rules.len() ==> rules[i].column != rules[at].column,
    ensures
        mapped(doc, rules).contains_key(rules[at].column),
        value_in(mapped(doc, rules), rules[at].column) == value_at(doc, rules[at].path),
    decreases rules.len(),
{
    if at < rules.len() - 1 {
        let shorter = rules.drop_last();
        assert(shorter[at] == rules[at]);
        assert forall|i: int| at < i < shorter.len() implies shorter[i].column
            != shorter[at].column by {
            assert(shorter[i] == rules[i]);
        }
        law_last_rule_wins(doc, shorter, at);
    }
}

/// A column that no rule feeds is not named in the mapped record.
pub proof fn law_unmapped_column(doc: Json, rules: Seq<RuleModel>, column: Seq<char>)
    requires
        forall|i: int| 0 <= i < rules.len() ==> rules[i].column != column,
    ensures
        !mapped(doc, rules).contains_key(column),
    decreases rules.len(),
{
    if rules.len() > 0 {
        let shorter = rules.drop_last();
        assert forall|i: int| 0 <= i < shorter.len() implies shorter[i].column != column by {
            assert(shorter[i] == rules[i]);
        }
        law_unmapped_column(doc, shorter, column);
    }
}

proof fn lemma_kept(names: Seq<Seq<char>>, allowed: Seq<Seq<char>>)
    requires
        distinct(names),
    ensures
        distinct(kept(names, allowed)),
        forall|name: Seq<char>|
            kept(names, allowed).contains(name) <==> (names.contains(name) && allowed.contains(
                name,
            )),
    decreases names.len(),
{
    let out = kept(names, allowed);
    if names.len() == 0 {
    } else {
        let shorter = names.drop_last();
        let before = kept(shorter, allowed);
        assert forall|i: int, j: int| 0 <= i < j < shorter.len() implies shorter[i]
            != shorter[j] by {
            assert(shorter[i] == names[i] && shorter[j] == names[j]);
        }
        lemma_kept(shorter, allowed);
        assert(!shorter.contains(names.last())) by {
            if shorter.contains(names.last()) {
                let k = choose|k: int| 0 <= k < shorter.len() && shorter[k] == names.last();
                assert(names[k] == names[names.len() - 1]);
            }
        }
        assert forall|name: Seq<char>|
            out.contains(name) <==> (names.contains(name) && allowed.contains(name)) by {
            if names.contains(name) {
                let k = choose|k: int| 0 <= k < names.len() && names[k] == name;
                if k < shorter.len() {
                    assert(shorter[k] == name);
                }
            }
            if shorter.contains(name) {
                let k = choose|k: int| 0 <= k < shorter.len() && shorter[k] == name;
                assert(names[k] == name);
            }
            if allowed.contains(names.last()) {
                assert(out == before.push(names.last()));
                if out.contains(name) {
                    let k = choose|k: int| 0 <= k < out.len() && out[k] == name;
                    if k < before.len() {
                        assert(before[k] == name);
                    }
                }
                if before.contains(name) {
                    let k = choose|k: int| 0 <= k < before.len() && before[k] == name;
                    assert(out[k] == name);
                }
                assert(out[before.len() as int] == names.last());
                assert(names[names.len() - 1] == names.last());
            }
        }
        if allowed.contains(names.last()) {
            assert forall|i: int, j: int| 0 <= i < j < out.len() implies out[i] != out[j] by {
                if j < before.len() {
                    assert(out[i] == before[i] && out[j] == before[j]);
                } else {
                    assert(out[i] == before[i]);
                    assert(before.contains(before[i]));
                }
            }
        }
    }
}

/// The columns that an insert writes are named once each, and they are
/// exactly the columns of the table that get a value from a rule, a default,
/// a forced value or a template.
pub proof fn law_target_columns(
    rules: Seq<RuleModel>,
    defaults: Seq<LiteralModel>,
    forced: Seq<LiteralModel>,
    templates: Seq<TemplateModel>,
    columns: Seq<ColumnModel>,
)
    ensures
        distinct(target_columns(rules, defaults, forced, templates, columns)),
        forall|name: Seq<char>|
            target_columns(rules, defaults, forced, templates, columns).contains(name) <==> (
            column_names(columns).contains(name) && (rule_columns(rules).contains(
                name,
            ) || literal_columns(defaults).contains(name)
                || literal_columns(forced).contains(name)
                || template_columns(templates).contains(name))),
{
    let none = Seq::<Seq<char>>::empty();
    let a = with_names(none, rule_columns(rules));
    let b = with_names(a, literal_columns(defaults));
    let c = with_names(b, literal_columns(forced));
    let d = with_names(c, template_columns(templates));
    lemma_with_names(none, rule_columns(rules));
    lemma_with_names(a, literal_columns(defaults));
    lemma_with_names(b, literal_columns(forced));
    lemma_with_names(c, template_columns(templates));
    assert(d == candidate_columns(rules, defaults, forced, templates));
    lemma_kept(d, column_names(columns));
    assert forall|name: Seq<char>|
        target_columns(rules, defaults, forced, templates, columns).contains(name) <==> (
        column_names(columns).contains(name) && (rule_columns(rules).contains(name)
            || literal_columns(defaults).contains(name)
            || literal_columns(forced).contains(name)
            || template_columns(templates).contains(name))) by {
        assert(!none.contains(name));
    }
}

/// An offset and a limit that both fall inside the records select the
/// records from the offset on, as many as the limit says.
pub proof fn law_window<T>(records: Seq<T>, offset: u32, limit: u32)
    requires
        0 < offset < records.len(),
        0 < limit < records.len() - offset,
    ensures
        windowed(records, Some(offset), Some(limit)) == records.subrange(
            offset as int,
            offset + limit,
        ),
        windowed(records, Some(offset), Some(limit)).len() == limit,
{
    assert(records.skip(offset as int).take(limit as int) =~= records.subrange(
        offset as int,
        offset + limit,
    ));
}

/// An offset at or beyond the last record drops nothing, and no window makes
/// records: of no records none are selected.
pub proof fn law_window_beyond<T>(records: Seq<T>, offset: u32, limit: Option<u32>)
    requires
        offset >= records.len(),
    ensures
        windowed(records, Some(offset), limit) == after_limit(records, count_of(limit)),
        records.len() == 0 ==> windowed(records, Some(offset), limit).len() == 0,
{
}

/// A column whose declared type names an integer gets `index + 1000`,
/// whatever the clock and the random number generator return: two calls for
/// the same column and index give the same value. The number is held as an
/// integer where it fits the signed 64-bit range and as its literal beyond.
pub proof fn law_integer_value(
    data_type: Seq<char>,
    column: Seq<char>,
    index: nat,
    first: DrawsModel,
    second: DrawsModel,
)
    requires
        contains(lowercase_of(data_type), "int"@),
    ensures
        index + 1000 <= 0x7fff_ffff_ffff_ffff ==> dynamic_value(data_type, column, index, first)
            == Json::Integer(index as int + 1000),
        index + 1000 > 0x7fff_ffff_ffff_ffff ==> dynamic_value(data_type, column, index, first)
            == Json::Decimal(decimal(index + 1000)),
        dynamic_value(data_type, column, index, first) == dynamic_value(
            data_type,
            column,
            index,
            second,
        ),
{
}

/// A run of fixed digits has exactly the width asked for.
pub proof fn lemma_fixed_digits_width(n: nat, width: nat)
    ensures
        fixed_digits(n, width).len() == width,
    decreases width,
{
    if width > 0 {
        lemma_fixed_digits_width(n / 10, (width - 1) as nat);
    }
}

/// The real drawn for a column is below one hundred: its literal is a whole
/// part below one hundred, a point, and six digits.
pub proof fn law_real_below_one_hundred(random: nat)
    ensures
        exists|whole: nat, fraction: nat|
            whole < 100 && fraction < 1000000 && #[trigger] fixed_digits(fraction, 6).len() == 6
                && real_literal(random) == #[trigger] decimal(whole) + "."@ + fixed_digits(
                fraction,
                6,
            ),
{
    let whole = random % 100;
    let fraction = (random / 100) % 1000000;
    lemma_fixed_digits_width(fraction, 6);
    assert(whole < 100 && fraction < 1000000 && fixed_digits(fraction, 6).len() == 6
        && real_literal(random) == decimal(whole) + "."@ + fixed_digits(fraction, 6));
}

proof fn lemma_defaults_keep(
    states: Seq<Values>,
    defaults: Seq<LiteralModel>,
    columns: Seq<ColumnModel>,
    index: nat,
    column: Seq<char>,
    upto: int,
)
    requires
        states.len() == defaults.len() + 1,
        forall|i: int|
            0 <= i < defaults.len() ==> #[trigger] links(
                states,
                defaults,
                default_rule(columns, index),
                i,
            ),
        !lacks_value(states[0], column),
        0 <= upto <= defaults.len(),
    ensures
        value_in(states[upto], column) == value_in(states[0], column),
    decreases upto,
{
    if upto > 0 {
        lemma_defaults_keep(states, defaults, columns, index, column, upto - 1);
        assert(links(states, defaults, default_rule(columns, index), upto - 1));
    }
}

/// Defaults leave a column that has a value as it is; a JSON null is no value.
pub proof fn law_defaults_keep_values(
    before: Values,
    after: Values,
    defaults: Seq<LiteralModel>,
    columns: Seq<ColumnModel>,
    index: nat,
    column: Seq<char>,
)
    requires
        chained(before, after, defaults, default_rule(columns, index)),
        !lacks_value(before, column),
    ensures
        value_in(after, column) == value_in(before, column),
{
    let states = choose|states: Seq<Values>|
        traces(states, before, after, defaults, default_rule(columns, index));
    lemma_defaults_keep(states, defaults, columns, index, column, defaults.len() as int);
}

proof fn lemma_defaults_fill(
    states: Seq<Values>,
    defaults: Seq<LiteralModel>,
    columns: Seq<ColumnModel>,
    index: nat,
    column: Seq<char>,
    upto: int,
)
    requires
        states.len() == defaults.len() + 1,
        forall|i: int|
            0 <= i < defaults.len() ==> #[trigger] links(
                states,
                defaults,
                default_rule(columns, index),
                i,
            ),
        forall|i: int| 0 <= i < defaults.len() ==> defaults[i].column != column,
        0 <= upto <= defaults.len(),
    ensures
        value_in(states[upto], column) == value_in(states[0], column),
    decreases upto,
{
    if upto > 0 {
        lemma_defaults_fill(states, defaults, columns, index, column, upto - 1);
        assert(links(states, defaults, default_rule(columns, index), upto - 1));
    }
}

/// Defaults leave a column that none of them names as it is.
pub proof fn law_defaults_touch_only_their_columns(
    before: Values,
    after: Values,
    defaults: Seq<LiteralModel>,
    columns: Seq<ColumnModel>,
    index: nat,
    column: Seq<char>,
)
    requires
        chained(before, after, defaults, default_rule(columns, index)),
        forall|i: int| 0 <= i < defaults.len() ==> defaults[i].column != column,
    ensures
        value_in(after, column) == value_in(before, column),
{
    let states = choose|states: Seq<Values>|
        traces(states, before, after, defaults, default_rule(columns, index));
    lemma_defaults_fill(states, defaults, columns, index, column, defaults.len() as int);
}

proof fn lemma_default_given(
    states: Seq<Values>,
    defaults: Seq<LiteralModel>,
    columns: Seq<ColumnModel>,
    index: nat,
    at: int,
    upto: int,
)
    requires
        states.len() == defaults.len() + 1,
        forall|i: int|
            0 <= i < defaults.len() ==> #[trigger] links(
                states,
                defaults,
                default_rule(columns, index),
                i,
            ),
        0 <= at < upto <= defaults.len(),
        lacks_value(states[at], defaults[at].column),
        !is_marker(defaults[at].value),
        defaults[at].value != Json::Null,
    ensures
        value_in(states[upto], defaults[at].column) == Some(defaults[at].value),
    decreases upto,
{
    let rule = default_rule(columns, index);
    if upto == at + 1 {
        assert(links(states, defaults, rule, at));
    } else {
        lemma_default_given(states, defaults, columns, index, at, upto - 1);
        assert(links(states, defaults, rule, upto - 1));
    }
}

/// A column without a value, or with a JSON null, gets the literal of the
/// first default that names it.
pub proof fn law_default_fills_missing_value(
    before: Values,
    after: Values,
    defaults: Seq<LiteralModel>,
    columns: Seq<ColumnModel>,
    index: nat,
    at: int,
)
    requires
        chained(before, after, defaults, default_rule(columns, index)),
        0 <= at < defaults.len(),
        lacks_value(before, defaults[at].column),
        forall|i: int| 0 <= i < at ==> defaults[i].column != defaults[at].column,
        !is_marker(defaults[at].value),
        defaults[at].value != Json::Null,
    ensures
        value_in(after, defaults[at].column) == Some(defaults[at].value),
{
    let rule = default_rule(columns, index);
    let states = choose|states: Seq<Values>| traces(states, before, after, defaults, rule);
    let earlier = defaults.take(at);
    let prefix_states = states.take(at + 1);
    assert forall|i: int| 0 <= i < earlier.len() implies #[trigger] links(
        prefix_states,
        earlier,
        rule,
        i,
    ) by {
        assert(links(states, defaults, rule, i));
    }
    lemma_defaults_fill(prefix_states, earlier, columns, index, defaults[at].column, at);
    lemma_default_given(states, defaults, columns, index, at, defaults.len() as int);
}

proof fn lemma_backfill_keeps(
    states: Seq<Values>,
    unique: Seq<Seq<char>>,
    columns: Seq<ColumnModel>,
    index: nat,
    column: Seq<char>,
    upto: int,
)
    requires
        states.len() == unique.len() + 1,
        forall|i: int|
            0 <= i < unique.len() ==> #[trigger] links(
                states,
                unique,
                backfill_rule(columns, index),
                i,
            ),
        !lacks_value(states[0], column),
        0 <= upto <= unique.len(),
    ensures
        value_in(states[upto], column) == value_in(states[0], column),
    decreases upto,
{
    if upto > 0 {
        lemma_backfill_keeps(states, unique, columns, index, column, upto - 1);
        assert(links(states, unique, backfill_rule(columns, index), upto - 1));
    }
}

/// The backfill leaves a column that has a value as it is; a JSON null is no
/// value.
pub proof fn law_backfill_keeps_values(
    before: Values,
    after: Values,
    unique: Seq<Seq<char>>,
    columns: Seq<ColumnModel>,
    index: nat,
    column: Seq<char>,
)
    requires
        chained(before, after, unique, backfill_rule(columns, index)),
        !lacks_value(before, column),
    ensures
        value_in(after, column) == value_in(before, column),
{
    let states = choose|states: Seq<Values>|
        traces(states, before, after, unique, backfill_rule(columns, index));
    lemma_backfill_keeps(states, unique, columns, index, column, unique.len() as int);
}

proof fn lemma_backfill_fills(
    states: Seq<Values>,
    unique: Seq<Seq<char>>,
    columns: Seq<ColumnModel>,
    index: nat,
    column: Seq<char>,
    upto: int,
)
    requires
        states.len() == unique.len() + 1,
        forall|i: int|
            0 <= i < unique.len() ==> #[trigger] links(
                states,
                unique,
                backfill_rule(columns, index),
                i,
            ),
        column_named(columns, column) matches Some(info) && info.not_null,
        0 <= upto <= unique.len(),
        exists|i: int| 0 <= i < upto && unique[i] == column,
    ensures
        !lacks_value(states[upto], column),
    decreases upto,
{
    let rule = backfill_rule(columns, index);
    assert(links(states, unique, rule, upto - 1));
    if unique[upto - 1] == column {
    } else {
        let at = choose|i: int| 0 <= i < upto && unique[i] == column;
        assert(at < upto - 1);
        lemma_backfill_fills(states, unique, columns, index, column, upto - 1);
    }
}

/// After the backfill every column of a unique index that the table declares
/// not-null has a value, a JSON null not counting as one.
pub proof fn law_backfill_fills_unique_columns(
    before: Values,
    after: Values,
    unique: Seq<Seq<char>>,
    columns: Seq<ColumnModel>,
    index: nat,
    at: int,
)
    requires
        chained(before, after, unique, backfill_rule(columns, index)),
        0 <= at < unique.len(),
        column_named(columns, unique[at]) matches Some(info) && info.not_null,
    ensures
        !lacks_value(after, unique[at]),
{
    let states = choose|states: Seq<Values>|
        traces(states, before, after, unique, backfill_rule(columns, index));
    lemma_backfill_fills(states, unique, columns, index, unique[at], unique.len() as int);
}

proof fn lemma_forced_last(
    states: Seq<Values>,
    forced: Seq<LiteralModel>,
    columns: Seq<ColumnModel>,
    index: nat,
    at: int,
    upto: int,
)
    requires
        states.len() == forced.len() + 1,
        forall|i: int|
            0 <= i < forced.len() ==> #[trigger] links(
                states,
                forced,
                forced_rule(columns, index),
                i,
            ),
        0 <= at < upto <= forced.len(),
        forall|i: int| at < i < forced.len() ==> forced[i].column != forced[at].column,
        !is_marker(forced[at].value),
    ensures
        value_in(states[upto], forced[at].column) == Some(forced[at].value),
    decreases upto,
{
    let rule = forced_rule(columns, index);
    if upto == at + 1 {
        assert(links(states, forced, rule, at));
    } else {
        lemma_forced_last(states, forced, columns, index, at, upto - 1);
        assert(links(states, forced, rule, upto - 1));
    }
}

/// A forced value always overrides: the column has the literal of the last
/// forced value that names it, whatever it held before.
pub proof fn law_forced_overrides(
    before: Values,
    after: Values,
    forced: Seq<LiteralModel>,
    columns: Seq<ColumnModel>,
    index: nat,
    at: int,
)
    requires
        chained(before, after, forced, forced_rule(columns, index)),
        0 <= at < forced.len(),
        forall|i: int| at < i < forced.len() ==> forced[i].column != forced[at].column,
        !is_marker(forced[at].value),
    ensures
        value_in(after, forced[at].column) == Some(forced[at].value),
{
    let states = choose|states: Seq<Values>|
        traces(states, before, after, forced, forced_rule(columns, index));
    lemma_forced_last(states, forced, columns, index, at, forced.len() as int);
}

/// A forced value overrides a default applied to the same record before it.
pub proof fn law_forced_overrides_defaults(
    mapped: Values,
    defaulted: Values,
    after: Values,
    defaults: Seq<LiteralModel>,
    forced: Seq<LiteralModel>,
    columns: Seq<ColumnModel>,
    index: nat,
    at: int,
)
    requires
        chained(mapped, defaulted, defaults, default_rule(columns, index)),
        chained(defaulted, after, forced, forced_rule(columns, index)),
        0 <= at < forced.len(),
        forall|i: int| at < i < forced.len() ==> forced[i].column != forced[at].column,
        !is_marker(forced[at].value),
    ensures
        value_in(after, forced[at].column) == Some(forced[at].value),
{
    law_forced_overrides(defaulted, after, forced, columns, index, at);
}

/// Discovery lists no path twice, and lists exactly the paths that the walk
/// meets.
pub proof fn law_discovered_paths(doc: Json)
    ensures
        distinct(discovered(doc)),
        forall|path: Seq<char>|
            discovered(doc).contains(path) <==> paths_from(Seq::empty(), doc, 0).contains(path),
{
    lemma_with_names(Seq::empty(), paths_from(Seq::empty(), doc, 0));
    assert forall|path: Seq<char>|
        discovered(doc).contains(path) <==> paths_from(Seq::empty(), doc, 0).contains(path) by {
        assert(!Seq::<Seq<char>>::empty().contains(path));
    }
}

/// A text takes at least one byte for each of its characters.
pub proof fn lemma_bytes_cover_characters(text: Seq<char>)
    ensures
        encode_utf8(text).len() >= text.len(),
    decreases text.len(),
{
    if text.len() > 0 {
        lemma_bytes_cover_characters(text.drop_first());
    }
}

/// A sample as shown never has more than fifty characters.
pub proof fn law_sample_length(sample: Seq<char>)
    ensures
        shortened(sample).len() <= 50,
{
    reveal_strlit("...");
    lemma_bytes_cover_characters(sample);
}

/// No column stands twice among the columns of unique indexes.
pub proof fn law_unique_columns_distinct(indexes: Seq<IndexModel>)
    ensures
        distinct(unique_columns_of(indexes)),
    decreases indexes.len(),
{
    if indexes.len() > 0 {
        law_unique_columns_distinct(indexes.drop_last());
        lemma_with_names(
            unique_columns_of(indexes.drop_last()),
            ordered_names(indexes.last().columns),
        );
    }
}

/// Whether the members stand by ascending rank.
pub open spec fn ascending(columns: Seq<IndexColumnModel>) -> bool {
    forall|i: int, j: int| 0 <= i < j < columns.len() ==> columns[i].position <= columns[j].position
}

proof fn lemma_placed(sorted: Seq<IndexColumnModel>, column: IndexColumnModel)
    requires
        ascending(sorted),
    ensures
        ascending(placed(sorted, column)),
        placed(sorted, column).to_multiset() == sorted.to_multiset().insert(column),
        placed(sorted, column).len() == sorted.len() + 1,
        forall|k: int|
            0 <= k < placed(sorted, column).len() ==> #[trigger] placed(sorted, column)[k]
                == column || sorted.contains(placed(sorted, column)[k]),
    decreases sorted.len(),
{
    broadcast use vstd::seq_lib::group_to_multiset_ensures;

    let out = placed(sorted, column);
    if sorted.len() == 0 {
        assert(sorted =~= Seq::<IndexColumnModel>::empty());
        assert(out =~= Seq::<IndexColumnModel>::empty().push(column));
    } else if sorted.last().position <= column.position {
        assert forall|k: int| 0 <= k < out.len() implies #[trigger] out[k] == column
            || sorted.contains(out[k]) by {
            if k < sorted.len() {
                assert(sorted[k] == out[k]);
            }
        }
    } else {
        let shorter = sorted.drop_last();
        assert forall|i: int, j: int| 0 <= i < j < shorter.len() implies shorter[i].position
            <= shorter[j].position by {
            assert(shorter[i] == sorted[i] && shorter[j] == sorted[j]);
        }
        lemma_placed(shorter, column);
        let inner = placed(shorter, column);
        assert(shorter.push(sorted.last()) =~= sorted);
        assert forall|k: int| 0 <= k < out.len() implies #[trigger] out[k] == column
            || sorted.contains(out[k]) by {
            if k < inner.len() {
                assert(out[k] == inner[k]);
                if inner[k] != column {
                    let at = choose|at: int| 0 <= at < shorter.len() && shorter[at] == inner[k];
                    assert(sorted[at] == inner[k]);
                }
            } else {
                assert(out[k] == sorted[sorted.len() - 1]);
            }
        }
        assert forall|i: int, j: int| 0 <= i < j < out.len() implies out[i].position
            <= out[j].position by {
            if j < inner.len() {
                assert(out[i] == inner[i] && out[j] == inner[j]);
            } else {
                assert(out[j] == sorted.last());
                assert(out[i] == inner[i]);
                if inner[i] != column {
                    let at = choose|at: int| 0 <= at < shorter.len() && shorter[at] == inner[i];
                    assert(sorted[at] == inner[i]);
                }
            }
        }
        assert(out.to_multiset() =~= sorted.to_multiset().insert(column));
    }
}

/// Ordering the members of an index puts them by ascending rank and neither
/// drops nor adds one.
pub proof fn law_by_position(columns: Seq<IndexColumnModel>)
    ensures
        ascending(by_position(columns)),
        by_position(columns).to_multiset() == columns.to_multiset(),
        by_position(columns).len() == columns.len(),
    decreases columns.len(),
{
    broadcast use vstd::seq_lib::group_to_multiset_ensures;

    if columns.len() == 0 {
        assert(columns =~= Seq::<IndexColumnModel>::empty());
    } else {
        law_by_position(columns.drop_last());
        lemma_placed(by_position(columns.drop_last()), columns.last());
        assert(columns.drop_last().push(columns.last()) =~= columns);
    }
}

/// Every step of an import keeps the counters in agreement and the total
/// fixed, never lowers a counter, and reports only snapshots in which every
/// processed record either succeeded or failed.
pub proof fn law_import_progress(
    pre: ImportModel,
    event: ImportEvent,
    post: ImportModel,
    step: ImportStep,
)
    requires
        crate::insert::sound(pre),
        import_step(pre, event, post, step),
    ensures
        crate::insert::sound(post),
        post.total == pre.total,
        post.processed >= pre.processed,
        post.succeeded >= pre.succeeded,
        post.failed >= pre.failed,
        post.processed <= pre.processed + 1,
        step.report matches Some(progress) ==> consistent(progress@) && progress@.total
            == pre.total,
{
}

/// Every step of an update keeps the counters in agreement and the total
/// fixed, never lowers a counter, and reports only snapshots in which every
/// processed record either succeeded or failed.
pub proof fn law_update_progress(
    pre: UpdateModel,
    event: UpdateEvent,
    post: UpdateModel,
    step: UpdateStep,
)
    requires
        crate::update::sound(pre),
        update_step(pre, event, post, step),
    ensures
        crate::update::sound(post),
        post.total == pre.total,
        post.processed >= pre.processed,
        post.succeeded >= pre.succeeded,
        post.failed >= pre.failed,
        post.processed <= pre.processed + 1,
        step.report matches Some(progress) ==> consistent(progress@) && progress@.total
            == pre.total,
{
}

} // verus!
