//! Value synthesis: generated values, templates, and the stages that build
//! the column values of one record.

use vstd::prelude::*;
use vstd::string::StringExecFns;
use crate::ambient::clock_millis;
use crate::ambient::draw;
use crate::ambient::random_identifier;
use crate::ambient::Draws;
use crate::ambient::DrawsModel;
use crate::path::apply_mapping;
use crate::path::mapped;
use crate::path::rule_models;
use crate::path::MappingRule;
use crate::path::RuleModel;
use crate::row::lacks_value;
use crate::row::Row;
use crate::schema::column_models;
use crate::schema::column_named;
use crate::schema::find_column;
use crate::schema::ColumnInfo;
use crate::schema::ColumnModel;
use crate::text::chars_of;
use crate::text::contains;
use crate::text::decimal;
use crate::text::digit;
use crate::text::hexadecimal;
use crate::text::lowercase_of;
use crate::text::prefix;
use crate::text::push_decimal;
use crate::text::push_hexadecimal;
use crate::text::push_wide_decimal;
use crate::text::replace_all;
use crate::text::replace_text;
use crate::text::signed_decimal;
use crate::text::signed_decimal_text;
use crate::text::string_of_range;
use crate::text::text_contains;
use crate::text::texts;
use crate::text::to_lowercase;
use crate::text::to_uppercase;
use crate::text::uppercase_of;
use crate::value::Json;
use crate::value::JsonNumber;
use crate::value::JsonValue;

verus! {

/// The column values of one record, as a model: a column either has a value
/// or is marked as having none.
pub type Values = Map<Seq<char>, Option<Json>>;

/// What kind of value is generated for a column.
#[derive(Debug, Clone, Copy, PartialEq, Eq)]
pub enum ValueKind {
    Integer,
    Code,
    Email,
    Name,
    Title,
    Description,
    RandomText,
    Real,
    Date,
    Boolean,
    Other,
}

/// The kind of value generated for a column, from its declared type and its
/// name, both in lower case. The type decides first: integer, text, real,
/// date or time, boolean, in this order; a text column goes by its name.
pub open spec fn kind_of(type_lower: Seq<char>, name_lower: Seq<char>) -> ValueKind {
    if contains(type_lower, "int"@) {
        ValueKind::Integer
    } else if contains(type_lower, "text"@) || contains(type_lower, "char"@) {
        if contains(name_lower, "id"@) || contains(name_lower, "code"@) {
            ValueKind::Code
        } else if contains(name_lower, "email"@) {
            ValueKind::Email
        } else if contains(name_lower, "name"@) {
            ValueKind::Name
        } else if contains(name_lower, "title"@) {
            ValueKind::Title
        } else if contains(name_lower, "description"@) {
            ValueKind::Description
        } else {
            ValueKind::RandomText
        }
    } else if contains(type_lower, "real"@) || contains(type_lower, "float"@) || contains(
        type_lower,
        "double"@,
    ) {
        ValueKind::Real
    } else if contains(type_lower, "date"@) || contains(type_lower, "time"@) {
        ValueKind::Date
    } else if contains(type_lower, "bool"@) {
        ValueKind::Boolean
    } else {
        ValueKind::Other
    }
}

/// Decides the kind of value to generate from the lower-case forms of a
/// column's declared type and name.
pub fn classify(type_lower: &str, name_lower: &str) -> (kind: ValueKind)
    ensures
        kind == kind_of(type_lower@, name_lower@),
{
    if text_contains(type_lower, "int") {
        ValueKind::Integer
    } else if text_contains(type_lower, "text") || text_contains(type_lower, "char") {
        if text_contains(name_lower, "id") || text_contains(name_lower, "code") {
            ValueKind::Code
        } else if text_contains(name_lower, "email") {
            ValueKind::Email
        } else if text_contains(name_lower, "name") {
            ValueKind::Name
        } else if text_contains(name_lower, "title") {
            ValueKind::Title
        } else if text_contains(name_lower, "description") {
            ValueKind::Description
        } else {
            ValueKind::RandomText
        }
    } else if text_contains(type_lower, "real") || text_contains(type_lower, "float")
        || text_contains(type_lower, "double") {
        ValueKind::Real
    } else if text_contains(type_lower, "date") || text_contains(type_lower, "time") {
        ValueKind::Date
    } else if text_contains(type_lower, "bool") {
        ValueKind::Boolean
    } else {
        ValueKind::Other
    }
}

/// The last `width` decimal digits of `n`, with leading zeros.
pub open spec fn fixed_digits(n: nat, width: nat) -> Seq<char>
    decreases width,
{
    if width == 0 {
        Seq::empty()
    } else {
        fixed_digits(n / 10, (width - 1) as nat).push(digit(n % 10))
    }
}

/// The literal of the real number drawn from a random word: its whole part
/// is below one hundred and six digits follow the point.
pub open spec fn real_literal(random: nat) -> Seq<char> {
    decimal(random % 100) + "."@ + fixed_digits((random / 100) % 1000000, 6)
}

fn push_fixed_digits(out: &mut String, n: u64, width: u8)
    ensures
        final(out)@ == old(out)@ + fixed_digits(n as nat, width as nat),
    decreases width,
{
    if width > 0 {
        push_fixed_digits(out, n / 10, width - 1);
        let ghost before = out@;
        push_decimal(out, n % 10);
        proof {
            assert(decimal((n % 10) as nat) =~= seq![digit((n % 10) as nat)]);
            assert(out@ =~= old(out)@ + fixed_digits(n as nat, width as nat));
        }
    } else {
        assert(out@ =~= old(out)@ + fixed_digits(n as nat, 0));
    }
}

/// The value generated for a column of the given kind at record `index`.
///
/// Integer columns get `index + 1000`, as an integer where it fits the signed
/// 64-bit range and as its literal beyond. Text columns get a text built from the
/// column's name and the record's index: code-like names a prefix of up to
/// three characters in upper case, the time in milliseconds and the index;
/// e-mail, name, title and description columns a fixed pattern; other text
/// columns the name, a random word in hexadecimal and the index. Real columns
/// get a number below one hundred, date and time columns the current date,
/// boolean columns `true` at even indexes. Any other column gets its name and
/// the index.
pub open spec fn generated(
    kind: ValueKind,
    column: Seq<char>,
    index: nat,
    draws: DrawsModel,
) -> Json {
    match kind {
        ValueKind::Integer => if index + 1000 <= 0x7fff_ffff_ffff_ffff {
            Json::Integer(index as int + 1000)
        } else {
            Json::Decimal(decimal(index + 1000))
        },
        ValueKind::Code => Json::String(
            uppercase_of(prefix(column, 3)) + "_"@ + signed_decimal(draws.millis) + "_"@ + decimal(
                index,
            ),
        ),
        ValueKind::Email => Json::String("user"@ + decimal(index) + "@example.com"@),
        ValueKind::Name => Json::String("Name_"@ + decimal(index)),
        ValueKind::Title => Json::String("Title "@ + decimal(index)),
        ValueKind::Description => Json::String("Description for item "@ + decimal(index)),
        ValueKind::RandomText => Json::String(
            column + "_"@ + hexadecimal(draws.random) + "_"@ + decimal(index),
        ),
        ValueKind::Real => Json::Decimal(real_literal(draws.random)),
        ValueKind::Date => Json::String(draws.today),
        ValueKind::Boolean => Json::Bool(index % 2 == 0),
        ValueKind::Other => Json::String(column + "_"@ + decimal(index)),
    }
}

fn labelled(label: &str, index: usize) -> (out: String)
    ensures
        out@ == label@ + decimal(index as nat),
{
    let mut out = String::new();
    out.append(label);
    push_decimal(&mut out, index as u64);
    assert(out@ =~= label@ + decimal(index as nat));
    out
}

/// Generates the value of the given kind for `column_name` at record `index`
/// from the values drawn.
pub fn generate_with(kind: ValueKind, column_name: &str, index: usize, draws: &Draws) -> (value:
    JsonValue)
    ensures
        value@ == generated(kind, column_name@, index as nat, draws@),
{
    match kind {
        ValueKind::Integer => {
            let wide: u128 = index as u128 + 1000;
            if wide <= 0x7fff_ffff_ffff_ffff {
                JsonValue::Number(JsonNumber::Integer(wide as i64))
            } else {
                let mut literal = String::new();
                push_wide_decimal(&mut literal, wide);
                assert(literal@ =~= decimal((index + 1000) as nat));
                JsonValue::Number(JsonNumber::Decimal(literal))
            }
        },
        ValueKind::Code => {
            let chars = chars_of(column_name);
            let count: usize = if chars.len() <= 3 {
                chars.len()
            } else {
                3
            };
            let head = string_of_range(&chars, 0, count);
            proof {
                assert(head@ =~= prefix(column_name@, 3));
            }
            let mut out = to_uppercase(head.as_str());
            out.append("_");
            let millis = signed_decimal_text(draws.millis);
            out.append(millis.as_str());
            out.append("_");
            push_decimal(&mut out, index as u64);
            proof {
                assert(out@ =~= uppercase_of(prefix(column_name@, 3)) + "_"@ + signed_decimal(
                    draws.millis as int,
                ) + "_"@ + decimal(index as nat));
            }
            JsonValue::String(out)
        },
        ValueKind::Email => {
            let mut out = labelled("user", index);
            out.append("@example.com");
            JsonValue::String(out)
        },
        ValueKind::Name => JsonValue::String(labelled("Name_", index)),
        ValueKind::Title => JsonValue::String(labelled("Title ", index)),
        ValueKind::Description => JsonValue::String(labelled("Description for item ", index)),
        ValueKind::RandomText => {
            let mut out = String::new();
            out.append(column_name);
            out.append("_");
            push_hexadecimal(&mut out, draws.random);
            out.append("_");
            push_decimal(&mut out, index as u64);
            proof {
                assert(out@ =~= column_name@ + "_"@ + hexadecimal(draws.random as nat) + "_"@
                    + decimal(index as nat));
            }
            JsonValue::String(out)
        },
        ValueKind::Real => {
            let mut out = String::new();
            push_decimal(&mut out, (draws.random % 100) as u64);
            out.append(".");
            push_fixed_digits(&mut out, ((draws.random / 100) % 1000000) as u64, 6);
            proof {
                assert(out@ =~= real_literal(draws.random as nat));
            }
            JsonValue::Number(JsonNumber::Decimal(out))
        },
        ValueKind::Date => JsonValue::String(draws.today.clone()),
        ValueKind::Boolean => JsonValue::Bool(index % 2 == 0),
        ValueKind::Other => {
            let mut out = String::new();
            out.append(column_name);
            out.append("_");
            push_decimal(&mut out, index as u64);
            proof {
                assert(out@ =~= column_name@ + "_"@ + decimal(index as nat));
            }
            JsonValue::String(out)
        },
    }
}

/// The value generated for a column of the given declared type and name at
/// record `index`, for the values drawn.
pub open spec fn dynamic_value(
    data_type: Seq<char>,
    column: Seq<char>,
    index: nat,
    draws: DrawsModel,
) -> Json {
    generated(kind_of(lowercase_of(data_type), lowercase_of(column)), column, index, draws)
}

/// Generates a value for a column from its declared type and its name.
///
/// The clock and the random number generator are read once; the value is the
/// one that `dynamic_value` gives for what they returned.
pub fn generate_dynamic_value(data_type: &str, column_name: &str, index: usize) -> (value:
    JsonValue)
    ensures
        exists|draws: DrawsModel|
            value@ == #[trigger] dynamic_value(data_type@, column_name@, index as nat, draws),
{
    let type_lower = to_lowercase(data_type);
    let name_lower = to_lowercase(column_name);
    let kind = classify(type_lower.as_str(), name_lower.as_str());
    let draws = draw();
    let value = generate_with(kind, column_name, index, &draws);
    assert(value@ == dynamic_value(data_type@, column_name@, index as nat, draws@));
    value
}

/// The model of a literal given for a column.
pub struct LiteralModel {
    pub column: Seq<char>,
    pub value: Json,
}

/// A literal given for a column, as a default or as a forced value.
#[derive(Debug, PartialEq, Eq)]
pub struct ColumnLiteral {
    pub column: String,
    pub value: JsonValue,
}

impl View for ColumnLiteral {
    type V = LiteralModel;

    open spec fn view(&self) -> LiteralModel {
        LiteralModel { column: self.column@, value: self.value@ }
    }
}

impl Clone for ColumnLiteral {
    fn clone(&self) -> (out: Self)
        ensures
            out@ == self@,
    {
        ColumnLiteral { column: self.column.clone(), value: self.value.clone() }
    }
}

/// The models of a run of literals, in order.
pub open spec fn literal_models(literals: Seq<ColumnLiteral>) -> Seq<LiteralModel> {
    Seq::new(literals.len(), |i: int| literals[i]@)
}

/// The model of a template given for a column.
pub struct TemplateModel {
    pub column: Seq<char>,
    pub template: Seq<char>,
}

/// A text template given for a column.
#[derive(Debug, PartialEq, Eq)]
pub struct ColumnTemplate {
    pub column: String,
    pub template: String,
}

impl View for ColumnTemplate {
    type V = TemplateModel;

    open spec fn view(&self) -> TemplateModel {
        TemplateModel { column: self.column@, template: self.template@ }
    }
}

impl Clone for ColumnTemplate {
    fn clone(&self) -> (out: Self)
        ensures
            out@ == self@,
    {
        ColumnTemplate { column: self.column.clone(), template: self.template.clone() }
    }
}

/// The models of a run of templates, in order.
pub open spec fn template_models(templates: Seq<ColumnTemplate>) -> Seq<TemplateModel> {
    Seq::new(templates.len(), |i: int| templates[i]@)
}

/// A template with its placeholders replaced: `{{INDEX}}` by the record's
/// index, `{{UUID}}` by the identifier, `{{TIMESTAMP}}` by the time in
/// milliseconds.
pub open spec fn expanded(
    template: Seq<char>,
    index: nat,
    identifier: Seq<char>,
    millis: int,
) -> Seq<char> {
    replace_all(
        replace_all(
            replace_all(template, "{{INDEX}}"@, decimal(index)),
            "{{UUID}}"@,
            identifier,
        ),
        "{{TIMESTAMP}}"@,
        signed_decimal(millis),
    )
}

/// Replaces the placeholders of `template`.
pub fn expand_template(template: &str, index: usize, identifier: &str, millis: i64) -> (out: String)
    ensures
        out@ == expanded(template@, index as nat, identifier@, millis as int),
{
    let mut numeral = String::new();
    push_decimal(&mut numeral, index as u64);
    assert(numeral@ =~= decimal(index as nat));
    let first = replace_text(template, "{{INDEX}}", numeral.as_str());
    let second = replace_text(first.as_str(), "{{UUID}}", identifier);
    let stamp = signed_decimal_text(millis);
    replace_text(second.as_str(), "{{TIMESTAMP}}", stamp.as_str())
}

/// Whether step `i` leads from state `i` to the next one.
pub open spec fn links<T>(
    states: Seq<Values>,
    items: Seq<T>,
    step: spec_fn(Values, Values, T) -> bool,
    i: int,
) -> bool {
    step(states[i], states[i + 1], items[i])
}

/// Whether `states` are the column values before, between and after the
/// steps taken for `items`, in order.
pub open spec fn traces<T>(
    states: Seq<Values>,
    before: Values,
    after: Values,
    items: Seq<T>,
    step: spec_fn(Values, Values, T) -> bool,
) -> bool {
    &&& states.len() == items.len() + 1
    &&& states[0] == before
    &&& states[items.len() as int] == after
    &&& forall|i: int| 0 <= i < items.len() ==> #[trigger] links(states, items, step, i)
}

/// Whether building `after` from `before` takes one `step` for each of
/// `items`, in order.
pub open spec fn chained<T>(
    before: Values,
    after: Values,
    items: Seq<T>,
    step: spec_fn(Values, Values, T) -> bool,
) -> bool {
    exists|states: Seq<Values>| traces(states, before, after, items, step)
}

/// No step leaves the column values as they are.
pub proof fn lemma_chained_empty<T>(before: Values, step: spec_fn(Values, Values, T) -> bool)
    ensures
        chained(before, before, Seq::<T>::empty(), step),
{
    assert(traces(seq![before], before, before, Seq::<T>::empty(), step));
}

/// One more step extends a chain by one item.
pub proof fn lemma_chained_push<T>(
    before: Values,
    mid: Values,
    after: Values,
    items: Seq<T>,
    item: T,
    step: spec_fn(Values, Values, T) -> bool,
)
    requires
        chained(before, mid, items, step),
        step(mid, after, item),
    ensures
        chained(before, after, items.push(item), step),
{
    let states = choose|states: Seq<Values>| traces(states, before, mid, items, step);
    let longer = items.push(item);
    let extended = states.push(after);
    assert forall|i: int| 0 <= i < longer.len() implies #[trigger] links(
        extended,
        longer,
        step,
        i,
    ) by {
        if i < items.len() {
            assert(links(states, items, step, i));
        }
    }
    assert(traces(extended, before, after, longer, step));
}

/// Whether a literal asks for a generated value.
pub open spec fn is_marker(literal: Json) -> bool {
    literal == Json::String("{{DYNAMIC}}"@)
}

/// Whether `value` is one that generation supplies for `column`: a generated
/// value for the column's declared type where the table has the column, the
/// column's name and the index where it has not.
pub open spec fn supplies(
    value: Json,
    column: Seq<char>,
    columns: Seq<ColumnModel>,
    index: nat,
) -> bool {
    match column_named(columns, column) {
        Some(info) => exists|draws: DrawsModel|
            value == #[trigger] dynamic_value(info.data_type, column, index, draws),
        None => value == Json::String(column + "_"@ + decimal(index)),
    }
}

/// Whether `value` is what a literal gives for its column: the literal
/// itself, or a generated value where the literal is the marker.
pub open spec fn fills(
    value: Json,
    literal: LiteralModel,
    columns: Seq<ColumnModel>,
    index: nat,
) -> bool {
    if is_marker(literal.value) {
        supplies(value, literal.column, columns, index)
    } else {
        value == literal.value
    }
}

/// One default: it gives its column a value only where the column has none,
/// a JSON null counting as none.
pub open spec fn default_step(
    before: Values,
    after: Values,
    literal: LiteralModel,
    columns: Seq<ColumnModel>,
    index: nat,
) -> bool {
    if !lacks_value(before, literal.column) {
        after == before
    } else {
        exists|value: Json|
            #![trigger fills(value, literal, columns, index)]
            fills(value, literal, columns, index) && after == before.insert(
                literal.column,
                Some(value),
            )
    }
}

/// One forced value: it always replaces what its column had.
pub open spec fn forced_step(
    before: Values,
    after: Values,
    literal: LiteralModel,
    columns: Seq<ColumnModel>,
    index: nat,
) -> bool {
    exists|value: Json|
        #![trigger fills(value, literal, columns, index)]
        fills(value, literal, columns, index) && after == before.insert(
            literal.column,
            Some(value),
        )
}

/// One template: its expansion always replaces what its column had.
pub open spec fn template_step(
    before: Values,
    after: Values,
    template: TemplateModel,
    index: nat,
) -> bool {
    exists|identifier: Seq<char>, millis: int|
        after == before.insert(
            template.column,
            Some(Json::String(#[trigger] expanded(template.template, index, identifier, millis))),
        )
}

/// One column of a unique index: where the table declares it not-null and it
/// has no value yet, a JSON null counting as none, it gets a generated one.
pub open spec fn backfill_step(
    before: Values,
    after: Values,
    column: Seq<char>,
    columns: Seq<ColumnModel>,
    index: nat,
) -> bool {
    match column_named(columns, column) {
        Some(info) => if info.not_null && lacks_value(before, column) {
            exists|draws: DrawsModel|
                after == before.insert(
                    column,
                    Some(#[trigger] dynamic_value(info.data_type, column, index, draws)),
                )
        } else {
            after == before
        },
        None => after == before,
    }
}

/// The step that applies one default.
pub open spec fn default_rule(columns: Seq<ColumnModel>, index: nat) -> spec_fn(
    Values,
    Values,
    LiteralModel,
) -> bool {
    |before: Values, after: Values, literal: LiteralModel|
        default_step(before, after, literal, columns, index)
}

/// The step that applies one forced value.
pub open spec fn forced_rule(columns: Seq<ColumnModel>, index: nat) -> spec_fn(
    Values,
    Values,
    LiteralModel,
) -> bool {
    |before: Values, after: Values, literal: LiteralModel|
        forced_step(before, after, literal, columns, index)
}

/// The step that applies one template.
pub open spec fn template_rule(index: nat) -> spec_fn(Values, Values, TemplateModel) -> bool {
    |before: Values, after: Values, template: TemplateModel|
        template_step(before, after, template, index)
}

/// The step that backfills one column of a unique index.
pub open spec fn backfill_rule(columns: Seq<ColumnModel>, index: nat) -> spec_fn(
    Values,
    Values,
    Seq<char>,
) -> bool {
    |before: Values, after: Values, column: Seq<char>|
        backfill_step(before, after, column, columns, index)
}

fn marks_dynamic(literal: &JsonValue) -> (marker: bool)
    ensures
        marker == is_marker(literal@),
{
    match literal {
        JsonValue::String(text) => text.as_str().eq("{{DYNAMIC}}"),
        _ => false,
    }
}

fn supply(column: &str, columns: &Vec<ColumnInfo>, index: usize) -> (value: JsonValue)
    ensures
        supplies(value@, column@, column_models(columns@), index as nat),
{
    match find_column(columns, column) {
        Some(info) => generate_dynamic_value(info.data_type.as_str(), column, index),
        None => {
            let mut out = String::new();
            out.append(column);
            out.append("_");
            push_decimal(&mut out, index as u64);
            assert(out@ =~= column@ + "_"@ + decimal(index as nat));
            JsonValue::String(out)
        },
    }
}

fn literal_value(literal: &ColumnLiteral, columns: &Vec<ColumnInfo>, index: usize) -> (value:
    JsonValue)
    ensures
        fills(value@, literal@, column_models(columns@), index as nat),
{
    if marks_dynamic(&literal.value) {
        supply(literal.column.as_str(), columns, index)
    } else {
        literal.value.clone()
    }
}

/// Applies the defaults in order: each gives its column a value only where
/// the column has none.
pub fn apply_defaults(
    row: &mut Row,
    defaults: &Vec<ColumnLiteral>,
    columns: &Vec<ColumnInfo>,
    index: usize,
)
    ensures
        chained(
            old(row)@,
            final(row)@,
            literal_models(defaults@),
            default_rule(column_models(columns@), index as nat),
        ),
{
    let ghost start = row@;
    let ghost all = literal_models(defaults@);
    let ghost rule = default_rule(column_models(columns@), index as nat);
    let mut i: usize = 0;
    proof {
        assert(all.take(0) =~= Seq::<LiteralModel>::empty());
        lemma_chained_empty(start, rule);
    }
    while i < defaults.len()
        invariant
            i <= defaults.len(),
            all == literal_models(defaults@),
            rule == default_rule(column_models(columns@), index as nat),
            chained(start, row@, all.take(i as int), rule),
        decreases defaults.len() - i,
    {
        let ghost mid = row@;
        let literal = &defaults[i];
        if row.lacks_value(literal.column.as_str()) {
            let value = literal_value(literal, columns, index);
            assert(fills(value@, literal@, column_models(columns@), index as nat));
            row.insert(literal.column.clone(), Some(value));
        }
        proof {
            assert(rule(mid, row@, all[i as int]));
            lemma_chained_push(start, mid, row@, all.take(i as int), all[i as int], rule);
            assert(all.take(i as int).push(all[i as int]) =~= all.take(i + 1));
        }
        i += 1;
    }
    proof {
        assert(all.take(i as int) =~= all);
    }
}

/// Applies the forced values in order: each replaces what its column had.
pub fn apply_forced(
    row: &mut Row,
    forced: &Vec<ColumnLiteral>,
    columns: &Vec<ColumnInfo>,
    index: usize,
)
    ensures
        chained(
            old(row)@,
            final(row)@,
            literal_models(forced@),
            forced_rule(column_models(columns@), index as nat),
        ),
{
    let ghost start = row@;
    let ghost all = literal_models(forced@);
    let ghost rule = forced_rule(column_models(columns@), index as nat);
    let mut i: usize = 0;
    proof {
        assert(all.take(0) =~= Seq::<LiteralModel>::empty());
        lemma_chained_empty(start, rule);
    }
    while i < forced.len()
        invariant
            i <= forced.len(),
            all == literal_models(forced@),
            rule == forced_rule(column_models(columns@), index as nat),
            chained(start, row@, all.take(i as int), rule),
        decreases forced.len() - i,
    {
        let ghost mid = row@;
        let literal = &forced[i];
        let value = literal_value(literal, columns, index);
        assert(fills(value@, literal@, column_models(columns@), index as nat));
        row.insert(literal.column.clone(), Some(value));
        proof {
            assert(rule(mid, row@, all[i as int]));
            lemma_chained_push(start, mid, row@, all.take(i as int), all[i as int], rule);
            assert(all.take(i as int).push(all[i as int]) =~= all.take(i + 1));
        }
        i += 1;
    }
    proof {
        assert(all.take(i as int) =~= all);
    }
}

/// Applies the templates in order: each expansion replaces what its column
/// had. Every template gets a fresh identifier and reads the clock anew.
pub fn apply_templates(row: &mut Row, templates: &Vec<ColumnTemplate>, index: usize)
    ensures
        chained(
            old(row)@,
            final(row)@,
            template_models(templates@),
            template_rule(index as nat),
        ),
{
    let ghost start = row@;
    let ghost all = template_models(templates@);
    let ghost rule = template_rule(index as nat);
    let mut i: usize = 0;
    proof {
        assert(all.take(0) =~= Seq::<TemplateModel>::empty());
        lemma_chained_empty(start, rule);
    }
    while i < templates.len()
        invariant
            i <= templates.len(),
            all == template_models(templates@),
            rule == template_rule(index as nat),
            chained(start, row@, all.take(i as int), rule),
        decreases templates.len() - i,
    {
        let ghost mid = row@;
        let template = &templates[i];
        let identifier = random_identifier();
        let millis = clock_millis();
        let text = expand_template(template.template.as_str(), index, identifier.as_str(), millis);
        assert(text@ == expanded(template@.template, index as nat, identifier@, millis as int));
        row.insert(template.column.clone(), Some(JsonValue::String(text)));
        proof {
            assert(rule(mid, row@, all[i as int]));
            lemma_chained_push(start, mid, row@, all.take(i as int), all[i as int], rule);
            assert(all.take(i as int).push(all[i as int]) =~= all.take(i + 1));
        }
        i += 1;
    }
    proof {
        assert(all.take(i as int) =~= all);
    }
}

/// Backfills the columns of unique indexes in order: a column that the table
/// declares not-null and that has no value gets a generated one.
pub fn backfill_unique(
    row: &mut Row,
    unique_columns: &Vec<String>,
    columns: &Vec<ColumnInfo>,
    index: usize,
)
    ensures
        chained(
            old(row)@,
            final(row)@,
            texts(unique_columns@),
            backfill_rule(column_models(columns@), index as nat),
        ),
{
    let ghost start = row@;
    let ghost all = texts(unique_columns@);
    let ghost rule = backfill_rule(column_models(columns@), index as nat);
    let mut i: usize = 0;
    proof {
        assert(all.take(0) =~= Seq::<Seq<char>>::empty());
        lemma_chained_empty(start, rule);
    }
    while i < unique_columns.len()
        invariant
            i <= unique_columns.len(),
            all == texts(unique_columns@),
            rule == backfill_rule(column_models(columns@), index as nat),
            chained(start, row@, all.take(i as int), rule),
        decreases unique_columns.len() - i,
    {
        let ghost mid = row@;
        let column = &unique_columns[i];
        match find_column(columns, column.as_str()) {
            Some(info) => {
                if info.not_null && row.lacks_value(column.as_str()) {
                    let value = generate_dynamic_value(
                        info.data_type.as_str(),
                        column.as_str(),
                        index,
                    );
                    row.insert(column.clone(), Some(value));
                }
            },
            None => {},
        }
        proof {
            assert(rule(mid, row@, all[i as int]));
            lemma_chained_push(start, mid, row@, all.take(i as int), all[i as int], rule);
            assert(all.take(i as int).push(all[i as int]) =~= all.take(i + 1));
        }
        i += 1;
    }
    proof {
        assert(all.take(i as int) =~= all);
    }
}

/// The model of what decides the column values of a record.
pub struct PlanModel {
    pub rules: Seq<RuleModel>,
    pub defaults: Seq<LiteralModel>,
    pub forced: Seq<LiteralModel>,
    pub templates: Seq<TemplateModel>,
    pub columns: Seq<ColumnModel>,
    pub unique_columns: Seq<Seq<char>>,
}

/// Whether `after` holds the column values of the record `doc` at `index`:
/// the mapping, then the defaults, the forced values, the templates and the
/// backfill of unique columns, each stage working on what the one before left.
pub open spec fn synthesized(doc: Json, after: Values, index: nat, plan: PlanModel) -> bool {
    exists|defaulted: Values, overridden: Values, templated: Values|
        #![trigger
            chained(defaulted, overridden, plan.forced, forced_rule(plan.columns, index)),
            chained(templated, after, plan.unique_columns, backfill_rule(plan.columns, index)),
        ]
        {
            &&& chained(
                mapped(doc, plan.rules),
                defaulted,
                plan.defaults,
                default_rule(plan.columns, index),
            )
            &&& chained(defaulted, overridden, plan.forced, forced_rule(plan.columns, index))
            &&& chained(overridden, templated, plan.templates, template_rule(index))
            &&& chained(
                templated,
                after,
                plan.unique_columns,
                backfill_rule(plan.columns, index),
            )
        }
}

/// Builds the column values of the record at `index`.
pub fn synthesize(
    record: &JsonValue,
    index: usize,
    mapping: &Vec<MappingRule>,
    defaults: &Vec<ColumnLiteral>,
    forced: &Vec<ColumnLiteral>,
    dynamic: &Vec<ColumnTemplate>,
    columns: &Vec<ColumnInfo>,
    unique_columns: &Vec<String>,
) -> (row: Row)
    ensures
        synthesized(
            record@,
            row@,
            index as nat,
            PlanModel {
                rules: rule_models(mapping@),
                defaults: literal_models(defaults@),
                forced: literal_models(forced@),
                templates: template_models(dynamic@),
                columns: column_models(columns@),
                unique_columns: texts(unique_columns@),
            },
        ),
{
    let ghost plan = PlanModel {
        rules: rule_models(mapping@),
        defaults: literal_models(defaults@),
        forced: literal_models(forced@),
        templates: template_models(dynamic@),
        columns: column_models(columns@),
        unique_columns: texts(unique_columns@),
    };
    let mut row = apply_mapping(record, mapping);
    apply_defaults(&mut row, defaults, columns, index);
    let ghost defaulted = row@;
    apply_forced(&mut row, forced, columns, index);
    let ghost overridden = row@;
    apply_templates(&mut row, dynamic, index);
    let ghost templated = row@;
    backfill_unique(&mut row, unique_columns, columns, index);
    proof {
        assert(chained(
            mapped(record@, plan.rules),
            defaulted,
            plan.defaults,
            default_rule(plan.columns, index as nat),
        ));
        assert(chained(
            defaulted,
            overridden,
            plan.forced,
            forced_rule(plan.columns, index as nat),
        ));
        assert(chained(overridden, templated, plan.templates, template_rule(index as nat)));
        assert(chained(
            templated,
            row@,
            plan.unique_columns,
            backfill_rule(plan.columns, index as nat),
        ));
        assert(synthesized(record@, row@, index as nat, plan));
    }
    row
}

} // verus!
