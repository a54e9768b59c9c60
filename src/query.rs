use vstd::prelude::*;
use vstd::string::StrSliceExecFns;
use crate::catalogue::{Catalogue, FieldKind, FieldView, first_named, has_field};
use crate::document::{index_named, lemma_first_named_unique};

verus! {

/// An exact-term query as the host describes it.
#[derive(Clone, Debug)]
pub struct TermQueryDef {
    pub field: String,
    pub value: String,
}

/// A query checked against a catalogue. Fields are addressed by position;
/// float bounds are kept as IEEE-754 bit patterns.
#[derive(Clone, Debug)]
pub enum Query {
    /// Exact match of an unanalysed term in a text field.
    Term { field: usize, text: String },
    /// A query string in the engine's grammar; bare terms go to `fields`.
    Parsed { text: String, fields: Vec<usize> },
    /// Terms of a text field that match `pattern`, a regular expression.
    Prefix { field: usize, pattern: String },
    RangeU64 { field: usize, lower: u64, upper: u64, lower_inclusive: bool, upper_inclusive: bool },
    RangeI64 { field: usize, lower: i64, upper: i64, lower_inclusive: bool, upper_inclusive: bool },
    RangeF64 {
        field: usize,
        lower_bits: u64,
        upper_bits: u64,
        lower_inclusive: bool,
        upper_inclusive: bool,
    },
    /// Terms within `distance` edits of `term`.
    Fuzzy { field: usize, term: String, distance: u8, transposition_cost_one: bool },
    /// Terms whose start is within `distance` edits of `prefix`.
    FuzzyPrefix { field: usize, prefix: String, distance: u8, transposition_cost_one: bool },
}

/// Why a query could not be built or run.
#[derive(Clone, Debug, PartialEq, Eq)]
pub enum QueryError {
    /// No field of the catalogue has this name.
    FieldNotFound(String),
    /// The field exists, but its kind does not suit the query.
    UnsupportedFieldType(String),
    /// A prefix query was given an empty prefix.
    EmptyPrefix,
    /// A parsed query was given no default field.
    EmptyFieldList,
    /// The engine could not parse the query string; the reason is its own.
    Parse { query: String, reason: String },
}

impl QueryError {
    /// A human-readable description of the error.
    pub fn message(&self) -> String {
        match self {
            QueryError::FieldNotFound(n) => {
                "Field not found in schema: ".to_string().concat(n.as_str())
            },
            QueryError::UnsupportedFieldType(n) => {
                "Field has the wrong type for this query: ".to_string().concat(n.as_str())
            },
            QueryError::EmptyPrefix => "Prefix cannot be empty".to_string(),
            QueryError::EmptyFieldList => "At least one default field must be provided".to_string(),
            QueryError::Parse { query, reason } => {
                "Failed to parse query '".to_string().concat(query.as_str()).concat("': ").concat(
                    reason.as_str(),
                )
            },
        }
    }
}

/// `c` has a field named `name`, and the first such field is of kind `kind`.
pub open spec fn field_fits(c: Seq<FieldView>, name: Seq<char>, kind: FieldKind) -> bool {
    has_field(c, name) && c[index_named(c, name)].kind == kind
}

/// `e` is the error for a field named `name` that does not fit kind `kind`.
pub open spec fn misfit_error(c: Seq<FieldView>, name: Seq<char>, e: QueryError) -> bool {
    if has_field(c, name) {
        e matches QueryError::UnsupportedFieldType(n) && n@ == name
    } else {
        e matches QueryError::FieldNotFound(n) && n@ == name
    }
}

/// `i` is where the field named `name` of kind `kind` stands in `c`.
pub open spec fn fits_at(c: Seq<FieldView>, name: Seq<char>, kind: FieldKind, i: usize) -> bool {
    first_named(c, name, i as int) && c[i as int].kind == kind
}

/// A query on a name that no field carries fails with a field-not-found
/// error for that very name, whatever kind the query wants.
pub proof fn lemma_unknown_field_not_found(c: Seq<FieldView>, name: Seq<char>, kind: FieldKind, e: QueryError)
    requires
        !has_field(c, name),
        misfit_error(c, name, e),
    ensures
        !field_fits(c, name, kind),
        e matches QueryError::FieldNotFound(n) && n@ == name,
{
}

/// Finds the field named `name`, which must be of kind `kind`.
pub fn resolve_field(catalogue: &Catalogue, name: &str, kind: FieldKind) -> (r: Result<
    usize,
    QueryError,
>)
    ensures
        r is Ok <==> field_fits(catalogue@, name@, kind),
        r matches Ok(i) ==> fits_at(catalogue@, name@, kind, i),
        r matches Err(e) ==> misfit_error(catalogue@, name@, e),
{
    match catalogue.find(name) {
        None => Err(QueryError::FieldNotFound(name.to_string())),
        Some(i) => {
            proof {
                lemma_first_named_unique(catalogue@, name@, i as int, index_named(catalogue@, name@));
            }
            if catalogue.entry(i).kind == kind {
                Ok(i)
            } else {
                Err(QueryError::UnsupportedFieldType(name.to_string()))
            }
        },
    }
}

/// Builds an exact-term query; the field must be a text field.
pub fn build_term_query(catalogue: &Catalogue, def: &TermQueryDef) -> (r: Result<Query, QueryError>)
    ensures
        r is Ok <==> field_fits(catalogue@, def.field@, FieldKind::Text),
        r matches Ok(q) ==> q matches Query::Term { field, text } && fits_at(
            catalogue@,
            def.field@,
            FieldKind::Text,
            field,
        ) && text@ == def.value@,
        r matches Err(e) ==> misfit_error(catalogue@, def.field@, e),
{
    let field = resolve_field(catalogue, def.field.as_str(), FieldKind::Text)?;
    Ok(Query::Term { field, text: def.value.clone() })
}


/// The position of the first name in `names` that no field of `c` carries.
pub open spec fn first_unknown(c: Seq<FieldView>, names: Seq<String>, k: int) -> bool {
    &&& 0 <= k < names.len()
    &&& !has_field(c, names[k]@)
    &&& forall|j: int| 0 <= j < k ==> has_field(c, #[trigger] names[j]@)
}

/// Every name in `names` is carried by some field of `c`.
pub open spec fn all_known(c: Seq<FieldView>, names: Seq<String>) -> bool {
    forall|k: int| 0 <= k < names.len() ==> has_field(c, #[trigger] names[k]@)
}

/// Builds a query in the engine's query-string grammar, whose bare terms
/// go to `default_fields`. Each default field must exist; at least one is
/// needed. The string itself is parsed by the engine when the query runs.
pub fn build_parsed_query(catalogue: &Catalogue, query: &str, default_fields: &Vec<String>) -> (r:
    Result<Query, QueryError>)
    ensures
        r is Ok <==> default_fields@.len() > 0 && all_known(catalogue@, default_fields@),
        r matches Ok(q) ==> q matches Query::Parsed { text, fields } && text@ == query@
            && fields@.len() == default_fields@.len() && forall|k: int|
            0 <= k < fields@.len() ==> first_named(
                catalogue@,
                default_fields@[k]@,
                #[trigger] fields@[k] as int,
            ),
        r matches Err(e) ==> if default_fields@.len() == 0 {
            e == QueryError::EmptyFieldList
        } else {
            exists|k: int|
                first_unknown(catalogue@, default_fields@, k) && (e matches QueryError::FieldNotFound(
                    n,
                ) && n@ == (#[trigger] default_fields@[k])@)
        },
{
    let mut fields: Vec<usize> = Vec::new();
    let mut k: usize = 0;
    while k < default_fields.len()
        invariant
            0 <= k <= default_fields@.len(),
            fields@.len() == k,
            forall|j: int| 0 <= j < k ==> has_field(catalogue@, #[trigger] default_fields@[j]@),
            forall|j: int|
                0 <= j < k ==> first_named(
                    catalogue@,
                    default_fields@[j]@,
                    #[trigger] fields@[j] as int,
                ),
        decreases default_fields@.len() - k,
    {
        match catalogue.find(default_fields[k].as_str()) {
            Some(i) => fields.push(i),
            None => {
                let e = QueryError::FieldNotFound(default_fields[k].clone());
                assert(first_unknown(catalogue@, default_fields@, k as int));
                return Err(e);
            },
        }
        k += 1;
    }
    if fields.len() == 0 {
        return Err(QueryError::EmptyFieldList);
    }
    Ok(Query::Parsed { text: query.to_string(), fields })
}

/// A character with a meaning of its own in a regular expression.
pub open spec fn regex_meta(c: char) -> bool {
    c == '\\' || c == '.' || c == '+' || c == '*' || c == '?' || c == '(' || c == ')' || c == '|'
        || c == '[' || c == ']' || c == '{' || c == '}' || c == '^' || c == '$' || c == '#'
        || c == '&' || c == '-' || c == '~'
}

/// `s` with a backslash put before each regular-expression meta character.
pub open spec fn regex_escaped(s: Seq<char>) -> Seq<char>
    decreases s.len(),
{
    if s.len() == 0 {
        Seq::empty()
    } else if regex_meta(s.last()) {
        regex_escaped(s.drop_last()) + seq!['\\', s.last()]
    } else {
        regex_escaped(s.drop_last()).push(s.last())
    }
}

/// Relies on regex::escape: each meta character gets a backslash before it,
/// every other character is kept.
#[verifier::external_body]
fn escape_regex(s: &str) -> (r: String)
    ensures
        r@ == regex_escaped(s@),
{
    regex::escape(s)
}

/// What `str::to_lowercase` makes of a string.
pub uninterp spec fn lowercase_of(s: Seq<char>) -> Seq<char>;

/// Relies on str::to_lowercase: the lower-case form depends on the
/// characters alone.
#[verifier::external_body]
fn lowercase(s: &str) -> (r: String)
    ensures
        r@ == lowercase_of(s@),
{
    s.to_lowercase()
}

/// The pattern a prefix query uses: the escaped prefix, then any run of
/// lower-case letters and digits.
pub open spec fn prefix_pattern_of(escaped: Seq<char>) -> Seq<char> {
    escaped + "[a-z0-9]*"@
}

/// Turns an escaped, lower-cased prefix into the pattern of a prefix query.
pub fn prefix_pattern(escaped: &str) -> (r: String)
    ensures
        r@ == prefix_pattern_of(escaped@),
{
    escaped.to_string().concat("[a-z0-9]*")
}

/// Builds a prefix query on a text field. The prefix is lower-cased and
/// escaped, and may be followed by letters and digits; it must not be empty.
pub fn build_prefix_query(catalogue: &Catalogue, field: &str, prefix: &str) -> (r: Result<
    Query,
    QueryError,
>)
    ensures
        r is Ok <==> field_fits(catalogue@, field@, FieldKind::Text) && prefix@.len() > 0,
        r matches Ok(q) ==> q matches Query::Prefix { field: i, pattern } && fits_at(
            catalogue@,
            field@,
            FieldKind::Text,
            i,
        ) && pattern@ == prefix_pattern_of(regex_escaped(lowercase_of(prefix@))),
        r matches Err(e) ==> if field_fits(catalogue@, field@, FieldKind::Text) {
            e == QueryError::EmptyPrefix
        } else {
            misfit_error(catalogue@, field@, e)
        },
{
    let i = resolve_field(catalogue, field, FieldKind::Text)?;
    if prefix.unicode_len() == 0 {
        return Err(QueryError::EmptyPrefix);
    }
    let lower = lowercase(prefix);
    let escaped = escape_regex(lower.as_str());
    Ok(Query::Prefix { field: i, pattern: prefix_pattern(escaped.as_str()) })
}

/// Builds a range query on an unsigned-integer field.
pub fn build_range_u64_query(
    catalogue: &Catalogue,
    field: &str,
    lower: u64,
    upper: u64,
    lower_inclusive: bool,
    upper_inclusive: bool,
) -> (r: Result<Query, QueryError>)
    ensures
        r is Ok <==> field_fits(catalogue@, field@, FieldKind::UnsignedInt),
        r matches Ok(q) ==> q matches Query::RangeU64 { field: i, lower: l, upper: u, lower_inclusive: li, upper_inclusive: ui }
            && fits_at(catalogue@, field@, FieldKind::UnsignedInt, i) && l == lower && u == upper
            && li == lower_inclusive && ui == upper_inclusive,
        r matches Err(e) ==> misfit_error(catalogue@, field@, e),
{
    let i = resolve_field(catalogue, field, FieldKind::UnsignedInt)?;
    Ok(Query::RangeU64 { field: i, lower, upper, lower_inclusive, upper_inclusive })
}

/// Builds a range query on a signed-integer field.
pub fn build_range_i64_query(
    catalogue: &Catalogue,
    field: &str,
    lower: i64,
    upper: i64,
    lower_inclusive: bool,
    upper_inclusive: bool,
) -> (r: Result<Query, QueryError>)
    ensures
        r is Ok <==> field_fits(catalogue@, field@, FieldKind::SignedInt),
        r matches Ok(q) ==> q matches Query::RangeI64 { field: i, lower: l, upper: u, lower_inclusive: li, upper_inclusive: ui }
            && fits_at(catalogue@, field@, FieldKind::SignedInt, i) && l == lower && u == upper
            && li == lower_inclusive && ui == upper_inclusive,
        r matches Err(e) ==> misfit_error(catalogue@, field@, e),
{
    let i = resolve_field(catalogue, field, FieldKind::SignedInt)?;
    Ok(Query::RangeI64 { field: i, lower, upper, lower_inclusive, upper_inclusive })
}

/// Builds a range query on a float field; the bounds are IEEE-754 bit
/// patterns.
pub fn build_range_f64_query(
    catalogue: &Catalogue,
    field: &str,
    lower_bits: u64,
    upper_bits: u64,
    lower_inclusive: bool,
    upper_inclusive: bool,
) -> (r: Result<Query, QueryError>)
    ensures
        r is Ok <==> field_fits(catalogue@, field@, FieldKind::Float),
        r matches Ok(q) ==> q matches Query::RangeF64 { field: i, lower_bits: l, upper_bits: u, lower_inclusive: li, upper_inclusive: ui }
            && fits_at(catalogue@, field@, FieldKind::Float, i) && l == lower_bits && u == upper_bits
            && li == lower_inclusive && ui == upper_inclusive,
        r matches Err(e) ==> misfit_error(catalogue@, field@, e),
{
    let i = resolve_field(catalogue, field, FieldKind::Float)?;
    Ok(Query::RangeF64 { field: i, lower_bits, upper_bits, lower_inclusive, upper_inclusive })
}

/// Builds a fuzzy query on a text field: terms within `distance` edits of
/// `term`, a transposition counting as one edit when
/// `transposition_cost_one` holds, else as two.
pub fn build_fuzzy_query(
    catalogue: &Catalogue,
    field: &str,
    term: &str,
    distance: u8,
    transposition_cost_one: bool,
) -> (r: Result<Query, QueryError>)
    ensures
        r is Ok <==> field_fits(catalogue@, field@, FieldKind::Text),
        r matches Ok(q) ==> q matches Query::Fuzzy { field: i, term: t, distance: d, transposition_cost_one: tc }
            && fits_at(catalogue@, field@, FieldKind::Text, i) && t@ == term@ && d == distance
            && tc == transposition_cost_one,
        r matches Err(e) ==> misfit_error(catalogue@, field@, e),
{
    let i = resolve_field(catalogue, field, FieldKind::Text)?;
    Ok(Query::Fuzzy { field: i, term: term.to_string(), distance, transposition_cost_one })
}

/// Builds a fuzzy prefix query on a text field: terms whose start is within
/// `distance` edits of `prefix`.
pub fn build_fuzzy_prefix_query(
    catalogue: &Catalogue,
    field: &str,
    prefix: &str,
    distance: u8,
    transposition_cost_one: bool,
) -> (r: Result<Query, QueryError>)
    ensures
        r is Ok <==> field_fits(catalogue@, field@, FieldKind::Text),
        r matches Ok(q) ==> q matches Query::FuzzyPrefix { field: i, prefix: p, distance: d, transposition_cost_one: tc }
            && fits_at(catalogue@, field@, FieldKind::Text, i) && p@ == prefix@ && d == distance
            && tc == transposition_cost_one,
        r matches Err(e) ==> misfit_error(catalogue@, field@, e),
{
    let i = resolve_field(catalogue, field, FieldKind::Text)?;
    Ok(Query::FuzzyPrefix { field: i, prefix: prefix.to_string(), distance, transposition_cost_one })
}

} // verus!
