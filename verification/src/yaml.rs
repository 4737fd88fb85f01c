//! Trusted bridge to `serde_yaml`: parsing a front-matter block into a YAML
//! value and reading it field by field.  Each value is modelled by the shape
//! the schema reads (`YamlV`), a parsed document by the string-keyed fields
//! of its top-level mapping, and every accessor's contract is exact over
//! those models — so the schema logic in `metadata`, which is verified, can
//! state precisely which documents it accepts and what it builds from them.
//!
//! The intended models: `yaml_of` maps a null to `Null`, a string to `Str`
//! of its text, a boolean to `Bool`, a sequence to `List` of its elements'
//! models, and everything else (numbers, mappings, tagged values) to
//! `Other`; `yaml_fields_of` maps a mapping to its string-keyed entries and
//! any other value to the empty map; `yaml_doc_of` maps a text to `Some` of
//! its parse's fields, or `None` when parsing fails.

use vstd::prelude::*;

verus! {

#[verifier::external_type_specification]
#[verifier::external_body]
pub struct ExYamlValue(serde_yaml::Value);

/// The shape of one YAML value, as the front-matter schema reads it.
#[verifier::ext_equal]
pub ghost enum YamlV {
    Null,
    Str(Seq<char>),
    Bool(bool),
    List(Seq<YamlV>),
    /// A number, a nested mapping, a tagged value — anything the schema
    /// treats as ill-typed wherever a string, boolean or list is wanted.
    Other,
}

/// What one `serde_yaml::Value` holds, in the shape `YamlV` models.
pub uninterp spec fn yaml_of(v: serde_yaml::Value) -> YamlV;

/// The string-keyed fields of a `serde_yaml::Value` mapping; the empty map
/// when the value is not a mapping.
pub uninterp spec fn yaml_fields_of(v: serde_yaml::Value) -> Map<Seq<char>, YamlV>;

/// What parsing a YAML document yields: the fields of its top-level value,
/// or `None` when the text is not well-formed YAML.  The result depends on
/// the text alone.
pub uninterp spec fn yaml_doc_of(s: Seq<char>) -> Option<Map<Seq<char>, YamlV>>;

/// Relies on `serde_yaml::from_str`: parses a YAML document, deterministic
/// in the text.  A parse error is handed back as its description.
#[verifier::external_body]
pub(crate) fn yaml_parse(s: &str) -> (r: Result<serde_yaml::Value, String>)
    ensures
        match r {
            Ok(v) => yaml_doc_of(s@) == Some(yaml_fields_of(v)),
            Err(_) => yaml_doc_of(s@) is None,
        },
{
    serde_yaml::from_str(s).map_err(|e| e.to_string())
}

/// Relies on `serde_yaml::Value::get`: looks a key up in a YAML mapping
/// (`None` when the value is not a mapping or the key is absent).
#[verifier::external_body]
pub(crate) fn yaml_get<'a>(v: &'a serde_yaml::Value, key: &str) -> (r: Option<
    &'a serde_yaml::Value,
>)
    ensures
        match r {
            Some(f) => yaml_fields_of(*v).contains_key(key@) && yaml_of(*f) == yaml_fields_of(
                *v,
            )[key@],
            None => !yaml_fields_of(*v).contains_key(key@),
        },
{
    v.get(key)
}

/// Relies on `serde_yaml::Value::is_null`.
#[verifier::external_body]
pub(crate) fn yaml_is_null(v: &serde_yaml::Value) -> (r: bool)
    ensures
        r == (yaml_of(*v) is Null),
{
    v.is_null()
}

/// Relies on `serde_yaml::Value::as_str`: the value's text exactly when it
/// is a string.
#[verifier::external_body]
pub(crate) fn yaml_as_str(v: &serde_yaml::Value) -> (r: Option<String>)
    ensures
        match r {
            Some(s) => yaml_of(*v) == YamlV::Str(s@),
            None => !(yaml_of(*v) is Str),
        },
{
    v.as_str().map(|s| s.to_owned())
}

/// Relies on `serde_yaml::Value::as_bool`: the value exactly when it is a
/// boolean.
#[verifier::external_body]
pub(crate) fn yaml_as_bool(v: &serde_yaml::Value) -> (r: Option<bool>)
    ensures
        match r {
            Some(b) => yaml_of(*v) == YamlV::Bool(b),
            None => !(yaml_of(*v) is Bool),
        },
{
    v.as_bool()
}

/// Relies on `serde_yaml::Value::as_sequence`: the value's elements exactly
/// when it is a sequence.
#[verifier::external_body]
pub(crate) fn yaml_as_seq(v: &serde_yaml::Value) -> (r: Option<Vec<serde_yaml::Value>>)
    ensures
        match r {
            Some(items) => yaml_of(*v) matches YamlV::List(l) && l.len() == items@.len() && (forall|
                i: int,
            |
                0 <= i < l.len() ==> yaml_of(items@[i]) == l[i]),
            None => !(yaml_of(*v) is List),
        },
{
    v.as_sequence().cloned()
}

} // verus!
