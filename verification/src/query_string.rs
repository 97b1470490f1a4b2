//! Query strings, as the `serde_qs` crate reads them.

use vstd::prelude::*;

use std::collections::BTreeMap;

use crate::json::{Json, JsonView};

verus! {

/// Trusted: `serde_json::Value`, the type of the values that a query string
/// is read into. Nothing of what it holds is known here.
#[verifier::external_type_specification]
#[verifier::external_body]
pub struct ExJsonValue(serde_json::Value);

/// The parameters of a query string in the order of their names, each with
/// its value, or the reason why the string cannot be read.
pub uninterp spec fn query_string_parsed(query: Seq<char>) -> Result<
    Seq<(Seq<char>, JsonView)>,
    Seq<char>,
>;

/// The names and views of a list of parameters.
pub open spec fn params_view(params: Seq<(String, Json)>) -> Seq<(Seq<char>, JsonView)> {
    Seq::new(params.len(), |i: int| (params[i].0@, params[i].1@))
}

/// The same value in the library's own type.
///
/// Trusted: moves each variant of `serde_json::Value` to the variant of the
/// same name. A number, which a query string never gives, is carried as
/// its text.
#[verifier::external_body]
fn json_of(json: serde_json::Value) -> (r: Json) {
    match json {
        serde_json::Value::Null => Json::Null,
        serde_json::Value::Bool(b) => Json::Bool(b),
        serde_json::Value::Number(n) => Json::String(n.to_string()),
        serde_json::Value::String(s) => Json::String(s),
        serde_json::Value::Array(a) => Json::Array(a.into_iter().map(json_of).collect()),
        serde_json::Value::Object(o) => Json::Object(
            o.into_iter().map(|(k, v)| (k, json_of(v))).collect(),
        ),
    }
}

/// The parameters of a query string in the order of their names.
///
/// Trusted: `serde_qs::from_str` into a map from names to JSON values, each
/// value then moved into the library's type. A parameter is a string, or a
/// list or a map of parameters: never a number. The result is named, not
/// described.
#[verifier::external_body]
pub(crate) fn parse_query_string(query: &str) -> (r: Result<Vec<(String, Json)>, String>)
    ensures
        match r {
            Ok(params) => query_string_parsed(query@) == Ok::<_, Seq<char>>(params_view(params@)),
            Err(e) => query_string_parsed(query@) == Err::<Seq<(Seq<char>, JsonView)>, _>(e@),
        },
{
    match serde_qs::from_str::<BTreeMap<String, serde_json::Value>>(query) {
        Ok(map) => Ok(map.into_iter().map(|(k, v)| (k, json_of(v))).collect()),
        Err(e) => Err(e.to_string()),
    }
}

} // verus!
