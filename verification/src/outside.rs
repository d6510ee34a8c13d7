//! Calls into other crates. Verus takes the contracts in this file on
//! trust: each one restates what the called function is documented to do.

use crate::text::{
    optional_pair_view, optional_pairs_view, optional_view, pair_views, text_views,
};
use vstd::prelude::*;
use vstd::string::*;

verus! {

/// `num::ToPrimitive::to_i64` on a `u64`: the same number as an `i64` when
/// it is at most `i64::MAX`, and `None` above that.
#[verifier::external_body]
pub(crate) fn u64_to_i64(value: u64) -> (r: Option<i64>)
    ensures
        match r {
            Some(v) => v == value,
            None => value > i64::MAX,
        },
{
    num::ToPrimitive::to_i64(&value)
}

/// `num::ToPrimitive::to_u64` on an `i64`: the same number as a `u64` when
/// it is not negative, and `None` below zero.
#[verifier::external_body]
pub(crate) fn i64_to_u64(value: i64) -> (r: Option<u64>)
    ensures
        match r {
            Some(v) => v == value,
            None => value < 0,
        },
{
    num::ToPrimitive::to_u64(&value)
}

/// A member of a JSON object, as far as this crate reads it.
#[derive(Clone, Debug, PartialEq, Eq)]
pub enum Scalar {
    Null,
    Text(String),
    /// A boolean, a number, an array or an object.
    Other,
}

/// The mathematical value of a `Scalar`.
pub enum ScalarView {
    Null,
    Text(Seq<char>),
    Other,
}

impl View for Scalar {
    type V = ScalarView;

    open spec fn view(&self) -> ScalarView {
        match *self {
            Scalar::Null => ScalarView::Null,
            Scalar::Text(s) => ScalarView::Text(s@),
            Scalar::Other => ScalarView::Other,
        }
    }
}

/// The values of a sequence of object members, in order.
pub open spec fn member_views(s: Seq<(String, Scalar)>) -> Seq<(Seq<char>, ScalarView)> {
    Seq::new(s.len(), |i: int| (s[i].0@, s[i].1@))
}

/// The compact JSON text that `serde_json` writes for an object whose
/// members are the given names with the given texts as values.
pub uninterp spec fn json_object_text(members: Seq<(Seq<char>, Seq<char>)>) -> Seq<char>;

/// The members that `serde_json` reads from a text as a JSON object, or
/// `None` when it does not read the text as an object.
pub uninterp spec fn json_object_members(text: Seq<char>) -> Option<Seq<(Seq<char>, ScalarView)>>;

/// The compact JSON text that `serde_json` writes for an array of texts.
pub uninterp spec fn json_array_text(items: Seq<Seq<char>>) -> Seq<char>;

/// `Display` of a `serde_json::Value::Object` built from the members:
/// the object as compact JSON. The result depends on the members alone.
#[verifier::external_body]
pub(crate) fn json_object(members: &Vec<(String, String)>) -> (r: String)
    ensures
        r@ == json_object_text(pair_views(members@)),
{
    let map: serde_json::Map<String, serde_json::Value> = members.iter().map(
        |m| (m.0.clone(), serde_json::Value::String(m.1.clone())),
    ).collect();
    serde_json::Value::Object(map).to_string()
}

/// `serde_json::from_str` into a `serde_json::Map`: the members of the
/// object that the text holds, each value told apart as null, a text or
/// anything else; `None` when the text is not one JSON object. The result
/// depends on the text alone.
#[verifier::external_body]
pub(crate) fn json_members(text: &str) -> (r: Option<Vec<(String, Scalar)>>)
    ensures
        match r {
            Some(members) => json_object_members(text@) == Some(member_views(members@)),
            None => json_object_members(text@) is None,
        },
{
    let map = serde_json::from_str::<serde_json::Map<String, serde_json::Value>>(text).ok()?;
    Some(map.into_iter().map(|(name, value)| (name, match value {
        serde_json::Value::Null => Scalar::Null,
        serde_json::Value::String(s) => Scalar::Text(s),
        serde_json::Value::Bool(_) => Scalar::Other,
        serde_json::Value::Number(_) => Scalar::Other,
        serde_json::Value::Array(_) => Scalar::Other,
        serde_json::Value::Object(_) => Scalar::Other,
    })).collect())
}

/// `Display` of a `serde_json::Value::Array` of texts: the array as
/// compact JSON. The result depends on the items alone.
#[verifier::external_body]
pub(crate) fn json_array(items: &Vec<String>) -> (r: String)
    ensures
        r@ == json_array_text(text_views(items@)),
{
    let values: Vec<serde_json::Value> = items.iter().map(
        |item| serde_json::Value::String(item.clone()),
    ).collect();
    serde_json::Value::Array(values).to_string()
}

/// Type and subtype of the media type that `mime` reads from a text, both
/// in lower case, or `None` when it reads none.
pub uninterp spec fn mime_names(text: Seq<char>) -> Option<(Seq<char>, Seq<char>)>;

/// The pairs of names and values that `serde_urlencoded` reads from a
/// query, or `None` when it reads none.
pub uninterp spec fn query_pairs(text: Seq<char>) -> Option<Seq<(Seq<char>, Seq<char>)>>;

/// The query that `serde_urlencoded` writes for pairs of names and values,
/// or `None` when it writes none.
pub uninterp spec fn query_text(pairs: Seq<(Seq<char>, Seq<char>)>) -> Option<Seq<char>>;

/// What `urlencoding` decodes a percent-encoded text to, or `None` when
/// the decoded bytes are not a text.
pub uninterp spec fn percent_decoded(text: Seq<char>) -> Option<Seq<char>>;

/// The point in time, in nanoseconds since the Unix epoch, that `time`
/// reads from a text in the format of RFC 3339, if any.
pub uninterp spec fn rfc3339_instant(text: Seq<char>) -> Option<i128>;

/// The compact JSON text that `serde_json` writes for an object of two
/// members: first a number under one name, then an array of texts under
/// another; `None` when it writes none.
pub uninterp spec fn json_chunk_text(
    number_name: Seq<char>,
    number: u64,
    items_name: Seq<char>,
    items: Seq<Seq<char>>,
) -> Option<Seq<char>>;

/// `str::parse` to a `mime::Mime`, then `Mime::type_` and `Mime::subtype`:
/// the two names of the media type that the text holds, as the crate keeps
/// them, in lower case. The result depends on the text alone.
#[verifier::external_body]
pub(crate) fn mime_parts(text: &str) -> (r: Option<(String, String)>)
    ensures
        optional_pair_view(r) == mime_names(text@),
{
    let parsed = text.parse::<mime::Mime>().ok()?;
    Some((parsed.type_().as_str().to_owned(), parsed.subtype().as_str().to_owned()))
}

/// `serde_urlencoded::from_str` to a list of pairs: the names and values
/// of a query, decoded, in order. The result depends on the text alone.
#[verifier::external_body]
pub(crate) fn query_decode(text: &str) -> (r: Option<Vec<(String, String)>>)
    ensures
        optional_pairs_view(r) == query_pairs(text@),
{
    serde_urlencoded::from_str::<Vec<(String, String)>>(text).ok()
}

/// `serde_urlencoded::to_string` of a list of pairs: the query that holds
/// these names and values, encoded, in order. The result depends on the
/// pairs alone.
#[verifier::external_body]
pub(crate) fn query_encode(pairs: &Vec<(String, String)>) -> (r: Option<String>)
    ensures
        optional_view(r) == query_text(pair_views(pairs@)),
{
    serde_urlencoded::to_string(pairs).ok()
}

/// `urlencoding::decode`: the text with each percent-encoded byte
/// replaced by that byte. The result depends on the text alone.
#[verifier::external_body]
pub(crate) fn percent_decode(text: &str) -> (r: Option<String>)
    ensures
        optional_view(r) == percent_decoded(text@),
{
    urlencoding::decode(text).ok().map(|decoded| decoded.into_owned())
}

/// `time::OffsetDateTime::parse` with the format `Rfc3339`, then
/// `unix_timestamp_nanos`: the point in time that the text names. The
/// result depends on the text alone.
#[verifier::external_body]
pub(crate) fn parse_rfc3339(text: &str) -> (r: Option<i128>)
    ensures
        r == rfc3339_instant(text@),
{
    let format = time::format_description::well_known::Rfc3339;
    time::OffsetDateTime::parse(text, &format).ok().map(|t| t.unix_timestamp_nanos())
}

/// `serde_json::Serializer` writing a map of two entries, first the
/// number and then the items, each under its name. The result depends on
/// the arguments alone.
#[verifier::external_body]
pub(crate) fn json_chunk(number_name: &str, number: u64, items_name: &str, items: &Vec<String>) -> (r:
    Option<String>)
    ensures
        optional_view(r) == json_chunk_text(number_name@, number, items_name@, text_views(items@)),
{
    let mut out: Vec<u8> = Vec::new();
    let mut serializer = serde_json::Serializer::new(&mut out);
    let mut map = serde::Serializer::serialize_map(&mut serializer, Some(2)).ok()?;
    serde::ser::SerializeMap::serialize_entry(&mut map, number_name, &number).ok()?;
    serde::ser::SerializeMap::serialize_entry(&mut map, items_name, items).ok()?;
    serde::ser::SerializeMap::end(map).ok()?;
    String::from_utf8(out).ok()
}

} // verus!
