//! From a request's payload to the operation it asks for, and from the
//! outcome of an operation to the body of the response.

use crate::config_store::{ConfigStoreError, Request, Response};
use crate::encoding::{
    json_bool, json_bool_text, json_dump, json_number, json_number_text, json_object,
    json_object_text, json_string, json_string_text, json_text, object_insert, object_members,
    object_new,
};
use crate::pair_map::PairMap;
use crate::rows::{distinct_names, has_name, position, Row, Rows};
use crate::text::{names_of, split_commas, split_keys, trimmed};
use json::JsonValue;
use vstd::prelude::*;

verus! {

/// The status code of a response that reports success.
pub const STATUS_OK: u8 = 0;

/// The status code of a response that reports a failure.
pub const STATUS_FAILED: u8 = 1;

/// The payload of a request to add or to update a pair.
#[derive(Debug)]
pub struct NewPair {
    pub name: String,
    pub value: String,
}

/// The payload of a request to delete a pair.
#[derive(Debug)]
pub struct DeletePair {
    pub name: String,
}

/// The query of a request to fetch pairs: their names, with commas between.
#[derive(Debug)]
pub struct GetPair {
    pub keys: String,
}

/// The members of the JSON object that holds each row as a string member.
pub open spec fn string_members(rows: Rows) -> Rows {
    rows.map_values(|row: Row| (row.0, json_string_text(row.1)))
}

/// The body that reports success with `data`, given as JSON text.
pub open spec fn success_text(data: Seq<char>) -> Seq<char> {
    json_object_text(seq![("statusCode"@, json_number_text(STATUS_OK as int)), ("data"@, data)])
}

/// The body that reports a failure with its message.
pub open spec fn error_text(message: Seq<char>) -> Seq<char> {
    json_object_text(
        seq![
            ("statusCode"@, json_number_text(STATUS_FAILED as int)),
            ("statusMessage"@, json_string_text(message)),
        ],
    )
}

/// The body for a response: the pairs as an object of strings, in the
/// order of the entries, or `true` for a write that went through.
pub open spec fn response_text(response: Response) -> Seq<char> {
    match response {
        Response::Pairs(map) => success_text(json_object_text(string_members(map.rows()))),
        Response::Done(_) => success_text(json_bool_text(true)),
    }
}

/// The fetch of the names that the query lists: its text without the white
/// space at its two ends, cut at every comma.
pub fn get(query: &GetPair) -> (request: Request)
    ensures
        request matches Request::FetchPairs(keys) && names_of(keys@) == split_commas(
            trimmed(query.keys@),
        ),
{
    Request::FetchPairs(split_keys(query.keys.as_str()))
}

/// The request to add the pair.
pub fn add(pair: &NewPair) -> (request: Request)
    ensures
        request == Request::AddPair(pair.name, pair.value),
{
    Request::AddPair(pair.name.clone(), pair.value.clone())
}

/// The request to give the pair's name the pair's value.
pub fn update(pair: &NewPair) -> (request: Request)
    ensures
        request == Request::UpdatePair(pair.name, pair.value),
{
    Request::UpdatePair(pair.name.clone(), pair.value.clone())
}

/// The request to delete the pair of that name.
pub fn delete(pair: &DeletePair) -> (request: Request)
    ensures
        request == Request::DeletePair(pair.name),
{
    Request::DeletePair(pair.name.clone())
}

/// The request to fetch every pair.
pub fn all() -> (request: Request)
    ensures
        request == Request::FetchAll(),
{
    Request::FetchAll()
}

/// The JSON object with a string member for each entry, in their order.
fn pairs_value(map: &PairMap) -> (value: JsonValue)
    ensures
        json_text(value) == json_object_text(string_members(map.rows())),
{
    let mut object = object_new();
    let n: usize = map.len();
    let mut i: usize = 0;
    while i < n
        invariant
            i <= n,
            n == map.rows().len(),
            distinct_names(map.rows()),
            object_members(object) == string_members(map.rows().take(i as int)),
        decreases n - i,
    {
        let pair = map.entry(i);
        let ghost members = object_members(object);
        proof {
            let rows = map.rows();
            if has_name(members, pair.name@) {
                let j = position(members, pair.name@);
                assert(rows[j].0 != rows[i as int].0);
            }
            assert(string_members(rows.take(i + 1)) =~= members.push(
                (pair.name@, json_string_text(pair.value@)),
            ));
        }
        object_insert(&mut object, pair.name.as_str(), json_string(pair.value.as_str()));
        i = i + 1;
    }
    assert(map.rows().take(n as int) =~= map.rows());
    json_object(object)
}

/// The value that reports success with `value` as its data.
fn success_response(value: JsonValue) -> (response: JsonValue)
    ensures
        json_text(response) == success_text(json_text(value)),
{
    let ghost data = json_text(value);
    let mut object = object_new();
    object_insert(&mut object, "statusCode", json_number(STATUS_OK));
    object_insert(&mut object, "data", value);
    proof {
        reveal_strlit("statusCode");
        reveal_strlit("data");
        let first = seq![("statusCode"@, json_number_text(STATUS_OK as int))];
        assert(first[0].0.len() != "data"@.len());
        assert(object_members(object) =~= seq![
            ("statusCode"@, json_number_text(STATUS_OK as int)),
            ("data"@, data),
        ]);
    }
    json_object(object)
}

/// The value that reports a failure with `value` as its message.
fn error_response(value: String) -> (response: JsonValue)
    ensures
        json_text(response) == error_text(value@),
{
    let mut object = object_new();
    object_insert(&mut object, "statusCode", json_number(STATUS_FAILED));
    object_insert(&mut object, "statusMessage", json_string(value.as_str()));
    proof {
        reveal_strlit("statusCode");
        reveal_strlit("statusMessage");
        let first = seq![("statusCode"@, json_number_text(STATUS_FAILED as int))];
        assert(first[0].0.len() != "statusMessage"@.len());
        assert(object_members(object) =~= seq![
            ("statusCode"@, json_number_text(STATUS_FAILED as int)),
            ("statusMessage"@, json_string_text(value@)),
        ]);
    }
    json_object(object)
}

impl ConfigStoreError {
    /// The body of the response that reports this failure.
    pub fn error_response(&self) -> (body: String)
        ensures
            body@ == error_text(self@),
    {
        match self {
            ConfigStoreError::Custom { err_str } => json_dump(&error_response(err_str.clone())),
        }
    }
}

/// The body of the response to an operation that succeeded; a failure is
/// handed on as it came, to be reported by its own body.
pub fn handle_store_result(result: Result<Response, ConfigStoreError>) -> (body: Result<
    String,
    ConfigStoreError,
>)
    ensures
        match result {
            Ok(response) => body matches Ok(text) && text@ == response_text(response),
            Err(e) => body == Err::<String, ConfigStoreError>(e),
        },
{
    match result {
        Ok(response) => {
            let value = match response {
                Response::Pairs(map) => success_response(pairs_value(&map)),
                Response::Done(_) => success_response(json_bool(true)),
            };
            Ok(json_dump(&value))
        },
        Err(e) => Err(e),
    }
}

} // verus!
