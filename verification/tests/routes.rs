use config_service::config_store::{ConfigStoreError, Request, Response};
use config_service::models::Pair;
use config_service::pair_map::PairMap;
use config_service::routes::{
    self, handle_store_result, DeletePair, GetPair, NewPair, STATUS_FAILED, STATUS_OK,
};

fn pair(name: &str, value: &str) -> Pair {
    Pair { name: name.to_string(), value: value.to_string() }
}

fn failure(message: &str) -> ConfigStoreError {
    ConfigStoreError::Custom { err_str: message.to_string() }
}

fn body_of(response: Response) -> String {
    match handle_store_result(Ok(response)) {
        Ok(body) => body,
        Err(_) => panic!("a success was turned into a failure"),
    }
}

#[test]
fn status_codes() {
    assert_eq!(STATUS_OK, 0);
    assert_eq!(STATUS_FAILED, 1);
}

#[test]
fn get_lists_the_names_of_the_query() {
    let query = GetPair { keys: " x,missing ".to_string() };
    match routes::get(&query) {
        Request::FetchPairs(keys) => assert_eq!(keys, vec!["x", "missing"]),
        _ => panic!("not a fetch of pairs"),
    }
}

#[test]
fn get_of_an_empty_query_asks_for_the_empty_name() {
    let query = GetPair { keys: String::new() };
    match routes::get(&query) {
        Request::FetchPairs(keys) => assert_eq!(keys, vec![""]),
        _ => panic!("not a fetch of pairs"),
    }
}

#[test]
fn add_asks_to_add_the_pair() {
    let payload = NewPair { name: "x".to_string(), value: "1".to_string() };
    match routes::add(&payload) {
        Request::AddPair(name, value) => {
            assert_eq!(name, "x");
            assert_eq!(value, "1");
        }
        _ => panic!("not an add"),
    }
}

#[test]
fn update_asks_to_update_the_pair() {
    let payload = NewPair { name: "x".to_string(), value: "2".to_string() };
    match routes::update(&payload) {
        Request::UpdatePair(name, value) => {
            assert_eq!(name, "x");
            assert_eq!(value, "2");
        }
        _ => panic!("not an update"),
    }
}

#[test]
fn delete_asks_to_delete_the_name() {
    let payload = DeletePair { name: "x".to_string() };
    match routes::delete(&payload) {
        Request::DeletePair(name) => assert_eq!(name, "x"),
        _ => panic!("not a delete"),
    }
}

#[test]
fn all_asks_for_everything() {
    assert!(matches!(routes::all(), Request::FetchAll()));
}

#[test]
fn body_of_a_write_that_went_through() {
    assert_eq!(body_of(Response::Done(())), "{\"statusCode\":0,\"data\":true}");
}

#[test]
fn body_of_one_pair() {
    let map = PairMap::from_pairs(vec![pair("x", "1")]);
    assert_eq!(body_of(Response::Pairs(map)), "{\"statusCode\":0,\"data\":{\"x\":\"1\"}}");
}

#[test]
fn body_of_no_pairs() {
    assert_eq!(body_of(Response::Pairs(PairMap::new())), "{\"statusCode\":0,\"data\":{}}");
}

#[test]
fn body_lists_pairs_in_the_order_of_the_entries() {
    let map = PairMap::from_pairs(vec![pair("b", "2"), pair("a", "1"), pair("c", "3")]);
    assert_eq!(
        body_of(Response::Pairs(map)),
        "{\"statusCode\":0,\"data\":{\"b\":\"2\",\"a\":\"1\",\"c\":\"3\"}}"
    );
}

#[test]
fn body_escapes_names_and_values() {
    let map = PairMap::from_pairs(vec![pair("qu\"ote", "line\nbreak\\"), pair("tab\t", "\u{1}")]);
    assert_eq!(
        body_of(Response::Pairs(map)),
        "{\"statusCode\":0,\"data\":{\"qu\\\"ote\":\"line\\nbreak\\\\\",\"tab\\t\":\"\\u0001\"}}"
    );
}

#[test]
fn body_keeps_long_and_non_ascii_text() {
    let long = "v".repeat(100);
    let map = PairMap::from_pairs(vec![pair("clé", &long), pair("名前", "値")]);
    assert_eq!(
        body_of(Response::Pairs(map)),
        format!("{{\"statusCode\":0,\"data\":{{\"clé\":\"{}\",\"名前\":\"値\"}}}}", long)
    );
}

#[test]
fn body_of_pairs_named_like_the_envelope() {
    let map = PairMap::from_pairs(vec![pair("statusCode", "7"), pair("data", "d")]);
    assert_eq!(
        body_of(Response::Pairs(map)),
        "{\"statusCode\":0,\"data\":{\"statusCode\":\"7\",\"data\":\"d\"}}"
    );
}

#[test]
fn a_failure_is_handed_on() {
    match handle_store_result(Err(failure("boom"))) {
        Err(ConfigStoreError::Custom { err_str }) => assert_eq!(err_str, "boom"),
        Ok(_) => panic!("a failure was turned into a success"),
    }
}

#[test]
fn body_of_a_failure() {
    assert_eq!(
        failure("boom").error_response(),
        "{\"statusCode\":1,\"statusMessage\":\"boom\"}"
    );
}

#[test]
fn body_of_a_failure_escapes_the_message() {
    assert_eq!(
        failure("Duplicate entry 'x' for key \"PRIMARY\"").error_response(),
        "{\"statusCode\":1,\"statusMessage\":\"Duplicate entry 'x' for key \\\"PRIMARY\\\"\"}"
    );
}

#[test]
fn body_of_a_failure_without_a_message() {
    assert_eq!(failure("").error_response(), "{\"statusCode\":1,\"statusMessage\":\"\"}");
}
