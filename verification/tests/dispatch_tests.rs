use noise_bridge::dispatch::{process_add, process_delete, process_drop, process_query};
use noise_bridge::json::JsonVal;
use noise_bridge::msg::{build_request, Message};

fn text(s: &str) -> JsonVal {
    JsonVal::Text(s.to_string())
}

fn error_entry(e: &str) -> JsonVal {
    JsonVal::Object(vec![("error".to_string(), text(e))])
}

#[test]
fn add_reports_each_item_in_order() {
    let outcomes = vec![
        Ok("id-1".to_string()),
        Err("bad json".to_string()),
        Ok("id-2".to_string()),
    ];
    let r = process_add(outcomes, Ok(()));
    assert_eq!(
        r,
        Message::ResponseOk(JsonVal::Array(vec![
            text("id-1"),
            error_entry("bad json"),
            text("id-2"),
        ]))
    );
}

#[test]
fn add_flush_failure_discards_item_results() {
    let outcomes = vec![Ok("id-1".to_string()), Ok("id-2".to_string())];
    let r = process_add(outcomes, Err("disk full".to_string()));
    assert_eq!(r, Message::ResponseError("disk full".to_string()));
}

#[test]
fn delete_reports_found_and_missing_items() {
    let outcomes = vec![Ok(true), Ok(false), Err("locked".to_string())];
    let r = process_delete(outcomes, Ok(()));
    assert_eq!(
        r,
        Message::ResponseOk(JsonVal::Array(vec![
            JsonVal::True,
            JsonVal::False,
            error_entry("locked"),
        ]))
    );
}

#[test]
fn delete_flush_failure_discards_item_results() {
    let r = process_delete(vec![Ok(true)], Err("sync failed".to_string()));
    assert_eq!(r, Message::ResponseError("sync failed".to_string()));
}

#[test]
fn query_results_are_stored_reversed() {
    let r = process_query(Ok(vec![text("x"), text("y"), text("z")]));
    assert_eq!(
        r,
        Message::ResponseOk(JsonVal::Array(vec![text("z"), text("y"), text("x")]))
    );
}

#[test]
fn query_failure_becomes_an_error_response() {
    let r = process_query(Err("parse error".to_string()));
    assert_eq!(r, Message::ResponseError("parse error".to_string()));
}

#[test]
fn drop_outcome_maps_to_a_response() {
    assert_eq!(process_drop(Ok(())), Message::ResponseOk(JsonVal::True));
    assert_eq!(
        process_drop(Err("no such index".to_string())),
        Message::ResponseError("no such index".to_string())
    );
}

#[test]
fn requests_are_built_from_type_codes() {
    assert_eq!(
        build_request(0, vec!["docs".to_string()], true),
        Ok(Message::OpenIndex("docs".to_string(), true))
    );
    assert_eq!(
        build_request(1, vec!["docs".to_string()], false),
        Ok(Message::DropIndex("docs".to_string()))
    );
    assert_eq!(
        build_request(2, vec!["{}".to_string(), "{}".to_string()], false),
        Ok(Message::Add(vec!["{}".to_string(), "{}".to_string()]))
    );
    assert_eq!(
        build_request(3, vec!["id-1".to_string()], false),
        Ok(Message::Delete(vec!["id-1".to_string()]))
    );
    assert_eq!(
        build_request(4, vec!["find {}".to_string()], false),
        Ok(Message::Query("find {}".to_string(), None))
    );
    assert_eq!(
        build_request(4, vec!["find {}".to_string(), "params".to_string()], false),
        Ok(Message::Query(
            "find {}".to_string(),
            Some("params".to_string())
        ))
    );
    assert_eq!(build_request(5, Vec::new(), false), Ok(Message::Close));
}

#[test]
fn unknown_type_code_is_refused() {
    assert_eq!(
        build_request(9, Vec::new(), false),
        Err("unknown message type".to_string())
    );
}
