use vstd::prelude::*;

use crate::json::JsonVal;
use crate::msg::Message;

verus! {

/// The JSON entry reporting one failed item of a batch: an object with a
/// single `error` field carrying the description.
pub open spec fn is_error_entry(e: String, j: JsonVal) -> bool {
    &&& j matches JsonVal::Object(fields)
    &&& fields@.len() == 1
    &&& fields@[0].0@ == "error"@
    &&& fields@[0].1 == JsonVal::Text(e)
}

/// The JSON entry reporting one added document: its generated identifier,
/// or an error entry for that item alone.
pub open spec fn reports_add_item(o: Result<String, String>, j: JsonVal) -> bool {
    match o {
        Ok(id) => j == JsonVal::Text(id),
        Err(e) => is_error_entry(e, j),
    }
}

/// The JSON entry reporting one deleted document: whether it existed, or
/// an error entry for that item alone.
pub open spec fn reports_delete_item(o: Result<bool, String>, j: JsonVal) -> bool {
    match o {
        Ok(true) => j == JsonVal::True,
        Ok(false) => j == JsonVal::False,
        Err(e) => is_error_entry(e, j),
    }
}

/// The response owed for an add batch: with a successful flush, the array
/// of per-item reports in batch order; a failed flush discards them all
/// in favour of one error response.
pub open spec fn response_for_add(
    outcomes: Seq<Result<String, String>>,
    flush: Result<(), String>,
    r: Message,
) -> bool {
    match flush {
        Ok(_) => r matches Message::ResponseOk(JsonVal::Array(w)) && w@.len() == outcomes.len()
            && (forall|i: int| 0 <= i < outcomes.len() ==> reports_add_item(outcomes[i], #[trigger] w@[i])),
        Err(e) => r == Message::ResponseError(e),
    }
}

/// The response owed for a delete batch, shaped as for an add batch.
pub open spec fn response_for_delete(
    outcomes: Seq<Result<bool, String>>,
    flush: Result<(), String>,
    r: Message,
) -> bool {
    match flush {
        Ok(_) => r matches Message::ResponseOk(JsonVal::Array(w)) && w@.len() == outcomes.len()
            && (forall|i: int| 0 <= i < outcomes.len() ==> reports_delete_item(outcomes[i], #[trigger] w@[i])),
        Err(e) => r == Message::ResponseError(e),
    }
}

/// The response owed for a query: its results in reverse order, so the
/// cursor can pop from the end and deliver them in original order, or the
/// engine's error.
pub open spec fn response_for_query(result: Result<Vec<JsonVal>, String>, r: Message) -> bool {
    match result {
        Ok(v) => r matches Message::ResponseOk(JsonVal::Array(w)) && w@ == v@.reverse(),
        Err(e) => r == Message::ResponseError(e),
    }
}

/// The response owed for a destructive drop that was allowed to run.
pub open spec fn response_for_drop(outcome: Result<(), String>, r: Message) -> bool {
    match outcome {
        Ok(_) => r == Message::ResponseOk(JsonVal::True),
        Err(e) => r == Message::ResponseError(e),
    }
}

/// One failed item's report: an object with a single `error` field.
fn error_entry(e: String) -> (j: JsonVal)
    ensures
        is_error_entry(e, j),
{
    let mut fields: Vec<(String, JsonVal)> = Vec::new();
    fields.push(("error".to_owned(), JsonVal::Text(e)));
    JsonVal::Object(fields)
}

/// Shape the response for an add batch from the engine's per-item
/// outcomes and the outcome of the single flush that followed them.
pub fn process_add(outcomes: Vec<Result<String, String>>, flush: Result<(), String>) -> (r:
    Message)
    ensures
        response_for_add(outcomes@, flush, r),
        r.is_response(),
{
    match flush {
        Err(e) => Message::ResponseError(e),
        Ok(_) => {
            let ghost orig = outcomes@;
            let mut rest = outcomes;
            let mut results: Vec<JsonVal> = Vec::new();
            while rest.len() > 0
                invariant
                    results@.len() + rest@.len() == orig.len(),
                    rest@ == orig.subrange(results@.len() as int, orig.len() as int),
                    forall|i: int|
                        0 <= i < results@.len() ==> reports_add_item(orig[i], #[trigger] results@[i]),
                decreases rest@.len(),
            {
                let ghost k = results@.len() as int;
                let o = rest.remove(0);
                proof {
                    assert(o == orig[k]);
                    assert(rest@ =~= orig.subrange(k + 1, orig.len() as int));
                }
                match o {
                    Ok(id) => results.push(JsonVal::Text(id)),
                    Err(e) => {
                        let entry = error_entry(e);
                        results.push(entry);
                    },
                }
            }
            Message::ResponseOk(JsonVal::Array(results))
        },
    }
}

/// Shape the response for a delete batch from the engine's per-item
/// outcomes and the outcome of the single flush that followed them.
pub fn process_delete(outcomes: Vec<Result<bool, String>>, flush: Result<(), String>) -> (r:
    Message)
    ensures
        response_for_delete(outcomes@, flush, r),
        r.is_response(),
{
    match flush {
        Err(e) => Message::ResponseError(e),
        Ok(_) => {
            let ghost orig = outcomes@;
            let mut rest = outcomes;
            let mut results: Vec<JsonVal> = Vec::new();
            while rest.len() > 0
                invariant
                    results@.len() + rest@.len() == orig.len(),
                    rest@ == orig.subrange(results@.len() as int, orig.len() as int),
                    forall|i: int|
                        0 <= i < results@.len() ==> reports_delete_item(
                            orig[i],
                            #[trigger] results@[i],
                        ),
                decreases rest@.len(),
            {
                let ghost k = results@.len() as int;
                let o = rest.remove(0);
                proof {
                    assert(o == orig[k]);
                    assert(rest@ =~= orig.subrange(k + 1, orig.len() as int));
                }
                match o {
                    Ok(true) => results.push(JsonVal::True),
                    Ok(false) => results.push(JsonVal::False),
                    Err(e) => {
                        let entry = error_entry(e);
                        results.push(entry);
                    },
                }
            }
            Message::ResponseOk(JsonVal::Array(results))
        },
    }
}

/// Shape the response for a query from the engine's outcome: the result
/// sequence is stored reversed, so that the cursor's pop-from-end
/// delivery hands the items out in original forward order.
pub fn process_query(result: Result<Vec<JsonVal>, String>) -> (r: Message)
    ensures
        response_for_query(result, r),
        r.is_response(),
{
    match result {
        Err(e) => Message::ResponseError(e),
        Ok(v) => {
            let ghost orig = v@;
            let mut rest = v;
            let mut rev: Vec<JsonVal> = Vec::new();
            while rest.len() > 0
                invariant
                    rest@ == orig.subrange(0, rest@.len() as int),
                    rev@.len() + rest@.len() == orig.len(),
                    forall|j: int|
                        0 <= j < rev@.len() ==> #[trigger] rev@[j] == orig[orig.len() - 1 - j],
                decreases rest@.len(),
            {
                match rest.pop() {
                    Some(x) => rev.push(x),
                    None => (),
                }
            }
            proof {
                assert(rev@ =~= orig.reverse());
            }
            Message::ResponseOk(JsonVal::Array(rev))
        },
    }
}

/// Shape the response for a destructive drop the registry allowed to run.
pub fn process_drop(outcome: Result<(), String>) -> (r: Message)
    ensures
        response_for_drop(outcome, r),
        r.is_response(),
{
    match outcome {
        Ok(_) => Message::ResponseOk(JsonVal::True),
        Err(e) => Message::ResponseError(e),
    }
}

} // verus!
