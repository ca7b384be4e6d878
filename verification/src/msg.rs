use vstd::prelude::*;

use crate::json::JsonVal;

verus! {

/// One value in transit through a mailbox slot: a request on its way from
/// a caller to a worker, or a response on its way back.
#[derive(Debug, PartialEq)]
pub enum Message {
    /// Attach this connection to the named resource, opening it if no
    /// connection holds it yet; the flag asks for creation when it does
    /// not exist on disk.
    OpenIndex(String, bool),
    /// Destroy the named resource; legal only while nothing is attached.
    DropIndex(String),
    /// Add each document (a JSON text) to the attached resource.
    Add(Vec<String>),
    /// Delete each named document from the attached resource.
    Delete(Vec<String>),
    /// Run a query, with optional parameter text.
    Query(String, Option<String>),
    /// End the servicing loop and detach from the resource.
    Close,
    /// A successful response, carrying its payload.
    ResponseOk(JsonVal),
    /// A failed response, carrying a description of the failure.
    ResponseError(String),
}

impl Message {
    /// Whether this variant flows from caller to worker.
    pub open spec fn is_request(self) -> bool {
        match self {
            Message::OpenIndex(_, _) => true,
            Message::DropIndex(_) => true,
            Message::Add(_) => true,
            Message::Delete(_) => true,
            Message::Query(_, _) => true,
            Message::Close => true,
            Message::ResponseOk(_) => false,
            Message::ResponseError(_) => false,
        }
    }

    /// Whether this variant flows from worker to caller.
    pub open spec fn is_response(self) -> bool {
        !self.is_request()
    }
}

/// The request that a caller's message type code and arguments denote.
/// Code 0 opens, 1 drops, 2 adds, 3 deletes, 4 queries, 5 closes.
pub open spec fn spec_request(msg_type: u64, strings: Vec<String>, create: bool) -> Message
    recommends
        msg_type <= 5,
{
    if msg_type == 0 {
        Message::OpenIndex(strings@[0], create)
    } else if msg_type == 1 {
        Message::DropIndex(strings@[0])
    } else if msg_type == 2 {
        Message::Add(strings)
    } else if msg_type == 3 {
        Message::Delete(strings)
    } else if msg_type == 4 {
        Message::Query(
            strings@[0],
            if strings@.len() == 2 {
                Some(strings@[1])
            } else {
                None
            },
        )
    } else {
        Message::Close
    }
}

/// Build the request a caller's message type code and arguments denote,
/// or report an unknown code. The string arguments are: the resource name
/// for open and drop, the documents for add and delete, and the query
/// text with an optional parameter text for query. The flag is read only
/// by open.
pub fn build_request(msg_type: u64, strings: Vec<String>, create: bool) -> (r: Result<
    Message,
    String,
>)
    requires
        msg_type == 0 || msg_type == 1 ==> strings@.len() == 1,
        msg_type == 4 ==> 1 <= strings@.len() <= 2,
    ensures
        match r {
            Ok(m) => msg_type <= 5 && m == spec_request(msg_type, strings, create)
                && m.is_request(),
            Err(e) => msg_type > 5 && e@ == "unknown message type"@,
        },
{
    let mut strings = strings;
    if msg_type == 0 {
        let name = match strings.pop() {
            Some(n) => n,
            None => String::new(),
        };
        Ok(Message::OpenIndex(name, create))
    } else if msg_type == 1 {
        let name = match strings.pop() {
            Some(n) => n,
            None => String::new(),
        };
        Ok(Message::DropIndex(name))
    } else if msg_type == 2 {
        Ok(Message::Add(strings))
    } else if msg_type == 3 {
        Ok(Message::Delete(strings))
    } else if msg_type == 4 {
        let params = if strings.len() == 2 {
            strings.pop()
        } else {
            None
        };
        let query = match strings.pop() {
            Some(q) => q,
            None => String::new(),
        };
        Ok(Message::Query(query, params))
    } else if msg_type == 5 {
        Ok(Message::Close)
    } else {
        Err("unknown message type".to_owned())
    }
}

} // verus!
