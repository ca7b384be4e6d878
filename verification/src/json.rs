use vstd::prelude::*;

verus! {

/// The payload values the bridge carries between the engine and a caller.
///
/// The engine renders numbers as IEEE doubles; the bridge never reads a
/// number's value, so it carries the decimal rendering as text and leaves
/// the digits to the boundary that produced them.
#[derive(Debug, PartialEq)]
pub enum JsonVal {
    Null,
    True,
    False,
    /// A number, as its decimal rendering.
    Number(String),
    /// A string value.
    Text(String),
    /// An ordered sequence of values.
    Array(Vec<JsonVal>),
    /// An ordered list of key/value pairs.
    Object(Vec<(String, JsonVal)>),
}

} // verus!
