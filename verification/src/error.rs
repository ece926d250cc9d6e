use vstd::prelude::*;

verus! {

/// What can go wrong in a worker. Failures of outside services are carried
/// as their message text.
#[derive(Debug)]
pub enum Error {
    Fuel(String),
    EnvVarError(String, String),
    MatchOrders(String),
    ContractIdParse(String),
    StringParsing(String),
    UrlParse(String),
    SerdeJson(String),
    TokioTungstenite(String),
    TokioTungsteniteStream(String),
    InvalidBatch,
}

impl Error {
    /// The error for a piece of text that could not be parsed.
    pub fn string_parsing(msg: &str) -> (e: Error)
        ensures
            e matches Error::StringParsing(m) && m@ == msg@,
    {
        Error::StringParsing(msg.to_owned())
    }
}

} // verus!
