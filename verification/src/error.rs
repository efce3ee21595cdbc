//! The error raised when a crawler cannot be constructed.

use vstd::prelude::*;

verus! {

/// Failure to set up a crawler, with a human-readable message.
#[derive(Debug, PartialEq, Eq)]
pub struct CrawlerError {
    message: String,
}

impl View for CrawlerError {
    type V = Seq<char>;

    closed spec fn view(&self) -> Seq<char> {
        self.message@
    }
}

impl CrawlerError {
    /// An error carrying the default message.
    pub fn new() -> (e: CrawlerError)
        ensures
            e@ == "Crawl Target Error"@,
    {
        CrawlerError { message: "Crawl Target Error".to_owned() }
    }

    /// An error carrying `message`.
    pub fn with_message(message: &str) -> (e: CrawlerError)
        ensures
            e@ == message@,
    {
        CrawlerError { message: message.to_owned() }
    }

    /// The message, as the error is displayed.
    pub fn message(&self) -> (text: String)
        ensures
            text@ == self@,
    {
        self.message.clone()
    }
}

} // verus!
