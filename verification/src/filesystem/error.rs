use vstd::prelude::*;

verus! {

/// The error type of the service: a message, sendable between threads.
#[derive(Debug)]
pub struct MyError {
    message: String,
}

impl View for MyError {
    type V = Seq<char>;

    closed spec fn view(&self) -> Seq<char> {
        self.message@
    }
}

impl MyError {
    /// Builds an error that carries `message`.
    pub fn new(message: &str) -> (e: MyError)
        ensures
            e@ == message@,
    {
        MyError { message: message.to_owned() }
    }

    /// Builds an error that carries an owned message.
    pub fn from_string(message: String) -> (e: MyError)
        ensures
            e@ == message@,
    {
        MyError { message }
    }

    /// The message of the error, as its `Display` shows it.
    pub fn to_string(&self) -> (s: String)
        ensures
            s@ == self@,
    {
        self.message.clone()
    }
}

} // verus!
