//! What a plugin's verb answers.

use vstd::prelude::*;

verus! {

/// An error of a plugin: a code that the runtime matches on, and a message.
#[derive(Debug, Clone)]
pub struct PluginError {
    pub code: String,
    pub message: String,
}

impl View for PluginError {
    type V = (Seq<char>, Seq<char>);

    open spec fn view(&self) -> (Seq<char>, Seq<char>) {
        (self.code@, self.message@)
    }
}

/// The answer of a verb.
#[derive(Debug)]
pub enum PluginResult<T> {
    Success(T),
    Failure(PluginError),
}

impl<T: View> View for PluginResult<T> {
    type V = Result<T::V, (Seq<char>, Seq<char>)>;

    open spec fn view(&self) -> Result<T::V, (Seq<char>, Seq<char>)> {
        match self {
            PluginResult::Success(v) => Ok(v@),
            PluginResult::Failure(e) => Err(e@),
        }
    }
}

impl<T> PluginResult<T> {
    /// A success.
    pub fn ok(value: T) -> (r: Self)
        ensures
            r == PluginResult::Success(value),
    {
        PluginResult::Success(value)
    }

    /// An error with the given code and message.
    pub fn err(code: &str, message: &str) -> (r: Self)
        ensures
            r matches PluginResult::Failure(e) && e@ == (code@, message@),
    {
        PluginResult::Failure(PluginError { code: code.to_owned(), message: message.to_owned() })
    }
}

/// The views of the values in a list.
pub open spec fn views<T: View>(s: Seq<T>) -> Seq<T::V> {
    Seq::new(s.len(), |i: int| s[i]@)
}

/// What is seen of an answer is its value, or else code and message of its
/// error.
pub proof fn answers_are_seen_in_full<T: View>(value: T, e: PluginError)
    ensures
        PluginResult::Success(value)@ == Ok::<T::V, (Seq<char>, Seq<char>)>(value@),
        PluginResult::<T>::Failure(e)@ == Err::<T::V, (Seq<char>, Seq<char>)>(
            (e.code@, e.message@),
        ),
{
}

} // verus!
