//! The error of the library as a whole.

use vstd::prelude::*;
use vstd::string::StringExecFns;

use crate::keyboard::error::KeyboardError;
use crate::language::LanguageError;
use crate::translate::TranslateError;

verus! {

/// An error of one of the library's parts.
#[derive(Debug)]
pub enum DheError {
    Language(LanguageError),
    Translate(TranslateError),
    Keyboard(KeyboardError),
}

impl DheError {
    /// Whether the text says this error in words: the part it comes from,
    /// then the message of the error itself.
    pub open spec fn says(self, text: Seq<char>) -> bool {
        match self {
            DheError::Language(error) => text == "language error: "@ + error.message_text(),
            DheError::Translate(error) => text == "translate error: "@ + error.message_text(),
            DheError::Keyboard(error) => exists|inner: Seq<char>|
                #![auto]
                error.says(inner) && text == "keyboard error: "@ + inner,
        }
    }

    /// The error said in words.
    pub fn message(&self) -> (text: String)
        ensures
            self.says(text@),
    {
        match self {
            DheError::Language(error) => {
                let mut text = String::from_str("language error: ");
                text.append(error.message());
                text
            },
            DheError::Translate(error) => {
                let mut text = String::from_str("translate error: ");
                let inner = error.message();
                text.append(inner.as_str());
                text
            },
            DheError::Keyboard(error) => {
                let mut text = String::from_str("keyboard error: ");
                let inner = error.message();
                text.append(inner.as_str());
                text
            },
        }
    }
}

} // verus!
