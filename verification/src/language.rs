//! The languages that text is translated between, and their detection.

use vstd::prelude::*;

verus! {

/// Why a language could not be told.
#[derive(Debug, Copy, Clone, PartialEq, Eq, Structural)]
pub enum LanguageError {
    LanguageNotSupported,
}

impl LanguageError {
    /// The error said in words.
    pub open spec fn message_text(self) -> Seq<char> {
        "the specified language is not supported"@
    }

    /// The error said in words.
    pub fn message(&self) -> (text: &'static str)
        ensures
            text@ == self.message_text(),
    {
        "the specified language is not supported"
    }
}

/// A language of a text: the one it is written in, or the one it is
/// wanted in.
#[derive(Debug, Copy, Clone, PartialEq, Eq, Structural, PartialOrd, Ord, Hash)]
pub enum Language {
    En,
    Ru,
}

impl Language {
    /// The code of the language, as a translation request names it.
    pub open spec fn code_text(self) -> Seq<char> {
        match self {
            Language::En => "en"@,
            Language::Ru => "ru"@,
        }
    }

    /// The code of the language.
    pub fn code(self) -> (text: &'static str)
        ensures
            text@ == self.code_text(),
    {
        match self {
            Language::En => "en",
            Language::Ru => "ru",
        }
    }

    /// All languages, in the order of their declaration.
    pub fn all() -> (languages: Vec<Language>)
        ensures
            languages@ == seq![Language::En, Language::Ru],
    {
        let mut languages: Vec<Language> = Vec::new();
        languages.push(Language::En);
        languages.push(Language::Ru);
        assert(languages@ =~= seq![Language::En, Language::Ru]);
        languages
    }
}

/// From which language to which a text is translated: from the language it
/// is written in to the wanted one, or to the alternative if it is written
/// in the wanted one already.
pub fn translation_direction(written_in: Language, wanted: Language, alternative: Language) -> (direction:
    (Language, Language))
    ensures
        direction.0 == written_in,
        direction.1 == if written_in != wanted {
            wanted
        } else {
            alternative
        },
{
    if written_in != wanted {
        (written_in, wanted)
    } else {
        (written_in, alternative)
    }
}

/// The detector of the `lingua` crate. Nothing is known of its contents
/// here.
#[verifier::external_type_specification]
#[verifier::external_body]
pub struct ExLinguaDetector(lingua::LanguageDetector);

/// Calls `lingua::LanguageDetectorBuilder::from_languages` and `build` on
/// the languages given. The builder refuses an empty list of languages by
/// a panic, which the `requires` rules out. Nothing is claimed of the
/// detector.
#[verifier::external_body]
fn build_detector(languages: &Vec<Language>) -> (detector: lingua::LanguageDetector)
    requires
        languages@.len() > 0,
{
    let languages: Vec<lingua::Language> = languages.iter().map(|language| match language {
        Language::En => lingua::Language::English,
        Language::Ru => lingua::Language::Russian,
    }).collect();
    lingua::LanguageDetectorBuilder::from_languages(&languages).build()
}

/// Whether the character is a letter of the ASCII alphabet.
pub open spec fn is_ascii_letter(c: char) -> bool {
    ||| 'a' as u32 <= c as u32 <= 'z' as u32
    ||| 'A' as u32 <= c as u32 <= 'Z' as u32
}

/// Whether the text holds no letter and nothing but ASCII characters:
/// digits, signs and spaces at most.
pub open spec fn without_letters(text: Seq<char>) -> bool {
    forall|i: int|
        0 <= i < text.len() ==> (#[trigger] text[i]) as u32 <= 127 && !is_ascii_letter(text[i])
}

/// Calls `lingua::LanguageDetector::detect_language_of`, which returns the
/// most likely language of the text among those the detector was built
/// for, or none if it cannot tell.
///
/// The detector looks at the words of the text, which are runs of
/// letters. Where it finds no word it gives every language the likelihood
/// zero and tells none: so much is claimed, for text without letters in
/// ASCII. For other text the likelihoods are sums over hash sets, taken in
/// the order in which those are walked, so nothing is claimed of the
/// answer.
#[verifier::external_body]
fn detect_language(detector: &lingua::LanguageDetector, text: &str) -> (found: Option<Language>)
    ensures
        without_letters(text@) ==> found is None,
{
    match detector.detect_language_of(text) {
        Some(lingua::Language::English) => Some(Language::En),
        Some(lingua::Language::Russian) => Some(Language::Ru),
        None => None,
    }
}

/// What `recognize` makes of the detector's answer: no answer is an error.
pub fn recognized(found: Option<Language>) -> (result: Result<Language, LanguageError>)
    ensures
        result == match found {
            Some(language) => Ok::<Language, LanguageError>(language),
            None => Err(LanguageError::LanguageNotSupported),
        },
{
    match found {
        Some(language) => Ok(language),
        None => Err(LanguageError::LanguageNotSupported),
    }
}

/// Tells which of the languages a text is written in.
pub struct LanguageRecognizer {
    languages: Vec<Language>,
    detector: lingua::LanguageDetector,
}

impl LanguageRecognizer {
    /// The languages that the recognizer chooses among.
    pub closed spec fn languages(self) -> Seq<Language> {
        self.languages@
    }

    /// A recognizer for all the languages.
    pub fn new() -> (recognizer: LanguageRecognizer)
        ensures
            recognizer.languages() == seq![Language::En, Language::Ru],
    {
        let languages = Language::all();
        let detector = build_detector(&languages);
        LanguageRecognizer { languages, detector }
    }

    /// The languages that the recognizer chooses among.
    pub fn known_languages(&self) -> (languages: &Vec<Language>)
        ensures
            languages@ == self.languages(),
    {
        &self.languages
    }

    /// The language that the text is most likely written in. Fails with
    /// `LanguageNotSupported` when the detector cannot tell, as it never
    /// can for a text without a letter.
    pub fn recognize(&self, text: &str) -> (result: Result<Language, LanguageError>)
        ensures
            without_letters(text@) ==> result == Err::<Language, LanguageError>(
                LanguageError::LanguageNotSupported,
            ),
    {
        recognized(detect_language(&self.detector, text))
    }
}

impl Default for LanguageRecognizer {
    fn default() -> (recognizer: LanguageRecognizer)
        ensures
            recognizer.languages() == seq![Language::En, Language::Ru],
    {
        LanguageRecognizer::new()
    }
}

} // verus!
