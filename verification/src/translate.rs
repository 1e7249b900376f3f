//! Requests to the translation service and what is read out of its
//! answers.

use vstd::prelude::*;
use vstd::string::StringExecFns;

use crate::language::Language;

verus! {

/// Why a text could not be translated.
#[derive(Debug)]
pub enum TranslateError {
    /// The request failed; the cause in words.
    FailedToRequest(String),
    /// The answer could not be read; the cause in words.
    FailedToParseRequest(String),
}

/// The message of `FailedToRequest` with the given cause.
pub open spec fn request_failure_text(cause: Seq<char>) -> Seq<char> {
    "failed to complete request with error: "@ + cause
}

/// The message of `FailedToParseRequest` with the given cause.
pub open spec fn parse_failure_text(cause: Seq<char>) -> Seq<char> {
    "failed to parse request with error: "@ + cause
}

impl TranslateError {
    /// The error said in words.
    pub open spec fn message_text(self) -> Seq<char> {
        match self {
            TranslateError::FailedToRequest(cause) => request_failure_text(cause@),
            TranslateError::FailedToParseRequest(cause) => parse_failure_text(cause@),
        }
    }

    /// The error said in words.
    pub fn message(&self) -> (text: String)
        ensures
            text@ == self.message_text(),
    {
        match self {
            TranslateError::FailedToRequest(cause) => {
                let mut text = String::from_str("failed to complete request with error: ");
                text.append(cause.as_str());
                text
            },
            TranslateError::FailedToParseRequest(cause) => {
                let mut text = String::from_str("failed to parse request with error: ");
                text.append(cause.as_str());
                text
            },
        }
    }
}

/// Where translations are asked for.
pub const TRANSLATE_URL: &'static str = "https://translate.google.com/m";

/// The selector of the element that holds the translation in an answer.
pub const RESULT_SELECTOR: &'static str = ".result-container";

/// The parameters of a request for a translation, in their order: the
/// source language, the target language and the text.
pub open spec fn query_of(text: Seq<char>, from: Language, to: Language) -> Seq<
    (Seq<char>, Seq<char>),
> {
    seq![("sl"@, from.code_text()), ("tl"@, to.code_text()), ("q"@, text)]
}

/// The texts of the pairs, one for one.
pub open spec fn pair_texts(pairs: Seq<(String, String)>) -> Seq<(Seq<char>, Seq<char>)> {
    Seq::new(pairs.len(), |i: int| (pairs[i].0@, pairs[i].1@))
}

/// The parameters of a request for a translation of `text`.
pub fn translate_query(text: &str, from: Language, to: Language) -> (query: Vec<(String, String)>)
    ensures
        pair_texts(query@) == query_of(text@, from, to),
{
    let mut query: Vec<(String, String)> = Vec::new();
    query.push((String::from_str("sl"), String::from_str(from.code())));
    query.push((String::from_str("tl"), String::from_str(to.code())));
    query.push((String::from_str("q"), String::from_str(text)));
    assert(pair_texts(query@) =~= query_of(text@, from, to));
    query
}

/// The address that the `url` crate makes of an address and query
/// parameters appended to it, or none where it cannot read the address:
/// what `Url::parse_with_params` returns, as text.
pub uninterp spec fn url_with_params(base: Seq<char>, params: Seq<(Seq<char>, Seq<char>)>) -> Option<
    Seq<char>,
>;

/// Calls `reqwest::Url::parse_with_params`, which parses the address and
/// appends each pair to its query, percent-encoded, and gives the result
/// as text (`Url::as_str`). It reads nothing but its arguments.
#[verifier::external_body]
fn build_url(base: &str, params: &Vec<(String, String)>) -> (url: Option<String>)
    ensures
        match url {
            Some(text) => url_with_params(base@, pair_texts(params@)) == Some(text@),
            None => url_with_params(base@, pair_texts(params@)) is None,
        },
{
    match reqwest::Url::parse_with_params(base, params) {
        Ok(url) => Some(url.as_str().to_string()),
        Err(_) => None,
    }
}

/// The address to request for a translation of `text`; none if the
/// address of the service cannot be read.
pub fn translate_url(text: &str, from: Language, to: Language) -> (url: Option<String>)
    ensures
        match url {
            Some(address) => url_with_params(TRANSLATE_URL@, query_of(text@, from, to)) == Some(
                address@,
            ),
            None => url_with_params(TRANSLATE_URL@, query_of(text@, from, to)) is None,
        },
{
    let query = translate_query(text, from, to);
    build_url(TRANSLATE_URL, &query)
}

/// What the `scraper` crate finds in a text for a selector: none if it
/// does not accept the selector; else whether the fragment that it parses
/// out of the text holds an element that the selector matches.
pub uninterp spec fn selects(html: Seq<char>, selector: Seq<char>) -> Option<bool>;

/// Calls `scraper::Selector::parse` and, where the selector is accepted,
/// `scraper::Html::parse_fragment`, `Html::select` and, on the first
/// element that it yields, `ElementRef::inner_html`.
///
/// Whether an element is found is the same in every process: the fragment
/// is parsed and walked in the order of the text, attributes are looked up
/// by name and classes are sorted. So much is claimed. The contents of the
/// element are not: the crate keeps the attributes of an element in a hash
/// map and walks it when the element is written out, so that the text may
/// differ from process to process.
#[verifier::external_body]
fn first_inner_html(html: &str, selector: &str) -> (found: Option<Option<String>>)
    ensures
        match found {
            Some(inner) => selects(html@, selector@) == Some(inner is Some),
            None => selects(html@, selector@) is None,
        },
{
    match scraper::Selector::parse(selector) {
        Ok(selector) => Some(
            scraper::Html::parse_fragment(html).select(&selector).next().map(
                |element| element.inner_html(),
            ),
        ),
        Err(_) => None,
    }
}

/// The message of the error for an answer without a translation.
pub open spec fn not_found_text() -> Seq<char> {
    "translation not found as a result of the query"@
}

/// What is made of the element found in an answer: its contents are the
/// translation, and an answer without the element is an error.
pub fn translation(found: Option<String>) -> (result: Result<String, TranslateError>)
    ensures
        match found {
            Some(inner) => result == Ok::<String, TranslateError>(inner),
            None => result matches Err(TranslateError::FailedToParseRequest(cause)) && cause@
                == not_found_text(),
        },
{
    match found {
        Some(inner) => Ok(inner),
        None => Err(
            TranslateError::FailedToParseRequest(
                String::from_str("translation not found as a result of the query"),
            ),
        ),
    }
}

/// Whether an answer of the service holds a translation: whether the
/// result selector finds an element in it.
pub open spec fn holds_translation(html: Seq<char>) -> bool {
    selects(html, RESULT_SELECTOR@) == Some(true)
}

/// Reads the translation out of an answer of the service: the contents of
/// the first element that the result selector finds. It succeeds exactly
/// if there is such an element; else the answer is reported as one without
/// a translation.
pub fn extract_translation(html: &str) -> (result: Result<String, TranslateError>)
    ensures
        match result {
            Ok(_) => holds_translation(html@),
            Err(error) => {
                &&& !holds_translation(html@)
                &&& error matches TranslateError::FailedToParseRequest(cause)
                &&& cause@ == not_found_text()
            },
        },
{
    match first_inner_html(html, RESULT_SELECTOR) {
        Some(inner) => translation(inner),
        None => translation(None),
    }
}

} // verus!
