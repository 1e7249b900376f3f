use dhe::language::recognized;
use dhe::language::translation_direction;
use dhe::language::Language;
use dhe::language::LanguageError;
use dhe::language::LanguageRecognizer;
use dhe::translate::extract_translation;
use dhe::translate::translate_query;
use dhe::translate::translate_url;
use dhe::translate::translation;
use dhe::translate::TranslateError;
use dhe::translate::RESULT_SELECTOR;
use dhe::translate::TRANSLATE_URL;

#[test]
fn languages_have_codes() {
    assert_eq!(Language::En.code(), "en");
    assert_eq!(Language::Ru.code(), "ru");
    assert_eq!(Language::all(), vec![Language::En, Language::Ru]);
}

#[test]
fn text_goes_to_the_wanted_language_or_the_alternative() {
    assert_eq!(
        translation_direction(Language::En, Language::Ru, Language::En),
        (Language::En, Language::Ru)
    );
    assert_eq!(
        translation_direction(Language::Ru, Language::Ru, Language::En),
        (Language::Ru, Language::En)
    );
    assert_eq!(
        translation_direction(Language::Ru, Language::En, Language::Ru),
        (Language::Ru, Language::En)
    );
    assert_eq!(
        translation_direction(Language::En, Language::En, Language::En),
        (Language::En, Language::En)
    );
}

#[test]
fn no_answer_of_the_detector_is_an_error() {
    assert_eq!(recognized(Some(Language::Ru)), Ok(Language::Ru));
    assert_eq!(recognized(Some(Language::En)), Ok(Language::En));
    assert_eq!(recognized(None), Err(LanguageError::LanguageNotSupported));
    assert_eq!(
        LanguageError::LanguageNotSupported.message(),
        "the specified language is not supported"
    );
}

#[test]
fn recognizer_tells_english_from_russian() {
    let recognizer = LanguageRecognizer::new();
    assert_eq!(
        recognizer.recognize("The quick brown fox jumps over the lazy dog"),
        Ok(Language::En)
    );
    assert_eq!(
        recognizer.recognize("Съешь ещё этих мягких французских булок"),
        Ok(Language::Ru)
    );
    assert_eq!(recognizer.known_languages(), &vec![Language::En, Language::Ru]);
    let recognizer = LanguageRecognizer::default();
    assert_eq!(recognizer.recognize("Where is the library?"), Ok(Language::En));
}

#[test]
fn text_without_letters_is_not_recognized() {
    let recognizer = LanguageRecognizer::new();
    let every_sign: String = (0u8..128)
        .map(|byte| byte as char)
        .filter(|c| !c.is_ascii_alphabetic())
        .collect();
    for text in ["", " ", "\n\t ", "12345", "1 + 2 = 3", "?!", "...", "2023-06-28 14:40:53", &every_sign]
    {
        assert_eq!(recognizer.recognize(text), Err(LanguageError::LanguageNotSupported));
    }
    // one word is enough to tell
    assert_eq!(recognizer.recognize("12345 привет"), Ok(Language::Ru));
}

#[test]
fn query_names_source_target_and_text() {
    let query = translate_query("hello world", Language::En, Language::Ru);
    assert_eq!(
        query,
        vec![
            ("sl".to_string(), "en".to_string()),
            ("tl".to_string(), "ru".to_string()),
            ("q".to_string(), "hello world".to_string()),
        ]
    );
}

#[test]
fn url_holds_the_encoded_query() {
    assert_eq!(TRANSLATE_URL, "https://translate.google.com/m");
    assert_eq!(
        translate_url("hello world", Language::En, Language::Ru).unwrap(),
        "https://translate.google.com/m?sl=en&tl=ru&q=hello+world"
    );
    assert_eq!(
        translate_url("a&b=c", Language::Ru, Language::En).unwrap(),
        "https://translate.google.com/m?sl=ru&tl=en&q=a%26b%3Dc"
    );
    let mut url = reqwest::Url::parse(TRANSLATE_URL).unwrap();
    url.query_pairs_mut().append_pair("sl", "ru").append_pair("tl", "en").append_pair("q", "привет");
    assert_eq!(translate_url("привет", Language::Ru, Language::En).unwrap(), url.as_str());
}

#[test]
fn translation_is_the_first_result_container() {
    assert_eq!(RESULT_SELECTOR, ".result-container");
    let html = "<html><body><div class=\"other\">no</div>\
                <div class=\"result-container\">привет <b>мир</b></div>\
                <div class=\"result-container\">second</div></body></html>";
    assert_eq!(extract_translation(html).unwrap(), "привет <b>мир</b>");
}

#[test]
fn empty_result_container_is_an_empty_translation() {
    assert_eq!(extract_translation("<div class=\"result-container\"></div>").unwrap(), "");
    assert_eq!(
        extract_translation("<p class=\"a result-container b\">x</p>").unwrap(),
        "x"
    );
    // the class must be the whole word
    assert!(extract_translation("<div class=\"result-containers\">x</div>").is_err());
    assert!(extract_translation("<div id=\"result-container\">x</div>").is_err());
}

#[test]
fn answer_without_result_container_is_an_error() {
    for html in ["", "<div class=\"result\">x</div>", "plain text"] {
        match extract_translation(html) {
            Err(TranslateError::FailedToParseRequest(cause)) => {
                assert_eq!(cause, "translation not found as a result of the query")
            }
            other => panic!("unexpected {:?}", other),
        }
    }
    match translation(None) {
        Err(error) => assert_eq!(
            error.message(),
            "failed to parse request with error: translation not found as a result of the query"
        ),
        other => panic!("unexpected {:?}", other),
    }
    assert_eq!(translation(Some("ok".to_string())).unwrap(), "ok");
}

#[test]
fn translate_errors_in_words() {
    assert_eq!(
        TranslateError::FailedToRequest("refused".to_string()).message(),
        "failed to complete request with error: refused"
    );
    assert_eq!(
        TranslateError::FailedToParseRequest("bad".to_string()).message(),
        "failed to parse request with error: bad"
    );
}
