use dhe::algorithm::regexp::is_match;
use dhe::algorithm::regexp::match_elements;
use dhe::algorithm::regexp::parse_pattern;
use dhe::algorithm::regexp::Element;

#[test]
fn is_match_1() {
    let input = "aa".to_owned();
    let pattern = "a".to_owned();
    assert!(!is_match(input, pattern));
}

#[test]
fn is_match_2() {
    let input = "aa".to_owned();
    let pattern = "a*".to_owned();
    assert!(is_match(input, pattern));
}

#[test]
fn is_match_3() {
    let input = "ab".to_owned();
    let pattern = ".*".to_owned();
    assert!(is_match(input, pattern));
}

#[test]
fn is_match_4() {
    let input = "aab".to_owned();
    let pattern = "c*a*b".to_owned();
    assert!(is_match(input, pattern));
}

#[test]
fn is_match_5() {
    let input = "baabbbaccbccacacc".to_owned();
    let pattern = "c*..b*a*a.*a..*c".to_owned();
    assert!(is_match(input, pattern));
}

#[test]
fn is_match_6() {
    let input = "aaa".to_owned();
    let pattern = "ab*a*c*a".to_owned();
    assert!(is_match(input, pattern));
}

#[test]
fn empty_pattern_matches_only_empty_input() {
    assert!(is_match(String::new(), String::new()));
    assert!(!is_match("a".to_owned(), String::new()));
}

#[test]
fn starred_elements_match_empty_input() {
    assert!(is_match(String::new(), "a*b*.*".to_owned()));
    assert!(!is_match(String::new(), "a*b".to_owned()));
}

#[test]
fn dot_takes_exactly_one_character() {
    assert!(is_match("x".to_owned(), ".".to_owned()));
    assert!(!is_match("xy".to_owned(), ".".to_owned()));
    assert!(!is_match(String::new(), ".".to_owned()));
}

#[test]
fn star_without_element_is_ignored() {
    assert!(is_match("a".to_owned(), "*a".to_owned()));
    assert!(is_match("aaa".to_owned(), "a**".to_owned()));
    assert!(is_match(String::new(), "*".to_owned()));
}

#[test]
fn match_needs_the_whole_input() {
    assert!(!is_match("mississippi".to_owned(), "mis*is*p*.".to_owned()));
    assert!(is_match("mississippi".to_owned(), "mis*is*ip*.".to_owned()));
}

#[test]
fn non_ascii_characters_count_once() {
    assert!(is_match("дхе".to_owned(), "д.е".to_owned()));
    assert!(is_match("ддд".to_owned(), "д*".to_owned()));
}

#[test]
fn pattern_is_read_into_elements() {
    let pattern: Vec<char> = "a*.b*".chars().collect();
    let elements = parse_pattern(&pattern);
    assert_eq!(
        elements,
        vec![
            Element { ch: 'a', starred: true },
            Element { ch: '.', starred: false },
            Element { ch: 'b', starred: true },
        ]
    );
    let text: Vec<char> = "aaxbb".chars().collect();
    assert!(match_elements(&text, &elements));
    let text: Vec<char> = "aaxbc".chars().collect();
    assert!(!match_elements(&text, &elements));
    assert!(!match_elements(&[], &elements));
}

/// Matching from the front, element by element.
fn from_the_front(text: &[char], elements: &[Element]) -> bool {
    match elements.split_first() {
        None => text.is_empty(),
        Some((first, rest)) => {
            let fits = |c: char| first.ch == c || first.ch == '.';
            if first.starred {
                from_the_front(text, rest)
                    || (!text.is_empty() && fits(text[0]) && from_the_front(&text[1..], elements))
            } else {
                !text.is_empty() && fits(text[0]) && from_the_front(&text[1..], rest)
            }
        }
    }
}

#[test]
fn is_match_agrees_with_matching_from_the_front() {
    let mut seed: u64 = 0xd1b54a32d192ed03;
    let mut next = move |below: u64| {
        seed ^= seed << 13;
        seed ^= seed >> 7;
        seed ^= seed << 17;
        seed % below
    };
    let letters = ['a', 'b', 'c', '.', '*'];
    let mut matched = 0;
    for _ in 0..3000 {
        let pattern: String = (0..next(7)).map(|_| letters[next(5) as usize]).collect();
        let input: String = (0..next(7)).map(|_| letters[next(3) as usize]).collect();
        let pattern_chars: Vec<char> = pattern.chars().collect();
        let input_chars: Vec<char> = input.chars().collect();
        let elements = parse_pattern(&pattern_chars);
        let expected = from_the_front(&input_chars, &elements);
        assert_eq!(is_match(input, pattern), expected);
        if expected {
            matched += 1;
        }
    }
    assert!(matched > 100);
}
