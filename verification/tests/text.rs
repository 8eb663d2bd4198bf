use pic_asm::listing::lines;
use pic_asm::text::{
    copy_range, find_class, same_chars, skip_run, skip_run_back, spells, split, to_chars,
    to_string, to_upper, to_upper_all, trim, CharClass,
};

fn text_of(chars: &[char]) -> String {
    chars.iter().collect()
}

fn short_texts(alphabet: &[char], length: usize) -> Vec<String> {
    let mut texts = vec![String::new()];
    let mut from = 0;
    for _ in 0..length {
        let upto = texts.len();
        for i in from..upto {
            for c in alphabet {
                let mut longer = texts[i].clone();
                longer.push(*c);
                texts.push(longer);
            }
        }
        from = upto;
    }
    texts
}

#[test]
fn classes_agree_with_the_standard_library() {
    for n in 0..=0x10FFFFu32 {
        if let Some(c) = char::from_u32(n) {
            assert_eq!(CharClass::Space.contains(c), c.is_whitespace(), "{:?}", c);
            assert_eq!(CharClass::Letter.contains(c), c.is_ascii_alphabetic(), "{:?}", c);
            assert_eq!(CharClass::Digit.contains(c), c.is_ascii_digit(), "{:?}", c);
            assert_eq!(
                CharClass::Word.contains(c),
                c.is_ascii_alphanumeric() || c == '_',
                "{:?}",
                c
            );
            assert_eq!(to_upper(c), c.to_ascii_uppercase(), "{:?}", c);
        }
    }
}

#[test]
fn only_ascii_letters_have_an_ascii_upper_case() {
    for n in 0x80..=0x10FFFFu32 {
        if let Some(c) = char::from_u32(n) {
            let upper: String = c.to_uppercase().collect();
            assert!(!"BANK".contains(&upper), "{:?}", c);
        }
    }
    for n in 0..0x80u32 {
        let c = char::from_u32(n).unwrap();
        let upper: String = c.to_uppercase().collect();
        assert_eq!(upper, to_upper(c).to_string());
    }
}

#[test]
fn to_chars_and_back() {
    for text in ["", "a", "MOVLW 5", "h\u{e9}llo \u{1F600}"] {
        let chars = to_chars(text);
        assert_eq!(chars, text.chars().collect::<Vec<char>>());
        assert_eq!(to_string(&chars), text);
    }
}

#[test]
fn upper_case_of_a_word() {
    assert_eq!(text_of(&to_upper_all(&to_chars("MovLw_1 \u{e9}z"))), "MOVLW_1 \u{e9}Z");
}

#[test]
fn comparing_characters() {
    assert!(same_chars(&to_chars("abc"), &to_chars("abc")));
    assert!(!same_chars(&to_chars("abc"), &to_chars("abd")));
    assert!(!same_chars(&to_chars("abc"), &to_chars("ab")));
    assert!(same_chars(&to_chars(""), &to_chars("")));
    assert!(spells(&to_chars("BANK"), "BANK"));
    assert!(!spells(&to_chars("BANk"), "BANK"));
    assert!(!spells(&to_chars("BANKS"), "BANK"));
}

#[test]
fn runs() {
    let s = to_chars("  ab12_ ,");
    assert_eq!(skip_run(&s, CharClass::Space, 0), 2);
    assert_eq!(skip_run(&s, CharClass::Letter, 2), 4);
    assert_eq!(skip_run(&s, CharClass::Word, 2), 7);
    assert_eq!(skip_run(&s, CharClass::Digit, 2), 2);
    assert_eq!(skip_run(&s, CharClass::Digit, 4), 6);
    assert_eq!(skip_run(&s, CharClass::Space, 9), 9);
    assert_eq!(skip_run_back(&s, CharClass::Word, 7), 2);
    assert_eq!(skip_run_back(&s, CharClass::Space, 2), 0);
    assert_eq!(skip_run_back(&s, CharClass::Space, 9), 9);
    assert_eq!(find_class(&s, CharClass::Digit, 0), 4);
    assert_eq!(find_class(&s, CharClass::Letter, 4), 9);
    assert_eq!(text_of(&copy_range(&s, 2, 7)), "ab12_");
    assert_eq!(text_of(&copy_range(&s, 3, 3)), "");
}

#[test]
fn trim_agrees_with_the_standard_library() {
    let alphabet = ['a', ' ', '\t', '\u{a0}', '\r', '\u{200b}'];
    for text in short_texts(&alphabet, 5) {
        assert_eq!(text_of(&trim(&to_chars(&text))), text.trim(), "{:?}", text);
    }
}

#[test]
fn split_agrees_with_the_standard_library() {
    let alphabet = ['a', 'b', ':', ';'];
    for text in short_texts(&alphabet, 6) {
        for sep in [':', ';'] {
            let ours: Vec<String> =
                split(&to_chars(&text), sep).iter().map(|p| text_of(p)).collect();
            let theirs: Vec<String> = text.split(sep).map(String::from).collect();
            assert_eq!(ours, theirs, "{:?}", text);
        }
    }
}

#[test]
fn joining_the_pieces_gives_the_text_back() {
    let alphabet = ['a', ':', ' '];
    for text in short_texts(&alphabet, 7) {
        let pieces: Vec<String> = split(&to_chars(&text), ':').iter().map(|p| text_of(p)).collect();
        assert!(pieces.iter().all(|p| !p.contains(':')));
        assert_eq!(pieces.join(":"), text);
    }
}

#[test]
fn lines_agree_with_the_standard_library() {
    let alphabet = ['a', '\n', '\r', ' '];
    for text in short_texts(&alphabet, 7) {
        let ours: Vec<String> = lines(&to_chars(&text)).iter().map(|p| text_of(p)).collect();
        let theirs: Vec<String> = text.lines().map(String::from).collect();
        assert_eq!(ours, theirs, "{:?}", text);
    }
}

#[test]
fn lines_of_a_text() {
    let ours: Vec<String> =
        lines(&to_chars("one\ntwo\r\n\nfour\r")).iter().map(|p| text_of(p)).collect();
    assert_eq!(ours, vec!["one", "two", "", "four\r"]);
    assert_eq!(lines(&to_chars("")).len(), 0);
    assert_eq!(lines(&to_chars("\n")).len(), 1);
}
