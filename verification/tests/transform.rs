use pig_latin::convert_string;
use pig_latin::convert_word;
use pig_latin::convert_word_with_punctuation;
use pig_latin::is_vowel;
use pig_latin::split_punctuation;

#[test]
fn empty_input() {
    assert_eq!("", convert_word_with_punctuation(""));
}

#[test]
fn single_vowel_uppercase() {
    assert_eq!("I-hay", convert_word_with_punctuation("I"));
}

#[test]
fn single_vowel_uppercase_with_punctuation() {
    assert_eq!("I-hay?!", convert_word_with_punctuation("I?!"));
}

#[test]
fn single_vowel_lowercase() {
    assert_eq!("a-hay", convert_word_with_punctuation("a"));
}

#[test]
fn single_vowel_lowercase_with_punctuation() {
    assert_eq!("a-hay?!", convert_word_with_punctuation("a?!"));
}

#[test]
fn word_with_both_sides_punctuation() {
    assert_eq!("!I-hay!", convert_word_with_punctuation("!Hi!"));
}

#[test]
fn sentence() {
    assert_eq!("Ello-hay, orld-way!", convert_string("Hello, world!"));
}

#[test]
fn single_uppercase_consonant_is_defined() {
    // The rule applied with an empty remainder: no crash, a defined result.
    assert_eq!("-cay", convert_word_with_punctuation("C"));
    assert_eq!("-cay", convert_word("C"));
}

#[test]
fn single_lowercase_consonant() {
    assert_eq!("-bay", convert_word("b"));
}

#[test]
fn lowercase_consonant_word() {
    let r = convert_word("world");
    assert_eq!("orld-way", r);
    assert!(r.ends_with("ay"));
    assert_eq!(1, r.matches('-').count());
}

#[test]
fn uppercase_consonant_word() {
    let r = convert_word("Hello");
    assert_eq!("Ello-hay", r);
    assert!(r.ends_with("ay"));
    assert_eq!(1, r.matches('-').count());
}

#[test]
fn vowel_words_keep_their_letters() {
    assert_eq!("apple-hay", convert_word("apple"));
    assert_eq!("Uncle-hay", convert_word("Uncle"));
}

#[test]
fn digits_count_as_consonants() {
    assert_eq!("23-1ay", convert_word("123"));
}

#[test]
fn split_trims_both_ends() {
    assert_eq!(("!!", "Hi", "?!"), split_punctuation("!!Hi?!"));
}

#[test]
fn split_reconstructs_the_token() {
    for token in ["!!Hi?!", "Hi", "", "?!?", "a.b", "'quoted'"] {
        let (prefix, core, suffix) = split_punctuation(token);
        assert_eq!(token, format!("{}{}{}", prefix, core, suffix));
    }
}

#[test]
fn all_punctuation_goes_to_the_prefix() {
    assert_eq!(("?!?", "", ""), split_punctuation("?!?"));
    assert_eq!("?!?", convert_word_with_punctuation("?!?"));
}

#[test]
fn punctuation_round_trip() {
    let r = convert_word_with_punctuation("!!Hi?!");
    assert_eq!("!!I-hay?!", r);
    assert!(r.starts_with("!!"));
    assert!(r.ends_with("?!"));
}

#[test]
fn inner_punctuation_stays_in_the_core() {
    assert_eq!("on't-day", convert_word("don't"));
}

#[test]
fn whitespace_collapses_to_one_space() {
    assert_eq!("a-hay e-hay", convert_string("a \t\n  e"));
    assert_eq!("a-hay e-hay", convert_string("a e"));
}

#[test]
fn surrounding_whitespace_is_dropped() {
    assert_eq!("Ello-hay", convert_string("  Hello \n"));
    assert_eq!("", convert_string(" \t\n "));
}

#[test]
fn end_to_end_examples() {
    assert_eq!("Ello-hay, orld-way!", convert_string("Hello, world!"));
    assert_eq!("I-hay", convert_string("I"));
    assert_eq!("a-hay", convert_string("a"));
    assert_eq!("!I-hay!", convert_string("!Hi!"));
    assert_eq!("", convert_string(""));
    assert_eq!("I-hay?!", convert_string("I?!"));
}

#[test]
fn vowel_letters() {
    for c in ['a', 'e', 'i', 'o', 'u', 'A', 'E', 'I', 'O', 'U'] {
        assert!(is_vowel(c));
    }
    for c in ['b', 'Z', 'y', '1', '-', ' '] {
        assert!(!is_vowel(c));
    }
}
