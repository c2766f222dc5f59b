use monkeylib::dictionary::Dictionary;
use monkeylib::words::{word_order, WordOrder, WordSet};

fn strings(list: &[&str]) -> Vec<String> {
    list.iter().map(|w| w.to_string()).collect()
}

fn contents(set: &WordSet) -> Vec<String> {
    (0..set.len()).map(|i| set.word(i).clone()).collect()
}

#[test]
fn dict() {
    let dictionary = Dictionary::new(strings(&["word", "report", "and", "for", "report", "that", "this"]));
    assert_eq!(dictionary.len(), 6usize);

    assert!(dictionary.contains("word"));
    assert!(!dictionary.contains("notaword"));

    assert!(!dictionary.contains("repor"));
    assert!(dictionary.contains("report"));
    assert!(!dictionary.contains("reportr"));
}

#[test]
fn empty_dictionary_holds_nothing() {
    let dictionary = Dictionary::new(Vec::new());
    assert_eq!(dictionary.len(), 0);
    assert!(!dictionary.contains(""));
    assert!(!dictionary.contains("and"));
    assert!(dictionary.contains_all(&WordSet::new()));
    assert!(!dictionary.contains_all(&WordSet::from_words(strings(&["and"]))));
}

#[test]
fn word_order_is_that_of_the_bytes() {
    assert_eq!(word_order("and", "for"), WordOrder::Before);
    assert_eq!(word_order("for", "and"), WordOrder::After);
    assert_eq!(word_order("and", "and"), WordOrder::Same);
    assert_eq!(word_order("", ""), WordOrder::Same);
    assert_eq!(word_order("", "a"), WordOrder::Before);
    assert_eq!(word_order("repor", "report"), WordOrder::Before);
    assert_eq!(word_order("reportr", "report"), WordOrder::After);
    assert_eq!(word_order("Zebra", "apple"), WordOrder::Before);
    assert_eq!(word_order("z", "\u{e9}"), WordOrder::Before);
    assert_eq!(word_order("\u{e9}", "\u{4e16}"), WordOrder::Before);
    for (a, b) in [("and", "for"), ("b", "a"), ("x", "x"), ("\u{10348}", "\u{ffff}")] {
        let expected = match a.cmp(b) {
            std::cmp::Ordering::Less => WordOrder::Before,
            std::cmp::Ordering::Equal => WordOrder::Same,
            std::cmp::Ordering::Greater => WordOrder::After,
        };
        assert_eq!(word_order(a, b), expected);
    }
}

#[test]
fn word_set_keeps_words_in_order_and_once() {
    let set = WordSet::from_words(strings(&["this", "and", "that", "and", "for", "this"]));
    assert_eq!(contents(&set), strings(&["and", "for", "that", "this"]));
    assert!(set.contains("that"));
    assert!(!set.contains("tha"));
    assert_eq!(set.find("and"), (true, 0));
    assert_eq!(set.find("this"), (true, 3));
    assert_eq!(set.find("aaa"), (false, 0));
    assert_eq!(set.find("go"), (false, 2));
    assert_eq!(set.find("zoo"), (false, 4));
    assert_eq!(contents(&set.clone()), contents(&set));
}

#[test]
fn word_set_insert_and_push_last() {
    let mut set = WordSet::new();
    assert_eq!(set.len(), 0);
    assert!(set.insert("for".to_string()));
    assert!(set.insert("and".to_string()));
    assert!(!set.insert("for".to_string()));
    assert!(set.insert("this".to_string()));
    assert_eq!(contents(&set), strings(&["and", "for", "this"]));
    assert!(!set.push_last("that".to_string()));
    assert!(!set.push_last("this".to_string()));
    assert!(set.push_last("zoo".to_string()));
    assert_eq!(contents(&set), strings(&["and", "for", "this", "zoo"]));
}

#[test]
fn word_set_subset() {
    let big = WordSet::from_words(strings(&["and", "for", "that", "this"]));
    let small = WordSet::from_words(strings(&["that", "and"]));
    assert!(small.is_subset(&big));
    assert!(!big.is_subset(&small));
    assert!(big.is_subset(&big));
    assert!(WordSet::new().is_subset(&small));
}
