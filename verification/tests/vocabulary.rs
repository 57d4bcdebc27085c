use mujmap::jmap::{
    EmailKeyword, Id, State, EMAIL_KEYWORD_ANSWERED, EMAIL_KEYWORD_DRAFT, EMAIL_KEYWORD_FLAGGED,
    EMAIL_KEYWORD_FORWARDED, EMAIL_KEYWORD_IMPORTANT, EMAIL_KEYWORD_JUNK, EMAIL_KEYWORD_NOT_JUNK,
    EMAIL_KEYWORD_PHISHING, EMAIL_KEYWORD_SEEN,
};
use mujmap::keyed::{Key, KeyMap, KeySet};
use mujmap::text::{chars_of, starts_with, trim, white_space};

fn id(text: &str) -> Id {
    Id(String::from(text))
}

fn items(set: &KeySet<Id>) -> Vec<String> {
    (0..set.len()).map(|i| set.item(i).to_string()).collect()
}

#[test]
fn identifiers_show_their_text() {
    assert_eq!(id("M1").to_string(), "M1");
    assert_eq!(id("").to_string(), "");
    assert_eq!(State(String::from("s:7")).to_string(), "s:7");
}

#[test]
fn identifiers_compare_by_their_text() {
    assert!(id("a") == id("a"));
    assert!(id("a") != id("A"));
    assert!(State(String::from("x")) == State(String::from("x")));
    assert!(State(String::from("x")) != State(String::from("y")));
}

#[test]
fn identifiers_are_copied() {
    let first = id("abc");
    let second = first.clone();
    assert_eq!(first, second);
    let first = State(String::from("abc"));
    assert_eq!(first.clone(), first);
}

#[test]
fn keywords_are_lowercase() {
    let keywords = [
        (EMAIL_KEYWORD_DRAFT, "$draft"),
        (EMAIL_KEYWORD_SEEN, "$seen"),
        (EMAIL_KEYWORD_FLAGGED, "$flagged"),
        (EMAIL_KEYWORD_ANSWERED, "$answered"),
        (EMAIL_KEYWORD_FORWARDED, "$forwarded"),
        (EMAIL_KEYWORD_JUNK, "$junk"),
        (EMAIL_KEYWORD_NOT_JUNK, "$notjunk"),
        (EMAIL_KEYWORD_PHISHING, "$phishing"),
        (EMAIL_KEYWORD_IMPORTANT, "$important"),
    ];
    for (keyword, text) in keywords {
        let keyword: EmailKeyword = String::from(keyword);
        assert_eq!(keyword, text);
        assert_eq!(keyword.to_lowercase(), keyword);
    }
}

#[test]
fn a_set_lists_each_key_once_in_order() {
    let mut set: KeySet<Id> = KeySet::new();
    assert!(set.is_empty());
    for text in ["b", "a", "b", "c", "a"] {
        set.insert(id(text));
    }
    assert_eq!(items(&set), ["b", "a", "c"]);
    assert_eq!(set.len(), 3);
    assert!(!set.is_empty());
    assert!(set.contains("a"));
    assert!(!set.contains("d"));
}

#[test]
fn a_set_takes_in_another() {
    let mut set: KeySet<Id> = KeySet::new();
    set.insert(id("u1"));
    set.insert(id("u2"));
    let mut more: KeySet<Id> = KeySet::new();
    more.insert(id("c1"));
    more.insert(id("u1"));
    set.extend(&more);
    assert_eq!(items(&set), ["u1", "u2", "c1"]);
    assert_eq!(items(&more), ["c1", "u1"]);
}

#[test]
fn a_map_keeps_the_place_of_a_replaced_value() {
    let mut map: KeyMap<Id, u32> = KeyMap::new();
    assert!(map.is_empty());
    map.insert(id("x"), 1);
    map.insert(id("y"), 2);
    map.insert(id("x"), 3);
    assert_eq!(map.len(), 2);
    assert_eq!(map.key(0).text(), "x");
    assert_eq!(*map.value(0), 3);
    assert_eq!(map.get("y"), Some(&2));
    assert_eq!(map.get("z"), None);
    assert!(map.contains_key("x"));
    assert!(!map.contains_key("z"));
}

#[test]
fn a_map_hands_out_its_values_in_order() {
    let mut map: KeyMap<Id, u32> = KeyMap::new();
    assert!(KeyMap::<Id, u32>::new().into_values().is_empty());
    map.insert(id("y"), 1);
    map.insert(id("x"), 2);
    map.insert(id("y"), 3);
    assert_eq!(map.into_values(), [3, 2]);
}

#[test]
fn a_map_gives_up_keys() {
    let mut map: KeyMap<Id, u32> = KeyMap::new();
    map.insert(id("x"), 1);
    map.insert(id("y"), 2);
    map.insert(id("z"), 3);
    let mut drop: KeySet<Id> = KeySet::new();
    drop.insert(id("y"));
    drop.insert(id("unknown"));
    let rest = map.without(&drop);
    assert_eq!(rest.len(), 2);
    assert_eq!(rest.key(0).text(), "x");
    assert_eq!(rest.key(1).text(), "z");
    assert_eq!(rest.get("z"), Some(&3));
    assert_eq!(rest.get("y"), None);
}

#[test]
fn keys_are_duplicated() {
    let key = String::from("inbox");
    assert_eq!(key.duplicate(), "inbox");
    assert_eq!(id("M2").duplicate(), id("M2"));
}

#[test]
fn text_starts_with_a_prefix() {
    assert!(starts_with("M1.B1:2,S", "M1.B1"));
    assert!(starts_with("M1", "M1"));
    assert!(starts_with("M1", ""));
    assert!(!starts_with("M1", "M1.B1"));
    assert!(!starts_with("M2.B1:2,S", "M1.B1"));
    assert!(starts_with("\u{e9}t\u{e9}", "\u{e9}t"));
}

#[test]
fn text_is_trimmed_at_both_ends() {
    let trimmed = |text: &str| trim(text).into_iter().collect::<String>();
    for text in ["", " ", "y\n", "\t y \r\n", "a b", "\u{a0}\u{2003}x\u{3000}", "\u{200b}x"] {
        assert_eq!(trimmed(text), text.trim());
    }
    assert_eq!(trimmed(" \u{85}y z\u{1680} "), "y z");
}

#[test]
fn white_space_is_that_of_unicode() {
    for code in 0..=0x3100u32 {
        if let Some(c) = char::from_u32(code) {
            assert_eq!(white_space(c), c.is_whitespace());
        }
    }
    assert!(!white_space('\u{feff}'));
}

#[test]
fn characters_of_a_text() {
    assert_eq!(chars_of("a\u{1f4e7}b"), ['a', '\u{1f4e7}', 'b']);
    assert!(chars_of("").is_empty());
}
