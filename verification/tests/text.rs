use papers_editor::chars::{blank, letter};
use papers_editor::text::{append_range, append_str, chars_of, string_of, substring};

#[test]
fn blanks_are_space_tab_and_line_break() {
    assert!(blank(' '));
    assert!(blank('\t'));
    assert!(blank('\n'));
    assert!(!blank('\r'));
    assert!(!blank('a'));
    assert!(!blank('\\'));
    assert!(!blank('\u{a0}'));
}

#[test]
fn letters_are_the_ascii_letters() {
    for c in ['a', 'm', 'z', 'A', 'M', 'Z'] {
        assert!(letter(c), "{:?}", c);
    }
    for c in ['`', '{', '@', '[', '0', '9', ' ', '\\', '*', '_', '\u{e9}', '\u{3b1}'] {
        assert!(!letter(c), "{:?}", c);
    }
}

#[test]
fn substring_takes_characters_of_a_range() {
    let chars = chars_of("h\u{e9}llo");
    assert_eq!(substring(&chars, 0, 5), "h\u{e9}llo");
    assert_eq!(substring(&chars, 1, 3), "\u{e9}l");
    assert_eq!(substring(&chars, 2, 2), "");
    assert_eq!(substring(&chars, 5, 5), "");
}

#[test]
fn append_range_adds_behind_what_is_there() {
    let mut dst = vec!['x'];
    append_range(&mut dst, &['a', 'b', 'c', 'd'], 1, 3);
    assert_eq!(dst, vec!['x', 'b', 'c']);
    append_range(&mut dst, &['a', 'b', 'c', 'd'], 2, 2);
    assert_eq!(dst, vec!['x', 'b', 'c']);
}

#[test]
fn append_str_adds_behind_what_is_there() {
    let mut dst = vec!['x'];
    append_str(&mut dst, "\\y{");
    assert_eq!(dst, vec!['x', '\\', 'y', '{']);
    append_str(&mut dst, "");
    assert_eq!(dst, vec!['x', '\\', 'y', '{']);
}

#[test]
fn string_of_keeps_order_and_length() {
    assert_eq!(string_of(&['c', 'b', 'a']), "cba");
    assert_eq!(string_of(&chars_of("\\cite{a,b}")).chars().count(), 10);
}
