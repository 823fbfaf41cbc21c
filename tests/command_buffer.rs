use rflibs::command_buffer::{State, STORAGE};

fn insert(cs: &mut State, s: &str) {
    for c in s.chars() {
        cs.insert(c);
    }
}

#[test]
fn command_buffer_starts_empty() {
    let cs = State::init();
    assert_eq!(cs.content(), "");
}

#[test]
fn move_left() {
    let mut cs = State::init();
    insert(&mut cs, "abcd");
    cs.mvleft();
    cs.mvleft();
    cs.insert('_');
    assert_eq!(cs.content(), "ab_cd");
    for _i in 0..5 {
        cs.mvleft();
    }
    cs.insert('_');
    assert_eq!(cs.content(), "_ab_cd");
}

#[test]
fn move_right() {
    let mut cs = State::init();
    insert(&mut cs, "abcd");
    cs.mvleft();
    cs.mvleft();
    cs.mvleft();
    cs.mvright();
    cs.insert('_');
    assert_eq!(cs.content(), "ab_cd");
    for _i in 0..5 {
        cs.mvright();
    }
    cs.insert('_');
    assert_eq!(cs.content(), "ab_cd_");
}

#[test]
fn repeated_inserts() {
    let mut cs = State::init();
    insert(&mut cs, "abc");
    assert_eq!(cs.content(), "abc");

    for _i in 0..STORAGE + 10 {
        cs.insert('_');
    }
    let mut expected = String::from("abc");
    for _i in 0..STORAGE - 3 {
        expected.push('_');
    }
    assert_eq!(cs.content(), expected);
}

#[test]
fn deletes() {
    let mut cs = State::init();
    insert(&mut cs, "abcd");
    cs.mvleft();
    cs.mvleft();
    cs.delete();
    assert_eq!(cs.content(), "abd");
    for _i in 0..5 {
        cs.delete();
    }
    assert_eq!(cs.content(), "ab");
}

#[test]
fn backspaces() {
    let mut cs = State::init();
    insert(&mut cs, "abcd");
    cs.backspace();
    assert_eq!(cs.content(), "abc");
    cs.mvleft();
    cs.mvleft();
    cs.backspace();
    assert_eq!(cs.content(), "bc");
    cs.backspace();
    assert_eq!(cs.content(), "bc");
}

#[test]
fn split() {
    let mut cs = State::init();
    insert(&mut cs, "load from file");
    let mut iter = cs.content().split_whitespace();
    assert_eq!(Some("load"), iter.next());
    assert_eq!(Some("from"), iter.next());
    assert_eq!(Some("file"), iter.next());
    assert_eq!(None, iter.next());
}

#[test]
fn fresh_line_has_no_length_and_cursor_at_start() {
    let cs = State::init();
    assert_eq!(cs.len(), 0);
    assert_eq!(cs.cursor(), 0);
    assert_eq!(cs.content(), "");
    assert_eq!(cs.capacity(), STORAGE);
}

#[test]
fn capacity_of_one_hundred_drops_the_excess() {
    let mut cs = State::with_capacity(100);
    cs.processstr("abc");
    for _i in 0..110 {
        cs.process('_');
    }
    let mut expected = String::from("abc");
    for _i in 0..97 {
        expected.push('_');
    }
    assert_eq!(cs.content(), expected);
    assert_eq!(cs.len(), 100);
    assert_eq!(cs.cursor(), 100);
}

#[test]
fn capacity_above_storage_is_clamped() {
    let cs = State::with_capacity(STORAGE + 50);
    assert_eq!(cs.capacity(), STORAGE);
    let cs = State::with_capacity(0);
    assert_eq!(cs.capacity(), 0);
}

#[test]
fn zero_capacity_takes_nothing() {
    let mut cs = State::with_capacity(0);
    cs.processstr("abc");
    assert_eq!(cs.content(), "");
    assert_eq!(cs.cursor(), 0);
}

#[test]
fn navigation_by_control_codes() {
    let mut cs = State::init();
    cs.processstr("abcd\x02\x02_");
    assert_eq!(cs.content(), "ab_cd");
    cs.processstr("\x02\x02\x02\x02\x02_");
    assert_eq!(cs.content(), "_ab_cd");
    assert_eq!(cs.cursor(), 1);
}

#[test]
fn backspace_by_control_codes() {
    let mut cs = State::init();
    cs.processstr("abcd\x08");
    assert_eq!(cs.content(), "abc");
    cs.processstr("\x02\x02\x08");
    assert_eq!(cs.content(), "bc");
    assert_eq!(cs.cursor(), 0);
    cs.process('\x08');
    assert_eq!(cs.content(), "bc");
    assert_eq!(cs.cursor(), 0);
}

#[test]
fn backspace_at_end_removes_last() {
    let mut cs = State::init();
    cs.processstr("xyz");
    cs.process('\x08');
    assert_eq!(cs.content(), "xy");
    assert_eq!(cs.cursor(), 2);
}

#[test]
fn start_end_and_right_codes() {
    let mut cs = State::init();
    cs.processstr("hello\x01");
    assert_eq!(cs.cursor(), 0);
    cs.process('\x06');
    assert_eq!(cs.cursor(), 1);
    cs.process('\x05');
    assert_eq!(cs.cursor(), 5);
    cs.process('\x06');
    assert_eq!(cs.cursor(), 5);
    cs.process('!');
    assert_eq!(cs.content(), "hello!");
}

#[test]
fn kill_to_end_truncates_at_cursor() {
    let mut cs = State::init();
    cs.processstr("hello world\x01\x06\x06\x06\x06\x06\x0b");
    assert_eq!(cs.content(), "hello");
    assert_eq!(cs.len(), 5);
    assert_eq!(cs.cursor(), 5);
}

#[test]
fn delete_forward_code() {
    let mut cs = State::init();
    cs.processstr("abcd\x02\x02\x7f");
    assert_eq!(cs.content(), "abd");
    cs.processstr("\x7f\x7f\x7f");
    assert_eq!(cs.content(), "ab");
    assert_eq!(cs.cursor(), 2);
}

#[test]
fn multibyte_characters_are_dropped() {
    let mut cs = State::init();
    cs.processstr("a\u{e9}b\u{20ac}c");
    assert_eq!(cs.content(), "abc");
    cs.process('\u{80}');
    assert_eq!(cs.content(), "abc");
    assert_eq!(cs.len(), 3);
}

#[test]
fn invariant_holds_over_mixed_edits() {
    let mut cs = State::with_capacity(4);
    let codes = "ab\x01cdef\x05\x08\x02\x02\x7f\x0bxyz\x06\x06\x02q";
    for c in codes.chars() {
        cs.process(c);
        assert!(cs.cursor() <= cs.len());
        assert!(cs.len() <= cs.capacity());
    }
}
