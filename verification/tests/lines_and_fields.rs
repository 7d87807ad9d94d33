use crosshair_switcher::field::line_starts_with;
use crosshair_switcher::field::line_value;
use crosshair_switcher::field::line_with_value;
use crosshair_switcher::number::decimal_of;
use crosshair_switcher::path::file_stem_of;
use crosshair_switcher::path::path_names_file;
use crosshair_switcher::text::char_is_space;
use crosshair_switcher::text::chars_of;
use crosshair_switcher::text::join_of;
use crosshair_switcher::text::lines_of;
use crosshair_switcher::text::string_of;
use crosshair_switcher::Error;
use crosshair_switcher::WeaponFile;

fn lines(text: &str) -> Vec<String> {
    lines_of(&chars_of(text)).iter().map(string_of).collect()
}

fn with_value(line: &str, value: &str) -> Option<String> {
    line_with_value(&chars_of(line), &chars_of(value)).map(|l| string_of(&l))
}

fn stem(path: &str) -> String {
    string_of(&file_stem_of(&chars_of(path)))
}

#[test]
fn lines_keep_their_terminators() {
    assert_eq!(lines("a\nb\r\n\nc"), vec!["a\n", "b\r\n", "\n", "c"]);
    assert_eq!(lines("a\n"), vec!["a\n"]);
    assert_eq!(lines("\n"), vec!["\n"]);
    assert_eq!(lines(""), Vec::<String>::new());
    assert_eq!(lines("no line feed"), vec!["no line feed"]);
}

#[test]
fn joining_the_lines_gives_the_text_back() {
    for text in ["", "a", "a\n", "a\r\nb\n\n  c  ", "\n\n\n", "\u{e9}t\u{e9}\n\u{2003}x"] {
        let joined = string_of(&join_of(&lines_of(&chars_of(text))));
        assert_eq!(joined, text);
    }
}

#[test]
fn whitespace_is_what_unicode_says() {
    for c in ['\t', '\n', '\u{b}', '\u{c}', '\r', ' ', '\u{85}', '\u{a0}', '\u{1680}', '\u{2000}',
        '\u{200a}', '\u{2028}', '\u{2029}', '\u{202f}', '\u{205f}', '\u{3000}']
    {
        assert!(char_is_space(c));
    }
    for c in ['a', '"', '}', '\u{8}', '\u{e}', '\u{200b}', '\u{feff}', '0', '\u{1f}'] {
        assert!(!char_is_space(c));
    }
    let mut c = '\0';
    loop {
        assert_eq!(char_is_space(c), c.is_whitespace());
        if c == '\u{ffff}' {
            break;
        }
        c = char::from_u32(c as u32 + 1).unwrap_or('\u{e000}');
    }
}

#[test]
fn get_value_takes_the_second_token_without_quotes() {
    assert_eq!(WeaponFile::get_value("\"file\"\t\t\"sprites/crosshairs\""), Ok("sprites/crosshairs".to_string()));
    assert_eq!(WeaponFile::get_value("   \"x\"   \"0\"   // comment\n"), Ok("0".to_string()));
    assert_eq!(WeaponFile::get_value("a b c"), Ok("b".to_string()));
    assert_eq!(WeaponFile::get_value("key \"a\"b\"c\""), Ok("abc".to_string()));
    assert_eq!(WeaponFile::get_value("key \"\""), Ok(String::new()));
    assert_eq!(WeaponFile::get_value("key\u{a0}value"), Ok("value".to_string()));
}

#[test]
fn get_value_fails_without_a_second_token() {
    assert_eq!(WeaponFile::get_value("\"file\""), Err(Error::MalformedField));
    assert_eq!(WeaponFile::get_value("  \"file\"  \r\n"), Err(Error::MalformedField));
    assert_eq!(WeaponFile::get_value(""), Err(Error::MalformedField));
    assert_eq!(WeaponFile::get_value("   "), Err(Error::MalformedField));
    assert_eq!(line_value(&chars_of("one")), None);
}

#[test]
fn a_value_is_written_between_the_quotes() {
    assert_eq!(
        with_value("\t\"file\"\t\t\"sprites/crosshairs\"\r\n", "vgui/replay/thumbnails/bigcross"),
        Some("\t\"file\"\t\t\"vgui/replay/thumbnails/bigcross\"\r\n".to_string())
    );
    assert_eq!(with_value("\"x\" 64", "0"), Some("\"x\" 0".to_string()));
    assert_eq!(
        with_value("  \"width\"  \"32\"  // in pixels \"32\"\n", "128"),
        Some("  \"width\"  \"128\"  // in pixels \"32\"\n".to_string())
    );
}

#[test]
fn only_the_value_token_changes() {
    assert_eq!(with_value("\"x\" \"x\"", "0"), Some("\"x\" \"0\"".to_string()));
    assert_eq!(with_value("\"0\" \"0\" 0", "7"), Some("\"0\" \"7\" 0".to_string()));
    assert_eq!(with_value("\"a\" \"aa\"", "b"), Some("\"a\" \"b\"".to_string()));
}

#[test]
fn an_empty_value_gets_the_new_value_in_front() {
    assert_eq!(with_value("\"file\" \"\"", "abc"), Some("\"file\" abc\"\"".to_string()));
}

#[test]
fn a_value_with_quotes_inside_is_left_alone() {
    assert_eq!(with_value("\"file\" \"a\"b\"", "abc"), Some("\"file\" \"a\"b\"".to_string()));
}

#[test]
fn a_line_without_a_value_gets_none() {
    assert_eq!(with_value("\"file\"", "abc"), None);
    assert_eq!(with_value("", "abc"), None);
}

#[test]
fn replace_value_changes_one_line() {
    let mut v = vec!["\"x\" \"64\"".to_string(), "\"y\" \"64\"".to_string(), "}".to_string()];
    assert_eq!(WeaponFile::replace_value(&mut v, 1, "0"), Ok(()));
    assert_eq!(v, vec!["\"x\" \"64\"", "\"y\" \"0\"", "}"]);
    assert_eq!(WeaponFile::replace_value(&mut v, 2, "0"), Err(Error::MalformedField));
    assert_eq!(v, vec!["\"x\" \"64\"", "\"y\" \"0\"", "}"]);
}

#[test]
fn a_key_is_looked_for_in_the_trimmed_line() {
    let key = chars_of("\"file\"");
    assert!(line_starts_with(&chars_of("\"file\" \"a\""), &key));
    assert!(line_starts_with(&chars_of(" \t \"file\"\n"), &key));
    assert!(line_starts_with(&chars_of("\"file\"x"), &key));
    assert!(!line_starts_with(&chars_of("x \"file\""), &key));
    assert!(!line_starts_with(&chars_of("\"fil"), &key));
    assert!(!line_starts_with(&chars_of(""), &key));
    assert!(line_starts_with(&chars_of("   "), &chars_of("")));
}

#[test]
fn decimal_notation() {
    assert_eq!(string_of(&decimal_of(0)), "0");
    assert_eq!(string_of(&decimal_of(7)), "7");
    assert_eq!(string_of(&decimal_of(64)), "64");
    assert_eq!(string_of(&decimal_of(1024)), "1024");
    assert_eq!(string_of(&decimal_of(-5)), "-5");
    assert_eq!(string_of(&decimal_of(i32::MAX)), "2147483647");
    assert_eq!(string_of(&decimal_of(i32::MIN)), "-2147483648");
    for n in [1, 9, 10, 11, 99, 100, 101, 12345, -1, -10, -999] {
        assert_eq!(string_of(&decimal_of(n)), n.to_string());
    }
}

#[test]
fn file_stems() {
    assert_eq!(stem("vgui/replay/thumbnails/bigcross.vtf"), "bigcross");
    assert_eq!(stem("C:\\tf\\scripts\\tf_weapon_cannon.txt"), "tf_weapon_cannon");
    assert_eq!(stem("a.b.c"), "a.b");
    assert_eq!(stem("dir.d/name"), "name");
    assert_eq!(stem(".hidden"), ".hidden");
    assert_eq!(stem("name."), "name");
    assert_eq!(stem(""), "");
    assert_eq!(stem("dir/"), "");
}

#[test]
fn paths_that_name_a_file() {
    assert!(path_names_file(&chars_of("scripts/tf_weapon_cannon.txt")));
    assert!(path_names_file(&chars_of("a")));
    assert!(path_names_file(&chars_of("...")));
    assert!(!path_names_file(&chars_of("")));
    assert!(!path_names_file(&chars_of("scripts/")));
    assert!(!path_names_file(&chars_of("scripts/..")));
    assert!(!path_names_file(&chars_of(".")));
}
