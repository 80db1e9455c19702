use fs_watch_rs::paths::{extension_text, file_name_text, name_extension, path_file_name};
use fs_watch_rs::text::{char_is_space, parse_comma_list, split_str, strip_leading_str, trim_str};

#[test]
fn trim_removes_surrounding_white_space() {
    assert_eq!(trim_str("  a b \t\n"), "a b");
    assert_eq!(trim_str("\u{3000}x\u{a0}"), "x");
    assert_eq!(trim_str("   "), "");
    assert_eq!(trim_str(""), "");
}

#[test]
fn white_space_follows_unicode() {
    assert!(char_is_space(' '));
    assert!(char_is_space('\u{2028}'));
    assert!(!char_is_space('a'));
    assert!(!char_is_space('\u{200b}'));
    for c in ['\t', '\n', '\u{b}', '\u{c}', '\r', ' ', '\u{85}', '\u{a0}', '\u{1680}', '\u{2000}', '\u{200a}', '\u{202f}', '\u{205f}', '\u{3000}', 'x', '.', '\u{180e}'] {
        assert_eq!(char_is_space(c), c.is_whitespace());
    }
}

#[test]
fn split_keeps_empty_pieces() {
    assert_eq!(split_str("a,b,,c,", ','), vec!["a", "b", "", "c", ""]);
    assert_eq!(split_str("", ','), vec![""]);
    assert_eq!(split_str("abc", ','), vec!["abc"]);
}

#[test]
fn comma_list_trims_and_drops_empty_entries() {
    assert_eq!(parse_comma_list(" .rs , toml,, ,md "), vec![".rs", "toml", "md"]);
    assert_eq!(parse_comma_list(""), Vec::<String>::new());
    assert_eq!(parse_comma_list(" , "), Vec::<String>::new());
}

#[test]
fn strip_leading_removes_every_leading_dot() {
    assert_eq!(strip_leading_str("..rs", '.'), "rs");
    assert_eq!(strip_leading_str("rs", '.'), "rs");
    assert_eq!(strip_leading_str("r.s", '.'), "r.s");
    assert_eq!(strip_leading_str("...", '.'), "");
}

#[test]
fn file_name_follows_path_components() {
    let cases = ["src/main.rs", "/var/log/system.log", "a/b/", "a/b/.", "a/..", "/", ".", "", "./x", "a//b", "..", "../a", "a/./b"];
    for c in cases {
        let expected = std::path::Path::new(c).file_name().map(|f| f.to_str().unwrap().to_string());
        assert_eq!(path_file_name(c), expected, "path {:?}", c);
    }
    assert_eq!(file_name_text("a/.."), "");
    assert_eq!(file_name_text("dir/file.txt"), "file.txt");
}

#[test]
fn extension_follows_path_rules() {
    let cases = ["src/main.rs", "Cargo.toml", "README", ".bashrc", "a.", "archive.tar.gz", "dir.d/file", ".a.b", "...", "x/", "a/..", "dir/.hidden.txt"];
    for c in cases {
        let expected = std::path::Path::new(c).extension().map(|f| f.to_str().unwrap().to_string());
        let name = path_file_name(c);
        let got = match name {
            Some(n) => name_extension(&n),
            None => None,
        };
        assert_eq!(got, expected, "path {:?}", c);
        assert_eq!(extension_text(c), expected.clone().unwrap_or_default(), "path {:?}", c);
    }
}
