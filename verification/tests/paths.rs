use game_drive::host::{FileKind, FsEntry, HostFs};
use game_drive::path::{char_lower, expand_tilde, join_path, parent_path, translate};
use game_drive::prefix::ProtonPrefix;
use game_drive::text::{
    char_is_whitespace, chars_of, decimal_string, find_char, lines_of, same_chars, slice_of,
    string_of, trim_bounds,
};

fn prefix() -> ProtonPrefix {
    let mut fs = HostFs::new();
    fs.add_dir("/p");
    fs.add_file("/p/user.reg", "");
    fs.add_dir("/p/dosdevices");
    ProtonPrefix::from_path(&fs, "/p".to_string()).unwrap()
}

#[test]
fn windows_path_is_put_under_dosdevices() {
    let p = prefix();
    assert_eq!(p.parse_windows_path("C:\\Users\\x"), "/p/dosdevices/c:/Users/x");
    assert_eq!(
        p.parse_windows_path("C:\\\\users\\\\x\\\\AppData\\\\Roaming"),
        "/p/dosdevices/c:/users/x/AppData/Roaming"
    );
    assert_eq!(p.parse_windows_path("Z:\\"), "/p/dosdevices/z:/");
    assert_eq!(p.get_c_drive(), "/p/dosdevices/c:/");
    // only the first character is put in lower case
    assert_eq!(p.parse_windows_path("D:\\GAMES\\Foo"), "/p/dosdevices/d:/GAMES/Foo");
    // three backslashes are a pair and one more
    assert_eq!(p.parse_windows_path("C:\\\\\\x"), "/p/dosdevices/c://x");
    assert_eq!(p.parse_windows_path("C:/already/slashes"), "/p/dosdevices/c:/already/slashes");
    assert_eq!(translate("/p/", "C:\\x"), "/p/dosdevices/c:/x");
}

#[test]
fn empty_windows_path_is_the_prefix() {
    assert_eq!(prefix().parse_windows_path(""), "/p");
    assert_eq!(translate("/some/pfx", ""), "/some/pfx");
}

#[test]
fn drive_letter_case_makes_no_difference() {
    let p = prefix();
    assert_eq!(p.parse_windows_path("C:\\Users\\x"), p.parse_windows_path("c:\\Users\\x"));
    assert_eq!(p.parse_windows_path("Q:\\a\\B"), p.parse_windows_path("q:\\a\\B"));
    assert_ne!(p.parse_windows_path("C:\\Users\\x"), p.parse_windows_path("C:\\users\\x"));
    // a first character that is no capital stays as it is
    assert_eq!(p.parse_windows_path("\u{c4}:\\x"), "/p/dosdevices/\u{c4}:/x");
    assert_eq!(p.parse_windows_path("\\x"), "/p/dosdevices//x");
    assert_eq!(p.parse_windows_path("1\\x"), "/p/dosdevices/1/x");
}

#[test]
fn lower_case_of_ascii_capitals_only() {
    assert_eq!(char_lower('A'), 'a');
    assert_eq!(char_lower('Z'), 'z');
    assert_eq!(char_lower('M'), 'm');
    assert_eq!(char_lower('a'), 'a');
    assert_eq!(char_lower('@'), '@');
    assert_eq!(char_lower('['), '[');
    assert_eq!(char_lower('\u{c4}'), '\u{c4}');
    assert_eq!(char_lower('0'), '0');
}

#[test]
fn joining_paths() {
    assert_eq!(join_path("/a", "b"), "/a/b");
    assert_eq!(join_path("/a/", "b"), "/a/b");
    assert_eq!(join_path("", "b"), "b");
    assert_eq!(join_path("/", "b"), "/b");
    assert_eq!(join_path("/a", ""), "/a/");
    assert_eq!(join_path("/a", "b/c"), "/a/b/c");
    assert_eq!(join_path("rel", "x"), "rel/x");
}

#[test]
fn parent_of_a_path() {
    assert_eq!(parent_path("/a/b/steamapps"), "/a/b");
    assert_eq!(parent_path("/a/b/steamapps/"), "/a/b");
    assert_eq!(parent_path("/a/b//steamapps"), "/a/b");
    assert_eq!(parent_path("/steamapps"), "/");
    assert_eq!(parent_path("/"), "/");
    assert_eq!(parent_path("steamapps"), "");
    assert_eq!(parent_path(""), "");
    assert_eq!(parent_path("a/b"), "a");
}

#[test]
fn tilde_is_the_home_directory() {
    assert_eq!(expand_tilde("/home/u", "~/.steam/steam"), "/home/u/.steam/steam");
    assert_eq!(expand_tilde("/home/u/", "~/.steam/steam"), "/home/u/.steam/steam");
    assert_eq!(
        expand_tilde("/home/u", "~/.var/app/com.valvesoftware.Steam/data/Steam/"),
        "/home/u/.var/app/com.valvesoftware.Steam/data/Steam/"
    );
    assert_eq!(expand_tilde("/home/u", "/abs/path"), "/abs/path");
    assert_eq!(expand_tilde("/home/u", "~"), "~");
    assert_eq!(expand_tilde("/home/u", "~user/x"), "~user/x");
    assert_eq!(expand_tilde("/home/u", "~/"), "/home/u/");
    assert_eq!(expand_tilde("/home/u", ""), "");
}

#[test]
fn decimal_numerals() {
    assert_eq!(decimal_string(0), "0");
    assert_eq!(decimal_string(7), "7");
    assert_eq!(decimal_string(10), "10");
    assert_eq!(decimal_string(100), "100");
    assert_eq!(decimal_string(2420510), "2420510");
    assert_eq!(decimal_string(u32::MAX), "4294967295");
}

#[test]
fn text_helpers() {
    let v = chars_of("  a\u{e4}b \t");
    assert_eq!(v.len(), 7);
    assert_eq!(trim_bounds(&v, 0, v.len()), (2, 5));
    assert_eq!(trim_bounds(&v, 0, 2), (2, 2));
    assert_eq!(trim_bounds(&v, 3, 4), (3, 4));
    assert_eq!(string_of(&v, 2, 5), "a\u{e4}b");
    assert_eq!(slice_of(&v, 2, 4), vec!['a', '\u{e4}']);
    assert_eq!(find_char(&v, 0, v.len(), 'b'), Some(4));
    assert_eq!(find_char(&v, 0, 4, 'b'), None);
    assert_eq!(find_char(&v, 1, v.len(), ' '), Some(1));
    assert!(same_chars(&chars_of("abc"), &chars_of("abc")));
    assert!(!same_chars(&chars_of("abc"), &chars_of("abd")));
    assert!(!same_chars(&chars_of("abc"), &chars_of("ab")));
    assert!(same_chars(&chars_of(""), &chars_of("")));
    assert!(!same_chars(&chars_of("a"), &chars_of("A")));
    for c in [' ', '\t', '\n', '\u{b}', '\u{c}', '\r', '\u{85}', '\u{a0}', '\u{1680}', '\u{2000}',
        '\u{200a}', '\u{2028}', '\u{2029}', '\u{202f}', '\u{205f}', '\u{3000}']
    {
        assert!(char_is_whitespace(c));
        assert!(c.is_whitespace());
    }
    for c in ['a', '0', '"', '\u{8}', '\u{e}', '\u{200b}', '\u{feff}', '\u{1f}', '\u{2060}'] {
        assert!(!char_is_whitespace(c));
        assert!(!c.is_whitespace());
    }
}

#[test]
fn whitespace_agrees_with_the_standard_library() {
    let mut c = 0u32;
    while c <= 0x3100 {
        if let Some(ch) = char::from_u32(c) {
            assert_eq!(char_is_whitespace(ch), ch.is_whitespace());
        }
        c += 1;
    }
}

#[test]
fn lines_are_split_at_line_feeds_and_trimmed() {
    let lines = lines_of(&chars_of(" a \r\n\nb\n"));
    let text: Vec<String> = lines.iter().map(|l| l.iter().collect()).collect();
    assert_eq!(text, vec!["a".to_string(), "".to_string(), "b".to_string()]);
    assert_eq!(lines_of(&chars_of("")).len(), 0);
    assert_eq!(lines_of(&chars_of("\n")).len(), 1);
    assert_eq!(lines_of(&chars_of("x")).len(), 1);
    assert_eq!(lines_of(&chars_of("x\ny")).len(), 2);
    assert_eq!(lines_of(&chars_of("x\n\n")).len(), 2);
}

#[test]
fn host_table_lookups() {
    let mut fs = HostFs::new();
    fs.add_dir("/d");
    fs.add_file("/d/f", "text");
    fs.add_dir_at("/link", "/d", true);
    fs.add_dir("/d/sub");
    fs.add_file("/d/sub/deep", "");
    fs.add_file("/dx", "");
    fs.add(FsEntry {
        path: "/d/sock".to_string(),
        kind: FileKind::Other,
        symlink: false,
        canonical: "/d/sock".to_string(),
        text: None,
    });
    assert!(fs.path_exists("/d") && fs.path_is_dir("/d") && !fs.path_is_file("/d"));
    assert!(fs.path_exists("/d/f") && fs.path_is_file("/d/f") && !fs.path_is_dir("/d/f"));
    assert!(fs.path_exists("/d/sock") && !fs.path_is_file("/d/sock") && !fs.path_is_dir("/d/sock"));
    assert!(!fs.path_exists("/nope") && !fs.path_is_dir("/nope") && !fs.path_is_file("/nope"));
    assert!(fs.path_is_symlink("/link") && !fs.path_is_symlink("/d") && !fs.path_is_symlink("/nope"));
    assert_eq!(fs.canonicalize("/link"), Some("/d".to_string()));
    assert_eq!(fs.canonicalize("/d/f"), Some("/d/f".to_string()));
    assert_eq!(fs.canonicalize("/nope"), None);
    assert_eq!(fs.read_to_string("/d/f").map(|s| s.as_str()), Some("text"));
    assert_eq!(fs.read_to_string("/d"), None);
    assert_eq!(fs.read_to_string("/d/sock"), None);
    assert_eq!(fs.read_to_string("/nope"), None);
    assert_eq!(
        fs.read_dir("/d"),
        Some(vec!["f".to_string(), "sub".to_string(), "sock".to_string()])
    );
    assert_eq!(fs.read_dir("/d/sub"), Some(vec!["deep".to_string()]));
    assert_eq!(fs.read_dir("/link"), Some(vec![]));
    assert_eq!(fs.read_dir("/d/f"), None);
    assert_eq!(fs.read_dir("/nope"), None);
    assert_eq!(fs.lookup("/d/f"), Some(1));
    assert_eq!(fs.lookup("/nope"), None);
    // the first entry for a path counts
    fs.add_file("/d", "now a file");
    assert!(fs.path_is_dir("/d"));
    assert_eq!(fs.lookup("/d"), Some(0));
}
