use deepseek_harness_runtime::path::{
    absolute, extension_of, join_path, last_name, parent_of, path_names, set_extension,
    set_path_extension, PathStyle,
};
use deepseek_harness_runtime::text::{
    comes_first, cut_bytes, decimal_text, has_part, replace, signed_text, split_words, trim_text,
    Separator,
};
use std::path::Path;

/// Paths to compare with what the standard library makes of them.
fn samples() -> Vec<&'static str> {
    vec![
        "", "/", "//", ".", "..", "a", "a/", "a/b", "/a", "/a/", "/a/b", "/a/b/", "a//b", "a/./b",
        "a/b/.", "./a", "/./a", "/.", "a/..", "../a", "a.b", ".a", ".a.b", "a.", "/x/y.tar.gz",
        "/x/.hidden", "a/b/./", "/..", "文/件.js",
    ]
}

#[test]
fn joining_is_as_in_the_standard_library() {
    for a in samples() {
        for b in samples() {
            let joined = join_path(PathStyle::Unix, a, b);
            assert_eq!(joined, Path::new(a).join(b).to_str().unwrap(), "{a:?} {b:?}");
        }
    }
}

#[test]
fn parents_are_as_in_the_standard_library() {
    for a in samples() {
        let parent = parent_of(PathStyle::Unix, a);
        assert_eq!(parent.as_deref(), Path::new(a).parent().map(|p| p.to_str().unwrap()), "{a:?}");
    }
}

#[test]
fn names_are_as_in_the_standard_library() {
    for a in samples() {
        let name = last_name(PathStyle::Unix, a);
        let std_name = Path::new(a).file_name().map(|n| n.to_str().unwrap());
        assert_eq!(name.as_deref(), std_name, "{a:?}");
        let ext = name.as_deref().and_then(|n| extension_of(n));
        assert_eq!(ext, Path::new(a).extension().map(|e| e.to_str().unwrap()), "{a:?}");
        if let Some(n) = std_name {
            let renamed = set_extension(n, "part");
            assert_eq!(renamed, Path::new(n).with_extension("part").to_str().unwrap(), "{a:?}");
        }
        let renamed = set_path_extension(PathStyle::Unix, a, "part");
        assert_eq!(renamed, Path::new(a).with_extension("part").to_str().unwrap(), "{a:?}");
        assert_eq!(absolute(PathStyle::Unix, a), Path::new(a).is_absolute(), "{a:?}");
    }
}

#[test]
fn windows_paths() {
    let w = PathStyle::Windows;
    assert_eq!(join_path(w, "C:\\a", "b"), "C:\\a\\b");
    assert_eq!(join_path(w, "C:\\a\\", "b"), "C:\\a\\b");
    assert_eq!(join_path(w, "C:\\a", "\\b"), "C:\\b");
    assert_eq!(join_path(w, "C:\\a", "D:b"), "D:b");
    assert_eq!(join_path(w, "C:", "b"), "C:b");
    assert_eq!(join_path(w, "C:\\a", "\\\\server\\share"), "\\\\server\\share");
    assert!(absolute(w, "C:\\a"));
    assert!(absolute(w, "C:/a"));
    assert!(!absolute(w, "C:a"));
    assert!(!absolute(w, "\\a"));
    assert_eq!(path_names(w, "C:\\a/b\\.\\c"), vec!["a", "b", "c"]);
    assert_eq!(parent_of(w, "C:\\a\\b").as_deref(), Some("C:\\a"));
    assert_eq!(parent_of(w, "C:\\a").as_deref(), Some("C:\\"));
    assert_eq!(parent_of(w, "C:\\"), None);
    assert_eq!(set_path_extension(w, "C:\\a.b\\c.zip", "part"), "C:\\a.b\\c.part");
    assert_eq!(set_path_extension(w, "C:\\", "part"), "C:\\");
    assert_eq!(last_name(w, "C:\\bin\\npm.cmd").as_deref(), Some("npm.cmd"));
}

#[test]
fn paths_on_a_network_share() {
    let w = PathStyle::Windows;
    assert!(absolute(w, r"\\srv\share"));
    assert!(absolute(w, r"\\srv\share\app"));
    assert!(absolute(w, "//srv/share/app"));
    assert!(!absolute(w, r"\\srv"));
    assert!(!absolute(w, r"\\srv\"));
    assert!(!absolute(w, r"\\srv\\share"));
    assert_eq!(join_path(w, r"\\srv\share\app", r"\data"), r"\\srv\share\data");
    assert_eq!(join_path(w, r"\\srv\share", "data"), r"\\srv\share\data");
    assert_eq!(join_path(w, r"\\srv\share\app", "data"), r"\\srv\share\app\data");
    assert_eq!(join_path(w, r"\\srv\share\app", r"C:\data"), r"C:\data");
    assert_eq!(join_path(w, r"C:\app", r"\\srv"), r"C:\\srv");
    assert_eq!(path_names(w, r"\\srv\share\a\.\b"), vec!["a", "b"]);
    assert_eq!(path_names(w, r"\\srv\share"), Vec::<String>::new());
    assert_eq!(path_names(w, r"\\srv"), vec!["srv"]);
    assert_eq!(parent_of(w, r"\\srv\share\a\b").as_deref(), Some(r"\\srv\share\a"));
    assert_eq!(parent_of(w, r"\\srv\share\a").as_deref(), Some(r"\\srv\share\"));
    assert_eq!(parent_of(w, r"\\srv\share"), None);
    assert_eq!(last_name(w, r"\\srv\share"), None);
    assert_eq!(last_name(w, r"\\srv\share\x.js").as_deref(), Some("x.js"));
}

#[test]
fn paths_to_devices() {
    let w = PathStyle::Windows;
    assert!(absolute(w, r"\\.\COM1"));
    assert_eq!(path_names(w, r"\\.\pipe\a"), vec!["a"]);
    assert_eq!(join_path(w, r"\\.\pipe\a", r"\b"), r"\\.\pipe\b");
}

#[test]
fn verbatim_paths() {
    let w = PathStyle::Windows;
    assert!(absolute(w, r"\\?\C:\a"));
    assert!(absolute(w, r"\\?\UNC\srv\share"));
    assert!(absolute(w, r"\\?\volume"));
    assert_eq!(join_path(w, r"\\?\C:\a", "b/c"), r"\\?\C:\a\b\c");
    assert_eq!(join_path(w, r"\\?\C:\a\b", "../x/./y"), r"\\?\C:\a\x\y");
    assert_eq!(join_path(w, r"\\?\C:\a", "../../.."), r"\\?\C:\");
    assert_eq!(join_path(w, r"\\?\C:\a\b", r"\x"), r"\\?\C:\x");
    assert_eq!(join_path(w, r"\\?\C:", "x"), r"\\?\C:\x");
    assert_eq!(join_path(w, r"\\?\UNC\srv\share\app", r"\data"), r"\\?\UNC\srv\share\data");
    assert_eq!(join_path(w, r"\\?\volume\a", "b"), r"\\?\volume\a\b");
    assert_eq!(join_path(w, r"\\?\C:\a", r"D:\b"), r"D:\b");
    assert_eq!(path_names(w, r"\\?\C:\a/b\.\c"), vec!["a/b", ".", "c"]);
    assert_eq!(last_name(w, r"\\?\C:\a/b").as_deref(), Some("a/b"));
    assert_eq!(last_name(w, r"\\?\C:\a\."), None);
    assert_eq!(parent_of(w, r"\\?\C:\a\b").as_deref(), Some(r"\\?\C:\a"));
    assert_eq!(parent_of(w, r"\\?\C:\"), None);
    assert_eq!(path_names(w, "//?/C:/a"), vec!["a"]);
}

#[test]
fn joined_names_stand_behind_those_of_the_base() {
    let cases = [
        (PathStyle::Unix, "/ws", "a/b", vec!["ws", "a", "b"]),
        (PathStyle::Unix, "/ws/", "./a//b/", vec!["ws", "a", "b"]),
        (PathStyle::Unix, "", "a", vec!["a"]),
        (PathStyle::Unix, "/ws", "a/../b", vec!["ws", "a", "..", "b"]),
        (PathStyle::Windows, "C:", "a", vec!["a"]),
        (PathStyle::Windows, r"C:\ws", "a/b", vec!["ws", "a", "b"]),
        (PathStyle::Windows, r"\\srv\share", "a", vec!["a"]),
        (PathStyle::Windows, r"\\?\C:\ws", r"a\b", vec!["ws", "a", "b"]),
    ];
    for (style, base, name, names) in cases {
        assert_eq!(path_names(style, &join_path(style, base, name)), names, "{base:?} {name:?}");
    }
}

#[test]
fn trimming_and_words_are_as_in_the_standard_library() {
    for s in ["", " ", "a", " a ", "\t\na b\u{3000}", "\u{a0}x\u{2003}y", "a\u{200b}b", "\u{1c}a"] {
        assert_eq!(trim_text(s), s.trim(), "{s:?}");
        let words = split_words(s, Separator::Space);
        let std_words: Vec<&str> = s.split_whitespace().collect();
        assert_eq!(words, std_words, "{s:?}");
    }
}

#[test]
fn every_white_space_is_known() {
    let mut u: u32 = 0;
    while u <= 0x10ffff {
        if let Some(c) = char::from_u32(u) {
            assert_eq!(Separator::Space.test(c), c.is_whitespace(), "{u:x}");
        }
        u += 1;
    }
}

#[test]
fn replacing_is_as_in_the_standard_library() {
    for (s, w) in [("{}", "x"), ("a{}b{}", "{}"), ("{{}}", "y"), ("", "z"), ("{ }", "q"), ("文{}", "字")] {
        assert_eq!(replace(s, "{}", w), s.replace("{}", w));
    }
}

#[test]
fn texts_are_ordered_as_in_the_standard_library() {
    for a in ["", "a", "ab", "b", "文", "z", "\u{10000}", "\u{ffff}"] {
        for b in ["", "a", "ab", "b", "文", "z", "\u{10000}", "\u{ffff}"] {
            assert_eq!(comes_first(a, b), a <= b, "{a:?} {b:?}");
            assert_eq!(has_part(a, b), a.contains(b), "{a:?} {b:?}");
        }
    }
}

#[test]
fn numbers_are_written_as_in_the_standard_library() {
    for n in [0u64, 7, 10, 99, 100, 12345, u64::MAX] {
        assert_eq!(decimal_text(n), n.to_string());
    }
    for n in [0i32, -1, 1, 127, i32::MIN, i32::MAX] {
        assert_eq!(signed_text(n), n.to_string());
    }
    assert_eq!(cut_bytes("0fc1de2a", 6), "0fc1de");
    assert_eq!(cut_bytes("文件", 3), "文");
}
