use raccoon::file_icon::{for_path, icon, IconColor};

#[test]
fn special_names_take_precedence_over_extensions() {
    assert_eq!(for_path(b"Cargo.toml"), icon("\u{e7a8}", IconColor::Orange));
    assert_eq!(for_path(b"package.json"), icon("\u{e71e}", IconColor::Red));
}

#[test]
fn maps_extensions_and_falls_back_safely() {
    assert_eq!(for_path(b"src/main.rs"), icon("\u{e7a8}", IconColor::Orange));
    assert_eq!(for_path(b"asset.unknown"), icon("\u{f0214}", IconColor::Muted));
}

#[test]
fn names_that_are_not_utf8_get_the_default_icon() {
    assert_eq!(for_path(b"caf\xff.rs"), icon("\u{f0214}", IconColor::Muted));
    assert_eq!(for_path(b"dir\xff/main.rs"), icon("\u{e7a8}", IconColor::Orange));
    assert_eq!(for_path(b"\xff"), icon("\u{f0214}", IconColor::Muted));
}
