//! Nerd Font icons for file names.
use vstd::prelude::*;
use vstd::string::StringSliceAdditionalSpecFns;
use vstd::utf8::valid_utf8;

use crate::bytes::{bytes_eq, to_ascii_lowercase, ascii_lowercase, is_utf8};
use crate::path::{file_name, file_name_of, extension_of_name, name_extension};

verus! {

/// The palette slot an icon is drawn with.
#[derive(Debug, Clone, Copy, PartialEq, Eq)]
pub enum IconColor {
    Blue,
    Cyan,
    Green,
    Yellow,
    Orange,
    Red,
    Purple,
    Pink,
    Muted,
}

/// A glyph and the color it is drawn with.
#[derive(Debug, Clone, Copy, PartialEq, Eq)]
pub struct FileIcon {
    pub glyph: &'static str,
    pub color: IconColor,
}

/// The icon used when nothing more specific applies.
pub open spec fn default_icon() -> FileIcon {
    FileIcon { glyph: "\u{f0214}", color: IconColor::Muted }
}

/// Icons for well-known file names, matched on the lowercased name.
#[verifier::opaque]
pub open spec fn named_icon_spec(name: Seq<u8>) -> Option<FileIcon> {
    if name == "cargo.toml".spec_bytes() || name == "cargo.lock".spec_bytes() {
        Some(FileIcon { glyph: "\u{e7a8}", color: IconColor::Orange })
    } else if name == "package.json".spec_bytes() || name == "package-lock.json".spec_bytes() || name == "npm-shrinkwrap.json".spec_bytes() {
        Some(FileIcon { glyph: "\u{e71e}", color: IconColor::Red })
    } else if name == "tsconfig.json".spec_bytes() {
        Some(FileIcon { glyph: "\u{e628}", color: IconColor::Blue })
    } else if name == "deno.json".spec_bytes() || name == "deno.jsonc".spec_bytes() {
        Some(FileIcon { glyph: "\u{e7c0}", color: IconColor::Green })
    } else if name == "dockerfile".spec_bytes() || name == "compose.yaml".spec_bytes() || name == "compose.yml".spec_bytes() || name == "docker-compose.yaml".spec_bytes() || name == "docker-compose.yml".spec_bytes() {
        Some(FileIcon { glyph: "\u{f308}", color: IconColor::Blue })
    } else if name == "makefile".spec_bytes() || name == "gnumakefile".spec_bytes() || name == "justfile".spec_bytes() || name == "taskfile.yml".spec_bytes() || name == "taskfile.yaml".spec_bytes() {
        Some(FileIcon { glyph: "\u{e615}", color: IconColor::Yellow })
    } else if name == "readme".spec_bytes() || name == "readme.md".spec_bytes() || name == "readme.markdown".spec_bytes() || name == "readme.mdx".spec_bytes() {
        Some(FileIcon { glyph: "\u{f00ba}", color: IconColor::Blue })
    } else if name == "license".spec_bytes() || name == "license.md".spec_bytes() || name == "license.txt".spec_bytes() || name == "copying".spec_bytes() {
        Some(FileIcon { glyph: "\u{e60a}", color: IconColor::Yellow })
    } else if name == ".gitignore".spec_bytes() || name == ".gitattributes".spec_bytes() || name == ".gitmodules".spec_bytes() || name == ".gitkeep".spec_bytes() {
        Some(FileIcon { glyph: "\u{e702}", color: IconColor::Orange })
    } else if name == ".env".spec_bytes() || name == ".env.local".spec_bytes() || name == ".env.example".spec_bytes() || name == ".editorconfig".spec_bytes() {
        Some(FileIcon { glyph: "\u{e615}", color: IconColor::Yellow })
    } else if name == ".prettierrc".spec_bytes() || name == ".eslintrc".spec_bytes() || name == ".stylelintrc".spec_bytes() || name == ".babelrc".spec_bytes() {
        Some(FileIcon { glyph: "\u{e615}", color: IconColor::Purple })
    } else {
        None
    }
}

/// Extension icons, part 1 of 6.
#[verifier::opaque]
pub open spec fn extension_icons_1(extension: Seq<u8>) -> Option<FileIcon> {
    if extension == "rs".spec_bytes() {
        Some(FileIcon { glyph: "\u{e7a8}", color: IconColor::Orange })
    } else if extension == "js".spec_bytes() || extension == "mjs".spec_bytes() || extension == "cjs".spec_bytes() || extension == "jsx".spec_bytes() {
        Some(FileIcon { glyph: "\u{e60c}", color: IconColor::Yellow })
    } else if extension == "ts".spec_bytes() || extension == "mts".spec_bytes() || extension == "cts".spec_bytes() || extension == "tsx".spec_bytes() {
        Some(FileIcon { glyph: "\u{e628}", color: IconColor::Blue })
    } else if extension == "vue".spec_bytes() {
        Some(FileIcon { glyph: "\u{e6a0}", color: IconColor::Green })
    } else if extension == "svelte".spec_bytes() {
        Some(FileIcon { glyph: "\u{e697}", color: IconColor::Orange })
    } else if extension == "py".spec_bytes() || extension == "pyi".spec_bytes() || extension == "pyw".spec_bytes() {
        Some(FileIcon { glyph: "\u{e73c}", color: IconColor::Yellow })
    } else if extension == "go".spec_bytes() {
        Some(FileIcon { glyph: "\u{e627}", color: IconColor::Cyan })
    } else if extension == "java".spec_bytes() || extension == "jar".spec_bytes() {
        Some(FileIcon { glyph: "\u{e738}", color: IconColor::Red })
    } else {
        None
    }
}

/// Extension icons, part 2 of 6.
#[verifier::opaque]
pub open spec fn extension_icons_2(extension: Seq<u8>) -> Option<FileIcon> {
    if extension == "kt".spec_bytes() || extension == "kts".spec_bytes() {
        Some(FileIcon { glyph: "\u{e634}", color: IconColor::Purple })
    } else if extension == "rb".spec_bytes() || extension == "rake".spec_bytes() || extension == "gemspec".spec_bytes() {
        Some(FileIcon { glyph: "\u{e791}", color: IconColor::Red })
    } else if extension == "php".spec_bytes() {
        Some(FileIcon { glyph: "\u{e608}", color: IconColor::Purple })
    } else if extension == "swift".spec_bytes() {
        Some(FileIcon { glyph: "\u{e755}", color: IconColor::Orange })
    } else if extension == "dart".spec_bytes() {
        Some(FileIcon { glyph: "\u{e798}", color: IconColor::Blue })
    } else if extension == "ex".spec_bytes() || extension == "exs".spec_bytes() {
        Some(FileIcon { glyph: "\u{e62d}", color: IconColor::Purple })
    } else if extension == "erl".spec_bytes() || extension == "hrl".spec_bytes() {
        Some(FileIcon { glyph: "\u{e7b1}", color: IconColor::Red })
    } else if extension == "c".spec_bytes() {
        Some(FileIcon { glyph: "\u{e61e}", color: IconColor::Blue })
    } else {
        None
    }
}

/// Extension icons, part 3 of 6.
#[verifier::opaque]
pub open spec fn extension_icons_3(extension: Seq<u8>) -> Option<FileIcon> {
    if extension == "h".spec_bytes() {
        Some(FileIcon { glyph: "\u{f0fd}", color: IconColor::Purple })
    } else if extension == "cc".spec_bytes() || extension == "cpp".spec_bytes() || extension == "cxx".spec_bytes() || extension == "hpp".spec_bytes() || extension == "hh".spec_bytes() || extension == "hxx".spec_bytes() {
        Some(FileIcon { glyph: "\u{e61d}", color: IconColor::Blue })
    } else if extension == "cs".spec_bytes() {
        Some(FileIcon { glyph: "\u{f031b}", color: IconColor::Purple })
    } else if extension == "fs".spec_bytes() || extension == "fsx".spec_bytes() {
        Some(FileIcon { glyph: "\u{e7a7}", color: IconColor::Blue })
    } else if extension == "lua".spec_bytes() {
        Some(FileIcon { glyph: "\u{e620}", color: IconColor::Blue })
    } else if extension == "vim".spec_bytes() {
        Some(FileIcon { glyph: "\u{e62b}", color: IconColor::Green })
    } else if extension == "sh".spec_bytes() || extension == "bash".spec_bytes() || extension == "zsh".spec_bytes() || extension == "fish".spec_bytes() {
        Some(FileIcon { glyph: "\u{e795}", color: IconColor::Green })
    } else if extension == "ps1".spec_bytes() {
        Some(FileIcon { glyph: "\u{f0a0a}", color: IconColor::Blue })
    } else {
        None
    }
}

/// Extension icons, part 4 of 6.
#[verifier::opaque]
pub open spec fn extension_icons_4(extension: Seq<u8>) -> Option<FileIcon> {
    if extension == "html".spec_bytes() || extension == "htm".spec_bytes() {
        Some(FileIcon { glyph: "\u{e736}", color: IconColor::Orange })
    } else if extension == "css".spec_bytes() {
        Some(FileIcon { glyph: "\u{e749}", color: IconColor::Blue })
    } else if extension == "scss".spec_bytes() || extension == "sass".spec_bytes() {
        Some(FileIcon { glyph: "\u{e603}", color: IconColor::Pink })
    } else if extension == "less".spec_bytes() {
        Some(FileIcon { glyph: "\u{e614}", color: IconColor::Blue })
    } else if extension == "md".spec_bytes() || extension == "markdown".spec_bytes() || extension == "mdx".spec_bytes() {
        Some(FileIcon { glyph: "\u{f0354}", color: IconColor::Blue })
    } else if extension == "txt".spec_bytes() || extension == "log".spec_bytes() {
        Some(FileIcon { glyph: "\u{f0219}", color: IconColor::Muted })
    } else if extension == "toml".spec_bytes() {
        Some(FileIcon { glyph: "\u{e6b2}", color: IconColor::Orange })
    } else if extension == "yaml".spec_bytes() || extension == "yml".spec_bytes() {
        Some(FileIcon { glyph: "\u{e615}", color: IconColor::Purple })
    } else {
        None
    }
}

/// Extension icons, part 5 of 6.
#[verifier::opaque]
pub open spec fn extension_icons_5(extension: Seq<u8>) -> Option<FileIcon> {
    if extension == "json".spec_bytes() || extension == "jsonc".spec_bytes() {
        Some(FileIcon { glyph: "\u{e60b}", color: IconColor::Yellow })
    } else if extension == "xml".spec_bytes() {
        Some(FileIcon { glyph: "\u{f05c0}", color: IconColor::Orange })
    } else if extension == "ini".spec_bytes() || extension == "conf".spec_bytes() || extension == "config".spec_bytes() || extension == "properties".spec_bytes() {
        Some(FileIcon { glyph: "\u{e615}", color: IconColor::Yellow })
    } else if extension == "sql".spec_bytes() || extension == "sqlite".spec_bytes() || extension == "db".spec_bytes() {
        Some(FileIcon { glyph: "\u{e706}", color: IconColor::Cyan })
    } else if extension == "graphql".spec_bytes() || extension == "gql".spec_bytes() {
        Some(FileIcon { glyph: "\u{f0877}", color: IconColor::Pink })
    } else if extension == "csv".spec_bytes() || extension == "tsv".spec_bytes() {
        Some(FileIcon { glyph: "\u{e64a}", color: IconColor::Green })
    } else if extension == "png".spec_bytes() || extension == "jpg".spec_bytes() || extension == "jpeg".spec_bytes() || extension == "gif".spec_bytes() || extension == "webp".spec_bytes() || extension == "bmp".spec_bytes() || extension == "ico".spec_bytes() || extension == "svg".spec_bytes() {
        Some(FileIcon { glyph: "\u{f02e9}", color: IconColor::Purple })
    } else if extension == "mp3".spec_bytes() || extension == "wav".spec_bytes() || extension == "flac".spec_bytes() || extension == "m4a".spec_bytes() || extension == "ogg".spec_bytes() {
        Some(FileIcon { glyph: "\u{f001}", color: IconColor::Pink })
    } else {
        None
    }
}

/// Extension icons, part 6 of 6.
#[verifier::opaque]
pub open spec fn extension_icons_6(extension: Seq<u8>) -> Option<FileIcon> {
    if extension == "mp4".spec_bytes() || extension == "mov".spec_bytes() || extension == "mkv".spec_bytes() || extension == "webm".spec_bytes() || extension == "avi".spec_bytes() {
        Some(FileIcon { glyph: "\u{f03d}", color: IconColor::Pink })
    } else if extension == "zip".spec_bytes() || extension == "tar".spec_bytes() || extension == "gz".spec_bytes() || extension == "bz2".spec_bytes() || extension == "xz".spec_bytes() || extension == "7z".spec_bytes() || extension == "rar".spec_bytes() {
        Some(FileIcon { glyph: "\u{f410}", color: IconColor::Yellow })
    } else if extension == "pdf".spec_bytes() {
        Some(FileIcon { glyph: "\u{eaeb}", color: IconColor::Red })
    } else if extension == "ttf".spec_bytes() || extension == "otf".spec_bytes() || extension == "woff".spec_bytes() || extension == "woff2".spec_bytes() {
        Some(FileIcon { glyph: "\u{f031}", color: IconColor::Purple })
    } else if extension == "lock".spec_bytes() {
        Some(FileIcon { glyph: "\u{f023}", color: IconColor::Yellow })
    } else {
        None
    }
}

/// Icons by lowercased extension; unknown extensions get the default icon.
pub open spec fn extension_icon_spec(extension: Seq<u8>) -> FileIcon {
    match extension_icons_1(extension) {
        Some(icon) => icon,
        None => match extension_icons_2(extension) {
        Some(icon) => icon,
        None => match extension_icons_3(extension) {
        Some(icon) => icon,
        None => match extension_icons_4(extension) {
        Some(icon) => icon,
        None => match extension_icons_5(extension) {
        Some(icon) => icon,
        None => match extension_icons_6(extension) {
        Some(icon) => icon,
        None => default_icon(),
    },
    },
    },
    },
    },
    }
}

/// The icon of a path: the default when its last component is not a UTF-8
/// name, else the icon of the lowercased name when it is well known, else the
/// icon of its extension (an absent extension counts as empty).
pub open spec fn icon_for(path: Seq<u8>) -> FileIcon {
    match file_name(path) {
        None => default_icon(),
        Some(name) => if !valid_utf8(name) {
            default_icon()
        } else {
            let lower = ascii_lowercase(name);
            match named_icon_spec(lower) {
                Some(icon) => icon,
                None => match extension_of_name(lower) {
                    Some(extension) => extension_icon_spec(extension),
                    None => extension_icon_spec(Seq::<u8>::empty()),
                },
            }
        },
    }
}

/// The bytes of an ASCII text are its characters, one each.
proof fn lemma_ascii_literal(s: &str)
    requires
        vstd::string::is_ascii(s),
    ensures
        s.spec_bytes() == Seq::new(s@.len(), |i: int| s@[i] as u8),
{
    vstd::string::is_ascii_spec_bytes(s);
}

/// A number that tells byte strings apart: each byte, plus one, as a digit
/// in base 256.
#[verifier::opaque]
pub open spec fn byte_key(b: Seq<u8>) -> int
    decreases b.len(),
{
    if b.len() == 0 {
        0
    } else {
        byte_key(b.drop_last()) * 256 + b.last() + 1
    }
}

/// The keys of the extensions of the extension icons, part 1.
proof fn lemma_extension_keys_1()
    ensures
        byte_key("rs".spec_bytes()) == 29556,
        byte_key("js".spec_bytes()) == 27508,
        byte_key("mjs".spec_bytes()) == 7236468,
        byte_key("cjs".spec_bytes()) == 6581108,
        byte_key("jsx".spec_bytes()) == 7042169,
        byte_key("ts".spec_bytes()) == 30068,
        byte_key("mts".spec_bytes()) == 7239028,
        byte_key("cts".spec_bytes()) == 6583668,
        byte_key("tsx".spec_bytes()) == 7697529,
        byte_key("vue".spec_bytes()) == 7829094,
        byte_key("svelte".spec_bytes()) == 128056168379750,
        byte_key("py".spec_bytes()) == 29050,
        byte_key("pyi".spec_bytes()) == 7436906,
        byte_key("pyw".spec_bytes()) == 7436920,
        byte_key("go".spec_bytes()) == 26736,
        byte_key("java".spec_bytes()) == 1801615202,
        byte_key("jar".spec_bytes()) == 7037555,
{
    reveal_with_fuel(byte_key, 11);
    reveal_strlit("rs");
    lemma_ascii_literal("rs");
    assert("rs".spec_bytes() =~= seq![114u8, 115u8]);
    reveal_strlit("js");
    lemma_ascii_literal("js");
    assert("js".spec_bytes() =~= seq![106u8, 115u8]);
    reveal_strlit("mjs");
    lemma_ascii_literal("mjs");
    assert("mjs".spec_bytes() =~= seq![109u8, 106u8, 115u8]);
    reveal_strlit("cjs");
    lemma_ascii_literal("cjs");
    assert("cjs".spec_bytes() =~= seq![99u8, 106u8, 115u8]);
    reveal_strlit("jsx");
    lemma_ascii_literal("jsx");
    assert("jsx".spec_bytes() =~= seq![106u8, 115u8, 120u8]);
    reveal_strlit("ts");
    lemma_ascii_literal("ts");
    assert("ts".spec_bytes() =~= seq![116u8, 115u8]);
    reveal_strlit("mts");
    lemma_ascii_literal("mts");
    assert("mts".spec_bytes() =~= seq![109u8, 116u8, 115u8]);
    reveal_strlit("cts");
    lemma_ascii_literal("cts");
    assert("cts".spec_bytes() =~= seq![99u8, 116u8, 115u8]);
    reveal_strlit("tsx");
    lemma_ascii_literal("tsx");
    assert("tsx".spec_bytes() =~= seq![116u8, 115u8, 120u8]);
    reveal_strlit("vue");
    lemma_ascii_literal("vue");
    assert("vue".spec_bytes() =~= seq![118u8, 117u8, 101u8]);
    reveal_strlit("svelte");
    lemma_ascii_literal("svelte");
    assert("svelte".spec_bytes() =~= seq![115u8, 118u8, 101u8, 108u8, 116u8, 101u8]);
    reveal_strlit("py");
    lemma_ascii_literal("py");
    assert("py".spec_bytes() =~= seq![112u8, 121u8]);
    reveal_strlit("pyi");
    lemma_ascii_literal("pyi");
    assert("pyi".spec_bytes() =~= seq![112u8, 121u8, 105u8]);
    reveal_strlit("pyw");
    lemma_ascii_literal("pyw");
    assert("pyw".spec_bytes() =~= seq![112u8, 121u8, 119u8]);
    reveal_strlit("go");
    lemma_ascii_literal("go");
    assert("go".spec_bytes() =~= seq![103u8, 111u8]);
    reveal_strlit("java");
    lemma_ascii_literal("java");
    assert("java".spec_bytes() =~= seq![106u8, 97u8, 118u8, 97u8]);
    reveal_strlit("jar");
    lemma_ascii_literal("jar");
    assert("jar".spec_bytes() =~= seq![106u8, 97u8, 114u8]);
}

/// The keys of the extensions of the extension icons, part 2.
proof fn lemma_extension_keys_2()
    ensures
        byte_key("kt".spec_bytes()) == 27765,
        byte_key("kts".spec_bytes()) == 7107956,
        byte_key("rb".spec_bytes()) == 29539,
        byte_key("rake".spec_bytes()) == 1935830118,
        byte_key("gemspec".spec_bytes()) == 29386022163932772,
        byte_key("php".spec_bytes()) == 7432561,
        byte_key("swift".spec_bytes()) == 500236445557,
        byte_key("dart".spec_bytes()) == 1700950901,
        byte_key("ex".spec_bytes()) == 26233,
        byte_key("exs".spec_bytes()) == 6715764,
        byte_key("erl".spec_bytes()) == 6714221,
        byte_key("hrl".spec_bytes()) == 6910829,
        byte_key("c".spec_bytes()) == 100,
{
    reveal_with_fuel(byte_key, 11);
    reveal_strlit("kt");
    lemma_ascii_literal("kt");
    assert("kt".spec_bytes() =~= seq![107u8, 116u8]);
    reveal_strlit("kts");
    lemma_ascii_literal("kts");
    assert("kts".spec_bytes() =~= seq![107u8, 116u8, 115u8]);
    reveal_strlit("rb");
    lemma_ascii_literal("rb");
    assert("rb".spec_bytes() =~= seq![114u8, 98u8]);
    reveal_strlit("rake");
    lemma_ascii_literal("rake");
    assert("rake".spec_bytes() =~= seq![114u8, 97u8, 107u8, 101u8]);
    reveal_strlit("gemspec");
    lemma_ascii_literal("gemspec");
    assert("gemspec".spec_bytes() =~= seq![103u8, 101u8, 109u8, 115u8, 112u8, 101u8, 99u8]);
    reveal_strlit("php");
    lemma_ascii_literal("php");
    assert("php".spec_bytes() =~= seq![112u8, 104u8, 112u8]);
    reveal_strlit("swift");
    lemma_ascii_literal("swift");
    assert("swift".spec_bytes() =~= seq![115u8, 119u8, 105u8, 102u8, 116u8]);
    reveal_strlit("dart");
    lemma_ascii_literal("dart");
    assert("dart".spec_bytes() =~= seq![100u8, 97u8, 114u8, 116u8]);
    reveal_strlit("ex");
    lemma_ascii_literal("ex");
    assert("ex".spec_bytes() =~= seq![101u8, 120u8]);
    reveal_strlit("exs");
    lemma_ascii_literal("exs");
    assert("exs".spec_bytes() =~= seq![101u8, 120u8, 115u8]);
    reveal_strlit("erl");
    lemma_ascii_literal("erl");
    assert("erl".spec_bytes() =~= seq![101u8, 114u8, 108u8]);
    reveal_strlit("hrl");
    lemma_ascii_literal("hrl");
    assert("hrl".spec_bytes() =~= seq![104u8, 114u8, 108u8]);
    reveal_strlit("c");
    lemma_ascii_literal("c");
    assert("c".spec_bytes() =~= seq![99u8]);
}

/// The keys of the extensions of the extension icons, part 3.
proof fn lemma_extension_keys_3()
    ensures
        byte_key("h".spec_bytes()) == 105,
        byte_key("cc".spec_bytes()) == 25700,
        byte_key("cpp".spec_bytes()) == 6582641,
        byte_key("cxx".spec_bytes()) == 6584697,
        byte_key("hpp".spec_bytes()) == 6910321,
        byte_key("hh".spec_bytes()) == 26985,
        byte_key("hxx".spec_bytes()) == 6912377,
        byte_key("cs".spec_bytes()) == 25716,
        byte_key("fs".spec_bytes()) == 26484,
        byte_key("fsx".spec_bytes()) == 6780025,
        byte_key("lua".spec_bytes()) == 7173730,
        byte_key("vim".spec_bytes()) == 7826030,
        byte_key("sh".spec_bytes()) == 29801,
        byte_key("bash".spec_bytes()) == 1667396713,
        byte_key("zsh".spec_bytes()) == 8090729,
        byte_key("fish".spec_bytes()) == 1735029865,
        byte_key("ps1".spec_bytes()) == 7435314,
{
    reveal_with_fuel(byte_key, 11);
    reveal_strlit("h");
    lemma_ascii_literal("h");
    assert("h".spec_bytes() =~= seq![104u8]);
    reveal_strlit("cc");
    lemma_ascii_literal("cc");
    assert("cc".spec_bytes() =~= seq![99u8, 99u8]);
    reveal_strlit("cpp");
    lemma_ascii_literal("cpp");
    assert("cpp".spec_bytes() =~= seq![99u8, 112u8, 112u8]);
    reveal_strlit("cxx");
    lemma_ascii_literal("cxx");
    assert("cxx".spec_bytes() =~= seq![99u8, 120u8, 120u8]);
    reveal_strlit("hpp");
    lemma_ascii_literal("hpp");
    assert("hpp".spec_bytes() =~= seq![104u8, 112u8, 112u8]);
    reveal_strlit("hh");
    lemma_ascii_literal("hh");
    assert("hh".spec_bytes() =~= seq![104u8, 104u8]);
    reveal_strlit("hxx");
    lemma_ascii_literal("hxx");
    assert("hxx".spec_bytes() =~= seq![104u8, 120u8, 120u8]);
    reveal_strlit("cs");
    lemma_ascii_literal("cs");
    assert("cs".spec_bytes() =~= seq![99u8, 115u8]);
    reveal_strlit("fs");
    lemma_ascii_literal("fs");
    assert("fs".spec_bytes() =~= seq![102u8, 115u8]);
    reveal_strlit("fsx");
    lemma_ascii_literal("fsx");
    assert("fsx".spec_bytes() =~= seq![102u8, 115u8, 120u8]);
    reveal_strlit("lua");
    lemma_ascii_literal("lua");
    assert("lua".spec_bytes() =~= seq![108u8, 117u8, 97u8]);
    reveal_strlit("vim");
    lemma_ascii_literal("vim");
    assert("vim".spec_bytes() =~= seq![118u8, 105u8, 109u8]);
    reveal_strlit("sh");
    lemma_ascii_literal("sh");
    assert("sh".spec_bytes() =~= seq![115u8, 104u8]);
    reveal_strlit("bash");
    lemma_ascii_literal("bash");
    assert("bash".spec_bytes() =~= seq![98u8, 97u8, 115u8, 104u8]);
    reveal_strlit("zsh");
    lemma_ascii_literal("zsh");
    assert("zsh".spec_bytes() =~= seq![122u8, 115u8, 104u8]);
    reveal_strlit("fish");
    lemma_ascii_literal("fish");
    assert("fish".spec_bytes() =~= seq![102u8, 105u8, 115u8, 104u8]);
    reveal_strlit("ps1");
    lemma_ascii_literal("ps1");
    assert("ps1".spec_bytes() =~= seq![112u8, 115u8, 49u8]);
}

/// The keys of the extensions of the extension icons, part 4.
proof fn lemma_extension_keys_4()
    ensures
        byte_key("html".spec_bytes()) == 1769303661,
        byte_key("htm".spec_bytes()) == 6911342,
        byte_key("css".spec_bytes()) == 6583412,
        byte_key("scss".spec_bytes()) == 1952740468,
        byte_key("sass".spec_bytes()) == 1952609396,
        byte_key("less".spec_bytes()) == 1835431028,
        byte_key("md".spec_bytes()) == 28261,
        byte_key("markdown".spec_bytes()) == 7954046801285249135,
        byte_key("mdx".spec_bytes()) == 7234937,
        byte_key("txt".spec_bytes()) == 7698805,
        byte_key("log".spec_bytes()) == 7172200,
        byte_key("toml".spec_bytes()) == 1970302573,
        byte_key("yaml".spec_bytes()) == 2053271149,
        byte_key("yml".spec_bytes()) == 8023661,
{
    reveal_with_fuel(byte_key, 11);
    reveal_strlit("html");
    lemma_ascii_literal("html");
    assert("html".spec_bytes() =~= seq![104u8, 116u8, 109u8, 108u8]);
    reveal_strlit("htm");
    lemma_ascii_literal("htm");
    assert("htm".spec_bytes() =~= seq![104u8, 116u8, 109u8]);
    reveal_strlit("css");
    lemma_ascii_literal("css");
    assert("css".spec_bytes() =~= seq![99u8, 115u8, 115u8]);
    reveal_strlit("scss");
    lemma_ascii_literal("scss");
    assert("scss".spec_bytes() =~= seq![115u8, 99u8, 115u8, 115u8]);
    reveal_strlit("sass");
    lemma_ascii_literal("sass");
    assert("sass".spec_bytes() =~= seq![115u8, 97u8, 115u8, 115u8]);
    reveal_strlit("less");
    lemma_ascii_literal("less");
    assert("less".spec_bytes() =~= seq![108u8, 101u8, 115u8, 115u8]);
    reveal_strlit("md");
    lemma_ascii_literal("md");
    assert("md".spec_bytes() =~= seq![109u8, 100u8]);
    reveal_strlit("markdown");
    lemma_ascii_literal("markdown");
    assert("markdown".spec_bytes() =~= seq![109u8, 97u8, 114u8, 107u8, 100u8, 111u8, 119u8, 110u8]);
    reveal_strlit("mdx");
    lemma_ascii_literal("mdx");
    assert("mdx".spec_bytes() =~= seq![109u8, 100u8, 120u8]);
    reveal_strlit("txt");
    lemma_ascii_literal("txt");
    assert("txt".spec_bytes() =~= seq![116u8, 120u8, 116u8]);
    reveal_strlit("log");
    lemma_ascii_literal("log");
    assert("log".spec_bytes() =~= seq![108u8, 111u8, 103u8]);
    reveal_strlit("toml");
    lemma_ascii_literal("toml");
    assert("toml".spec_bytes() =~= seq![116u8, 111u8, 109u8, 108u8]);
    reveal_strlit("yaml");
    lemma_ascii_literal("yaml");
    assert("yaml".spec_bytes() =~= seq![121u8, 97u8, 109u8, 108u8]);
    reveal_strlit("yml");
    lemma_ascii_literal("yml");
    assert("yml".spec_bytes() =~= seq![121u8, 109u8, 108u8]);
}

/// The keys of the extensions of the extension icons, part 5.
proof fn lemma_extension_keys_5()
    ensures
        byte_key("json".spec_bytes()) == 1802793071,
        byte_key("jsonc".spec_bytes()) == 461515026276,
        byte_key("xml".spec_bytes()) == 7958125,
        byte_key("ini".spec_bytes()) == 6975338,
        byte_key("conf".spec_bytes()) == 1685090151,
        byte_key("config".spec_bytes()) == 110434068163176,
        byte_key("properties".spec_bytes()) == 535756890502597200995956,
        byte_key("sql".spec_bytes()) == 7631469,
        byte_key("sqlite".spec_bytes()) == 128034810787174,
        byte_key("db".spec_bytes()) == 25955,
        byte_key("graphql".spec_bytes()) == 29400264224633453,
        byte_key("gql".spec_bytes()) == 6845037,
        byte_key("csv".spec_bytes()) == 6583415,
        byte_key("tsv".spec_bytes()) == 7697527,
        byte_key("png".spec_bytes()) == 7434088,
        byte_key("jpg".spec_bytes()) == 7041384,
        byte_key("jpeg".spec_bytes()) == 1802593896,
        byte_key("gif".spec_bytes()) == 6842983,
        byte_key("webp".spec_bytes()) == 2019976049,
        byte_key("bmp".spec_bytes()) == 6516337,
        byte_key("ico".spec_bytes()) == 6972528,
        byte_key("svg".spec_bytes()) == 7632744,
        byte_key("mp3".spec_bytes()) == 7237940,
        byte_key("wav".spec_bytes()) == 7889527,
        byte_key("flac".spec_bytes()) == 1735221860,
        byte_key("m4a".spec_bytes()) == 7222626,
        byte_key("ogg".spec_bytes()) == 7366760,
{
    reveal_with_fuel(byte_key, 11);
    reveal_strlit("json");
    lemma_ascii_literal("json");
    assert("json".spec_bytes() =~= seq![106u8, 115u8, 111u8, 110u8]);
    reveal_strlit("jsonc");
    lemma_ascii_literal("jsonc");
    assert("jsonc".spec_bytes() =~= seq![106u8, 115u8, 111u8, 110u8, 99u8]);
    reveal_strlit("xml");
    lemma_ascii_literal("xml");
    assert("xml".spec_bytes() =~= seq![120u8, 109u8, 108u8]);
    reveal_strlit("ini");
    lemma_ascii_literal("ini");
    assert("ini".spec_bytes() =~= seq![105u8, 110u8, 105u8]);
    reveal_strlit("conf");
    lemma_ascii_literal("conf");
    assert("conf".spec_bytes() =~= seq![99u8, 111u8, 110u8, 102u8]);
    reveal_strlit("config");
    lemma_ascii_literal("config");
    assert("config".spec_bytes() =~= seq![99u8, 111u8, 110u8, 102u8, 105u8, 103u8]);
    reveal_strlit("properties");
    lemma_ascii_literal("properties");
    assert("properties".spec_bytes() =~= seq![112u8, 114u8, 111u8, 112u8, 101u8, 114u8, 116u8, 105u8, 101u8, 115u8]);
    reveal_strlit("sql");
    lemma_ascii_literal("sql");
    assert("sql".spec_bytes() =~= seq![115u8, 113u8, 108u8]);
    reveal_strlit("sqlite");
    lemma_ascii_literal("sqlite");
    assert("sqlite".spec_bytes() =~= seq![115u8, 113u8, 108u8, 105u8, 116u8, 101u8]);
    reveal_strlit("db");
    lemma_ascii_literal("db");
    assert("db".spec_bytes() =~= seq![100u8, 98u8]);
    reveal_strlit("graphql");
    lemma_ascii_literal("graphql");
    assert("graphql".spec_bytes() =~= seq![103u8, 114u8, 97u8, 112u8, 104u8, 113u8, 108u8]);
    reveal_strlit("gql");
    lemma_ascii_literal("gql");
    assert("gql".spec_bytes() =~= seq![103u8, 113u8, 108u8]);
    reveal_strlit("csv");
    lemma_ascii_literal("csv");
    assert("csv".spec_bytes() =~= seq![99u8, 115u8, 118u8]);
    reveal_strlit("tsv");
    lemma_ascii_literal("tsv");
    assert("tsv".spec_bytes() =~= seq![116u8, 115u8, 118u8]);
    reveal_strlit("png");
    lemma_ascii_literal("png");
    assert("png".spec_bytes() =~= seq![112u8, 110u8, 103u8]);
    reveal_strlit("jpg");
    lemma_ascii_literal("jpg");
    assert("jpg".spec_bytes() =~= seq![106u8, 112u8, 103u8]);
    reveal_strlit("jpeg");
    lemma_ascii_literal("jpeg");
    assert("jpeg".spec_bytes() =~= seq![106u8, 112u8, 101u8, 103u8]);
    reveal_strlit("gif");
    lemma_ascii_literal("gif");
    assert("gif".spec_bytes() =~= seq![103u8, 105u8, 102u8]);
    reveal_strlit("webp");
    lemma_ascii_literal("webp");
    assert("webp".spec_bytes() =~= seq![119u8, 101u8, 98u8, 112u8]);
    reveal_strlit("bmp");
    lemma_ascii_literal("bmp");
    assert("bmp".spec_bytes() =~= seq![98u8, 109u8, 112u8]);
    reveal_strlit("ico");
    lemma_ascii_literal("ico");
    assert("ico".spec_bytes() =~= seq![105u8, 99u8, 111u8]);
    reveal_strlit("svg");
    lemma_ascii_literal("svg");
    assert("svg".spec_bytes() =~= seq![115u8, 118u8, 103u8]);
    reveal_strlit("mp3");
    lemma_ascii_literal("mp3");
    assert("mp3".spec_bytes() =~= seq![109u8, 112u8, 51u8]);
    reveal_strlit("wav");
    lemma_ascii_literal("wav");
    assert("wav".spec_bytes() =~= seq![119u8, 97u8, 118u8]);
    reveal_strlit("flac");
    lemma_ascii_literal("flac");
    assert("flac".spec_bytes() =~= seq![102u8, 108u8, 97u8, 99u8]);
    reveal_strlit("m4a");
    lemma_ascii_literal("m4a");
    assert("m4a".spec_bytes() =~= seq![109u8, 52u8, 97u8]);
    reveal_strlit("ogg");
    lemma_ascii_literal("ogg");
    assert("ogg".spec_bytes() =~= seq![111u8, 103u8, 103u8]);
}

/// The keys of the extensions of the extension icons, part 6.
proof fn lemma_extension_keys_6()
    ensures
        byte_key("mp4".spec_bytes()) == 7237941,
        byte_key("mov".spec_bytes()) == 7237751,
        byte_key("mkv".spec_bytes()) == 7236727,
        byte_key("webm".spec_bytes()) == 2019976046,
        byte_key("avi".spec_bytes()) == 6453098,
        byte_key("zip".spec_bytes()) == 8088177,
        byte_key("tar".spec_bytes()) == 7692915,
        byte_key("gz".spec_bytes()) == 26747,
        byte_key("bz2".spec_bytes()) == 6519603,
        byte_key("xz".spec_bytes()) == 31099,
        byte_key("7z".spec_bytes()) == 14459,
        byte_key("rar".spec_bytes()) == 7561843,
        byte_key("pdf".spec_bytes()) == 7431527,
        byte_key("ttf".spec_bytes()) == 7697767,
        byte_key("otf".spec_bytes()) == 7370087,
        byte_key("woff".spec_bytes()) == 2020632423,
        byte_key("woff2".spec_bytes()) == 517281900339,
        byte_key("lock".spec_bytes()) == 1836082284,
{
    reveal_with_fuel(byte_key, 11);
    reveal_strlit("mp4");
    lemma_ascii_literal("mp4");
    assert("mp4".spec_bytes() =~= seq![109u8, 112u8, 52u8]);
    reveal_strlit("mov");
    lemma_ascii_literal("mov");
    assert("mov".spec_bytes() =~= seq![109u8, 111u8, 118u8]);
    reveal_strlit("mkv");
    lemma_ascii_literal("mkv");
    assert("mkv".spec_bytes() =~= seq![109u8, 107u8, 118u8]);
    reveal_strlit("webm");
    lemma_ascii_literal("webm");
    assert("webm".spec_bytes() =~= seq![119u8, 101u8, 98u8, 109u8]);
    reveal_strlit("avi");
    lemma_ascii_literal("avi");
    assert("avi".spec_bytes() =~= seq![97u8, 118u8, 105u8]);
    reveal_strlit("zip");
    lemma_ascii_literal("zip");
    assert("zip".spec_bytes() =~= seq![122u8, 105u8, 112u8]);
    reveal_strlit("tar");
    lemma_ascii_literal("tar");
    assert("tar".spec_bytes() =~= seq![116u8, 97u8, 114u8]);
    reveal_strlit("gz");
    lemma_ascii_literal("gz");
    assert("gz".spec_bytes() =~= seq![103u8, 122u8]);
    reveal_strlit("bz2");
    lemma_ascii_literal("bz2");
    assert("bz2".spec_bytes() =~= seq![98u8, 122u8, 50u8]);
    reveal_strlit("xz");
    lemma_ascii_literal("xz");
    assert("xz".spec_bytes() =~= seq![120u8, 122u8]);
    reveal_strlit("7z");
    lemma_ascii_literal("7z");
    assert("7z".spec_bytes() =~= seq![55u8, 122u8]);
    reveal_strlit("rar");
    lemma_ascii_literal("rar");
    assert("rar".spec_bytes() =~= seq![114u8, 97u8, 114u8]);
    reveal_strlit("pdf");
    lemma_ascii_literal("pdf");
    assert("pdf".spec_bytes() =~= seq![112u8, 100u8, 102u8]);
    reveal_strlit("ttf");
    lemma_ascii_literal("ttf");
    assert("ttf".spec_bytes() =~= seq![116u8, 116u8, 102u8]);
    reveal_strlit("otf");
    lemma_ascii_literal("otf");
    assert("otf".spec_bytes() =~= seq![111u8, 116u8, 102u8]);
    reveal_strlit("woff");
    lemma_ascii_literal("woff");
    assert("woff".spec_bytes() =~= seq![119u8, 111u8, 102u8, 102u8]);
    reveal_strlit("woff2");
    lemma_ascii_literal("woff2");
    assert("woff2".spec_bytes() =~= seq![119u8, 111u8, 102u8, 102u8, 50u8]);
    reveal_strlit("lock");
    lemma_ascii_literal("lock");
    assert("lock".spec_bytes() =~= seq![108u8, 111u8, 99u8, 107u8]);
}

/// An extension with an icon in part 1 has the key of one listed there.
proof fn lemma_extension_part_keys_1(e: Seq<u8>)
    ensures
        extension_icons_1(e) is Some ==> (byte_key(e) == 29556 || byte_key(e) == 27508 || byte_key(e) == 7236468 || byte_key(e) == 6581108 || byte_key(e) == 7042169 || byte_key(e) == 30068 || byte_key(e) == 7239028 || byte_key(e) == 6583668 || byte_key(e) == 7697529 || byte_key(e) == 7829094 || byte_key(e) == 128056168379750 || byte_key(e) == 29050 || byte_key(e) == 7436906 || byte_key(e) == 7436920 || byte_key(e) == 26736 || byte_key(e) == 1801615202 || byte_key(e) == 7037555),
{
    reveal(extension_icons_1);
    lemma_extension_keys_1();
}

/// An extension with an icon in part 2 has the key of one listed there.
proof fn lemma_extension_part_keys_2(e: Seq<u8>)
    ensures
        extension_icons_2(e) is Some ==> (byte_key(e) == 27765 || byte_key(e) == 7107956 || byte_key(e) == 29539 || byte_key(e) == 1935830118 || byte_key(e) == 29386022163932772 || byte_key(e) == 7432561 || byte_key(e) == 500236445557 || byte_key(e) == 1700950901 || byte_key(e) == 26233 || byte_key(e) == 6715764 || byte_key(e) == 6714221 || byte_key(e) == 6910829 || byte_key(e) == 100),
{
    reveal(extension_icons_2);
    lemma_extension_keys_2();
}

/// An extension with an icon in part 3 has the key of one listed there.
proof fn lemma_extension_part_keys_3(e: Seq<u8>)
    ensures
        extension_icons_3(e) is Some ==> (byte_key(e) == 105 || byte_key(e) == 25700 || byte_key(e) == 6582641 || byte_key(e) == 6584697 || byte_key(e) == 6910321 || byte_key(e) == 26985 || byte_key(e) == 6912377 || byte_key(e) == 25716 || byte_key(e) == 26484 || byte_key(e) == 6780025 || byte_key(e) == 7173730 || byte_key(e) == 7826030 || byte_key(e) == 29801 || byte_key(e) == 1667396713 || byte_key(e) == 8090729 || byte_key(e) == 1735029865 || byte_key(e) == 7435314),
{
    reveal(extension_icons_3);
    lemma_extension_keys_3();
}

/// An extension with an icon in part 4 has the key of one listed there.
proof fn lemma_extension_part_keys_4(e: Seq<u8>)
    ensures
        extension_icons_4(e) is Some ==> (byte_key(e) == 1769303661 || byte_key(e) == 6911342 || byte_key(e) == 6583412 || byte_key(e) == 1952740468 || byte_key(e) == 1952609396 || byte_key(e) == 1835431028 || byte_key(e) == 28261 || byte_key(e) == 7954046801285249135 || byte_key(e) == 7234937 || byte_key(e) == 7698805 || byte_key(e) == 7172200 || byte_key(e) == 1970302573 || byte_key(e) == 2053271149 || byte_key(e) == 8023661),
{
    reveal(extension_icons_4);
    lemma_extension_keys_4();
}

/// An extension with an icon in part 5 has the key of one listed there.
proof fn lemma_extension_part_keys_5(e: Seq<u8>)
    ensures
        extension_icons_5(e) is Some ==> (byte_key(e) == 1802793071 || byte_key(e) == 461515026276 || byte_key(e) == 7958125 || byte_key(e) == 6975338 || byte_key(e) == 1685090151 || byte_key(e) == 110434068163176 || byte_key(e) == 535756890502597200995956 || byte_key(e) == 7631469 || byte_key(e) == 128034810787174 || byte_key(e) == 25955 || byte_key(e) == 29400264224633453 || byte_key(e) == 6845037 || byte_key(e) == 6583415 || byte_key(e) == 7697527 || byte_key(e) == 7434088 || byte_key(e) == 7041384 || byte_key(e) == 1802593896 || byte_key(e) == 6842983 || byte_key(e) == 2019976049 || byte_key(e) == 6516337 || byte_key(e) == 6972528 || byte_key(e) == 7632744 || byte_key(e) == 7237940 || byte_key(e) == 7889527 || byte_key(e) == 1735221860 || byte_key(e) == 7222626 || byte_key(e) == 7366760),
{
    reveal(extension_icons_5);
    lemma_extension_keys_5();
}

/// An extension with an icon in part 6 has the key of one listed there.
proof fn lemma_extension_part_keys_6(e: Seq<u8>)
    ensures
        extension_icons_6(e) is Some ==> (byte_key(e) == 7237941 || byte_key(e) == 7237751 || byte_key(e) == 7236727 || byte_key(e) == 2019976046 || byte_key(e) == 6453098 || byte_key(e) == 8088177 || byte_key(e) == 7692915 || byte_key(e) == 26747 || byte_key(e) == 6519603 || byte_key(e) == 31099 || byte_key(e) == 14459 || byte_key(e) == 7561843 || byte_key(e) == 7431527 || byte_key(e) == 7697767 || byte_key(e) == 7370087 || byte_key(e) == 2020632423 || byte_key(e) == 517281900339 || byte_key(e) == 1836082284),
{
    reveal(extension_icons_6);
    lemma_extension_keys_6();
}

/// The icon of `rs`.
proof fn lemma_extension_icon_1(e: Seq<u8>)
    requires
        e == "rs".spec_bytes(),
    ensures
        extension_icon_spec(e) == (FileIcon { glyph: "\u{e7a8}", color: IconColor::Orange }),
{
    lemma_extension_keys_1();
    reveal(extension_icons_1);
}

/// The icon of `js`, `mjs`, `cjs`, `jsx`.
proof fn lemma_extension_icon_2(e: Seq<u8>)
    requires
        e == "js".spec_bytes() || e == "mjs".spec_bytes() || e == "cjs".spec_bytes() || e == "jsx".spec_bytes(),
    ensures
        extension_icon_spec(e) == (FileIcon { glyph: "\u{e60c}", color: IconColor::Yellow }),
{
    lemma_extension_keys_1();
    reveal(extension_icons_1);
}

/// The icon of `ts`, `mts`, `cts`, `tsx`.
proof fn lemma_extension_icon_3(e: Seq<u8>)
    requires
        e == "ts".spec_bytes() || e == "mts".spec_bytes() || e == "cts".spec_bytes() || e == "tsx".spec_bytes(),
    ensures
        extension_icon_spec(e) == (FileIcon { glyph: "\u{e628}", color: IconColor::Blue }),
{
    lemma_extension_keys_1();
    reveal(extension_icons_1);
}

/// The icon of `vue`.
proof fn lemma_extension_icon_4(e: Seq<u8>)
    requires
        e == "vue".spec_bytes(),
    ensures
        extension_icon_spec(e) == (FileIcon { glyph: "\u{e6a0}", color: IconColor::Green }),
{
    lemma_extension_keys_1();
    reveal(extension_icons_1);
}

/// The icon of `svelte`.
proof fn lemma_extension_icon_5(e: Seq<u8>)
    requires
        e == "svelte".spec_bytes(),
    ensures
        extension_icon_spec(e) == (FileIcon { glyph: "\u{e697}", color: IconColor::Orange }),
{
    lemma_extension_keys_1();
    reveal(extension_icons_1);
}

/// The icon of `py`, `pyi`, `pyw`.
proof fn lemma_extension_icon_6(e: Seq<u8>)
    requires
        e == "py".spec_bytes() || e == "pyi".spec_bytes() || e == "pyw".spec_bytes(),
    ensures
        extension_icon_spec(e) == (FileIcon { glyph: "\u{e73c}", color: IconColor::Yellow }),
{
    lemma_extension_keys_1();
    reveal(extension_icons_1);
}

/// The icon of `go`.
proof fn lemma_extension_icon_7(e: Seq<u8>)
    requires
        e == "go".spec_bytes(),
    ensures
        extension_icon_spec(e) == (FileIcon { glyph: "\u{e627}", color: IconColor::Cyan }),
{
    lemma_extension_keys_1();
    reveal(extension_icons_1);
}

/// The icon of `java`, `jar`.
proof fn lemma_extension_icon_8(e: Seq<u8>)
    requires
        e == "java".spec_bytes() || e == "jar".spec_bytes(),
    ensures
        extension_icon_spec(e) == (FileIcon { glyph: "\u{e738}", color: IconColor::Red }),
{
    lemma_extension_keys_1();
    reveal(extension_icons_1);
}

/// The icon of `kt`, `kts`.
proof fn lemma_extension_icon_9(e: Seq<u8>)
    requires
        e == "kt".spec_bytes() || e == "kts".spec_bytes(),
    ensures
        extension_icon_spec(e) == (FileIcon { glyph: "\u{e634}", color: IconColor::Purple }),
{
    lemma_extension_keys_2();
    lemma_extension_part_keys_1(e);
    reveal(extension_icons_2);
}

/// The icon of `rb`, `rake`, `gemspec`.
proof fn lemma_extension_icon_10(e: Seq<u8>)
    requires
        e == "rb".spec_bytes() || e == "rake".spec_bytes() || e == "gemspec".spec_bytes(),
    ensures
        extension_icon_spec(e) == (FileIcon { glyph: "\u{e791}", color: IconColor::Red }),
{
    lemma_extension_keys_2();
    lemma_extension_part_keys_1(e);
    reveal(extension_icons_2);
}

/// The icon of `php`.
proof fn lemma_extension_icon_11(e: Seq<u8>)
    requires
        e == "php".spec_bytes(),
    ensures
        extension_icon_spec(e) == (FileIcon { glyph: "\u{e608}", color: IconColor::Purple }),
{
    lemma_extension_keys_2();
    lemma_extension_part_keys_1(e);
    reveal(extension_icons_2);
}

/// The icon of `swift`.
proof fn lemma_extension_icon_12(e: Seq<u8>)
    requires
        e == "swift".spec_bytes(),
    ensures
        extension_icon_spec(e) == (FileIcon { glyph: "\u{e755}", color: IconColor::Orange }),
{
    lemma_extension_keys_2();
    lemma_extension_part_keys_1(e);
    reveal(extension_icons_2);
}

/// The icon of `dart`.
proof fn lemma_extension_icon_13(e: Seq<u8>)
    requires
        e == "dart".spec_bytes(),
    ensures
        extension_icon_spec(e) == (FileIcon { glyph: "\u{e798}", color: IconColor::Blue }),
{
    lemma_extension_keys_2();
    lemma_extension_part_keys_1(e);
    reveal(extension_icons_2);
}

/// The icon of `ex`, `exs`.
proof fn lemma_extension_icon_14(e: Seq<u8>)
    requires
        e == "ex".spec_bytes() || e == "exs".spec_bytes(),
    ensures
        extension_icon_spec(e) == (FileIcon { glyph: "\u{e62d}", color: IconColor::Purple }),
{
    lemma_extension_keys_2();
    lemma_extension_part_keys_1(e);
    reveal(extension_icons_2);
}

/// The icon of `erl`, `hrl`.
proof fn lemma_extension_icon_15(e: Seq<u8>)
    requires
        e == "erl".spec_bytes() || e == "hrl".spec_bytes(),
    ensures
        extension_icon_spec(e) == (FileIcon { glyph: "\u{e7b1}", color: IconColor::Red }),
{
    lemma_extension_keys_2();
    lemma_extension_part_keys_1(e);
    reveal(extension_icons_2);
}

/// The icon of `c`.
proof fn lemma_extension_icon_16(e: Seq<u8>)
    requires
        e == "c".spec_bytes(),
    ensures
        extension_icon_spec(e) == (FileIcon { glyph: "\u{e61e}", color: IconColor::Blue }),
{
    lemma_extension_keys_2();
    lemma_extension_part_keys_1(e);
    reveal(extension_icons_2);
}

/// The icon of `h`.
proof fn lemma_extension_icon_17(e: Seq<u8>)
    requires
        e == "h".spec_bytes(),
    ensures
        extension_icon_spec(e) == (FileIcon { glyph: "\u{f0fd}", color: IconColor::Purple }),
{
    lemma_extension_keys_3();
    lemma_extension_part_keys_1(e);
    lemma_extension_part_keys_2(e);
    reveal(extension_icons_3);
}

/// The icon of `cc`, `cpp`, `cxx`, `hpp`, `hh`, `hxx`.
proof fn lemma_extension_icon_18(e: Seq<u8>)
    requires
        e == "cc".spec_bytes() || e == "cpp".spec_bytes() || e == "cxx".spec_bytes() || e == "hpp".spec_bytes() || e == "hh".spec_bytes() || e == "hxx".spec_bytes(),
    ensures
        extension_icon_spec(e) == (FileIcon { glyph: "\u{e61d}", color: IconColor::Blue }),
{
    lemma_extension_keys_3();
    lemma_extension_part_keys_1(e);
    lemma_extension_part_keys_2(e);
    reveal(extension_icons_3);
}

/// The icon of `cs`.
proof fn lemma_extension_icon_19(e: Seq<u8>)
    requires
        e == "cs".spec_bytes(),
    ensures
        extension_icon_spec(e) == (FileIcon { glyph: "\u{f031b}", color: IconColor::Purple }),
{
    lemma_extension_keys_3();
    lemma_extension_part_keys_1(e);
    lemma_extension_part_keys_2(e);
    reveal(extension_icons_3);
}

/// The icon of `fs`, `fsx`.
proof fn lemma_extension_icon_20(e: Seq<u8>)
    requires
        e == "fs".spec_bytes() || e == "fsx".spec_bytes(),
    ensures
        extension_icon_spec(e) == (FileIcon { glyph: "\u{e7a7}", color: IconColor::Blue }),
{
    lemma_extension_keys_3();
    lemma_extension_part_keys_1(e);
    lemma_extension_part_keys_2(e);
    reveal(extension_icons_3);
}

/// The icon of `lua`.
proof fn lemma_extension_icon_21(e: Seq<u8>)
    requires
        e == "lua".spec_bytes(),
    ensures
        extension_icon_spec(e) == (FileIcon { glyph: "\u{e620}", color: IconColor::Blue }),
{
    lemma_extension_keys_3();
    lemma_extension_part_keys_1(e);
    lemma_extension_part_keys_2(e);
    reveal(extension_icons_3);
}

/// The icon of `vim`.
proof fn lemma_extension_icon_22(e: Seq<u8>)
    requires
        e == "vim".spec_bytes(),
    ensures
        extension_icon_spec(e) == (FileIcon { glyph: "\u{e62b}", color: IconColor::Green }),
{
    lemma_extension_keys_3();
    lemma_extension_part_keys_1(e);
    lemma_extension_part_keys_2(e);
    reveal(extension_icons_3);
}

/// The icon of `sh`, `bash`, `zsh`, `fish`.
proof fn lemma_extension_icon_23(e: Seq<u8>)
    requires
        e == "sh".spec_bytes() || e == "bash".spec_bytes() || e == "zsh".spec_bytes() || e == "fish".spec_bytes(),
    ensures
        extension_icon_spec(e) == (FileIcon { glyph: "\u{e795}", color: IconColor::Green }),
{
    lemma_extension_keys_3();
    lemma_extension_part_keys_1(e);
    lemma_extension_part_keys_2(e);
    reveal(extension_icons_3);
}

/// The icon of `ps1`.
proof fn lemma_extension_icon_24(e: Seq<u8>)
    requires
        e == "ps1".spec_bytes(),
    ensures
        extension_icon_spec(e) == (FileIcon { glyph: "\u{f0a0a}", color: IconColor::Blue }),
{
    lemma_extension_keys_3();
    lemma_extension_part_keys_1(e);
    lemma_extension_part_keys_2(e);
    reveal(extension_icons_3);
}

/// The icon of `html`, `htm`.
proof fn lemma_extension_icon_25(e: Seq<u8>)
    requires
        e == "html".spec_bytes() || e == "htm".spec_bytes(),
    ensures
        extension_icon_spec(e) == (FileIcon { glyph: "\u{e736}", color: IconColor::Orange }),
{
    lemma_extension_keys_4();
    lemma_extension_part_keys_1(e);
    lemma_extension_part_keys_2(e);
    lemma_extension_part_keys_3(e);
    reveal(extension_icons_4);
}

/// The icon of `css`.
proof fn lemma_extension_icon_26(e: Seq<u8>)
    requires
        e == "css".spec_bytes(),
    ensures
        extension_icon_spec(e) == (FileIcon { glyph: "\u{e749}", color: IconColor::Blue }),
{
    lemma_extension_keys_4();
    lemma_extension_part_keys_1(e);
    lemma_extension_part_keys_2(e);
    lemma_extension_part_keys_3(e);
    reveal(extension_icons_4);
}

/// The icon of `scss`, `sass`.
proof fn lemma_extension_icon_27(e: Seq<u8>)
    requires
        e == "scss".spec_bytes() || e == "sass".spec_bytes(),
    ensures
        extension_icon_spec(e) == (FileIcon { glyph: "\u{e603}", color: IconColor::Pink }),
{
    lemma_extension_keys_4();
    lemma_extension_part_keys_1(e);
    lemma_extension_part_keys_2(e);
    lemma_extension_part_keys_3(e);
    reveal(extension_icons_4);
}

/// The icon of `less`.
proof fn lemma_extension_icon_28(e: Seq<u8>)
    requires
        e == "less".spec_bytes(),
    ensures
        extension_icon_spec(e) == (FileIcon { glyph: "\u{e614}", color: IconColor::Blue }),
{
    lemma_extension_keys_4();
    lemma_extension_part_keys_1(e);
    lemma_extension_part_keys_2(e);
    lemma_extension_part_keys_3(e);
    reveal(extension_icons_4);
}

/// The icon of `md`, `markdown`, `mdx`.
proof fn lemma_extension_icon_29(e: Seq<u8>)
    requires
        e == "md".spec_bytes() || e == "markdown".spec_bytes() || e == "mdx".spec_bytes(),
    ensures
        extension_icon_spec(e) == (FileIcon { glyph: "\u{f0354}", color: IconColor::Blue }),
{
    lemma_extension_keys_4();
    lemma_extension_part_keys_1(e);
    lemma_extension_part_keys_2(e);
    lemma_extension_part_keys_3(e);
    reveal(extension_icons_4);
}

/// The icon of `txt`, `log`.
proof fn lemma_extension_icon_30(e: Seq<u8>)
    requires
        e == "txt".spec_bytes() || e == "log".spec_bytes(),
    ensures
        extension_icon_spec(e) == (FileIcon { glyph: "\u{f0219}", color: IconColor::Muted }),
{
    lemma_extension_keys_4();
    lemma_extension_part_keys_1(e);
    lemma_extension_part_keys_2(e);
    lemma_extension_part_keys_3(e);
    reveal(extension_icons_4);
}

/// The icon of `toml`.
proof fn lemma_extension_icon_31(e: Seq<u8>)
    requires
        e == "toml".spec_bytes(),
    ensures
        extension_icon_spec(e) == (FileIcon { glyph: "\u{e6b2}", color: IconColor::Orange }),
{
    lemma_extension_keys_4();
    lemma_extension_part_keys_1(e);
    lemma_extension_part_keys_2(e);
    lemma_extension_part_keys_3(e);
    reveal(extension_icons_4);
}

/// The icon of `yaml`, `yml`.
proof fn lemma_extension_icon_32(e: Seq<u8>)
    requires
        e == "yaml".spec_bytes() || e == "yml".spec_bytes(),
    ensures
        extension_icon_spec(e) == (FileIcon { glyph: "\u{e615}", color: IconColor::Purple }),
{
    lemma_extension_keys_4();
    lemma_extension_part_keys_1(e);
    lemma_extension_part_keys_2(e);
    lemma_extension_part_keys_3(e);
    reveal(extension_icons_4);
}

/// The icon of `json`, `jsonc`.
proof fn lemma_extension_icon_33(e: Seq<u8>)
    requires
        e == "json".spec_bytes() || e == "jsonc".spec_bytes(),
    ensures
        extension_icon_spec(e) == (FileIcon { glyph: "\u{e60b}", color: IconColor::Yellow }),
{
    lemma_extension_keys_5();
    lemma_extension_part_keys_1(e);
    lemma_extension_part_keys_2(e);
    lemma_extension_part_keys_3(e);
    lemma_extension_part_keys_4(e);
    reveal(extension_icons_5);
}

/// The icon of `xml`.
proof fn lemma_extension_icon_34(e: Seq<u8>)
    requires
        e == "xml".spec_bytes(),
    ensures
        extension_icon_spec(e) == (FileIcon { glyph: "\u{f05c0}", color: IconColor::Orange }),
{
    lemma_extension_keys_5();
    lemma_extension_part_keys_1(e);
    lemma_extension_part_keys_2(e);
    lemma_extension_part_keys_3(e);
    lemma_extension_part_keys_4(e);
    reveal(extension_icons_5);
}

/// The icon of `ini`, `conf`, `config`, `properties`.
proof fn lemma_extension_icon_35(e: Seq<u8>)
    requires
        e == "ini".spec_bytes() || e == "conf".spec_bytes() || e == "config".spec_bytes() || e == "properties".spec_bytes(),
    ensures
        extension_icon_spec(e) == (FileIcon { glyph: "\u{e615}", color: IconColor::Yellow }),
{
    lemma_extension_keys_5();
    lemma_extension_part_keys_1(e);
    lemma_extension_part_keys_2(e);
    lemma_extension_part_keys_3(e);
    lemma_extension_part_keys_4(e);
    reveal(extension_icons_5);
}

/// The icon of `sql`, `sqlite`, `db`.
proof fn lemma_extension_icon_36(e: Seq<u8>)
    requires
        e == "sql".spec_bytes() || e == "sqlite".spec_bytes() || e == "db".spec_bytes(),
    ensures
        extension_icon_spec(e) == (FileIcon { glyph: "\u{e706}", color: IconColor::Cyan }),
{
    lemma_extension_keys_5();
    lemma_extension_part_keys_1(e);
    lemma_extension_part_keys_2(e);
    lemma_extension_part_keys_3(e);
    lemma_extension_part_keys_4(e);
    reveal(extension_icons_5);
}

/// The icon of `graphql`, `gql`.
proof fn lemma_extension_icon_37(e: Seq<u8>)
    requires
        e == "graphql".spec_bytes() || e == "gql".spec_bytes(),
    ensures
        extension_icon_spec(e) == (FileIcon { glyph: "\u{f0877}", color: IconColor::Pink }),
{
    lemma_extension_keys_5();
    lemma_extension_part_keys_1(e);
    lemma_extension_part_keys_2(e);
    lemma_extension_part_keys_3(e);
    lemma_extension_part_keys_4(e);
    reveal(extension_icons_5);
}

/// The icon of `csv`, `tsv`.
proof fn lemma_extension_icon_38(e: Seq<u8>)
    requires
        e == "csv".spec_bytes() || e == "tsv".spec_bytes(),
    ensures
        extension_icon_spec(e) == (FileIcon { glyph: "\u{e64a}", color: IconColor::Green }),
{
    lemma_extension_keys_5();
    lemma_extension_part_keys_1(e);
    lemma_extension_part_keys_2(e);
    lemma_extension_part_keys_3(e);
    lemma_extension_part_keys_4(e);
    reveal(extension_icons_5);
}

/// The icon of `png`, `jpg`, `jpeg`, `gif`, `webp`, `bmp`, `ico`, `svg`.
proof fn lemma_extension_icon_39(e: Seq<u8>)
    requires
        e == "png".spec_bytes() || e == "jpg".spec_bytes() || e == "jpeg".spec_bytes() || e == "gif".spec_bytes() || e == "webp".spec_bytes() || e == "bmp".spec_bytes() || e == "ico".spec_bytes() || e == "svg".spec_bytes(),
    ensures
        extension_icon_spec(e) == (FileIcon { glyph: "\u{f02e9}", color: IconColor::Purple }),
{
    lemma_extension_keys_5();
    lemma_extension_part_keys_1(e);
    lemma_extension_part_keys_2(e);
    lemma_extension_part_keys_3(e);
    lemma_extension_part_keys_4(e);
    reveal(extension_icons_5);
}

/// The icon of `mp3`, `wav`, `flac`, `m4a`, `ogg`.
proof fn lemma_extension_icon_40(e: Seq<u8>)
    requires
        e == "mp3".spec_bytes() || e == "wav".spec_bytes() || e == "flac".spec_bytes() || e == "m4a".spec_bytes() || e == "ogg".spec_bytes(),
    ensures
        extension_icon_spec(e) == (FileIcon { glyph: "\u{f001}", color: IconColor::Pink }),
{
    lemma_extension_keys_5();
    lemma_extension_part_keys_1(e);
    lemma_extension_part_keys_2(e);
    lemma_extension_part_keys_3(e);
    lemma_extension_part_keys_4(e);
    reveal(extension_icons_5);
}

/// The icon of `mp4`, `mov`, `mkv`, `webm`, `avi`.
proof fn lemma_extension_icon_41(e: Seq<u8>)
    requires
        e == "mp4".spec_bytes() || e == "mov".spec_bytes() || e == "mkv".spec_bytes() || e == "webm".spec_bytes() || e == "avi".spec_bytes(),
    ensures
        extension_icon_spec(e) == (FileIcon { glyph: "\u{f03d}", color: IconColor::Pink }),
{
    lemma_extension_keys_6();
    lemma_extension_part_keys_1(e);
    lemma_extension_part_keys_2(e);
    lemma_extension_part_keys_3(e);
    lemma_extension_part_keys_4(e);
    lemma_extension_part_keys_5(e);
    reveal(extension_icons_6);
}

/// The icon of `zip`, `tar`, `gz`, `bz2`, `xz`, `7z`, `rar`.
proof fn lemma_extension_icon_42(e: Seq<u8>)
    requires
        e == "zip".spec_bytes() || e == "tar".spec_bytes() || e == "gz".spec_bytes() || e == "bz2".spec_bytes() || e == "xz".spec_bytes() || e == "7z".spec_bytes() || e == "rar".spec_bytes(),
    ensures
        extension_icon_spec(e) == (FileIcon { glyph: "\u{f410}", color: IconColor::Yellow }),
{
    lemma_extension_keys_6();
    lemma_extension_part_keys_1(e);
    lemma_extension_part_keys_2(e);
    lemma_extension_part_keys_3(e);
    lemma_extension_part_keys_4(e);
    lemma_extension_part_keys_5(e);
    reveal(extension_icons_6);
}

/// The icon of `pdf`.
proof fn lemma_extension_icon_43(e: Seq<u8>)
    requires
        e == "pdf".spec_bytes(),
    ensures
        extension_icon_spec(e) == (FileIcon { glyph: "\u{eaeb}", color: IconColor::Red }),
{
    lemma_extension_keys_6();
    lemma_extension_part_keys_1(e);
    lemma_extension_part_keys_2(e);
    lemma_extension_part_keys_3(e);
    lemma_extension_part_keys_4(e);
    lemma_extension_part_keys_5(e);
    reveal(extension_icons_6);
}

/// The icon of `ttf`, `otf`, `woff`, `woff2`.
proof fn lemma_extension_icon_44(e: Seq<u8>)
    requires
        e == "ttf".spec_bytes() || e == "otf".spec_bytes() || e == "woff".spec_bytes() || e == "woff2".spec_bytes(),
    ensures
        extension_icon_spec(e) == (FileIcon { glyph: "\u{f031}", color: IconColor::Purple }),
{
    lemma_extension_keys_6();
    lemma_extension_part_keys_1(e);
    lemma_extension_part_keys_2(e);
    lemma_extension_part_keys_3(e);
    lemma_extension_part_keys_4(e);
    lemma_extension_part_keys_5(e);
    reveal(extension_icons_6);
}

/// The icon of `lock`.
proof fn lemma_extension_icon_45(e: Seq<u8>)
    requires
        e == "lock".spec_bytes(),
    ensures
        extension_icon_spec(e) == (FileIcon { glyph: "\u{f023}", color: IconColor::Yellow }),
{
    lemma_extension_keys_6();
    lemma_extension_part_keys_1(e);
    lemma_extension_part_keys_2(e);
    lemma_extension_part_keys_3(e);
    lemma_extension_part_keys_4(e);
    lemma_extension_part_keys_5(e);
    reveal(extension_icons_6);
}

/// An extension that is not listed gets the default icon.
proof fn lemma_unlisted_extension(e: Seq<u8>)
    requires
        !(e == "rs".spec_bytes()
            || e == "js".spec_bytes()
            || e == "mjs".spec_bytes()
            || e == "cjs".spec_bytes()
            || e == "jsx".spec_bytes()
            || e == "ts".spec_bytes()
            || e == "mts".spec_bytes()
            || e == "cts".spec_bytes()
            || e == "tsx".spec_bytes()
            || e == "vue".spec_bytes()
            || e == "svelte".spec_bytes()
            || e == "py".spec_bytes()
            || e == "pyi".spec_bytes()
            || e == "pyw".spec_bytes()
            || e == "go".spec_bytes()
            || e == "java".spec_bytes()
            || e == "jar".spec_bytes()
            || e == "kt".spec_bytes()
            || e == "kts".spec_bytes()
            || e == "rb".spec_bytes()
            || e == "rake".spec_bytes()
            || e == "gemspec".spec_bytes()
            || e == "php".spec_bytes()
            || e == "swift".spec_bytes()
            || e == "dart".spec_bytes()
            || e == "ex".spec_bytes()
            || e == "exs".spec_bytes()
            || e == "erl".spec_bytes()
            || e == "hrl".spec_bytes()
            || e == "c".spec_bytes()
            || e == "h".spec_bytes()
            || e == "cc".spec_bytes()
            || e == "cpp".spec_bytes()
            || e == "cxx".spec_bytes()
            || e == "hpp".spec_bytes()
            || e == "hh".spec_bytes()
            || e == "hxx".spec_bytes()
            || e == "cs".spec_bytes()
            || e == "fs".spec_bytes()
            || e == "fsx".spec_bytes()
            || e == "lua".spec_bytes()
            || e == "vim".spec_bytes()
            || e == "sh".spec_bytes()
            || e == "bash".spec_bytes()
            || e == "zsh".spec_bytes()
            || e == "fish".spec_bytes()
            || e == "ps1".spec_bytes()
            || e == "html".spec_bytes()
            || e == "htm".spec_bytes()
            || e == "css".spec_bytes()
            || e == "scss".spec_bytes()
            || e == "sass".spec_bytes()
            || e == "less".spec_bytes()
            || e == "md".spec_bytes()
            || e == "markdown".spec_bytes()
            || e == "mdx".spec_bytes()
            || e == "txt".spec_bytes()
            || e == "log".spec_bytes()
            || e == "toml".spec_bytes()
            || e == "yaml".spec_bytes()
            || e == "yml".spec_bytes()
            || e == "json".spec_bytes()
            || e == "jsonc".spec_bytes()
            || e == "xml".spec_bytes()
            || e == "ini".spec_bytes()
            || e == "conf".spec_bytes()
            || e == "config".spec_bytes()
            || e == "properties".spec_bytes()
            || e == "sql".spec_bytes()
            || e == "sqlite".spec_bytes()
            || e == "db".spec_bytes()
            || e == "graphql".spec_bytes()
            || e == "gql".spec_bytes()
            || e == "csv".spec_bytes()
            || e == "tsv".spec_bytes()
            || e == "png".spec_bytes()
            || e == "jpg".spec_bytes()
            || e == "jpeg".spec_bytes()
            || e == "gif".spec_bytes()
            || e == "webp".spec_bytes()
            || e == "bmp".spec_bytes()
            || e == "ico".spec_bytes()
            || e == "svg".spec_bytes()
            || e == "mp3".spec_bytes()
            || e == "wav".spec_bytes()
            || e == "flac".spec_bytes()
            || e == "m4a".spec_bytes()
            || e == "ogg".spec_bytes()
            || e == "mp4".spec_bytes()
            || e == "mov".spec_bytes()
            || e == "mkv".spec_bytes()
            || e == "webm".spec_bytes()
            || e == "avi".spec_bytes()
            || e == "zip".spec_bytes()
            || e == "tar".spec_bytes()
            || e == "gz".spec_bytes()
            || e == "bz2".spec_bytes()
            || e == "xz".spec_bytes()
            || e == "7z".spec_bytes()
            || e == "rar".spec_bytes()
            || e == "pdf".spec_bytes()
            || e == "ttf".spec_bytes()
            || e == "otf".spec_bytes()
            || e == "woff".spec_bytes()
            || e == "woff2".spec_bytes()
            || e == "lock".spec_bytes()),
    ensures
        extension_icon_spec(e) == default_icon(),
{
    reveal(extension_icons_1);
    reveal(extension_icons_2);
    reveal(extension_icons_3);
    reveal(extension_icons_4);
    reveal(extension_icons_5);
    reveal(extension_icons_6);
}

/// The lowercased extension of a path's name, empty when it has none.
pub open spec fn path_extension(path: Seq<u8>) -> Seq<u8> {
    match file_name(path) {
        Some(name) => match extension_of_name(ascii_lowercase(name)) {
            Some(extension) => extension,
            None => Seq::empty(),
        },
        None => Seq::empty(),
    }
}

/// A path whose name is UTF-8 and not a well-known name gets the icon of its
/// lowercased extension: each listed extension the icon of its kind of file
/// (`py`, `pyi` and `pyw` the Python icon in yellow, and so on), and any
/// other extension, or none, the default icon.
pub proof fn lemma_icons_by_extension(path: Seq<u8>)
    requires
        file_name(path) is Some,
        valid_utf8(file_name(path)->Some_0),
        named_icon_spec(ascii_lowercase(file_name(path)->Some_0)) is None,
    ensures
        (path_extension(path) == "rs".spec_bytes()) ==> icon_for(path) == (FileIcon { glyph: "\u{e7a8}", color: IconColor::Orange }),
        (path_extension(path) == "js".spec_bytes() || path_extension(path) == "mjs".spec_bytes() || path_extension(path) == "cjs".spec_bytes() || path_extension(path) == "jsx".spec_bytes()) ==> icon_for(path) == (FileIcon { glyph: "\u{e60c}", color: IconColor::Yellow }),
        (path_extension(path) == "ts".spec_bytes() || path_extension(path) == "mts".spec_bytes() || path_extension(path) == "cts".spec_bytes() || path_extension(path) == "tsx".spec_bytes()) ==> icon_for(path) == (FileIcon { glyph: "\u{e628}", color: IconColor::Blue }),
        (path_extension(path) == "vue".spec_bytes()) ==> icon_for(path) == (FileIcon { glyph: "\u{e6a0}", color: IconColor::Green }),
        (path_extension(path) == "svelte".spec_bytes()) ==> icon_for(path) == (FileIcon { glyph: "\u{e697}", color: IconColor::Orange }),
        (path_extension(path) == "py".spec_bytes() || path_extension(path) == "pyi".spec_bytes() || path_extension(path) == "pyw".spec_bytes()) ==> icon_for(path) == (FileIcon { glyph: "\u{e73c}", color: IconColor::Yellow }),
        (path_extension(path) == "go".spec_bytes()) ==> icon_for(path) == (FileIcon { glyph: "\u{e627}", color: IconColor::Cyan }),
        (path_extension(path) == "java".spec_bytes() || path_extension(path) == "jar".spec_bytes()) ==> icon_for(path) == (FileIcon { glyph: "\u{e738}", color: IconColor::Red }),
        (path_extension(path) == "kt".spec_bytes() || path_extension(path) == "kts".spec_bytes()) ==> icon_for(path) == (FileIcon { glyph: "\u{e634}", color: IconColor::Purple }),
        (path_extension(path) == "rb".spec_bytes() || path_extension(path) == "rake".spec_bytes() || path_extension(path) == "gemspec".spec_bytes()) ==> icon_for(path) == (FileIcon { glyph: "\u{e791}", color: IconColor::Red }),
        (path_extension(path) == "php".spec_bytes()) ==> icon_for(path) == (FileIcon { glyph: "\u{e608}", color: IconColor::Purple }),
        (path_extension(path) == "swift".spec_bytes()) ==> icon_for(path) == (FileIcon { glyph: "\u{e755}", color: IconColor::Orange }),
        (path_extension(path) == "dart".spec_bytes()) ==> icon_for(path) == (FileIcon { glyph: "\u{e798}", color: IconColor::Blue }),
        (path_extension(path) == "ex".spec_bytes() || path_extension(path) == "exs".spec_bytes()) ==> icon_for(path) == (FileIcon { glyph: "\u{e62d}", color: IconColor::Purple }),
        (path_extension(path) == "erl".spec_bytes() || path_extension(path) == "hrl".spec_bytes()) ==> icon_for(path) == (FileIcon { glyph: "\u{e7b1}", color: IconColor::Red }),
        (path_extension(path) == "c".spec_bytes()) ==> icon_for(path) == (FileIcon { glyph: "\u{e61e}", color: IconColor::Blue }),
        (path_extension(path) == "h".spec_bytes()) ==> icon_for(path) == (FileIcon { glyph: "\u{f0fd}", color: IconColor::Purple }),
        (path_extension(path) == "cc".spec_bytes() || path_extension(path) == "cpp".spec_bytes() || path_extension(path) == "cxx".spec_bytes() || path_extension(path) == "hpp".spec_bytes() || path_extension(path) == "hh".spec_bytes() || path_extension(path) == "hxx".spec_bytes()) ==> icon_for(path) == (FileIcon { glyph: "\u{e61d}", color: IconColor::Blue }),
        (path_extension(path) == "cs".spec_bytes()) ==> icon_for(path) == (FileIcon { glyph: "\u{f031b}", color: IconColor::Purple }),
        (path_extension(path) == "fs".spec_bytes() || path_extension(path) == "fsx".spec_bytes()) ==> icon_for(path) == (FileIcon { glyph: "\u{e7a7}", color: IconColor::Blue }),
        (path_extension(path) == "lua".spec_bytes()) ==> icon_for(path) == (FileIcon { glyph: "\u{e620}", color: IconColor::Blue }),
        (path_extension(path) == "vim".spec_bytes()) ==> icon_for(path) == (FileIcon { glyph: "\u{e62b}", color: IconColor::Green }),
        (path_extension(path) == "sh".spec_bytes() || path_extension(path) == "bash".spec_bytes() || path_extension(path) == "zsh".spec_bytes() || path_extension(path) == "fish".spec_bytes()) ==> icon_for(path) == (FileIcon { glyph: "\u{e795}", color: IconColor::Green }),
        (path_extension(path) == "ps1".spec_bytes()) ==> icon_for(path) == (FileIcon { glyph: "\u{f0a0a}", color: IconColor::Blue }),
        (path_extension(path) == "html".spec_bytes() || path_extension(path) == "htm".spec_bytes()) ==> icon_for(path) == (FileIcon { glyph: "\u{e736}", color: IconColor::Orange }),
        (path_extension(path) == "css".spec_bytes()) ==> icon_for(path) == (FileIcon { glyph: "\u{e749}", color: IconColor::Blue }),
        (path_extension(path) == "scss".spec_bytes() || path_extension(path) == "sass".spec_bytes()) ==> icon_for(path) == (FileIcon { glyph: "\u{e603}", color: IconColor::Pink }),
        (path_extension(path) == "less".spec_bytes()) ==> icon_for(path) == (FileIcon { glyph: "\u{e614}", color: IconColor::Blue }),
        (path_extension(path) == "md".spec_bytes() || path_extension(path) == "markdown".spec_bytes() || path_extension(path) == "mdx".spec_bytes()) ==> icon_for(path) == (FileIcon { glyph: "\u{f0354}", color: IconColor::Blue }),
        (path_extension(path) == "txt".spec_bytes() || path_extension(path) == "log".spec_bytes()) ==> icon_for(path) == (FileIcon { glyph: "\u{f0219}", color: IconColor::Muted }),
        (path_extension(path) == "toml".spec_bytes()) ==> icon_for(path) == (FileIcon { glyph: "\u{e6b2}", color: IconColor::Orange }),
        (path_extension(path) == "yaml".spec_bytes() || path_extension(path) == "yml".spec_bytes()) ==> icon_for(path) == (FileIcon { glyph: "\u{e615}", color: IconColor::Purple }),
        (path_extension(path) == "json".spec_bytes() || path_extension(path) == "jsonc".spec_bytes()) ==> icon_for(path) == (FileIcon { glyph: "\u{e60b}", color: IconColor::Yellow }),
        (path_extension(path) == "xml".spec_bytes()) ==> icon_for(path) == (FileIcon { glyph: "\u{f05c0}", color: IconColor::Orange }),
        (path_extension(path) == "ini".spec_bytes() || path_extension(path) == "conf".spec_bytes() || path_extension(path) == "config".spec_bytes() || path_extension(path) == "properties".spec_bytes()) ==> icon_for(path) == (FileIcon { glyph: "\u{e615}", color: IconColor::Yellow }),
        (path_extension(path) == "sql".spec_bytes() || path_extension(path) == "sqlite".spec_bytes() || path_extension(path) == "db".spec_bytes()) ==> icon_for(path) == (FileIcon { glyph: "\u{e706}", color: IconColor::Cyan }),
        (path_extension(path) == "graphql".spec_bytes() || path_extension(path) == "gql".spec_bytes()) ==> icon_for(path) == (FileIcon { glyph: "\u{f0877}", color: IconColor::Pink }),
        (path_extension(path) == "csv".spec_bytes() || path_extension(path) == "tsv".spec_bytes()) ==> icon_for(path) == (FileIcon { glyph: "\u{e64a}", color: IconColor::Green }),
        (path_extension(path) == "png".spec_bytes() || path_extension(path) == "jpg".spec_bytes() || path_extension(path) == "jpeg".spec_bytes() || path_extension(path) == "gif".spec_bytes() || path_extension(path) == "webp".spec_bytes() || path_extension(path) == "bmp".spec_bytes() || path_extension(path) == "ico".spec_bytes() || path_extension(path) == "svg".spec_bytes()) ==> icon_for(path) == (FileIcon { glyph: "\u{f02e9}", color: IconColor::Purple }),
        (path_extension(path) == "mp3".spec_bytes() || path_extension(path) == "wav".spec_bytes() || path_extension(path) == "flac".spec_bytes() || path_extension(path) == "m4a".spec_bytes() || path_extension(path) == "ogg".spec_bytes()) ==> icon_for(path) == (FileIcon { glyph: "\u{f001}", color: IconColor::Pink }),
        (path_extension(path) == "mp4".spec_bytes() || path_extension(path) == "mov".spec_bytes() || path_extension(path) == "mkv".spec_bytes() || path_extension(path) == "webm".spec_bytes() || path_extension(path) == "avi".spec_bytes()) ==> icon_for(path) == (FileIcon { glyph: "\u{f03d}", color: IconColor::Pink }),
        (path_extension(path) == "zip".spec_bytes() || path_extension(path) == "tar".spec_bytes() || path_extension(path) == "gz".spec_bytes() || path_extension(path) == "bz2".spec_bytes() || path_extension(path) == "xz".spec_bytes() || path_extension(path) == "7z".spec_bytes() || path_extension(path) == "rar".spec_bytes()) ==> icon_for(path) == (FileIcon { glyph: "\u{f410}", color: IconColor::Yellow }),
        (path_extension(path) == "pdf".spec_bytes()) ==> icon_for(path) == (FileIcon { glyph: "\u{eaeb}", color: IconColor::Red }),
        (path_extension(path) == "ttf".spec_bytes() || path_extension(path) == "otf".spec_bytes() || path_extension(path) == "woff".spec_bytes() || path_extension(path) == "woff2".spec_bytes()) ==> icon_for(path) == (FileIcon { glyph: "\u{f031}", color: IconColor::Purple }),
        (path_extension(path) == "lock".spec_bytes()) ==> icon_for(path) == (FileIcon { glyph: "\u{f023}", color: IconColor::Yellow }),
        !(path_extension(path) == "rs".spec_bytes()
            || path_extension(path) == "js".spec_bytes()
            || path_extension(path) == "mjs".spec_bytes()
            || path_extension(path) == "cjs".spec_bytes()
            || path_extension(path) == "jsx".spec_bytes()
            || path_extension(path) == "ts".spec_bytes()
            || path_extension(path) == "mts".spec_bytes()
            || path_extension(path) == "cts".spec_bytes()
            || path_extension(path) == "tsx".spec_bytes()
            || path_extension(path) == "vue".spec_bytes()
            || path_extension(path) == "svelte".spec_bytes()
            || path_extension(path) == "py".spec_bytes()
            || path_extension(path) == "pyi".spec_bytes()
            || path_extension(path) == "pyw".spec_bytes()
            || path_extension(path) == "go".spec_bytes()
            || path_extension(path) == "java".spec_bytes()
            || path_extension(path) == "jar".spec_bytes()
            || path_extension(path) == "kt".spec_bytes()
            || path_extension(path) == "kts".spec_bytes()
            || path_extension(path) == "rb".spec_bytes()
            || path_extension(path) == "rake".spec_bytes()
            || path_extension(path) == "gemspec".spec_bytes()
            || path_extension(path) == "php".spec_bytes()
            || path_extension(path) == "swift".spec_bytes()
            || path_extension(path) == "dart".spec_bytes()
            || path_extension(path) == "ex".spec_bytes()
            || path_extension(path) == "exs".spec_bytes()
            || path_extension(path) == "erl".spec_bytes()
            || path_extension(path) == "hrl".spec_bytes()
            || path_extension(path) == "c".spec_bytes()
            || path_extension(path) == "h".spec_bytes()
            || path_extension(path) == "cc".spec_bytes()
            || path_extension(path) == "cpp".spec_bytes()
            || path_extension(path) == "cxx".spec_bytes()
            || path_extension(path) == "hpp".spec_bytes()
            || path_extension(path) == "hh".spec_bytes()
            || path_extension(path) == "hxx".spec_bytes()
            || path_extension(path) == "cs".spec_bytes()
            || path_extension(path) == "fs".spec_bytes()
            || path_extension(path) == "fsx".spec_bytes()
            || path_extension(path) == "lua".spec_bytes()
            || path_extension(path) == "vim".spec_bytes()
            || path_extension(path) == "sh".spec_bytes()
            || path_extension(path) == "bash".spec_bytes()
            || path_extension(path) == "zsh".spec_bytes()
            || path_extension(path) == "fish".spec_bytes()
            || path_extension(path) == "ps1".spec_bytes()
            || path_extension(path) == "html".spec_bytes()
            || path_extension(path) == "htm".spec_bytes()
            || path_extension(path) == "css".spec_bytes()
            || path_extension(path) == "scss".spec_bytes()
            || path_extension(path) == "sass".spec_bytes()
            || path_extension(path) == "less".spec_bytes()
            || path_extension(path) == "md".spec_bytes()
            || path_extension(path) == "markdown".spec_bytes()
            || path_extension(path) == "mdx".spec_bytes()
            || path_extension(path) == "txt".spec_bytes()
            || path_extension(path) == "log".spec_bytes()
            || path_extension(path) == "toml".spec_bytes()
            || path_extension(path) == "yaml".spec_bytes()
            || path_extension(path) == "yml".spec_bytes()
            || path_extension(path) == "json".spec_bytes()
            || path_extension(path) == "jsonc".spec_bytes()
            || path_extension(path) == "xml".spec_bytes()
            || path_extension(path) == "ini".spec_bytes()
            || path_extension(path) == "conf".spec_bytes()
            || path_extension(path) == "config".spec_bytes()
            || path_extension(path) == "properties".spec_bytes()
            || path_extension(path) == "sql".spec_bytes()
            || path_extension(path) == "sqlite".spec_bytes()
            || path_extension(path) == "db".spec_bytes()
            || path_extension(path) == "graphql".spec_bytes()
            || path_extension(path) == "gql".spec_bytes()
            || path_extension(path) == "csv".spec_bytes()
            || path_extension(path) == "tsv".spec_bytes()
            || path_extension(path) == "png".spec_bytes()
            || path_extension(path) == "jpg".spec_bytes()
            || path_extension(path) == "jpeg".spec_bytes()
            || path_extension(path) == "gif".spec_bytes()
            || path_extension(path) == "webp".spec_bytes()
            || path_extension(path) == "bmp".spec_bytes()
            || path_extension(path) == "ico".spec_bytes()
            || path_extension(path) == "svg".spec_bytes()
            || path_extension(path) == "mp3".spec_bytes()
            || path_extension(path) == "wav".spec_bytes()
            || path_extension(path) == "flac".spec_bytes()
            || path_extension(path) == "m4a".spec_bytes()
            || path_extension(path) == "ogg".spec_bytes()
            || path_extension(path) == "mp4".spec_bytes()
            || path_extension(path) == "mov".spec_bytes()
            || path_extension(path) == "mkv".spec_bytes()
            || path_extension(path) == "webm".spec_bytes()
            || path_extension(path) == "avi".spec_bytes()
            || path_extension(path) == "zip".spec_bytes()
            || path_extension(path) == "tar".spec_bytes()
            || path_extension(path) == "gz".spec_bytes()
            || path_extension(path) == "bz2".spec_bytes()
            || path_extension(path) == "xz".spec_bytes()
            || path_extension(path) == "7z".spec_bytes()
            || path_extension(path) == "rar".spec_bytes()
            || path_extension(path) == "pdf".spec_bytes()
            || path_extension(path) == "ttf".spec_bytes()
            || path_extension(path) == "otf".spec_bytes()
            || path_extension(path) == "woff".spec_bytes()
            || path_extension(path) == "woff2".spec_bytes()
            || path_extension(path) == "lock".spec_bytes()) ==> icon_for(path) == default_icon(),
{
    let e = path_extension(path);
    assert(icon_for(path) == extension_icon_spec(e));
    if e == "rs".spec_bytes() {
        lemma_extension_icon_1(e);
    }
    if e == "js".spec_bytes() || e == "mjs".spec_bytes() || e == "cjs".spec_bytes() || e == "jsx".spec_bytes() {
        lemma_extension_icon_2(e);
    }
    if e == "ts".spec_bytes() || e == "mts".spec_bytes() || e == "cts".spec_bytes() || e == "tsx".spec_bytes() {
        lemma_extension_icon_3(e);
    }
    if e == "vue".spec_bytes() {
        lemma_extension_icon_4(e);
    }
    if e == "svelte".spec_bytes() {
        lemma_extension_icon_5(e);
    }
    if e == "py".spec_bytes() || e == "pyi".spec_bytes() || e == "pyw".spec_bytes() {
        lemma_extension_icon_6(e);
    }
    if e == "go".spec_bytes() {
        lemma_extension_icon_7(e);
    }
    if e == "java".spec_bytes() || e == "jar".spec_bytes() {
        lemma_extension_icon_8(e);
    }
    if e == "kt".spec_bytes() || e == "kts".spec_bytes() {
        lemma_extension_icon_9(e);
    }
    if e == "rb".spec_bytes() || e == "rake".spec_bytes() || e == "gemspec".spec_bytes() {
        lemma_extension_icon_10(e);
    }
    if e == "php".spec_bytes() {
        lemma_extension_icon_11(e);
    }
    if e == "swift".spec_bytes() {
        lemma_extension_icon_12(e);
    }
    if e == "dart".spec_bytes() {
        lemma_extension_icon_13(e);
    }
    if e == "ex".spec_bytes() || e == "exs".spec_bytes() {
        lemma_extension_icon_14(e);
    }
    if e == "erl".spec_bytes() || e == "hrl".spec_bytes() {
        lemma_extension_icon_15(e);
    }
    if e == "c".spec_bytes() {
        lemma_extension_icon_16(e);
    }
    if e == "h".spec_bytes() {
        lemma_extension_icon_17(e);
    }
    if e == "cc".spec_bytes() || e == "cpp".spec_bytes() || e == "cxx".spec_bytes() || e == "hpp".spec_bytes() || e == "hh".spec_bytes() || e == "hxx".spec_bytes() {
        lemma_extension_icon_18(e);
    }
    if e == "cs".spec_bytes() {
        lemma_extension_icon_19(e);
    }
    if e == "fs".spec_bytes() || e == "fsx".spec_bytes() {
        lemma_extension_icon_20(e);
    }
    if e == "lua".spec_bytes() {
        lemma_extension_icon_21(e);
    }
    if e == "vim".spec_bytes() {
        lemma_extension_icon_22(e);
    }
    if e == "sh".spec_bytes() || e == "bash".spec_bytes() || e == "zsh".spec_bytes() || e == "fish".spec_bytes() {
        lemma_extension_icon_23(e);
    }
    if e == "ps1".spec_bytes() {
        lemma_extension_icon_24(e);
    }
    if e == "html".spec_bytes() || e == "htm".spec_bytes() {
        lemma_extension_icon_25(e);
    }
    if e == "css".spec_bytes() {
        lemma_extension_icon_26(e);
    }
    if e == "scss".spec_bytes() || e == "sass".spec_bytes() {
        lemma_extension_icon_27(e);
    }
    if e == "less".spec_bytes() {
        lemma_extension_icon_28(e);
    }
    if e == "md".spec_bytes() || e == "markdown".spec_bytes() || e == "mdx".spec_bytes() {
        lemma_extension_icon_29(e);
    }
    if e == "txt".spec_bytes() || e == "log".spec_bytes() {
        lemma_extension_icon_30(e);
    }
    if e == "toml".spec_bytes() {
        lemma_extension_icon_31(e);
    }
    if e == "yaml".spec_bytes() || e == "yml".spec_bytes() {
        lemma_extension_icon_32(e);
    }
    if e == "json".spec_bytes() || e == "jsonc".spec_bytes() {
        lemma_extension_icon_33(e);
    }
    if e == "xml".spec_bytes() {
        lemma_extension_icon_34(e);
    }
    if e == "ini".spec_bytes() || e == "conf".spec_bytes() || e == "config".spec_bytes() || e == "properties".spec_bytes() {
        lemma_extension_icon_35(e);
    }
    if e == "sql".spec_bytes() || e == "sqlite".spec_bytes() || e == "db".spec_bytes() {
        lemma_extension_icon_36(e);
    }
    if e == "graphql".spec_bytes() || e == "gql".spec_bytes() {
        lemma_extension_icon_37(e);
    }
    if e == "csv".spec_bytes() || e == "tsv".spec_bytes() {
        lemma_extension_icon_38(e);
    }
    if e == "png".spec_bytes() || e == "jpg".spec_bytes() || e == "jpeg".spec_bytes() || e == "gif".spec_bytes() || e == "webp".spec_bytes() || e == "bmp".spec_bytes() || e == "ico".spec_bytes() || e == "svg".spec_bytes() {
        lemma_extension_icon_39(e);
    }
    if e == "mp3".spec_bytes() || e == "wav".spec_bytes() || e == "flac".spec_bytes() || e == "m4a".spec_bytes() || e == "ogg".spec_bytes() {
        lemma_extension_icon_40(e);
    }
    if e == "mp4".spec_bytes() || e == "mov".spec_bytes() || e == "mkv".spec_bytes() || e == "webm".spec_bytes() || e == "avi".spec_bytes() {
        lemma_extension_icon_41(e);
    }
    if e == "zip".spec_bytes() || e == "tar".spec_bytes() || e == "gz".spec_bytes() || e == "bz2".spec_bytes() || e == "xz".spec_bytes() || e == "7z".spec_bytes() || e == "rar".spec_bytes() {
        lemma_extension_icon_42(e);
    }
    if e == "pdf".spec_bytes() {
        lemma_extension_icon_43(e);
    }
    if e == "ttf".spec_bytes() || e == "otf".spec_bytes() || e == "woff".spec_bytes() || e == "woff2".spec_bytes() {
        lemma_extension_icon_44(e);
    }
    if e == "lock".spec_bytes() {
        lemma_extension_icon_45(e);
    }
    if !(e == "rs".spec_bytes()
        || e == "js".spec_bytes()
        || e == "mjs".spec_bytes()
        || e == "cjs".spec_bytes()
        || e == "jsx".spec_bytes()
        || e == "ts".spec_bytes()
        || e == "mts".spec_bytes()
        || e == "cts".spec_bytes()
        || e == "tsx".spec_bytes()
        || e == "vue".spec_bytes()
        || e == "svelte".spec_bytes()
        || e == "py".spec_bytes()
        || e == "pyi".spec_bytes()
        || e == "pyw".spec_bytes()
        || e == "go".spec_bytes()
        || e == "java".spec_bytes()
        || e == "jar".spec_bytes()
        || e == "kt".spec_bytes()
        || e == "kts".spec_bytes()
        || e == "rb".spec_bytes()
        || e == "rake".spec_bytes()
        || e == "gemspec".spec_bytes()
        || e == "php".spec_bytes()
        || e == "swift".spec_bytes()
        || e == "dart".spec_bytes()
        || e == "ex".spec_bytes()
        || e == "exs".spec_bytes()
        || e == "erl".spec_bytes()
        || e == "hrl".spec_bytes()
        || e == "c".spec_bytes()
        || e == "h".spec_bytes()
        || e == "cc".spec_bytes()
        || e == "cpp".spec_bytes()
        || e == "cxx".spec_bytes()
        || e == "hpp".spec_bytes()
        || e == "hh".spec_bytes()
        || e == "hxx".spec_bytes()
        || e == "cs".spec_bytes()
        || e == "fs".spec_bytes()
        || e == "fsx".spec_bytes()
        || e == "lua".spec_bytes()
        || e == "vim".spec_bytes()
        || e == "sh".spec_bytes()
        || e == "bash".spec_bytes()
        || e == "zsh".spec_bytes()
        || e == "fish".spec_bytes()
        || e == "ps1".spec_bytes()
        || e == "html".spec_bytes()
        || e == "htm".spec_bytes()
        || e == "css".spec_bytes()
        || e == "scss".spec_bytes()
        || e == "sass".spec_bytes()
        || e == "less".spec_bytes()
        || e == "md".spec_bytes()
        || e == "markdown".spec_bytes()
        || e == "mdx".spec_bytes()
        || e == "txt".spec_bytes()
        || e == "log".spec_bytes()
        || e == "toml".spec_bytes()
        || e == "yaml".spec_bytes()
        || e == "yml".spec_bytes()
        || e == "json".spec_bytes()
        || e == "jsonc".spec_bytes()
        || e == "xml".spec_bytes()
        || e == "ini".spec_bytes()
        || e == "conf".spec_bytes()
        || e == "config".spec_bytes()
        || e == "properties".spec_bytes()
        || e == "sql".spec_bytes()
        || e == "sqlite".spec_bytes()
        || e == "db".spec_bytes()
        || e == "graphql".spec_bytes()
        || e == "gql".spec_bytes()
        || e == "csv".spec_bytes()
        || e == "tsv".spec_bytes()
        || e == "png".spec_bytes()
        || e == "jpg".spec_bytes()
        || e == "jpeg".spec_bytes()
        || e == "gif".spec_bytes()
        || e == "webp".spec_bytes()
        || e == "bmp".spec_bytes()
        || e == "ico".spec_bytes()
        || e == "svg".spec_bytes()
        || e == "mp3".spec_bytes()
        || e == "wav".spec_bytes()
        || e == "flac".spec_bytes()
        || e == "m4a".spec_bytes()
        || e == "ogg".spec_bytes()
        || e == "mp4".spec_bytes()
        || e == "mov".spec_bytes()
        || e == "mkv".spec_bytes()
        || e == "webm".spec_bytes()
        || e == "avi".spec_bytes()
        || e == "zip".spec_bytes()
        || e == "tar".spec_bytes()
        || e == "gz".spec_bytes()
        || e == "bz2".spec_bytes()
        || e == "xz".spec_bytes()
        || e == "7z".spec_bytes()
        || e == "rar".spec_bytes()
        || e == "pdf".spec_bytes()
        || e == "ttf".spec_bytes()
        || e == "otf".spec_bytes()
        || e == "woff".spec_bytes()
        || e == "woff2".spec_bytes()
        || e == "lock".spec_bytes()) {
        lemma_unlisted_extension(e);
    }
}

/// Whether `name` holds exactly the bytes of `lit`.
fn eq_lit(name: &[u8], lit: &str) -> (r: bool)
    ensures
        r == (name@ == lit.spec_bytes()),
{
    bytes_eq(name, lit.as_bytes())
}

pub fn icon(glyph: &'static str, color: IconColor) -> (r: FileIcon)
    ensures
        r == (FileIcon { glyph, color }),
{
    FileIcon { glyph, color }
}

pub fn named_icon(name: &[u8]) -> (r: Option<FileIcon>)
    ensures
        r == named_icon_spec(name@),
{
    reveal(named_icon_spec);
    if eq_lit(name, "cargo.toml") || eq_lit(name, "cargo.lock") {
        Some(icon("\u{e7a8}", IconColor::Orange))
    } else if eq_lit(name, "package.json") || eq_lit(name, "package-lock.json") || eq_lit(name, "npm-shrinkwrap.json") {
        Some(icon("\u{e71e}", IconColor::Red))
    } else if eq_lit(name, "tsconfig.json") {
        Some(icon("\u{e628}", IconColor::Blue))
    } else if eq_lit(name, "deno.json") || eq_lit(name, "deno.jsonc") {
        Some(icon("\u{e7c0}", IconColor::Green))
    } else if eq_lit(name, "dockerfile") || eq_lit(name, "compose.yaml") || eq_lit(name, "compose.yml") || eq_lit(name, "docker-compose.yaml") || eq_lit(name, "docker-compose.yml") {
        Some(icon("\u{f308}", IconColor::Blue))
    } else if eq_lit(name, "makefile") || eq_lit(name, "gnumakefile") || eq_lit(name, "justfile") || eq_lit(name, "taskfile.yml") || eq_lit(name, "taskfile.yaml") {
        Some(icon("\u{e615}", IconColor::Yellow))
    } else if eq_lit(name, "readme") || eq_lit(name, "readme.md") || eq_lit(name, "readme.markdown") || eq_lit(name, "readme.mdx") {
        Some(icon("\u{f00ba}", IconColor::Blue))
    } else if eq_lit(name, "license") || eq_lit(name, "license.md") || eq_lit(name, "license.txt") || eq_lit(name, "copying") {
        Some(icon("\u{e60a}", IconColor::Yellow))
    } else if eq_lit(name, ".gitignore") || eq_lit(name, ".gitattributes") || eq_lit(name, ".gitmodules") || eq_lit(name, ".gitkeep") {
        Some(icon("\u{e702}", IconColor::Orange))
    } else if eq_lit(name, ".env") || eq_lit(name, ".env.local") || eq_lit(name, ".env.example") || eq_lit(name, ".editorconfig") {
        Some(icon("\u{e615}", IconColor::Yellow))
    } else if eq_lit(name, ".prettierrc") || eq_lit(name, ".eslintrc") || eq_lit(name, ".stylelintrc") || eq_lit(name, ".babelrc") {
        Some(icon("\u{e615}", IconColor::Purple))
    } else {
        None
    }
}

fn extension_icons_part_1(extension: &[u8]) -> (r: Option<FileIcon>)
    ensures
        r == extension_icons_1(extension@),
{
    reveal(extension_icons_1);
    if eq_lit(extension, "rs") {
        Some(icon("\u{e7a8}", IconColor::Orange))
    } else if eq_lit(extension, "js") || eq_lit(extension, "mjs") || eq_lit(extension, "cjs") || eq_lit(extension, "jsx") {
        Some(icon("\u{e60c}", IconColor::Yellow))
    } else if eq_lit(extension, "ts") || eq_lit(extension, "mts") || eq_lit(extension, "cts") || eq_lit(extension, "tsx") {
        Some(icon("\u{e628}", IconColor::Blue))
    } else if eq_lit(extension, "vue") {
        Some(icon("\u{e6a0}", IconColor::Green))
    } else if eq_lit(extension, "svelte") {
        Some(icon("\u{e697}", IconColor::Orange))
    } else if eq_lit(extension, "py") || eq_lit(extension, "pyi") || eq_lit(extension, "pyw") {
        Some(icon("\u{e73c}", IconColor::Yellow))
    } else if eq_lit(extension, "go") {
        Some(icon("\u{e627}", IconColor::Cyan))
    } else if eq_lit(extension, "java") || eq_lit(extension, "jar") {
        Some(icon("\u{e738}", IconColor::Red))
    } else {
        None
    }
}

fn extension_icons_part_2(extension: &[u8]) -> (r: Option<FileIcon>)
    ensures
        r == extension_icons_2(extension@),
{
    reveal(extension_icons_2);
    if eq_lit(extension, "kt") || eq_lit(extension, "kts") {
        Some(icon("\u{e634}", IconColor::Purple))
    } else if eq_lit(extension, "rb") || eq_lit(extension, "rake") || eq_lit(extension, "gemspec") {
        Some(icon("\u{e791}", IconColor::Red))
    } else if eq_lit(extension, "php") {
        Some(icon("\u{e608}", IconColor::Purple))
    } else if eq_lit(extension, "swift") {
        Some(icon("\u{e755}", IconColor::Orange))
    } else if eq_lit(extension, "dart") {
        Some(icon("\u{e798}", IconColor::Blue))
    } else if eq_lit(extension, "ex") || eq_lit(extension, "exs") {
        Some(icon("\u{e62d}", IconColor::Purple))
    } else if eq_lit(extension, "erl") || eq_lit(extension, "hrl") {
        Some(icon("\u{e7b1}", IconColor::Red))
    } else if eq_lit(extension, "c") {
        Some(icon("\u{e61e}", IconColor::Blue))
    } else {
        None
    }
}

fn extension_icons_part_3(extension: &[u8]) -> (r: Option<FileIcon>)
    ensures
        r == extension_icons_3(extension@),
{
    reveal(extension_icons_3);
    if eq_lit(extension, "h") {
        Some(icon("\u{f0fd}", IconColor::Purple))
    } else if eq_lit(extension, "cc") || eq_lit(extension, "cpp") || eq_lit(extension, "cxx") || eq_lit(extension, "hpp") || eq_lit(extension, "hh") || eq_lit(extension, "hxx") {
        Some(icon("\u{e61d}", IconColor::Blue))
    } else if eq_lit(extension, "cs") {
        Some(icon("\u{f031b}", IconColor::Purple))
    } else if eq_lit(extension, "fs") || eq_lit(extension, "fsx") {
        Some(icon("\u{e7a7}", IconColor::Blue))
    } else if eq_lit(extension, "lua") {
        Some(icon("\u{e620}", IconColor::Blue))
    } else if eq_lit(extension, "vim") {
        Some(icon("\u{e62b}", IconColor::Green))
    } else if eq_lit(extension, "sh") || eq_lit(extension, "bash") || eq_lit(extension, "zsh") || eq_lit(extension, "fish") {
        Some(icon("\u{e795}", IconColor::Green))
    } else if eq_lit(extension, "ps1") {
        Some(icon("\u{f0a0a}", IconColor::Blue))
    } else {
        None
    }
}

fn extension_icons_part_4(extension: &[u8]) -> (r: Option<FileIcon>)
    ensures
        r == extension_icons_4(extension@),
{
    reveal(extension_icons_4);
    if eq_lit(extension, "html") || eq_lit(extension, "htm") {
        Some(icon("\u{e736}", IconColor::Orange))
    } else if eq_lit(extension, "css") {
        Some(icon("\u{e749}", IconColor::Blue))
    } else if eq_lit(extension, "scss") || eq_lit(extension, "sass") {
        Some(icon("\u{e603}", IconColor::Pink))
    } else if eq_lit(extension, "less") {
        Some(icon("\u{e614}", IconColor::Blue))
    } else if eq_lit(extension, "md") || eq_lit(extension, "markdown") || eq_lit(extension, "mdx") {
        Some(icon("\u{f0354}", IconColor::Blue))
    } else if eq_lit(extension, "txt") || eq_lit(extension, "log") {
        Some(icon("\u{f0219}", IconColor::Muted))
    } else if eq_lit(extension, "toml") {
        Some(icon("\u{e6b2}", IconColor::Orange))
    } else if eq_lit(extension, "yaml") || eq_lit(extension, "yml") {
        Some(icon("\u{e615}", IconColor::Purple))
    } else {
        None
    }
}

fn extension_icons_part_5(extension: &[u8]) -> (r: Option<FileIcon>)
    ensures
        r == extension_icons_5(extension@),
{
    reveal(extension_icons_5);
    if eq_lit(extension, "json") || eq_lit(extension, "jsonc") {
        Some(icon("\u{e60b}", IconColor::Yellow))
    } else if eq_lit(extension, "xml") {
        Some(icon("\u{f05c0}", IconColor::Orange))
    } else if eq_lit(extension, "ini") || eq_lit(extension, "conf") || eq_lit(extension, "config") || eq_lit(extension, "properties") {
        Some(icon("\u{e615}", IconColor::Yellow))
    } else if eq_lit(extension, "sql") || eq_lit(extension, "sqlite") || eq_lit(extension, "db") {
        Some(icon("\u{e706}", IconColor::Cyan))
    } else if eq_lit(extension, "graphql") || eq_lit(extension, "gql") {
        Some(icon("\u{f0877}", IconColor::Pink))
    } else if eq_lit(extension, "csv") || eq_lit(extension, "tsv") {
        Some(icon("\u{e64a}", IconColor::Green))
    } else if eq_lit(extension, "png") || eq_lit(extension, "jpg") || eq_lit(extension, "jpeg") || eq_lit(extension, "gif") || eq_lit(extension, "webp") || eq_lit(extension, "bmp") || eq_lit(extension, "ico") || eq_lit(extension, "svg") {
        Some(icon("\u{f02e9}", IconColor::Purple))
    } else if eq_lit(extension, "mp3") || eq_lit(extension, "wav") || eq_lit(extension, "flac") || eq_lit(extension, "m4a") || eq_lit(extension, "ogg") {
        Some(icon("\u{f001}", IconColor::Pink))
    } else {
        None
    }
}

fn extension_icons_part_6(extension: &[u8]) -> (r: Option<FileIcon>)
    ensures
        r == extension_icons_6(extension@),
{
    reveal(extension_icons_6);
    if eq_lit(extension, "mp4") || eq_lit(extension, "mov") || eq_lit(extension, "mkv") || eq_lit(extension, "webm") || eq_lit(extension, "avi") {
        Some(icon("\u{f03d}", IconColor::Pink))
    } else if eq_lit(extension, "zip") || eq_lit(extension, "tar") || eq_lit(extension, "gz") || eq_lit(extension, "bz2") || eq_lit(extension, "xz") || eq_lit(extension, "7z") || eq_lit(extension, "rar") {
        Some(icon("\u{f410}", IconColor::Yellow))
    } else if eq_lit(extension, "pdf") {
        Some(icon("\u{eaeb}", IconColor::Red))
    } else if eq_lit(extension, "ttf") || eq_lit(extension, "otf") || eq_lit(extension, "woff") || eq_lit(extension, "woff2") {
        Some(icon("\u{f031}", IconColor::Purple))
    } else if eq_lit(extension, "lock") {
        Some(icon("\u{f023}", IconColor::Yellow))
    } else {
        None
    }
}

pub fn extension_icon(extension: &[u8]) -> (r: FileIcon)
    ensures
        r == extension_icon_spec(extension@),
{
    if let Some(found) = extension_icons_part_1(extension) {
        return found;
    }
    if let Some(found) = extension_icons_part_2(extension) {
        return found;
    }
    if let Some(found) = extension_icons_part_3(extension) {
        return found;
    }
    if let Some(found) = extension_icons_part_4(extension) {
        return found;
    }
    if let Some(found) = extension_icons_part_5(extension) {
        return found;
    }
    if let Some(found) = extension_icons_part_6(extension) {
        return found;
    }
    icon("\u{f0214}", IconColor::Muted)
}

/// The icon shown beside a path in file lists.
pub fn for_path(path: &[u8]) -> (r: FileIcon)
    ensures
        r == icon_for(path@),
{
    let name = match file_name_of(path) {
        Some(name) => name,
        None => return icon("\u{f0214}", IconColor::Muted),
    };
    if !is_utf8(name.as_slice()) {
        return icon("\u{f0214}", IconColor::Muted);
    }
    let lower = to_ascii_lowercase(name.as_slice());
    if let Some(found) = named_icon(lower.as_slice()) {
        return found;
    }
    match name_extension(lower.as_slice()) {
        Some(extension) => extension_icon(extension.as_slice()),
        None => {
            let empty: Vec<u8> = Vec::new();
            proof {
                assert(empty@ =~= Seq::<u8>::empty());
            }
            extension_icon(empty.as_slice())
        },
    }
}

} // verus!
