use raccoon::config::{AppConfig, ConfigPaths, ThemeConfig};
use raccoon::theme::{
    bundled_themes, theme_file, theme_files, Appearance, ColorParseError, DiffRefs, LoadedTheme, Rgb, SyntaxRefs, Theme,
    ThemeCatalog, ThemeDirectory, ThemeError, ThemeSource, UiRefs, DEFAULT_THEME_NAME,
};

fn s(text: &str) -> String {
    text.to_string()
}

fn minimal(appearance: &str) -> ThemeSource {
    ThemeSource {
        name: s("Test"),
        appearance: s(appearance),
        palette: vec![
            (s("bg"), s("#000000")),
            (s("blue"), s("#80C0FF")),
            (s("fg"), s("#FFFFFF")),
            (s("green"), s("#80FF80")),
            (s("mid"), s("#333333")),
            (s("red"), s("#FF8080")),
            (s("yellow"), s("#FFFF80")),
        ],
        ui: UiRefs {
            background: s("bg"),
            foreground: s("fg"),
            panel: s("bg"),
            border: s("mid"),
            focused_border: s("blue"),
            selection: s("mid"),
            selection_foreground: s("fg"),
            muted: s("fg"),
            accent: s("blue"),
            warning: s("yellow"),
            error: s("red"),
            info: s("blue"),
            search_match: s("yellow"),
            search_match_foreground: s("bg"),
        },
        diff: DiffRefs {
            header: s("blue"),
            hunk_header: s("blue"),
            gutter: s("mid"),
            line_number: s("fg"),
            addition: s("green"),
            deletion: s("red"),
            context: s("fg"),
            metadata: s("fg"),
            addition_background: s("bg"),
            deletion_background: s("bg"),
            selected_background: s("mid"),
        },
        syntax: SyntaxRefs {
            comment: s("fg"),
            keyword: s("blue"),
            string: s("green"),
            number: s("yellow"),
            function: s("blue"),
            type_: s("blue"),
            variable: s("fg"),
            constant: s("yellow"),
            operator: s("fg"),
            punctuation: s("fg"),
            property: s("blue"),
            tag: s("blue"),
            attribute: s("yellow"),
            invalid: s("red"),
        },
    }
}

#[test]
fn parses_exact_hex_colors() {
    assert_eq!("#1a2B3c".parse::<Rgb>().unwrap(), Rgb::new(26, 43, 60));
    for invalid in ["1A2B3C", "#fff", "#1234567", "#GG0000"] {
        assert!(invalid.parse::<Rgb>().is_err());
    }
}

#[test]
fn rejects_light_and_missing_references() {
    assert!(matches!(Theme::from_source(minimal("light")), Err(ThemeError::UnsupportedAppearance(_))));
    let mut missing = minimal("dark");
    missing.ui.foreground = s("missing");
    assert!(matches!(Theme::from_source(missing), Err(ThemeError::UnknownPaletteReference { .. })));
}

#[test]
fn bundled_night_owl_is_valid_dark_and_default() {
    let themes = bundled_themes();
    assert!(themes.iter().all(|theme| theme.appearance == Appearance::Dark));
    assert!(themes.iter().any(|theme| theme.name == DEFAULT_THEME_NAME));
}

#[test]
fn colors_print_as_upper_case_hex_and_read_back() {
    let color = Rgb::new(26, 43, 60);
    assert_eq!(color.to_string(), "#1A2B3C");
    assert_eq!(color.to_string().parse::<Rgb>().unwrap(), color);
    for value in [0u8, 9, 10, 15, 16, 160, 255] {
        let c = Rgb::new(value, 255 - value, value / 2);
        assert_eq!(Rgb::parse(&c.to_string()), Ok(c));
    }
    assert_eq!(Rgb::parse("#12345"), Err(ColorParseError(s("#12345"))));
    assert_eq!(ColorParseError(s("x")).message(), "color must use exactly #RRGGBB, got `x`");
}

#[test]
fn a_valid_source_makes_its_theme() {
    let theme = Theme::from_source(minimal("dark")).unwrap();
    assert_eq!(theme.name, "Test");
    assert_eq!(theme.ui.foreground, Rgb::new(255, 255, 255));
    assert_eq!(theme.ui.focused_border, Rgb::new(0x80, 0xc0, 0xff));
    assert_eq!(theme.diff.deletion, Rgb::new(0xff, 0x80, 0x80));
    assert_eq!(theme.syntax.type_, Rgb::new(0x80, 0xc0, 0xff));
    let pairs = theme.contrast_requirements();
    assert_eq!(pairs.len(), 7);
    assert_eq!(pairs[0].foreground_name, "ui.foreground");
    assert_eq!(pairs[6].background_name, "diff.deletion_background");
    assert_eq!(pairs[6].foreground, theme.diff.deletion);
}

#[test]
fn source_errors_are_reported_in_order() {
    let mut blank = minimal("dark");
    blank.name = s(" \t\u{3000}");
    assert_eq!(Theme::from_source(blank), Err(ThemeError::EmptyName));
    let mut bad_color = minimal("dark");
    bad_color.palette[2].1 = s("white");
    bad_color.palette[5].1 = s("#red");
    assert_eq!(
        Theme::from_source(bad_color),
        Err(ThemeError::InvalidPaletteColor { name: s("fg"), value: s("white") })
    );
    let mut unknown = minimal("dark");
    unknown.diff.context = s("nope");
    unknown.syntax.invalid = s("gone");
    let error = Theme::from_source(unknown).unwrap_err();
    assert_eq!(
        error,
        ThemeError::UnknownPaletteReference { section: "diff", semantic: "context", reference: s("nope") }
    );
    assert_eq!(
        error.message(),
        "diff.context references missing palette color `nope`; add it to [palette] or correct the reference"
    );
    assert_eq!(
        ThemeError::UnsupportedAppearance(s("light")).message(),
        "theme appearance must be `dark`; `light` themes are not supported"
    );
}

#[test]
fn custom_invalid_theme_is_skipped_and_selection_falls_back() {
    let mut catalog = ThemeCatalog::bundled();
    let error = Theme::from_source(minimal("light")).map_err(|e| e.message());
    catalog.add_loaded(b"/themes/bad.toml".to_vec(), error);
    assert_eq!(catalog.diagnostics.len(), 1);
    let selected = catalog.select_or_default("Missing");
    assert!(selected.used_fallback);
    assert_eq!(selected.theme.name, DEFAULT_THEME_NAME);
    assert_eq!(selected.warning.as_deref(), Some("theme `Missing` was not found; using Night Owl"));
}

#[test]
fn configured_custom_theme_loads_from_platform_layout() {
    let paths = ConfigPaths::from_root(b"/config/raccoon");
    let mut catalog = ThemeCatalog::bundled();
    catalog.add_loaded(b"/config/raccoon/themes/custom.toml".to_vec(), Theme::from_source(minimal("dark")).map_err(|e| e.message()));
    let config = AppConfig { theme: ThemeConfig { name: s("Test") } };
    let loaded = LoadedTheme::load(paths, catalog, Ok(config));
    assert_eq!(loaded.selected.name, "Test");
    assert!(!loaded.used_fallback);
    assert!(loaded.diagnostics.is_empty());
}

#[test]
fn catalog_keeps_names_in_order_and_unique() {
    let mut catalog = ThemeCatalog::bundled();
    let mut early = Theme::from_source(minimal("dark")).unwrap();
    early.name = s("Aurora");
    let late = Theme::from_source(minimal("dark")).unwrap();
    catalog.add_loaded(b"a.toml".to_vec(), Ok(late.clone()));
    catalog.add_loaded(b"b.toml".to_vec(), Ok(early));
    catalog.add_loaded(b"c.toml".to_vec(), Ok(late));
    let names: Vec<&str> = catalog.iter().iter().map(|t| t.name.as_str()).collect();
    assert_eq!(names, vec!["Aurora", "Night Owl", "Test"]);
    assert_eq!(catalog.diagnostics.len(), 1);
    assert_eq!(catalog.diagnostics[0].message, "theme name `Test` duplicates a bundled or previously loaded theme");
    assert_eq!(catalog.diagnostics[0].path.as_deref(), Some(&b"c.toml"[..]));
    assert!(catalog.get("Aurora").is_some());
    assert!(catalog.get("aurora").is_none());
    assert!(!catalog.select_or_default("Test").used_fallback);
}

#[test]
fn unreadable_configuration_falls_back_with_a_diagnostic() {
    let paths = ConfigPaths::from_root(b"/c");
    let loaded = LoadedTheme::load(paths, ThemeCatalog::bundled(), Err(s("invalid configuration")));
    assert_eq!(loaded.selected.name, DEFAULT_THEME_NAME);
    assert!(loaded.used_fallback);
    assert_eq!(loaded.diagnostics.len(), 1);
    assert_eq!(loaded.diagnostics[0].path.as_deref(), Some(&b"/c/config.toml"[..]));
    let missing = LoadedTheme::load(
        ConfigPaths::from_root(b"/c"),
        ThemeCatalog::bundled(),
        Ok(AppConfig { theme: ThemeConfig { name: s("Nord") } }),
    );
    assert!(missing.used_fallback);
    assert_eq!(missing.diagnostics[0].message, "theme `Nord` was not found; using Night Owl");
}

#[test]
fn theme_files_are_toml_files_in_byte_order() {
    let listing = vec![
        b"/t/b.TOML".to_vec(),
        b"/t/readme.md".to_vec(),
        b"/t/a.toml".to_vec(),
        b"/t/.toml".to_vec(),
        b"/t/c.toml.bak".to_vec(),
    ];
    assert_eq!(theme_files(&listing), vec![b"/t/a.toml".to_vec(), b"/t/b.TOML".to_vec()]);
    assert!(theme_file(b"x.Toml"));
    assert!(!theme_file(b"toml"));
}

#[test]
fn bundled_catalog_is_ordered_and_holds_the_default() {
    let catalog = ThemeCatalog::bundled();
    assert!(catalog.is_well_formed());
    assert!(catalog.iter().iter().any(|theme| theme.name == DEFAULT_THEME_NAME));
}

#[test]
fn bundled_catalog_holds_night_owl_colors() {
    let catalog = ThemeCatalog::bundled();
    let theme = catalog.get(DEFAULT_THEME_NAME).expect("the default theme is bundled");
    assert_eq!(theme.ui.accent, Rgb::new(0x82, 0xaa, 0xff));
    assert_eq!(theme.ui.background, Rgb::new(0x01, 0x16, 0x27));
    assert_eq!(theme.syntax.string, Rgb::new(0xec, 0xc4, 0x8d));
    assert_eq!(theme.diff.addition, Rgb::new(0xad, 0xdb, 0x67));
    assert_eq!(bundled_themes()[0].syntax.type_, theme.syntax.type_);
}

#[test]
fn custom_files_each_add_one_theme_or_one_diagnostic() {
    let mut catalog = ThemeCatalog::bundled();
    let mut custom = bundled_themes().remove(0);
    custom.name = s("Deep Sea");
    let loaded = vec![
        (b"/t/a.toml".to_vec(), Ok(custom)),
        (b"/t/b.toml".to_vec(), Err(s("bad file"))),
        (b"/t/c.toml".to_vec(), Ok(bundled_themes().remove(0))),
    ];
    catalog.add_custom(loaded);
    assert!(catalog.get(DEFAULT_THEME_NAME).is_some());
    assert!(catalog.get("Deep Sea").is_some());
    assert_eq!(catalog.iter().len() + catalog.diagnostics.len(), 1 + 3);
    assert_eq!(catalog.diagnostics[0].path, Some(b"/t/b.toml".to_vec()));
    assert!(catalog.is_well_formed());
}

#[test]
fn unreadable_theme_directory_adds_one_diagnostic() {
    let mut catalog = ThemeCatalog::bundled();
    let before = catalog.iter().len();
    catalog.report_unreadable_dir(b"/t".to_vec(), "permission denied");
    assert_eq!(catalog.iter().len(), before);
    assert_eq!(catalog.diagnostics.len(), 1);
    assert_eq!(catalog.diagnostics[0].path, Some(b"/t".to_vec()));
    assert_eq!(catalog.diagnostics[0].message, "could not read themes directory: permission denied");
}

#[test]
fn custom_directory_outcomes_shape_the_catalog() {
    let missing = ThemeCatalog::with_custom(b"/t".to_vec(), ThemeDirectory::Missing);
    assert_eq!(missing.iter().len(), 1);
    assert!(missing.diagnostics.is_empty());
    let unreadable = ThemeCatalog::with_custom(b"/t".to_vec(), ThemeDirectory::Unreadable(s("denied")));
    assert_eq!(unreadable.iter().len(), 1);
    assert_eq!(unreadable.diagnostics.len(), 1);
    assert_eq!(unreadable.diagnostics[0].path, Some(b"/t".to_vec()));
    assert_eq!(unreadable.diagnostics[0].message, "could not read themes directory: denied");
    let mut custom = bundled_themes().remove(0);
    custom.name = s("Deep Sea");
    let loaded = ThemeCatalog::with_custom(
        b"/t".to_vec(),
        ThemeDirectory::Loaded(vec![
            (b"/t/a.toml".to_vec(), Ok(custom)),
            (b"/t/b.toml".to_vec(), Err(s("bad file"))),
        ]),
    );
    assert!(loaded.get(DEFAULT_THEME_NAME).is_some());
    assert!(loaded.get("Deep Sea").is_some());
    assert_eq!(loaded.iter().len() + loaded.diagnostics.len(), 1 + 2);
    assert_eq!(loaded.diagnostics[0].message, "bad file");
}
