use raccoon::config::{AppConfig, ConfigPaths, ThemeConfig, DEFAULT_THEME_NAME};

#[test]
fn paths_sit_under_the_root() {
    let paths = ConfigPaths::from_root(b"/home/me/.config/raccoon");
    assert_eq!(paths.root, b"/home/me/.config/raccoon".to_vec());
    assert_eq!(paths.config_file, b"/home/me/.config/raccoon/config.toml".to_vec());
    assert_eq!(paths.themes_dir, b"/home/me/.config/raccoon/themes".to_vec());
    assert_eq!(ConfigPaths::from_root(b"/r/").config_file, b"/r/config.toml".to_vec());
    assert_eq!(ConfigPaths::from_root(b"").themes_dir, b"themes".to_vec());
}

#[test]
fn missing_config_uses_default_theme() {
    assert_eq!(AppConfig::default().theme.name, DEFAULT_THEME_NAME);
    assert_eq!(ThemeConfig::default().name, "Night Owl");
}
