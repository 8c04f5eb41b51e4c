use jellyfin_rpc::config::{
    config_path_in, urls_path_in, Config, ConfigBuilder, ConfigBuilderLoaderError, Display,
    DisplayOptionsBuilder, DiscordBuilder, ImgBB, Username,
};
use jellyfin_rpc::strutil::{replace_version, split_commas};

#[test]
fn builder_defaults() {
    let b = Config::builder();
    assert_eq!(b.jellyfin.url, "");
    assert!(matches!(b.jellyfin.username, Username::String(ref s) if s.is_empty()));
    assert!(b.jellyfin.api_key.is_none());
    assert_eq!(b.jellyfin.show_simple, Some(false));
    assert!(b.discord.is_none());
    assert!(b.imgbb.is_none());
    assert!(b.images.is_none());
}

#[test]
fn build_splits_comma_usernames() {
    let mut b = ConfigBuilder::new();
    b.jellyfin.username = Username::String("alice,bob,carol".to_string());
    let c = b.build();
    assert_eq!(c.jellyfin.username, vec!["alice", "bob", "carol"]);
}

#[test]
fn build_keeps_username_list() {
    let mut b = ConfigBuilder::new();
    b.jellyfin.username = Username::Vec(vec!["alice".to_string(), "bob".to_string()]);
    let c = b.build();
    assert_eq!(c.jellyfin.username, vec!["alice", "bob"]);
}

#[test]
fn build_adds_trailing_slash() {
    let mut b = ConfigBuilder::new();
    b.jellyfin.url = "https://jf.example".to_string();
    let c = b.build();
    assert_eq!(c.jellyfin.url, "https://jf.example/");

    let mut b2 = ConfigBuilder::new();
    b2.jellyfin.url = "https://jf.example/".to_string();
    let c2 = b2.build();
    assert_eq!(c2.jellyfin.url, "https://jf.example/");
}

#[test]
fn build_splits_display_string() {
    let mut b = ConfigBuilder::new();
    b.jellyfin.music = Some(DisplayOptionsBuilder {
        display: Some(Display::String("artist,year".to_string())),
        separator: Some("-".to_string()),
    });
    let c = b.build();
    let df = c.jellyfin.music.display.expect("a display format");
    assert_eq!(df.fields, vec!["artist", "year"]);
    assert_eq!(c.jellyfin.music.separator, Some("-".to_string()));
    assert!(c.jellyfin.movies.display.is_none());
}

#[test]
fn build_substitutes_version_in_image_text() {
    let mut b = ConfigBuilder::new();
    b.discord = Some(DiscordBuilder {
        application_id: None,
        buttons: None,
        show_paused: None,
        image_text: Some("jellyfin-rpc {version}".to_string()),
    });
    let c = b.build();
    assert_eq!(c.discord.image_text, "jellyfin-rpc 1.0.0");
    assert!(c.discord.show_paused);
}

#[test]
fn build_defaults_without_discord() {
    let c = ConfigBuilder::new().build();
    assert_eq!(c.discord.image_text, "tests1.0.0");
    assert!(c.discord.show_paused);
    assert!(!c.images.enable_images);
    assert!(c.imgbb.api_token.is_none());
    assert_eq!(c.jellyfin.api_key, "");
}

#[test]
fn key_overrides_apply_and_trim() {
    let mut b = ConfigBuilder::new();
    b.jellyfin.api_key = Some("from-config".to_string());
    let merged = b
        .apply_key_overrides(Some("  jf-key \n".to_string()), Some(" imgbb-key ".to_string()))
        .expect("key present");
    assert_eq!(merged.jellyfin.api_key, Some("jf-key".to_string()));
    let imgbb = merged.imgbb.expect("imgbb configured");
    assert_eq!(imgbb.api_token, Some("imgbb-key".to_string()));
    assert_eq!(imgbb.expiration, None);
}

#[test]
fn key_overrides_keep_existing_expiration() {
    let mut b = ConfigBuilder::new();
    b.jellyfin.api_key = Some("k".to_string());
    b.imgbb = Some(ImgBB { api_token: Some("old".to_string()), expiration: Some(600) });
    let merged = b
        .apply_key_overrides(None, Some("new".to_string()))
        .expect("key present");
    let imgbb = merged.imgbb.unwrap();
    assert_eq!(imgbb.api_token, Some("new".to_string()));
    assert_eq!(imgbb.expiration, Some(600));
}

#[test]
fn missing_jellyfin_key_is_rejected() {
    let b = ConfigBuilder::new();
    let r = b.apply_key_overrides(None, None);
    assert!(matches!(r, Err(ConfigBuilderLoaderError::MissingJellyfinKey)));
}

#[test]
fn split_commas_pieces() {
    let pieces = split_commas("a,b,,c");
    assert_eq!(pieces, vec!["a", "b", "", "c"]);
    assert_eq!(split_commas(""), vec![""]);
    assert_eq!(split_commas("solo"), vec!["solo"]);
}

#[test]
fn replace_version_everywhere() {
    assert_eq!(replace_version("v{version}x{version}", "9.9"), "v9.9x9.9");
    assert_eq!(replace_version("none here", "9.9"), "none here");
}

#[test]
fn well_known_paths() {
    assert_eq!(
        urls_path_in("/home/u/.config".to_string(), false),
        "/home/u/.config/jellyfin-rpc/urls.json"
    );
    assert_eq!(
        urls_path_in("C:\\Users\\u\\AppData\\Roaming".to_string(), true),
        "C:\\Users\\u\\AppData\\Roaming\\jellyfin-rpc\\urls.json"
    );
    assert_eq!(
        config_path_in("/home/u/.config".to_string(), false),
        "/home/u/.config/jellyfin-rpc/main.json"
    );
}
