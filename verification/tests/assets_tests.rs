use wiremann::assets::{has_prefix, has_suffix, Assets};

fn paths() -> Vec<String> {
    vec![
        "icons/play.svg".to_string(),
        "fonts/SpaceGrotesk.ttf".to_string(),
        "fonts/readme.txt".to_string(),
        "icons/pause.svg".to_string(),
        "fonts/JetBrainsMono.ttf".to_string(),
    ]
}

#[test]
fn listing_a_directory() {
    let a = Assets;
    assert_eq!(
        a.list(&paths(), "icons"),
        vec!["icons/play.svg".to_string(), "icons/pause.svg".to_string()]
    );
    assert_eq!(a.list(&paths(), "").len(), 5);
    assert!(a.list(&paths(), "sounds").is_empty());
}

#[test]
fn fonts_are_the_ttf_files_under_fonts() {
    assert_eq!(
        Assets.font_paths(&paths()),
        vec!["fonts/SpaceGrotesk.ttf".to_string(), "fonts/JetBrainsMono.ttf".to_string()]
    );
}

#[test]
fn loading_files() {
    let a = Assets;
    assert_eq!(a.load("", Some(vec![1, 2])), Ok(None));
    assert_eq!(a.load("icons/play.svg", Some(vec![1, 2])), Ok(Some(vec![1, 2])));
    assert_eq!(
        a.load("icons/nope.svg", None),
        Err("could not find asset at path \"icons/nope.svg\"".to_string())
    );
}

#[test]
fn prefixes_and_suffixes() {
    assert!(has_prefix("fonts/a.ttf", "fonts"));
    assert!(has_prefix("abc", ""));
    assert!(!has_prefix("fo", "fonts"));
    assert!(!has_prefix("icons/a", "fonts"));
    assert!(has_suffix("a.ttf", ".ttf"));
    assert!(!has_suffix("a.otf", ".ttf"));
    assert!(!has_suffix("tf", ".ttf"));
    assert!(has_prefix("héllo wörld", "héllo"));
    assert!(has_suffix("héllo wörld", "wörld"));
}
