use xlauchez::java::{java_candidates, java_responds};
use xlauchez::theme::{
    b64_encode, ensure_defaults, image_to_data_uri, load, meta_path, mime_for_extension, resolve,
    sort_theme_entries, theme_dir, theme_entry, theme_file_paths, ver_default, SetupStep,
    ThemeEntry, ThemeFiles, ThemeMain, ThemeMeta, ThemeSplash, DARK_JSON, LIGHT_JSON, LIGHT_SPLASH_CSS,
};

fn meta_with(css: Option<&str>, bg: Option<&str>) -> ThemeMeta {
    let mut main = ThemeMain::default();
    main.css.main = css.map(|s| s.to_string());
    main.backgrounds.main = bg.map(|s| s.to_string());
    ThemeMeta {
        name: "Custom".into(),
        author: "me".into(),
        description: String::new(),
        version: ver_default(),
        main,
        splash: ThemeSplash::default(),
    }
}

fn entry(folder: &str) -> ThemeEntry {
    ThemeEntry { folder_name: folder.into(), display_name: folder.to_uppercase(), author: String::new() }
}

#[test]
fn base64_known_values() {
    assert_eq!(b64_encode(b""), "");
    assert_eq!(b64_encode(b"f"), "Zg==");
    assert_eq!(b64_encode(b"fo"), "Zm8=");
    assert_eq!(b64_encode(b"foo"), "Zm9v");
    assert_eq!(b64_encode(b"foobar"), "Zm9vYmFy");
    assert_eq!(b64_encode(b"Man"), "TWFu");
    assert_eq!(b64_encode(&[0xff, 0xfe, 0x00, 0x3f]), "//4APw==");
}

#[test]
fn base64_length_law_on_examples() {
    for n in 0..20usize {
        let data: Vec<u8> = (0..n as u8).collect();
        assert_eq!(b64_encode(&data).len(), 4 * ((n + 2) / 3));
    }
}

#[test]
fn base64_groups_of_three_encode_independently() {
    let a = b"abcdef";
    let b = b"xy";
    let whole: Vec<u8> = a.iter().chain(b.iter()).copied().collect();
    assert_eq!(b64_encode(&whole), format!("{}{}", b64_encode(a), b64_encode(b)));
}

#[test]
fn mime_types_by_extension() {
    assert_eq!(mime_for_extension(Some("jpg")), "image/jpeg");
    assert_eq!(mime_for_extension(Some("jpeg")), "image/jpeg");
    assert_eq!(mime_for_extension(Some("png")), "image/png");
    assert_eq!(mime_for_extension(Some("gif")), "image/gif");
    assert_eq!(mime_for_extension(Some("webp")), "image/webp");
    assert_eq!(mime_for_extension(Some("bmp")), "image/png");
    assert_eq!(mime_for_extension(None), "image/png");
}

#[test]
fn data_uri_of_an_image() {
    assert_eq!(image_to_data_uri("/t/dark/bg.gif", b"GIF"), "data:image/gif;base64,R0lG");
    assert_eq!(image_to_data_uri("/t/dark/bg", b"x"), "data:image/png;base64,eA==");
}

#[test]
fn theme_paths() {
    assert_eq!(theme_dir("/t", "dark"), "/t/dark");
    assert_eq!(meta_path("/t/dark"), "/t/dark/theme.json");
    assert_eq!(resolve("/t/dark", "./css/main.css"), "/t/dark/css/main.css");
    assert_eq!(resolve("/t/dark", "css/main.css"), "/t/dark/css/main.css");
    let m = meta_with(Some("./css/main.css"), Some("backgrounds/bg.png"));
    let p = theme_file_paths("/t/dark", &m);
    assert_eq!(p.main_css.as_deref(), Some("/t/dark/css/main.css"));
    assert_eq!(p.main_bg.as_deref(), Some("/t/dark/backgrounds/bg.png"));
    assert_eq!(p.splash_css, None);
    assert_eq!(p.splash_bg, None);
}

#[test]
fn default_themes_setup_steps() {
    let steps = ensure_defaults("/t");
    assert_eq!(steps.len(), 10);
    match &steps[0] {
        SetupStep::CreateDir(p) => assert_eq!(p, "/t/dark/css"),
        other => panic!("unexpected {other:?}"),
    }
    match &steps[1] {
        SetupStep::CreateDir(p) => assert_eq!(p, "/t/dark/backgrounds"),
        other => panic!("unexpected {other:?}"),
    }
    match &steps[2] {
        SetupStep::WriteIfMissing(p, c) => {
            assert_eq!(p, "/t/dark/theme.json");
            assert_eq!(*c, DARK_JSON);
        }
        other => panic!("unexpected {other:?}"),
    }
    match &steps[9] {
        SetupStep::WriteIfMissing(p, c) => {
            assert_eq!(p, "/t/light/css/splash.css");
            assert_eq!(*c, LIGHT_SPLASH_CSS);
        }
        other => panic!("unexpected {other:?}"),
    }
}

#[test]
fn load_assembles_theme_data() {
    let m = meta_with(Some("./css/main.css"), Some("./bg.jpg"));
    let files = ThemeFiles {
        main_css: Some(":root {}".into()),
        splash_css: Some("ignored".into()),
        main_bg: Some(b"Man".to_vec()),
        splash_bg: None,
    };
    let d = load("/t", "custom", m, files);
    assert_eq!(d.folder_name, "custom");
    assert_eq!(d.meta.name, "Custom");
    assert_eq!(d.main_css, ":root {}");
    assert_eq!(d.splash_css, "");
    assert_eq!(d.main_bg_data_uri.as_deref(), Some("data:image/jpeg;base64,TWFu"));
    assert_eq!(d.splash_bg_data_uri, None);
}

#[test]
fn load_with_unreadable_files() {
    let m = meta_with(Some("./css/main.css"), Some("./bg.png"));
    let files = ThemeFiles { main_css: None, splash_css: None, main_bg: None, splash_bg: None };
    let d = load("/t", "broken", m, files);
    assert_eq!(d.main_css, "");
    assert_eq!(d.main_bg_data_uri, None);
}

#[test]
fn theme_list_order() {
    let sorted = sort_theme_entries(vec![entry("zeta"), entry("light"), entry("alpha"), entry("dark"), entry("Beta")]);
    let names: Vec<String> = sorted.into_iter().map(|e| e.folder_name).collect();
    assert_eq!(names, vec!["dark", "light", "Beta", "alpha", "zeta"]);
    assert!(sort_theme_entries(vec![]).is_empty());
}

#[test]
fn theme_list_order_uses_code_points() {
    let sorted = sort_theme_entries(vec![entry("é"), entry("z"), entry("ab"), entry("a")]);
    let names: Vec<String> = sorted.into_iter().map(|e| e.folder_name).collect();
    let mut expected = vec!["é".to_string(), "z".into(), "ab".into(), "a".into()];
    expected.sort();
    assert_eq!(names, expected);
}

#[test]
fn theme_entry_from_meta() {
    let e = theme_entry("custom".into(), meta_with(None, None));
    assert_eq!(e.folder_name, "custom");
    assert_eq!(e.display_name, "Custom");
    assert_eq!(e.author, "me");
    assert_eq!(ver_default(), "1.0.0");
}

#[test]
fn java_search_locations() {
    assert_eq!(java_candidates("linux").len(), 5);
    assert_eq!(java_candidates("linux")[0], "java");
    assert_eq!(java_candidates("osx")[1], "/usr/bin/java");
    assert_eq!(java_candidates("windows")[2], r"C:\Program Files\Java\jdk-21\bin\java.exe");
    assert!(java_responds(true, 0));
    assert!(java_responds(false, 12));
    assert!(!java_responds(false, 0));
}

#[test]
fn theme_list_keeps_order_within_a_folder() {
    let mut a = entry("shared");
    a.display_name = "first".into();
    let mut b = entry("shared");
    b.display_name = "second".into();
    let sorted = sort_theme_entries(vec![a, entry("dark"), b]);
    let names: Vec<(String, String)> = sorted.into_iter().map(|e| (e.folder_name, e.display_name)).collect();
    assert_eq!(
        names,
        vec![
            ("dark".to_string(), "DARK".to_string()),
            ("shared".to_string(), "first".to_string()),
            ("shared".to_string(), "second".to_string()),
        ]
    );
}

#[test]
fn base64_uses_the_whole_alphabet_in_order() {
    let mut bytes: Vec<u8> = Vec::new();
    for g in 0..16u32 {
        let n = ((4 * g) << 18) | ((4 * g + 1) << 12) | ((4 * g + 2) << 6) | (4 * g + 3);
        bytes.push((n >> 16) as u8);
        bytes.push((n >> 8) as u8);
        bytes.push(n as u8);
    }
    assert_eq!(
        b64_encode(&bytes),
        "ABCDEFGHIJKLMNOPQRSTUVWXYZabcdefghijklmnopqrstuvwxyz0123456789+/"
    );
}

#[test]
fn base64_padding_only_at_the_end() {
    for n in 0..10usize {
        let data: Vec<u8> = (0..n).map(|i| (i * 61 + 7) as u8).collect();
        let e = b64_encode(&data);
        let pad = (3 - n % 3) % 3;
        let chars: Vec<char> = e.chars().collect();
        for (i, c) in chars.iter().enumerate() {
            assert_eq!(*c == '=', i >= chars.len() - pad);
        }
    }
}

fn apply_plan(
    dirs: &mut std::collections::BTreeSet<String>,
    files: &mut std::collections::BTreeMap<String, String>,
    plan: &[SetupStep],
) {
    for s in plan {
        match s {
            SetupStep::CreateDir(p) => {
                dirs.insert(p.clone());
            }
            SetupStep::WriteIfMissing(p, c) => {
                files.entry(p.clone()).or_insert_with(|| c.to_string());
            }
        }
    }
}

#[test]
fn setting_up_twice_changes_nothing_and_keeps_edits() {
    let plan = ensure_defaults("/t");
    let mut dirs = std::collections::BTreeSet::new();
    let mut files = std::collections::BTreeMap::new();
    files.insert("/t/dark/css/main.css".to_string(), "/* edited */".to_string());
    apply_plan(&mut dirs, &mut files, &plan);
    let (once_dirs, once_files) = (dirs.clone(), files.clone());
    apply_plan(&mut dirs, &mut files, &plan);
    assert_eq!(dirs, once_dirs);
    assert_eq!(files, once_files);
    assert_eq!(files["/t/dark/css/main.css"], "/* edited */");
    assert_eq!(files["/t/light/theme.json"], LIGHT_JSON);
}
