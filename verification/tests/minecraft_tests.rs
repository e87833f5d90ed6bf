use xlauchez::config::{Account, AccountType};
use xlauchez::minecraft::assets::{
    asset_downloads, asset_index_path, asset_object_path, asset_object_url, hash_prefix,
    AssetIndex, AssetObject,
};
use xlauchez::minecraft::launch::{
    build_classpath, build_command, build_command_checked, game_args, natives_dir, substitute_game, substitute_jvm,
    GameValues, LaunchOptions, Platform,
};
use xlauchez::minecraft::version::{
    is_library_allowed, library_files, library_install_steps, version_jar_path, version_meta_path, ArgumentValue,
    AssetIndexRef, DownloadInfo, GameArguments, Library, LibraryArtifact, LibraryDownloads,
    LibraryFile, LibraryRule, OsRule, VersionDownloads, VersionMeta,
};

fn rule(action: &str, os: Option<&str>) -> LibraryRule {
    LibraryRule {
        action: action.into(),
        os: os.map(|n| OsRule { name: Some(n.into()) }),
    }
}

fn lib(name: &str, path: Option<&str>, rules: Option<Vec<LibraryRule>>) -> Library {
    Library {
        name: name.into(),
        downloads: Some(LibraryDownloads {
            artifact: path.map(|p| LibraryArtifact {
                path: p.into(),
                sha1: "0".into(),
                size: 1,
                url: format!("https://libraries.example/{p}"),
            }),
        }),
        rules,
    }
}

fn meta(arguments: Option<GameArguments>, legacy: Option<&str>, libraries: Vec<Library>) -> VersionMeta {
    VersionMeta {
        id: "1.20.1".into(),
        main_class: "net.minecraft.client.main.Main".into(),
        arguments,
        minecraft_arguments: legacy.map(|s| s.to_string()),
        libraries,
        downloads: VersionDownloads {
            client: DownloadInfo { sha1: "c".into(), size: 1, url: "https://client.example/c.jar".into() },
        },
        asset_index: AssetIndexRef { id: "5".into(), sha1: "a".into(), size: 1, url: "https://idx.example/5.json".into() },
        assets: "5".into(),
        java_version: None,
    }
}

fn plain(s: &str) -> ArgumentValue {
    ArgumentValue::Plain(s.into())
}

fn platform() -> Platform {
    Platform {
        os_name: "linux".into(),
        classpath_separator: ":".into(),
        launcher_version: "0.1.0".into(),
    }
}

fn account(kind: AccountType, token: Option<&str>) -> Account {
    Account {
        id: "uuid-1".into(),
        username: "Steve".into(),
        account_type: kind,
        access_token: token.map(|s| s.to_string()),
        refresh_token: None,
        xbox_uid: None,
    }
}

#[test]
fn version_file_locations() {
    assert_eq!(version_meta_path("/g", "1.20.1"), "/g/versions/1.20.1/1.20.1.json");
    assert_eq!(version_jar_path("/g", "1.20.1"), "/g/versions/1.20.1/1.20.1.jar");
    assert_eq!(natives_dir("/g", "1.8.9"), "/g/versions/1.8.9/natives");
}

#[test]
fn libraries_without_rules_are_allowed() {
    assert!(is_library_allowed(&lib("a", None, None), "linux"));
    assert!(is_library_allowed(&lib("a", None, Some(vec![])), "windows"));
}

#[test]
fn last_applicable_rule_decides() {
    let rules = vec![rule("allow", None), rule("disallow", Some("osx"))];
    let l = lib("a", None, Some(rules));
    assert!(is_library_allowed(&l, "linux"));
    assert!(!is_library_allowed(&l, "osx"));
    let only_windows = lib("b", None, Some(vec![rule("allow", Some("windows"))]));
    assert!(is_library_allowed(&only_windows, "windows"));
    assert!(!is_library_allowed(&only_windows, "linux"));
}

#[test]
fn rule_with_nameless_os_applies_nowhere() {
    let l = lib("a", None, Some(vec![LibraryRule { action: "allow".into(), os: Some(OsRule { name: None }) }]));
    assert!(!is_library_allowed(&l, "linux"));
}

#[test]
fn library_files_of_allowed_artifacts() {
    let m = meta(
        None,
        None,
        vec![
            lib("a", Some("a/a.jar"), None),
            lib("b", Some("b/b.jar"), Some(vec![rule("allow", Some("osx"))])),
            lib("c", None, None),
            Library { name: "d".into(), downloads: None, rules: None },
            lib("e", Some("e/e.jar"), Some(vec![rule("allow", None)])),
        ],
    );
    let files = library_files("/g", &m, "linux");
    let got: Vec<(String, String)> = files.into_iter().map(|f| (f.path, f.url)).collect();
    assert_eq!(
        got,
        vec![
            ("/g/libraries/a/a.jar".to_string(), "https://libraries.example/a/a.jar".to_string()),
            ("/g/libraries/e/e.jar".to_string(), "https://libraries.example/e/e.jar".to_string()),
        ]
    );
}

#[test]
fn asset_locations() {
    let hash = "a1b2c3d4e5";
    assert_eq!(hash_prefix(hash), "a1");
    assert_eq!(asset_index_path("/g", "5"), "/g/assets/indexes/5.json");
    assert_eq!(asset_object_path("/g", hash), "/g/assets/objects/a1/a1b2c3d4e5");
    assert_eq!(asset_object_url(hash), "https://resources.download.minecraft.net/a1/a1b2c3d4e5");
}

#[test]
fn asset_prefix_is_two_bytes() {
    // 'é' takes two bytes in UTF-8, so it alone makes the prefix.
    assert_eq!(hash_prefix("éab"), "é");
}

#[test]
fn asset_downloads_follow_index_order() {
    let index = AssetIndex {
        objects: vec![
            ("icons/a.png".into(), AssetObject { hash: "ff00".into(), size: 3 }),
            ("lang/en.json".into(), AssetObject { hash: "0aff".into(), size: 4 }),
        ],
    };
    let d = asset_downloads("/g", &index);
    assert_eq!(d.len(), 2);
    assert_eq!(d[0].path, "/g/assets/objects/ff/ff00");
    assert_eq!(d[0].url, "https://resources.download.minecraft.net/ff/ff00");
    assert_eq!(d[1].path, "/g/assets/objects/0a/0aff");
}

#[test]
fn classpath_keeps_present_jars_then_client() {
    let files = vec![
        LibraryFile { path: "/g/libraries/a.jar".into(), url: "u".into() },
        LibraryFile { path: "/g/libraries/b.jar".into(), url: "u".into() },
    ];
    assert_eq!(
        build_classpath("/g", "1.20.1", &files, &[true, false], ":"),
        "/g/libraries/a.jar:/g/versions/1.20.1/1.20.1.jar"
    );
    assert_eq!(build_classpath("/g", "1.20.1", &[], &[], ";"), "/g/versions/1.20.1/1.20.1.jar");
}

#[test]
fn jvm_placeholders() {
    let p = platform();
    assert_eq!(
        substitute_jvm("-Djava.library.path=${natives_directory}", "/g", "1.20.1", "CP", &p),
        "-Djava.library.path=/g/versions/1.20.1/natives"
    );
    assert_eq!(substitute_jvm("${classpath}", "/g", "v", "a.jar:b.jar", &p), "a.jar:b.jar");
    assert_eq!(
        substitute_jvm("-Dminecraft.launcher.brand=${launcher_name} ${launcher_version}${classpath_separator}", "/g", "v", "", &p),
        "-Dminecraft.launcher.brand=XLauchez 0.1.0:"
    );
}

#[test]
fn game_placeholders() {
    let v = GameValues {
        username: "Steve".into(),
        version_name: "1.20.1".into(),
        game_directory: "/g/profiles/p".into(),
        assets_root: "/g/assets".into(),
        assets_index_name: "5".into(),
        uuid: "uuid-1".into(),
        access_token: "offline".into(),
        user_type: "legacy".into(),
    };
    assert_eq!(substitute_game("${auth_player_name}", &v), "Steve");
    assert_eq!(substitute_game("--uuid=${auth_uuid}", &v), "--uuid=uuid-1");
    assert_eq!(substitute_game("${version_type}", &v), "release");
    assert_eq!(substitute_game("${clientid}${auth_xuid}", &v), "");
    assert_eq!(substitute_game("${user_properties}", &v), "{}");
    assert_eq!(substitute_game("${unknown}", &v), "${unknown}");
}

#[test]
fn legacy_game_args_split_on_whitespace() {
    let m = meta(None, Some("--username ${auth_player_name} --accessToken ${auth_access_token}  --userType ${user_type}"), vec![]);
    let acc = account(AccountType::Offline, None);
    let opts = LaunchOptions {
        game_dir: "/g",
        profile_game_dir: "/g/profiles/p",
        version_id: "1.8.9",
        meta: &m,
        account: &acc,
        java_path: "java",
        extra_jvm_args: &[],
        max_memory_mb: 1024,
        min_memory_mb: 256,
    };
    assert_eq!(
        game_args(&opts, ""),
        vec!["--username", "Steve", "--accessToken", "offline", "--userType", "legacy"]
    );
}

#[test]
fn build_command_for_a_modern_version() {
    let m = meta(
        Some(GameArguments {
            game: vec![plain("--gameDir"), plain("${game_directory}"), ArgumentValue::Conditional, plain("--assetsDir"), plain("${assets_root}")],
            jvm: vec![ArgumentValue::Conditional, plain("-cp"), plain("${classpath}")],
        }),
        None,
        vec![lib("a", Some("a/a.jar"), None), lib("w", Some("w/w.jar"), Some(vec![rule("allow", Some("windows"))]))],
    );
    let acc = account(AccountType::Microsoft, Some("MC"));
    let extra = vec!["-XX:+UseG1GC".to_string()];
    let opts = LaunchOptions {
        game_dir: "/g",
        profile_game_dir: "/g/profiles/p",
        version_id: "1.20.1",
        meta: &m,
        account: &acc,
        java_path: "/usr/bin/java",
        extra_jvm_args: &extra,
        max_memory_mb: 2048,
        min_memory_mb: 512,
    };
    let cmd = build_command(&opts, &platform(), &[true]).unwrap();
    assert_eq!(cmd.program, "/usr/bin/java");
    assert_eq!(cmd.current_dir, "/g");
    assert_eq!(
        cmd.args,
        vec![
            "-Xmx2048m",
            "-Xms512m",
            "-XX:+UseG1GC",
            "-cp",
            "/g/libraries/a/a.jar:/g/versions/1.20.1/1.20.1.jar",
            "net.minecraft.client.main.Main",
            "--gameDir",
            "/g/profiles/p",
            "--assetsDir",
            "/g/assets",
        ]
    );
}

#[test]
fn build_command_for_a_legacy_version() {
    let m = meta(None, Some("--username ${auth_player_name} --userType ${user_type} --accessToken ${auth_access_token}"), vec![]);
    let acc = account(AccountType::Microsoft, Some("MC"));
    let opts = LaunchOptions {
        game_dir: "/g",
        profile_game_dir: "/g/profiles/p",
        version_id: "1.8.9",
        meta: &m,
        account: &acc,
        java_path: "java",
        extra_jvm_args: &[],
        max_memory_mb: 1024,
        min_memory_mb: 256,
    };
    let cmd = build_command(&opts, &platform(), &[]).unwrap();
    assert_eq!(
        cmd.args,
        vec![
            "-Xmx1024m",
            "-Xms256m",
            "-Djava.library.path=/g/versions/1.8.9/natives",
            "-cp",
            "/g/versions/1.8.9/1.8.9.jar",
            "net.minecraft.client.main.Main",
            "--username",
            "Steve",
            "--userType",
            "msa",
            "--accessToken",
            "MC",
        ]
    );
}

#[test]
fn version_without_any_arguments_has_no_game_args() {
    let m = meta(None, None, vec![]);
    let acc = account(AccountType::Offline, None);
    let opts = LaunchOptions {
        game_dir: "/g",
        profile_game_dir: "/p",
        version_id: "v",
        meta: &m,
        account: &acc,
        java_path: "java",
        extra_jvm_args: &[],
        max_memory_mb: 1,
        min_memory_mb: 1,
    };
    assert!(game_args(&opts, "").is_empty());
}

#[test]
fn install_steps_cover_allowed_libraries() {
    let m = meta(
        None,
        None,
        vec![
            lib("a", Some("a/a.jar"), None),
            lib("mac", Some("m/m.jar"), Some(vec![rule("allow", Some("osx"))])),
            lib("noart", None, None),
        ],
    );
    let steps = library_install_steps("/g", &m, "linux");
    assert_eq!(steps.len(), 2);
    assert_eq!(steps[0].index, 0);
    assert_eq!(steps[0].file.as_ref().map(|f| f.path.clone()), Some("/g/libraries/a/a.jar".to_string()));
    assert_eq!(steps[1].index, 2);
    assert!(steps[1].file.is_none());
}

#[test]
fn version_jar_and_meta_differ_only_in_extension() {
    let jar = version_jar_path("/g", "1.20.1");
    let meta = version_meta_path("/g", "1.20.1");
    assert_eq!(std::path::Path::new(&jar).parent(), std::path::Path::new(&meta).parent());
    assert_eq!(std::path::Path::new(&jar).parent().unwrap().to_str().unwrap(), "/g/versions/1.20.1");
    assert_eq!(format!("{}.json", &jar[..jar.len() - 4]), meta);
    assert!(jar.ends_with(".jar"));
}

#[test]
fn build_command_checked_needs_one_flag_per_jar() {
    let m = meta(None, Some("--username ${auth_player_name}"), vec![]);
    let acc = account(AccountType::Microsoft, Some("MC"));
    let opts = LaunchOptions {
        game_dir: "/g",
        profile_game_dir: "/g/profiles/p",
        version_id: "1.8.9",
        meta: &m,
        account: &acc,
        java_path: "java",
        extra_jvm_args: &[],
        max_memory_mb: 1024,
        min_memory_mb: 256,
    };
    assert!(build_command_checked(&opts, &platform(), &[true]).is_none());
    let checked = build_command_checked(&opts, &platform(), &[]).unwrap();
    let plain = build_command(&opts, &platform(), &[]).unwrap();
    assert_eq!(checked.args, plain.args);
    assert_eq!(checked.program, plain.program);
    assert_eq!(checked.current_dir, plain.current_dir);
}
