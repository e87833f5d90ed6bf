use xlauchez::auth::offline::create_offline_account;
use xlauchez::config::{
    config_path_in, default_game_dir, default_game_dir_in, default_jvm_args, default_theme,
    new_profile, Account, AccountType, Config, Profile,
};
use xlauchez::error::{AppError, CommandError};

fn is_v4_uuid(s: &str) -> bool {
    let b: Vec<char> = s.chars().collect();
    b.len() == 36
        && b.iter().enumerate().all(|(i, c)| {
            if i == 8 || i == 13 || i == 18 || i == 23 {
                *c == '-'
            } else {
                c.is_ascii_digit() || ('a'..='f').contains(c)
            }
        })
        && b[14] == '4'
        && "89ab".contains(b[19])
}

fn profile(id: &str, version: &str) -> Profile {
    Profile {
        id: id.to_string(),
        name: format!("{id} name"),
        version_id: version.to_string(),
        jvm_args_override: None,
        max_memory_mb_override: None,
        min_memory_mb_override: None,
    }
}

fn account(id: &str, kind: AccountType) -> Account {
    Account {
        id: id.to_string(),
        username: format!("{id}-user"),
        account_type: kind,
        access_token: None,
        refresh_token: None,
        xbox_uid: None,
    }
}

fn config() -> Config {
    Config::defaults_at("/data/xlauchez/minecraft".to_string())
}

fn profile_ids(c: &Config) -> Vec<String> {
    c.profiles.iter().map(|p| p.id.clone()).collect()
}

fn account_ids(c: &Config) -> Vec<String> {
    c.accounts.iter().map(|a| a.id.clone()).collect()
}

#[test]
fn defaults_match_a_fresh_install() {
    let c = config();
    assert_eq!(c.game_dir, "/data/xlauchez/minecraft");
    assert_eq!(c.java_path, None);
    assert_eq!(
        c.jvm_args,
        vec![
            "-XX:+UseG1GC",
            "-XX:+UnlockExperimentalVMOptions",
            "-XX:G1NewSizePercent=20",
            "-XX:MaxGCPauseMillis=50"
        ]
    );
    assert_eq!(c.max_memory_mb, 2048);
    assert_eq!(c.min_memory_mb, 512);
    assert!(c.accounts.is_empty() && c.profiles.is_empty());
    assert_eq!(c.active_account_id, None);
    assert_eq!(c.active_profile_id, None);
    assert_eq!(c.active_theme, "dark");
    assert_eq!(default_theme(), "dark");
    assert_eq!(default_jvm_args().len(), 4);
}

#[test]
fn default_config_lives_under_the_data_dir() {
    let c = Config::default();
    assert!(c.game_dir.ends_with("xlauchez/minecraft"));
    assert_eq!(c.game_dir, default_game_dir());
    assert_eq!(c.max_memory_mb, 2048);
}

#[test]
fn default_game_dir_layout() {
    assert_eq!(default_game_dir_in(Some("/home/u/.local/share".into())), "/home/u/.local/share/xlauchez/minecraft");
    assert_eq!(default_game_dir_in(None), "./xlauchez/minecraft");
}

#[test]
fn config_path_layout_and_error() {
    match config_path_in(Some("/home/u/.config".into())) {
        Ok(p) => assert_eq!(p, "/home/u/.config/xlauchez/config.json"),
        Err(_) => panic!("expected a path"),
    }
    match config_path_in(None) {
        Err(AppError::Config(m)) => assert_eq!(m, "Cannot resolve config directory"),
        _ => panic!("expected a config error"),
    }
}

#[test]
fn directory_helpers() {
    let c = config();
    assert_eq!(c.profiles_root(), "/data/xlauchez/minecraft/profiles");
    assert_eq!(c.profile_game_dir("p1"), "/data/xlauchez/minecraft/profiles/p1");
    assert_eq!(c.shared_saves_dir(), "/data/xlauchez/minecraft/shared/saves");
    assert_eq!(c.themes_dir(), "/data/xlauchez/launcher/themes");
}

#[test]
fn themes_dir_of_a_root_game_dir() {
    let c = Config::defaults_at("/".to_string());
    assert_eq!(c.themes_dir(), "/launcher/themes");
}

#[test]
fn profile_dirs_layout() {
    let c = config();
    let (dirs, link) = c.profile_dirs("p1");
    assert_eq!(
        dirs,
        vec![
            "/data/xlauchez/minecraft/profiles/p1/mods",
            "/data/xlauchez/minecraft/profiles/p1/resourcepacks",
            "/data/xlauchez/minecraft/profiles/p1/shaderpacks",
            "/data/xlauchez/minecraft/shared/saves",
        ]
    );
    assert_eq!(link, "/data/xlauchez/minecraft/profiles/p1/saves");
}

#[test]
fn first_profile_becomes_active() {
    let mut c = config();
    c.add_profile(profile("a", "1.20.1"));
    c.add_profile(profile("b", "1.8.9"));
    assert_eq!(profile_ids(&c), vec!["a", "b"]);
    assert_eq!(c.active_profile_id.as_deref(), Some("a"));
}

#[test]
fn deleting_the_active_profile_activates_the_first_left() {
    let mut c = config();
    c.add_profile(profile("a", "1"));
    c.add_profile(profile("b", "2"));
    c.add_profile(profile("c", "3"));
    c.delete_profile("a");
    assert_eq!(profile_ids(&c), vec!["b", "c"]);
    assert_eq!(c.active_profile_id.as_deref(), Some("b"));
    c.delete_profile("c");
    assert_eq!(c.active_profile_id.as_deref(), Some("b"));
    c.delete_profile("b");
    assert!(c.profiles.is_empty());
    assert_eq!(c.active_profile_id, None);
}

#[test]
fn deleting_removes_every_profile_with_the_id() {
    let mut c = config();
    c.add_profile(profile("a", "1"));
    c.add_profile(profile("x", "2"));
    c.add_profile(profile("a", "3"));
    c.delete_profile("a");
    assert_eq!(profile_ids(&c), vec!["x"]);
    assert_eq!(c.active_profile_id.as_deref(), Some("x"));
    c.delete_profile("missing");
    assert_eq!(profile_ids(&c), vec!["x"]);
}

#[test]
fn set_active_profile_needs_an_existing_profile() {
    let mut c = config();
    c.add_profile(profile("a", "1"));
    c.add_profile(profile("b", "2"));
    assert_eq!(c.set_active_profile("b".into()), Ok(()));
    assert_eq!(c.active_profile_id.as_deref(), Some("b"));
    assert_eq!(c.set_active_profile("zzz".into()), Err(CommandError::ProfileNotFound));
    assert_eq!(c.active_profile_id.as_deref(), Some("b"));
}

#[test]
fn update_profile_replaces_the_first_with_the_id() {
    let mut c = config();
    c.add_profile(profile("a", "1"));
    c.add_profile(profile("b", "2"));
    let mut p = profile("b", "9");
    p.max_memory_mb_override = Some(4096);
    assert_eq!(c.update_profile(p), Ok(()));
    assert_eq!(c.profiles[1].version_id, "9");
    assert_eq!(c.profiles[1].max_memory_mb_override, Some(4096));
    assert_eq!(c.update_profile(profile("q", "1")), Err(CommandError::ProfileNotFound));
    assert_eq!(profile_ids(&c), vec!["a", "b"]);
}

#[test]
fn accounts_add_remove_and_activate() {
    let mut c = config();
    c.add_account(account("u1", AccountType::Offline));
    c.add_account(account("u2", AccountType::Offline));
    assert_eq!(c.active_account_id.as_deref(), Some("u1"));
    assert_eq!(c.set_active_account("u2".into()), Ok(()));
    assert_eq!(c.set_active_account("nobody".into()), Err(CommandError::AccountNotFound));
    c.remove_account("u2");
    assert_eq!(account_ids(&c), vec!["u1"]);
    assert_eq!(c.active_account_id.as_deref(), Some("u1"));
    c.remove_account("u1");
    assert_eq!(c.active_account_id, None);
}

#[test]
fn upsert_account_replaces_or_appends() {
    let mut c = config();
    c.add_account(account("u1", AccountType::Offline));
    let mut fresh = account("m1", AccountType::Microsoft);
    fresh.access_token = Some("tok1".into());
    c.upsert_account(fresh);
    assert_eq!(account_ids(&c), vec!["u1", "m1"]);
    let mut again = account("m1", AccountType::Microsoft);
    again.access_token = Some("tok2".into());
    c.upsert_account(again);
    assert_eq!(account_ids(&c), vec!["u1", "m1"]);
    assert_eq!(c.accounts[1].access_token.as_deref(), Some("tok2"));
    assert_eq!(c.active_account_id.as_deref(), Some("u1"));
}

#[test]
fn upsert_into_empty_config_activates_the_account() {
    let mut c = config();
    c.upsert_account(account("m1", AccountType::Microsoft));
    assert_eq!(c.active_account_id.as_deref(), Some("m1"));
}

#[test]
fn launch_settings_errors_in_order() {
    let mut c = config();
    assert_eq!(c.launch_settings("p").err(), Some(CommandError::ProfileNotFound));
    c.add_profile(profile("p", "1.20.1"));
    assert_eq!(c.launch_settings("p").err(), Some(CommandError::NoActiveAccount));
    c.active_account_id = Some("ghost".into());
    assert_eq!(c.launch_settings("p").err(), Some(CommandError::ActiveAccountNotFound));
}

#[test]
fn launch_settings_use_globals_without_overrides() {
    let mut c = config();
    c.add_profile(profile("p", "1.20.1"));
    c.add_account(account("u", AccountType::Offline));
    let s = c.launch_settings("p").unwrap();
    assert_eq!(s.version_id, "1.20.1");
    assert_eq!(s.account.id, "u");
    assert_eq!(s.java_path, "java");
    assert_eq!(s.jvm_args, c.jvm_args);
    assert_eq!(s.max_memory_mb, 2048);
    assert_eq!(s.min_memory_mb, 512);
}

#[test]
fn launch_settings_prefer_profile_overrides() {
    let mut c = config();
    c.java_path = Some("/opt/jdk/bin/java".into());
    let mut p = profile("p", "1.20.1");
    p.jvm_args_override = Some(vec!["-Dfoo=1".into()]);
    p.max_memory_mb_override = Some(8192);
    p.min_memory_mb_override = Some(1024);
    c.add_profile(p);
    c.add_account(account("u", AccountType::Offline));
    let s = c.launch_settings("p").unwrap();
    assert_eq!(s.java_path, "/opt/jdk/bin/java");
    assert_eq!(s.jvm_args, vec!["-Dfoo=1"]);
    assert_eq!(s.max_memory_mb, 8192);
    assert_eq!(s.min_memory_mb, 1024);
}

#[test]
fn new_profiles_keep_the_drawn_id() {
    let id = uuid::Uuid::new_v4().to_string();
    assert!(is_v4_uuid(&id));
    let p = new_profile(id.clone(), "Main".into(), "1.20.1".into());
    assert_eq!(p.id, id);
    assert_eq!(p.name, "Main");
    assert_eq!(p.version_id, "1.20.1");
    assert!(p.jvm_args_override.is_none());
}

#[test]
fn offline_accounts_have_no_tokens() {
    let id = uuid::Uuid::new_v4().to_string();
    let a = create_offline_account(id.clone(), "Steve".into());
    assert_eq!(a.id, id);
    assert!(is_v4_uuid(&a.id));
    assert_eq!(a.username, "Steve");
    assert_eq!(a.account_type, AccountType::Offline);
    assert!(a.access_token.is_none() && a.refresh_token.is_none() && a.xbox_uid.is_none());
}

#[test]
fn command_error_messages() {
    assert_eq!(CommandError::ProfileNotFound.message(), "Profile not found");
    assert_eq!(CommandError::AccountNotFound.message(), "Account not found");
    assert_eq!(CommandError::NoActiveAccount.message(), "No active account");
    assert_eq!(CommandError::ActiveAccountNotFound.message(), "Active account not found");
    assert_eq!(
        CommandError::VersionNotInstalled("1.20.1".into()).message(),
        "Version 1.20.1 is not installed."
    );
    assert_eq!(AppError::Auth("nope".into()).message(), "nope");
}

#[test]
fn profile_game_dirs_sit_under_the_profiles_root() {
    let c = config();
    let root = c.profiles_root();
    let a = c.profile_game_dir("0f8fad5b-d9cb-469f-a165-70867728950e");
    let b = c.profile_game_dir("7c9e6679-7425-40de-944b-e07fc1f90ae7");
    let pa = std::path::Path::new(&a);
    assert_eq!(pa.parent().unwrap().to_str().unwrap(), root);
    assert_eq!(pa.file_name().unwrap().to_str().unwrap(), "0f8fad5b-d9cb-469f-a165-70867728950e");
    assert!(a.ends_with("0f8fad5b-d9cb-469f-a165-70867728950e"));
    assert_ne!(a, b);
}
