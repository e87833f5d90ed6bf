//! The launcher configuration: global settings, accounts and profiles, the
//! directories derived from the game directory, and the edits that the
//! launcher's commands make to it.
use vstd::prelude::*;
use crate::error::{AppError, CommandError};
use crate::keyed::{
    Keyed, has_key, first_key_index, without_key, replace_keyed, upsert_keyed, opt_chars,
    active_after_removal, find_key, remove_key, replace_key, upsert_key,
};
use crate::paths::{path_join, path_parent, plain_component, join_path, parent_path};
use crate::text::strings_view;

verus! {

// ─── Types ───────────────────────────────────────────────────────────────────

/// How an account signs in.
#[derive(Debug, Clone, Copy, PartialEq, Eq, Structural)]
pub enum AccountType {
    Microsoft,
    Offline,
}

/// A player account.
#[derive(Debug)]
pub struct Account {
    /// UUID from the Minecraft profile (Microsoft) or randomly generated (Offline).
    pub id: String,
    pub username: String,
    pub account_type: AccountType,
    pub access_token: Option<String>,
    pub refresh_token: Option<String>,
    pub xbox_uid: Option<String>,
}

/// A game profile: a version with its own game directory and optional overrides.
#[derive(Debug, Clone)]
pub struct Profile {
    pub id: String,
    pub name: String,
    pub version_id: String,
    /// Overrides the global `jvm_args` when set.
    pub jvm_args_override: Option<Vec<String>>,
    /// Overrides the global `max_memory_mb` when set.
    pub max_memory_mb_override: Option<u32>,
    /// Overrides the global `min_memory_mb` when set.
    pub min_memory_mb_override: Option<u32>,
}

/// The whole configuration.
#[derive(Debug, Clone)]
pub struct Config {
    pub game_dir: String,
    pub java_path: Option<String>,
    pub jvm_args: Vec<String>,
    pub max_memory_mb: u32,
    pub min_memory_mb: u32,
    pub accounts: Vec<Account>,
    pub active_account_id: Option<String>,
    pub profiles: Vec<Profile>,
    pub active_profile_id: Option<String>,
    pub active_theme: String,
}

impl Keyed for Account {
    open spec fn key(&self) -> Seq<char> {
        self.id@
    }

    fn key_str(&self) -> (r: &str) {
        self.id.as_str()
    }
}

impl Keyed for Profile {
    open spec fn key(&self) -> Seq<char> {
        self.id@
    }

    fn key_str(&self) -> (r: &str) {
        self.id.as_str()
    }
}


/// A new profile under the id `id` (the caller draws a fresh one), with no
/// overrides.
pub fn new_profile(id: String, name: String, version_id: String) -> (p: Profile)
    ensures
        p.id == id,
        p.name == name,
        p.version_id == version_id,
        p.jvm_args_override is None,
        p.max_memory_mb_override is None,
        p.min_memory_mb_override is None,
{
    Profile {
        id,
        name,
        version_id,
        jvm_args_override: None,
        max_memory_mb_override: None,
        min_memory_mb_override: None,
    }
}

// ─── Copies ──────────────────────────────────────────────────────────────────

/// A copy of an optional string.
pub fn clone_opt_string(o: &Option<String>) -> (r: Option<String>)
    ensures
        r == *o,
{
    match o {
        Some(s) => Some(s.clone()),
        None => None,
    }
}

/// A copy of a list of strings.
pub fn clone_strings(v: &Vec<String>) -> (r: Vec<String>)
    ensures
        r@ == v@,
{
    let mut out: Vec<String> = Vec::new();
    let n = v.len();
    let mut i: usize = 0;
    while i < n
        invariant
            n == v@.len(),
            i <= n,
            out@ == v@.take(i as int),
        decreases n - i,
    {
        out.push(v[i].clone());
        assert(v@.take(i + 1) == v@.take(i as int).push(v@[i as int]));
        i = i + 1;
    }
    assert(v@.take(n as int) == v@);
    out
}

impl Clone for Account {
    fn clone(&self) -> (r: Self)
        ensures
            r == *self,
    {
        Account {
            id: self.id.clone(),
            username: self.username.clone(),
            account_type: self.account_type,
            access_token: clone_opt_string(&self.access_token),
            refresh_token: clone_opt_string(&self.refresh_token),
            xbox_uid: clone_opt_string(&self.xbox_uid),
        }
    }
}


// ─── Defaults ────────────────────────────────────────────────────────────────

/// The theme used when the configuration names none.
pub fn default_theme() -> (r: String)
    ensures
        r@ == "dark"@,
{
    String::from_str("dark")
}

/// The JVM options of a fresh configuration.
pub open spec fn default_jvm_args_spec() -> Seq<Seq<char>> {
    seq![
        "-XX:+UseG1GC"@,
        "-XX:+UnlockExperimentalVMOptions"@,
        "-XX:G1NewSizePercent=20"@,
        "-XX:MaxGCPauseMillis=50"@,
    ]
}

/// The JVM options of a fresh configuration.
pub fn default_jvm_args() -> (r: Vec<String>)
    ensures
        strings_view(r@) == default_jvm_args_spec(),
{
    let mut v: Vec<String> = Vec::new();
    v.push(String::from_str("-XX:+UseG1GC"));
    v.push(String::from_str("-XX:+UnlockExperimentalVMOptions"));
    v.push(String::from_str("-XX:G1NewSizePercent=20"));
    v.push(String::from_str("-XX:MaxGCPauseMillis=50"));
    assert(strings_view(v@) == default_jvm_args_spec());
    v
}

/// The game directory under a data directory (or under `.` when there is none):
/// `{data_dir}/xlauchez/minecraft`.
pub open spec fn default_game_dir_spec(data_dir: Option<Seq<char>>) -> Seq<char> {
    let base = match data_dir {
        Some(d) => d,
        None => "."@,
    };
    path_join(path_join(base, "xlauchez"@), "minecraft"@)
}

/// The game directory under a data directory (or under `.` when there is none).
pub fn default_game_dir_in(data_dir: Option<String>) -> (r: String)
    ensures
        r@ == default_game_dir_spec(opt_chars(data_dir)),
{
    let base = match data_dir {
        Some(d) => d,
        None => String::from_str("."),
    };
    let a = join_path(base.as_str(), "xlauchez");
    join_path(a.as_str(), "minecraft")
}

/// Calls `dirs::data_dir`, converting the path to a string. The value comes
/// from the environment; nothing is claimed about it. The library holds paths
/// as `String`s, so a directory whose path is not valid Unicode is converted
/// lossily (each invalid sequence becomes U+FFFD) and the paths built on it
/// name another directory.
#[verifier::external_body]
fn platform_data_dir() -> Option<String> {
    match dirs::data_dir() {
        Some(p) => Some(p.to_string_lossy().into_owned()),
        None => None,
    }
}

/// Calls `dirs::config_dir`, converting the path to a string. The value comes
/// from the environment; nothing is claimed about it. The library holds paths
/// as `String`s, so a directory whose path is not valid Unicode is converted
/// lossily (each invalid sequence becomes U+FFFD) and the paths built on it
/// name another directory.
#[verifier::external_body]
fn platform_config_dir() -> Option<String> {
    match dirs::config_dir() {
        Some(p) => Some(p.to_string_lossy().into_owned()),
        None => None,
    }
}

/// The default game directory under the platform's data directory.
pub fn default_game_dir() -> (r: String)
    ensures
        exists|d: Option<Seq<char>>| r@ == default_game_dir_spec(d),
{
    let d = platform_data_dir();
    default_game_dir_in(d)
}

/// Where the configuration file lives under a configuration directory:
/// `{config_dir}/xlauchez/config.json`; an error when there is no such directory.
pub fn config_path_in(config_dir: Option<String>) -> (r: Result<String, AppError>)
    ensures
        match config_dir {
            Some(d) => r matches Ok(p) && p@ == path_join(path_join(d@, "xlauchez"@), "config.json"@),
            None => r matches Err(AppError::Config(m)) && m@ == "Cannot resolve config directory"@,
        },
{
    match config_dir {
        Some(d) => {
            let a = join_path(d.as_str(), "xlauchez");
            Ok(join_path(a.as_str(), "config.json"))
        },
        None => Err(AppError::Config(String::from_str("Cannot resolve config directory"))),
    }
}

/// Where the configuration file lives under the platform's configuration directory.
pub fn config_path() -> (r: Result<String, AppError>)
    ensures
        r matches Ok(p) ==> exists|d: Seq<char>|
            p@ == path_join(path_join(d, "xlauchez"@), "config.json"@),
        r matches Err(e) ==> e matches AppError::Config(m) && m@ == "Cannot resolve config directory"@,
{
    let d = platform_config_dir();
    config_path_in(d)
}

/// Two configurations agree on everything but their accounts and profiles.
pub open spec fn same_settings(a: Config, b: Config) -> bool {
    &&& a.game_dir == b.game_dir
    &&& a.java_path == b.java_path
    &&& a.jvm_args == b.jvm_args
    &&& a.max_memory_mb == b.max_memory_mb
    &&& a.min_memory_mb == b.min_memory_mb
    &&& a.active_theme == b.active_theme
}

/// The profiles root under a game directory.
pub open spec fn profiles_root_spec(game_dir: Seq<char>) -> Seq<char> {
    path_join(game_dir, "profiles"@)
}

/// The themes directory for a game directory: `launcher/themes` beside it,
/// under its parent (or under itself when it has none).
pub open spec fn themes_dir_spec(game_dir: Seq<char>) -> Seq<char> {
    let base = match path_parent(game_dir) {
        Some(p) => p,
        None => game_dir,
    };
    path_join(path_join(base, "launcher"@), "themes"@)
}

impl Config {
    /// A fresh configuration whose game directory is `game_dir`.
    pub fn defaults_at(game_dir: String) -> (c: Config)
        ensures
            c.game_dir == game_dir,
            c.java_path is None,
            strings_view(c.jvm_args@) == default_jvm_args_spec(),
            c.max_memory_mb == 2048,
            c.min_memory_mb == 512,
            c.accounts@.len() == 0,
            c.active_account_id is None,
            c.profiles@.len() == 0,
            c.active_profile_id is None,
            c.active_theme@ == "dark"@,
    {
        Config {
            game_dir,
            java_path: None,
            jvm_args: default_jvm_args(),
            max_memory_mb: 2048,
            min_memory_mb: 512,
            accounts: Vec::new(),
            active_account_id: None,
            profiles: Vec::new(),
            active_profile_id: None,
            active_theme: default_theme(),
        }
    }

    // ── Directory helpers ────────────────────────────────────────────────────

    /// Root directory that holds all profile game directories.
    pub fn profiles_root(&self) -> (r: String)
        ensures
            r@ == profiles_root_spec(self.game_dir@),
    {
        join_path(self.game_dir.as_str(), "profiles")
    }

    /// The per-profile `--gameDir` directory (mods, resourcepacks, shaderpacks, …).
    /// For an id that is one plain path component (such as a UUID), its parent
    /// is the profiles root, it ends with the id, and no other such id gives
    /// the same directory.
    pub fn profile_game_dir(&self, profile_id: &str) -> (r: String)
        ensures
            r@ == path_join(profiles_root_spec(self.game_dir@), profile_id@),
            plain_component(profile_id@) ==> {
                &&& path_parent(r@) == Some(profiles_root_spec(self.game_dir@))
                &&& profile_id@.len() <= r@.len()
                &&& r@.skip(r@.len() - profile_id@.len()) == profile_id@
                &&& forall|other: Seq<char>|
                    plain_component(other) && other != profile_id@ ==> #[trigger] path_join(
                        profiles_root_spec(self.game_dir@),
                        other,
                    ) != r@
            },
    {
        let root = self.profiles_root();
        proof {
            reveal_strlit("profiles");
            assert(plain_component("profiles"@));
        }
        let r = join_path(root.as_str(), profile_id);
        proof {
            if plain_component(profile_id@) {
                let k = r@.len() - profile_id@.len();
                assert(path_join(root@, profile_id@) == r@.take(k) + profile_id@);
                assert(r@.skip(k) =~= profile_id@);
                assert forall|other: Seq<char>|
                    plain_component(other) && other != profile_id@ implies #[trigger] path_join(
                        profiles_root_spec(self.game_dir@),
                        other,
                    ) != r@ by {
                    assert(path_join(root@, other) == r@.take(k) + other);
                    if path_join(root@, other) == r@ {
                        assert((r@.take(k) + other).skip(k) =~= other);
                    }
                }
            }
        }
        r
    }

    /// Shared saves directory (worlds are common to all profiles).
    pub fn shared_saves_dir(&self) -> (r: String)
        ensures
            r@ == path_join(path_join(self.game_dir@, "shared"@), "saves"@),
    {
        let shared = join_path(self.game_dir.as_str(), "shared");
        join_path(shared.as_str(), "saves")
    }

    /// Directory that holds user themes: `launcher/themes` beside the game directory.
    pub fn themes_dir(&self) -> (r: String)
        ensures
            r@ == themes_dir_spec(self.game_dir@),
    {
        let base = match parent_path(self.game_dir.as_str()) {
            Some(p) => p,
            None => self.game_dir.clone(),
        };
        let launcher = join_path(base.as_str(), "launcher");
        join_path(launcher.as_str(), "themes")
    }

    /// The directories that scaffolding a profile creates, in order: its
    /// `mods`, `resourcepacks` and `shaderpacks` directories, then the shared
    /// saves directory. The last element of the pair is where the `saves`
    /// link to the shared saves belongs.
    pub fn profile_dirs(&self, profile_id: &str) -> (r: (Vec<String>, String))
        ensures
            r.0@.len() == 4,
            r.0@[0]@ == path_join(path_join(profiles_root_spec(self.game_dir@), profile_id@), "mods"@),
            r.0@[1]@ == path_join(path_join(profiles_root_spec(self.game_dir@), profile_id@), "resourcepacks"@),
            r.0@[2]@ == path_join(path_join(profiles_root_spec(self.game_dir@), profile_id@), "shaderpacks"@),
            r.0@[3]@ == path_join(path_join(self.game_dir@, "shared"@), "saves"@),
            r.1@ == path_join(path_join(profiles_root_spec(self.game_dir@), profile_id@), "saves"@),
    {
        let profile_dir = self.profile_game_dir(profile_id);
        let mut dirs: Vec<String> = Vec::new();
        dirs.push(join_path(profile_dir.as_str(), "mods"));
        dirs.push(join_path(profile_dir.as_str(), "resourcepacks"));
        dirs.push(join_path(profile_dir.as_str(), "shaderpacks"));
        dirs.push(self.shared_saves_dir());
        let link = join_path(profile_dir.as_str(), "saves");
        (dirs, link)
    }

    // ── Profiles ─────────────────────────────────────────────────────────────

    /// Adds a profile; it becomes the active one when none is.
    pub fn add_profile(&mut self, profile: Profile)
        ensures
            final(self).profiles@ == old(self).profiles@.push(profile),
            final(self).active_profile_id == (match old(self).active_profile_id {
                Some(a) => Some(a),
                None => Some(profile.id),
            }),
            final(self).accounts == old(self).accounts,
            final(self).active_account_id == old(self).active_account_id,
            same_settings(*final(self), *old(self)),
    {
        if self.active_profile_id.is_none() {
            self.active_profile_id = Some(profile.id.clone());
        }
        self.profiles.push(profile);
    }

    /// Removes every profile with this id; when it was the active one, the
    /// first remaining profile becomes active, or none.
    pub fn delete_profile(&mut self, profile_id: &str)
        ensures
            final(self).profiles@ == without_key(old(self).profiles@, profile_id@),
            opt_chars(final(self).active_profile_id) == active_after_removal(
                opt_chars(old(self).active_profile_id),
                final(self).profiles@,
                profile_id@,
            ),
            final(self).accounts == old(self).accounts,
            final(self).active_account_id == old(self).active_account_id,
            same_settings(*final(self), *old(self)),
    {
        let mut taken: Vec<Profile> = Vec::new();
        std::mem::swap(&mut taken, &mut self.profiles);
        self.profiles = remove_key(taken, profile_id);
        let was_active = match &self.active_profile_id {
            Some(a) => crate::text::str_eq(a.as_str(), profile_id),
            None => false,
        };
        if was_active {
            if self.profiles.len() > 0 {
                self.active_profile_id = Some(self.profiles[0].id.clone());
            } else {
                self.active_profile_id = None;
            }
        }
    }

    /// Makes the profile with this id the active one; an error when there is none.
    pub fn set_active_profile(&mut self, profile_id: String) -> (r: Result<(), CommandError>)
        ensures
            r is Ok <==> has_key(old(self).profiles@, profile_id@),
            r is Ok ==> final(self).active_profile_id == Some(profile_id),
            r is Err ==> r == Err::<(), CommandError>(CommandError::ProfileNotFound)
                && final(self).active_profile_id == old(self).active_profile_id,
            final(self).profiles == old(self).profiles,
            final(self).accounts == old(self).accounts,
            final(self).active_account_id == old(self).active_account_id,
            same_settings(*final(self), *old(self)),
    {
        match find_key(&self.profiles, profile_id.as_str()) {
            Some(_) => {
                self.active_profile_id = Some(profile_id);
                Ok(())
            },
            None => Err(CommandError::ProfileNotFound),
        }
    }

    /// Replaces the (first) profile with the same id; an error when there is none.
    pub fn update_profile(&mut self, profile: Profile) -> (r: Result<(), CommandError>)
        ensures
            r is Ok <==> has_key(old(self).profiles@, profile.id@),
            final(self).profiles@ == replace_keyed(old(self).profiles@, profile),
            r is Err ==> r == Err::<(), CommandError>(CommandError::ProfileNotFound),
            final(self).active_profile_id == old(self).active_profile_id,
            final(self).accounts == old(self).accounts,
            final(self).active_account_id == old(self).active_account_id,
            same_settings(*final(self), *old(self)),
    {
        if replace_key(&mut self.profiles, profile) {
            Ok(())
        } else {
            Err(CommandError::ProfileNotFound)
        }
    }

    // ── Accounts ─────────────────────────────────────────────────────────────

    /// Adds an account; it becomes the active one when none is.
    pub fn add_account(&mut self, account: Account)
        ensures
            final(self).accounts@ == old(self).accounts@.push(account),
            final(self).active_account_id == (match old(self).active_account_id {
                Some(a) => Some(a),
                None => Some(account.id),
            }),
            final(self).profiles == old(self).profiles,
            final(self).active_profile_id == old(self).active_profile_id,
            same_settings(*final(self), *old(self)),
    {
        if self.active_account_id.is_none() {
            self.active_account_id = Some(account.id.clone());
        }
        self.accounts.push(account);
    }

    /// Stores a signed-in account: it replaces the (first) account with the
    /// same id, or is added; it becomes the active one when none is.
    pub fn upsert_account(&mut self, account: Account)
        ensures
            final(self).accounts@ == upsert_keyed(old(self).accounts@, account),
            final(self).active_account_id == (match old(self).active_account_id {
                Some(a) => Some(a),
                None => Some(account.id),
            }),
            final(self).profiles == old(self).profiles,
            final(self).active_profile_id == old(self).active_profile_id,
            same_settings(*final(self), *old(self)),
    {
        if self.active_account_id.is_none() {
            self.active_account_id = Some(account.id.clone());
        }
        upsert_key(&mut self.accounts, account);
    }

    /// Removes every account with this id; when it was the active one, the
    /// first remaining account becomes active, or none.
    pub fn remove_account(&mut self, account_id: &str)
        ensures
            final(self).accounts@ == without_key(old(self).accounts@, account_id@),
            opt_chars(final(self).active_account_id) == active_after_removal(
                opt_chars(old(self).active_account_id),
                final(self).accounts@,
                account_id@,
            ),
            final(self).profiles == old(self).profiles,
            final(self).active_profile_id == old(self).active_profile_id,
            same_settings(*final(self), *old(self)),
    {
        let mut taken: Vec<Account> = Vec::new();
        std::mem::swap(&mut taken, &mut self.accounts);
        self.accounts = remove_key(taken, account_id);
        let was_active = match &self.active_account_id {
            Some(a) => crate::text::str_eq(a.as_str(), account_id),
            None => false,
        };
        if was_active {
            if self.accounts.len() > 0 {
                self.active_account_id = Some(self.accounts[0].id.clone());
            } else {
                self.active_account_id = None;
            }
        }
    }

    /// Makes the account with this id the active one; an error when there is none.
    pub fn set_active_account(&mut self, account_id: String) -> (r: Result<(), CommandError>)
        ensures
            r is Ok <==> has_key(old(self).accounts@, account_id@),
            r is Ok ==> final(self).active_account_id == Some(account_id),
            r is Err ==> r == Err::<(), CommandError>(CommandError::AccountNotFound)
                && final(self).active_account_id == old(self).active_account_id,
            final(self).accounts == old(self).accounts,
            final(self).profiles == old(self).profiles,
            final(self).active_profile_id == old(self).active_profile_id,
            same_settings(*final(self), *old(self)),
    {
        match find_key(&self.accounts, account_id.as_str()) {
            Some(_) => {
                self.active_account_id = Some(account_id);
                Ok(())
            },
            None => Err(CommandError::AccountNotFound),
        }
    }
}

impl Default for Config {
    /// A fresh configuration under the platform's data directory.
    fn default() -> (c: Self)
        ensures
            exists|d: Option<Seq<char>>| c.game_dir@ == default_game_dir_spec(d),
            c.java_path is None,
            strings_view(c.jvm_args@) == default_jvm_args_spec(),
            c.max_memory_mb == 2048,
            c.min_memory_mb == 512,
            c.accounts@.len() == 0,
            c.active_account_id is None,
            c.profiles@.len() == 0,
            c.active_profile_id is None,
            c.active_theme@ == "dark"@,
    {
        Config::defaults_at(default_game_dir())
    }
}

// ─── Launching ───────────────────────────────────────────────────────────────

/// What launching a profile takes from the configuration.
#[derive(Debug)]
pub struct LaunchSettings {
    /// The version the profile plays.
    pub version_id: String,
    /// The active account.
    pub account: Account,
    /// The Java executable: the configured one, or `java`.
    pub java_path: String,
    /// The profile's JVM options when it overrides them, else the global ones.
    pub jvm_args: Vec<String>,
    /// The profile's maximum heap when it overrides it, else the global one.
    pub max_memory_mb: u32,
    /// The profile's minimum heap when it overrides it, else the global one.
    pub min_memory_mb: u32,
}

/// The value of an override, or the global value when there is none.
pub open spec fn overridden<T>(o: Option<T>, global: T) -> T {
    match o {
        Some(v) => v,
        None => global,
    }
}

impl Config {
    /// The settings for launching the profile with this id with the active
    /// account. Errors, checked in this order: no such profile, no active
    /// account, the active account is not among the accounts.
    pub fn launch_settings(&self, profile_id: &str) -> (r: Result<LaunchSettings, CommandError>)
        ensures
            !has_key(self.profiles@, profile_id@) ==> r matches Err(CommandError::ProfileNotFound),
            has_key(self.profiles@, profile_id@) && self.active_account_id is None
                ==> r matches Err(CommandError::NoActiveAccount),
            (has_key(self.profiles@, profile_id@) && self.active_account_id is Some
                && !has_key(self.accounts@, self.active_account_id.unwrap()@))
                ==> r matches Err(CommandError::ActiveAccountNotFound),
            r is Ok <==> (has_key(self.profiles@, profile_id@) && self.active_account_id is Some
                && has_key(self.accounts@, self.active_account_id.unwrap()@)),
            r matches Ok(s) ==> {
                let p = self.profiles@[first_key_index(self.profiles@, profile_id@)];
                let a = self.accounts@[first_key_index(
                    self.accounts@,
                    self.active_account_id.unwrap()@,
                )];
                &&& s.version_id == p.version_id
                &&& s.account == a
                &&& s.java_path@ == overridden(opt_chars(self.java_path), "java"@)
                &&& s.jvm_args@ == overridden(p.jvm_args_override, self.jvm_args)@
                &&& s.max_memory_mb == overridden(p.max_memory_mb_override, self.max_memory_mb)
                &&& s.min_memory_mb == overridden(p.min_memory_mb_override, self.min_memory_mb)
            },
    {
        let pi = match find_key(&self.profiles, profile_id) {
            Some(i) => i,
            None => {
                return Err(CommandError::ProfileNotFound);
            },
        };
        proof {
            crate::keyed::lemma_first_key_unique(self.profiles@, profile_id@, pi as int);
        }
        let active = match &self.active_account_id {
            Some(a) => a,
            None => {
                return Err(CommandError::NoActiveAccount);
            },
        };
        let ai = match find_key(&self.accounts, active.as_str()) {
            Some(i) => i,
            None => {
                return Err(CommandError::ActiveAccountNotFound);
            },
        };
        proof {
            crate::keyed::lemma_first_key_unique(self.accounts@, active@, ai as int);
        }
        let profile = &self.profiles[pi];
        let java_path = match &self.java_path {
            Some(j) => j.clone(),
            None => String::from_str("java"),
        };
        let jvm_args = match &profile.jvm_args_override {
            Some(v) => clone_strings(v),
            None => clone_strings(&self.jvm_args),
        };
        let max_memory_mb = match profile.max_memory_mb_override {
            Some(m) => m,
            None => self.max_memory_mb,
        };
        let min_memory_mb = match profile.min_memory_mb_override {
            Some(m) => m,
            None => self.min_memory_mb,
        };
        Ok(LaunchSettings {
            version_id: profile.version_id.clone(),
            account: self.accounts[ai].clone(),
            java_path,
            jvm_args,
            max_memory_mb,
            min_memory_mb,
        })
    }
}

} // verus!
