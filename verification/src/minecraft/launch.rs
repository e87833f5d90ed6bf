//! The command line that starts the game.
use vstd::prelude::*;
use crate::config::{Account, AccountType};
use crate::error::AppError;
use crate::minecraft::version::{
    VersionMeta, ArgumentValue, LibraryFile, library_files, library_files_spec, library_file_view,
    version_dir_spec, version_jar_path_spec, version_jar_path,
};
use crate::paths::{path_join, join_path};
use crate::text::{
    replace_spec, replace_all, words, split_whitespace, join, join_spec, decimal, u32_to_decimal,
    str_concat, lemma_strings_view_push, lemma_strings_view_add, strings_view, no_dollar,
    lemma_replace_absent, lemma_replace_other_placeholder, lemma_replace_whole,
};

verus! {

/// The launcher's name, passed to the game.
pub const LAUNCHER_NAME: &'static str = "XLauchez";

/// What the launch needs.
pub struct LaunchOptions<'a> {
    /// Shared install dir: versions/, assets/, libraries/.
    pub game_dir: &'a str,
    /// Per-profile dir passed as `--gameDir`: mods/, resourcepacks/, saves/ link, …
    pub profile_game_dir: &'a str,
    pub version_id: &'a str,
    pub meta: &'a VersionMeta,
    pub account: &'a Account,
    pub java_path: &'a str,
    pub extra_jvm_args: &'a [String],
    pub max_memory_mb: u32,
    pub min_memory_mb: u32,
}

/// Facts of the running platform that the command line depends on.
#[derive(Debug)]
pub struct Platform {
    /// `windows`, `osx` or `linux`: the name library rules use.
    pub os_name: String,
    /// `;` on Windows, `:` elsewhere.
    pub classpath_separator: String,
    /// The launcher's version, passed to the game.
    pub launcher_version: String,
}

/// A program to run, with its arguments and working directory.
#[derive(Debug)]
pub struct LaunchCommand {
    pub program: String,
    pub args: Vec<String>,
    pub current_dir: String,
}

// ─── Specifications ──────────────────────────────────────────────────────────

/// `{game_dir}/versions/{version_id}/natives`.
pub open spec fn natives_dir_spec(game_dir: Seq<char>, version_id: Seq<char>) -> Seq<char> {
    path_join(version_dir_spec(game_dir, version_id), "natives"@)
}

/// The paths of the first `n` files whose flag in `present` is set, in order.
pub open spec fn present_paths(
    files: Seq<(Seq<char>, Seq<char>)>,
    present: Seq<bool>,
    n: int,
) -> Seq<Seq<char>>
    decreases n,
{
    if n <= 0 {
        seq![]
    } else {
        let before = present_paths(files, present, n - 1);
        if present[n - 1] {
            before.push(files[n - 1].0)
        } else {
            before
        }
    }
}

/// The class path: the library jars that are on disk, then the client jar,
/// joined with the separator.
pub open spec fn classpath_spec(
    game_dir: Seq<char>,
    version_id: Seq<char>,
    files: Seq<(Seq<char>, Seq<char>)>,
    present: Seq<bool>,
    sep: Seq<char>,
) -> Seq<char> {
    join_spec(
        present_paths(files, present, files.len() as int).push(
            version_jar_path_spec(game_dir, version_id),
        ),
        sep,
    )
}

/// A JVM argument with the launcher's placeholders filled in, in this order:
/// class path, natives directory, launcher name, launcher version, class path
/// separator.
pub open spec fn substitute_jvm_spec(
    arg: Seq<char>,
    classpath: Seq<char>,
    natives: Seq<char>,
    launcher_version: Seq<char>,
    sep: Seq<char>,
) -> Seq<char> {
    replace_spec(
        replace_spec(
            replace_spec(
                replace_spec(
                    replace_spec(arg, "${classpath}"@, classpath),
                    "${natives_directory}"@,
                    natives,
                ),
                "${launcher_name}"@,
                LAUNCHER_NAME@,
            ),
            "${launcher_version}"@,
            launcher_version,
        ),
        "${classpath_separator}"@,
        sep,
    )
}

/// The values that fill the game's placeholders.
pub struct GameValues {
    pub username: String,
    pub version_name: String,
    pub game_directory: String,
    pub assets_root: String,
    pub assets_index_name: String,
    pub uuid: String,
    pub access_token: String,
    pub user_type: String,
}

/// A game argument with the placeholders filled in, in this order: player
/// name, version name, game directory, assets root, assets index name, uuid,
/// access token, user type, version type (`release`), and the client id and
/// xuid (both emptied) and user properties (`{}`).
pub open spec fn substitute_game_spec(s: Seq<char>, v: GameValues) -> Seq<char> {
    let s1 = replace_spec(s, "${auth_player_name}"@, v.username@);
    let s2 = replace_spec(s1, "${version_name}"@, v.version_name@);
    let s3 = replace_spec(s2, "${game_directory}"@, v.game_directory@);
    let s4 = replace_spec(s3, "${assets_root}"@, v.assets_root@);
    let s5 = replace_spec(s4, "${assets_index_name}"@, v.assets_index_name@);
    let s6 = replace_spec(s5, "${auth_uuid}"@, v.uuid@);
    let s7 = replace_spec(s6, "${auth_access_token}"@, v.access_token@);
    let s8 = replace_spec(s7, "${user_type}"@, v.user_type@);
    let s9 = replace_spec(s8, "${version_type}"@, "release"@);
    let s10 = replace_spec(s9, "${clientid}"@, ""@);
    let s11 = replace_spec(s10, "${auth_xuid}"@, ""@);
    replace_spec(s11, "${user_properties}"@, "{}"@)
}

/// The plain entries of an argument list, each passed through `f`; the
/// conditional entries are skipped.
pub open spec fn plain_args(
    vals: Seq<ArgumentValue>,
    f: spec_fn(Seq<char>) -> Seq<char>,
) -> Seq<Seq<char>>
    decreases vals.len(),
{
    if vals.len() == 0 {
        seq![]
    } else {
        let before = plain_args(vals.drop_last(), f);
        match vals.last() {
            ArgumentValue::Plain(s) => before.push(f(s@)),
            ArgumentValue::Conditional => before,
        }
    }
}

/// The values that fill the game's placeholders for these options.
pub open spec fn game_values_match(v: GameValues, opts: LaunchOptions) -> bool {
    &&& v.username@ == opts.account.username@
    &&& v.version_name@ == opts.version_id@
    &&& v.game_directory@ == opts.profile_game_dir@
    &&& v.assets_root@ == path_join(opts.game_dir@, "assets"@)
    &&& v.assets_index_name@ == opts.meta.asset_index.id@
    &&& v.uuid@ == opts.account.id@
    &&& v.access_token@ == (match opts.account.access_token {
        Some(t) => t@,
        None => "offline"@,
    })
    &&& v.user_type@ == (if opts.account.account_type == AccountType::Microsoft {
        "msa"@
    } else {
        "legacy"@
    })
}

/// Replacing a placeholder in text that starts with `$`, has no other `$`, and
/// differs from the placeholder at position `k`, changes nothing.
proof fn lemma_other_placeholder_kept(s: Seq<char>, pat: Seq<char>, rep: Seq<char>, k: int)
    requires
        pat.len() > 0,
        pat[0] == '$',
        s.len() > 0,
        no_dollar(s.skip(1)),
        0 <= k < pat.len(),
        k < s.len(),
        s[k] != pat[k],
    ensures
        replace_spec(s, pat, rep) == s,
{
    if s.len() >= pat.len() {
        assert(s.take(pat.len() as int)[k] == s[k]);
    }
    lemma_replace_other_placeholder(s, pat, rep);
}

/// A game argument without `$` holds no placeholder and is passed on as it is
/// (such as `--assetIndex`).
pub proof fn lemma_game_arg_without_placeholder(s: Seq<char>, v: GameValues)
    requires
        no_dollar(s),
    ensures
        substitute_game_spec(s, v) == s,
{
    reveal_strlit("${auth_player_name}");
    reveal_strlit("${version_name}");
    reveal_strlit("${game_directory}");
    reveal_strlit("${assets_root}");
    reveal_strlit("${assets_index_name}");
    reveal_strlit("${auth_uuid}");
    reveal_strlit("${auth_access_token}");
    reveal_strlit("${user_type}");
    reveal_strlit("${version_type}");
    reveal_strlit("${clientid}");
    reveal_strlit("${auth_xuid}");
    reveal_strlit("${user_properties}");
    lemma_replace_absent(s, "${auth_player_name}"@, v.username@);
    lemma_replace_absent(s, "${version_name}"@, v.version_name@);
    lemma_replace_absent(s, "${game_directory}"@, v.game_directory@);
    lemma_replace_absent(s, "${assets_root}"@, v.assets_root@);
    lemma_replace_absent(s, "${assets_index_name}"@, v.assets_index_name@);
    lemma_replace_absent(s, "${auth_uuid}"@, v.uuid@);
    lemma_replace_absent(s, "${auth_access_token}"@, v.access_token@);
    lemma_replace_absent(s, "${user_type}"@, v.user_type@);
    lemma_replace_absent(s, "${version_type}"@, "release"@);
    lemma_replace_absent(s, "${clientid}"@, ""@);
    lemma_replace_absent(s, "${auth_xuid}"@, ""@);
    lemma_replace_absent(s, "${user_properties}"@, "{}"@);
}

/// The game argument `${assets_index_name}` becomes the id of the asset index
/// named in the version's metadata (for an id without `$`, as Mojang's are):
/// the game then reads `assets/indexes/{id}.json`.
pub proof fn lemma_assets_index_placeholder(v: GameValues, opts: LaunchOptions)
    requires
        game_values_match(v, opts),
        no_dollar(opts.meta.asset_index.id@),
    ensures
        substitute_game_spec("${assets_index_name}"@, v) == opts.meta.asset_index.id@,
{
    let s = "${assets_index_name}"@;
    let id = opts.meta.asset_index.id@;
    reveal_strlit("${auth_player_name}");
    reveal_strlit("${version_name}");
    reveal_strlit("${game_directory}");
    reveal_strlit("${assets_root}");
    reveal_strlit("${assets_index_name}");
    reveal_strlit("${auth_uuid}");
    reveal_strlit("${auth_access_token}");
    reveal_strlit("${user_type}");
    reveal_strlit("${version_type}");
    reveal_strlit("${clientid}");
    reveal_strlit("${auth_xuid}");
    reveal_strlit("${user_properties}");
    assert(no_dollar(s.skip(1))) by {
        assert forall|i: int| 0 <= i < s.skip(1).len() implies #[trigger] s.skip(1)[i]
            != '$' by {
            assert(s.skip(1)[i] == s[i + 1]);
        }
    }
    lemma_other_placeholder_kept(s, "${auth_player_name}"@, v.username@, 3);
    lemma_other_placeholder_kept(s, "${version_name}"@, v.version_name@, 2);
    lemma_other_placeholder_kept(s, "${game_directory}"@, v.game_directory@, 2);
    lemma_other_placeholder_kept(s, "${assets_root}"@, v.assets_root@, 9);
    lemma_replace_whole(s, v.assets_index_name@);
    lemma_game_arg_without_placeholder(id, v);
    lemma_replace_absent(id, "${auth_uuid}"@, v.uuid@);
    lemma_replace_absent(id, "${auth_access_token}"@, v.access_token@);
    lemma_replace_absent(id, "${user_type}"@, v.user_type@);
    lemma_replace_absent(id, "${version_type}"@, "release"@);
    lemma_replace_absent(id, "${clientid}"@, ""@);
    lemma_replace_absent(id, "${auth_xuid}"@, ""@);
    lemma_replace_absent(id, "${user_properties}"@, "{}"@);
}

/// The account's placeholders are filled from the account (for values without
/// `$`): `${auth_player_name}` with its name, `${auth_uuid}` with its id and
/// `${auth_access_token}` with its token (`offline` when it has none).
pub proof fn lemma_account_placeholders(v: GameValues, opts: LaunchOptions)
    requires
        game_values_match(v, opts),
        no_dollar(v.username@),
        no_dollar(v.uuid@),
        no_dollar(v.access_token@),
    ensures
        substitute_game_spec("${auth_player_name}"@, v) == opts.account.username@,
        substitute_game_spec("${auth_uuid}"@, v) == opts.account.id@,
        substitute_game_spec("${auth_access_token}"@, v) == match opts.account.access_token {
            Some(t) => t@,
            None => "offline"@,
        },
{
    reveal_strlit("${auth_player_name}");
    reveal_strlit("${version_name}");
    reveal_strlit("${game_directory}");
    reveal_strlit("${assets_root}");
    reveal_strlit("${assets_index_name}");
    reveal_strlit("${auth_uuid}");
    reveal_strlit("${auth_access_token}");
    reveal_strlit("${user_type}");
    reveal_strlit("${version_type}");
    reveal_strlit("${clientid}");
    reveal_strlit("${auth_xuid}");
    reveal_strlit("${user_properties}");
    // `${auth_player_name}` is the first placeholder filled.
    lemma_replace_whole("${auth_player_name}"@, v.username@);
    lemma_game_arg_without_placeholder(v.username@, v);
    lemma_replace_absent(v.username@, "${version_name}"@, v.version_name@);
    lemma_replace_absent(v.username@, "${game_directory}"@, v.game_directory@);
    lemma_replace_absent(v.username@, "${assets_root}"@, v.assets_root@);
    lemma_replace_absent(v.username@, "${assets_index_name}"@, v.assets_index_name@);
    lemma_replace_absent(v.username@, "${auth_uuid}"@, v.uuid@);
    lemma_replace_absent(v.username@, "${auth_access_token}"@, v.access_token@);
    lemma_replace_absent(v.username@, "${user_type}"@, v.user_type@);
    lemma_replace_absent(v.username@, "${version_type}"@, "release"@);
    lemma_replace_absent(v.username@, "${clientid}"@, ""@);
    lemma_replace_absent(v.username@, "${auth_xuid}"@, ""@);
    lemma_replace_absent(v.username@, "${user_properties}"@, "{}"@);
    // `${auth_uuid}`: untouched by the five placeholders before it.
    let u = "${auth_uuid}"@;
    assert(no_dollar(u.skip(1))) by {
        assert forall|i: int| 0 <= i < u.skip(1).len() implies #[trigger] u.skip(1)[i]
            != '$' by {
            assert(u.skip(1)[i] == u[i + 1]);
        }
    }
    lemma_other_placeholder_kept(u, "${auth_player_name}"@, v.username@, 7);
    lemma_other_placeholder_kept(u, "${version_name}"@, v.version_name@, 2);
    lemma_other_placeholder_kept(u, "${game_directory}"@, v.game_directory@, 2);
    lemma_other_placeholder_kept(u, "${assets_root}"@, v.assets_root@, 3);
    lemma_other_placeholder_kept(u, "${assets_index_name}"@, v.assets_index_name@, 3);
    lemma_replace_whole(u, v.uuid@);
    lemma_replace_absent(v.uuid@, "${auth_access_token}"@, v.access_token@);
    lemma_replace_absent(v.uuid@, "${user_type}"@, v.user_type@);
    lemma_replace_absent(v.uuid@, "${version_type}"@, "release"@);
    lemma_replace_absent(v.uuid@, "${clientid}"@, ""@);
    lemma_replace_absent(v.uuid@, "${auth_xuid}"@, ""@);
    lemma_replace_absent(v.uuid@, "${user_properties}"@, "{}"@);
    // `${auth_access_token}`: untouched by the six placeholders before it.
    let t = "${auth_access_token}"@;
    assert(no_dollar(t.skip(1))) by {
        assert forall|i: int| 0 <= i < t.skip(1).len() implies #[trigger] t.skip(1)[i]
            != '$' by {
            assert(t.skip(1)[i] == t[i + 1]);
        }
    }
    lemma_other_placeholder_kept(t, "${auth_player_name}"@, v.username@, 7);
    lemma_other_placeholder_kept(t, "${version_name}"@, v.version_name@, 2);
    lemma_other_placeholder_kept(t, "${game_directory}"@, v.game_directory@, 2);
    lemma_other_placeholder_kept(t, "${assets_root}"@, v.assets_root@, 3);
    lemma_other_placeholder_kept(t, "${assets_index_name}"@, v.assets_index_name@, 3);
    lemma_other_placeholder_kept(t, "${auth_uuid}"@, v.uuid@, 7);
    lemma_replace_whole(t, v.access_token@);
    lemma_replace_absent(v.access_token@, "${user_type}"@, v.user_type@);
    lemma_replace_absent(v.access_token@, "${version_type}"@, "release"@);
    lemma_replace_absent(v.access_token@, "${clientid}"@, ""@);
    lemma_replace_absent(v.access_token@, "${auth_xuid}"@, ""@);
    lemma_replace_absent(v.access_token@, "${user_properties}"@, "{}"@);
}

/// The game arguments: the plain entries of the new-style game arguments, or
/// else the words of the legacy argument string, each with the placeholders
/// filled in; none when the version has neither.
pub open spec fn game_args_spec(meta: VersionMeta, v: GameValues) -> Seq<Seq<char>> {
    match meta.arguments {
        Some(a) => plain_args(a.game@, |s: Seq<char>| substitute_game_spec(s, v)),
        None => match meta.minecraft_arguments {
            Some(m) => words(m@).map_values(|s: Seq<char>| substitute_game_spec(s, v)),
            None => seq![],
        },
    }
}

/// The JVM arguments taken from the version: the plain new-style entries with
/// the launcher's placeholders filled in, or, for a legacy version, the
/// natives directory and the class path.
pub open spec fn version_jvm_args_spec(
    meta: VersionMeta,
    classpath: Seq<char>,
    natives: Seq<char>,
    platform: Platform,
) -> Seq<Seq<char>> {
    match meta.arguments {
        Some(a) => plain_args(
            a.jvm@,
            |s: Seq<char>|
                substitute_jvm_spec(
                    s,
                    classpath,
                    natives,
                    platform.launcher_version@,
                    platform.classpath_separator@,
                ),
        ),
        None => seq!["-Djava.library.path="@ + natives, "-cp"@, classpath],
    }
}

// ─── Helpers ─────────────────────────────────────────────────────────────────

/// Where the native libraries of a version are unpacked.
pub fn natives_dir(game_dir: &str, version_id: &str) -> (r: String)
    ensures
        r@ == natives_dir_spec(game_dir@, version_id@),
{
    let versions = join_path(game_dir, "versions");
    let dir = join_path(versions.as_str(), version_id);
    join_path(dir.as_str(), "natives")
}

/// The class path: the library jars flagged present, then the client jar.
pub fn build_classpath(
    game_dir: &str,
    version_id: &str,
    files: &[LibraryFile],
    present: &[bool],
    sep: &str,
) -> (r: String)
    requires
        present@.len() == files@.len(),
    ensures
        r@ == classpath_spec(
            game_dir@,
            version_id@,
            files@.map_values(|f: LibraryFile| crate::minecraft::version::library_file_view(f)),
            present@,
            sep@,
        ),
{
    let ghost fv = files@.map_values(|f: LibraryFile| crate::minecraft::version::library_file_view(f));
    let n = files.len();
    let mut entries: Vec<String> = Vec::new();
    let mut i: usize = 0;
    while i < n
        invariant
            n == files@.len(),
            present@.len() == n,
            fv == files@.map_values(|f: LibraryFile| crate::minecraft::version::library_file_view(f)),
            i <= n,
            strings_view(entries@) == present_paths(fv, present@, i as int),
        decreases n - i,
    {
        if present[i] {
            let p = files[i].path.clone();
            proof {
                lemma_strings_view_push(entries@, p);
            }
            entries.push(p);
        }
        i = i + 1;
    }
    let jar = version_jar_path(game_dir, version_id);
    proof {
        lemma_strings_view_push(entries@, jar);
    }
    entries.push(jar);
    join(&entries, sep)
}

/// A JVM argument with the launcher's placeholders filled in.
pub fn substitute_jvm(
    arg: &str,
    game_dir: &str,
    version_id: &str,
    classpath: &str,
    platform: &Platform,
) -> (r: String)
    ensures
        r@ == substitute_jvm_spec(
            arg@,
            classpath@,
            natives_dir_spec(game_dir@, version_id@),
            platform.launcher_version@,
            platform.classpath_separator@,
        ),
{
    let natives = natives_dir(game_dir, version_id);
    let s1 = replace_all(arg, "${classpath}", classpath);
    let s2 = replace_all(s1.as_str(), "${natives_directory}", natives.as_str());
    let s3 = replace_all(s2.as_str(), "${launcher_name}", LAUNCHER_NAME);
    let s4 = replace_all(s3.as_str(), "${launcher_version}", platform.launcher_version.as_str());
    replace_all(s4.as_str(), "${classpath_separator}", platform.classpath_separator.as_str())
}

/// A game argument with the placeholders filled in.
pub fn substitute_game(s: &str, v: &GameValues) -> (r: String)
    ensures
        r@ == substitute_game_spec(s@, *v),
{
    let s1 = replace_all(s, "${auth_player_name}", v.username.as_str());
    let s2 = replace_all(s1.as_str(), "${version_name}", v.version_name.as_str());
    let s3 = replace_all(s2.as_str(), "${game_directory}", v.game_directory.as_str());
    let s4 = replace_all(s3.as_str(), "${assets_root}", v.assets_root.as_str());
    let s5 = replace_all(s4.as_str(), "${assets_index_name}", v.assets_index_name.as_str());
    let s6 = replace_all(s5.as_str(), "${auth_uuid}", v.uuid.as_str());
    let s7 = replace_all(s6.as_str(), "${auth_access_token}", v.access_token.as_str());
    let s8 = replace_all(s7.as_str(), "${user_type}", v.user_type.as_str());
    let s9 = replace_all(s8.as_str(), "${version_type}", "release");
    let s10 = replace_all(s9.as_str(), "${clientid}", "");
    let s11 = replace_all(s10.as_str(), "${auth_xuid}", "");
    replace_all(s11.as_str(), "${user_properties}", "{}")
}

/// The values that fill the game's placeholders for these options.
pub fn game_values(opts: &LaunchOptions) -> (v: GameValues)
    ensures
        game_values_match(v, *opts),
{
    let access_token = match &opts.account.access_token {
        Some(t) => t.clone(),
        None => String::from_str("offline"),
    };
    let user_type = if opts.account.account_type == AccountType::Microsoft {
        String::from_str("msa")
    } else {
        String::from_str("legacy")
    };
    GameValues {
        username: opts.account.username.clone(),
        version_name: String::from_str(opts.version_id),
        game_directory: String::from_str(opts.profile_game_dir),
        assets_root: join_path(opts.game_dir, "assets"),
        assets_index_name: opts.meta.asset_index.id.clone(),
        uuid: opts.account.id.clone(),
        access_token,
        user_type,
    }
}

/// The game arguments. (`--gameDir` is the profile directory; assets live in
/// the shared install directory.)
pub fn game_args(opts: &LaunchOptions, _classpath: &str) -> (r: Vec<String>)
    ensures
        exists|v: GameValues|
            game_values_match(v, *opts) && strings_view(r@) == game_args_spec(*opts.meta, v),
{
    let v = game_values(opts);
    let ghost f = |s: Seq<char>| substitute_game_spec(s, v);
    let mut out: Vec<String> = Vec::new();
    match &opts.meta.arguments {
        Some(arguments) => {
            let vals = &arguments.game;
            let n = vals.len();
            let mut i: usize = 0;
            while i < n
                invariant
                    n == vals@.len(),
                    i <= n,
                    f == (|s: Seq<char>| substitute_game_spec(s, v)),
                    strings_view(out@) == plain_args(vals@.take(i as int), f),
                decreases n - i,
            {
                assert(vals@.take(i + 1).drop_last() == vals@.take(i as int));
                assert(vals@.take(i + 1).last() == vals@[i as int]);
                match &vals[i] {
                    ArgumentValue::Plain(s) => {
                        let a = substitute_game(s.as_str(), &v);
                        proof {
                            lemma_strings_view_push(out@, a);
                        }
                        out.push(a);
                    },
                    ArgumentValue::Conditional => {},
                }
                i = i + 1;
            }
            assert(vals@.take(n as int) == vals@);
        },
        None => match &opts.meta.minecraft_arguments {
            Some(m) => {
                let ws = split_whitespace(m.as_str());
                let n = ws.len();
                let mut i: usize = 0;
                while i < n
                    invariant
                        n == ws@.len(),
                        n == words(m@).len(),
                        forall|k: int| 0 <= k < n ==> #[trigger] ws@[k]@ == words(m@)[k],
                        i <= n,
                        f == (|s: Seq<char>| substitute_game_spec(s, v)),
                        strings_view(out@) == words(m@).take(i as int).map_values(f),
                    decreases n - i,
                {
                    assert(words(m@).take(i + 1) == words(m@).take(i as int).push(ws@[i as int]@));
                    let a = substitute_game(ws[i].as_str(), &v);
                    proof {
                        lemma_strings_view_push(out@, a);
                    }
                    out.push(a);
                    i = i + 1;
                }
                assert(words(m@).take(n as int) == words(m@));
            },
            None => {},
        },
    }
    out
}

/// `cmd` is the command that starts the game: the Java executable, with the
/// heap limits, the configured JVM options, the version's JVM arguments, the
/// main class and the game arguments, run in the shared install directory;
/// the classpath holds the library jars that `present` flags as on disk.
pub open spec fn is_launch_command(
    cmd: LaunchCommand,
    opts: LaunchOptions,
    platform: Platform,
    present: Seq<bool>,
) -> bool {
    let classpath = classpath_spec(
        opts.game_dir@,
        opts.version_id@,
        library_files_spec(opts.game_dir@, opts.meta.libraries@, platform.os_name@),
        present,
        platform.classpath_separator@,
    );
    let natives = natives_dir_spec(opts.game_dir@, opts.version_id@);
    &&& cmd.program@ == opts.java_path@
    &&& cmd.current_dir@ == opts.game_dir@
    &&& exists|v: GameValues|
        game_values_match(v, opts) && strings_view(cmd.args@) == seq![
            "-Xmx"@ + decimal(opts.max_memory_mb as nat) + "m"@,
            "-Xms"@ + decimal(opts.min_memory_mb as nat) + "m"@,
        ] + strings_view(opts.extra_jvm_args@) + version_jvm_args_spec(
            *opts.meta,
            classpath,
            natives,
            platform,
        ) + seq![opts.meta.main_class@] + game_args_spec(*opts.meta, v)
}

/// Builds the command that starts the game (see `is_launch_command`).
/// `present` flags which of the library jars (`library_files`) are on disk.
pub fn build_command(opts: &LaunchOptions, platform: &Platform, present: &[bool]) -> (r: Result<
    LaunchCommand,
    AppError,
>)
    requires
        present@.len() == library_files_spec(
            opts.game_dir@,
            opts.meta.libraries@,
            platform.os_name@,
        ).len(),
    ensures
        r matches Ok(cmd) && is_launch_command(cmd, *opts, *platform, present@),
{
    let game_dir = opts.game_dir;
    let meta = opts.meta;
    let version_id = opts.version_id;
    let files = library_files(game_dir, meta, platform.os_name.as_str());
    let classpath = build_classpath(
        game_dir,
        version_id,
        files.as_slice(),
        present,
        platform.classpath_separator.as_str(),
    );
    let ghost natives = natives_dir_spec(game_dir@, version_id@);
    let mut args: Vec<String> = Vec::new();

    // Memory
    let max = u32_to_decimal(opts.max_memory_mb);
    let a = str_concat("-Xmx", max.as_str());
    args.push(str_concat(a.as_str(), "m"));
    let min = u32_to_decimal(opts.min_memory_mb);
    let b = str_concat("-Xms", min.as_str());
    args.push(str_concat(b.as_str(), "m"));
    let ghost head = strings_view(args@);

    // Extra JVM args from the configuration
    let extra = opts.extra_jvm_args;
    let ne = extra.len();
    let mut i: usize = 0;
    while i < ne
        invariant
            ne == extra@.len(),
            i <= ne,
            strings_view(args@) == head + strings_view(extra@.take(i as int)),
        decreases ne - i,
    {
        assert(extra@.take(i + 1) == extra@.take(i as int).push(extra@[i as int]));
        let a = extra[i].clone();
        proof {
            lemma_strings_view_push(args@, a);
            lemma_strings_view_push(extra@.take(i as int), a);
        }
        args.push(a);
        i = i + 1;
    }
    assert(extra@.take(ne as int) == extra@);
    let ghost with_extra = strings_view(args@);

    // JVM args from the version
    match &meta.arguments {
        Some(arguments) => {
            let vals = &arguments.jvm;
            let ghost f = |s: Seq<char>|
                substitute_jvm_spec(
                    s,
                    classpath@,
                    natives,
                    platform.launcher_version@,
                    platform.classpath_separator@,
                );
            let n = vals.len();
            let mut j: usize = 0;
            while j < n
                invariant
                    n == vals@.len(),
                    j <= n,
                    natives == natives_dir_spec(game_dir@, version_id@),
                    f == (|s: Seq<char>|
                        substitute_jvm_spec(
                            s,
                            classpath@,
                            natives,
                            platform.launcher_version@,
                            platform.classpath_separator@,
                        )),
                    strings_view(args@) == with_extra + plain_args(vals@.take(j as int), f),
                decreases n - j,
            {
                assert(vals@.take(j + 1).drop_last() == vals@.take(j as int));
                assert(vals@.take(j + 1).last() == vals@[j as int]);
                match &vals[j] {
                    ArgumentValue::Plain(s) => {
                        let a = substitute_jvm(s.as_str(), game_dir, version_id, classpath.as_str(), platform);
                        proof {
                            lemma_strings_view_push(args@, a);
                        }
                        args.push(a);
                    },
                    ArgumentValue::Conditional => {},
                }
                j = j + 1;
            }
            assert(vals@.take(n as int) == vals@);
        },
        None => {
            let nat_dir = natives_dir(game_dir, version_id);
            let a = str_concat("-Djava.library.path=", nat_dir.as_str());
            proof {
                lemma_strings_view_push(args@, a);
            }
            args.push(a);
            let b = String::from_str("-cp");
            proof {
                lemma_strings_view_push(args@, b);
            }
            args.push(b);
            let c = classpath.clone();
            proof {
                lemma_strings_view_push(args@, c);
            }
            args.push(c);
        },
    }
    let ghost with_jvm = strings_view(args@);

    // Main class
    let mc = meta.main_class.clone();
    proof {
        lemma_strings_view_push(args@, mc);
    }
    args.push(mc);
    let ghost with_main = strings_view(args@);

    // Game args
    let mut game = game_args(opts, classpath.as_str());
    let ghost game_view = strings_view(game@);
    let ghost v = choose|v: GameValues|
        game_values_match(v, *opts) && game_view == game_args_spec(*opts.meta, v);
    proof {
        lemma_strings_view_add(args@, game@);
    }
    args.append(&mut game);
    assert(strings_view(args@) == with_main + game_view);

    let cmd = LaunchCommand {
        program: String::from_str(opts.java_path),
        args,
        current_dir: String::from_str(game_dir),
    };
    assert(game_values_match(v, *opts) && strings_view(cmd.args@) == seq![
        "-Xmx"@ + decimal(opts.max_memory_mb as nat) + "m"@,
        "-Xms"@ + decimal(opts.min_memory_mb as nat) + "m"@,
    ] + strings_view(opts.extra_jvm_args@) + version_jvm_args_spec(
        *opts.meta,
        classpath@,
        natives,
        *platform,
    ) + seq![opts.meta.main_class@] + game_args_spec(*opts.meta, v));
    Ok(cmd)
}

/// Builds the command that starts the game when `present` has one flag per
/// library jar of the version on this platform; `None` when it has not.
pub fn build_command_checked(opts: &LaunchOptions, platform: &Platform, present: &[bool]) -> (r:
    Option<LaunchCommand>)
    ensures
        r is Some <==> present@.len() == library_files_spec(
            opts.game_dir@,
            opts.meta.libraries@,
            platform.os_name@,
        ).len(),
        r matches Some(cmd) ==> is_launch_command(cmd, *opts, *platform, present@),
{
    let files = library_files(opts.game_dir, opts.meta, platform.os_name.as_str());
    proof {
        assert(files@.map_values(|f: LibraryFile| library_file_view(f)).len() == files@.len());
    }
    if files.len() != present.len() {
        return None;
    }
    match build_command(opts, platform, present) {
        Ok(cmd) => Some(cmd),
        Err(_) => None,
    }
}

} // verus!
