//! Version manifest and per-version metadata, where versions live on disk,
//! and which libraries a platform uses.
use vstd::prelude::*;
use crate::paths::{path_join, path_parent, plain_component, join_path};
use crate::text::{str_concat, str_eq};

verus! {

/// The URL of the version manifest.
pub const VERSION_MANIFEST_URL: &'static str = "https://launchermeta.mojang.com/mc/game/version_manifest_v2.json";

// ─── Manifest ────────────────────────────────────────────────────────────────

/// The list of all versions.
#[derive(Debug)]
pub struct VersionManifest {
    pub latest: LatestVersions,
    pub versions: Vec<VersionEntry>,
}

/// The ids of the latest release and snapshot.
#[derive(Debug)]
pub struct LatestVersions {
    pub release: String,
    pub snapshot: String,
}

/// One version of the manifest.
#[derive(Debug)]
pub struct VersionEntry {
    pub id: String,
    pub version_type: String,
    pub url: String,
    pub release_time: String,
}

// ─── Version meta (per-version JSON) ─────────────────────────────────────────

/// The metadata of one version.
#[derive(Debug)]
pub struct VersionMeta {
    pub id: String,
    pub main_class: String,
    /// New-style argument format (1.13+).
    pub arguments: Option<GameArguments>,
    /// Legacy argument string (pre-1.13).
    pub minecraft_arguments: Option<String>,
    pub libraries: Vec<Library>,
    pub downloads: VersionDownloads,
    pub asset_index: AssetIndexRef,
    pub assets: String,
    pub java_version: Option<JavaVersion>,
}

/// The Java runtime a version asks for.
#[derive(Debug)]
pub struct JavaVersion {
    pub component: String,
    pub major_version: u32,
}

/// One argument of the new-style format: a plain string, or a conditional
/// entry (an object with rules), which the launcher skips.
#[derive(Debug)]
pub enum ArgumentValue {
    Plain(String),
    Conditional,
}

/// New-style arguments.
#[derive(Debug)]
pub struct GameArguments {
    pub game: Vec<ArgumentValue>,
    pub jvm: Vec<ArgumentValue>,
}

/// Downloads of a version.
#[derive(Debug)]
pub struct VersionDownloads {
    pub client: DownloadInfo,
}

/// A downloadable file.
#[derive(Debug)]
pub struct DownloadInfo {
    pub sha1: String,
    pub size: u64,
    pub url: String,
}

/// Where the asset index of a version is.
#[derive(Debug)]
pub struct AssetIndexRef {
    pub id: String,
    pub sha1: String,
    pub size: u64,
    pub url: String,
}

// ─── Libraries ───────────────────────────────────────────────────────────────

/// A library of a version.
#[derive(Debug)]
pub struct Library {
    pub name: String,
    pub downloads: Option<LibraryDownloads>,
    pub rules: Option<Vec<LibraryRule>>,
}

/// Downloads of a library.
#[derive(Debug)]
pub struct LibraryDownloads {
    pub artifact: Option<LibraryArtifact>,
}

/// The jar of a library.
#[derive(Debug)]
pub struct LibraryArtifact {
    pub path: String,
    pub sha1: String,
    pub size: u64,
    pub url: String,
}

/// An allow/deny rule of a library.
#[derive(Debug)]
pub struct LibraryRule {
    pub action: String,
    pub os: Option<OsRule>,
}

/// The operating system a rule is about.
#[derive(Debug)]
pub struct OsRule {
    pub name: Option<String>,
}

// ─── Paths ───────────────────────────────────────────────────────────────────

/// The directory of a version: `{game_dir}/versions/{version_id}`.
pub open spec fn version_dir_spec(game_dir: Seq<char>, version_id: Seq<char>) -> Seq<char> {
    path_join(path_join(game_dir, "versions"@), version_id)
}

/// `{game_dir}/versions/{id}/{id}.json`.
pub open spec fn version_meta_path_spec(game_dir: Seq<char>, version_id: Seq<char>) -> Seq<char> {
    path_join(version_dir_spec(game_dir, version_id), version_id + ".json"@)
}

/// `{game_dir}/versions/{id}/{id}.jar`.
pub open spec fn version_jar_path_spec(game_dir: Seq<char>, version_id: Seq<char>) -> Seq<char> {
    path_join(version_dir_spec(game_dir, version_id), version_id + ".jar"@)
}

fn version_dir(game_dir: &str, version_id: &str) -> (r: String)
    ensures
        r@ == version_dir_spec(game_dir@, version_id@),
{
    let versions = join_path(game_dir, "versions");
    join_path(versions.as_str(), version_id)
}

/// Where the metadata of a version is stored.
pub fn version_meta_path(game_dir: &str, version_id: &str) -> (r: String)
    ensures
        r@ == version_meta_path_spec(game_dir@, version_id@),
        plain_component(version_id@) ==> path_parent(r@) == Some(
            version_dir_spec(game_dir@, version_id@),
        ),
{
    let dir = version_dir(game_dir, version_id);
    let file = str_concat(version_id, ".json");
    proof {
        lemma_file_name_plain(version_id@, ".json"@);
    }
    join_path(dir.as_str(), file.as_str())
}

/// Where the client jar of a version is stored. For a version id that is one
/// plain path component, it lies in the version directory beside the
/// metadata file and differs from it only in the extension (`jar` for `json`).
pub fn version_jar_path(game_dir: &str, version_id: &str) -> (r: String)
    ensures
        r@ == version_jar_path_spec(game_dir@, version_id@),
        plain_component(version_id@) ==> {
            &&& path_parent(r@) == Some(version_dir_spec(game_dir@, version_id@))
            &&& 4 <= r@.len()
            &&& r@.skip(r@.len() - 4) == ".jar"@
            &&& r@.take(r@.len() - 4) + ".json"@ == version_meta_path_spec(
                game_dir@,
                version_id@,
            )
        },
{
    let dir = version_dir(game_dir, version_id);
    let file = str_concat(version_id, ".jar");
    proof {
        lemma_file_name_plain(version_id@, ".jar"@);
        lemma_file_name_plain(version_id@, ".json"@);
    }
    let r = join_path(dir.as_str(), file.as_str());
    proof {
        if plain_component(version_id@) {
            reveal_strlit(".jar");
            reveal_strlit(".json");
            let v = version_id@;
            let k = r@.len() - (v.len() + 4);
            assert(r@ == r@.take(k) + (v + ".jar"@));
            assert(path_join(dir@, v + ".json"@) == r@.take(k) + (v + ".json"@));
            assert(r@.skip(r@.len() - 4) =~= ".jar"@);
            assert(r@.take(r@.len() - 4) =~= r@.take(k) + v);
            assert(r@.take(r@.len() - 4) + ".json"@ =~= r@.take(k) + (v + ".json"@));
        }
    }
    r
}

/// A version id that is one plain component stays one with a file extension
/// appended.
proof fn lemma_file_name_plain(id: Seq<char>, ext: Seq<char>)
    requires
        ext =~= ".jar"@ || ext =~= ".json"@,
    ensures
        plain_component(id) ==> plain_component(id + ext),
{
    reveal_strlit(".jar");
    reveal_strlit(".json");
    if plain_component(id) {
        let s = id + ext;
        assert forall|i: int| 0 <= i < s.len() implies #[trigger] s[i] != '/' && s[i] != '\\'
            && s[i] != ':' by {
            if i < id.len() {
                assert(s[i] == id[i]);
            }
        }
    }
}

// ─── Rules ───────────────────────────────────────────────────────────────────

/// The rule applies to the operating system named `os_name`: it names no
/// system, or names exactly that one.
pub open spec fn rule_applies(rule: LibraryRule, os_name: Seq<char>) -> bool {
    match rule.os {
        None => true,
        Some(os) => match os.name {
            Some(n) => n@ == os_name,
            None => false,
        },
    }
}

/// The verdict of a list of rules: that of the last rule that applies, where
/// `allow` allows and any other action denies; a denial when none applies.
pub open spec fn rules_verdict(rules: Seq<LibraryRule>, os_name: Seq<char>) -> bool
    decreases rules.len(),
{
    if rules.len() == 0 {
        false
    } else if rule_applies(rules.last(), os_name) {
        rules.last().action@ == "allow"@
    } else {
        rules_verdict(rules.drop_last(), os_name)
    }
}

/// A library is used on a system when it has no rules, an empty list of
/// rules, or rules whose verdict allows it.
pub open spec fn library_allowed(lib: Library, os_name: Seq<char>) -> bool {
    match lib.rules {
        None => true,
        Some(r) => r@.len() == 0 || rules_verdict(r@, os_name),
    }
}

fn rule_applies_exec(rule: &LibraryRule, os_name: &str) -> (r: bool)
    ensures
        r == rule_applies(*rule, os_name@),
{
    match &rule.os {
        None => true,
        Some(os) => match &os.name {
            Some(n) => str_eq(n.as_str(), os_name),
            None => false,
        },
    }
}

/// Evaluates the OS-based allow/deny rules of a library for the system named
/// `os_name` (`windows`, `osx` or `linux`).
pub fn is_library_allowed(lib: &Library, os_name: &str) -> (r: bool)
    ensures
        r == library_allowed(*lib, os_name@),
{
    let rules = match &lib.rules {
        None => {
            return true;
        },
        Some(r) => r,
    };
    if rules.len() == 0 {
        return true;
    }
    let n = rules.len();
    let mut allowed = false;
    let mut i: usize = 0;
    while i < n
        invariant
            n == rules@.len(),
            i <= n,
            allowed == rules_verdict(rules@.take(i as int), os_name@),
        decreases n - i,
    {
        assert(rules@.take(i + 1).drop_last() == rules@.take(i as int));
        assert(rules@.take(i + 1).last() == rules@[i as int]);
        if rule_applies_exec(&rules[i], os_name) {
            allowed = str_eq(rules[i].action.as_str(), "allow");
        }
        i = i + 1;
    }
    assert(rules@.take(n as int) == rules@);
    allowed
}

/// Rules decide as the last applicable rule says: a non-empty list of rules
/// allows a library exactly when some rule that applies says `allow` and no
/// later rule applies.
pub proof fn lemma_last_applicable_rule_decides(rules: Seq<LibraryRule>, os_name: Seq<char>)
    ensures
        rules_verdict(rules, os_name) <==> exists|i: int|
            0 <= i < rules.len() && rule_applies(#[trigger] rules[i], os_name)
                && rules[i].action@ == "allow"@ && forall|j: int|
                i < j < rules.len() ==> !rule_applies(#[trigger] rules[j], os_name),
    decreases rules.len(),
{
    if rules.len() > 0 {
        let last = rules.len() - 1;
        let init = rules.drop_last();
        lemma_last_applicable_rule_decides(init, os_name);
        if rule_applies(rules.last(), os_name) {
            if rules_verdict(rules, os_name) {
                assert(rules[last] == rules.last());
            } else {
                if exists|i: int|
                    0 <= i < rules.len() && rule_applies(#[trigger] rules[i], os_name)
                        && rules[i].action@ == "allow"@ && forall|j: int|
                        i < j < rules.len() ==> !rule_applies(#[trigger] rules[j], os_name) {
                    let i = choose|i: int|
                        0 <= i < rules.len() && rule_applies(#[trigger] rules[i], os_name)
                            && rules[i].action@ == "allow"@ && forall|j: int|
                            i < j < rules.len() ==> !rule_applies(#[trigger] rules[j], os_name);
                    if i < last {
                        assert(!rule_applies(rules[last], os_name));
                    }
                }
            }
        } else {
            if rules_verdict(rules, os_name) {
                let i = choose|i: int|
                    0 <= i < init.len() && rule_applies(#[trigger] init[i], os_name)
                        && init[i].action@ == "allow"@ && forall|j: int|
                        i < j < init.len() ==> !rule_applies(#[trigger] init[j], os_name);
                assert(rules[i] == init[i]);
                assert forall|j: int| i < j < rules.len() implies !rule_applies(
                    #[trigger] rules[j],
                    os_name,
                ) by {
                    if j < last {
                        assert(rules[j] == init[j]);
                    }
                }
            } else {
                if exists|i: int|
                    0 <= i < rules.len() && rule_applies(#[trigger] rules[i], os_name)
                        && rules[i].action@ == "allow"@ && forall|j: int|
                        i < j < rules.len() ==> !rule_applies(#[trigger] rules[j], os_name) {
                    let i = choose|i: int|
                        0 <= i < rules.len() && rule_applies(#[trigger] rules[i], os_name)
                            && rules[i].action@ == "allow"@ && forall|j: int|
                            i < j < rules.len() ==> !rule_applies(#[trigger] rules[j], os_name);
                    assert(i != last);
                    assert(init[i] == rules[i]);
                    assert forall|j: int| i < j < init.len() implies !rule_applies(
                        #[trigger] init[j],
                        os_name,
                    ) by {
                        assert(init[j] == rules[j]);
                    }
                }
            }
        }
    }
}

// ─── Library files ───────────────────────────────────────────────────────────

/// The artifact of a library, if it has one.
pub open spec fn artifact_of(lib: Library) -> Option<LibraryArtifact> {
    match lib.downloads {
        Some(dl) => dl.artifact,
        None => None,
    }
}

/// The artifact files of the libraries used on the system `os_name`, as
/// (path under `{game_dir}/libraries`, download URL), in library order.
pub open spec fn library_files_spec(
    game_dir: Seq<char>,
    libs: Seq<Library>,
    os_name: Seq<char>,
) -> Seq<(Seq<char>, Seq<char>)>
    decreases libs.len(),
{
    if libs.len() == 0 {
        seq![]
    } else {
        let before = library_files_spec(game_dir, libs.drop_last(), os_name);
        let lib = libs.last();
        if library_allowed(lib, os_name) && artifact_of(lib) is Some {
            let a = artifact_of(lib).unwrap();
            before.push((path_join(path_join(game_dir, "libraries"@), a.path@), a.url@))
        } else {
            before
        }
    }
}

/// A library jar to have on disk: where it goes and where it comes from.
#[derive(Debug)]
pub struct LibraryFile {
    pub path: String,
    pub url: String,
}

/// The file as characters.
pub open spec fn library_file_view(f: LibraryFile) -> (Seq<char>, Seq<char>) {
    (f.path@, f.url@)
}

/// The artifact files of the libraries that a version uses on the system
/// `os_name`: the jars to download, and the candidates for the class path.
pub fn library_files(game_dir: &str, meta: &VersionMeta, os_name: &str) -> (r: Vec<LibraryFile>)
    ensures
        r@.map_values(|f: LibraryFile| library_file_view(f)) == library_files_spec(
            game_dir@,
            meta.libraries@,
            os_name@,
        ),
{
    let libs = &meta.libraries;
    let n = libs.len();
    let mut out: Vec<LibraryFile> = Vec::new();
    let lib_dir = join_path(game_dir, "libraries");
    let mut i: usize = 0;
    while i < n
        invariant
            n == libs@.len(),
            i <= n,
            lib_dir@ == path_join(game_dir@, "libraries"@),
            out@.map_values(|f: LibraryFile| library_file_view(f)) == library_files_spec(
                game_dir@,
                libs@.take(i as int),
                os_name@,
            ),
        decreases n - i,
    {
        let lib = &libs[i];
        assert(libs@.take(i + 1).drop_last() == libs@.take(i as int));
        assert(libs@.take(i + 1).last() == libs@[i as int]);
        if is_library_allowed(lib, os_name) {
            match &lib.downloads {
                Some(dl) => match &dl.artifact {
                    Some(artifact) => {
                        let path = join_path(lib_dir.as_str(), artifact.path.as_str());
                        out.push(LibraryFile { path, url: artifact.url.clone() });
                    },
                    None => {},
                },
                None => {},
            }
        }
        i = i + 1;
    }
    assert(libs@.take(n as int) == libs@);
    out
}

/// The artifact file of a library: where it goes under `{game_dir}/libraries`
/// and where it comes from.
pub open spec fn artifact_file_spec(game_dir: Seq<char>, lib: Library) -> Option<(Seq<char>, Seq<char>)> {
    match artifact_of(lib) {
        Some(a) => Some((path_join(path_join(game_dir, "libraries"@), a.path@), a.url@)),
        None => None,
    }
}

/// The libraries that installing a version goes through on the system
/// `os_name`: the position of each allowed library, with its artifact file
/// when it has one.
pub open spec fn install_steps_spec(
    game_dir: Seq<char>,
    libs: Seq<Library>,
    os_name: Seq<char>,
) -> Seq<(int, Option<(Seq<char>, Seq<char>)>)>
    decreases libs.len(),
{
    if libs.len() == 0 {
        seq![]
    } else {
        let before = install_steps_spec(game_dir, libs.drop_last(), os_name);
        if library_allowed(libs.last(), os_name) {
            before.push((libs.len() - 1, artifact_file_spec(game_dir, libs.last())))
        } else {
            before
        }
    }
}

/// What an installation goes through: every step names an allowed library, the
/// steps follow the libraries' order, every allowed library has its step, and
/// a step carries its library's artifact: the jar goes to the artifact's path
/// under `{game_dir}/libraries` and is downloaded from the artifact's URL; a
/// library without an artifact gets no file.
pub proof fn lemma_install_steps_follow_artifacts(
    game_dir: Seq<char>,
    libs: Seq<Library>,
    os_name: Seq<char>,
)
    ensures
        forall|k: int|
            0 <= k < install_steps_spec(game_dir, libs, os_name).len() ==> {
                let step = #[trigger] install_steps_spec(game_dir, libs, os_name)[k];
                &&& 0 <= step.0 < libs.len()
                &&& library_allowed(libs[step.0], os_name)
                &&& (step.1 is Some <==> artifact_of(libs[step.0]) is Some)
                &&& step.1 is Some ==> {
                    &&& step.1.unwrap().0 == path_join(
                        path_join(game_dir, "libraries"@),
                        artifact_of(libs[step.0]).unwrap().path@,
                    )
                    &&& step.1.unwrap().1 == artifact_of(libs[step.0]).unwrap().url@
                }
            },
        forall|k: int, l: int|
            0 <= k < l < install_steps_spec(game_dir, libs, os_name).len() ==> (
            #[trigger] install_steps_spec(game_dir, libs, os_name)[k]).0 < (
            #[trigger] install_steps_spec(game_dir, libs, os_name)[l]).0,
        forall|i: int|
            0 <= i < libs.len() && library_allowed(#[trigger] libs[i], os_name) ==> exists|k: int|
                0 <= k < install_steps_spec(game_dir, libs, os_name).len() && (
                #[trigger] install_steps_spec(game_dir, libs, os_name)[k]).0 == i,
    decreases libs.len(),
{
    if libs.len() > 0 {
        let init = libs.drop_last();
        lemma_install_steps_follow_artifacts(game_dir, init, os_name);
        let before = install_steps_spec(game_dir, init, os_name);
        let steps = install_steps_spec(game_dir, libs, os_name);
        assert forall|k: int| 0 <= k < before.len() implies (#[trigger] before[k]).0 < libs.len()
            - 1 && libs[before[k].0] == init[before[k].0] by {}
        assert forall|k: int| 0 <= k < steps.len() implies {
            let step = #[trigger] steps[k];
            &&& 0 <= step.0 < libs.len()
            &&& library_allowed(libs[step.0], os_name)
            &&& (step.1 is Some <==> artifact_of(libs[step.0]) is Some)
            &&& step.1 is Some ==> {
                &&& step.1.unwrap().0 == path_join(
                    path_join(game_dir, "libraries"@),
                    artifact_of(libs[step.0]).unwrap().path@,
                )
                &&& step.1.unwrap().1 == artifact_of(libs[step.0]).unwrap().url@
            }
        } by {
            if k < before.len() {
                assert(steps[k] == before[k]);
            }
        }
        assert forall|k: int, l: int| 0 <= k < l < steps.len() implies (#[trigger] steps[k]).0 < (
        #[trigger] steps[l]).0 by {
            assert(steps[k] == before[k]);
            if l < before.len() {
                assert(steps[l] == before[l]);
            }
        }
        assert forall|i: int| 0 <= i < libs.len() && library_allowed(#[trigger] libs[i], os_name)
            implies exists|k: int| 0 <= k < steps.len() && (#[trigger] steps[k]).0 == i by {
            if i < libs.len() - 1 {
                assert(init[i] == libs[i]);
                let k = choose|k: int| 0 <= k < before.len() && (#[trigger] before[k]).0 == i;
                assert(steps[k] == before[k]);
            } else {
                assert(steps[before.len() as int].0 == i);
            }
        }
    }
}

/// One allowed library of an installation: its position among the version's
/// libraries and the jar to have on disk, if it has one.
#[derive(Debug)]
pub struct LibraryStep {
    pub index: usize,
    pub file: Option<LibraryFile>,
}

/// The step as plain values.
pub open spec fn library_step_view(s: LibraryStep) -> (int, Option<(Seq<char>, Seq<char>)>) {
    (
        s.index as int,
        match s.file {
            Some(f) => Some(library_file_view(f)),
            None => None,
        },
    )
}

/// The libraries that installing a version goes through on the system
/// `os_name`, in order: every allowed library, with its jar when it has one.
pub fn library_install_steps(game_dir: &str, meta: &VersionMeta, os_name: &str) -> (r: Vec<LibraryStep>)
    ensures
        r@.map_values(|s: LibraryStep| library_step_view(s)) == install_steps_spec(
            game_dir@,
            meta.libraries@,
            os_name@,
        ),
{
    let libs = &meta.libraries;
    let n = libs.len();
    let mut out: Vec<LibraryStep> = Vec::new();
    let lib_dir = join_path(game_dir, "libraries");
    let mut i: usize = 0;
    while i < n
        invariant
            n == libs@.len(),
            i <= n,
            lib_dir@ == path_join(game_dir@, "libraries"@),
            out@.map_values(|s: LibraryStep| library_step_view(s)) == install_steps_spec(
                game_dir@,
                libs@.take(i as int),
                os_name@,
            ),
        decreases n - i,
    {
        let lib = &libs[i];
        assert(libs@.take(i + 1).drop_last() == libs@.take(i as int));
        assert(libs@.take(i + 1).last() == libs@[i as int]);
        if is_library_allowed(lib, os_name) {
            let file = match &lib.downloads {
                Some(dl) => match &dl.artifact {
                    Some(artifact) => Some(
                        LibraryFile {
                            path: join_path(lib_dir.as_str(), artifact.path.as_str()),
                            url: artifact.url.clone(),
                        },
                    ),
                    None => None,
                },
                None => None,
            };
            let step = LibraryStep { index: i, file };
            let ghost before = out@;
            out.push(step);
            assert(out@.map_values(|s: LibraryStep| library_step_view(s)) =~= before.map_values(
                |s: LibraryStep| library_step_view(s),
            ).push(library_step_view(step)));
        }
        i = i + 1;
    }
    assert(libs@.take(n as int) == libs@);
    out
}

} // verus!
