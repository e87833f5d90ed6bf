//! Themes: their manifest (`theme.json`), the built-in themes, the files a
//! theme refers to, and the payload sent to the front end.
//!
//! Each theme lives in its own subdirectory of the themes directory:
//!
//! ```text
//! {themes_dir}/{folder}/
//!   theme.json
//!   css/
//!     main.css      ← main window styles (overrides :root variables)
//!     splash.css    ← splash screen styles (extends main.css)
//!   backgrounds/
//!     bg_main.png   ← optional
//!     bg_splash.png ← optional
//! ```
//!
//! Paths inside `theme.json` are relative to the theme folder and may start
//! with `"./"` (e.g. `"./css/main.css"`).
use vstd::prelude::*;
use crate::paths::{path_join, path_extension, join_path, extension_of};
use crate::text::{strip_prefix_or_self, strip_prefix_or_self_exec, append_str, from_chars, str_eq};

verus! {

// ─── Public types ────────────────────────────────────────────────────────────

/// Manifest file (`theme.json`) of a theme.
#[derive(Debug)]
pub struct ThemeMeta {
    pub name: String,
    pub author: String,
    pub description: String,
    pub version: String,
    pub main: ThemeMain,
    pub splash: ThemeSplash,
}

/// The version a manifest has when it states none.
pub fn ver_default() -> (r: String)
    ensures
        r@ == "1.0.0"@,
{
    String::from_str("1.0.0")
}

/// Settings of the main window.
#[derive(Debug, Default)]
pub struct ThemeMain {
    pub buttons: ThemeButtons,
    pub layout: ThemeLayout,
    pub backgrounds: ThemeMainBgs,
    pub css: ThemeMainCss,
}

/// Localised labels for every interactive element in the launcher.
#[derive(Debug, Default)]
pub struct ThemeButtons {
    pub play: Option<String>,
    pub install: Option<String>,
    pub nav_play: Option<String>,
    pub nav_settings: Option<String>,
    pub save_settings: Option<String>,
    pub detect_java: Option<String>,
    pub create_profile: Option<String>,
    pub add_offline: Option<String>,
    pub add_microsoft: Option<String>,
}

/// Layout hints for the main window.
#[derive(Debug, Default)]
pub struct ThemeLayout {
    /// `"left"` (default) or `"right"`: which side the sidebar appears on.
    pub sidebar_position: Option<String>,
    /// `"stretch"` (default), `"left"`, `"center"`, or `"right"`.
    pub play_button_align: Option<String>,
}

/// Backgrounds of the main window.
#[derive(Debug, Default)]
pub struct ThemeMainBgs {
    /// Relative path to the main window background image.
    pub main: Option<String>,
}

/// Stylesheets of the main window.
#[derive(Debug, Default)]
pub struct ThemeMainCss {
    /// Relative path to the main window stylesheet.
    pub main: Option<String>,
}

/// Settings of the splash screen.
#[derive(Debug, Default)]
pub struct ThemeSplash {
    pub texts: Vec<String>,
    pub backgrounds: ThemeSplashBgs,
    pub css: ThemeSplashCss,
}

/// Backgrounds of the splash screen.
#[derive(Debug, Default)]
pub struct ThemeSplashBgs {
    /// Relative path to the splash screen background image.
    pub splash: Option<String>,
}

/// Stylesheets of the splash screen.
#[derive(Debug, Default)]
pub struct ThemeSplashCss {
    /// Relative path to the splash screen stylesheet.
    pub splash: Option<String>,
}

/// Full theme payload sent to the front end.
#[derive(Debug)]
pub struct ThemeData {
    pub folder_name: String,
    pub meta: ThemeMeta,
    /// Raw CSS for the main window.
    pub main_css: String,
    /// Raw CSS for the splash screen.
    pub splash_css: String,
    /// Optional data URI of the main background.
    pub main_bg_data_uri: Option<String>,
    /// Optional data URI of the splash background.
    pub splash_bg_data_uri: Option<String>,
}

/// Lightweight entry for the theme picker list.
#[derive(Debug)]
pub struct ThemeEntry {
    pub folder_name: String,
    pub display_name: String,
    pub author: String,
}

// ─── Built-in theme content ──────────────────────────────────────────────────

pub const DARK_JSON: &'static str = r#"{
  "name": "Тёмная",
  "author": "XLauchez",
  "description": "Built-in dark theme",
  "version": "1.0.0",
  "main": {
    "buttons": {
      "play":           "Play",
      "install":        "Install",
      "nav_play":       "Play",
      "nav_settings":   "Settings",
      "save_settings":  "Save",
      "detect_java":    "Detect",
      "create_profile": "Create",
      "add_offline":    "+ Offline",
      "add_microsoft":  "+ Microsoft"
    },
    "layout": {
      "sidebar_position":  "left",
      "play_button_align": "stretch"
    },
    "backgrounds": {
      "main": null
    },
    "css": {
      "main": "./css/main.css"
    }
  },
  "splash": {
    "texts": [
      "Mining some code…",
      "Summoning diamonds…",
      "Preparing the Nether…",
      "Loading chunks…",
      "Crafting your world…",
      "Consulting the villagers…",
      "Smelting ores…"
    ],
    "backgrounds": {
      "splash": null
    },
    "css": {
      "splash": "./css/splash.css"
    }
  }
}"#;

pub const DARK_MAIN_CSS: &'static str = r#"/* XLauchez — Тёмная */
:root {
  --bg:      #111111;
  --surface: #191919;
  --line:    #242424;
  --accent:  #5dbb2c;
  --ms:      #0078d4;
  --danger:  #c03030;
  --text:    #c8c8c8;
  --dim:     #555555;
}
"#;

pub const DARK_SPLASH_CSS: &'static str =
    "/* XLauchez — Тёмная splash (extends main.css) */\n";

pub const LIGHT_JSON: &'static str = r#"{
  "name": "Светлая",
  "author": "XLauchez",
  "description": "Built-in light theme",
  "version": "1.0.0",
  "main": {
    "buttons": {
      "play":           "Play",
      "install":        "Install",
      "nav_play":       "Play",
      "nav_settings":   "Settings",
      "save_settings":  "Save",
      "detect_java":    "Detect",
      "create_profile": "Create",
      "add_offline":    "+ Offline",
      "add_microsoft":  "+ Microsoft"
    },
    "layout": {
      "sidebar_position":  "left",
      "play_button_align": "stretch"
    },
    "backgrounds": {
      "main": null
    },
    "css": {
      "main": "./css/main.css"
    }
  },
  "splash": {
    "texts": [
      "Mining some code…",
      "Summoning diamonds…",
      "Preparing the Nether…",
      "Loading chunks…",
      "Crafting your world…",
      "Consulting the villagers…",
      "Smelting ores…"
    ],
    "backgrounds": {
      "splash": null
    },
    "css": {
      "splash": "./css/splash.css"
    }
  }
}"#;

pub const LIGHT_MAIN_CSS: &'static str = r#"/* XLauchez — Светлая */
:root {
  --bg:      #f0f0f0;
  --surface: #e6e6e6;
  --line:    #cccccc;
  --accent:  #2d8a00;
  --ms:      #0078d4;
  --danger:  #c03030;
  --text:    #1a1a1a;
  --dim:     #888888;
}
"#;

pub const LIGHT_SPLASH_CSS: &'static str =
    "/* XLauchez — Светлая splash (extends main.css) */\n";

// ─── Built-in themes on disk ─────────────────────────────────────────────────

/// One step of writing a built-in theme to disk.
#[derive(Debug)]
pub enum SetupStep {
    /// Create this directory and its parents.
    CreateDir(String),
    /// Write this content to this file unless the file already exists.
    WriteIfMissing(String, &'static str),
}

/// The step as characters.
pub open spec fn step_view(s: SetupStep) -> (bool, Seq<char>, Seq<char>) {
    match s {
        SetupStep::CreateDir(p) => (true, p@, seq![]),
        SetupStep::WriteIfMissing(p, c) => (false, p@, c@),
    }
}

/// The steps as characters.
pub open spec fn steps_view(v: Seq<SetupStep>) -> Seq<(bool, Seq<char>, Seq<char>)> {
    v.map_values(|s: SetupStep| step_view(s))
}

/// The steps that write one built-in theme into `{themes_dir}/{name}`: its
/// `css` and `backgrounds` directories, then `theme.json`, `css/main.css` and
/// `css/splash.css`, each only if missing.
pub open spec fn default_steps_spec(
    themes_dir: Seq<char>,
    name: Seq<char>,
    json: Seq<char>,
    main_css: Seq<char>,
    splash_css: Seq<char>,
) -> Seq<(bool, Seq<char>, Seq<char>)> {
    let dir = path_join(themes_dir, name);
    let css_dir = path_join(dir, "css"@);
    let bg_dir = path_join(dir, "backgrounds"@);
    seq![
        (true, css_dir, seq![]),
        (true, bg_dir, seq![]),
        (false, path_join(dir, "theme.json"@), json),
        (false, path_join(css_dir, "main.css"@), main_css),
        (false, path_join(css_dir, "splash.css"@), splash_css),
    ]
}

fn push_step(v: &mut Vec<SetupStep>, s: SetupStep)
    ensures
        steps_view(final(v)@) == steps_view(old(v)@).push(step_view(s)),
{
    let ghost before = v@;
    v.push(s);
    assert(steps_view(v@) =~= steps_view(before).push(step_view(s)));
}

fn write_default(
    steps: &mut Vec<SetupStep>,
    themes_dir: &str,
    name: &str,
    json: &'static str,
    main_css: &'static str,
    splash_css: &'static str,
)
    ensures
        steps_view(final(steps)@) == steps_view(old(steps)@) + default_steps_spec(
            themes_dir@,
            name@,
            json@,
            main_css@,
            splash_css@,
        ),
{
    let dir = join_path(themes_dir, name);
    let css_dir = join_path(dir.as_str(), "css");
    let bg_dir = join_path(dir.as_str(), "backgrounds");
    let ghost before = steps_view(steps@);
    push_step(steps, SetupStep::CreateDir(css_dir.clone()));
    push_step(steps, SetupStep::CreateDir(bg_dir));
    push_step(steps, SetupStep::WriteIfMissing(join_path(dir.as_str(), "theme.json"), json));
    push_step(steps, SetupStep::WriteIfMissing(join_path(css_dir.as_str(), "main.css"), main_css));
    push_step(
        steps,
        SetupStep::WriteIfMissing(join_path(css_dir.as_str(), "splash.css"), splash_css),
    );
    assert(steps_view(steps@) =~= before + default_steps_spec(
        themes_dir@,
        name@,
        json@,
        main_css@,
        splash_css@,
    ));
}

/// The steps that write the two built-in themes (`dark`, then `light`) to
/// disk, leaving files that already exist alone.
pub fn ensure_defaults(themes_dir: &str) -> (r: Vec<SetupStep>)
    ensures
        steps_view(r@) == default_steps_spec(
            themes_dir@,
            "dark"@,
            DARK_JSON@,
            DARK_MAIN_CSS@,
            DARK_SPLASH_CSS@,
        ) + default_steps_spec(themes_dir@, "light"@, LIGHT_JSON@, LIGHT_MAIN_CSS@, LIGHT_SPLASH_CSS@),
{
    let mut steps: Vec<SetupStep> = Vec::new();
    assert(steps_view(steps@) =~= seq![]);
    write_default(&mut steps, themes_dir, "dark", DARK_JSON, DARK_MAIN_CSS, DARK_SPLASH_CSS);
    write_default(&mut steps, themes_dir, "light", LIGHT_JSON, LIGHT_MAIN_CSS, LIGHT_SPLASH_CSS);
    assert(steps_view(steps@) =~= default_steps_spec(
        themes_dir@,
        "dark"@,
        DARK_JSON@,
        DARK_MAIN_CSS@,
        DARK_SPLASH_CSS@,
    ) + default_steps_spec(themes_dir@, "light"@, LIGHT_JSON@, LIGHT_MAIN_CSS@, LIGHT_SPLASH_CSS@));
    steps
}

/// What the setup steps see of the disk: the directories there are and the
/// files there are, with their contents.
pub struct Disk {
    pub dirs: Set<Seq<char>>,
    pub files: Map<Seq<char>, Seq<char>>,
}

/// The disk after one step: a directory step makes the directory, a file step
/// writes its content only when no file is at that path.
pub open spec fn apply_step(d: Disk, s: (bool, Seq<char>, Seq<char>)) -> Disk {
    if s.0 {
        Disk { dirs: d.dirs.insert(s.1), files: d.files }
    } else if d.files.dom().contains(s.1) {
        d
    } else {
        Disk { dirs: d.dirs, files: d.files.insert(s.1, s.2) }
    }
}

/// The disk after the steps, in order.
pub open spec fn apply_steps(d: Disk, s: Seq<(bool, Seq<char>, Seq<char>)>) -> Disk
    decreases s.len(),
{
    if s.len() == 0 {
        d
    } else {
        apply_steps(apply_step(d, s[0]), s.skip(1))
    }
}

/// Every step has already taken effect: its directory or its file is there.
pub open spec fn steps_done(d: Disk, s: Seq<(bool, Seq<char>, Seq<char>)>) -> bool {
    forall|i: int|
        0 <= i < s.len() ==> if (#[trigger] s[i]).0 {
            d.dirs.contains(s[i].1)
        } else {
            d.files.dom().contains(s[i].1)
        }
}

/// Steps only add: directories stay, and a file that is there keeps its content.
proof fn lemma_steps_keep(d: Disk, s: Seq<(bool, Seq<char>, Seq<char>)>)
    ensures
        d.dirs.subset_of(apply_steps(d, s).dirs),
        forall|p: Seq<char>|
            #[trigger] d.files.dom().contains(p) ==> apply_steps(d, s).files.dom().contains(p)
                && apply_steps(d, s).files[p] == d.files[p],
    decreases s.len(),
{
    if s.len() > 0 {
        let d1 = apply_step(d, s[0]);
        lemma_steps_keep(d1, s.skip(1));
        assert(d.dirs.subset_of(d1.dirs));
        assert forall|p: Seq<char>| #[trigger] d.files.dom().contains(p) implies d1.files.dom().contains(
            p,
        ) && d1.files[p] == d.files[p] by {}
    }
}

/// After the steps, every one of them has taken effect.
proof fn lemma_steps_done(d: Disk, s: Seq<(bool, Seq<char>, Seq<char>)>)
    ensures
        steps_done(apply_steps(d, s), s),
    decreases s.len(),
{
    if s.len() > 0 {
        let d1 = apply_step(d, s[0]);
        let rest = s.skip(1);
        lemma_steps_done(d1, rest);
        lemma_steps_keep(d1, rest);
        let e = apply_steps(d, s);
        assert forall|i: int| 0 <= i < s.len() implies if (#[trigger] s[i]).0 {
            e.dirs.contains(s[i].1)
        } else {
            e.files.dom().contains(s[i].1)
        } by {
            if i > 0 {
                assert(s[i] == rest[i - 1]);
            } else if s[0].0 {
                assert(d1.dirs.contains(s[0].1));
            } else {
                assert(d1.files.dom().contains(s[0].1));
            }
        }
    }
}

/// Steps that have all taken effect change nothing.
proof fn lemma_done_steps_change_nothing(d: Disk, s: Seq<(bool, Seq<char>, Seq<char>)>)
    requires
        steps_done(d, s),
    ensures
        apply_steps(d, s) == d,
    decreases s.len(),
{
    if s.len() > 0 {
        let d1 = apply_step(d, s[0]);
        assert(s[0] == s[0]);
        if s[0].0 {
            assert(d1.dirs =~= d.dirs);
            assert(d1.files =~= d.files);
        }
        assert(d1 == d);
        assert forall|i: int| 0 <= i < s.skip(1).len() implies if (#[trigger] s.skip(1)[i]).0 {
            d.dirs.contains(s.skip(1)[i].1)
        } else {
            d.files.dom().contains(s.skip(1)[i].1)
        } by {
            assert(s.skip(1)[i] == s[i + 1]);
        }
        lemma_done_steps_change_nothing(d, s.skip(1));
    }
}

/// Setting up the built-in themes again changes nothing, and it never
/// overwrites a file that was already there: applying any list of setup steps
/// twice leaves the disk as applying it once, and every file present before
/// keeps its content.
pub proof fn lemma_setup_idempotent(d: Disk, plan: Seq<SetupStep>)
    ensures
        apply_steps(apply_steps(d, steps_view(plan)), steps_view(plan)) == apply_steps(
            d,
            steps_view(plan),
        ),
        forall|p: Seq<char>|
            #[trigger] d.files.dom().contains(p) ==> apply_steps(d, steps_view(plan)).files.dom().contains(p)
                && apply_steps(d, steps_view(plan)).files[p] == d.files[p],
{
    let s = steps_view(plan);
    lemma_steps_done(d, s);
    lemma_done_steps_change_nothing(apply_steps(d, s), s);
    lemma_steps_keep(d, s);
}

/// A file step writes its content when no file is at its path beforehand and
/// no earlier step writes to that path.
proof fn lemma_step_written(d: Disk, s: Seq<(bool, Seq<char>, Seq<char>)>, k: int)
    requires
        0 <= k < s.len(),
        !s[k].0,
        !d.files.dom().contains(s[k].1),
        forall|j: int| 0 <= j < k ==> (#[trigger] s[j]).0 || s[j].1 != s[k].1,
    ensures
        apply_steps(d, s).files.dom().contains(s[k].1),
        apply_steps(d, s).files[s[k].1] == s[k].2,
    decreases k,
{
    let d1 = apply_step(d, s[0]);
    if k == 0 {
        lemma_steps_keep(d1, s.skip(1));
        assert(d1.files.dom().contains(s[0].1));
    } else {
        assert(s[0].0 || s[0].1 != s[k].1);
        assert(!d1.files.dom().contains(s[k].1));
        let rest = s.skip(1);
        assert(rest[k - 1] == s[k]);
        assert forall|j: int| 0 <= j < k - 1 implies (#[trigger] rest[j]).0 || rest[j].1 != rest[
            k - 1
        ].1 by {
            assert(rest[j] == s[j + 1]);
        }
        lemma_step_written(d1, rest, k - 1);
    }
}

/// The steps that set up both built-in themes, as `ensure_defaults` returns them.
pub open spec fn defaults_plan(themes_dir: Seq<char>) -> Seq<(bool, Seq<char>, Seq<char>)> {
    default_steps_spec(themes_dir, "dark"@, DARK_JSON@, DARK_MAIN_CSS@, DARK_SPLASH_CSS@)
        + default_steps_spec(themes_dir, "light"@, LIGHT_JSON@, LIGHT_MAIN_CSS@, LIGHT_SPLASH_CSS@)
}

/// `{themes_dir}/{name}/{file}`.
pub open spec fn theme_file(themes_dir: Seq<char>, name: Seq<char>, file: Seq<char>) -> Seq<char> {
    path_join(path_join(themes_dir, name), file)
}

/// `{themes_dir}/{name}/css/{file}`.
pub open spec fn theme_css_file(themes_dir: Seq<char>, name: Seq<char>, file: Seq<char>) -> Seq<
    char,
> {
    path_join(path_join(path_join(themes_dir, name), "css"@), file)
}

/// What setting up the built-in themes writes: on a disk where none of their
/// six files exists (and their paths are six different paths), each file gets
/// its built-in content: the manifest, the main styles (with the colour
/// variables) and the splash styles of the dark theme and of the light theme.
pub proof fn lemma_defaults_written(d: Disk, themes_dir: Seq<char>)
    requires
        ({
            let p = seq![
                theme_file(themes_dir, "dark"@, "theme.json"@),
                theme_css_file(themes_dir, "dark"@, "main.css"@),
                theme_css_file(themes_dir, "dark"@, "splash.css"@),
                theme_file(themes_dir, "light"@, "theme.json"@),
                theme_css_file(themes_dir, "light"@, "main.css"@),
                theme_css_file(themes_dir, "light"@, "splash.css"@),
            ];
            &&& forall|i: int, j: int| 0 <= i < j < 6 ==> #[trigger] p[i] != #[trigger] p[j]
            &&& forall|i: int| 0 <= i < 6 ==> !d.files.dom().contains(#[trigger] p[i])
        }),
    ensures
        ({
            let f = apply_steps(d, defaults_plan(themes_dir)).files;
            &&& f.dom().contains(theme_file(themes_dir, "dark"@, "theme.json"@))
            &&& f[theme_file(themes_dir, "dark"@, "theme.json"@)] == DARK_JSON@
            &&& f.dom().contains(theme_css_file(themes_dir, "dark"@, "main.css"@))
            &&& f[theme_css_file(themes_dir, "dark"@, "main.css"@)] == DARK_MAIN_CSS@
            &&& f.dom().contains(theme_css_file(themes_dir, "dark"@, "splash.css"@))
            &&& f[theme_css_file(themes_dir, "dark"@, "splash.css"@)] == DARK_SPLASH_CSS@
            &&& f.dom().contains(theme_file(themes_dir, "light"@, "theme.json"@))
            &&& f[theme_file(themes_dir, "light"@, "theme.json"@)] == LIGHT_JSON@
            &&& f.dom().contains(theme_css_file(themes_dir, "light"@, "main.css"@))
            &&& f[theme_css_file(themes_dir, "light"@, "main.css"@)] == LIGHT_MAIN_CSS@
            &&& f.dom().contains(theme_css_file(themes_dir, "light"@, "splash.css"@))
            &&& f[theme_css_file(themes_dir, "light"@, "splash.css"@)] == LIGHT_SPLASH_CSS@
        }),
{
    let p = seq![
        theme_file(themes_dir, "dark"@, "theme.json"@),
        theme_css_file(themes_dir, "dark"@, "main.css"@),
        theme_css_file(themes_dir, "dark"@, "splash.css"@),
        theme_file(themes_dir, "light"@, "theme.json"@),
        theme_css_file(themes_dir, "light"@, "main.css"@),
        theme_css_file(themes_dir, "light"@, "splash.css"@),
    ];
    let s = defaults_plan(themes_dir);
    assert(s.len() == 10);
    assert(s[2] == (false, p[0], DARK_JSON@));
    assert(s[3] == (false, p[1], DARK_MAIN_CSS@));
    assert(s[4] == (false, p[2], DARK_SPLASH_CSS@));
    assert(s[7] == (false, p[3], LIGHT_JSON@));
    assert(s[8] == (false, p[4], LIGHT_MAIN_CSS@));
    assert(s[9] == (false, p[5], LIGHT_SPLASH_CSS@));
    assert(s[0].0 && s[1].0 && s[5].0 && s[6].0);
    assert(p[0] != p[1] && p[0] != p[2] && p[0] != p[3] && p[0] != p[4] && p[0] != p[5]);
    assert(p[1] != p[2] && p[1] != p[3] && p[1] != p[4] && p[1] != p[5]);
    assert(p[2] != p[3] && p[2] != p[4] && p[2] != p[5]);
    assert(p[3] != p[4] && p[3] != p[5] && p[4] != p[5]);
    assert(!d.files.dom().contains(p[0]) && !d.files.dom().contains(p[1])
        && !d.files.dom().contains(p[2]) && !d.files.dom().contains(p[3])
        && !d.files.dom().contains(p[4]) && !d.files.dom().contains(p[5]));
    lemma_step_written(d, s, 2);
    lemma_step_written(d, s, 3);
    lemma_step_written(d, s, 4);
    lemma_step_written(d, s, 7);
    lemma_step_written(d, s, 8);
    lemma_step_written(d, s, 9);
}

// ─── Paths inside a theme ────────────────────────────────────────────────────

/// A theme-relative path resolved against the theme folder, without a
/// leading `./`.
pub open spec fn resolve_spec(theme_dir: Seq<char>, relative: Seq<char>) -> Seq<char> {
    path_join(theme_dir, strip_prefix_or_self(relative, "./"@))
}

/// Resolves a theme-relative path (strips a leading `"./"` if present).
pub fn resolve(theme_dir: &str, relative: &str) -> (r: String)
    ensures
        r@ == resolve_spec(theme_dir@, relative@),
{
    let stripped = strip_prefix_or_self_exec(relative, "./");
    join_path(theme_dir, stripped.as_str())
}

/// The folder of a theme.
pub fn theme_dir(themes_dir: &str, folder_name: &str) -> (r: String)
    ensures
        r@ == path_join(themes_dir@, folder_name@),
{
    join_path(themes_dir, folder_name)
}

/// The manifest file of a theme folder.
pub fn meta_path(theme_dir: &str) -> (r: String)
    ensures
        r@ == path_join(theme_dir@, "theme.json"@),
{
    join_path(theme_dir, "theme.json")
}

/// A relative path, resolved when present.
pub open spec fn resolve_opt(theme_dir: Seq<char>, relative: Option<String>) -> Option<Seq<char>> {
    match relative {
        Some(p) => Some(resolve_spec(theme_dir, p@)),
        None => None,
    }
}

fn resolve_opt_exec(theme_dir: &str, relative: &Option<String>) -> (r: Option<String>)
    ensures
        crate::keyed::opt_chars(r) == resolve_opt(theme_dir@, *relative),
{
    match relative {
        Some(p) => Some(resolve(theme_dir, p.as_str())),
        None => None,
    }
}

/// The files a theme refers to, resolved against its folder.
#[derive(Debug)]
pub struct ThemeFilePaths {
    pub main_css: Option<String>,
    pub splash_css: Option<String>,
    pub main_bg: Option<String>,
    pub splash_bg: Option<String>,
}

/// The files the manifest of the theme in `theme_dir` refers to.
pub fn theme_file_paths(theme_dir: &str, meta: &ThemeMeta) -> (r: ThemeFilePaths)
    ensures
        crate::keyed::opt_chars(r.main_css) == resolve_opt(theme_dir@, meta.main.css.main),
        crate::keyed::opt_chars(r.splash_css) == resolve_opt(theme_dir@, meta.splash.css.splash),
        crate::keyed::opt_chars(r.main_bg) == resolve_opt(theme_dir@, meta.main.backgrounds.main),
        crate::keyed::opt_chars(r.splash_bg) == resolve_opt(
            theme_dir@,
            meta.splash.backgrounds.splash,
        ),
{
    ThemeFilePaths {
        main_css: resolve_opt_exec(theme_dir, &meta.main.css.main),
        splash_css: resolve_opt_exec(theme_dir, &meta.splash.css.splash),
        main_bg: resolve_opt_exec(theme_dir, &meta.main.backgrounds.main),
        splash_bg: resolve_opt_exec(theme_dir, &meta.splash.backgrounds.splash),
    }
}

// ─── Background images ───────────────────────────────────────────────────────

/// The Base64 digit for a value below 64: `A`–`Z`, then `a`–`z`, then
/// `0`–`9`, then `+` and `/`.
pub open spec fn b64_char(i: int) -> char {
    if i < 26 {
        (65 + i) as char
    } else if i < 52 {
        (71 + i) as char
    } else if i < 62 {
        (i - 4) as char
    } else if i == 62 {
        '+'
    } else {
        '/'
    }
}

/// The value of a Base64 digit (0 for a character that is none).
pub open spec fn b64_index(c: char) -> int {
    let u = c as u32;
    if 65 <= u <= 90 {
        u - 65
    } else if 97 <= u <= 122 {
        u - 71
    } else if 48 <= u <= 57 {
        u + 4
    } else if c == '+' {
        62
    } else if c == '/' {
        63
    } else {
        0
    }
}

/// Every digit is told apart from the padding `=` and read back as its value.
proof fn lemma_b64_char(i: int)
    requires
        0 <= i < 64,
    ensures
        b64_char(i) != '=',
        b64_index(b64_char(i)) == i,
{
}

/// The Base64 digit for `v`, computed from its position in the alphabet.
fn b64_digit(v: u32) -> (c: char)
    requires
        v < 64,
    ensures
        c == b64_char(v as int),
{
    if v < 26 {
        ((65 + v) as u8) as char
    } else if v < 52 {
        ((71 + v) as u8) as char
    } else if v < 62 {
        ((v - 4) as u8) as char
    } else if v == 62 {
        '+'
    } else {
        '/'
    }
}

/// The four characters encoding `len` (1 to 3) bytes `b0 b1 b2` (missing bytes
/// are 0): the 24 bits in four groups of six, with `=` for each missing byte.
pub open spec fn b64_group(b0: int, b1: int, b2: int, len: int) -> Seq<char> {
    let n = b0 * 65536 + b1 * 256 + b2;
    seq![
        b64_char(n / 262144),
        b64_char((n / 4096) % 64),
        if len > 1 { b64_char((n / 64) % 64) } else { '=' },
        if len > 2 { b64_char(n % 64) } else { '=' },
    ]
}

/// Standard padded Base64 of `data`: each group of three bytes (the last may
/// be shorter) becomes four characters.
pub open spec fn b64_spec(data: Seq<u8>) -> Seq<char>
    decreases data.len(),
{
    if data.len() == 0 {
        seq![]
    } else {
        let len: int = if data.len() < 3 { data.len() as int } else { 3 };
        b64_group(
            data[0] as int,
            if len > 1 { data[1] as int } else { 0 },
            if len > 2 { data[2] as int } else { 0 },
            len,
        ) + b64_spec(data.skip(len))
    }
}

/// The bytes that four Base64 characters stand for: three, or fewer when the
/// group ends in `=`.
pub open spec fn b64_ungroup(c0: char, c1: char, c2: char, c3: char) -> Seq<u8> {
    let n = b64_index(c0) * 262144 + b64_index(c1) * 4096 + (if c2 == '=' {
        0
    } else {
        b64_index(c2) * 64
    }) + (if c3 == '=' {
        0
    } else {
        b64_index(c3)
    });
    if c2 == '=' {
        seq![(n / 65536) as u8]
    } else if c3 == '=' {
        seq![(n / 65536) as u8, ((n / 256) % 256) as u8]
    } else {
        seq![(n / 65536) as u8, ((n / 256) % 256) as u8, (n % 256) as u8]
    }
}

/// Base64 decoding, group of four characters by group.
pub open spec fn b64_decode_spec(s: Seq<char>) -> Seq<u8>
    decreases s.len(),
{
    if s.len() < 4 {
        seq![]
    } else {
        b64_ungroup(s[0], s[1], s[2], s[3]) + b64_decode_spec(s.skip(4))
    }
}

proof fn lemma_sextets(b0: u32, b1: u32, b2: u32)
    by (bit_vector)
    requires
        b0 < 256,
        b1 < 256,
        b2 < 256,
    ensures
        ((b0 << 16) | (b1 << 8) | b2) == b0 * 65536 + b1 * 256 + b2,
        (((b0 << 16) | (b1 << 8) | b2) >> 18) & 63 == (b0 * 65536 + b1 * 256 + b2) / 262144,
        (((b0 << 16) | (b1 << 8) | b2) >> 12) & 63 == ((b0 * 65536 + b1 * 256 + b2) / 4096) % 64,
        (((b0 << 16) | (b1 << 8) | b2) >> 6) & 63 == ((b0 * 65536 + b1 * 256 + b2) / 64) % 64,
        ((b0 << 16) | (b1 << 8) | b2) & 63 == (b0 * 65536 + b1 * 256 + b2) % 64,
{
}

/// The four sextets of three bytes add back up to the 24 bits, which give the
/// bytes again; the sextets that stand only on missing (zero) bytes are 0.
proof fn lemma_sextets_back(b0: u32, b1: u32, b2: u32)
    by (bit_vector)
    requires
        b0 < 256,
        b1 < 256,
        b2 < 256,
    ensures
        (b0 * 65536 + b1 * 256 + b2) / 262144 < 64,
        ((b0 * 65536 + b1 * 256 + b2) / 262144) * 262144 + (((b0 * 65536 + b1 * 256 + b2) / 4096)
            % 64) * 4096 + (((b0 * 65536 + b1 * 256 + b2) / 64) % 64) * 64 + (b0 * 65536 + b1
            * 256 + b2) % 64 == b0 * 65536 + b1 * 256 + b2,
        (b0 * 65536 + b1 * 256 + b2) / 65536 == b0,
        ((b0 * 65536 + b1 * 256 + b2) / 256) % 256 == b1,
        (b0 * 65536 + b1 * 256 + b2) % 256 == b2,
        b1 == 0 && b2 == 0 ==> ((b0 * 65536 + b1 * 256 + b2) / 64) % 64 == 0,
        b2 == 0 ==> (b0 * 65536 + b1 * 256 + b2) % 64 == 0,
{
}

/// Decoding the four characters of one group gives its bytes back.
proof fn lemma_group_round_trip(b0: u32, b1: u32, b2: u32, len: int)
    requires
        b0 < 256,
        b1 < 256,
        b2 < 256,
        1 <= len <= 3,
        len < 3 ==> b2 == 0,
        len < 2 ==> b1 == 0,
    ensures
        ({
            let g = b64_group(b0 as int, b1 as int, b2 as int, len);
            b64_ungroup(g[0], g[1], g[2], g[3]) == if len == 1 {
                seq![b0 as u8]
            } else if len == 2 {
                seq![b0 as u8, b1 as u8]
            } else {
                seq![b0 as u8, b1 as u8, b2 as u8]
            }
        }),
{
    lemma_sextets_back(b0, b1, b2);
    let n = b0 * 65536 + b1 * 256 + b2;
    lemma_b64_char(n / 262144);
    lemma_b64_char((n / 4096) % 64);
    lemma_b64_char((n / 64) % 64);
    lemma_b64_char(n % 64);
}

/// Appends the four characters encoding `len` bytes `b0 b1 b2`.
fn encode_group(out: &mut Vec<char>, b0: u32, b1: u32, b2: u32, len: usize)
    requires
        b0 < 256,
        b1 < 256,
        b2 < 256,
        1 <= len <= 3,
    ensures
        final(out)@ == old(out)@ + b64_group(b0 as int, b1 as int, b2 as int, len as int),
{
    proof {
        lemma_sextets(b0, b1, b2);
    }
    let n: u32 = (b0 << 16) | (b1 << 8) | b2;
    let c0 = b64_digit((n >> 18) & 63);
    let c1 = b64_digit((n >> 12) & 63);
    let c2 = if len > 1 { b64_digit((n >> 6) & 63) } else { '=' };
    let c3 = if len > 2 { b64_digit(n & 63) } else { '=' };
    out.push(c0);
    out.push(c1);
    out.push(c2);
    out.push(c3);
}

proof fn lemma_b64_unfold(d: Seq<u8>)
    requires
        d.len() > 0,
    ensures
        ({
            let len: int = if d.len() < 3 { d.len() as int } else { 3 };
            b64_spec(d) == b64_group(
                d[0] as int,
                if len > 1 { d[1] as int } else { 0 },
                if len > 2 { d[2] as int } else { 0 },
                len,
            ) + b64_spec(d.skip(len))
        }),
{
}

/// Standard padded Base64 of `data`.
pub fn b64_encode(data: &[u8]) -> (r: String)
    ensures
        r@ == b64_spec(data@),
{
    let len = data.len();
    let mut out: Vec<char> = Vec::new();
    let mut i: usize = 0;
    assert(data@.skip(0) == data@);
    while i < len
        invariant
            len == data@.len(),
            i <= len,
            b64_spec(data@) == out@ + b64_spec(data@.skip(i as int)),
        decreases len - i,
    {
        let ghost rest = data@.skip(i as int);
        let rem = len - i;
        let clen: usize = if rem < 3 { rem } else { 3 };
        let b0 = data[i] as u32;
        let b1: u32 = if clen > 1 { data[i + 1] as u32 } else { 0 };
        let b2: u32 = if clen > 2 { data[i + 2] as u32 } else { 0 };
        proof {
            lemma_b64_unfold(rest);
            assert(rest.skip(clen as int) == data@.skip(i + clen));
            assert(rest[0] == data@[i as int]);
            assert(clen > 1 ==> rest[1] == data@[i + 1]);
            assert(clen > 2 ==> rest[2] == data@[i + 2]);
        }
        encode_group(&mut out, b0, b1, b2, clen);
        i = i + clen;
    }
    assert(data@.skip(len as int).len() == 0);
    assert(out@ + b64_spec(data@.skip(len as int)) == out@);
    from_chars(&out)
}

/// Base64 turns every started group of three bytes into four characters.
pub proof fn lemma_b64_len(data: Seq<u8>)
    ensures
        b64_spec(data).len() == 4 * ((data.len() + 2) / 3),
    decreases data.len(),
{
    if data.len() > 0 {
        let len: int = if data.len() < 3 { data.len() as int } else { 3 };
        lemma_b64_len(data.skip(len));
    }
}

/// Base64 encodes groups of three bytes independently: data split after a
/// multiple of three bytes encodes to the concatenation of the encodings.
pub proof fn lemma_b64_concat(a: Seq<u8>, b: Seq<u8>)
    requires
        a.len() % 3 == 0,
    ensures
        b64_spec(a + b) == b64_spec(a) + b64_spec(b),
    decreases a.len(),
{
    if a.len() == 0 {
        assert(a + b == b);
    } else {
        let ab = a + b;
        assert(ab.skip(3) == a.skip(3) + b);
        lemma_b64_concat(a.skip(3), b);
        assert(ab[0] == a[0] && ab[1] == a[1] && ab[2] == a[2]);
    }
}

/// In the Base64 of `data`, the padding `=` stands at the last
/// `(3 - data.len() % 3) % 3` positions and nowhere else.
#[verifier::spinoff_prover]
#[verifier::rlimit(30)]
pub proof fn lemma_b64_padding(data: Seq<u8>)
    ensures
        forall|i: int|
            0 <= i < b64_spec(data).len() ==> (#[trigger] b64_spec(data)[i] == '=' <==> i
                >= b64_spec(data).len() - (3 - data.len() % 3) % 3),
    decreases data.len(),
{
    if data.len() > 0 {
        let len: int = if data.len() < 3 { data.len() as int } else { 3 };
        let rest = data.skip(len);
        lemma_b64_padding(rest);
        lemma_b64_len(data);
        lemma_b64_len(rest);
        let b0 = data[0] as int;
        let b1: int = if len > 1 { data[1] as int } else { 0 };
        let b2: int = if len > 2 { data[2] as int } else { 0 };
        let n = b0 * 65536 + b1 * 256 + b2;
        assert(0 <= n < 16777216) by (nonlinear_arith)
            requires
                n == b0 * 65536 + b1 * 256 + b2,
                0 <= b0 < 256,
                0 <= b1 < 256,
                0 <= b2 < 256,
        ;
        lemma_b64_char(n / 262144);
        lemma_b64_char((n / 4096) % 64);
        lemma_b64_char((n / 64) % 64);
        lemma_b64_char(n % 64);
        let g = b64_group(b0, b1, b2, len);
        assert(b64_spec(data) == g + b64_spec(rest));
        assert forall|i: int| 0 <= i < b64_spec(data).len() implies (#[trigger] b64_spec(data)[i]
            == '=' <==> i >= b64_spec(data).len() - (3 - data.len() % 3) % 3) by {
            if i >= 4 {
                assert(b64_spec(data)[i] == b64_spec(rest)[i - 4]);
            }
        }
    }
}

/// Decoding the Base64 of `data` gives `data` back.
#[verifier::spinoff_prover]
#[verifier::rlimit(30)]
pub proof fn lemma_b64_round_trip(data: Seq<u8>)
    ensures
        b64_decode_spec(b64_spec(data)) == data,
    decreases data.len(),
{
    if data.len() > 0 {
        let len: int = if data.len() < 3 { data.len() as int } else { 3 };
        let rest = data.skip(len);
        lemma_b64_round_trip(rest);
        let b0 = data[0] as u32;
        let b1: u32 = if len > 1 { data[1] as u32 } else { 0 };
        let b2: u32 = if len > 2 { data[2] as u32 } else { 0 };
        lemma_group_round_trip(b0, b1, b2, len);
        let g = b64_group(b0 as int, b1 as int, b2 as int, len);
        let e = b64_spec(data);
        assert(e == g + b64_spec(rest));
        assert(e.skip(4) == b64_spec(rest));
        assert(e[0] == g[0] && e[1] == g[1] && e[2] == g[2] && e[3] == g[3]);
        assert(data == data.take(len) + rest);
        assert(data.take(len) == b64_ungroup(g[0], g[1], g[2], g[3]));
    }
}

/// The media type of an image with this file extension; PNG when unknown.
pub open spec fn mime_spec(ext: Option<Seq<char>>) -> Seq<char> {
    match ext {
        Some(e) => if e == "jpg"@ || e == "jpeg"@ {
            "image/jpeg"@
        } else if e == "png"@ {
            "image/png"@
        } else if e == "gif"@ {
            "image/gif"@
        } else if e == "webp"@ {
            "image/webp"@
        } else {
            "image/png"@
        },
        None => "image/png"@,
    }
}

/// The media type of an image with this file extension; PNG when unknown.
pub fn mime_for_extension(ext: Option<&str>) -> (r: &'static str)
    ensures
        r@ == mime_spec(match ext {
            Some(e) => Some(e@),
            None => None,
        }),
{
    match ext {
        Some(e) => if str_eq(e, "jpg") || str_eq(e, "jpeg") {
            "image/jpeg"
        } else if str_eq(e, "png") {
            "image/png"
        } else if str_eq(e, "gif") {
            "image/gif"
        } else if str_eq(e, "webp") {
            "image/webp"
        } else {
            "image/png"
        },
        None => "image/png",
    }
}

/// The data URI of an image stored at `path` with content `bytes`.
pub open spec fn data_uri_spec(path: Seq<char>, bytes: Seq<u8>) -> Seq<char> {
    "data:"@ + mime_spec(path_extension(path)) + ";base64,"@ + b64_spec(bytes)
}

/// The data URI of an image stored at `path` with content `bytes`; the media
/// type comes from the file extension.
pub fn image_to_data_uri(path: &str, bytes: &[u8]) -> (r: String)
    ensures
        r@ == data_uri_spec(path@, bytes@),
{
    let ext = extension_of(path);
    let mime = match &ext {
        Some(e) => mime_for_extension(Some(e.as_str())),
        None => mime_for_extension(None),
    };
    let encoded = b64_encode(bytes);
    let mut v = crate::text::to_chars("data:");
    append_str(&mut v, mime);
    append_str(&mut v, ";base64,");
    append_str(&mut v, encoded.as_str());
    from_chars(&v)
}

// ─── Loading ─────────────────────────────────────────────────────────────────

/// What was read of the files a theme refers to: the stylesheets' text and
/// the background images' bytes, each absent when it could not be read.
#[derive(Debug)]
pub struct ThemeFiles {
    pub main_css: Option<String>,
    pub splash_css: Option<String>,
    pub main_bg: Option<Vec<u8>>,
    pub splash_bg: Option<Vec<u8>>,
}

/// The stylesheet text: what was read when the manifest names a stylesheet,
/// empty when it names none or it could not be read.
pub open spec fn css_text(named: Option<String>, read: Option<String>) -> Seq<char> {
    match (named, read) {
        (Some(_), Some(t)) => t@,
        _ => seq![],
    }
}

/// The background's data URI, when the manifest names one and it was read.
pub open spec fn bg_uri(theme_dir: Seq<char>, named: Option<String>, read: Option<Vec<u8>>) -> Option<
    Seq<char>,
> {
    match (named, read) {
        (Some(p), Some(b)) => Some(data_uri_spec(resolve_spec(theme_dir, p@), b@)),
        _ => None,
    }
}

fn css_text_exec(named: &Option<String>, read: Option<String>) -> (r: String)
    ensures
        r@ == css_text(*named, read),
{
    match (named, read) {
        (Some(_), Some(t)) => t,
        _ => String::new(),
    }
}

fn bg_uri_exec(theme_dir: &str, named: &Option<String>, read: &Option<Vec<u8>>) -> (r: Option<
    String,
>)
    ensures
        crate::keyed::opt_chars(r) == bg_uri(theme_dir@, *named, *read),
{
    match (named, read) {
        (Some(p), Some(b)) => {
            let full = resolve(theme_dir, p.as_str());
            Some(image_to_data_uri(full.as_str(), b.as_slice()))
        },
        _ => None,
    }
}

/// The full theme data (CSS and background images as data URIs) of the theme
/// in `{themes_dir}/{folder_name}` with manifest `meta`, from what was read of
/// its files.
pub fn load(themes_dir: &str, folder_name: &str, meta: ThemeMeta, files: ThemeFiles) -> (r:
    ThemeData)
    ensures
        r.folder_name@ == folder_name@,
        r.meta == meta,
        r.main_css@ == css_text(meta.main.css.main, files.main_css),
        r.splash_css@ == css_text(meta.splash.css.splash, files.splash_css),
        crate::keyed::opt_chars(r.main_bg_data_uri) == bg_uri(
            path_join(themes_dir@, folder_name@),
            meta.main.backgrounds.main,
            files.main_bg,
        ),
        crate::keyed::opt_chars(r.splash_bg_data_uri) == bg_uri(
            path_join(themes_dir@, folder_name@),
            meta.splash.backgrounds.splash,
            files.splash_bg,
        ),
{
    let dir = theme_dir(themes_dir, folder_name);
    let main_css = css_text_exec(&meta.main.css.main, files.main_css);
    let splash_css = css_text_exec(&meta.splash.css.splash, files.splash_css);
    let main_bg_data_uri = bg_uri_exec(dir.as_str(), &meta.main.backgrounds.main, &files.main_bg);
    let splash_bg_data_uri = bg_uri_exec(
        dir.as_str(),
        &meta.splash.backgrounds.splash,
        &files.splash_bg,
    );
    ThemeData {
        folder_name: String::from_str(folder_name),
        meta,
        main_css,
        splash_css,
        main_bg_data_uri,
        splash_bg_data_uri,
    }
}

/// The picker entry of the theme in `folder_name` with manifest `meta`.
pub fn theme_entry(folder_name: String, meta: ThemeMeta) -> (r: ThemeEntry)
    ensures
        r.folder_name == folder_name,
        r.display_name == meta.name,
        r.author == meta.author,
{
    ThemeEntry { folder_name, display_name: meta.name, author: meta.author }
}

// ─── Ordering of the theme list ──────────────────────────────────────────────

/// Where a theme folder sorts: `dark` first, `light` second, the rest after.
pub open spec fn theme_rank(folder: Seq<char>) -> int {
    if folder == "dark"@ {
        0
    } else if folder == "light"@ {
        1
    } else {
        2
    }
}

/// `a` comes strictly before `b` in lexicographic order of code points (the
/// order of `str`).
pub open spec fn chars_lt(a: Seq<char>, b: Seq<char>) -> bool
    decreases a.len(),
{
    if a.len() == 0 {
        b.len() > 0
    } else if b.len() == 0 {
        false
    } else if a[0] != b[0] {
        (a[0] as u32) < (b[0] as u32)
    } else {
        chars_lt(a.skip(1), b.skip(1))
    }
}

/// The picker order: by rank, then by folder name.
pub open spec fn entry_le(x: ThemeEntry, y: ThemeEntry) -> bool {
    let rx = theme_rank(x.folder_name@);
    let ry = theme_rank(y.folder_name@);
    rx < ry || (rx == ry && !chars_lt(y.folder_name@, x.folder_name@))
}

/// The entries are in picker order.
pub open spec fn entries_sorted(s: Seq<ThemeEntry>) -> bool {
    forall|i: int, j: int| 0 <= i < j < s.len() ==> entry_le(#[trigger] s[i], #[trigger] s[j])
}

proof fn lemma_chars_lt_irreflexive(a: Seq<char>)
    ensures
        !chars_lt(a, a),
    decreases a.len(),
{
    if a.len() > 0 {
        lemma_chars_lt_irreflexive(a.skip(1));
    }
}

proof fn lemma_chars_lt_asymmetric(a: Seq<char>, b: Seq<char>)
    ensures
        !(chars_lt(a, b) && chars_lt(b, a)),
    decreases a.len(),
{
    if a.len() > 0 && b.len() > 0 && a[0] == b[0] {
        lemma_chars_lt_asymmetric(a.skip(1), b.skip(1));
    }
}

proof fn lemma_chars_lt_transitive(a: Seq<char>, b: Seq<char>, c: Seq<char>)
    requires
        chars_lt(a, b),
        chars_lt(b, c),
    ensures
        chars_lt(a, c),
    decreases a.len(),
{
    if a.len() > 0 && b.len() > 0 && c.len() > 0 && a[0] == b[0] && b[0] == c[0] {
        lemma_chars_lt_transitive(a.skip(1), b.skip(1), c.skip(1));
    }
}

proof fn lemma_chars_lt_total(a: Seq<char>, b: Seq<char>)
    requires
        a != b,
    ensures
        chars_lt(a, b) || chars_lt(b, a),
    decreases a.len(),
{
    if a.len() > 0 && b.len() > 0 && a[0] == b[0] {
        if a.skip(1) == b.skip(1) {
            assert(a =~= seq![a[0]] + a.skip(1));
            assert(b =~= seq![b[0]] + b.skip(1));
            assert(a == b);
        }
        lemma_chars_lt_total(a.skip(1), b.skip(1));
    } else if a.len() == 0 && b.len() == 0 {
        assert(a =~= b);
    } else if a.len() > 0 && b.len() > 0 {
        vstd::utf8::char_u32_cast(a[0], a[0] as u32);
        vstd::utf8::char_u32_cast(b[0], b[0] as u32);
    }
}

/// The picker order is total.
pub proof fn lemma_entry_le_total(x: ThemeEntry, y: ThemeEntry)
    ensures
        entry_le(x, y) || entry_le(y, x),
{
    lemma_chars_lt_asymmetric(x.folder_name@, y.folder_name@);
}

/// The picker order is transitive.
pub proof fn lemma_entry_le_transitive(x: ThemeEntry, y: ThemeEntry, z: ThemeEntry)
    requires
        entry_le(x, y),
        entry_le(y, z),
    ensures
        entry_le(x, z),
{
    let a = x.folder_name@;
    let b = y.folder_name@;
    let c = z.folder_name@;
    if theme_rank(a) == theme_rank(b) && theme_rank(b) == theme_rank(c) {
        if chars_lt(c, a) {
            if a == b {
                if b != c {
                    lemma_chars_lt_total(b, c);
                    lemma_chars_lt_asymmetric(a, c);
                } else {
                    lemma_chars_lt_irreflexive(a);
                }
            } else {
                lemma_chars_lt_total(a, b);
                if b == c {
                    lemma_chars_lt_asymmetric(a, c);
                } else {
                    lemma_chars_lt_total(b, c);
                    lemma_chars_lt_transitive(a, b, c);
                    lemma_chars_lt_asymmetric(a, c);
                }
            }
        }
    }
}

fn chars_lt_exec(a: &[char], b: &[char]) -> (r: bool)
    ensures
        r == chars_lt(a@, b@),
{
    let na = a.len();
    let nb = b.len();
    let mut i: usize = 0;
    assert(a@.skip(0) == a@ && b@.skip(0) == b@);
    while i < na && i < nb
        invariant
            na == a@.len(),
            nb == b@.len(),
            i <= na,
            i <= nb,
            chars_lt(a@, b@) == chars_lt(a@.skip(i as int), b@.skip(i as int)),
        decreases na - i,
    {
        assert(a@.skip(i as int)[0] == a@[i as int]);
        assert(b@.skip(i as int)[0] == b@[i as int]);
        assert(a@.skip(i as int).skip(1) == a@.skip(i + 1));
        assert(b@.skip(i as int).skip(1) == b@.skip(i + 1));
        if a[i] != b[i] {
            return (a[i] as u32) < (b[i] as u32);
        }
        i = i + 1;
    }
    if i == na {
        i < nb
    } else {
        false
    }
}

fn theme_rank_exec(folder: &str) -> (r: u8)
    ensures
        r as int == theme_rank(folder@),
{
    if str_eq(folder, "dark") {
        0
    } else if str_eq(folder, "light") {
        1
    } else {
        2
    }
}

fn entry_le_exec(x: &ThemeEntry, y: &ThemeEntry) -> (r: bool)
    ensures
        r == entry_le(*x, *y),
{
    let rx = theme_rank_exec(x.folder_name.as_str());
    let ry = theme_rank_exec(y.folder_name.as_str());
    if rx < ry {
        true
    } else if rx == ry {
        let a = crate::text::to_chars(x.folder_name.as_str());
        let b = crate::text::to_chars(y.folder_name.as_str());
        !chars_lt_exec(&b, &a)
    } else {
        false
    }
}

/// The entries whose folder is `f`.
pub open spec fn with_folder(f: Seq<char>) -> spec_fn(ThemeEntry) -> bool {
    |x: ThemeEntry| x.folder_name@ == f
}

proof fn lemma_insert_after_other_folders(out: Seq<ThemeEntry>, k: int, x: ThemeEntry, f: Seq<char>)
    requires
        0 <= k <= out.len(),
        forall|m: int| 0 <= m < k ==> (#[trigger] out[m]).folder_name@ != x.folder_name@,
    ensures
        out.insert(k, x).filter(with_folder(f)) == (seq![x] + out).filter(with_folder(f)),
{
    let p = with_folder(f);
    let a = out.take(k);
    let b = out.skip(k);
    assert(out.insert(k, x) == a + (seq![x] + b));
    assert(out == a + b);
    assert(seq![x] + out == seq![x] + a + b);
    Seq::filter_distributes_over_add(a, seq![x] + b, p);
    Seq::filter_distributes_over_add(seq![x] + a, b, p);
    Seq::filter_distributes_over_add(a, b, p);
    a.lemma_filter_prepend(x, p);
    b.lemma_filter_prepend(x, p);
    if p(x) {
        assert forall|m: int| 0 <= m < a.len() implies !p(#[trigger] a[m]) by {
            assert(a[m] == out[m]);
        }
        assert(a.all(|y: ThemeEntry| !p(y)));
        a.lemma_all_neg_filter_empty(p);
        assert(a.filter(p) =~= Seq::<ThemeEntry>::empty());
    }
}

/// Puts theme entries in picker order (`dark`, `light`, then the others by
/// folder name); entries with the same folder keep their relative order.
pub fn sort_theme_entries(entries: Vec<ThemeEntry>) -> (r: Vec<ThemeEntry>)
    ensures
        r@.to_multiset() == entries@.to_multiset(),
        entries_sorted(r@),
        forall|f: Seq<char>| #[trigger] r@.filter(with_folder(f)) == entries@.filter(with_folder(f)),
{
    let ghost whole = entries@;
    proof {
        whole.to_multiset_ensures();
        Seq::<ThemeEntry>::empty().to_multiset_ensures();
        vstd::multiset::lemma_multiset_empty_len(Seq::<ThemeEntry>::empty().to_multiset());
        assert(whole.to_multiset() =~= whole.to_multiset().add(Seq::<ThemeEntry>::empty().to_multiset()));
    }
    let mut rest = entries;
    let mut out: Vec<ThemeEntry> = Vec::new();
    proof {
        assert(whole.take(whole.len() as int) == whole);
        assert(whole.skip(whole.len() as int) =~= Seq::<ThemeEntry>::empty());
        assert forall|f: Seq<char>|
            #[trigger] out@.filter(with_folder(f)) == whole.skip(whole.len() as int).filter(
                with_folder(f),
            ) by {
            reveal(Seq::filter);
        }
    }
    // Take the entries from the back and insert each before the first entry
    // that does not sort strictly before it.
    while rest.len() > 0
        invariant
            whole.to_multiset() == rest@.to_multiset().add(out@.to_multiset()),
            entries_sorted(out@),
            rest@.len() <= whole.len(),
            rest@ == whole.take(rest@.len() as int),
            forall|f: Seq<char>|
                #[trigger] out@.filter(with_folder(f)) == whole.skip(rest@.len() as int).filter(
                    with_folder(f),
                ),
        decreases rest.len(),
    {
        let ghost rest_before = rest@;
        let x = rest.pop().unwrap();
        assert(rest_before == rest@.push(x));
        let n = out.len();
        let mut k: usize = 0;
        while k < n && !entry_le_exec(&x, &out[k])
            invariant
                n == out@.len(),
                k <= n,
                forall|m: int| 0 <= m < k ==> !entry_le(x, #[trigger] out@[m]),
            decreases n - k,
        {
            k = k + 1;
        }
        let ghost out_before = out@;
        proof {
            assert forall|m: int| 0 <= m < k implies entry_le(#[trigger] out_before[m], x) by {
                lemma_entry_le_total(out_before[m], x);
            }
            assert forall|m: int| 0 <= m < k implies (#[trigger] out_before[m]).folder_name@
                != x.folder_name@ by {
                if out_before[m].folder_name@ == x.folder_name@ {
                    lemma_chars_lt_irreflexive(x.folder_name@);
                }
            }
            assert forall|m: int| k <= m < n implies entry_le(x, #[trigger] out_before[m]) by {
                if m > k {
                    lemma_entry_le_transitive(x, out_before[k as int], out_before[m]);
                }
            }
        }
        out.insert(k, x);
        proof {
            let s = out@;
            assert(s == out_before.insert(k as int, x));
            assert forall|i: int, j: int| 0 <= i < j < s.len() implies entry_le(
                #[trigger] s[i],
                #[trigger] s[j],
            ) by {
                if j < k {
                    assert(s[i] == out_before[i] && s[j] == out_before[j]);
                } else if j == k {
                    assert(s[i] == out_before[i]);
                } else if i < k {
                    assert(s[i] == out_before[i] && s[j] == out_before[j - 1]);
                    lemma_entry_le_transitive(s[i], x, s[j]);
                } else if i == k {
                    assert(s[j] == out_before[j - 1]);
                } else {
                    assert(s[i] == out_before[i - 1] && s[j] == out_before[j - 1]);
                }
            }
            assert(s.remove(k as int) == out_before);
            assert(s[k as int] == x);
            s.to_multiset_ensures();
            rest@.to_multiset_ensures();
            assert(s.remove(k as int).to_multiset() == s.to_multiset().remove(s[k as int]));
            assert(out_before.to_multiset() == s.to_multiset().remove(x));
            assert(s.to_multiset().count(x) > 0) by {
                assert(s.contains(x));
            }
            assert(s.to_multiset() =~= out_before.to_multiset().insert(x));
            assert(rest_before.to_multiset() == rest@.to_multiset().insert(x));
            assert(whole.to_multiset() =~= rest@.to_multiset().add(out@.to_multiset()));
            let len = rest@.len() as int;
            assert(rest_before == whole.take(len + 1));
            assert(rest_before[len] == x);
            assert(x == whole[len]);
            assert(rest@ =~= whole.take(len));
            assert(whole.skip(len) =~= seq![x] + whole.skip(len + 1));
            assert forall|f: Seq<char>|
                #[trigger] out@.filter(with_folder(f)) == whole.skip(len).filter(with_folder(f)) by {
                lemma_insert_after_other_folders(out_before, k as int, x, f);
                Seq::filter_distributes_over_add(seq![x], out_before, with_folder(f));
                Seq::filter_distributes_over_add(seq![x], whole.skip(len + 1), with_folder(f));
            }
        }
    }
    proof {
        rest@.to_multiset_ensures();
        vstd::multiset::lemma_multiset_empty_len(rest@.to_multiset());
    }
    assert(rest@.to_multiset() =~= vstd::multiset::Multiset::empty());
    assert(whole.to_multiset() =~= out@.to_multiset());
    assert(whole.skip(0) == whole);
    out
}

/// In picker order a `dark` theme, when there is one, comes first, and a
/// `light` theme comes before every theme that is neither.
pub proof fn lemma_built_in_themes_first(s: Seq<ThemeEntry>)
    requires
        entries_sorted(s),
    ensures
        (exists|i: int| 0 <= i < s.len() && (#[trigger] s[i]).folder_name@ == "dark"@)
            ==> s[0].folder_name@ == "dark"@,
        forall|i: int, j: int|
            0 <= i < j < s.len() && (#[trigger] s[j]).folder_name@ == "light"@ ==> {
                let a = (#[trigger] s[i]).folder_name@;
                a == "dark"@ || a == "light"@
            },
{
    if exists|i: int| 0 <= i < s.len() && (#[trigger] s[i]).folder_name@ == "dark"@ {
        let i = choose|i: int| 0 <= i < s.len() && (#[trigger] s[i]).folder_name@ == "dark"@;
        if i > 0 {
            assert(entry_le(s[0], s[i]));
        }
    }
    assert forall|i: int, j: int|
        0 <= i < j < s.len() && (#[trigger] s[j]).folder_name@ == "light"@ implies {
            let a = (#[trigger] s[i]).folder_name@;
            a == "dark"@ || a == "light"@
        } by {
        assert(entry_le(s[i], s[j]));
    }
}

} // verus!
