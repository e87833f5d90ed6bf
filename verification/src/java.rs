//! Where to look for a Java runtime.
use vstd::prelude::*;
use crate::text::str_eq;

verus! {

/// The places a Java runtime is looked for on the system named `os_name`
/// (`windows`, `osx`, or any other for Linux), in order.
pub open spec fn java_candidates_spec(os_name: Seq<char>) -> Seq<Seq<char>> {
    if os_name == "windows"@ {
        seq![
            "java"@,
            "C:\\Program Files\\Eclipse Adoptium\\jdk-21\\bin\\java.exe"@,
            "C:\\Program Files\\Java\\jdk-21\\bin\\java.exe"@,
        ]
    } else if os_name == "osx"@ {
        seq![
            "java"@,
            "/usr/bin/java"@,
            "/Library/Java/JavaVirtualMachines/temurin-21.jdk/Contents/Home/bin/java"@,
        ]
    } else {
        seq![
            "java"@,
            "/usr/bin/java"@,
            "/usr/lib/jvm/java-21-openjdk/bin/java"@,
            "/usr/lib/jvm/java-21-openjdk-amd64/bin/java"@,
            "/usr/lib/jvm/java-17-openjdk/bin/java"@,
        ]
    }
}

/// The places a Java runtime is looked for on the system named `os_name`.
pub fn java_candidates(os_name: &str) -> (r: Vec<&'static str>)
    ensures
        r@.map_values(|s: &'static str| s@) == java_candidates_spec(os_name@),
{
    let mut v: Vec<&'static str> = Vec::new();
    if str_eq(os_name, "windows") {
        v.push("java");
        v.push("C:\\Program Files\\Eclipse Adoptium\\jdk-21\\bin\\java.exe");
        v.push("C:\\Program Files\\Java\\jdk-21\\bin\\java.exe");
    } else if str_eq(os_name, "osx") {
        v.push("java");
        v.push("/usr/bin/java");
        v.push("/Library/Java/JavaVirtualMachines/temurin-21.jdk/Contents/Home/bin/java");
    } else {
        v.push("java");
        v.push("/usr/bin/java");
        v.push("/usr/lib/jvm/java-21-openjdk/bin/java");
        v.push("/usr/lib/jvm/java-21-openjdk-amd64/bin/java");
        v.push("/usr/lib/jvm/java-17-openjdk/bin/java");
    }
    assert(v@.map_values(|s: &'static str| s@) =~= java_candidates_spec(os_name@));
    v
}

/// A candidate counts as a Java runtime when running it with `-version`
/// succeeded or printed something on its error stream.
pub fn java_responds(exit_success: bool, stderr_len: usize) -> (r: bool)
    ensures
        r == (exit_success || stderr_len > 0),
{
    exit_success || stderr_len > 0
}

/// `s` ends with `suffix`.
pub open spec fn ends_with(s: Seq<char>, suffix: Seq<char>) -> bool {
    s.len() >= suffix.len() && s.skip(s.len() - suffix.len()) == suffix
}

/// `p` is an absolute path to the `java` launcher in a `bin` directory:
/// `C:\…\bin\java.exe` on Windows, `/…/bin/java` elsewhere.
pub open spec fn is_java_launcher_path(p: Seq<char>, windows: bool) -> bool {
    if windows {
        p.len() >= 3 && p.take(3) == "C:\\"@ && ends_with(p, "\\bin\\java.exe"@)
    } else {
        p.len() >= 1 && p[0] == '/' && ends_with(p, "/bin/java"@)
    }
}

/// The places looked at for a Java runtime: first `java` as found through
/// `PATH`, then absolute paths to the `java` launcher inside `bin`
/// directories of installed runtimes, none of them twice.
pub proof fn lemma_java_candidates_are_launchers(os_name: Seq<char>)
    ensures
        java_candidates_spec(os_name).len() > 1,
        java_candidates_spec(os_name)[0] == "java"@,
        forall|i: int|
            1 <= i < java_candidates_spec(os_name).len() ==> is_java_launcher_path(
                #[trigger] java_candidates_spec(os_name)[i],
                os_name == "windows"@,
            ),
        forall|i: int, j: int|
            0 <= i < j < java_candidates_spec(os_name).len() ==> #[trigger] java_candidates_spec(
                os_name,
            )[i] != #[trigger] java_candidates_spec(os_name)[j],
{
    reveal_strlit("java");
    reveal_strlit("C:\\");
    reveal_strlit("\\bin\\java.exe");
    reveal_strlit("/bin/java");
    reveal_strlit("C:\\Program Files\\Eclipse Adoptium\\jdk-21\\bin\\java.exe");
    reveal_strlit("C:\\Program Files\\Java\\jdk-21\\bin\\java.exe");
    reveal_strlit("/usr/bin/java");
    reveal_strlit("/Library/Java/JavaVirtualMachines/temurin-21.jdk/Contents/Home/bin/java");
    reveal_strlit("/usr/lib/jvm/java-21-openjdk/bin/java");
    reveal_strlit("/usr/lib/jvm/java-21-openjdk-amd64/bin/java");
    reveal_strlit("/usr/lib/jvm/java-17-openjdk/bin/java");
    let c = java_candidates_spec(os_name);
    assert forall|i: int| 1 <= i < c.len() implies is_java_launcher_path(
        #[trigger] c[i],
        os_name == "windows"@,
    ) by {
        let p = c[i];
        if os_name == "windows"@ {
            assert(p.take(3) =~= "C:\\"@);
            assert(p.skip(p.len() - 13) =~= "\\bin\\java.exe"@);
        } else {
            assert(p.skip(p.len() - 9) =~= "/bin/java"@);
        }
    }
    assert forall|i: int, j: int| 0 <= i < j < c.len() implies #[trigger] c[i] != #[trigger] c[j] by {
        if c[i].len() == c[j].len() {
            if os_name == "windows"@ {
                assert(c[i][17] != c[j][17]);
            } else if os_name == "osx"@ {
                assert(false);
            } else {
                assert(c[i][18] != c[j][18]);
            }
        }
    }
}

} // verus!
