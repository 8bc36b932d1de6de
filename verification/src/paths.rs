//! The directories GlimaNexus manages on a server and the checks that keep a
//! destructive command (`rm -rf`, restoring a backup) or a directory listing
//! inside one instance's own files.
use vstd::prelude::*;
use crate::text::{
    chars_of, contains, contains_seq, ends_with, has_suffix, occurs_at, push_str, starts_with, str_eq,
    string_of,
};

verus! {

/// Name for what `format!("{:?}", s)` writes for a string `s`: the string in
/// double quotes with quotes, backslashes and unprintable characters
/// escaped.
pub uninterp spec fn debug_quoted(s: Seq<char>) -> Seq<char>;

/// The `Debug` rendering of a string (std's `<str as Debug>::fmt`), as used
/// in error messages. The contract names the result and says no more: the
/// escaping rules are std's.
#[verifier::external_body]
pub(crate) fn debug_quote(s: &str) -> (r: String)
    ensures
        r@ == debug_quoted(s@),
{
    format!("{s:?}")
}

/// Root of all instance install directories.
pub open spec fn instances_root() -> Seq<char> {
    "/home/gameserver/instances/"@
}

/// Root of all instance backup directories.
pub open spec fn backups_root() -> Seq<char> {
    "/home/gameserver/backups/"@
}

/// An instance id that browsing and listing accept: not empty, no `/`, no
/// `..`.
pub open spec fn instance_id_ok(instance_id: Seq<char>) -> bool {
    &&& instance_id.len() > 0
    &&& !contains_seq(instance_id, "/"@)
    &&& !contains_seq(instance_id, ".."@)
}

/// An instance id whose directory may be deleted: one that names exactly
/// one directory below the root, so also no `.` at all (neither `.` nor
/// `..` nor anything that looks like a file name).
pub open spec fn plain_instance_id(instance_id: Seq<char>) -> bool {
    &&& instance_id_ok(instance_id)
    &&& !contains_seq(instance_id, "."@)
}

/// The error for an instance id that is refused.
pub open spec fn bad_instance_id_text(instance_id: Seq<char>) -> Seq<char> {
    "Ungültige instance_id: "@ + debug_quoted(instance_id)
}

/// The outcome of checking an instance id.
pub open spec fn instance_id_check(instance_id: Seq<char>) -> Result<(), Seq<char>> {
    if instance_id_ok(instance_id) {
        Ok(())
    } else {
        Err(bad_instance_id_text(instance_id))
    }
}

/// Checks that `instance_id` names one directory and nothing wider.
pub fn check_instance_id(instance_id: &str) -> (r: Result<(), String>)
    ensures
        match r {
            Ok(()) => instance_id_check(instance_id@) is Ok,
            Err(m) => instance_id_check(instance_id@) == Err::<(), Seq<char>>(m@),
        },
{
    let id = chars_of(instance_id);
    let slash = chars_of("/");
    let dots = chars_of("..");
    if id.len() == 0 || contains(&id, &slash) || contains(&id, &dots) {
        let mut m: Vec<char> = Vec::new();
        push_str(&mut m, "Ungültige instance_id: ");
        let q = debug_quote(instance_id);
        push_str(&mut m, q.as_str());
        return Err(string_of(&m));
    }
    Ok(())
}

/// The outcome of checking that `install_path` is exactly the install
/// directory of a well-formed `instance_id`.
pub open spec fn instance_path_check(install_path: Seq<char>, instance_id: Seq<char>) -> Result<
    (),
    Seq<char>,
> {
    let expected = instances_root() + instance_id;
    if !plain_instance_id(instance_id) {
        Err(bad_instance_id_text(instance_id))
    } else if install_path != expected {
        Err(
            "Install-Pfad passt nicht zur Instanz-ID, breche Löschung ab (erwartet "@
                + debug_quoted(expected) + ", erhalten "@ + debug_quoted(install_path) + ")"@,
        )
    } else {
        Ok(())
    }
}

/// Guards against ever running `rm -rf` on something wider than a single instance's own
/// directory - e.g. an empty/truncated path that resolves to the shared instances root.
/// The path must be exactly `/home/gameserver/instances/<instance_id>` with a non-empty,
/// slash-free, dot-free instance_id, so a malformed or missing id can never widen the blast
/// radius to "delete everything installed on the server".
pub fn validate_instance_path(install_path: &str, instance_id: &str) -> (r: Result<(), String>)
    ensures
        match r {
            Ok(()) => instance_path_check(install_path@, instance_id@) is Ok,
            Err(m) => instance_path_check(install_path@, instance_id@) == Err::<(), Seq<char>>(m@),
        },
{
    let id = chars_of(instance_id);
    let slash = chars_of("/");
    let dot = chars_of(".");
    if id.len() == 0 || contains(&id, &slash) || contains(&id, &dot) {
        let mut m: Vec<char> = Vec::new();
        push_str(&mut m, "Ungültige instance_id: ");
        let q = debug_quote(instance_id);
        push_str(&mut m, q.as_str());
        proof {
            reveal_strlit(".");
            reveal_strlit("..");
            if contains_seq(instance_id@, ".."@) {
                let i = choose|i: int| occurs_at(instance_id@, ".."@, i);
                assert(instance_id@.subrange(i, i + 1) =~= "."@);
                assert(occurs_at(instance_id@, "."@, i));
            }
        }
        return Err(string_of(&m));
    }
    proof {
        reveal_strlit(".");
        reveal_strlit("..");
        if contains_seq(instance_id@, ".."@) {
            let i = choose|i: int| occurs_at(instance_id@, ".."@, i);
            assert(instance_id@.subrange(i, i + 1) =~= instance_id@.subrange(i, i + 2).subrange(0, 1));
            assert(instance_id@.subrange(i, i + 1) =~= "."@);
            assert(occurs_at(instance_id@, "."@, i));
        }
    }
    let mut expected: Vec<char> = Vec::new();
    push_str(&mut expected, "/home/gameserver/instances/");
    push_str(&mut expected, instance_id);
    let expected = string_of(&expected);
    if !str_eq(install_path, expected.as_str()) {
        let mut m: Vec<char> = Vec::new();
        push_str(&mut m, "Install-Pfad passt nicht zur Instanz-ID, breche Löschung ab (erwartet ");
        let q = debug_quote(expected.as_str());
        push_str(&mut m, q.as_str());
        push_str(&mut m, ", erhalten ");
        let q = debug_quote(install_path);
        push_str(&mut m, q.as_str());
        push_str(&mut m, ")");
        return Err(string_of(&m));
    }
    Ok(())
}

/// The outcome of resolving which directory of an instance may be browsed:
/// `"install"` is its install directory, `"backups"` its backup directory,
/// anything else is refused.
pub open spec fn browsable_path(instance_id: Seq<char>, target: Seq<char>) -> Result<
    Seq<char>,
    Seq<char>,
> {
    if !instance_id_ok(instance_id) {
        Err(bad_instance_id_text(instance_id))
    } else if target == "install"@ {
        Ok(instances_root() + instance_id)
    } else if target == "backups"@ {
        Ok(backups_root() + instance_id)
    } else {
        Err("Unbekanntes Verzeichnis: "@ + debug_quoted(target))
    }
}

/// Only ever lets the two directories actually managed for an instance be browsed - never
/// an arbitrary path - since `target` comes straight from the frontend.
pub fn resolve_browsable_path(instance_id: &str, target: &str) -> (r: Result<String, String>)
    ensures
        match r {
            Ok(p) => browsable_path(instance_id@, target@) == Ok::<Seq<char>, Seq<char>>(p@),
            Err(m) => browsable_path(instance_id@, target@) == Err::<Seq<char>, Seq<char>>(m@),
        },
{
    match check_instance_id(instance_id) {
        Err(m) => {
            return Err(m);
        },
        Ok(()) => {},
    }
    let mut p: Vec<char> = Vec::new();
    if str_eq(target, "install") {
        push_str(&mut p, "/home/gameserver/instances/");
        push_str(&mut p, instance_id);
        Ok(string_of(&p))
    } else if str_eq(target, "backups") {
        push_str(&mut p, "/home/gameserver/backups/");
        push_str(&mut p, instance_id);
        Ok(string_of(&p))
    } else {
        push_str(&mut p, "Unbekanntes Verzeichnis: ");
        let q = debug_quote(target);
        push_str(&mut p, q.as_str());
        Err(string_of(&p))
    }
}

/// A backup file name: not empty, no `/`, no `..`, ending in `.tar.gz`.
pub open spec fn backup_filename_ok(name: Seq<char>) -> bool {
    &&& name.len() > 0
    &&& !contains_seq(name, "/"@)
    &&& !contains_seq(name, ".."@)
    &&& ends_with(name, ".tar.gz"@)
}

/// The outcome of checking a backup file name.
pub open spec fn backup_filename_check(name: Seq<char>) -> Result<(), Seq<char>> {
    if backup_filename_ok(name) {
        Ok(())
    } else {
        Err("Ungültiger Backup-Dateiname: "@ + debug_quoted(name))
    }
}

/// Checks that a backup file name names one archive inside an instance's
/// backup directory.
pub fn validate_backup_filename(name: &str) -> (r: Result<(), String>)
    ensures
        match r {
            Ok(()) => backup_filename_check(name@) is Ok,
            Err(m) => backup_filename_check(name@) == Err::<(), Seq<char>>(m@),
        },
{
    let n = chars_of(name);
    let slash = chars_of("/");
    let dots = chars_of("..");
    let ext = chars_of(".tar.gz");
    if n.len() == 0 || contains(&n, &slash) || contains(&n, &dots) || !has_suffix(&n, &ext) {
        let mut m: Vec<char> = Vec::new();
        push_str(&mut m, "Ungültiger Backup-Dateiname: ");
        let q = debug_quote(name);
        push_str(&mut m, q.as_str());
        return Err(string_of(&m));
    }
    Ok(())
}

/// The backup name check refuses exactly the names that could leave the
/// backup directory or are no `.tar.gz` archive: a name is accepted if and
/// only if it is not empty, no character of it is `/`, no two adjacent
/// characters are both `.`, and it ends in `.tar.gz`; further dots, as in
/// `survival.v2.tar.gz`, are fine.
pub proof fn lemma_backup_filename_accepts(name: Seq<char>)
    ensures
        (backup_filename_check(name) is Ok) <==> (name.len() > 0 && (forall|i: int|
            0 <= i < name.len() ==> name[i] != '/') && (forall|i: int|
            0 <= i < name.len() - 1 ==> !(#[trigger] name[i] == '.' && name[i + 1] == '.')) && name.len()
            >= 7 && name.subrange(name.len() - 7, name.len() as int) == ".tar.gz"@),
{
    reveal_strlit("/");
    reveal_strlit("..");
    reveal_strlit(".tar.gz");
    assert(contains_seq(name, "/"@) <==> exists|i: int| 0 <= i < name.len() && name[i] == '/') by {
        if contains_seq(name, "/"@) {
            let i = choose|i: int| occurs_at(name, "/"@, i);
            assert(name.subrange(i, i + 1)[0] == name[i]);
        }
        if exists|i: int| 0 <= i < name.len() && name[i] == '/' {
            let i = choose|i: int| 0 <= i < name.len() && name[i] == '/';
            assert(name.subrange(i, i + 1) =~= "/"@);
            assert(occurs_at(name, "/"@, i));
        }
    }
    assert(contains_seq(name, ".."@) <==> exists|i: int|
        0 <= i < name.len() - 1 && #[trigger] name[i] == '.' && name[i + 1] == '.') by {
        if contains_seq(name, ".."@) {
            let i = choose|i: int| occurs_at(name, ".."@, i);
            assert(name.subrange(i, i + 2)[0] == name[i]);
            assert(name.subrange(i, i + 2)[1] == name[i + 1]);
        }
        if exists|i: int| 0 <= i < name.len() - 1 && #[trigger] name[i] == '.' && name[i + 1] == '.' {
            let i = choose|i: int| 0 <= i < name.len() - 1 && #[trigger] name[i] == '.' && name[i + 1] == '.';
            assert(name.subrange(i, i + 2) =~= ".."@);
            assert(occurs_at(name, ".."@, i));
        }
    }
}

/// The install directory that browsing offers for an instance with a plain
/// id (no `.`) is one that the path check accepts for it, so the same id
/// leads to the same directory everywhere.
pub proof fn lemma_browsable_install_dir_is_valid(instance_id: Seq<char>)
    requires
        plain_instance_id(instance_id),
    ensures
        browsable_path(instance_id, "install"@) is Ok,
        instance_path_check(browsable_path(instance_id, "install"@)->Ok_0, instance_id) is Ok,
{
}

/// The path check accepts an install path for exactly one instance id, the
/// last component of the path.
pub proof fn lemma_instance_path_determines_id(path: Seq<char>, a: Seq<char>, b: Seq<char>)
    requires
        instance_path_check(path, a) is Ok,
        instance_path_check(path, b) is Ok,
    ensures
        a == b,
{
    assert(a =~= path.skip(instances_root().len() as int));
    assert(b =~= path.skip(instances_root().len() as int));
}


/// A path the check accepts is one directory strictly below the instances
/// root, never the root itself or anything beside or above it: what follows
/// the root is non-empty, holds no `/` and no `.`, and so is neither `.` nor
/// `..`.
pub proof fn lemma_checked_path_is_one_instance_dir(path: Seq<char>, instance_id: Seq<char>)
    requires
        instance_path_check(path, instance_id) is Ok,
    ensures
        path.len() > instances_root().len(),
        starts_with(path, instances_root()),
        !contains_seq(path.skip(instances_root().len() as int), "/"@),
        !contains_seq(path.skip(instances_root().len() as int), "."@),
        path.skip(instances_root().len() as int) != "."@,
        path.skip(instances_root().len() as int) != ".."@,
{
    reveal_strlit(".");
    reveal_strlit("..");
    let rest = path.skip(instances_root().len() as int);
    assert(path.subrange(0, instances_root().len() as int) =~= instances_root());
    assert(rest =~= instance_id);
    if rest == "."@ || rest == ".."@ {
        assert(rest.subrange(0, 1) =~= "."@);
        assert(occurs_at(rest, "."@, 0));
    }
}

/// The install directory of every plain instance id passes the path check
/// for that id, so deleting, backing up and restoring accept every instance
/// that installing creates.
pub proof fn lemma_instance_dir_passes_check(instance_id: Seq<char>)
    requires
        plain_instance_id(instance_id),
    ensures
        instance_path_check(instances_root() + instance_id, instance_id) is Ok,
{
}

} // verus!
