//! The shell commands GlimaNexus runs on a managed server over SSH, built
//! from the ids and paths they act on.
use vstd::prelude::*;
use crate::games::{GameTemplate, rendered_step, render_step, shell_quoted, shell_single_quote};
use crate::paths::{backup_filename_ok, backups_root, instances_root};
use crate::text::{
    chars_of, contains_seq, ends_with, find_char_from, index_of, is_digit, lemma_index_of, occurs_at,
    push_str, slice_of, string_of,
};

verus! {

/// A string holding `s`.
fn text(s: &str) -> (r: String)
    ensures
        r@ == s@,
{
    string_of(&chars_of(s))
}

/// The query for the OS name of a newly added server.
pub fn os_release_command() -> (r: String)
    ensures
        r@ == "grep PRETTY_NAME /etc/os-release | cut -d'\"' -f2"@,
{
    text("grep PRETTY_NAME /etc/os-release | cut -d'\"' -f2")
}

/// Reboots the server.
pub fn reboot_command() -> (r: String)
    ensures
        r@ == "sudo reboot"@,
{
    text("sudo reboot")
}

/// The three hardware queries: CPU use in percent, "used total" memory in
/// MB, "used total" root-disk space in GB.
pub fn hardware_commands() -> (r: (String, String, String))
    ensures
        r.0@ == "top -bn1 | grep 'Cpu(s)' | awk '{print $2}'"@,
        r.1@ == "free -m | awk '/Mem:/ {print $3\" \"$2}'"@,
        r.2@ == "df -BG / | awk 'NR==2 {gsub(\"G\",\"\"); print $3\" \"$2}'"@,
{
    (
        text("top -bn1 | grep 'Cpu(s)' | awk '{print $2}'"),
        text("free -m | awk '/Mem:/ {print $3\" \"$2}'"),
        text("df -BG / | awk 'NR==2 {gsub(\"G\",\"\"); print $3\" \"$2}'"),
    )
}

/// The install directory of an instance.
pub fn instance_dir(instance_id: &str) -> (r: String)
    ensures
        r@ == instances_root() + instance_id@,
{
    let mut out: Vec<char> = Vec::new();
    push_str(&mut out, "/home/gameserver/instances/");
    push_str(&mut out, instance_id);
    string_of(&out)
}

/// The backup directory of an instance.
pub fn backup_dir(instance_id: &str) -> (r: String)
    ensures
        r@ == backups_root() + instance_id@,
{
    let mut out: Vec<char> = Vec::new();
    push_str(&mut out, "/home/gameserver/backups/");
    push_str(&mut out, instance_id);
    string_of(&out)
}

/// `dir/name`.
pub fn join_path(dir: &str, name: &str) -> (r: String)
    ensures
        r@ == dir@ + "/"@ + name@,
{
    let mut out: Vec<char> = Vec::new();
    push_str(&mut out, dir);
    push_str(&mut out, "/");
    push_str(&mut out, name);
    string_of(&out)
}

/// Creates `dir` owned by the `gameserver` user.
pub open spec fn make_owned_dir_text(dir: Seq<char>) -> Seq<char> {
    "sudo mkdir -p "@ + dir + " && sudo chown gameserver:gameserver "@ + dir
}

/// The command creating an instance's install directory, owned by
/// `gameserver`, before the install steps run.
pub fn make_owned_dir_command(dir: &str) -> (r: String)
    ensures
        r@ == make_owned_dir_text(dir@),
{
    let mut out: Vec<char> = Vec::new();
    push_str(&mut out, "sudo mkdir -p ");
    push_str(&mut out, dir);
    push_str(&mut out, " && sudo chown gameserver:gameserver ");
    push_str(&mut out, dir);
    string_of(&out)
}

/// Runs `script` as the `gameserver` user.
pub open spec fn as_gameserver_text(script: Seq<char>) -> Seq<char> {
    "sudo -u gameserver bash -c "@ + shell_quoted(script)
}

/// The commands of a template's install steps for an instance, in order:
/// each step rendered for the instance and run as `gameserver`.
pub fn install_step_commands(template: &GameTemplate, instance_id: &str, ram_limit_mb: u32) -> (r: Vec<String>)
    ensures
        r@.len() == template.install.steps@.len(),
        forall|i: int|
            0 <= i < r@.len() ==> (#[trigger] r@[i])@ == as_gameserver_text(
                rendered_step(template.install.steps@[i]@, instance_id@, ram_limit_mb),
            ),
{
    let mut out: Vec<String> = Vec::new();
    let mut i: usize = 0;
    while i < template.install.steps.len()
        invariant
            i <= template.install.steps@.len(),
            out@.len() == i,
            forall|k: int|
                0 <= k < i ==> (#[trigger] out@[k])@ == as_gameserver_text(
                    rendered_step(template.install.steps@[k]@, instance_id@, ram_limit_mb),
                ),
        decreases template.install.steps@.len() - i,
    {
        let rendered = render_step(template.install.steps[i].as_str(), instance_id, ram_limit_mb);
        let quoted = shell_single_quote(rendered.as_str());
        let mut cmd: Vec<char> = Vec::new();
        push_str(&mut cmd, "sudo -u gameserver bash -c ");
        push_str(&mut cmd, quoted.as_str());
        out.push(string_of(&cmd));
        i = i + 1;
    }
    out
}

/// The systemd unit name of an instance.
pub fn unit_name_for(instance_id: &str) -> (r: String)
    ensures
        r@ == "novanexus-"@ + instance_id@,
{
    let mut out: Vec<char> = Vec::new();
    push_str(&mut out, "novanexus-");
    push_str(&mut out, instance_id);
    string_of(&out)
}

/// Writes standard input to `path` as the `gameserver` user.
pub open spec fn tee_as_gameserver_text(path: Seq<char>) -> Seq<char> {
    "sudo -u gameserver tee "@ + shell_quoted(path) + " > /dev/null"@
}

/// The command that writes its standard input to `path` as `gameserver`.
pub fn tee_as_gameserver_command(path: &str) -> (r: String)
    ensures
        r@ == tee_as_gameserver_text(path@),
{
    let q = shell_single_quote(path);
    let mut out: Vec<char> = Vec::new();
    push_str(&mut out, "sudo -u gameserver tee ");
    push_str(&mut out, q.as_str());
    push_str(&mut out, " > /dev/null");
    string_of(&out)
}

/// Where an instance's manifest lives.
pub fn manifest_path(install_path: &str) -> (r: String)
    ensures
        r@ == install_path@ + "/.glimanexus-instance.json"@,
{
    let mut out: Vec<char> = Vec::new();
    push_str(&mut out, install_path);
    push_str(&mut out, "/.glimanexus-instance.json");
    string_of(&out)
}

/// Lists the GlimaNexus systemd units, one file name per line.
pub fn unit_list_command() -> (r: String)
    ensures
        r@ == "find /etc/systemd/system -maxdepth 1 -name 'novanexus-*.service' -printf '%f\\n' 2>/dev/null"@,
{
    text("find /etc/systemd/system -maxdepth 1 -name 'novanexus-*.service' -printf '%f\\n' 2>/dev/null")
}

/// Prints an instance's manifest (nothing when it has none).
pub fn manifest_read_command(install_path: &str) -> (r: String)
    ensures
        r@ == "sudo cat "@ + install_path@ + "/.glimanexus-instance.json 2>/dev/null"@,
{
    let mut out: Vec<char> = Vec::new();
    push_str(&mut out, "sudo cat ");
    push_str(&mut out, install_path);
    push_str(&mut out, "/.glimanexus-instance.json 2>/dev/null");
    string_of(&out)
}

/// Prints the file `path` as root, nothing on error.
pub open spec fn cat_quiet_text(path: Seq<char>) -> Seq<char> {
    "sudo cat "@ + shell_quoted(path) + " 2>/dev/null"@
}

/// The command printing a file as root, errors silenced.
pub fn cat_quiet_command(path: &str) -> (r: String)
    ensures
        r@ == cat_quiet_text(path@),
{
    let q = shell_single_quote(path);
    let mut out: Vec<char> = Vec::new();
    push_str(&mut out, "sudo cat ");
    push_str(&mut out, q.as_str());
    push_str(&mut out, " 2>/dev/null");
    string_of(&out)
}

/// Paper's version history file of an instance.
pub fn version_history_path(install_path: &str) -> (r: String)
    ensures
        r@ == install_path@ + "/.paper/version_history.json"@,
{
    let mut out: Vec<char> = Vec::new();
    push_str(&mut out, install_path);
    push_str(&mut out, "/.paper/version_history.json");
    string_of(&out)
}

/// Asks PaperMC for the newest Minecraft version.
pub fn latest_paper_version_command() -> (r: String)
    ensures
        r@ == "curl -s https://fill.papermc.io/v3/projects/paper | jq -r '.versions | to_entries[0].value[0]'"@,
{
    text("curl -s https://fill.papermc.io/v3/projects/paper | jq -r '.versions | to_entries[0].value[0]'")
}

/// The server.properties file of an instance.
pub fn server_properties_path(install_path: &str) -> (r: String)
    ensures
        r@ == install_path@ + "/server.properties"@,
{
    let mut out: Vec<char> = Vec::new();
    push_str(&mut out, install_path);
    push_str(&mut out, "/server.properties");
    string_of(&out)
}

/// The status query of a unit: prints `STATE|UPTIME|PID|TIMESTAMP`.
pub open spec fn instance_status_text(unit: Seq<char>) -> Seq<char> {
    "STATE=$(systemctl is-active "@ + unit + "); TS=$(systemctl show -p ActiveEnterTimestamp --value "@
        + unit + "); PID=$(systemctl show -p MainPID --value "@ + unit
        + "); if [ -n \"$TS\" ] && [ \"$TS\" != \"n/a\" ]; then NOW=$(date +%s); THEN=$(date -d \"$TS\" +%s 2>/dev/null || echo $NOW); UPTIME=$((NOW-THEN)); else UPTIME=0; fi; echo \"$STATE|$UPTIME|$PID|$TS\""@
}

/// The command reporting whether a unit runs, since when and as which
/// process.
pub fn instance_status_command(unit_name: &str) -> (r: String)
    ensures
        r@ == instance_status_text(unit_name@),
{
    let mut out: Vec<char> = Vec::new();
    push_str(&mut out, "STATE=$(systemctl is-active ");
    push_str(&mut out, unit_name);
    push_str(&mut out, "); TS=$(systemctl show -p ActiveEnterTimestamp --value ");
    push_str(&mut out, unit_name);
    push_str(&mut out, "); PID=$(systemctl show -p MainPID --value ");
    push_str(&mut out, unit_name);
    push_str(
        &mut out,
        "); if [ -n \"$TS\" ] && [ \"$TS\" != \"n/a\" ]; then NOW=$(date +%s); THEN=$(date -d \"$TS\" +%s 2>/dev/null || echo $NOW); UPTIME=$((NOW-THEN)); else UPTIME=0; fi; echo \"$STATE|$UPTIME|$PID|$TS\"",
    );
    string_of(&out)
}

/// What removing an instance runs after stopping it: disable the unit,
/// delete its unit file, reload systemd, delete the install directory.
pub open spec fn removal_texts(unit: Seq<char>, install_path: Seq<char>) -> Seq<Seq<char>> {
    seq![
        "sudo systemctl disable "@ + unit,
        "sudo rm -f /etc/systemd/system/"@ + unit + ".service"@,
        "sudo systemctl daemon-reload"@,
        "sudo rm -rf "@ + install_path,
    ]
}

/// The commands that remove an instance's unit and files, in order.
pub fn removal_commands(unit_name: &str, install_path: &str) -> (r: Vec<String>)
    ensures
        r@.len() == 4,
        forall|i: int| 0 <= i < 4 ==> (#[trigger] r@[i])@ == removal_texts(unit_name@, install_path@)[i],
{
    let mut a: Vec<char> = Vec::new();
    push_str(&mut a, "sudo systemctl disable ");
    push_str(&mut a, unit_name);
    let mut b: Vec<char> = Vec::new();
    push_str(&mut b, "sudo rm -f /etc/systemd/system/");
    push_str(&mut b, unit_name);
    push_str(&mut b, ".service");
    let mut d: Vec<char> = Vec::new();
    push_str(&mut d, "sudo rm -rf ");
    push_str(&mut d, install_path);
    let mut r: Vec<String> = Vec::new();
    r.push(string_of(&a));
    r.push(string_of(&b));
    r.push(text("sudo systemctl daemon-reload"));
    r.push(string_of(&d));
    r
}

/// Lists a directory's entries as `TYPE|NAME|SIZE` lines.
pub fn list_directory_command(path: &str) -> (r: String)
    ensures
        r@ == "sudo find "@ + path@ + " -mindepth 1 -maxdepth 1 -printf '%y|%f|%s\\n' 2>/dev/null"@,
{
    let mut out: Vec<char> = Vec::new();
    push_str(&mut out, "sudo find ");
    push_str(&mut out, path);
    push_str(&mut out, " -mindepth 1 -maxdepth 1 -printf '%y|%f|%s\\n' 2>/dev/null");
    string_of(&out)
}

/// Prints the size and mtime of a file as `SIZE|MTIME`.
pub fn stat_command(path: &str) -> (r: String)
    ensures
        r@ == "sudo stat -c '%s|%Y' "@ + shell_quoted(path@),
{
    let q = shell_single_quote(path);
    let mut out: Vec<char> = Vec::new();
    push_str(&mut out, "sudo stat -c '%s|%Y' ");
    push_str(&mut out, q.as_str());
    string_of(&out)
}

/// Creates a quoted directory owned by `gameserver`.
pub fn make_owned_quoted_dir_command(dir: &str) -> (r: String)
    ensures
        r@ == make_owned_dir_text(shell_quoted(dir@)),
{
    let q = shell_single_quote(dir);
    make_owned_dir_command(q.as_str())
}

/// The file name of a backup made at `stamp` (`%Y%m%d-%H%M%S`).
pub fn backup_file_name(stamp: &str) -> (r: String)
    ensures
        r@ == backup_name_text(stamp@),
{
    let mut out: Vec<char> = Vec::new();
    push_str(&mut out, "backup-");
    push_str(&mut out, stamp);
    push_str(&mut out, ".tar.gz");
    string_of(&out)
}

/// The file name of a backup made at `stamp`.
pub open spec fn backup_name_text(stamp: Seq<char>) -> Seq<char> {
    "backup-"@ + stamp + ".tar.gz"@
}

/// Backups made at different times have different names, so they coexist.
pub proof fn lemma_backup_names_distinct(a: Seq<char>, b: Seq<char>)
    requires
        backup_name_text(a) == backup_name_text(b),
    ensures
        a == b,
{
    reveal_strlit("backup-");
    reveal_strlit(".tar.gz");
    let na = backup_name_text(a);
    assert(na.len() == a.len() + 14);
    assert(backup_name_text(b).len() == b.len() + 14);
    assert(a.len() == b.len());
    assert(a =~= na.subrange(7, 7 + a.len() as int));
    assert(b =~= backup_name_text(b).subrange(7, 7 + b.len() as int));
}

/// A time stamp as backups are named with: digits, dashes and the sign that
/// marks a year beyond four digits.
pub open spec fn stamp_chars_ok(stamp: Seq<char>) -> bool {
    forall|i: int|
        0 <= i < stamp.len() ==> (is_digit(#[trigger] stamp[i]) || stamp[i] == '-' || stamp[i] == '+')
}

/// The name of a backup made at such a time stamp is one that listing,
/// downloading, deleting and restoring accept.
pub proof fn lemma_backup_name_valid(stamp: Seq<char>)
    requires
        stamp_chars_ok(stamp),
    ensures
        backup_filename_ok(backup_name_text(stamp)),
{
    reveal_strlit("backup-");
    reveal_strlit(".tar.gz");
    reveal_strlit("/");
    reveal_strlit("..");
    let n = backup_name_text(stamp);
    let k = 7 + stamp.len();
    assert forall|i: int| 0 <= i < n.len() implies n[i] != '/' && (n[i] == '.' ==> (i == k || i == k + 4)) by {
        if i >= 7 && i < k {
            assert(n[i] == stamp[i - 7]);
        }
    }
    assert(!contains_seq(n, "/"@)) by {
        if contains_seq(n, "/"@) {
            let i = choose|i: int| occurs_at(n, "/"@, i);
            assert(n.subrange(i, i + 1)[0] == n[i]);
        }
    }
    assert(!contains_seq(n, ".."@)) by {
        if contains_seq(n, ".."@) {
            let i = choose|i: int| occurs_at(n, ".."@, i);
            assert(n.subrange(i, i + 2)[0] == n[i]);
            assert(n.subrange(i, i + 2)[1] == n[i + 1]);
        }
    }
    assert(ends_with(n, ".tar.gz"@)) by {
        assert(n.subrange(n.len() - 7, n.len() as int) =~= ".tar.gz"@);
    }
}

/// Archives an instance's whole install directory into `archive_path`.
pub open spec fn create_backup_text(
    backup_dir: Seq<char>,
    archive_path: Seq<char>,
    install_path: Seq<char>,
) -> Seq<char> {
    make_owned_dir_text(backup_dir) + " && sudo -u gameserver tar -czf "@ + archive_path + " -C "@
        + install_path + " ."@
}

/// The command that makes the backup directory and the archive.
pub fn create_backup_command(backup_dir: &str, archive_path: &str, install_path: &str) -> (r: String)
    ensures
        r@ == create_backup_text(backup_dir@, archive_path@, install_path@),
{
    let mut out: Vec<char> = Vec::new();
    push_str(&mut out, "sudo mkdir -p ");
    push_str(&mut out, backup_dir);
    push_str(&mut out, " && sudo chown gameserver:gameserver ");
    push_str(&mut out, backup_dir);
    push_str(&mut out, " && sudo -u gameserver tar -czf ");
    push_str(&mut out, archive_path);
    push_str(&mut out, " -C ");
    push_str(&mut out, install_path);
    push_str(&mut out, " .");
    string_of(&out)
}

/// Lists the backups in a directory as `NAME|SIZE|MTIME` lines.
pub fn list_backups_command(backup_dir: &str) -> (r: String)
    ensures
        r@ == "sudo find "@ + backup_dir@ + " -maxdepth 1 -name '*.tar.gz' -printf '%f|%s|%T@\\n' 2>/dev/null"@,
{
    let mut out: Vec<char> = Vec::new();
    push_str(&mut out, "sudo find ");
    push_str(&mut out, backup_dir);
    push_str(&mut out, " -maxdepth 1 -name '*.tar.gz' -printf '%f|%s|%T@\\n' 2>/dev/null");
    string_of(&out)
}

/// Prints a file as root.
pub fn cat_command(path: &str) -> (r: String)
    ensures
        r@ == "sudo cat "@ + shell_quoted(path@),
{
    let q = shell_single_quote(path);
    let mut out: Vec<char> = Vec::new();
    push_str(&mut out, "sudo cat ");
    push_str(&mut out, q.as_str());
    string_of(&out)
}

/// Deletes a file as root.
pub fn remove_file_command(path: &str) -> (r: String)
    ensures
        r@ == "sudo rm -f "@ + shell_quoted(path@),
{
    let q = shell_single_quote(path);
    let mut out: Vec<char> = Vec::new();
    push_str(&mut out, "sudo rm -f ");
    push_str(&mut out, q.as_str());
    string_of(&out)
}

/// Replaces the contents of an install directory with a backup archive's.
pub open spec fn restore_text(install_path: Seq<char>, backup_path: Seq<char>) -> Seq<char> {
    "sudo -u gameserver bash -c \"find "@ + shell_quoted(install_path)
        + " -mindepth 1 -delete && tar -xzf "@ + shell_quoted(backup_path) + " -C "@
        + shell_quoted(install_path) + "\""@
}

/// The command that wipes an install directory and extracts a backup into
/// it.
pub fn restore_command(install_path: &str, backup_path: &str) -> (r: String)
    ensures
        r@ == restore_text(install_path@, backup_path@),
{
    let qi = shell_single_quote(install_path);
    let qb = shell_single_quote(backup_path);
    let mut out: Vec<char> = Vec::new();
    push_str(&mut out, "sudo -u gameserver bash -c \"find ");
    push_str(&mut out, qi.as_str());
    push_str(&mut out, " -mindepth 1 -delete && tar -xzf ");
    push_str(&mut out, qb.as_str());
    push_str(&mut out, " -C ");
    push_str(&mut out, qi.as_str());
    push_str(&mut out, "\"");
    string_of(&out)
}

/// Follows a unit's journal, starting with its last 200 lines.
pub fn follow_logs_command(unit_name: &str) -> (r: String)
    ensures
        r@ == "journalctl -fu "@ + unit_name@ + " -n 200 --no-pager"@,
{
    let mut out: Vec<char> = Vec::new();
    push_str(&mut out, "journalctl -fu ");
    push_str(&mut out, unit_name);
    push_str(&mut out, " -n 200 --no-pager");
    string_of(&out)
}


/// The last `/`-separated component of `path` (all of it without a `/`).
pub open spec fn last_component(path: Seq<char>) -> Seq<char>
    decreases path.len(),
{
    match index_of(path, '/') {
        Some(i) => {
            proof {
                lemma_index_of(path, '/');
            }
            last_component(path.skip(i + 1))
        },
        None => path,
    }
}

/// The instance id an install path ends in (its last path component).
pub fn instance_id_of_path(install_path: &str) -> (r: String)
    ensures
        r@ == last_component(install_path@),
{
    let p = chars_of(install_path);
    let n = p.len();
    let mut start: usize = 0;
    proof {
        assert(p@.skip(0) =~= p@);
    }
    loop
        invariant
            p@ == install_path@,
            n == p@.len(),
            start <= p@.len(),
            last_component(p@) == last_component(p@.skip(start as int)),
        decreases p@.len() - start,
    {
        let ghost rest = p@.skip(start as int);
        proof {
            lemma_index_of(rest, '/');
        }
        match find_char_from(&p, '/', start) {
            Some(i) => {
                proof {
                    assert(i - start < rest.len());
                    assert(i < n);
                    assert(rest.skip(i - start + 1) =~= p@.skip(i + 1));
                }
                start = i + 1;
            },
            None => {
                let r = slice_of(&p, start, p.len());
                assert(r@ =~= rest);
                return string_of(&r);
            },
        }
    }
}

} // verus!
