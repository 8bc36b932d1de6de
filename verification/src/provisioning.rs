//! What GlimaNexus runs on a managed server to prepare it: passwordless
//! sudo for the login user, the base packages, and a systemd unit per game
//! instance.
use vstd::prelude::*;
use crate::text::{
    chars_of, contains, contains_seq, index_of, lemma_index_of, lines_of, occurs_at, push_all, push_str, replace,
    replace_all, starts_with, string_of, strip_cr,
};

verus! {

/// The systemd unit of an instance: runs `start_command` as the
/// `gameserver` user in `working_dir`, restarts it on failure and starts it
/// at boot.
pub open spec fn systemd_unit_text(
    instance_id: Seq<char>,
    working_dir: Seq<char>,
    start_command: Seq<char>,
) -> Seq<char> {
    "[Unit]\nDescription=NovaNexus Gameserver Instance "@ + instance_id
        + "\nAfter=network.target\n\n[Service]\nType=simple\nUser=gameserver\nWorkingDirectory="@
        + working_dir + "\nExecStart="@ + start_command
        + "\nRestart=on-failure\nRestartSec=5\n\n[Install]\nWantedBy=multi-user.target\n"@
}

/// Generates a systemd unit so the game server survives reboots
/// and is controlled purely via `systemctl` (start/stop/restart), running as `gameserver`.
pub fn render_systemd_unit(instance_id: &str, working_dir: &str, start_command: &str) -> (r: String)
    ensures
        r@ == systemd_unit_text(instance_id@, working_dir@, start_command@),
{
    let mut out: Vec<char> = Vec::new();
    push_str(&mut out, "[Unit]\nDescription=NovaNexus Gameserver Instance ");
    push_str(&mut out, instance_id);
    push_str(
        &mut out,
        "\nAfter=network.target\n\n[Service]\nType=simple\nUser=gameserver\nWorkingDirectory=",
    );
    push_str(&mut out, working_dir);
    push_str(&mut out, "\nExecStart=");
    push_str(&mut out, start_command);
    push_str(&mut out, "\nRestart=on-failure\nRestartSec=5\n\n[Install]\nWantedBy=multi-user.target\n");
    string_of(&out)
}

/// The lines of a systemd unit, in order.
pub open spec fn systemd_unit_lines(
    instance_id: Seq<char>,
    working_dir: Seq<char>,
    start_command: Seq<char>,
) -> Seq<Seq<char>> {
    seq![
        "[Unit]"@,
        "Description=NovaNexus Gameserver Instance "@ + instance_id,
        "After=network.target"@,
        ""@,
        "[Service]"@,
        "Type=simple"@,
        "User=gameserver"@,
        "WorkingDirectory="@ + working_dir,
        "ExecStart="@ + start_command,
        "Restart=on-failure"@,
        "RestartSec=5"@,
        ""@,
        "[Install]"@,
        "WantedBy=multi-user.target"@,
    ]
}

/// `ls` written one after another, each followed by a newline.
pub open spec fn joined_lines(ls: Seq<Seq<char>>) -> Seq<char>
    decreases ls.len(),
{
    if ls.len() == 0 {
        Seq::empty()
    } else {
        ls[0] + seq!['\n'] + joined_lines(ls.drop_first())
    }
}

/// A line that reads back as itself: no newline in it and no carriage
/// return at its end.
pub open spec fn plain_line(l: Seq<char>) -> bool {
    &&& forall|j: int| 0 <= j < l.len() ==> l[j] != '\n'
    &&& (l.len() == 0 || l.last() != '\r')
}

/// Text without line breaks of either kind.
pub open spec fn no_line_break(s: Seq<char>) -> bool {
    forall|j: int| 0 <= j < s.len() ==> s[j] != '\n' && s[j] != '\r'
}

/// Lines written with a newline after each read back as the same lines.
proof fn lemma_lines_of_joined(ls: Seq<Seq<char>>)
    requires
        forall|k: int| 0 <= k < ls.len() ==> plain_line(#[trigger] ls[k]),
    ensures
        lines_of(joined_lines(ls)) == ls,
    decreases ls.len(),
{
    if ls.len() > 0 {
        let a = ls[0];
        let rest = joined_lines(ls.drop_first());
        let s = joined_lines(ls);
        assert(s == a + seq!['\n'] + rest);
        assert(plain_line(a));
        lemma_index_of(s, '\n');
        assert(s[a.len() as int] == '\n');
        assert forall|j: int| 0 <= j < a.len() implies s[j] != '\n' by {
            assert(s[j] == a[j]);
        }
        assert(index_of(s, '\n') == Some(a.len() as int));
        assert(s.take(a.len() as int) =~= a);
        assert(s.skip(a.len() as int + 1) =~= rest);
        assert(strip_cr(a) == a);
        assert forall|k: int| 0 <= k < ls.drop_first().len() implies plain_line(
            #[trigger] ls.drop_first()[k],
        ) by {
            assert(ls.drop_first()[k] == ls[k + 1]);
        }
        lemma_lines_of_joined(ls.drop_first());
        assert(lines_of(s) =~= seq![a] + ls.drop_first());
    }
}

/// The unit text is its lines, each followed by a newline.
proof fn lemma_unit_text_joined(instance_id: Seq<char>, working_dir: Seq<char>, start_command: Seq<char>)
    ensures
        systemd_unit_text(instance_id, working_dir, start_command) == joined_lines(
            systemd_unit_lines(instance_id, working_dir, start_command),
        ),
{
    let ls = systemd_unit_lines(instance_id, working_dir, start_command);
    reveal_with_fuel(joined_lines, 15);
    reveal_strlit("[Unit]\nDescription=NovaNexus Gameserver Instance ");
    reveal_strlit(
        "\nAfter=network.target\n\n[Service]\nType=simple\nUser=gameserver\nWorkingDirectory=",
    );
    reveal_strlit("\nExecStart=");
    reveal_strlit("\nRestart=on-failure\nRestartSec=5\n\n[Install]\nWantedBy=multi-user.target\n");
    reveal_strlit("[Unit]");
    reveal_strlit("Description=NovaNexus Gameserver Instance ");
    reveal_strlit("After=network.target");
    reveal_strlit("");
    reveal_strlit("[Service]");
    reveal_strlit("Type=simple");
    reveal_strlit("User=gameserver");
    reveal_strlit("WorkingDirectory=");
    reveal_strlit("ExecStart=");
    reveal_strlit("Restart=on-failure");
    reveal_strlit("RestartSec=5");
    reveal_strlit("[Install]");
    reveal_strlit("WantedBy=multi-user.target");
    assert(systemd_unit_text(instance_id, working_dir, start_command) =~= joined_lines(ls));
}


/// Read back line by line, a unit whose instance id, working directory and
/// start command hold no line break has exactly its lines: one `User=` line,
/// `User=gameserver`; one `WorkingDirectory=` line, for `working_dir`; one
/// `ExecStart=` line, for `start_command`; and the text ends with a newline.
pub proof fn lemma_unit_lines(instance_id: Seq<char>, working_dir: Seq<char>, start_command: Seq<char>)
    requires
        no_line_break(instance_id),
        no_line_break(working_dir),
        no_line_break(start_command),
    ensures
        lines_of(systemd_unit_text(instance_id, working_dir, start_command)) == systemd_unit_lines(
            instance_id,
            working_dir,
            start_command,
        ),
        systemd_unit_text(instance_id, working_dir, start_command).last() == '\n',
        systemd_unit_lines(instance_id, working_dir, start_command)[6] == "User=gameserver"@,
        forall|i: int|
            0 <= i < systemd_unit_lines(instance_id, working_dir, start_command).len() ==> (
            starts_with(#[trigger] systemd_unit_lines(instance_id, working_dir, start_command)[i], "User="@)
                <==> i == 6),
        forall|i: int|
            0 <= i < systemd_unit_lines(instance_id, working_dir, start_command).len() ==> (
            #[trigger] systemd_unit_lines(instance_id, working_dir, start_command)[i] == "WorkingDirectory="@
                + working_dir <==> i == 7),
        forall|i: int|
            0 <= i < systemd_unit_lines(instance_id, working_dir, start_command).len() ==> (
            #[trigger] systemd_unit_lines(instance_id, working_dir, start_command)[i] == "ExecStart="@
                + start_command <==> i == 8),
{
    let ls = systemd_unit_lines(instance_id, working_dir, start_command);
    reveal_strlit("[Unit]");
    reveal_strlit("Description=NovaNexus Gameserver Instance ");
    reveal_strlit("After=network.target");
    reveal_strlit("");
    reveal_strlit("[Service]");
    reveal_strlit("Type=simple");
    reveal_strlit("User=gameserver");
    reveal_strlit("WorkingDirectory=");
    reveal_strlit("ExecStart=");
    reveal_strlit("Restart=on-failure");
    reveal_strlit("RestartSec=5");
    reveal_strlit("");
    reveal_strlit("[Install]");
    reveal_strlit("WantedBy=multi-user.target");
    reveal_strlit("User=");
    lemma_unit_text_joined(instance_id, working_dir, start_command);
    assert forall|k: int| 0 <= k < ls.len() implies plain_line(#[trigger] ls[k]) by {
        if k == 1 || k == 7 || k == 8 {
            let (pre, input) = if k == 1 {
                ("Description=NovaNexus Gameserver Instance "@, instance_id)
            } else if k == 7 {
                ("WorkingDirectory="@, working_dir)
            } else {
                ("ExecStart="@, start_command)
            };
            assert(ls[k] == pre + input);
            assert forall|j: int| 0 <= j < ls[k].len() implies ls[k][j] != '\n' by {
                if j >= pre.len() {
                    assert(ls[k][j] == input[j - pre.len()]);
                }
            }
            if input.len() > 0 {
                assert(ls[k].last() == input[input.len() - 1]);
            }
        }
    }
    lemma_lines_of_joined(ls);
    let text = systemd_unit_text(instance_id, working_dir, start_command);
    assert(text.last() == '\n') by {
        reveal_strlit("\nRestart=on-failure\nRestartSec=5\n\n[Install]\nWantedBy=multi-user.target\n");
    }
    assert forall|i: int| 0 <= i < ls.len() implies (starts_with(#[trigger] ls[i], "User="@) <==> i == 6) by {
        if i == 6 {
            assert(ls[6].subrange(0, 5) =~= "User="@);
        } else if starts_with(ls[i], "User="@) {
            assert(ls[i][0] == ls[i].subrange(0, 5)[0]);
            assert(ls[i][0] == 'U');
        }
    }
    assert forall|i: int| 0 <= i < ls.len() implies (#[trigger] ls[i] == "WorkingDirectory="@ + working_dir
        <==> i == 7) by {
        if i != 7 && ls[i] == "WorkingDirectory="@ + working_dir {
            assert(ls[i][0] == 'W');
            assert(ls[i][1] == 'o');
        }
    }
    assert forall|i: int| 0 <= i < ls.len() implies (#[trigger] ls[i] == "ExecStart="@ + start_command
        <==> i == 8) by {
        if i != 8 && ls[i] == "ExecStart="@ + start_command {
            assert(ls[i][0] == 'E');
        }
    }
}

/// The command that tells whether `sudo` works without a password: its
/// output ends in `EXIT:0` exactly when it does.
pub open spec fn sudo_check_command_text() -> Seq<char> {
    "sudo -n true 2>&1; echo EXIT:$?"@
}

/// The script that, run with sudo's password on its standard input, gives
/// `username` passwordless sudo through a sudoers.d file of its own.
pub open spec fn sudo_grant_script_text(username: Seq<char>) -> Seq<char> {
    "sudo -S -p '' bash -c \"echo '"@ + username
        + " ALL=(ALL) NOPASSWD:ALL' > /etc/sudoers.d/novanexus && chmod 440 /etc/sudoers.d/novanexus\""@
}

/// Whether the output of the sudo check reports success.
pub open spec fn sudo_check_passed(output: Seq<char>) -> bool {
    contains_seq(output, "EXIT:0"@)
}

/// The error reported when sudo still asks for a password after the grant
/// script ran; `output` is what the script printed.
pub open spec fn sudo_setup_error_text(output: Seq<char>) -> Seq<char> {
    "Konnte passwortloses Sudo nicht einrichten (Passwort falsch oder Nutzer nicht sudo-berechtigt): "@
        + output
}

/// What the passwordless-sudo setup asks to be run next.
#[derive(Debug)]
pub enum SudoAction {
    /// Run `command` and report its output.
    Exec { command: String },
    /// Run `command`, writing `stdin` to it, and report its output.
    ExecWithStdin { command: String, stdin: String },
    /// Passwordless sudo works.
    Done,
    /// It could not be set up; the message says why.
    Failed { message: String },
}

/// Where the passwordless-sudo setup stands.
#[derive(Clone, Copy, Debug, PartialEq, Eq)]
pub enum SudoSetupState {
    /// The first check is running.
    Checking,
    /// The grant script is running.
    Granting,
    /// The check after the grant is running.
    Verifying,
    /// The setup has ended.
    Finished,
}

/// Grants the SSH login user passwordless sudo, scoped to that one user via a dedicated
/// sudoers.d file. Required because commands over SSH run non-interactively (no TTY), so
/// `sudo` can never prompt for a password. Idempotent: a no-op once already set up.
/// Uses the one password already known to answer sudo's `-S` stdin prompt exactly once.
pub struct SudoSetup {
    state: SudoSetupState,
    username: String,
    password: String,
    grant_output: String,
}

impl SudoSetup {
    /// Where the setup stands.
    pub closed spec fn state(&self) -> SudoSetupState {
        self.state
    }

    /// The user to be granted passwordless sudo.
    pub closed spec fn username(&self) -> Seq<char> {
        self.username@
    }

    /// The password that answers sudo's prompt.
    pub closed spec fn password(&self) -> Seq<char> {
        self.password@
    }

    /// What the grant script printed (empty before it ran).
    pub closed spec fn grant_output(&self) -> Seq<char> {
        self.grant_output@
    }

    /// Starts the setup for `username` with its `password`: the first step
    /// runs the sudo check.
    pub fn start(username: &str, password: &str) -> (r: (SudoSetup, SudoAction))
        ensures
            r.0.state() == SudoSetupState::Checking,
            r.0.username() == username@,
            r.0.password() == password@,
            r.0.grant_output() == Seq::<char>::empty(),
            r.1 is Exec && r.1->Exec_command@ == sudo_check_command_text(),
    {
        let setup = SudoSetup {
            state: SudoSetupState::Checking,
            username: string_of(&chars_of(username)),
            password: string_of(&chars_of(password)),
            grant_output: String::new(),
        };
        let command = string_of(&chars_of("sudo -n true 2>&1; echo EXIT:$?"));
        (setup, SudoAction::Exec { command })
    }

    /// Takes the output of the step that was asked for and says what comes
    /// next: after a passing first check nothing is needed; after a failing
    /// one the grant script runs with the password and a newline on its
    /// standard input; after the script the check runs again, and if it still
    /// fails the setup fails with the script's output in the message.
    pub fn on_output(&mut self, output: &str) -> (action: SudoAction)
        requires
            old(self).state() != SudoSetupState::Finished,
        ensures
            final(self).username() == old(self).username(),
            final(self).password() == old(self).password(),
            old(self).state() == SudoSetupState::Checking ==> if sudo_check_passed(output@) {
                &&& action is Done
                &&& final(self).state() == SudoSetupState::Finished
                &&& final(self).grant_output() == old(self).grant_output()
            } else {
                &&& action is ExecWithStdin
                &&& action->ExecWithStdin_command@ == sudo_grant_script_text(old(self).username())
                &&& action->stdin@ == old(self).password().push('\n')
                &&& final(self).state() == SudoSetupState::Granting
                &&& final(self).grant_output() == old(self).grant_output()
            },
            old(self).state() == SudoSetupState::Granting ==> {
                &&& action is Exec
                &&& action->Exec_command@ == sudo_check_command_text()
                &&& final(self).state() == SudoSetupState::Verifying
                &&& final(self).grant_output() == output@
            },
            old(self).state() == SudoSetupState::Verifying ==> {
                &&& final(self).state() == SudoSetupState::Finished
                &&& final(self).grant_output() == old(self).grant_output()
                &&& if sudo_check_passed(output@) {
                    action is Done
                } else {
                    action is Failed && action->message@ == sudo_setup_error_text(
                        old(self).grant_output(),
                    )
                }
            },
    {
        let out = chars_of(output);
        let ok_tag = chars_of("EXIT:0");
        match self.state {
            SudoSetupState::Checking => {
                if contains(&out, &ok_tag) {
                    self.state = SudoSetupState::Finished;
                    SudoAction::Done
                } else {
                    let mut script: Vec<char> = Vec::new();
                    push_str(&mut script, "sudo -S -p '' bash -c \"echo '");
                    push_str(&mut script, self.username.as_str());
                    push_str(
                        &mut script,
                        " ALL=(ALL) NOPASSWD:ALL' > /etc/sudoers.d/novanexus && chmod 440 /etc/sudoers.d/novanexus\"",
                    );
                    let mut stdin = chars_of(self.password.as_str());
                    stdin.push('\n');
                    self.state = SudoSetupState::Granting;
                    SudoAction::ExecWithStdin {
                        command: string_of(&script),
                        stdin: string_of(&stdin),
                    }
                }
            },
            SudoSetupState::Granting => {
                self.grant_output = string_of(&out);
                self.state = SudoSetupState::Verifying;
                SudoAction::Exec { command: string_of(&chars_of("sudo -n true 2>&1; echo EXIT:$?")) }
            },
            _ => {
                self.state = SudoSetupState::Finished;
                if contains(&out, &ok_tag) {
                    SudoAction::Done
                } else {
                    let mut message: Vec<char> = Vec::new();
                    push_str(
                        &mut message,
                        "Konnte passwortloses Sudo nicht einrichten (Passwort falsch oder Nutzer nicht sudo-berechtigt): ",
                    );
                    push_str(&mut message, self.grant_output.as_str());
                    SudoAction::Failed { message: string_of(&message) }
                }
            },
        }
    }
}

/// The commands that prepare a fresh Ubuntu/Debian server, in order: the
/// isolated `gameserver` user, the package lists, the base packages (Java,
/// 32-bit libraries, tools) and SteamCMD.
pub open spec fn bootstrap_command_texts() -> Seq<Seq<char>> {
    seq![
        "id -u gameserver &>/dev/null || sudo useradd -m -s /bin/bash gameserver"@,
        "sudo apt-get update -y"@,
        "sudo apt-get install -y curl wget tar unzip jq openjdk-21-jre-headless software-properties-common lib32gcc-s1 lib32stdc++6"@,
        "command -v steamcmd &>/dev/null || (sudo add-apt-repository -y multiverse && sudo dpkg --add-architecture i386 && sudo apt-get update -y && echo steam steam/question select \"I AGREE\" | sudo debconf-set-selections && sudo apt-get install -y steamcmd)"@,
    ]
}

/// SteamCMD is a 32-bit package: the command that installs it first enables
/// the i386 architecture and refreshes the package lists, and only then
/// installs `steamcmd`.
pub proof fn lemma_steamcmd_after_i386()
    ensures
        bootstrap_command_texts().len() == 4,
        exists|i: int, j: int|
            i < j && occurs_at(
                bootstrap_command_texts()[3],
                "sudo dpkg --add-architecture i386 && sudo apt-get update -y"@,
                i,
            ) && occurs_at(bootstrap_command_texts()[3], "sudo apt-get install -y steamcmd"@, j),
{
    let c = bootstrap_command_texts()[3];
    reveal_strlit(
        "command -v steamcmd &>/dev/null || (sudo add-apt-repository -y multiverse && sudo dpkg --add-architecture i386 && sudo apt-get update -y && echo steam steam/question select \"I AGREE\" | sudo debconf-set-selections && sudo apt-get install -y steamcmd)",
    );
    reveal_strlit("sudo dpkg --add-architecture i386 && sudo apt-get update -y");
    reveal_strlit("sudo apt-get install -y steamcmd");
    assert(c.subrange(77int, 136int) =~= "sudo dpkg --add-architecture i386 && sudo apt-get update -y"@);
    assert(c.subrange(216int, 248int) =~= "sudo apt-get install -y steamcmd"@);
    assert(occurs_at(c, "sudo dpkg --add-architecture i386 && sudo apt-get update -y"@, 77));
    assert(occurs_at(c, "sudo apt-get install -y steamcmd"@, 216));
}

/// Creates the isolated `gameserver` system user (no root execution of game processes)
/// and installs base dependencies (SteamCMD, Java, lib32 packages) on a fresh Ubuntu/Debian
/// box: the commands to run one after the other, stopping at the first that fails.
pub fn bootstrap_commands() -> (r: Vec<String>)
    ensures
        r@.len() == bootstrap_command_texts().len(),
        forall|i: int| 0 <= i < r@.len() ==> (#[trigger] r@[i])@ == bootstrap_command_texts()[i],
{
    let mut r: Vec<String> = Vec::new();
    r.push(string_of(&chars_of("id -u gameserver &>/dev/null || sudo useradd -m -s /bin/bash gameserver")));
    r.push(string_of(&chars_of("sudo apt-get update -y")));
    r.push(string_of(&chars_of("sudo apt-get install -y curl wget tar unzip jq openjdk-21-jre-headless software-properties-common lib32gcc-s1 lib32stdc++6")));
    r.push(string_of(&chars_of("command -v steamcmd &>/dev/null || (sudo add-apt-repository -y multiverse && sudo dpkg --add-architecture i386 && sudo apt-get update -y && echo steam steam/question select \"I AGREE\" | sudo debconf-set-selections && sudo apt-get install -y steamcmd)")));
    r
}

/// `text` made safe inside a single-quoted shell word: each `'` becomes
/// `'\''` (close the quote, an escaped quote, reopen).
pub open spec fn quote_escaped(text: Seq<char>) -> Seq<char> {
    replace_all(text, "'"@, "'\\''"@)
}

/// Undoing the escaping gives back the text: in the escaped text every
/// `'\''` stands for exactly one quote of the text.
pub proof fn lemma_quote_escape_roundtrip(text: Seq<char>)
    ensures
        replace_all(quote_escaped(text), "'\\''"@, "'"@) == text,
    decreases text.len(),
{
    reveal_strlit("'");
    reveal_strlit("'\\''");
    let pat: Seq<char> = "'"@;
    let rep: Seq<char> = "'\\''"@;
    if text.len() > 0 {
        lemma_quote_escape_roundtrip(text.drop_first());
        let rest = quote_escaped(text.drop_first());
        if text[0] == '\'' {
            assert(starts_with(text, pat)) by {
                assert(text.subrange(0, 1) =~= pat);
            }
            assert(text.skip(1) =~= text.drop_first());
            assert(quote_escaped(text) == rep + rest);
            assert(starts_with(rep + rest, rep)) by {
                assert((rep + rest).subrange(0, 4) =~= rep);
            }
            assert((rep + rest).skip(4) =~= rest);
        } else {
            assert(!starts_with(text, pat)) by {
                assert(text.subrange(0, 1)[0] == text[0]);
            }
            assert(quote_escaped(text) == seq![text[0]] + rest);
            let e = seq![text[0]] + rest;
            assert(!starts_with(e, rep)) by {
                if starts_with(e, rep) {
                    assert(e.subrange(0, 4)[0] == e[0]);
                }
            }
            assert(e.drop_first() =~= rest);
            assert(seq![text[0]] + text.drop_first() =~= text);
        }
    }
}

/// The commands that install `unit_contents` as the systemd unit
/// `unit_name`, reload systemd and enable the unit.
pub open spec fn install_unit_command_texts(unit_name: Seq<char>, unit_contents: Seq<char>) -> Seq<
    Seq<char>,
> {
    seq![
        "echo '"@ + quote_escaped(unit_contents) + "' | sudo tee /etc/systemd/system/"@ + unit_name
            + ".service > /dev/null"@,
        "sudo systemctl daemon-reload"@,
        "sudo systemctl enable "@ + unit_name,
    ]
}

/// Installs a systemd unit and enables it: the commands to run one after
/// the other, stopping at the first that fails.
pub fn install_unit_commands(unit_name: &str, unit_contents: &str) -> (r: Vec<String>)
    ensures
        r@.len() == 3,
        forall|i: int|
            0 <= i < 3 ==> (#[trigger] r@[i])@ == install_unit_command_texts(
                unit_name@,
                unit_contents@,
            )[i],
{
    let quote = chars_of("'");
    let escaped_quote = chars_of("'\\''");
    proof {
        reveal_strlit("'");
    }
    let contents = chars_of(unit_contents);
    let escaped = replace(&contents, &quote, &escaped_quote);
    let mut first: Vec<char> = Vec::new();
    push_str(&mut first, "echo '");
    push_all(&mut first, &escaped);
    push_str(&mut first, "' | sudo tee /etc/systemd/system/");
    push_str(&mut first, unit_name);
    push_str(&mut first, ".service > /dev/null");
    let mut third: Vec<char> = Vec::new();
    push_str(&mut third, "sudo systemctl enable ");
    push_str(&mut third, unit_name);
    let mut r: Vec<String> = Vec::new();
    r.push(string_of(&first));
    r.push(string_of(&chars_of("sudo systemctl daemon-reload")));
    r.push(string_of(&third));
    r
}

/// The command that applies a systemd `action` ("start" | "stop" | "restart")
/// to a unit.
pub open spec fn control_command_text(unit_name: Seq<char>, action: Seq<char>) -> Seq<char> {
    "sudo systemctl "@ + action + " "@ + unit_name
}

/// Start/stop/restart a game instance via systemd: the command to run.
pub fn control_command(unit_name: &str, action: &str) -> (r: String)
    ensures
        r@ == control_command_text(unit_name@, action@),
{
    let mut out: Vec<char> = Vec::new();
    push_str(&mut out, "sudo systemctl ");
    push_str(&mut out, action);
    push_str(&mut out, " ");
    push_str(&mut out, unit_name);
    string_of(&out)
}

} // verus!
