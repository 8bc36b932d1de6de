//! Reading what a managed server reports: the OS name, memory and disk use,
//! a systemd unit's state, a Minecraft server's properties and its version.
use vstd::prelude::*;
use crate::json::{json_str_at, json_str_field};
use crate::text::{
    chars_of, find, find_seq, find_char_from, i64_of, index_of, lemma_find_seq, lemma_index_of,
    lines, lines_of, opt_chars, parse_u16, parse_unsigned, piece, piece_i64, piece_u64_or,
    same_chars, slice_of, split_once, split_once_spec, split_words, splitn, splitn_spec, str_eq,
    string_of, trim, trim_end, trim_start, trimmed, u64_or, words, is_whitespace,
};

verus! {

/// What the user enters to add a server.
#[derive(Clone, Debug)]
pub struct AddServerInput {
    pub name: String,
    pub host: String,
    pub port: u16,
    pub username: String,
    pub password: String,
    /// IANA timezone (e.g. "Europe/Berlin") of the machine running the app.
    pub timezone: Option<String>,
}

/// The OS name from the `PRETTY_NAME` query: the trimmed output, or nothing
/// when that is empty.
pub open spec fn os_info_of(raw: Seq<char>) -> Option<Seq<char>> {
    if trim(raw).len() == 0 {
        None
    } else {
        Some(trim(raw))
    }
}

/// The OS name a newly added server reports.
pub fn os_info(raw: &str) -> (r: Option<String>)
    ensures
        opt_chars(r) == os_info_of(raw@),
{
    let t = trimmed(&chars_of(raw));
    if t.len() == 0 {
        None
    } else {
        Some(string_of(&t))
    }
}

/// The used and total amount from a "used total" line (of `free` or `df`),
/// each 0 when missing or not a number.
pub open spec fn used_and_total_of(raw: Seq<char>) -> (u64, u64) {
    let ws = words(trim(raw));
    (u64_or(piece(ws, 0), 0), u64_or(piece(ws, 1), 0))
}

/// Reads a "used total" pair of numbers.
pub fn used_and_total(raw: &str) -> (r: (u64, u64))
    ensures
        r == used_and_total_of(raw@),
{
    let t = trimmed(&chars_of(raw));
    let ws = split_words(&t);
    proof {
        assert(ws@.map_values(|p: Vec<char>| p@) =~= words(trim(raw@)));
    }
    (piece_u64_or(&ws, 0, 0), piece_u64_or(&ws, 1, 0))
}

/// Whether a systemd unit is running, since when and as which process.
#[derive(Clone, Debug)]
pub struct InstanceStatus {
    pub state: String,
    pub uptime_seconds: i64,
    pub pid: Option<i64>,
    pub started_at: Option<String>,
}

/// The pieces of the `STATE|UPTIME|PID|TIMESTAMP` status line.
pub open spec fn status_pieces(output: Seq<char>) -> Seq<Seq<char>> {
    splitn_spec(trim(output), 4, '|')
}

/// The unit state: the first piece, or "unknown".
pub open spec fn status_state(output: Seq<char>) -> Seq<char> {
    match piece(status_pieces(output), 0) {
        Some(p) => p,
        None => "unknown"@,
    }
}

/// The uptime in seconds: the second piece as a number, or 0.
pub open spec fn status_uptime(output: Seq<char>) -> i64 {
    match i64_of(piece(status_pieces(output), 1)) {
        Some(v) => v,
        None => 0,
    }
}

/// The main process id: the third piece as a number other than 0.
pub open spec fn status_pid(output: Seq<char>) -> Option<i64> {
    match i64_of(piece(status_pieces(output), 2)) {
        Some(v) => if v != 0 {
            Some(v)
        } else {
            None
        },
        None => None,
    }
}

/// The start timestamp: the trimmed fourth piece unless empty or "n/a".
pub open spec fn status_started_at(output: Seq<char>) -> Option<Seq<char>> {
    match piece(status_pieces(output), 3) {
        Some(p) => if trim(p).len() > 0 && trim(p) != "n/a"@ {
            Some(trim(p))
        } else {
            None
        },
        None => None,
    }
}

/// Reads the `STATE|UPTIME|PID|TIMESTAMP` line that the status command
/// prints for a game instance's systemd unit.
pub fn parse_instance_status(output: &str) -> (r: InstanceStatus)
    ensures
        r.state@ == status_state(output@),
        r.uptime_seconds == status_uptime(output@),
        r.pid == status_pid(output@),
        opt_chars(r.started_at) == status_started_at(output@),
{
    let t = trimmed(&chars_of(output));
    let parts = splitn(&t, 4, '|');
    proof {
        assert(parts@.map_values(|p: Vec<char>| p@) =~= status_pieces(output@));
    }
    let state = if parts.len() > 0 {
        string_of(&parts[0])
    } else {
        string_of(&chars_of("unknown"))
    };
    let uptime_seconds = match piece_i64(&parts, 1) {
        Some(v) => v,
        None => 0,
    };
    let pid = match piece_i64(&parts, 2) {
        Some(v) => if v != 0 {
            Some(v)
        } else {
            None
        },
        None => None,
    };
    let started_at = if parts.len() > 3 {
        let v = trimmed(&parts[3]);
        let na = chars_of("n/a");
        if v.len() > 0 && !same_chars(&v, &na) {
            Some(string_of(&v))
        } else {
            None
        }
    } else {
        None
    };
    InstanceStatus { state, uptime_seconds, pid, started_at }
}

/// The Minecraft port used when server.properties names none.
pub open spec fn default_minecraft_port() -> u16 {
    25565
}

/// The world name and port after one line of server.properties: a
/// `level-name` line sets the world, a `server-port` line the port (the
/// default when its value is not a port number), any other line changes
/// nothing.
pub open spec fn property_line_effect(line: Seq<char>, world: Option<Seq<char>>, port: u16) -> (
    Option<Seq<char>>,
    u16,
) {
    match split_once_spec(trim(line), '=') {
        Some((k, v)) => if trim(k) == "level-name"@ {
            (Some(trim(v)), port)
        } else if trim(k) == "server-port"@ {
            (
                world,
                match parse_unsigned(trim(v), u16::MAX as nat) {
                    Some(p) => p as u16,
                    None => default_minecraft_port(),
                },
            )
        } else {
            (world, port)
        },
        None => (world, port),
    }
}

/// The world name and port after the lines `ls`, in order.
pub open spec fn properties_after(ls: Seq<Seq<char>>, world: Option<Seq<char>>, port: u16) -> (
    Option<Seq<char>>,
    u16,
)
    decreases ls.len(),
{
    if ls.len() == 0 {
        (world, port)
    } else {
        let (w, p) = property_line_effect(ls[0], world, port);
        properties_after(ls.drop_first(), w, p)
    }
}

/// The world name and server port that server.properties sets: the last
/// `level-name` and `server-port` lines win.
pub open spec fn server_properties_of(raw: Seq<char>) -> (Option<Seq<char>>, u16) {
    properties_after(lines_of(raw), None, default_minecraft_port())
}

/// A `level-name` line names the world by its whole value: a file holding
/// just `level-name=<v>` (one line) gives the world `v` with every inner
/// space kept, and the default port.
pub proof fn lemma_world_name_kept(v: Seq<char>)
    requires
        v.len() > 0,
        !is_whitespace(v[0]),
        !is_whitespace(v.last()),
        forall|j: int| 0 <= j < v.len() ==> v[j] != '\n',
    ensures
        server_properties_of("level-name="@ + v) == (Some(v), default_minecraft_port()),
{
    reveal_strlit("level-name=");
    reveal_strlit("level-name");
    let line = "level-name="@ + v;
    assert(line.len() == 11 + v.len());
    assert forall|j: int| 0 <= j < line.len() implies line[j] != '\n' by {
        if j >= 11 {
            assert(line[j] == v[j - 11]);
        }
    }
    lemma_index_of(line, '\n');
    assert(lines_of(line) =~= seq![line]);
    assert(!is_whitespace(line[0]));
    assert(line.last() == v.last());
    assert(trim_start(line) == line);
    assert(trim_end(line) == line);
    assert(trim(line) == line);
    lemma_index_of(line, '=');
    assert(line[10] == '=');
    assert(index_of(line, '=') == Some(10int));
    let k = line.take(10);
    assert(k =~= "level-name"@);
    assert(line.skip(11) =~= v);
    assert(trim_start(k) == k);
    assert(trim_end(k) == k);
    assert(trim(v) == v);
    assert(property_line_effect(line, None, default_minecraft_port()) == (Some(v), default_minecraft_port()));
    assert(seq![line].drop_first() =~= Seq::<Seq<char>>::empty());
    assert(properties_after(Seq::<Seq<char>>::empty(), Some(v), default_minecraft_port()) == (
        Some(v),
        default_minecraft_port(),
    ));
    assert(properties_after(seq![line], None, default_minecraft_port()) == properties_after(
        seq![line].drop_first(),
        Some(v),
        default_minecraft_port(),
    ));
}

/// Reads the world name and port from a server.properties file.
pub fn parse_server_properties(raw: &str) -> (r: (Option<String>, u16))
    ensures
        (opt_chars(r.0), r.1) == server_properties_of(raw@),
{
    let ls = lines(&chars_of(raw));
    let ghost all = lines_of(raw@);
    let level = chars_of("level-name");
    let server_port = chars_of("server-port");
    let mut world: Option<String> = None;
    let mut port: u16 = 25565;
    let mut i: usize = 0;
    assert(all.skip(0) =~= all);
    while i < ls.len()
        invariant
            all == lines_of(raw@),
            ls@.len() == all.len(),
            forall|k: int| 0 <= k < ls@.len() ==> (#[trigger] ls@[k])@ == all[k],
            level@ == "level-name"@,
            server_port@ == "server-port"@,
            i <= ls@.len(),
            properties_after(all, None, default_minecraft_port()) == properties_after(
                all.skip(i as int),
                opt_chars(world),
                port,
            ),
        decreases ls@.len() - i,
    {
        let line = trimmed(&ls[i]);
        let ghost before = (opt_chars(world), port);
        match split_once(&line, '=') {
            Some((k, v)) => {
                let key = trimmed(&k);
                if same_chars(&key, &level) {
                    world = Some(string_of(&trimmed(&v)));
                } else if same_chars(&key, &server_port) {
                    let value = trimmed(&v);
                    port = match parse_u16(&value) {
                        Some(p) => p,
                        None => 25565,
                    };
                }
            },
            None => {},
        }
        proof {
            assert(all.skip(i as int).drop_first() =~= all.skip(i + 1));
            assert(all.skip(i as int)[0] == all[i as int]);
            assert((opt_chars(world), port) == property_line_effect(all[i as int], before.0, before.1));
        }
        i = i + 1;
    }
    proof {
        assert(all.skip(i as int) =~= Seq::<Seq<char>>::empty());
    }
    (world, port)
}


/// World name and live player counts of a Minecraft instance.
#[derive(Clone, Debug)]
pub struct MinecraftLiveStatus {
    pub world: Option<String>,
    pub players_online: Option<u32>,
    pub players_max: Option<u32>,
}

/// The live status from the world name and the outcome of the status ping:
/// player counts are best effort, a failed ping leaves them unknown.
pub fn live_status(world: Option<String>, ping: Result<(Option<u32>, Option<u32>), String>) -> (r:
    MinecraftLiveStatus)
    ensures
        r.world == world,
        match ping {
            Ok((online, max)) => r.players_online == online && r.players_max == max,
            Err(_) => r.players_online is None && r.players_max is None,
        },
{
    let (players_online, players_max) = match ping {
        Ok(p) => p,
        Err(_) => (None, None),
    };
    MinecraftLiveStatus { world, players_online, players_max }
}

/// Installed and latest available version of a game instance.
#[derive(Clone, Debug)]
pub struct VersionInfo {
    pub installed: Option<String>,
    pub latest: Option<String>,
    pub up_to_date: bool,
}

/// Only Paper (Minecraft) instances have a readable version.
pub open spec fn version_check(game_id: Seq<char>) -> Result<(), Seq<char>> {
    if game_id == "minecraft-paper"@ {
        Ok(())
    } else {
        Err("Für dieses Spiel gibt es noch keine Versionsanzeige"@)
    }
}

/// Refuses a version query for any game but Paper.
pub fn check_version_supported(game_id: &str) -> (r: Result<(), String>)
    ensures
        match r {
            Ok(()) => version_check(game_id@) is Ok,
            Err(m) => version_check(game_id@) == Err::<(), Seq<char>>(m@),
        },
{
    if str_eq(game_id, "minecraft-paper") {
        Ok(())
    } else {
        Err(string_of(&chars_of("Für dieses Spiel gibt es noch keine Versionsanzeige")))
    }
}

/// The Minecraft version inside a Paper version string: what stands between
/// the first `MC: ` and the next `)` ("26.2-92-0a99345 (MC: 26.2)" gives
/// "26.2").
pub open spec fn mc_version_of(s: Seq<char>) -> Option<Seq<char>> {
    match find_seq(s, "MC: "@) {
        Some(i) => match index_of(s.skip(i + 4), ')') {
            Some(j) => Some(s.subrange(i + 4, i + 4 + j)),
            None => None,
        },
        None => None,
    }
}

/// Extracts the Minecraft version from a Paper version string.
pub fn mc_version(current: &str) -> (r: Option<String>)
    ensures
        opt_chars(r) == mc_version_of(current@),
{
    let s = chars_of(current);
    let tag = chars_of("MC: ");
    proof {
        reveal_strlit("MC: ");
        lemma_find_seq(s@, tag@);
    }
    match find(&s, &tag) {
        Some(i) => {
            let n = s.len();
            proof {
                assert(tag@.len() == 4);
                assert(find_seq(s@, tag@) == Some(i as int));
                assert(i + 4 <= s@.len());
            }
            let start = i + 4;
            match find_char_from(&s, ')', start) {
                Some(end) => {
                    proof {
                        lemma_index_of(s@.skip(start as int), ')');
                    }
                    let v = slice_of(&s, start, end);
                    Some(string_of(&v))
                },
                None => None,
            }
        },
        None => None,
    }
}

/// The installed Minecraft version from Paper's version_history.json: its
/// `currentVersion`, narrowed to the `MC: ` part.
pub open spec fn installed_version_of(history: Seq<char>) -> Option<Seq<char>> {
    match json_str_at(history, "currentVersion"@) {
        Some(current) => mc_version_of(current),
        None => None,
    }
}

/// Reads the installed version from version_history.json.
pub fn installed_version(history: &str) -> (r: Option<String>)
    ensures
        opt_chars(r) == installed_version_of(history@),
{
    match json_str_field(history, "currentVersion") {
        Some(current) => mc_version(current.as_str()),
        None => None,
    }
}

/// The latest version from the query's output, when the query succeeded
/// and printed something.
pub open spec fn latest_version_of(output: Option<Seq<char>>) -> Option<Seq<char>> {
    match output {
        Some(o) => if trim(o).len() > 0 {
            Some(trim(o))
        } else {
            None
        },
        None => None,
    }
}

/// Installed vs. latest version; up to date only when both are known and
/// equal.
pub fn version_info(installed: Option<String>, latest_output: Option<String>) -> (r: VersionInfo)
    ensures
        r.installed == installed,
        opt_chars(r.latest) == latest_version_of(opt_chars(latest_output)),
        r.up_to_date == (installed is Some && r.latest is Some && installed->0@ == r.latest->0@),
{
    let latest = match &latest_output {
        Some(o) => {
            let t = trimmed(&chars_of(o.as_str()));
            if t.len() > 0 {
                Some(string_of(&t))
            } else {
                None
            }
        },
        None => None,
    };
    let up_to_date = match (&installed, &latest) {
        (Some(i), Some(l)) => str_eq(i.as_str(), l.as_str()),
        _ => false,
    };
    VersionInfo { installed, latest, up_to_date }
}


/// Bytes as whole mebibytes.
pub fn bytes_to_mb(bytes: u64) -> (r: u64)
    ensures
        r == bytes / 1024 / 1024,
{
    bytes / 1024 / 1024
}

/// The bytes moved since the last poll, when there was one (a first poll,
/// with nothing recorded yet, reports no rate).
pub fn traffic_since(last: u64, now: u64) -> (r: Option<u64>)
    ensures
        last == 0 ==> r is None,
        last > 0 ==> r == Some(if now >= last { (now - last) as u64 } else { 0u64 }),
{
    if last > 0 {
        Some(now.saturating_sub(last))
    } else {
        None
    }
}

} // verus!
