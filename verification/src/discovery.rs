//! Re-importing game instances that exist on a server but not in the local
//! database: which systemd units are GlimaNexus instances, and what game,
//! name and limits each has, from its manifest or from its files.
use vstd::prelude::*;
use crate::games::{
    GameTemplate, shell_quoted, shell_single_quote, signature_path, signature_path_for_template,
};
use crate::json::{
    json_object, json_object_text, json_parses, json_str_at, json_str_field, json_u64_field, json_u64_field_at,
    json_valid,
};
use crate::paths::instances_root;
use crate::text::{
    is_whitespace, trim_end, trim_start, chars_of, ends_with, has_prefix, has_suffix, lines, lines_of, push_str,
    same_chars, slice_of, starts_with, string_of, trim, trimmed,
};

verus! {

/// A game instance as the local database keeps it.
#[derive(Clone, Debug)]
pub struct InstanceRecord {
    pub id: String,
    pub server_id: String,
    pub game_id: String,
    pub display_name: String,
    pub install_path: String,
    pub systemd_unit: String,
    pub cpu_limit_percent: u32,
    pub ram_limit_mb: u32,
}

/// `s` with `pat` removed from its end as often as it ends with it
/// (`str::trim_end_matches`).
pub open spec fn trim_end_matches(s: Seq<char>, pat: Seq<char>) -> Seq<char>
    decreases s.len(),
{
    if pat.len() > 0 && ends_with(s, pat) {
        trim_end_matches(s.take(s.len() - pat.len()), pat)
    } else {
        s
    }
}

/// `s` without every trailing `pat`.
fn trimmed_end_matches(s: &[char], pat: &[char]) -> (r: Vec<char>)
    ensures
        r@ == trim_end_matches(s@, pat@),
{
    let mut cur = slice_of(s, 0, s.len());
    assert(cur@ =~= s@);
    while pat.len() > 0 && has_suffix(&cur, pat)
        invariant
            trim_end_matches(s@, pat@) == trim_end_matches(cur@, pat@),
        decreases cur@.len(),
    {
        cur = slice_of(&cur, 0, cur.len() - pat.len());
    }
    cur
}

/// The unit name on a line of the unit listing: trimmed, `.service` taken
/// off.
pub open spec fn unit_name_of(line: Seq<char>) -> Seq<char> {
    trim_end_matches(trim(line), ".service"@)
}

/// The instance id of a GlimaNexus unit name `novanexus-<id>` with a
/// non-empty id.
pub open spec fn unit_instance_id(unit: Seq<char>) -> Option<Seq<char>> {
    if starts_with(unit, "novanexus-"@) && unit.len() > 10 {
        Some(unit.skip(10))
    } else {
        None
    }
}

/// The ids in `known`.
pub open spec fn known_ids(known: Seq<String>) -> Seq<Seq<char>> {
    known.map_values(|k: String| k@)
}

/// The (unit name, instance id) pairs of the listed units that are
/// GlimaNexus instances not in `known`, in listing order.
pub open spec fn discovery_candidates_of(ls: Seq<Seq<char>>, known: Seq<Seq<char>>) -> Seq<
    (Seq<char>, Seq<char>),
>
    decreases ls.len(),
{
    if ls.len() == 0 {
        seq![]
    } else {
        let rest = discovery_candidates_of(ls.drop_last(), known);
        let unit = unit_name_of(ls.last());
        match unit_instance_id(unit) {
            Some(id) => if known.contains(id) {
                rest
            } else {
                rest.push((unit, id))
            },
            None => rest,
        }
    }
}

/// Every rediscovered instance is new and is named by its unit: its unit is
/// `novanexus-<id>` with a non-empty id that `known` does not hold.
pub proof fn lemma_candidates_are_new(ls: Seq<Seq<char>>, known: Seq<Seq<char>>)
    ensures
        forall|k: int|
            0 <= k < discovery_candidates_of(ls, known).len() ==> {
                let (unit, id) = #[trigger] discovery_candidates_of(ls, known)[k];
                &&& unit == "novanexus-"@ + id
                &&& id.len() > 0
                &&& !known.contains(id)
            },
    decreases ls.len(),
{
    reveal_strlit("novanexus-");
    if ls.len() > 0 {
        lemma_candidates_are_new(ls.drop_last(), known);
        let rest = discovery_candidates_of(ls.drop_last(), known);
        let unit = unit_name_of(ls.last());
        match unit_instance_id(unit) {
            Some(id) => {
                assert(unit.take(10) =~= "novanexus-"@);
                assert(unit =~= "novanexus-"@ + id);
                if !known.contains(id) {
                    assert forall|k: int| 0 <= k < rest.len() + 1 implies {
                        let (u, i) = #[trigger] rest.push((unit, id))[k];
                        &&& u == "novanexus-"@ + i
                        &&& i.len() > 0
                        &&& !known.contains(i)
                    } by {
                        if k < rest.len() {
                            assert(rest.push((unit, id))[k] == rest[k]);
                        }
                    }
                }
            },
            None => {},
        }
    }
}

/// Discovery recovers what installing created: the unit file
/// `novanexus-<id>.service` of an instance names the unit `novanexus-<id>`
/// and the instance `id` (for any non-empty id that does not itself end in
/// `.service`).
pub proof fn lemma_discovery_finds_installed_unit(id: Seq<char>)
    requires
        id.len() > 0,
        !ends_with(id, ".service"@),
    ensures
        unit_name_of("novanexus-"@ + id + ".service"@) == "novanexus-"@ + id,
        unit_instance_id(unit_name_of("novanexus-"@ + id + ".service"@)) == Some(id),
{
    reveal_strlit("novanexus-");
    reveal_strlit(".service");
    let pre: Seq<char> = "novanexus-"@;
    let suf: Seq<char> = ".service"@;
    let t = pre + id;
    let s = t + suf;
    assert(s[0] == 'n');
    assert(s.last() == 'e');
    assert(!is_whitespace(s[0]));
    assert(!is_whitespace(s.last()));
    assert(trim_start(s) == s);
    assert(trim_end(s) == s);
    assert(trim(s) == s);
    assert(ends_with(s, suf)) by {
        assert(s.subrange(s.len() - 8, s.len() as int) =~= suf);
    }
    assert(s.take(s.len() - suf.len()) =~= t);
    assert(!ends_with(t, suf)) by {
        if ends_with(t, suf) {
            let w = t.subrange(t.len() - 8, t.len() as int);
            if id.len() >= 8 {
                assert(w =~= id.subrange(id.len() - 8, id.len() as int));
            } else {
                let k = 9 - (t.len() - 8);
                assert(0 <= k < 8);
                assert(w[k] == t[9]);
                assert(t[9] == '-');
                assert(w[k] == suf[k]);
            }
        }
    }
    assert(trim_end_matches(t, suf) == t);
    assert(trim_end_matches(s, suf) == t);
    assert(starts_with(t, pre)) by {
        assert(t.subrange(0, 10) =~= pre);
    }
    assert(t.skip(10) =~= id);
}

/// Whether `id` is one of `known`.
fn is_known(known: &Vec<String>, id: &[char]) -> (r: bool)
    ensures
        r == known_ids(known@).contains(id@),
{
    let mut i: usize = 0;
    while i < known.len()
        invariant
            i <= known@.len(),
            forall|k: int| 0 <= k < i ==> known@[k]@ != id@,
        decreases known@.len() - i,
    {
        if same_chars(&chars_of(known[i].as_str()), id) {
            assert(known_ids(known@)[i as int] == id@);
            return true;
        }
        i = i + 1;
    }
    proof {
        if known_ids(known@).contains(id@) {
            let k = choose|k: int| 0 <= k < known_ids(known@).len() && known_ids(known@)[k] == id@;
            assert(known@[k]@ == id@);
        }
    }
    false
}

/// The GlimaNexus units of a unit listing that the local database does not
/// know yet, as (unit name, instance id).
pub fn discovery_candidates(unit_list: &str, known: &Vec<String>) -> (r: Vec<(String, String)>)
    ensures
        r@.map_values(|p: (String, String)| (p.0@, p.1@)) == discovery_candidates_of(
            lines_of(unit_list@),
            known_ids(known@),
        ),
{
    let ls = lines(&chars_of(unit_list));
    let ghost all = lines_of(unit_list@);
    let suffix = chars_of(".service");
    let prefix = chars_of("novanexus-");
    proof {
        reveal_strlit("novanexus-");
    }
    let mut out: Vec<(String, String)> = Vec::new();
    let mut i: usize = 0;
    while i < ls.len()
        invariant
            all == lines_of(unit_list@),
            ls@.len() == all.len(),
            forall|k: int| 0 <= k < ls@.len() ==> (#[trigger] ls@[k])@ == all[k],
            suffix@ == ".service"@,
            prefix@ == "novanexus-"@,
            prefix@.len() == 10,
            i <= ls@.len(),
            out@.map_values(|p: (String, String)| (p.0@, p.1@)) == discovery_candidates_of(
                all.take(i as int),
                known_ids(known@),
            ),
        decreases ls@.len() - i,
    {
        let ghost done = out@.map_values(|p: (String, String)| (p.0@, p.1@));
        proof {
            assert(all.take(i + 1).drop_last() =~= all.take(i as int));
            assert(all.take(i + 1).last() == all[i as int]);
        }
        let unit = trimmed_end_matches(&trimmed(&ls[i]), &suffix);
        if has_prefix(&unit, &prefix) && unit.len() > 10 {
            let id = slice_of(&unit, 10, unit.len());
            assert(id@ =~= unit@.skip(10));
            if !is_known(known, &id) {
                let pair = (string_of(&unit), string_of(&id));
                out.push(pair);
                proof {
                    assert(out@.map_values(|p: (String, String)| (p.0@, p.1@)) =~= done.push(
                        (unit@, id@),
                    ));
                }
            }
        }
        i = i + 1;
    }
    proof {
        assert(all.take(i as int) =~= all);
    }
    out
}

/// Game, display name and limits of an instance.
#[derive(Clone, Debug)]
pub struct InstanceSettings {
    pub game_id: String,
    pub display_name: String,
    pub cpu_limit_percent: u32,
    pub ram_limit_mb: u32,
}

/// The settings an instance's manifest records, when the manifest is JSON:
/// each field that is missing (or of the wrong kind) falls back to
/// "unknown", the instance id, 100 % CPU and 2048 MB; the limits are taken
/// modulo 2^32.
pub open spec fn manifest_settings_of(manifest: Seq<char>, instance_id: Seq<char>) -> Option<
    (Seq<char>, Seq<char>, u32, u32),
> {
    if !json_valid(manifest) {
        None
    } else {
        Some(
            (
                match json_str_at(manifest, "game_id"@) {
                    Some(g) => g,
                    None => "unknown"@,
                },
                match json_str_at(manifest, "display_name"@) {
                    Some(d) => d,
                    None => instance_id,
                },
                match json_u64_field_at(manifest, "cpu_limit_percent"@) {
                    Some(c) => c as u32,
                    None => 100,
                },
                match json_u64_field_at(manifest, "ram_limit_mb"@) {
                    Some(m) => m as u32,
                    None => 2048,
                },
            ),
        )
    }
}

/// The fields of settings.
pub open spec fn settings_fields(s: InstanceSettings) -> (Seq<char>, Seq<char>, u32, u32) {
    (s.game_id@, s.display_name@, s.cpu_limit_percent, s.ram_limit_mb)
}

/// The manifest written beside an instance's files: its id, game, display
/// name and limits as a JSON object.
pub open spec fn manifest_text_of(r: InstanceRecord) -> Seq<char> {
    json_object_text(
        "instance_id"@,
        r.id@,
        "game_id"@,
        r.game_id@,
        "display_name"@,
        r.display_name@,
        "cpu_limit_percent"@,
        r.cpu_limit_percent,
        "ram_limit_mb"@,
        r.ram_limit_mb,
    )
}

/// Writes the manifest of an instance, so the instance can be rediscovered
/// even if the local database is lost: rediscovery reads back from it
/// exactly the record's game, display name and limits.
pub fn manifest_text(record: &InstanceRecord) -> (r: String)
    ensures
        r@ == manifest_text_of(*record),
        forall|id: Seq<char>|
            #[trigger] manifest_settings_of(r@, id) == Some(
                (record.game_id@, record.display_name@, record.cpu_limit_percent, record.ram_limit_mb),
            ),
{
    proof {
        reveal_strlit("instance_id");
        reveal_strlit("game_id");
        reveal_strlit("display_name");
        reveal_strlit("cpu_limit_percent");
        reveal_strlit("ram_limit_mb");
        assert("instance_id"@[0] != "game_id"@[0]);
        assert("instance_id"@[0] != "display_name"@[0]);
        assert("instance_id"@[0] != "cpu_limit_percent"@[0]);
        assert("instance_id"@[0] != "ram_limit_mb"@[0]);
        assert("game_id"@[0] != "display_name"@[0]);
        assert("game_id"@[0] != "cpu_limit_percent"@[0]);
        assert("game_id"@[0] != "ram_limit_mb"@[0]);
        assert("display_name"@[0] != "cpu_limit_percent"@[0]);
        assert("display_name"@[0] != "ram_limit_mb"@[0]);
        assert("cpu_limit_percent"@[0] != "ram_limit_mb"@[0]);
    }
    let r = json_object(
        "instance_id",
        record.id.as_str(),
        "game_id",
        record.game_id.as_str(),
        "display_name",
        record.display_name.as_str(),
        "cpu_limit_percent",
        record.cpu_limit_percent,
        "ram_limit_mb",
        record.ram_limit_mb,
    );
    proof {
        assert forall|id: Seq<char>|
            #[trigger] manifest_settings_of(r@, id) == Some(
                (record.game_id@, record.display_name@, record.cpu_limit_percent, record.ram_limit_mb),
            ) by {
            assert((record.cpu_limit_percent as u64) as u32 == record.cpu_limit_percent);
            assert((record.ram_limit_mb as u64) as u32 == record.ram_limit_mb);
        }
    }
    r
}

/// Reads an instance's settings from its `.glimanexus-instance.json`
/// manifest; `None` when it is not JSON (or was not there).
pub fn manifest_settings(manifest: &str, instance_id: &str) -> (r: Option<InstanceSettings>)
    ensures
        match r {
            Some(s) => manifest_settings_of(manifest@, instance_id@) == Some(settings_fields(s)),
            None => manifest_settings_of(manifest@, instance_id@) is None,
        },
{
    if !json_parses(manifest) {
        return None;
    }
    let game_id = match json_str_field(manifest, "game_id") {
        Some(g) => g,
        None => string_of(&chars_of("unknown")),
    };
    let display_name = match json_str_field(manifest, "display_name") {
        Some(d) => d,
        None => string_of(&chars_of(instance_id)),
    };
    let cpu_limit_percent = match json_u64_field(manifest, "cpu_limit_percent") {
        Some(c) => c as u32,
        None => 100,
    };
    let ram_limit_mb = match json_u64_field(manifest, "ram_limit_mb") {
        Some(m) => m as u32,
        None => 2048,
    };
    Some(InstanceSettings { game_id, display_name, cpu_limit_percent, ram_limit_mb })
}

/// The settings guessed from the template whose files were found: its id,
/// name and default limits; without one, "unknown", the instance id, 100 %
/// and 2048 MB.
pub fn template_settings(found: Option<&GameTemplate>, instance_id: &str) -> (r: InstanceSettings)
    ensures
        match found {
            Some(t) => settings_fields(r) == (
                t.id@,
                t.name@,
                t.default_cpu_limit_percent,
                t.default_ram_limit_mb,
            ),
            None => settings_fields(r) == ("unknown"@, instance_id@, 100u32, 2048u32),
        },
{
    match found {
        Some(t) => InstanceSettings {
            game_id: string_of(&chars_of(t.id.as_str())),
            display_name: string_of(&chars_of(t.name.as_str())),
            cpu_limit_percent: t.default_cpu_limit_percent,
            ram_limit_mb: t.default_ram_limit_mb,
        },
        None => InstanceSettings {
            game_id: string_of(&chars_of("unknown")),
            display_name: string_of(&chars_of(instance_id)),
            cpu_limit_percent: 100,
            ram_limit_mb: 2048,
        },
    }
}

/// The command that prints `yes` when `install_path/signature` is a file.
pub open spec fn signature_check_text(install_path: Seq<char>, signature: Seq<char>) -> Seq<char> {
    "test -f "@ + shell_quoted(install_path) + "/"@ + shell_quoted(signature) + " && echo yes"@
}

/// `checks` are the signature checks of `templates` for `install_path`: for
/// each template with a signature file, in template order, its index and
/// the command that tests for that file, and nothing else.
pub open spec fn are_signature_checks(
    templates: Seq<GameTemplate>,
    install_path: Seq<char>,
    checks: Seq<(usize, String)>,
) -> bool {
    &&& forall|k: int|
        0 <= k < checks.len() ==> {
            let (i, cmd) = #[trigger] checks[k];
            &&& i < templates.len()
            &&& signature_path(templates[i as int].start_command@) is Some
            &&& cmd@ == signature_check_text(
                install_path,
                signature_path(templates[i as int].start_command@)->0,
            )
        }
    &&& forall|k: int, l: int| 0 <= k < l < checks.len() ==> checks[k].0 < checks[l].0
    &&& forall|i: int|
        0 <= i < templates.len() && signature_path(templates[i].start_command@) is Some
            ==> exists|k: int| 0 <= k < checks.len() && (#[trigger] checks[k]).0 == i
}

/// The checks that guess an instance's game from its files: for each
/// template with a signature file, in order, its index and the command that
/// tests for that file.
pub fn signature_checks(templates: &Vec<GameTemplate>, install_path: &str) -> (r: Vec<(usize, String)>)
    ensures
        are_signature_checks(templates@, install_path@, r@),
{
    let quoted_path = shell_single_quote(install_path);
    let mut out: Vec<(usize, String)> = Vec::new();
    let mut i: usize = 0;
    while i < templates.len()
        invariant
            i <= templates@.len(),
            quoted_path@ == shell_quoted(install_path@),
            forall|k: int|
                0 <= k < out@.len() ==> {
                    let (j, cmd) = #[trigger] out@[k];
                    &&& j < i
                    &&& signature_path(templates@[j as int].start_command@) is Some
                    &&& cmd@ == signature_check_text(
                        install_path@,
                        signature_path(templates@[j as int].start_command@)->0,
                    )
                },
            forall|k: int, l: int| 0 <= k < l < out@.len() ==> out@[k].0 < out@[l].0,
            forall|j: int|
                0 <= j < i && signature_path(templates@[j].start_command@) is Some ==> exists|k: int|
                    0 <= k < out@.len() && (#[trigger] out@[k]).0 == j,
        decreases templates@.len() - i,
    {
        match signature_path_for_template(&templates[i]) {
            Some(sig) => {
                let mut cmd: Vec<char> = Vec::new();
                push_str(&mut cmd, "test -f ");
                push_str(&mut cmd, quoted_path.as_str());
                push_str(&mut cmd, "/");
                let q = shell_single_quote(sig.as_str());
                push_str(&mut cmd, q.as_str());
                push_str(&mut cmd, " && echo yes");
                let ghost before = out@;
                out.push((i, string_of(&cmd)));
                proof {
                    assert forall|j: int|
                        0 <= j < i + 1 && signature_path(templates@[j].start_command@) is Some
                            implies exists|k: int|
                        0 <= k < out@.len() && (#[trigger] out@[k]).0 == j by {
                        if j == i {
                            assert(out@[before.len() as int].0 == j);
                        } else {
                            let k = choose|k: int| 0 <= k < before.len() && (#[trigger] before[k]).0 == j;
                            assert(out@[k] == before[k]);
                        }
                    }
                }
            },
            None => {},
        }
        i = i + 1;
    }
    out
}

/// Whether a signature check printed `yes`.
pub fn signature_found(output: &str) -> (r: bool)
    ensures
        r == (trim(output@) == "yes"@),
{
    let t = trimmed(&chars_of(output));
    same_chars(&t, &chars_of("yes"))
}

/// The record of a rediscovered instance.
pub fn discovered_record(
    server_id: &str,
    unit_name: &str,
    instance_id: &str,
    settings: InstanceSettings,
) -> (r: InstanceRecord)
    ensures
        r.id@ == instance_id@,
        r.server_id@ == server_id@,
        r.game_id == settings.game_id,
        r.display_name == settings.display_name,
        r.install_path@ == instances_root() + instance_id@,
        r.systemd_unit@ == unit_name@,
        r.cpu_limit_percent == settings.cpu_limit_percent,
        r.ram_limit_mb == settings.ram_limit_mb,
{
    let mut path: Vec<char> = Vec::new();
    push_str(&mut path, "/home/gameserver/instances/");
    push_str(&mut path, instance_id);
    InstanceRecord {
        id: string_of(&chars_of(instance_id)),
        server_id: string_of(&chars_of(server_id)),
        game_id: settings.game_id,
        display_name: settings.display_name,
        install_path: string_of(&path),
        systemd_unit: string_of(&chars_of(unit_name)),
        cpu_limit_percent: settings.cpu_limit_percent,
        ram_limit_mb: settings.ram_limit_mb,
    }
}


/// The record of a freshly installed instance: its install directory and
/// unit follow from its id, its limits are the template's defaults.
pub fn installed_record(
    server_id: String,
    game_id: String,
    display_name: String,
    instance_id: &str,
    template: &GameTemplate,
) -> (r: InstanceRecord)
    ensures
        r.id@ == instance_id@,
        r.server_id == server_id,
        r.game_id == game_id,
        r.display_name == display_name,
        r.install_path@ == instances_root() + instance_id@,
        r.systemd_unit@ == "novanexus-"@ + instance_id@,
        r.cpu_limit_percent == template.default_cpu_limit_percent,
        r.ram_limit_mb == template.default_ram_limit_mb,
{
    let mut path: Vec<char> = Vec::new();
    push_str(&mut path, "/home/gameserver/instances/");
    push_str(&mut path, instance_id);
    let mut unit: Vec<char> = Vec::new();
    push_str(&mut unit, "novanexus-");
    push_str(&mut unit, instance_id);
    InstanceRecord {
        id: string_of(&chars_of(instance_id)),
        server_id,
        game_id,
        display_name,
        install_path: string_of(&path),
        systemd_unit: string_of(&unit),
        cpu_limit_percent: template.default_cpu_limit_percent,
        ram_limit_mb: template.default_ram_limit_mb,
    }
}

} // verus!
