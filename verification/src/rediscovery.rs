//! Rediscovering a server's instances one command at a time: the decisions
//! of the rediscovery run (which command to run next, and what its output
//! means) as a state machine; whoever holds the SSH session runs each
//! command and hands the output back.
use vstd::prelude::*;
use crate::commands::{instance_dir, manifest_read_command};
use crate::discovery::{
    are_signature_checks, discovered_record, discovery_candidates, discovery_candidates_of, known_ids,
    lemma_candidates_are_new, manifest_settings, manifest_settings_of, signature_checks, signature_found,
    template_settings, InstanceRecord, InstanceSettings,
};
use crate::games::GameTemplate;
use crate::paths::instances_root;
use crate::text::{lines_of, trim};

verus! {

/// `r` is the record of instance `id` under `unit` on `server_id`, with
/// game, display name and limits `fields`.
pub open spec fn record_is(
    r: InstanceRecord,
    server_id: Seq<char>,
    unit: Seq<char>,
    id: Seq<char>,
    fields: (Seq<char>, Seq<char>, u32, u32),
) -> bool {
    &&& r.id@ == id
    &&& r.server_id@ == server_id
    &&& r.systemd_unit@ == unit
    &&& r.install_path@ == instances_root() + id
    &&& (r.game_id@, r.display_name@, r.cpu_limit_percent, r.ram_limit_mb) == fields
}

/// `r` is an instance of `server_id` named by its id: a non-empty id, the
/// unit `novanexus-<id>` and the install directory of that id.
pub open spec fn record_named(r: InstanceRecord, server_id: Seq<char>) -> bool {
    &&& r.id@.len() > 0
    &&& r.server_id@ == server_id
    &&& r.systemd_unit@ == "novanexus-"@ + r.id@
    &&& r.install_path@ == instances_root() + r.id@
}

/// The settings of an instance whose game could not be told.
pub open spec fn unknown_fields(id: Seq<char>) -> (Seq<char>, Seq<char>, u32, u32) {
    ("unknown"@, id, 100u32, 2048u32)
}

/// The settings taken from the template whose files were found.
pub open spec fn template_fields(t: GameTemplate) -> (Seq<char>, Seq<char>, u32, u32) {
    (t.id@, t.name@, t.default_cpu_limit_percent, t.default_ram_limit_mb)
}

/// A rediscovery run: the candidate units still to look at, the records
/// made so far, and, while an instance's game is being guessed from its
/// files, the signature check whose output is awaited.
pub struct Discovery {
    server_id: String,
    templates: Vec<GameTemplate>,
    candidates: Vec<(String, String)>,
    next: usize,
    checks: Vec<(usize, String)>,
    probe: Option<usize>,
    records: Vec<InstanceRecord>,
}

impl Discovery {
    /// The server whose instances are rediscovered.
    pub closed spec fn server(&self) -> Seq<char> {
        self.server_id@
    }

    /// The game templates that files are matched against.
    pub closed spec fn templates_view(&self) -> Seq<GameTemplate> {
        self.templates@
    }

    /// The (unit, instance id) pairs to rediscover, in listing order.
    pub closed spec fn candidates_view(&self) -> Seq<(Seq<char>, Seq<char>)> {
        self.candidates@.map_values(|p: (String, String)| (p.0@, p.1@))
    }

    /// How many candidates have their record.
    pub closed spec fn done(&self) -> nat {
        self.next as nat
    }

    /// The signature checks of the instance being guessed.
    pub closed spec fn checks_view(&self) -> Seq<(usize, String)> {
        self.checks@
    }

    /// Which signature check's output is awaited; `None` while the next
    /// candidate's manifest is awaited.
    pub closed spec fn probe_index(&self) -> Option<usize> {
        self.probe
    }

    /// The records made so far, one per finished candidate.
    pub closed spec fn records_view(&self) -> Seq<InstanceRecord> {
        self.records@
    }

    /// Every candidate is a unit `novanexus-<id>` with a non-empty id, each
    /// finished candidate has its record, and a check is awaited only for
    /// an unfinished candidate, among that candidate's signature checks.
    pub closed spec fn wf(&self) -> bool {
        &&& self.next <= self.candidates@.len()
        &&& self.records@.len() == self.next
        &&& forall|k: int|
            0 <= k < self.candidates@.len() ==> {
                let p = #[trigger] self.candidates@[k];
                &&& p.0@ == "novanexus-"@ + p.1@
                &&& p.1@.len() > 0
            }
        &&& forall|k: int|
            0 <= k < self.next ==> {
                &&& record_named(#[trigger] self.records@[k], self.server_id@)
                &&& self.records@[k].id@ == self.candidates@[k].1@
            }
        &&& match self.probe {
            Some(k) => {
                &&& self.next < self.candidates@.len()
                &&& k < self.checks@.len()
                &&& are_signature_checks(
                    self.templates@,
                    instances_root() + self.candidates@[self.next as int].1@,
                    self.checks@,
                )
            },
            None => true,
        }
    }

    /// Starts rediscovering the GlimaNexus units of `unit_list` that
    /// `known` does not hold.
    pub fn start(server_id: &str, unit_list: &str, known: &Vec<String>, templates: Vec<GameTemplate>) -> (d:
        Self)
        ensures
            d.wf(),
            d.server() == server_id@,
            d.templates_view() == templates@,
            d.candidates_view() == discovery_candidates_of(lines_of(unit_list@), known_ids(known@)),
            d.done() == 0,
            d.probe_index() is None,
            d.records_view().len() == 0,
    {
        let candidates = discovery_candidates(unit_list, known);
        proof {
            let all = discovery_candidates_of(lines_of(unit_list@), known_ids(known@));
            lemma_candidates_are_new(lines_of(unit_list@), known_ids(known@));
            assert forall|k: int| 0 <= k < candidates@.len() implies {
                let p = #[trigger] candidates@[k];
                &&& p.0@ == "novanexus-"@ + p.1@
                &&& p.1@.len() > 0
            } by {
                let m = candidates@.map_values(|p: (String, String)| (p.0@, p.1@));
                assert(m[k] == all[k]);
            }
        }
        Discovery {
            server_id: crate::text::string_of(&crate::text::chars_of(server_id)),
            templates,
            candidates,
            next: 0,
            checks: Vec::new(),
            probe: None,
            records: Vec::new(),
        }
    }

    /// The command whose output the run needs next: the manifest read of
    /// the next candidate, or the awaited signature check; `None` once
    /// every candidate has its record.
    pub fn next_command(&self) -> (r: Option<String>)
        requires
            self.wf(),
        ensures
            self.done() == self.candidates_view().len() ==> r is None,
            self.done() < self.candidates_view().len() && self.probe_index() is None ==> (r matches Some(
                c,
            ) && c@ == "sudo cat "@ + instances_root() + self.candidates_view()[self.done() as int].1
                + "/.glimanexus-instance.json 2>/dev/null"@),
            self.probe_index() matches Some(k) ==> (r matches Some(c) && c@ == self.checks_view()[k as int].1@),
    {
        if self.next == self.candidates.len() {
            return None;
        }
        match self.probe {
            None => {
                let path = instance_dir(self.candidates[self.next].1.as_str());
                Some(manifest_read_command(path.as_str()))
            },
            Some(k) => Some(crate::text::string_of(&crate::text::chars_of(self.checks[k].1.as_str()))),
        }
    }

    /// Gives the next candidate its record with `settings`.
    fn finish(&mut self, settings: InstanceSettings)
        requires
            old(self).wf(),
            old(self).next < old(self).candidates@.len(),
        ensures
            final(self).wf(),
            final(self).server_id == old(self).server_id,
            final(self).templates == old(self).templates,
            final(self).candidates == old(self).candidates,
            final(self).checks == old(self).checks,
            final(self).next == old(self).next + 1,
            final(self).probe is None,
            final(self).records@.drop_last() == old(self).records@,
            final(self).records@.len() == old(self).records@.len() + 1,
            record_is(
                final(self).records@.last(),
                old(self).server_id@,
                old(self).candidates@[old(self).next as int].0@,
                old(self).candidates@[old(self).next as int].1@,
                (settings.game_id@, settings.display_name@, settings.cpu_limit_percent, settings.ram_limit_mb),
            ),
    {
        let i = self.next;
        let count = self.candidates.len();
        assert(i < count);
        let n = i + 1;
        let r = discovered_record(
            self.server_id.as_str(),
            self.candidates[i].0.as_str(),
            self.candidates[i].1.as_str(),
            settings,
        );
        self.records.push(r);
        self.next = n;
        self.probe = None;
        proof {
            assert(self.records@.drop_last() =~= old(self).records@);
            assert forall|k: int| 0 <= k < self.next implies {
                &&& record_named(#[trigger] self.records@[k], self.server_id@)
                &&& self.records@[k].id@ == self.candidates@[k].1@
            } by {
                if k < i {
                    assert(self.records@[k] == old(self).records@[k]);
                } else {
                    let p = self.candidates@[k];
                    assert(p.0@ == "novanexus-"@ + p.1@);
                }
            }
        }
    }

    /// Takes the output of the command `next_command` gave. A manifest that
    /// is JSON gives the candidate its record; otherwise the candidate's
    /// game is guessed from its files, one signature check after another in
    /// template order, the first check that prints `yes` naming the
    /// template; when none does (or no template has a signature file), the
    /// game stays unknown.
    pub fn on_output(&mut self, output: &str)
        requires
            old(self).wf(),
            old(self).done() < old(self).candidates_view().len(),
        ensures
            final(self).wf(),
            final(self).server() == old(self).server(),
            final(self).templates_view() == old(self).templates_view(),
            final(self).candidates_view() == old(self).candidates_view(),
            ({
                let (unit, id) = old(self).candidates_view()[old(self).done() as int];
                match old(self).probe_index() {
                    None => match manifest_settings_of(output@, id) {
                        Some(f) => pushed(*old(self), *final(self), unit, id, f),
                        None => {
                            &&& are_signature_checks(
                                old(self).templates_view(),
                                instances_root() + id,
                                final(self).checks_view(),
                            )
                            &&& final(self).checks_view().len() == 0 ==> pushed(
                                *old(self),
                                *final(self),
                                unit,
                                id,
                                unknown_fields(id),
                            )
                            &&& final(self).checks_view().len() > 0 ==> probing(
                                *old(self),
                                *final(self),
                                0,
                            )
                        },
                    },
                    Some(k) => {
                        let t = old(self).templates_view()[old(self).checks_view()[k as int].0 as int];
                        &&& trim(output@) == "yes"@ ==> pushed(
                            *old(self),
                            *final(self),
                            unit,
                            id,
                            template_fields(t),
                        )
                        &&& trim(output@) != "yes"@ && k + 1 < old(self).checks_view().len()
                            ==> (probing(*old(self), *final(self), (k + 1) as usize)
                            && final(self).checks_view() == old(self).checks_view())
                        &&& trim(output@) != "yes"@ && k + 1 >= old(self).checks_view().len()
                            ==> pushed(*old(self), *final(self), unit, id, unknown_fields(id))
                    },
                }
            }),
    {
        proof {
            assert(self.candidates_view()[self.next as int] == (
                self.candidates@[self.next as int].0@,
                self.candidates@[self.next as int].1@,
            ));
        }
        let i = self.next;
        match self.probe {
            None => {
                match manifest_settings(output, self.candidates[i].1.as_str()) {
                    Some(s) => {
                        self.finish(s);
                    },
                    None => {
                        let path = instance_dir(self.candidates[i].1.as_str());
                        let checks = signature_checks(&self.templates, path.as_str());
                        self.checks = checks;
                        if self.checks.len() == 0 {
                            let s = template_settings(None, self.candidates[i].1.as_str());
                            self.finish(s);
                        } else {
                            self.probe = Some(0);
                        }
                    },
                }
            },
            Some(k) => {
                let m = self.checks.len();
                assert(k < m);
                if signature_found(output) {
                    let ti = self.checks[k].0;
                    let s = template_settings(Some(&self.templates[ti]), self.candidates[i].1.as_str());
                    self.finish(s);
                } else if k + 1 < m {
                    self.probe = Some(k + 1);
                } else {
                    let s = template_settings(None, self.candidates[i].1.as_str());
                    self.finish(s);
                }
            },
        }
    }

    /// The records of the run. Every one is an instance of the run's
    /// server named by its id, one per candidate handled, in order.
    pub fn into_records(self) -> (r: Vec<InstanceRecord>)
        requires
            self.wf(),
        ensures
            r@ == self.records_view(),
            forall|k: int| 0 <= k < r@.len() ==> record_named(#[trigger] r@[k], self.server()),
    {
        self.records
    }
}

/// One step finished the candidate (`unit`, `id`): its record, with
/// settings `fields`, follows the earlier ones, and the manifest of the
/// next candidate is awaited.
pub open spec fn pushed(
    before: Discovery,
    after: Discovery,
    unit: Seq<char>,
    id: Seq<char>,
    fields: (Seq<char>, Seq<char>, u32, u32),
) -> bool {
    &&& after.done() == before.done() + 1
    &&& after.probe_index() is None
    &&& after.records_view().len() == before.records_view().len() + 1
    &&& after.records_view().drop_last() == before.records_view()
    &&& record_is(after.records_view().last(), before.server(), unit, id, fields)
}

/// One step moved on to the signature check `k` of the same candidate.
pub open spec fn probing(before: Discovery, after: Discovery, k: usize) -> bool {
    &&& after.done() == before.done()
    &&& after.records_view() == before.records_view()
    &&& after.probe_index() == Some(k)
}

/// Every record a rediscovery run makes names an instance of the run's
/// server by its id: a non-empty id, the unit `novanexus-<id>` and the
/// install directory of that id, the id being that of the candidate unit
/// it was made for.
pub proof fn lemma_rediscovered_records_named(d: Discovery)
    requires
        d.wf(),
    ensures
        d.records_view().len() == d.done(),
        forall|k: int|
            0 <= k < d.records_view().len() ==> {
                &&& record_named(#[trigger] d.records_view()[k], d.server())
                &&& d.records_view()[k].id@ == d.candidates_view()[k].1
            },
{
    assert forall|k: int| 0 <= k < d.records_view().len() implies {
        &&& record_named(#[trigger] d.records_view()[k], d.server())
        &&& d.records_view()[k].id@ == d.candidates_view()[k].1
    } by {
        assert(d.candidates_view()[k] == (d.candidates@[k].0@, d.candidates@[k].1@));
    }
}

} // verus!
