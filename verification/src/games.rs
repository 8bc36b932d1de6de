//! Game templates: what a game needs installed and how it is started, and
//! the substitution of an instance's values into a template's commands.
use vstd::prelude::*;
use crate::provisioning::quote_escaped;
use crate::text::{
    chars_of, push_all, push_str, contains_seq, decimal, find, find_seq, first_word, has_prefix, lemma_find_seq,
    lemma_replace_absent, occurs_at, push_decimal, replace, replace_all, slice_of, split_words, starts_with,
    str_eq, string_of,
};

verus! {

/// How a game gets installed: a kind tag and shell steps run one after the
/// other.
#[derive(Clone, Debug)]
pub struct GameInstall {
    pub install_type: String,
    pub steps: Vec<String>,
}

/// A game that can be installed on a managed server.
#[derive(Clone, Debug)]
pub struct GameTemplate {
    pub id: String,
    pub name: String,
    pub subtitle: String,
    pub icon: String,
    pub requires: Vec<String>,
    pub install: GameInstall,
    pub start_command: String,
    pub default_cpu_limit_percent: u32,
    pub default_ram_limit_mb: u32,
}

/// Index of the first template whose id is `id`.
pub open spec fn first_with_id(ts: Seq<GameTemplate>, id: Seq<char>) -> Option<int>
    decreases ts.len(),
{
    if ts.len() == 0 {
        None
    } else if ts[0].id@ == id {
        Some(0)
    } else {
        match first_with_id(ts.drop_first(), id) {
            Some(i) => Some(i + 1),
            None => None,
        }
    }
}

/// `first_with_id` is the first index whose template carries the id.
pub proof fn lemma_first_with_id(ts: Seq<GameTemplate>, id: Seq<char>)
    ensures
        match first_with_id(ts, id) {
            Some(i) => 0 <= i < ts.len() && ts[i].id@ == id && forall|j: int|
                0 <= j < i ==> ts[j].id@ != id,
            None => forall|j: int| 0 <= j < ts.len() ==> ts[j].id@ != id,
        },
    decreases ts.len(),
{
    if ts.len() > 0 && ts[0].id@ != id {
        lemma_first_with_id(ts.drop_first(), id);
        match first_with_id(ts.drop_first(), id) {
            Some(i) => {
                assert forall|j: int| 0 <= j < i + 1 implies ts[j].id@ != id by {
                    if j > 0 {
                        assert(ts[j] == ts.drop_first()[j - 1]);
                    }
                }
            },
            None => {
                assert forall|j: int| 0 <= j < ts.len() implies ts[j].id@ != id by {
                    if j > 0 {
                        assert(ts[j] == ts.drop_first()[j - 1]);
                    }
                }
            },
        }
    }
}

/// The first of `templates` whose id is `game_id`.
pub fn find_template(templates: Vec<GameTemplate>, game_id: &str) -> (r: Option<GameTemplate>)
    ensures
        match first_with_id(templates@, game_id@) {
            Some(i) => r == Some(templates@[i]),
            None => r is None,
        },
{
    let mut pool = templates;
    let ghost all = pool@;
    proof {
        lemma_first_with_id(all, game_id@);
    }
    let mut i: usize = 0;
    while i < pool.len()
        invariant
            pool@ == all,
            all == templates@,
            i <= all.len(),
            forall|j: int| 0 <= j < i ==> all[j].id@ != game_id@,
        decreases all.len() - i,
    {
        if str_eq(pool[i].id.as_str(), game_id) {
            proof {
                lemma_first_with_id(all, game_id@);
                assert(all[i as int].id@ == game_id@);
                assert(first_with_id(all, game_id@) is Some);
                assert(first_with_id(all, game_id@)->0 == i);
            }
            let t = pool.remove(i);
            assert(t == all[i as int]);
            return Some(t);
        }
        i = i + 1;
    }
    proof {
        lemma_first_with_id(all, game_id@);
        if first_with_id(all, game_id@) is Some {
            let k = first_with_id(all, game_id@)->0;
            assert(all[k].id@ == game_id@);
        }
    }
    None
}

/// The error for a game id that no template has.
pub open spec fn unknown_game_text(game_id: Seq<char>) -> Seq<char> {
    "Unbekanntes Spiel: "@ + game_id
}

/// The template of `game_id`, as installing and updating need it: the first
/// template with that id, or the unknown-game error when there is none.
pub fn template_for_game(templates: Vec<GameTemplate>, game_id: &str) -> (r: Result<GameTemplate, String>)
    ensures
        match first_with_id(templates@, game_id@) {
            Some(i) => r == Ok::<GameTemplate, String>(templates@[i]),
            None => r matches Err(m) && m@ == unknown_game_text(game_id@),
        },
{
    match find_template(templates, game_id) {
        Some(t) => Ok(t),
        None => {
            let mut m: Vec<char> = Vec::new();
            push_str(&mut m, "Unbekanntes Spiel: ");
            push_str(&mut m, game_id);
            Err(string_of(&m))
        },
    }
}

/// `template` with `{instance_id}` replaced by the instance id and then
/// `{ram_limit_mb}` replaced by the RAM limit in decimal.
pub open spec fn rendered_step(template: Seq<char>, instance_id: Seq<char>, ram_limit_mb: u32) -> Seq<
    char,
> {
    replace_all(
        replace_all(template, "{instance_id}"@, instance_id),
        "{ram_limit_mb}"@,
        decimal(ram_limit_mb as nat),
    )
}

/// Substitutes `{instance_id}` / `{ram_limit_mb}` placeholders in install steps and start command.
pub fn render_step(template: &str, instance_id: &str, ram_limit_mb: u32) -> (r: String)
    ensures
        r@ == rendered_step(template@, instance_id@, ram_limit_mb),
{
    let id_tag = chars_of("{instance_id}");
    let ram_tag = chars_of("{ram_limit_mb}");
    proof {
        reveal_strlit("{instance_id}");
        reveal_strlit("{ram_limit_mb}");
    }
    let text = chars_of(template);
    let id = chars_of(instance_id);
    let mut ram: Vec<char> = Vec::new();
    push_decimal(&mut ram, ram_limit_mb);
    assert(ram@ =~= decimal(ram_limit_mb as nat));
    let once = replace(&text, &id_tag, &id);
    let twice = replace(&once, &ram_tag, &ram);
    string_of(&twice)
}

/// A template without placeholders renders to itself.
pub proof fn lemma_render_without_placeholders(
    template: Seq<char>,
    instance_id: Seq<char>,
    ram_limit_mb: u32,
)
    requires
        !contains_seq(template, "{instance_id}"@),
        !contains_seq(template, "{ram_limit_mb}"@),
    ensures
        rendered_step(template, instance_id, ram_limit_mb) == template,
{
    lemma_replace_absent(template, "{instance_id}"@, instance_id);
    lemma_replace_absent(template, "{ram_limit_mb}"@, decimal(ram_limit_mb as nat));
}

/// The file a start command runs, relative to the install directory: the
/// first word after a leading `./`, or else the first word after the first
/// `-jar `.
pub open spec fn signature_path(start_command: Seq<char>) -> Option<Seq<char>> {
    if starts_with(start_command, "./"@) {
        first_word(start_command.skip(2))
    } else {
        match find_seq(start_command, "-jar "@) {
            Some(i) => first_word(start_command.skip(i + 5)),
            None => None,
        }
    }
}

/// Extracts the file a template's start command would run, relative to the install directory,
/// so instance discovery can test for its existence to guess a game when there's no manifest.
/// Handles both `./binary args...` and `java ... -jar name.jar ...` style commands.
pub fn signature_path_for_template(t: &GameTemplate) -> (r: Option<String>)
    ensures
        match signature_path(t.start_command@) {
            Some(p) => r is Some && r->0@ == p,
            None => r is None,
        },
{
    let cmd = chars_of(t.start_command.as_str());
    let dot_slash = chars_of("./");
    let jar = chars_of("-jar ");
    proof {
        reveal_strlit("./");
        reveal_strlit("-jar ");
    }
    if has_prefix(&cmd, &dot_slash) {
        let rest = slice_of(&cmd, 2, cmd.len());
        assert(rest@ =~= cmd@.skip(2));
        return first_word_of(&rest);
    }
    match find(&cmd, &jar) {
        Some(idx) => {
            proof {
                lemma_find_seq(cmd@, jar@);
                assert(jar@.len() == 5);
                assert(occurs_at(cmd@, jar@, idx as int));
                assert(idx + 5 <= cmd@.len());
            }
            let after = slice_of(&cmd, idx + 5, cmd.len());
            assert(after@ =~= cmd@.skip(idx + 5));
            first_word_of(&after)
        },
        None => None,
    }
}

/// The first word of `s`, as a string.
fn first_word_of(s: &[char]) -> (r: Option<String>)
    ensures
        match first_word(s@) {
            Some(w) => r is Some && r->0@ == w,
            None => r is None,
        },
{
    let ws = split_words(s);
    if ws.len() > 0 {
        Some(string_of(&ws[0]))
    } else {
        None
    }
}

/// `text` as one single-quoted shell word.
pub open spec fn shell_quoted(text: Seq<char>) -> Seq<char> {
    "'"@ + quote_escaped(text) + "'"@
}

/// Quotes `text` for the shell so that it stays one word and no character in
/// it is interpreted.
pub fn shell_single_quote(text: &str) -> (r: String)
    ensures
        r@ == shell_quoted(text@),
{
    let quote = chars_of("'");
    let escaped_quote = chars_of("'\\''");
    proof {
        reveal_strlit("'");
    }
    let escaped = replace(&chars_of(text), &quote, &escaped_quote);
    let mut out: Vec<char> = Vec::new();
    push_str(&mut out, "'");
    push_all(&mut out, &escaped);
    push_str(&mut out, "'");
    string_of(&out)
}

} // verus!
