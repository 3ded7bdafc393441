//! The roles that turn subagents into an org.
//!
//! Depth alone does not make a hierarchy useful. What makes it work is two roles
//! with different jobs and different hardware: a lead that keeps the whole picture
//! and delegates, and workers that each finish one self-contained piece on a small
//! local model.

use vstd::prelude::*;
use crate::text::{ends_with, signed_decimal, signed_text, text_option, texts};
use super::commands::refusal;
use super::config::{
    edits_view, push_edit, set_text, text_edit, ConfigEdit, ConfigValue, EditView, ValueView,
};
use super::toml_reader::read_document;
use super::role_files::{lead_role_file, role_entries, role_file_text, worker_role_file};
use super::id_char;

verus! {

/// Directory under the home directory that holds generated role files.
pub const ROLES_DIR: &'static str = "agents";

pub const LEAD_ROLE: &'static str = "lead";

pub const WORKER_ROLE: &'static str = "worker";

pub const LEAD_DESCRIPTION: &'static str = "Runs a team. Give it one domain — frontend, backend, tests, docs — \
and it breaks that domain down, spawns its own workers, reviews their results, and reports back. \
Runs on your model.";

pub const WORKER_DESCRIPTION: &'static str = "Does one self-contained piece of work and reports what it did. \
Runs on a small local model, so brief it fully and expect no memory of your conversation.";

pub const LEAD_INSTRUCTIONS: &'static str = "\
You lead a team. You were given one domain to own.

Break it into pieces small enough that one worker can finish a piece in a
single sitting, then spawn a worker per piece with agent_type \"worker\". Work
the pieces in parallel where they do not touch the same files.

Your workers run on a small local model and cannot see your conversation, so
each brief has to stand on its own: which files to touch, what done looks like,
and how to verify it. Point at the project's own checks rather than describing
them.

Review what comes back before you pass it up. When a result is wrong or
incomplete, say what is wrong and send it back rather than fixing it yourself —
you are the only one holding the whole picture, and your context is the scarce
resource here.

Report to whoever spawned you: what changed, what you verified, what is still
open. Keep it short; they are coordinating several of you.
";

pub const WORKER_INSTRUCTIONS: &'static str = "\
You are one worker on a team. You were handed a self-contained piece of work.
Finish that piece and nothing else.

Read the code before changing it — you do not have the context your lead has,
so guessing is expensive. Run the project's own checks on what you touched.

If the brief turns out to be wrong, or you are blocked, say so in your report
instead of widening the task. Your lead can re-scope; you cannot see enough to
do it safely.

Report back three things: what you changed, what you ran and what it said, and
anything you could not do.
";

/// How to install a team.
#[derive(Debug, PartialEq, Eq)]
pub struct TeamArgs {
    /// Provider the workers run on. Defaults to the authorized endpoint that answers.
    pub local_provider: Option<String>,
    /// Model the workers run. Defaults to what the endpoint serves.
    pub local_model: Option<String>,
    /// How many levels of agents may spawn further agents.
    pub depth: i32,
    /// Write the roles and configuration instead of only describing them.
    pub write: bool,
    /// Overwrite role files that already exist.
    pub force: bool,
}

/// Why a depth is refused, where it is.
pub open spec fn depth_refused(depth: int) -> Option<Seq<char>> {
    if depth < 2 {
        Some("--depth must be at least 2 for leads to run teams of their own"@)
    } else {
        None
    }
}

/// Checks that the depth gives leads teams of their own.
pub fn check_depth(depth: i32) -> (checked: Result<(), String>)
    ensures
        refusal(checked) == depth_refused(depth as int),
{
    if depth < 2 {
        return Err("--depth must be at least 2 for leads to run teams of their own".to_owned());
    }
    Ok(())
}

/// A path as it is written to the configuration, with slashes only.
pub open spec fn slashed(path: Seq<char>) -> Seq<char> {
    path.map_values(
        |c: char|
            if c == '\\' {
                '/'
            } else {
                c
            },
    )
}

/// Writes a path with slashes only.
pub fn path_for_config(path: &str) -> (text: String)
    ensures
        text@ == slashed(path@),
{
    let mut text = String::new();
    for c in it: path.chars()
        invariant
            it.seq() == path@,
            text@ == slashed(path@.take(it.index())),
    {
        if c == '\\' {
            text.push('/');
        } else {
            text.push(c);
        }
        assert(text@ =~= slashed(path@.take(it.index() + 1)));
    }
    assert(path@.take(path@.len() as int) =~= path@);
    text
}

/// `path` is what `std::path::Path::join` makes of a directory and a name, on one
/// machine or another.
pub uninterp spec fn joins_to(directory: Seq<char>, name: Seq<char>, path: Seq<char>) -> bool;

/// `relative` is what `std::path::Path::strip_prefix` makes of a path and a
/// directory, on one machine or another; there is none where the path is not under
/// the directory.
pub uninterp spec fn strips_to(
    path: Seq<char>,
    directory: Seq<char>,
    relative: Option<Seq<char>>,
) -> bool;

/// A plain file name: letters, digits, hyphens, underscores and dots, with no dot at
/// its end.
pub open spec fn plain_name(name: Seq<char>) -> bool {
    &&& name.len() > 0
    &&& name.last() != '.'
    &&& forall|i: int| 0 <= i < name.len() ==> id_char(#[trigger] name[i]) || name[i] == '.'
}

/// A character that parts the components of a path on some machine.
pub open spec fn separates(c: char) -> bool {
    c == '/' || c == '\\' || c == ':'
}

/// `tail` is how the path ends, and starts where a component of it does.
pub open spec fn whole_components(path: Seq<char>, tail: Seq<char>) -> bool {
    &&& ends_with(path, tail)
    &&& 0 < tail.len() < path.len() ==> separates(tail[0]) || separates(
        path[path.len() - tail.len() - 1],
    )
}

/// `std::path::Path::join`: the name adjoined to the directory, so that the path ends
/// in the name where that is a plain one. What separates them is the machine's, and
/// is left unsaid.
#[verifier::external_body]
fn join_path(directory: &str, name: &str) -> (path: String)
    ensures
        joins_to(directory@, name@, path@),
        plain_name(name@) ==> ends_with(path@, name@),
{
    std::path::Path::new(directory).join(name).to_string_lossy().into_owned()
}

/// `std::path::Path::strip_prefix`: the path as seen from the directory, where it is
/// under it. Whole components are taken away, so what is left is how the path ends,
/// where that is in a name and not in a separator or a dot. Which paths are under
/// which directories is the machine's, and is left unsaid.
#[verifier::external_body]
fn strip_directory(path: &str, directory: &str) -> (relative: Option<String>)
    ensures
        strips_to(path@, directory@, text_option(relative)),
        path@.len() > 0 && !separates(path@.last()) && path@.last() != '.' ==> (
        relative matches Some(tail) ==> whole_components(path@, tail@)),
{
    std::path::Path::new(path).strip_prefix(directory).ok().map(
        |relative| relative.to_string_lossy().into_owned(),
    )
}

/// The path that is written of a file: the one seen from the home directory, where
/// there is one. A relative path resolves against the configuration that declares
/// it, which keeps a copied home directory working.
pub open spec fn preferred_text(relative: Option<Seq<char>>, file: Seq<char>) -> Seq<char> {
    match relative {
        Some(relative) => relative,
        None => file,
    }
}

/// Chooses the path that is written of a file.
pub fn preferred_path(relative: Option<String>, file: String) -> (path: String)
    ensures
        path@ == preferred_text(text_option(relative), file@),
{
    match relative {
        Some(relative) => relative,
        None => file,
    }
}

/// `path` is written of a role file: the file is its name behind the directory of
/// the roles, and the path is the file as seen from the home directory, or the whole
/// of it where it is not under that.
pub open spec fn written_path(
    roles_dir: Seq<char>,
    codex_home: Seq<char>,
    file_name: Seq<char>,
    path: Seq<char>,
) -> bool {
    exists|file: Seq<char>, relative: Option<Seq<char>>|
        #![trigger joins_to(roles_dir, file_name, file), strips_to(file, codex_home, relative)]
        joins_to(roles_dir, file_name, file) && strips_to(file, codex_home, relative) && path
            == preferred_text(relative, file)
}

/// The path names the file: it ends in the file's name, unless it is empty, as it is
/// where the file itself is taken for the home directory.
pub open spec fn names_file(path: Seq<char>, file_name: Seq<char>) -> bool {
    path.len() == 0 || ends_with(path, file_name)
}

proof fn lemma_names_file(file: Seq<char>, tail: Seq<char>, file_name: Seq<char>)
    requires
        plain_name(file_name),
        ends_with(file, file_name),
        whole_components(file, tail),
    ensures
        names_file(tail, file_name),
{
    let name_at = file.len() - file_name.len();
    let tail_at = file.len() - tail.len();
    assert forall|i: int| 0 <= i < file_name.len() implies #[trigger] file_name[i] == file[name_at
        + i] by {
        assert(file.subrange(name_at, name_at + file_name.len())[i] == file[name_at + i]);
    }
    assert forall|i: int| 0 <= i < tail.len() implies #[trigger] tail[i] == file[tail_at + i] by {
        assert(file.subrange(tail_at, tail_at + tail.len())[i] == file[tail_at + i]);
    }
    if tail.len() >= file_name.len() {
        let at = tail.len() - file_name.len();
        assert(tail.subrange(at, at + file_name.len()) =~= file_name);
    } else if tail.len() > 0 {
        assert(tail[0] == file_name[file_name.len() - tail.len()]);
        assert(file[tail_at - 1] == file_name[file_name.len() - tail.len() - 1]);
    }
}

proof fn lemma_slashed_names_file(path: Seq<char>, file_name: Seq<char>)
    requires
        plain_name(file_name),
        names_file(path, file_name),
    ensures
        names_file(slashed(path), file_name),
{
    if path.len() > 0 {
        let at = path.len() - file_name.len();
        assert forall|i: int| 0 <= i < file_name.len() implies #[trigger] slashed(path)[at + i]
            == file_name[i] by {
            assert(path.subrange(at, at + file_name.len())[i] == path[at + i]);
        }
        assert(slashed(path).subrange(at, at + file_name.len()) =~= file_name);
    }
}

/// The path that is written of a role file. It is what the machine makes of the
/// directories.
fn role_path(roles_dir: &str, codex_home: &str, file_name: &str) -> (path: String)
    ensures
        written_path(roles_dir@, codex_home@, file_name@, path@),
        plain_name(file_name@) ==> names_file(path@, file_name@) && names_file(
            slashed(path@),
            file_name@,
        ),
{
    let file = join_path(roles_dir, file_name);
    let relative = strip_directory(file.as_str(), codex_home);
    proof {
        if plain_name(file_name@) {
            assert(file@.subrange(file@.len() - file_name@.len(), file@.len() as int).last()
                == file@.last());
            if let Some(tail) = text_option(relative) {
                lemma_names_file(file@, tail, file_name@);
                lemma_slashed_names_file(tail, file_name@);
            }
            lemma_slashed_names_file(file@, file_name@);
        }
    }
    preferred_path(relative, file)
}

/// The changes that declare the team, given the paths of its role files.
pub open spec fn team_edits_of(depth: i32, lead_path: Seq<char>, worker_path: Seq<char>) -> Seq<
    EditView,
> {
    seq![
        text_edit("agents"@, LEAD_ROLE@, "description"@, LEAD_DESCRIPTION@),
        text_edit("agents"@, LEAD_ROLE@, "config_file"@, slashed(lead_path)),
        text_edit("agents"@, WORKER_ROLE@, "description"@, WORKER_DESCRIPTION@),
        text_edit("agents"@, WORKER_ROLE@, "config_file"@, slashed(worker_path)),
        EditView {
            segments: seq!["agents"@, "max_depth"@],
            value: ValueView::Integer(depth as i64),
        },
    ]
}

/// Produces the edits that declare the team, given the paths of its role files.
pub fn team_edits_for(depth: i32, lead_path: &str, worker_path: &str) -> (edits: Vec<ConfigEdit>)
    ensures
        edits_view(edits@) == team_edits_of(depth, lead_path@, worker_path@),
{
    let lead_file = path_for_config(lead_path);
    let worker_file = path_for_config(worker_path);
    let mut edits: Vec<ConfigEdit> = Vec::new();
    assert(edits_view(edits@) =~= Seq::<EditView>::empty());
    push_edit(&mut edits, set_text("agents", LEAD_ROLE, "description", LEAD_DESCRIPTION));
    push_edit(&mut edits, set_text("agents", LEAD_ROLE, "config_file", lead_file.as_str()));
    push_edit(&mut edits, set_text("agents", WORKER_ROLE, "description", WORKER_DESCRIPTION));
    push_edit(&mut edits, set_text("agents", WORKER_ROLE, "config_file", worker_file.as_str()));
    let mut segments: Vec<String> = Vec::new();
    segments.push("agents".to_owned());
    segments.push("max_depth".to_owned());
    assert(texts(segments@) =~= seq!["agents"@, "max_depth"@]);
    push_edit(
        &mut edits,
        ConfigEdit::SetPath { segments, value: ConfigValue::Integer(depth as i64) },
    );
    assert(edits_view(edits@) =~= team_edits_of(depth, lead_path@, worker_path@));
    edits
}

/// Produces the edits that declare the team. The paths they hold are what the
/// machine makes of the directories, and name the two role files.
pub fn team_edits(args: &TeamArgs, roles_dir: &str, codex_home: &str) -> (edits: Vec<ConfigEdit>)
    ensures
        exists|lead_path: Seq<char>, worker_path: Seq<char>|
            edits_view(edits@) == #[trigger] team_edits_of(args.depth, lead_path, worker_path)
                && written_path(roles_dir@, codex_home@, "lead.toml"@, lead_path)
                && written_path(roles_dir@, codex_home@, "worker.toml"@, worker_path)
                && names_file(slashed(lead_path), "lead.toml"@) && names_file(
                slashed(worker_path),
                "worker.toml"@,
            ),
{
    proof {
        reveal_strlit("lead.toml");
        reveal_strlit("worker.toml");
    }
    let lead_path = role_path(roles_dir, codex_home, "lead.toml");
    let worker_path = role_path(roles_dir, codex_home, "worker.toml");
    team_edits_for(args.depth, lead_path.as_str(), worker_path.as_str())
}

/// What is said of the team to be installed.
pub open spec fn team_text(provider_id: Seq<char>, model: Seq<char>, depth: i32) -> Seq<char> {
    "lead    your model, inherited from the session\nworker  "@ + model + " on `"@ + provider_id
        + "`\ndepth   "@ + signed_decimal(depth as int)
        + " — leads may run teams of their own\n\n"@
}

/// What is said of the files that would be written.
pub open spec fn would_write_text(lead_path: Seq<char>, worker_path: Seq<char>) -> Seq<char> {
    "Would write:\n  "@ + lead_path + "\n  "@ + worker_path
        + "\n  agents.lead, agents.worker, agents.max_depth in config.toml\n\nRe-run with --write to install them.\n"@
}

/// What is said before anything is written: what the team will be and, where nothing
/// is to be written, what would be.
pub open spec fn team_report_text(
    write: bool,
    provider_id: Seq<char>,
    model: Seq<char>,
    depth: i32,
    lead_path: Seq<char>,
    worker_path: Seq<char>,
) -> Seq<char> {
    if write {
        team_text(provider_id, model, depth)
    } else {
        team_text(provider_id, model, depth) + would_write_text(lead_path, worker_path)
    }
}

/// Says what the team will be and, where nothing is to be written, what would be.
pub fn team_report(
    args: &TeamArgs,
    provider_id: &str,
    model: &str,
    lead_path: &str,
    worker_path: &str,
) -> (text: String)
    ensures
        text@ == team_report_text(
            args.write,
            provider_id@,
            model@,
            args.depth,
            lead_path@,
            worker_path@,
        ),
{
    let mut text = String::from_str("lead    your model, inherited from the session\nworker  ");
    text.append(model);
    text.append(" on `");
    text.append(provider_id);
    text.append("`\ndepth   ");
    text.append(signed_text(args.depth).as_str());
    text.append(" — leads may run teams of their own\n\n");
    if !args.write {
        let mut more = String::from_str("Would write:\n  ");
        more.append(lead_path);
        more.append("\n  ");
        more.append(worker_path);
        more.append(
            "\n  agents.lead, agents.worker, agents.max_depth in config.toml\n\nRe-run with --write to install them.\n",
        );
        text.append(more.as_str());
    }
    text
}

/// Why a role file cannot be written, where it cannot.
pub open spec fn in_the_way(path: Seq<char>, exists: bool, force: bool) -> Option<Seq<char>> {
    if exists && !force {
        Some(path + " already exists; edit it directly, or pass --force to replace it"@)
    } else {
        None
    }
}

/// Checks that a role file may be written: one that is there already is replaced
/// only by force.
pub fn check_role_file(path: &str, exists: bool, force: bool) -> (checked: Result<(), String>)
    ensures
        refusal(checked) == in_the_way(path@, exists, force),
{
    if exists && !force {
        let mut message = path.to_owned();
        message.append(" already exists; edit it directly, or pass --force to replace it");
        return Err(message);
    }
    Ok(())
}

/// What is said once the team is installed.
pub const INSTALLED: &'static str = "Installed the lead and worker roles.\n\nAsk for something big enough to split, and the agent you are talking to can hand domains to leads:\n  \"Add dark mode: one lead for the UI, one for the theme plumbing.\"\n";

/// The feature the org exists under.
pub const TEAM_FEATURE: &'static str = "multi_agent_v2";

/// What is written to install a team, and what is said then.
#[derive(Debug, PartialEq, Eq)]
pub struct Install {
    pub lead_file: String,
    pub worker_file: String,
    pub edits: Vec<ConfigEdit>,
    /// The feature to enable.
    pub feature: String,
    pub closing: String,
}

/// What is said of a team, and then what is written: nothing where nothing was
/// asked for, and an error where the depth leaves no room for leads or a role file
/// is in the way.
#[derive(Debug, PartialEq, Eq)]
pub struct TeamPlan {
    pub report: String,
    pub install: Result<Option<Install>, String>,
}

/// A role file as it is found.
#[derive(Debug, PartialEq, Eq)]
pub struct RoleFile {
    /// The path as it is shown.
    pub path: String,
    /// Whether there is such a file already.
    pub exists: bool,
}

/// Plans the installation of a team whose workers run `model` on `provider_id`, with
/// the edits that declare it. At a depth that leaves no room for leads nothing is
/// said or written.
pub fn plan_team(
    args: &TeamArgs,
    provider_id: &str,
    model: &str,
    lead: &RoleFile,
    worker: &RoleFile,
    edits: Vec<ConfigEdit>,
) -> (plan: TeamPlan)
    ensures
        args.depth < 2 ==> plan.install is Err,
        plan.report@ == (if args.depth < 2 {
            Seq::empty()
        } else {
            team_report_text(
                args.write,
                provider_id@,
                model@,
                args.depth,
                lead.path@,
                worker.path@,
            )
        }),
        ({
            let depth_refused = depth_refused(args.depth as int);
            let lead_refused = in_the_way(lead.path@, lead.exists, args.force);
            let worker_refused = in_the_way(worker.path@, worker.exists, args.force);
            if depth_refused is Some {
                plan.install matches Err(message) && Some(message@) == depth_refused
            } else if !args.write {
                plan.install matches Ok(None)
            } else if lead_refused is Some {
                plan.install matches Err(message) && Some(message@) == lead_refused
            } else if worker_refused is Some {
                plan.install matches Err(message) && Some(message@) == worker_refused
            } else {
                &&& plan.install matches Ok(Some(install))
                &&& install.lead_file@ == role_file_text(LEAD_ROLE@, LEAD_INSTRUCTIONS@, None, None)
                &&& read_document(install.lead_file@) == Some(
                    role_entries(LEAD_ROLE@, LEAD_INSTRUCTIONS@, None, None),
                )
                &&& install.worker_file@ == role_file_text(
                    WORKER_ROLE@,
                    WORKER_INSTRUCTIONS@,
                    Some(model@),
                    Some(provider_id@),
                )
                &&& read_document(install.worker_file@) == Some(
                    role_entries(
                        WORKER_ROLE@,
                        WORKER_INSTRUCTIONS@,
                        Some(model@),
                        Some(provider_id@),
                    ),
                )
                &&& install.edits == edits
                &&& install.feature@ == TEAM_FEATURE@
                &&& install.closing@ == INSTALLED@
            }
        }),
{
    if let Err(message) = check_depth(args.depth) {
        return TeamPlan { report: String::new(), install: Err(message) };
    }
    let report = team_report(args, provider_id, model, lead.path.as_str(), worker.path.as_str());
    if !args.write {
        return TeamPlan { report, install: Ok(None) };
    }
    if let Err(message) = check_role_file(lead.path.as_str(), lead.exists, args.force) {
        return TeamPlan { report, install: Err(message) };
    }
    if let Err(message) = check_role_file(worker.path.as_str(), worker.exists, args.force) {
        return TeamPlan { report, install: Err(message) };
    }
    let install = Install {
        lead_file: lead_role_file(),
        worker_file: worker_role_file(model, provider_id),
        edits,
        feature: TEAM_FEATURE.to_owned(),
        closing: INSTALLED.to_owned(),
    };
    TeamPlan { report, install: Ok(Some(install)) }
}

} // verus!
