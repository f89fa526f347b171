//! The install command: which version of a mod to fetch, and where to put
//! it.

use crate::json::{json_error, json_parsed, member_text, member_text_of, parse, JsonError};
use crate::text::{lowercase, lowercase_of, trim_quotes, trim_quotes_string};
use vstd::prelude::*;
use vstd::string::*;

verus! {

/// One published version of a mod.
pub struct ModVersion {
    pub minecraft_version: String,
    pub download_url: String,
}

/// A published version, with texts as sequences of characters.
pub struct ModVersionView {
    pub minecraft_version: Seq<char>,
    pub download_url: Seq<char>,
}

impl View for ModVersion {
    type V = ModVersionView;

    open spec fn view(&self) -> ModVersionView {
        ModVersionView {
            minecraft_version: self.minecraft_version@,
            download_url: self.download_url@,
        }
    }
}

/// What to do about an install request.
pub enum InstallPlan {
    /// Fetch `url`, the download of version number `index` of the list.
    Download { index: usize, url: String },
    /// No version fits: show `message`.
    Unavailable { message: String },
}

/// Position `i` holds the first version of `versions` made for the game
/// version `mc_version`.
pub open spec fn is_first_match(versions: Seq<ModVersion>, mc_version: Seq<char>, i: int) -> bool {
    &&& 0 <= i < versions.len()
    &&& versions[i].minecraft_version@ == mc_version
    &&& forall|j: int| 0 <= j < i ==> (#[trigger] versions[j]).minecraft_version@ != mc_version
}

/// None of `versions` is made for the game version `mc_version`.
pub open spec fn no_match(versions: Seq<ModVersion>, mc_version: Seq<char>) -> bool {
    forall|j: int|
        0 <= j < versions.len() ==> (#[trigger] versions[j]).minecraft_version@ != mc_version
}

/// The file in which the mod `slug` for the game version `mc_version` is
/// kept inside `mod_dir`.
pub open spec fn jar_path(mod_dir: Seq<char>, slug: Seq<char>, mc_version: Seq<char>) -> Seq<
    char,
> {
    mod_dir + "/"@ + slug + "_"@ + mc_version + ".jar"@
}

/// The line shown after the mod was installed.
pub open spec fn installed_message(slug: Seq<char>, mc_version: Seq<char>) -> Seq<char> {
    "Successfully installed "@ + slug + " for Minecraft version "@ + mc_version
}

/// The line shown when no version of the mod fits the game version.
pub open spec fn unavailable_message(slug: Seq<char>, mc_version: Seq<char>) -> Seq<char> {
    "Failed to install "@ + slug + " for Minecraft version "@ + mc_version
}

/// The slug of the project that the document `json_str` describes: the
/// text of its member `slug`, without double quotes at either end, or the
/// empty text if it has none. A text that is no JSON document is an error.
pub fn project_slug(json_str: &str) -> (r: Result<String, JsonError>)
    ensures
        match json_parsed(json_str@) {
            Some(doc) => r is Ok && r->Ok_0@ == trim_quotes(member_text(doc, "slug"@)),
            None => r is Err,
        },
{
    match parse(json_str) {
        Ok(doc) => {
            let slug = member_text_of(&doc, "slug");
            Ok(trim_quotes_string(slug.as_str()))
        },
        Err(e) => Err(json_error(e)),
    }
}

/// The position of the first of `versions` that is made for the game
/// version `mc_version`.
pub fn find_version(versions: &Vec<ModVersion>, mc_version: &str) -> (r: Option<usize>)
    ensures
        match r {
            Some(i) => is_first_match(versions@, mc_version@, i as int),
            None => no_match(versions@, mc_version@),
        },
{
    let wanted = String::from_str(mc_version);
    let mut i: usize = 0;
    while i < versions.len()
        invariant
            0 <= i <= versions.len(),
            wanted@ == mc_version@,
            forall|j: int|
                0 <= j < i ==> (#[trigger] versions@[j]).minecraft_version@ != mc_version@,
        decreases versions.len() - i,
    {
        if versions[i].minecraft_version == wanted {
            return Some(i);
        }
        i += 1;
    }
    None
}

/// Decides how to install the mod `slug` for the game version
/// `mc_version`, given the versions that the repository lists: the first
/// one made for that game version is to be fetched; if there is none, the
/// user is told.
pub fn download_mod(slug: &str, versions: &Vec<ModVersion>, mc_version: &str) -> (r: InstallPlan)
    ensures
        match r {
            InstallPlan::Download { index, url } => {
                &&& is_first_match(versions@, mc_version@, index as int)
                &&& url@ == versions@[index as int].download_url@
            },
            InstallPlan::Unavailable { message } => {
                &&& no_match(versions@, mc_version@)
                &&& message@ == unavailable_message(slug@, mc_version@)
            },
        },
{
    match find_version(versions, mc_version) {
        Some(index) => InstallPlan::Download { index, url: versions[index].download_url.clone() },
        None => {
            let mut message = String::from_str("Failed to install ");
            message.append(slug);
            message.append(" for Minecraft version ");
            message.append(mc_version);
            InstallPlan::Unavailable { message }
        },
    }
}

/// The file in which the mod `slug` for the game version `mc_version` is
/// kept inside `mod_dir`.
pub fn jar_file_name(mod_dir: &str, slug: &str, mc_version: &str) -> (r: String)
    ensures
        r@ == jar_path(mod_dir@, slug@, mc_version@),
{
    let mut file_name = String::from_str(mod_dir);
    file_name.append("/");
    file_name.append(slug);
    file_name.append("_");
    file_name.append(mc_version);
    file_name.append(".jar");
    file_name
}

/// The views of `versions`, in order.
pub open spec fn version_views(versions: Seq<ModVersion>) -> Seq<ModVersionView> {
    versions.map_values(|v: ModVersion| v@)
}

/// The first position of `versions` that is made for the game version
/// `mc_version`, or the length of `versions` if none is.
pub open spec fn first_match(versions: Seq<ModVersionView>, mc_version: Seq<char>) -> int
    decreases versions.len(),
{
    if versions.len() == 0 {
        0
    } else if versions[0].minecraft_version == mc_version {
        0
    } else {
        1 + first_match(versions.drop_first(), mc_version)
    }
}

/// `first_match` points at the first version that fits, and past the end
/// if none does.
pub proof fn lemma_first_match(versions: Seq<ModVersion>, mc_version: Seq<char>)
    ensures
        0 <= first_match(version_views(versions), mc_version) <= versions.len(),
        first_match(version_views(versions), mc_version) < versions.len() ==> is_first_match(
            versions,
            mc_version,
            first_match(version_views(versions), mc_version),
        ),
        first_match(version_views(versions), mc_version) == versions.len() ==> no_match(
            versions,
            mc_version,
        ),
        forall|i: int|
            is_first_match(versions, mc_version, i) ==> i == first_match(
                version_views(versions),
                mc_version,
            ),
    decreases versions.len(),
{
    let views = version_views(versions);
    if versions.len() > 0 {
        assert(views[0] == versions[0]@);
        if views[0].minecraft_version != mc_version {
            let rest = versions.drop_first();
            lemma_first_match(rest, mc_version);
            assert(version_views(rest) =~= views.drop_first());
            let k = first_match(version_views(rest), mc_version);
            assert forall|j: int| 0 <= j < k + 1 implies (#[trigger] versions[j]).minecraft_version@
                != mc_version by {
                if j > 0 {
                    assert(rest[j - 1] == versions[j]);
                }
            }
            if k < rest.len() {
                assert(rest[k] == versions[k + 1]);
            } else {
                assert forall|j: int| 0 <= j < versions.len() implies (
                #[trigger] versions[j]).minecraft_version@ != mc_version by {
                    if j > 0 {
                        assert(rest[j - 1] == versions[j]);
                    }
                }
            }
            assert forall|i: int| is_first_match(versions, mc_version, i) implies i == k + 1 by {
                assert(i > 0);
                assert(rest[i - 1] == versions[i]);
                assert forall|j: int| 0 <= j < i - 1 implies (#[trigger] rest[j]).minecraft_version@
                    != mc_version by {
                    assert(rest[j] == versions[j + 1]);
                }
                assert(is_first_match(rest, mc_version, i - 1));
            }
        }
    }
}

/// Where the install command stands between two outside steps.
pub enum InstallState {
    /// Nothing has happened yet.
    Idle,
    /// The project is being looked up; the mod is wanted for `mc_version`.
    FetchingProject { mc_version: String },
    /// The versions of the project `slug` are being listed.
    FetchingVersions { slug: String, mc_version: String },
    /// The download of the project `slug` has been asked for.
    Requesting { slug: String, mc_version: String },
    /// The file is being written; `message` is shown when it is complete.
    Saving { message: String },
    /// The command has ended.
    Finished,
}

/// What an outside step reports back.
pub enum InstallEvent {
    /// The user named a mod and a game version.
    Asked { mod_name: String, mc_version: String },
    /// The repository described the project; `slug` is what `project_slug`
    /// makes of its answer.
    ProjectFetched { slug: Result<String, JsonError> },
    /// The repository's answer could not be written out as text.
    FormatFailed,
    /// The repository listed the project's versions.
    VersionsFetched { versions: Vec<ModVersion> },
    /// The download was granted; `mod_dir` is the mod folder that the
    /// configuration, read after that, names.
    Responded { mod_dir: String },
    /// The file was created and the download written into it.
    Downloaded,
    /// The step that was asked for failed.
    Failed { detail: String },
}

/// What the caller is to do next.
pub enum InstallAction {
    /// Ask the repository for the project `query`.
    FetchProject { query: String },
    /// Ask the repository for the versions of the project `slug`.
    FetchVersions { slug: String },
    /// Ask for the download at `url`, then read the configuration.
    Request { url: String },
    /// Create the file `file_name`, then read the download and write it
    /// there.
    Save { file_name: String },
    /// Show `message` on the standard output; the command ends.
    Finish { message: String },
    /// Show `message` on the error output; the command ends.
    Complain { message: String },
    /// The event does not belong to the state: do nothing.
    Ignore,
}

/// A state of the command, with texts as sequences of characters.
pub enum InstallStateView {
    Idle,
    FetchingProject { mc_version: Seq<char> },
    FetchingVersions { slug: Seq<char>, mc_version: Seq<char> },
    Requesting { slug: Seq<char>, mc_version: Seq<char> },
    Saving { message: Seq<char> },
    Finished,
}

/// An event, with texts as sequences of characters; a parser's complaint
/// counts by its message.
pub enum InstallEventView {
    Asked { mod_name: Seq<char>, mc_version: Seq<char> },
    ProjectFetched { slug: Result<Seq<char>, Seq<char>> },
    FormatFailed,
    VersionsFetched { versions: Seq<ModVersionView> },
    Responded { mod_dir: Seq<char> },
    Downloaded,
    Failed { detail: Seq<char> },
}

/// An action, with texts as sequences of characters.
pub enum InstallActionView {
    FetchProject { query: Seq<char> },
    FetchVersions { slug: Seq<char> },
    Request { url: Seq<char> },
    Save { file_name: Seq<char> },
    Finish { message: Seq<char> },
    Complain { message: Seq<char> },
    Ignore,
}

impl View for InstallState {
    type V = InstallStateView;

    open spec fn view(&self) -> InstallStateView {
        match *self {
            InstallState::Idle => InstallStateView::Idle,
            InstallState::FetchingProject { mc_version } => InstallStateView::FetchingProject {
                mc_version: mc_version@,
            },
            InstallState::FetchingVersions { slug, mc_version } => {
                InstallStateView::FetchingVersions { slug: slug@, mc_version: mc_version@ }
            },
            InstallState::Requesting { slug, mc_version } => InstallStateView::Requesting {
                slug: slug@,
                mc_version: mc_version@,
            },
            InstallState::Saving { message } => InstallStateView::Saving { message: message@ },
            InstallState::Finished => InstallStateView::Finished,
        }
    }
}

impl View for InstallEvent {
    type V = InstallEventView;

    open spec fn view(&self) -> InstallEventView {
        match *self {
            InstallEvent::Asked { mod_name, mc_version } => InstallEventView::Asked {
                mod_name: mod_name@,
                mc_version: mc_version@,
            },
            InstallEvent::ProjectFetched { slug } => InstallEventView::ProjectFetched {
                slug: match slug {
                    Ok(text) => Ok(text@),
                    Err(e) => Err(e.message@),
                },
            },
            InstallEvent::FormatFailed => InstallEventView::FormatFailed,
            InstallEvent::VersionsFetched { versions } => InstallEventView::VersionsFetched {
                versions: version_views(versions@),
            },
            InstallEvent::Responded { mod_dir } => InstallEventView::Responded {
                mod_dir: mod_dir@,
            },
            InstallEvent::Downloaded => InstallEventView::Downloaded,
            InstallEvent::Failed { detail } => InstallEventView::Failed { detail: detail@ },
        }
    }
}

impl View for InstallAction {
    type V = InstallActionView;

    open spec fn view(&self) -> InstallActionView {
        match *self {
            InstallAction::FetchProject { query } => InstallActionView::FetchProject {
                query: query@,
            },
            InstallAction::FetchVersions { slug } => InstallActionView::FetchVersions {
                slug: slug@,
            },
            InstallAction::Request { url } => InstallActionView::Request { url: url@ },
            InstallAction::Save { file_name } => InstallActionView::Save { file_name: file_name@ },
            InstallAction::Finish { message } => InstallActionView::Finish { message: message@ },
            InstallAction::Complain { message } => InstallActionView::Complain {
                message: message@,
            },
            InstallAction::Ignore => InstallActionView::Ignore,
        }
    }
}

/// The complaint about a failed step.
pub open spec fn error_message(detail: Seq<char>) -> Seq<char> {
    "Error: "@ + detail
}

/// One step of the install command: the state it moves to and what the
/// caller is to do, for each state and event.
///
/// Mod name and game version are taken in lowercase. The project is looked
/// up, then its versions; the download of the first version made for the
/// game version is asked for, and only when it is granted is the mod folder
/// read from the configuration and the file created there, under a name
/// made of slug and game version. The success is announced once the file
/// is written. If no version fits, the user is told so. A step that fails,
/// reading the configuration among them, ends the command with a
/// complaint. An event that does not belong to the state changes nothing.
pub open spec fn install_step(state: InstallStateView, event: InstallEventView) -> (
    InstallStateView,
    InstallActionView,
) {
    match (state, event) {
        (InstallStateView::Idle, InstallEventView::Asked { mod_name, mc_version }) => (
            InstallStateView::FetchingProject { mc_version: lowercase_of(mc_version) },
            InstallActionView::FetchProject { query: lowercase_of(mod_name) },
        ),
        (
            InstallStateView::FetchingProject { mc_version },
            InstallEventView::ProjectFetched { slug: Ok(slug) },
        ) => (
            InstallStateView::FetchingVersions { slug, mc_version },
            InstallActionView::FetchVersions { slug },
        ),
        (
            InstallStateView::FetchingProject { mc_version },
            InstallEventView::ProjectFetched { slug: Err(complaint) },
        ) => (
            InstallStateView::Finished,
            InstallActionView::Complain { message: error_message(complaint) },
        ),
        (InstallStateView::FetchingProject { mc_version }, InstallEventView::FormatFailed) => (
            InstallStateView::Finished,
            InstallActionView::Finish { message: "Failed to format JSON"@ },
        ),
        (
            InstallStateView::FetchingVersions { slug, mc_version },
            InstallEventView::VersionsFetched { versions },
        ) => {
            let i = first_match(versions, mc_version);
            if i < versions.len() {
                (
                    InstallStateView::Requesting { slug, mc_version },
                    InstallActionView::Request { url: versions[i].download_url },
                )
            } else {
                (
                    InstallStateView::Finished,
                    InstallActionView::Finish { message: unavailable_message(slug, mc_version) },
                )
            }
        },
        (
            InstallStateView::Requesting { slug, mc_version },
            InstallEventView::Responded { mod_dir },
        ) => (
            InstallStateView::Saving { message: installed_message(slug, mc_version) },
            InstallActionView::Save { file_name: jar_path(mod_dir, slug, mc_version) },
        ),
        (InstallStateView::Saving { message }, InstallEventView::Downloaded) => (
            InstallStateView::Finished,
            InstallActionView::Finish { message },
        ),
        (InstallStateView::FetchingProject { mc_version }, InstallEventView::Failed { detail }) => (
            InstallStateView::Finished,
            InstallActionView::Complain { message: error_message(detail) },
        ),
        (
            InstallStateView::FetchingVersions { slug, mc_version },
            InstallEventView::Failed { detail },
        ) => (
            InstallStateView::Finished,
            InstallActionView::Complain { message: error_message(detail) },
        ),
        (
            InstallStateView::Requesting { slug, mc_version },
            InstallEventView::Failed { detail },
        ) => (
            InstallStateView::Finished,
            InstallActionView::Complain { message: error_message(detail) },
        ),
        (InstallStateView::Saving { message }, InstallEventView::Failed { detail }) => (
            InstallStateView::Finished,
            InstallActionView::Complain { message: error_message(detail) },
        ),
        _ => (state, InstallActionView::Ignore),
    }
}

/// The complaint about a failed step.
fn complain(detail: &str) -> (r: InstallAction)
    ensures
        r@ == (InstallActionView::Complain { message: error_message(detail@) }),
{
    let mut message = String::from_str("Error: ");
    message.append(detail);
    InstallAction::Complain { message }
}

/// What the install command asks the user first.
pub fn mod_prompt() -> (r: &'static str)
    ensures
        r@ == "Enter mod to install: "@,
{
    "Enter mod to install: "
}

/// What the install command asks the user second.
pub fn version_prompt() -> (r: &'static str)
    ensures
        r@ == "Enter mc version: "@,
{
    "Enter mc version: "
}

/// One step of the install command, as `install_step` describes it.
pub fn run(state: InstallState, event: InstallEvent) -> (r: (InstallState, InstallAction))
    ensures
        (r.0@, r.1@) == install_step(state@, event@),
{
    match (state, event) {
        (InstallState::Idle, InstallEvent::Asked { mod_name, mc_version }) => (
            InstallState::FetchingProject { mc_version: lowercase(mc_version.as_str()) },
            InstallAction::FetchProject { query: lowercase(mod_name.as_str()) },
        ),
        (InstallState::FetchingProject { mc_version }, InstallEvent::ProjectFetched { slug }) => {
            match slug {
                Ok(slug) => (
                    InstallState::FetchingVersions { slug: slug.clone(), mc_version },
                    InstallAction::FetchVersions { slug },
                ),
                Err(e) => (InstallState::Finished, complain(e.message.as_str())),
            }
        },
        (InstallState::FetchingProject { mc_version }, InstallEvent::FormatFailed) => (
            InstallState::Finished,
            InstallAction::Finish { message: String::from_str("Failed to format JSON") },
        ),
        (
            InstallState::FetchingVersions { slug, mc_version },
            InstallEvent::VersionsFetched { versions },
        ) => {
            proof {
                lemma_first_match(versions@, mc_version@);
            }
            match download_mod(slug.as_str(), &versions, mc_version.as_str()) {
                InstallPlan::Download { index, url } => {
                    assert(version_views(versions@)[index as int] == versions@[index as int]@);
                    (InstallState::Requesting { slug, mc_version }, InstallAction::Request { url })
                },
                InstallPlan::Unavailable { message } => {
                    assert(first_match(version_views(versions@), mc_version@) == versions@.len())
                        by {
                        if first_match(version_views(versions@), mc_version@) < versions@.len() {
                            let i = first_match(version_views(versions@), mc_version@);
                            assert(versions@[i].minecraft_version@ == mc_version@);
                        }
                    }
                    (InstallState::Finished, InstallAction::Finish { message })
                },
            }
        },
        (InstallState::Requesting { slug, mc_version }, InstallEvent::Responded { mod_dir }) => {
            let file_name = jar_file_name(mod_dir.as_str(), slug.as_str(), mc_version.as_str());
            let mut message = String::from_str("Successfully installed ");
            message.append(slug.as_str());
            message.append(" for Minecraft version ");
            message.append(mc_version.as_str());
            (InstallState::Saving { message }, InstallAction::Save { file_name })
        },
        (InstallState::Saving { message }, InstallEvent::Downloaded) => (
            InstallState::Finished,
            InstallAction::Finish { message },
        ),
        (InstallState::FetchingProject { mc_version }, InstallEvent::Failed { detail }) => (
            InstallState::Finished,
            complain(detail.as_str()),
        ),
        (InstallState::FetchingVersions { slug, mc_version }, InstallEvent::Failed { detail }) => (
            InstallState::Finished,
            complain(detail.as_str()),
        ),
        (InstallState::Requesting { slug, mc_version }, InstallEvent::Failed { detail }) => (
            InstallState::Finished,
            complain(detail.as_str()),
        ),
        (InstallState::Saving { message }, InstallEvent::Failed { detail }) => (
            InstallState::Finished,
            complain(detail.as_str()),
        ),
        (state, _) => (state, InstallAction::Ignore),
    }
}

} // verus!
