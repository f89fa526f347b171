//! The backup command: where a backup goes, what it is called, and what the
//! command does next as its outside steps report back.
//!
//! A backup is named after the minute in which it is made. Two backups of
//! one mod folder made in the same minute therefore have the same path, and
//! the one written later replaces the earlier one.

use crate::command::Command;
use crate::text::{
    lemma_padded2_value, lemma_signed_decimal_value, padded2, padded2_string, signed_decimal,
    signed_decimal_string,
};
use chrono::{Datelike, Local, Timelike};
use std::path::Path;
use vstd::prelude::*;
use vstd::string::*;

verus! {

/// A local wall-clock time, to the minute.
#[derive(Clone, Copy, Debug, PartialEq, Eq, Structural)]
pub struct Timestamp {
    pub hour: u32,
    pub minute: u32,
    pub day: u32,
    pub month: u32,
    pub year: i32,
}

impl Timestamp {
    /// The fields lie in the ranges of a clock and a calendar.
    pub open spec fn valid(self) -> bool {
        &&& self.hour < 24
        &&& self.minute < 60
        &&& 1 <= self.day <= 31
        &&& 1 <= self.month <= 12
    }
}

/// The time stamp of a backup: hour, minute, day, month and year, in this
/// order, the first four at least two digits wide, joined by hyphens.
pub open spec fn backup_stamp(t: Timestamp) -> Seq<char> {
    padded2(t.hour as nat) + seq!['-'] + padded2(t.minute as nat) + seq!['-'] + padded2(
        t.day as nat,
    ) + seq!['-'] + padded2(t.month as nat) + seq!['-'] + signed_decimal(t.year as int)
}

/// The file name of the backup made at `t`. It tells the minute and no
/// more: see `lemma_file_name_tells_the_minute`.
pub open spec fn backup_file_name(t: Timestamp) -> Seq<char> {
    backup_stamp(t) + ".zip"@
}

/// The folder that holds the backups: `mod-backups` in `parent`, beside
/// the mod folder. An empty `parent` stands for the current directory.
pub open spec fn backup_folder(parent: Seq<char>) -> Seq<char> {
    if parent.len() == 0 {
        "mod-backups"@
    } else {
        parent + "/mod-backups"@
    }
}

/// The folder that holds `path`: `path` without its last component, or
/// nothing where `path` is empty or ends in a root, read by the path rules
/// of the platform that the program is built for.
pub uninterp spec fn path_parent(path: Seq<char>) -> Option<Seq<char>>;

/// The path of the backup made at `t` for the mod folder in `parent`.
pub open spec fn backup_path(parent: Seq<char>, t: Timestamp) -> Seq<char> {
    backup_folder(parent) + seq!['/'] + backup_file_name(t)
}

/// Where one backup goes: the folder to create and the archive to write.
pub struct BackupPlan {
    pub folder: String,
    pub archive_path: String,
}

/// Where the command stands between two outside steps.
pub enum BackupState {
    /// Nothing has happened yet.
    Idle,
    /// The backup folder is being created; the archive will go to `archive_path`.
    CreatingFolder { archive_path: String },
    /// The archive is being written.
    WritingArchive,
    /// The command has ended.
    Finished,
}

/// What an outside step reports back.
pub enum BackupEvent {
    /// The command was started at `now`; `parent` is the folder that holds
    /// the mod folder, if it has one.
    Started { parent: Option<String>, now: Timestamp },
    /// The configuration could not be read, so no mod folder is known.
    ConfigFailed { detail: String },
    /// The backup folder exists.
    FolderReady,
    /// The backup folder could not be created.
    FolderFailed { detail: String },
    /// The archive has been written.
    ArchiveWritten,
    /// The archive could not be written.
    ArchiveFailed { detail: String },
}

/// What the caller is to do next.
pub enum BackupAction {
    /// Create the folder `path` with its missing ancestors; an existing
    /// folder is no error.
    CreateFolder { path: String },
    /// Show `notice`, then archive the mod folder into the file `path`,
    /// in place of a file that may be there.
    WriteArchive { notice: String, path: String },
    /// Show `message`; the command ends.
    Finish { message: String },
    /// The event does not belong to the state: do nothing.
    Ignore,
}

/// A state of the command, with texts as sequences of characters.
pub enum BackupStateView {
    Idle,
    CreatingFolder { archive_path: Seq<char> },
    WritingArchive,
    Finished,
}

/// An event, with texts as sequences of characters.
pub enum BackupEventView {
    Started { parent: Option<Seq<char>>, now: Timestamp },
    ConfigFailed { detail: Seq<char> },
    FolderReady,
    FolderFailed { detail: Seq<char> },
    ArchiveWritten,
    ArchiveFailed { detail: Seq<char> },
}

/// An action, with texts as sequences of characters.
pub enum BackupActionView {
    CreateFolder { path: Seq<char> },
    WriteArchive { notice: Seq<char>, path: Seq<char> },
    Finish { message: Seq<char> },
    Ignore,
}

impl View for BackupState {
    type V = BackupStateView;

    open spec fn view(&self) -> BackupStateView {
        match *self {
            BackupState::Idle => BackupStateView::Idle,
            BackupState::CreatingFolder { archive_path } => BackupStateView::CreatingFolder {
                archive_path: archive_path@,
            },
            BackupState::WritingArchive => BackupStateView::WritingArchive,
            BackupState::Finished => BackupStateView::Finished,
        }
    }
}

impl View for BackupEvent {
    type V = BackupEventView;

    open spec fn view(&self) -> BackupEventView {
        match *self {
            BackupEvent::Started { parent, now } => BackupEventView::Started {
                parent: match parent {
                    Some(p) => Some(p@),
                    None => None,
                },
                now,
            },
            BackupEvent::ConfigFailed { detail } => BackupEventView::ConfigFailed {
                detail: detail@,
            },
            BackupEvent::FolderReady => BackupEventView::FolderReady,
            BackupEvent::FolderFailed { detail } => BackupEventView::FolderFailed {
                detail: detail@,
            },
            BackupEvent::ArchiveWritten => BackupEventView::ArchiveWritten,
            BackupEvent::ArchiveFailed { detail } => BackupEventView::ArchiveFailed {
                detail: detail@,
            },
        }
    }
}

impl View for BackupAction {
    type V = BackupActionView;

    open spec fn view(&self) -> BackupActionView {
        match *self {
            BackupAction::CreateFolder { path } => BackupActionView::CreateFolder { path: path@ },
            BackupAction::WriteArchive { notice, path } => BackupActionView::WriteArchive {
                notice: notice@,
                path: path@,
            },
            BackupAction::Finish { message } => BackupActionView::Finish { message: message@ },
            BackupAction::Ignore => BackupActionView::Ignore,
        }
    }
}

/// One step of the backup command: the state it moves to and what the
/// caller is to do, for each state and event.
///
/// If the configuration cannot be read, or the mod folder has no parent
/// folder, the command ends with a complaint. Started with a parent folder, it asks for the backup folder. Once that exists it
/// announces the backup and asks for the archive; when the folder or the
/// archive fails it ends with the failure's text, else with a success
/// message. An event that does not belong to the state changes nothing.
pub open spec fn backup_step(state: BackupStateView, event: BackupEventView) -> (
    BackupStateView,
    BackupActionView,
) {
    match (state, event) {
        (BackupStateView::Idle, BackupEventView::Started { parent: None, now }) => (
            BackupStateView::Finished,
            BackupActionView::Finish { message: "Error: unable to get minecraft folder!"@ },
        ),
        (BackupStateView::Idle, BackupEventView::ConfigFailed { detail }) => (
            BackupStateView::Finished,
            BackupActionView::Finish { message: "Error reading config: "@ + detail },
        ),
        (BackupStateView::Idle, BackupEventView::Started { parent: Some(p), now }) => (
            BackupStateView::CreatingFolder { archive_path: backup_path(p, now) },
            BackupActionView::CreateFolder { path: backup_folder(p) },
        ),
        (BackupStateView::CreatingFolder { archive_path }, BackupEventView::FolderReady) => (
            BackupStateView::WritingArchive,
            BackupActionView::WriteArchive { notice: "Creating backup..."@, path: archive_path },
        ),
        (
            BackupStateView::CreatingFolder { archive_path },
            BackupEventView::FolderFailed { detail },
        ) => (
            BackupStateView::Finished,
            BackupActionView::Finish { message: "Error creating backup folder: "@ + detail },
        ),
        (BackupStateView::WritingArchive, BackupEventView::ArchiveWritten) => (
            BackupStateView::Finished,
            BackupActionView::Finish { message: "Backup created successfully"@ },
        ),
        (BackupStateView::WritingArchive, BackupEventView::ArchiveFailed { detail }) => (
            BackupStateView::Finished,
            BackupActionView::Finish { message: "Failed to create backup: "@ + detail },
        ),
        _ => (state, BackupActionView::Ignore),
    }
}

/// A backup's file name is unique to the minute: two times of day with the
/// same file name are the same hour, minute, day, month and year.
pub proof fn lemma_file_name_tells_the_minute(a: Timestamp, b: Timestamp)
    requires
        a.valid(),
        b.valid(),
        backup_file_name(a) == backup_file_name(b),
    ensures
        a == b,
{
    reveal_strlit(".zip");
    let na = backup_file_name(a);
    let nb = backup_file_name(b);
    lemma_padded2_value(a.hour as nat);
    lemma_padded2_value(a.minute as nat);
    lemma_padded2_value(a.day as nat);
    lemma_padded2_value(a.month as nat);
    lemma_padded2_value(b.hour as nat);
    lemma_padded2_value(b.minute as nat);
    lemma_padded2_value(b.day as nat);
    lemma_padded2_value(b.month as nat);
    lemma_signed_decimal_value(a.year as int);
    lemma_signed_decimal_value(b.year as int);
    assert(na.subrange(0, 2) =~= padded2(a.hour as nat));
    assert(nb.subrange(0, 2) =~= padded2(b.hour as nat));
    assert(na.subrange(3, 5) =~= padded2(a.minute as nat));
    assert(nb.subrange(3, 5) =~= padded2(b.minute as nat));
    assert(na.subrange(6, 8) =~= padded2(a.day as nat));
    assert(nb.subrange(6, 8) =~= padded2(b.day as nat));
    assert(na.subrange(9, 11) =~= padded2(a.month as nat));
    assert(nb.subrange(9, 11) =~= padded2(b.month as nat));
    assert(na.subrange(12, na.len() - 4) =~= signed_decimal(a.year as int));
    assert(nb.subrange(12, nb.len() - 4) =~= signed_decimal(b.year as int));
}

/// The command that backs up the mod folder.
pub struct CreateBackupCommand;

impl CreateBackupCommand {
    /// The line that the menu shows for this command.
    pub fn description(&self) -> (r: &'static str)
        ensures
            r@ == Command::CreateBackup.description_text(),
    {
        Command::CreateBackup.description()
    }

    /// The file name of the backup made at `t`: `HH-MM-DD-MM-YYYY.zip`.
    pub fn file_name(t: &Timestamp) -> (r: String)
        ensures
            r@ == backup_file_name(*t),
    {
        let mut name = padded2_string(t.hour);
        proof {
            reveal_strlit("-");
        }
        name.append("-");
        name.append(padded2_string(t.minute).as_str());
        name.append("-");
        name.append(padded2_string(t.day).as_str());
        name.append("-");
        name.append(padded2_string(t.month).as_str());
        name.append("-");
        name.append(signed_decimal_string(t.year).as_str());
        assert(name@ =~= backup_stamp(*t));
        name.append(".zip");
        name
    }

    /// The folder and the archive of the backup made at `now` for the mod
    /// folder that lies in `parent`.
    pub fn plan(parent: &str, now: &Timestamp) -> (r: BackupPlan)
        ensures
            r.folder@ == backup_folder(parent@),
            r.archive_path@ == backup_path(parent@, *now),
    {
        let mut folder = String::new();
        if parent.unicode_len() == 0 {
            folder.append("mod-backups");
        } else {
            folder.append(parent);
            folder.append("/mod-backups");
        }
        assert(folder@ =~= backup_folder(parent@));
        let mut archive_path = folder.clone();
        proof {
            reveal_strlit("/");
        }
        archive_path.append("/");
        archive_path.append(Self::file_name(now).as_str());
        assert(archive_path@ =~= backup_path(parent@, *now));
        BackupPlan { folder, archive_path }
    }

    /// One step of the command, as `backup_step` describes it.
    pub fn step(&self, state: BackupState, event: BackupEvent) -> (r: (BackupState, BackupAction))
        ensures
            (r.0@, r.1@) == backup_step(state@, event@),
    {
        match (state, event) {
            (BackupState::Idle, BackupEvent::Started { parent: None, now }) => (
                BackupState::Finished,
                BackupAction::Finish {
                    message: String::from_str("Error: unable to get minecraft folder!"),
                },
            ),
            (BackupState::Idle, BackupEvent::ConfigFailed { detail }) => {
                let mut message = String::from_str("Error reading config: ");
                message.append(detail.as_str());
                (BackupState::Finished, BackupAction::Finish { message })
            },
            (BackupState::Idle, BackupEvent::Started { parent: Some(p), now }) => {
                let plan = Self::plan(p.as_str(), &now);
                (
                    BackupState::CreatingFolder { archive_path: plan.archive_path },
                    BackupAction::CreateFolder { path: plan.folder },
                )
            },
            (BackupState::CreatingFolder { archive_path }, BackupEvent::FolderReady) => (
                BackupState::WritingArchive,
                BackupAction::WriteArchive {
                    notice: String::from_str("Creating backup..."),
                    path: archive_path,
                },
            ),
            (BackupState::CreatingFolder { archive_path }, BackupEvent::FolderFailed { detail }) => {
                let mut message = String::from_str("Error creating backup folder: ");
                message.append(detail.as_str());
                (BackupState::Finished, BackupAction::Finish { message })
            },
            (BackupState::WritingArchive, BackupEvent::ArchiveWritten) => (
                BackupState::Finished,
                BackupAction::Finish { message: String::from_str("Backup created successfully") },
            ),
            (BackupState::WritingArchive, BackupEvent::ArchiveFailed { detail }) => {
                let mut message = String::from_str("Failed to create backup: ");
                message.append(detail.as_str());
                (BackupState::Finished, BackupAction::Finish { message })
            },
            (state, _) => (state, BackupAction::Ignore),
        }
    }

    /// The first event of a run for the mod folder `mod_dir`: the folder
    /// that holds it, and the local time now.
    pub fn start(&self, mod_dir: &str) -> (r: BackupEvent)
        ensures
            r matches BackupEvent::Started { parent, now } && now.valid() && match parent {
                Some(p) => path_parent(mod_dir@) == Some(p@),
                None => path_parent(mod_dir@) is None,
            },
    {
        BackupEvent::Started { parent: parent_folder(mod_dir), now: local_timestamp() }
    }
}

/// `Path::parent` on `path`: the path without its last component, or
/// nothing when the path ends in a root or is empty. The parent of a path
/// given as text is part of that text, so it is text again.
#[verifier::external_body]
pub(crate) fn parent_folder(path: &str) -> (r: Option<String>)
    ensures
        match r {
            Some(p) => path_parent(path@) == Some(p@),
            None => path_parent(path@) is None,
        },
{
    Path::new(path).parent().map(|p| p.to_string_lossy().into_owned())
}

/// `Local::now` of chrono, read through `hour`, `minute`, `day`, `month`
/// and `year`. Whatever the clock says, the hour is below 24, the minute
/// below 60, the day between 1 and 31 and the month between 1 and 12. The
/// system clock must not stand before 1970.
#[verifier::external_body]
pub(crate) fn local_timestamp() -> (t: Timestamp)
    ensures
        t.valid(),
{
    let now = Local::now();
    Timestamp {
        hour: now.hour(),
        minute: now.minute(),
        day: now.day(),
        month: now.month(),
        year: now.year(),
    }
}

} // verus!
