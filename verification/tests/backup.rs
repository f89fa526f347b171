use modify::backup::{
    BackupAction, BackupEvent, BackupState, CreateBackupCommand, Timestamp,
};

fn march_morning() -> Timestamp {
    Timestamp { hour: 9, minute: 5, day: 7, month: 3, year: 2024 }
}

#[test]
fn backup_file_name_of_march_morning() {
    assert_eq!(CreateBackupCommand::file_name(&march_morning()), "09-05-07-03-2024.zip");
}

#[test]
fn backup_plan_lies_beside_the_mod_folder() {
    let plan = CreateBackupCommand::plan("/home/u/.minecraft", &march_morning());
    assert_eq!(plan.folder, "/home/u/.minecraft/mod-backups");
    assert_eq!(plan.archive_path, "/home/u/.minecraft/mod-backups/09-05-07-03-2024.zip");
}

#[test]
fn backup_description() {
    assert_eq!(CreateBackupCommand.description(), "create a backup of the mods folder");
}

#[test]
fn backup_run_succeeds_step_by_step() {
    let cmd = CreateBackupCommand;
    let started =
        BackupEvent::Started { parent: Some("/games".to_string()), now: march_morning() };
    let (state, action) = cmd.step(BackupState::Idle, started);
    match action {
        BackupAction::CreateFolder { path } => assert_eq!(path, "/games/mod-backups"),
        _ => panic!("expected a folder request"),
    }
    let (state, action) = cmd.step(state, BackupEvent::FolderReady);
    match action {
        BackupAction::WriteArchive { notice, path } => {
            assert_eq!(notice, "Creating backup...");
            assert_eq!(path, "/games/mod-backups/09-05-07-03-2024.zip");
        }
        _ => panic!("expected an archive request"),
    }
    let (state, action) = cmd.step(state, BackupEvent::ArchiveWritten);
    match action {
        BackupAction::Finish { message } => assert_eq!(message, "Backup created successfully"),
        _ => panic!("expected the end"),
    }
    assert!(matches!(state, BackupState::Finished));
}

#[test]
fn backup_start_reads_a_valid_clock() {
    match CreateBackupCommand.start("/games/mods") {
        BackupEvent::Started { parent, now } => {
            assert_eq!(parent, Some("/games".to_string()));
            assert!(now.hour < 24 && now.minute < 60);
            assert!(1 <= now.day && now.day <= 31 && 1 <= now.month && now.month <= 12);
        }
        _ => panic!("expected a start"),
    }
}

#[test]
fn backup_file_name_pads_to_two_digits_only() {
    let t = Timestamp { hour: 0, minute: 0, day: 1, month: 1, year: 5 };
    assert_eq!(CreateBackupCommand::file_name(&t), "00-00-01-01-5.zip");
    let t = Timestamp { hour: 23, minute: 59, day: 31, month: 12, year: 12345 };
    assert_eq!(CreateBackupCommand::file_name(&t), "23-59-31-12-12345.zip");
    let t = Timestamp { hour: 7, minute: 30, day: 9, month: 10, year: -44 };
    assert_eq!(CreateBackupCommand::file_name(&t), "07-30-09-10--44.zip");
}

#[test]
fn backup_plan_for_a_relative_mod_folder() {
    let plan = CreateBackupCommand::plan("", &march_morning());
    assert_eq!(plan.folder, "mod-backups");
    assert_eq!(plan.archive_path, "mod-backups/09-05-07-03-2024.zip");
    let plan = CreateBackupCommand::plan("games", &march_morning());
    assert_eq!(plan.folder, "games/mod-backups");
    assert_eq!(plan.archive_path, "games/mod-backups/09-05-07-03-2024.zip");
}

#[test]
fn backup_run_without_parent_folder_ends_at_once() {
    let started = BackupEvent::Started { parent: None, now: march_morning() };
    let (state, action) = CreateBackupCommand.step(BackupState::Idle, started);
    assert!(matches!(state, BackupState::Finished));
    match action {
        BackupAction::Finish { message } => {
            assert_eq!(message, "Error: unable to get minecraft folder!")
        }
        _ => panic!("expected the end"),
    }
}

#[test]
fn backup_run_reports_a_folder_failure() {
    let state = BackupState::CreatingFolder { archive_path: "/g/mod-backups/x.zip".to_string() };
    let event = BackupEvent::FolderFailed { detail: "PermissionDenied".to_string() };
    let (state, action) = CreateBackupCommand.step(state, event);
    assert!(matches!(state, BackupState::Finished));
    match action {
        BackupAction::Finish { message } => {
            assert_eq!(message, "Error creating backup folder: PermissionDenied")
        }
        _ => panic!("expected the end"),
    }
}

#[test]
fn backup_run_reports_an_archive_failure() {
    let event = BackupEvent::ArchiveFailed { detail: "Io(NotFound)".to_string() };
    let (state, action) = CreateBackupCommand.step(BackupState::WritingArchive, event);
    assert!(matches!(state, BackupState::Finished));
    match action {
        BackupAction::Finish { message } => {
            assert_eq!(message, "Failed to create backup: Io(NotFound)")
        }
        _ => panic!("expected the end"),
    }
}

#[test]
fn backup_run_ignores_events_out_of_turn() {
    let (state, action) = CreateBackupCommand.step(BackupState::Idle, BackupEvent::FolderReady);
    assert!(matches!(state, BackupState::Idle));
    assert!(matches!(action, BackupAction::Ignore));
    let (state, action) =
        CreateBackupCommand.step(BackupState::Finished, BackupEvent::ArchiveWritten);
    assert!(matches!(state, BackupState::Finished));
    assert!(matches!(action, BackupAction::Ignore));
}

#[test]
fn backup_start_of_a_path_without_parent() {
    match CreateBackupCommand.start("/") {
        BackupEvent::Started { parent, .. } => assert_eq!(parent, None),
        _ => panic!("expected a start"),
    }
    match CreateBackupCommand.start("mods") {
        BackupEvent::Started { parent, .. } => assert_eq!(parent, Some(String::new())),
        _ => panic!("expected a start"),
    }
}

#[test]
fn backup_run_for_a_relative_mod_folder_stays_in_the_current_directory() {
    let cmd = CreateBackupCommand;
    let started = match cmd.start("mods") {
        BackupEvent::Started { parent, .. } => {
            BackupEvent::Started { parent, now: march_morning() }
        }
        _ => panic!("expected a start"),
    };
    let (state, action) = cmd.step(BackupState::Idle, started);
    match action {
        BackupAction::CreateFolder { path } => assert_eq!(path, "mod-backups"),
        _ => panic!("expected a folder request"),
    }
    match cmd.step(state, BackupEvent::FolderReady).1 {
        BackupAction::WriteArchive { path, .. } => {
            assert_eq!(path, "mod-backups/09-05-07-03-2024.zip")
        }
        _ => panic!("expected an archive request"),
    }
}

#[test]
fn backup_run_without_configuration_ends_with_a_complaint() {
    let event = BackupEvent::ConfigFailed { detail: "NotFound".to_string() };
    let (state, action) = CreateBackupCommand.step(BackupState::Idle, event);
    assert!(matches!(state, BackupState::Finished));
    match action {
        BackupAction::Finish { message } => assert_eq!(message, "Error reading config: NotFound"),
        _ => panic!("expected the end"),
    }
}

#[test]
fn backup_start_gives_the_folder_that_holds_the_mod_folder() {
    for (mod_dir, expected) in [
        ("/home/u/.minecraft/mods", Some("/home/u/.minecraft")),
        ("/home/u/.minecraft/mods/", Some("/home/u/.minecraft")),
        ("games/mods", Some("games")),
        ("/mods", Some("/")),
        ("", None),
    ] {
        match CreateBackupCommand.start(mod_dir) {
            BackupEvent::Started { parent, .. } => {
                assert_eq!(parent.as_deref(), expected)
            }
            _ => panic!("expected a start"),
        }
    }
}
