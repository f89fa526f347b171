use modify::install::{
    download_mod, find_version, jar_file_name, mod_prompt, project_slug, run, version_prompt,
    InstallAction, InstallEvent, InstallPlan, InstallState, ModVersion,
};
use modify::json::JsonError;

fn version(minecraft_version: &str, download_url: &str) -> ModVersion {
    ModVersion {
        minecraft_version: minecraft_version.to_string(),
        download_url: download_url.to_string(),
    }
}

fn listed() -> Vec<ModVersion> {
    vec![
        version("1.19.4", "https://cdn.example/sodium-1.19.4.jar"),
        version("1.20", "https://cdn.example/sodium-1.20-a.jar"),
        version("1.20", "https://cdn.example/sodium-1.20-b.jar"),
    ]
}

#[test]
fn install_slug_is_read_from_the_project() {
    assert_eq!(project_slug(r#"{"slug": "sodium", "id": "AANobbMI"}"#).unwrap(), "sodium");
    assert_eq!(project_slug(r#"{"slug": "\"sodium\""}"#).unwrap(), "sodium");
    assert_eq!(project_slug(r#"{"id": "AANobbMI"}"#).unwrap(), "");
    assert_eq!(project_slug(r#"{"slug": 5}"#).unwrap(), "");
    assert_eq!(project_slug("[]").unwrap(), "");
}

#[test]
fn install_slug_of_no_json_is_an_error() {
    assert!(project_slug("").is_err());
    assert!(project_slug("{\"slug\": ").is_err());
}

#[test]
fn install_finds_the_first_fitting_version() {
    assert_eq!(find_version(&listed(), "1.19.4"), Some(0));
    assert_eq!(find_version(&listed(), "1.20"), Some(1));
    assert_eq!(find_version(&listed(), "1.21"), None);
    assert_eq!(find_version(&listed(), "1.2"), None);
    assert_eq!(find_version(&Vec::new(), "1.20"), None);
}

#[test]
fn install_plan_for_a_fitting_version() {
    match download_mod("sodium", &listed(), "1.20") {
        InstallPlan::Download { index, url } => {
            assert_eq!(index, 1);
            assert_eq!(url, "https://cdn.example/sodium-1.20-a.jar");
        }
        InstallPlan::Unavailable { message } => panic!("unexpected: {}", message),
    }
    assert_eq!(jar_file_name("/games/mods", "sodium", "1.20"), "/games/mods/sodium_1.20.jar");
}

#[test]
fn install_plan_without_a_fitting_version() {
    match download_mod("sodium", &listed(), "1.8") {
        InstallPlan::Unavailable { message } => {
            assert_eq!(message, "Failed to install sodium for Minecraft version 1.8");
        }
        InstallPlan::Download { .. } => panic!("expected no download"),
    }
}

#[test]
fn install_prompts() {
    assert_eq!(mod_prompt(), "Enter mod to install: ");
    assert_eq!(version_prompt(), "Enter mc version: ");
}

#[test]
fn install_run_succeeds_step_by_step() {
    let asked =
        InstallEvent::Asked { mod_name: "Sodium".to_string(), mc_version: "1.20-RC".to_string() };
    let (state, action) = run(InstallState::Idle, asked);
    match action {
        InstallAction::FetchProject { query } => assert_eq!(query, "sodium"),
        _ => panic!("expected a project request"),
    }
    match &state {
        InstallState::FetchingProject { mc_version } => assert_eq!(mc_version, "1.20-rc"),
        _ => panic!("expected to wait for the project"),
    }
    let fetched = InstallEvent::ProjectFetched { slug: project_slug(r#"{"slug": "sodium"}"#) };
    let (state, action) = run(state, fetched);
    match action {
        InstallAction::FetchVersions { slug } => assert_eq!(slug, "sodium"),
        _ => panic!("expected a versions request"),
    }
    let versions = vec![version("1.20", "u0"), version("1.20-rc", "u1")];
    let (state, action) = run(state, InstallEvent::VersionsFetched { versions });
    match action {
        InstallAction::Request { url } => assert_eq!(url, "u1"),
        _ => panic!("expected a download request"),
    }
    let (state, action) = run(state, InstallEvent::Responded { mod_dir: "mods".to_string() });
    match action {
        InstallAction::Save { file_name } => assert_eq!(file_name, "mods/sodium_1.20-rc.jar"),
        _ => panic!("expected a file to write"),
    }
    let (state, action) = run(state, InstallEvent::Downloaded);
    match action {
        InstallAction::Finish { message } => {
            assert_eq!(message, "Successfully installed sodium for Minecraft version 1.20-rc");
        }
        _ => panic!("expected the end"),
    }
    assert!(matches!(state, InstallState::Finished));
}

#[test]
fn install_run_without_fitting_version_tells_the_user() {
    let state =
        InstallState::FetchingVersions { slug: "sodium".to_string(), mc_version: "1.8".to_string() };
    let event = InstallEvent::VersionsFetched { versions: listed() };
    let (state, action) = run(state, event);
    match action {
        InstallAction::Finish { message } => {
            assert_eq!(message, "Failed to install sodium for Minecraft version 1.8");
        }
        _ => panic!("expected the end"),
    }
    assert!(matches!(state, InstallState::Finished));
}

#[test]
fn install_run_complains_about_failures() {
    let waiting = || InstallState::FetchingProject { mc_version: "1.20".to_string() };
    let (state, action) = run(waiting(), InstallEvent::Failed { detail: "offline".to_string() });
    assert!(matches!(state, InstallState::Finished));
    match action {
        InstallAction::Complain { message } => assert_eq!(message, "Error: offline"),
        _ => panic!("expected a complaint"),
    }
    let broken = InstallEvent::ProjectFetched {
        slug: Err(JsonError { message: "EOF while parsing".to_string() }),
    };
    match run(waiting(), broken).1 {
        InstallAction::Complain { message } => assert_eq!(message, "Error: EOF while parsing"),
        _ => panic!("expected a complaint"),
    }
    match run(waiting(), InstallEvent::FormatFailed).1 {
        InstallAction::Finish { message } => assert_eq!(message, "Failed to format JSON"),
        _ => panic!("expected the end"),
    }
    let saving = InstallState::Saving { message: "done".to_string() };
    match run(saving, InstallEvent::Failed { detail: "disk full".to_string() }).1 {
        InstallAction::Complain { message } => assert_eq!(message, "Error: disk full"),
        _ => panic!("expected a complaint"),
    }
    let requesting =
        InstallState::Requesting { slug: "sodium".to_string(), mc_version: "1.20".to_string() };
    let (state, action) =
        run(requesting, InstallEvent::Failed { detail: "no configuration".to_string() });
    assert!(matches!(state, InstallState::Finished));
    match action {
        InstallAction::Complain { message } => assert_eq!(message, "Error: no configuration"),
        _ => panic!("expected a complaint"),
    }
}

#[test]
fn install_run_ignores_events_out_of_turn() {
    let (state, action) = run(InstallState::Idle, InstallEvent::Downloaded);
    assert!(matches!(state, InstallState::Idle));
    assert!(matches!(action, InstallAction::Ignore));
    let (state, action) = run(InstallState::Finished, InstallEvent::FormatFailed);
    assert!(matches!(state, InstallState::Finished));
    assert!(matches!(action, InstallAction::Ignore));
}
