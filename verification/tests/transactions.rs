use apphatch::bundle::DirEntry;
use apphatch::desktop::{DescriptorError, Desktop};
use apphatch::effects::{
    entry_path, helper_path, nested_entry_path, nested_path, Action, Event, Failure, IoFailure,
    Missing, Outcome, PathKind, Taken,
};
use apphatch::extract::{executable_mode, extract_appimage, ExtractPhase};
use apphatch::install::{install_app, InstallPhase, Installation};
use apphatch::layout::flatten_squashfs_root;
use apphatch::paths::Environment;
use apphatch::publish::backup_path;
use apphatch::uninstall::{is_confirmation, uninstall_app};
use apphatch::upgrade::{upgrade_app, Upgrade, UpgradePhase};

const DESCRIPTOR: &str = "[Desktop Entry]\nName=My App\nExec=AppRun\nIcon=app\n";
const ENTRY_TEXT: &str =
    "[Desktop Entry]\nExec=/opt/my-app/AppRun\nIcon=/opt/my-app/app.png\nName=My App\n";
const APPLICATIONS: &str = "/home/u/.local/share/applications";
const ENTRY: &str = "/home/u/.local/share/applications/my-app.desktop";

fn user_env() -> Environment {
    Environment {
        data_home: None,
        home: Some("/home/u".to_string()),
        sudo_user: None,
    }
}

fn regular(name: &str, mode: u32) -> DirEntry {
    DirEntry { name: name.to_string(), is_file: true, mode }
}

fn extracted() -> Vec<DirEntry> {
    vec![regular("AppRun", 0o755), regular("app.png", 0o644), regular("app.desktop", 0o644)]
}

fn failed_with(cause: Failure, clean: bool) -> Action {
    Action::Finish(Outcome::Failed { cause, clean })
}

fn reported(message: &str) -> Failure {
    Failure::Io(IoFailure::Reported(message.to_string()))
}

fn boom() -> Event {
    Event::Failed("boom".to_string())
}

/// Feeds the events to the installation and returns it with the last action.
fn install_through(events: Vec<Event>) -> (Installation, Action) {
    let (mut state, mut action) =
        Installation::begin("~/Downloads/app.AppImage", &user_env(), "abc123");
    for event in events {
        let next = state.step(event);
        state = next.0;
        action = next.1;
    }
    (state, action)
}

fn upgrade_through(events: Vec<Event>) -> (Upgrade, Action) {
    let (mut state, mut action) =
        Upgrade::begin("My App", "/tmp/new.AppImage", &user_env(), "b4c5d6", "e7f8a9");
    for event in events {
        let next = state.step(event);
        state = next.0;
        action = next.1;
    }
    (state, action)
}

/// The events of an extraction that succeeds.
fn extraction_events() -> Vec<Event> {
    vec![Event::Done, Event::Mode(0o644), Event::Done, Event::Exit(0)]
}

/// The events of a flattening of the sample tree that succeeds.
fn flattening_events() -> Vec<Event> {
    vec![
        Event::Entries(extracted()),
        Event::Done,
        Event::Kind(PathKind::Missing),
        Event::Done,
        Event::Kind(PathKind::Missing),
        Event::Done,
        Event::Kind(PathKind::Missing),
        Event::Done,
        Event::Done,
    ]
}

fn events(parts: Vec<Vec<Event>>) -> Vec<Event> {
    parts.into_iter().flatten().collect()
}

fn installed_up_to_relocation() -> Vec<Event> {
    events(vec![
        vec![Event::Done],
        extraction_events(),
        vec![
            Event::Entries(extracted()),
            Event::Text(DESCRIPTOR.to_string()),
            Event::Kind(PathKind::Missing),
            Event::Done,
        ],
    ])
}

#[test]
fn paths_inside_a_bundle() {
    assert_eq!(entry_path("/opt/x", "AppRun"), "/opt/x/AppRun");
    assert_eq!(helper_path("/opt/x"), "/opt/x/App.AppImage");
    assert_eq!(nested_path("/opt/x"), "/opt/x/squashfs-root");
    assert_eq!(nested_entry_path("/opt/x", "a.desktop"), "/opt/x/squashfs-root/a.desktop");
}

#[test]
fn executable_mode_adds_the_execute_bits() {
    assert_eq!(executable_mode(0o644), 0o755);
    assert_eq!(executable_mode(0o600), 0o711);
    assert_eq!(executable_mode(0o755), 0o755);
    assert_eq!(executable_mode(0), 0o111);
    assert_eq!(executable_mode(0o100644), 0o100755);
}

#[test]
fn extraction_copies_marks_and_runs() {
    let (x, a) = extract_appimage("/tmp/a.AppImage", "/opt/abc123");
    assert_eq!(
        a,
        Action::PlaceHelper { archive: "/tmp/a.AppImage".to_string(), dir: "/opt/abc123".to_string() }
    );
    let (x, a) = x.step(Event::Done);
    assert_eq!(a, Action::ReadHelperMode { dir: "/opt/abc123".to_string() });
    let (x, a) = x.step(Event::Mode(0o640));
    assert_eq!(a, Action::SetHelperMode { dir: "/opt/abc123".to_string(), mode: 0o751 });
    let (x, a) = x.step(Event::Done);
    assert_eq!(a, Action::RunExtractor { dir: "/opt/abc123".to_string() });
    let (x, a) = x.step(Event::Exit(0));
    assert_eq!(a, Action::Finish(Outcome::Completed));
    assert_eq!(x.phase, ExtractPhase::Closed);
}

#[test]
fn extraction_fails_on_a_nonzero_exit() {
    let (mut x, _) = extract_appimage("/tmp/a.AppImage", "/opt/abc123");
    for event in [Event::Done, Event::Mode(0o644), Event::Done] {
        x = x.step(event).0;
    }
    let (_, a) = x.step(Event::Exit(2));
    assert_eq!(a, failed_with(Failure::ExtractionFailed, true));
}

#[test]
fn extraction_reports_the_failure_of_a_step() {
    let (x, _) = extract_appimage("/missing", "/opt/abc123");
    let (_, a) = x.step(Event::Failed("No such file".to_string()));
    assert_eq!(a, failed_with(reported("No such file"), true));
    let (x, _) = extract_appimage("/tmp/a.AppImage", "/opt/abc123");
    let (x, _) = x.step(Event::Done);
    let (_, a) = x.step(boom());
    assert_eq!(a, failed_with(reported("boom"), true));
    let (x, _) = extract_appimage("/tmp/a.AppImage", "/opt/abc123");
    let (_, a) = x.step(Event::Text("what".to_string()));
    assert_eq!(a, failed_with(Failure::Io(IoFailure::UnexpectedReply), true));
}

#[test]
fn flattening_without_extracted_tree_does_nothing() {
    let (f, a) = flatten_squashfs_root("/opt/my-app");
    assert_eq!(a, Action::ListNested { dir: "/opt/my-app".to_string() });
    let (_, a) = f.step(Event::Absent);
    assert_eq!(a, Action::Finish(Outcome::Completed));
}

#[test]
fn flattening_moves_each_entry_up() {
    let dir = "/opt/my-app".to_string();
    let (f, _) = flatten_squashfs_root("/opt/my-app");
    let (f, a) = f.step(Event::Entries(vec![
        regular("AppRun", 0o755),
        DirEntry { name: "usr".to_string(), is_file: false, mode: 0o755 },
        regular("app.png", 0o644),
    ]));
    assert_eq!(
        a,
        Action::RemoveEntry { dir: dir.clone(), name: "App.AppImage".to_string(), recursive: false }
    );
    let (f, a) = f.step(Event::Failed("not there".to_string()));
    assert_eq!(a, Action::ProbeEntry { dir: dir.clone(), name: "AppRun".to_string() });
    let (f, a) = f.step(Event::Kind(PathKind::File));
    assert_eq!(
        a,
        Action::RemoveEntry { dir: dir.clone(), name: "AppRun".to_string(), recursive: false }
    );
    let (f, a) = f.step(Event::Done);
    assert_eq!(a, Action::Promote { dir: dir.clone(), name: "AppRun".to_string() });
    let (f, a) = f.step(Event::Done);
    assert_eq!(a, Action::ProbeEntry { dir: dir.clone(), name: "usr".to_string() });
    let (f, a) = f.step(Event::Kind(PathKind::Directory));
    assert_eq!(a, Action::RemoveEntry { dir: dir.clone(), name: "usr".to_string(), recursive: true });
    let (f, a) = f.step(Event::Done);
    assert_eq!(a, Action::Promote { dir: dir.clone(), name: "usr".to_string() });
    let (f, a) = f.step(Event::Done);
    assert_eq!(a, Action::ProbeEntry { dir: dir.clone(), name: "app.png".to_string() });
    let (f, a) = f.step(Event::Kind(PathKind::Missing));
    assert_eq!(a, Action::Promote { dir: dir.clone(), name: "app.png".to_string() });
    let (f, a) = f.step(Event::Done);
    assert_eq!(a, Action::RemoveNested { dir: dir.clone() });
    let (_, a) = f.step(Event::Done);
    assert_eq!(a, Action::Finish(Outcome::Completed));
}

#[test]
fn flattening_of_an_empty_tree_removes_it() {
    let (f, _) = flatten_squashfs_root("/opt/my-app");
    let (f, _) = f.step(Event::Entries(Vec::new()));
    let (f, a) = f.step(Event::Done);
    assert_eq!(a, Action::RemoveNested { dir: "/opt/my-app".to_string() });
    let (_, a) = f.step(boom());
    assert_eq!(a, failed_with(reported("boom"), true));
}

#[test]
fn flattening_stops_at_the_first_failure() {
    let (f, _) = flatten_squashfs_root("/opt/my-app");
    let (f, _) = f.step(Event::Entries(extracted()));
    let (f, _) = f.step(Event::Done);
    let (f, _) = f.step(Event::Kind(PathKind::Missing));
    let (_, a) = f.step(Event::Failed("cross-device".to_string()));
    assert_eq!(a, failed_with(reported("cross-device"), true));
    let (f, _) = flatten_squashfs_root("/opt/my-app");
    let (_, a) = f.step(boom());
    assert_eq!(a, failed_with(reported("boom"), true));
}

#[test]
fn publication_writes_where_nothing_stands() {
    let d = Desktop::new(DESCRIPTOR).unwrap();
    let (p, a) = d.create_desktop(APPLICATIONS, "/opt/my-app/AppRun", "/opt/my-app/app.png");
    assert_eq!(a, Action::Probe { path: ENTRY.to_string() });
    let (p, a) = p.step(Event::Kind(PathKind::Missing));
    assert_eq!(a, Action::WriteFile { path: ENTRY.to_string(), content: ENTRY_TEXT.to_string() });
    let (_, a) = p.step(Event::Done);
    assert_eq!(a, Action::Finish(Outcome::Completed));
}

#[test]
fn publication_withdraws_what_it_could_not_write() {
    let d = Desktop::new(DESCRIPTOR).unwrap();
    let (p, _) = d.create_desktop(APPLICATIONS, "/e", "/i");
    let (p, _) = p.step(Event::Kind(PathKind::Missing));
    let (p, a) = p.step(Event::Failed("disk full".to_string()));
    assert_eq!(a, Action::RemoveFile { path: ENTRY.to_string() });
    let (_, a) = p.clone().step(Event::Done);
    assert_eq!(a, failed_with(reported("disk full"), true));
    let (p, a) = p.step(Event::Failed("no such file".to_string()));
    assert_eq!(a, Action::Probe { path: ENTRY.to_string() });
    let (_, a) = p.clone().step(Event::Kind(PathKind::Missing));
    assert_eq!(a, failed_with(reported("disk full"), true));
    let (_, a) = p.clone().step(Event::Kind(PathKind::File));
    assert_eq!(a, failed_with(reported("disk full"), false));
    let (_, a) = p.step(boom());
    assert_eq!(a, failed_with(reported("disk full"), false));
}

#[test]
fn publication_never_overwrites() {
    let d = Desktop::new(DESCRIPTOR).unwrap();
    let (p, _) = d.create_desktop(APPLICATIONS, "/e", "/i");
    let (_, a) = p.step(Event::Kind(PathKind::File));
    assert_eq!(a, failed_with(Failure::AlreadyExists(Taken::Entry), true));
    let (p, _) = d.create_desktop(APPLICATIONS, "/e", "/i");
    let (_, a) = p.step(Event::Kind(PathKind::Directory));
    assert_eq!(a, failed_with(Failure::AlreadyExists(Taken::Entry), true));
}

#[test]
fn backup_path_stands_beside_the_entry() {
    assert_eq!(backup_path(ENTRY, "e7f8a9"), Some(format!("{}/my-app.bak-e7f8a9", APPLICATIONS)));
    assert_eq!(backup_path("my.app.desktop", "123456"), Some("my.app.bak-123456".to_string()));
    assert_eq!(backup_path("/", "123456"), None);
    assert_eq!(backup_path("", "123456"), None);
    assert_eq!(backup_path("/a/..", "123456"), Some("/a/desktop.bak-123456".to_string()));
}

#[test]
fn update_replaces_behind_a_backup() {
    let d = Desktop::new(DESCRIPTOR).unwrap();
    let backup = format!("{}/my-app.bak-e7f8a9", APPLICATIONS);
    let (p, a) = d.update_desktop(ENTRY, "/opt/my-app/AppRun", "/opt/my-app/app.png", "e7f8a9");
    assert_eq!(a, Action::Rename { from: ENTRY.to_string(), to: backup.clone() });
    let (p, a) = p.step(Event::Done);
    assert_eq!(a, Action::WriteFile { path: ENTRY.to_string(), content: ENTRY_TEXT.to_string() });
    let (_, a) = p.step(Event::Done);
    assert_eq!(a, Action::Finish(Outcome::Completed));
}

#[test]
fn update_restores_the_backup_when_writing_fails() {
    let d = Desktop::new(DESCRIPTOR).unwrap();
    let backup = format!("{}/my-app.bak-e7f8a9", APPLICATIONS);
    let (p, _) = d.update_desktop(ENTRY, "/e", "/i", "e7f8a9");
    let (p, _) = p.step(Event::Done);
    let (p, a) = p.step(Event::Failed("disk full".to_string()));
    assert_eq!(a, Action::RemoveFile { path: ENTRY.to_string() });
    let (p, a) = p.step(Event::Failed("nothing written".to_string()));
    assert_eq!(a, Action::Rename { from: backup.clone(), to: ENTRY.to_string() });
    let (_, a) = p.clone().step(Event::Done);
    assert_eq!(a, failed_with(reported("disk full"), true));
    let (_, a) = p.step(boom());
    assert_eq!(a, failed_with(reported("disk full"), false));
}

#[test]
fn update_fails_when_the_entry_cannot_be_moved_aside() {
    let d = Desktop::new(DESCRIPTOR).unwrap();
    let (p, _) = d.update_desktop(ENTRY, "/e", "/i", "e7f8a9");
    let (_, a) = p.step(Event::Failed("denied".to_string()));
    assert_eq!(a, failed_with(reported("denied"), true));
    let (_, a) = d.update_desktop("/", "/e", "/i", "e7f8a9");
    assert_eq!(a, failed_with(Failure::Io(IoFailure::NoParent), true));
}

#[test]
fn install_begins_by_staging() {
    let (state, action) = install_through(Vec::new());
    assert_eq!(action, Action::CreateDir { path: "/opt/abc123".to_string() });
    assert_eq!(state.archive, "/home/u/Downloads/app.AppImage");
    assert_eq!(state.staging, "/opt/abc123");
    assert_eq!(state.applications_dir, APPLICATIONS);
    assert_eq!(state.phase, InstallPhase::Staging);
}

#[test]
fn install_app_names_a_fresh_staging_area() {
    let (state, action) = install_app("/tmp/a.AppImage", &user_env());
    assert_eq!(state.archive, "/tmp/a.AppImage");
    assert_eq!(state.staging.len(), 11);
    assert!(state.staging.starts_with("/opt/"));
    assert_eq!(action, Action::CreateDir { path: state.staging.clone() });
    let (other, _) = install_app("/tmp/a.AppImage", &user_env());
    let (third, _) = install_app("/tmp/a.AppImage", &user_env());
    assert!(other.staging != state.staging || third.staging != state.staging);
}

#[test]
fn install_runs_to_completion() {
    let (_, a) = install_through(vec![Event::Done]);
    assert_eq!(
        a,
        Action::PlaceHelper {
            archive: "/home/u/Downloads/app.AppImage".to_string(),
            dir: "/opt/abc123".to_string()
        }
    );
    let (_, a) = install_through(events(vec![vec![Event::Done], extraction_events()]));
    assert_eq!(a, Action::ListNested { dir: "/opt/abc123".to_string() });
    let mut so_far = events(vec![
        vec![Event::Done],
        extraction_events(),
        vec![Event::Entries(extracted())],
    ]);
    let (_, a) = install_through(so_far.clone());
    assert_eq!(
        a,
        Action::ReadNested { dir: "/opt/abc123".to_string(), name: "app.desktop".to_string() }
    );
    so_far.push(Event::Text(DESCRIPTOR.to_string()));
    let (state, a) = install_through(so_far.clone());
    assert_eq!(a, Action::Probe { path: "/opt/my-app".to_string() });
    assert_eq!(state.target, "/opt/my-app");
    so_far.push(Event::Kind(PathKind::Missing));
    let (_, a) = install_through(so_far.clone());
    assert_eq!(
        a,
        Action::Rename { from: "/opt/abc123".to_string(), to: "/opt/my-app".to_string() }
    );
    so_far.push(Event::Done);
    let (_, a) = install_through(so_far.clone());
    assert_eq!(a, Action::ListNested { dir: "/opt/my-app".to_string() });
    so_far.extend(flattening_events());
    let (_, a) = install_through(so_far.clone());
    assert_eq!(a, Action::ListDir { dir: "/opt/my-app".to_string() });
    so_far.push(Event::Entries(extracted()));
    let (_, a) = install_through(so_far.clone());
    assert_eq!(a, Action::Probe { path: ENTRY.to_string() });
    so_far.push(Event::Kind(PathKind::Missing));
    let (_, a) = install_through(so_far.clone());
    assert_eq!(a, Action::WriteFile { path: ENTRY.to_string(), content: ENTRY_TEXT.to_string() });
    so_far.push(Event::Done);
    let (_, a) = install_through(so_far.clone());
    assert_eq!(a, Action::RefreshRegistry { dir: APPLICATIONS.to_string() });
    so_far.push(Event::Failed("no such tool".to_string()));
    let (_, a) = install_through(so_far.clone());
    assert_eq!(a, Action::RelaxPermissions { dir: "/opt/my-app".to_string() });
    so_far.push(Event::Failed("chmod failed".to_string()));
    let (state, a) = install_through(so_far.clone());
    assert_eq!(a, Action::Finish(Outcome::Completed));
    assert!(matches!(state.phase, InstallPhase::Committed(_)));
}

#[test]
fn install_fails_when_the_staging_area_cannot_be_made() {
    let (state, a) = install_through(vec![Event::Failed("denied".to_string())]);
    assert_eq!(a, failed_with(reported("denied"), true));
    assert_eq!(state.phase, InstallPhase::Closed);
}

#[test]
fn install_discards_the_staging_area_when_extraction_fails() {
    let (_, a) = install_through(vec![
        Event::Done,
        Event::Done,
        Event::Mode(0o644),
        Event::Done,
        Event::Exit(1),
    ]);
    assert_eq!(a, Action::RemoveDirAll { path: "/opt/abc123".to_string() });
    let (state, a) = install_through(vec![
        Event::Done,
        Event::Done,
        Event::Mode(0o644),
        Event::Done,
        Event::Exit(1),
        Event::Done,
    ]);
    assert_eq!(a, failed_with(Failure::ExtractionFailed, true));
    assert_eq!(state.phase, InstallPhase::Closed);
    let (_, a) = install_through(vec![Event::Done, boom(), boom()]);
    assert_eq!(a, failed_with(reported("boom"), false));
}

#[test]
fn install_without_descriptor_is_not_found() {
    let no_descriptor = vec![regular("AppRun", 0o755), regular("app.png", 0o644)];
    let (_, a) = install_through(events(vec![
        vec![Event::Done],
        extraction_events(),
        vec![Event::Entries(no_descriptor)],
    ]));
    assert_eq!(a, Action::RemoveDirAll { path: "/opt/abc123".to_string() });
    let (_, a) = install_through(events(vec![
        vec![Event::Done],
        extraction_events(),
        vec![Event::Absent, Event::Done],
    ]));
    assert_eq!(a, failed_with(Failure::NotFound(Missing::Descriptor), true));
}

#[test]
fn install_without_name_is_invalid_data() {
    for text in ["[Desktop Entry]\nExec=x\n", "[Desktop Entry]\nName=   \n"] {
        let (_, a) = install_through(events(vec![
            vec![Event::Done],
            extraction_events(),
            vec![Event::Entries(extracted()), Event::Text(text.to_string()), Event::Done],
        ]));
        assert_eq!(a, failed_with(Failure::InvalidData(DescriptorError::MissingName), true));
    }
    let (_, a) = install_through(events(vec![
        vec![Event::Done],
        extraction_events(),
        vec![Event::Entries(extracted()), Event::Text("[broken".to_string()), Event::Done],
    ]));
    assert_eq!(a, failed_with(Failure::InvalidData(DescriptorError::Malformed), true));
}

#[test]
fn install_refuses_a_taken_bundle_directory() {
    let before = events(vec![
        vec![Event::Done],
        extraction_events(),
        vec![
            Event::Entries(extracted()),
            Event::Text(DESCRIPTOR.to_string()),
            Event::Kind(PathKind::Directory),
        ],
    ]);
    let (_, a) = install_through(before.clone());
    assert_eq!(a, Action::RemoveDirAll { path: "/opt/abc123".to_string() });
    let (state, a) = install_through(events(vec![before, vec![Event::Done]]));
    assert_eq!(a, failed_with(Failure::AlreadyExists(Taken::Bundle), true));
    assert_eq!(state.phase, InstallPhase::Closed);
}

#[test]
fn install_discards_the_staging_area_when_it_cannot_be_moved() {
    let mut all = installed_up_to_relocation();
    all.pop();
    all.push(Event::Failed("busy".to_string()));
    let (_, a) = install_through(all.clone());
    assert_eq!(a, Action::RemoveDirAll { path: "/opt/abc123".to_string() });
    all.push(Event::Done);
    let (_, a) = install_through(all);
    assert_eq!(a, failed_with(reported("busy"), true));
}

#[test]
fn install_removes_the_bundle_without_executable_or_icon() {
    let before = events(vec![installed_up_to_relocation(), flattening_events()]);
    let no_exec = vec![regular("app.png", 0o644), regular("AppRun", 0o644)];
    let (_, a) = install_through(events(vec![before.clone(), vec![Event::Entries(no_exec.clone())]]));
    assert_eq!(a, Action::RemoveDirAll { path: "/opt/my-app".to_string() });
    let (_, a) =
        install_through(events(vec![before.clone(), vec![Event::Entries(no_exec), Event::Done]]));
    assert_eq!(a, failed_with(Failure::NotFound(Missing::Executable), true));
    let no_icon = vec![regular("AppRun", 0o755)];
    let (_, a) =
        install_through(events(vec![before.clone(), vec![Event::Entries(no_icon), boom()]]));
    assert_eq!(a, failed_with(Failure::NotFound(Missing::Icon), false));
    let (_, a) = install_through(events(vec![before, vec![Event::Absent, Event::Done]]));
    assert_eq!(a, failed_with(Failure::NotFound(Missing::Executable), true));
}

#[test]
fn install_removes_the_bundle_when_flattening_fails() {
    let (_, a) = install_through(events(vec![installed_up_to_relocation(), vec![boom()]]));
    assert_eq!(a, Action::RemoveDirAll { path: "/opt/my-app".to_string() });
}

#[test]
fn install_keeps_the_bundle_when_publication_fails() {
    let before = events(vec![
        installed_up_to_relocation(),
        flattening_events(),
        vec![Event::Entries(extracted())],
    ]);
    let (state, a) =
        install_through(events(vec![before.clone(), vec![Event::Kind(PathKind::File)]]));
    assert_eq!(a, failed_with(Failure::AlreadyExists(Taken::Entry), true));
    assert_eq!(state.phase, InstallPhase::Unpublished);
    let written = events(vec![
        before,
        vec![Event::Kind(PathKind::Missing), Event::Failed("read-only".to_string())],
    ]);
    let (_, a) = install_through(written.clone());
    assert_eq!(a, Action::RemoveFile { path: ENTRY.to_string() });
    let (state, a) = install_through(events(vec![written.clone(), vec![Event::Done]]));
    assert_eq!(a, failed_with(reported("read-only"), true));
    assert_eq!(state.phase, InstallPhase::Unpublished);
    let (_, a) = install_through(events(vec![written.clone(), vec![boom()]]));
    assert_eq!(a, Action::Probe { path: ENTRY.to_string() });
    let (_, a) = install_through(events(vec![
        written.clone(),
        vec![boom(), Event::Kind(PathKind::Missing)],
    ]));
    assert_eq!(a, failed_with(reported("read-only"), true));
    let (state, a) =
        install_through(events(vec![written, vec![boom(), Event::Kind(PathKind::File)]]));
    assert_eq!(a, failed_with(reported("read-only"), false));
    assert_eq!(state.phase, InstallPhase::Unpublished);
}

#[test]
fn install_that_has_ended_stays_ended() {
    let (state, _) = install_through(vec![boom()]);
    let (state, a) = state.step(Event::Done);
    assert_eq!(a, failed_with(Failure::Io(IoFailure::UnexpectedReply), true));
    assert_eq!(state.phase, InstallPhase::Closed);
}

#[test]
fn upgrade_begins_by_probing_the_bundle() {
    let (state, a) = upgrade_through(Vec::new());
    assert_eq!(a, Action::Probe { path: "/opt/my-app".to_string() });
    assert_eq!(state.archive, "/tmp/new.AppImage");
    assert_eq!(state.target, "/opt/my-app");
    assert_eq!(state.entry, ENTRY);
    assert_eq!(state.backup, "/opt/b4c5d6");
    assert_eq!(state.phase, UpgradePhase::CheckingBundle);
}

#[test]
fn upgrade_app_names_fresh_backups() {
    let (state, a) = upgrade_app("My App", "/tmp/new.AppImage", &user_env());
    assert_eq!(a, Action::Probe { path: "/opt/my-app".to_string() });
    assert_eq!(state.backup.len(), 11);
    assert_eq!(state.entry_id.len(), 6);
    assert!(state.backup.starts_with("/opt/"));
}

#[test]
fn upgrade_wants_the_bundle_and_its_entry() {
    let (_, a) = upgrade_through(vec![Event::Kind(PathKind::Missing)]);
    assert_eq!(a, failed_with(Failure::NotFound(Missing::Installation), true));
    let (_, a) = upgrade_through(vec![Event::Kind(PathKind::Directory)]);
    assert_eq!(a, Action::Probe { path: ENTRY.to_string() });
    let (_, a) =
        upgrade_through(vec![Event::Kind(PathKind::Directory), Event::Kind(PathKind::Missing)]);
    assert_eq!(a, failed_with(Failure::NotFound(Missing::Entry), true));
}

fn backed_up() -> Vec<Event> {
    vec![Event::Kind(PathKind::Directory), Event::Kind(PathKind::File), Event::Done, Event::Done]
}

#[test]
fn upgrade_runs_to_completion() {
    let (_, a) =
        upgrade_through(vec![Event::Kind(PathKind::Directory), Event::Kind(PathKind::File)]);
    assert_eq!(a, Action::Rename { from: "/opt/my-app".to_string(), to: "/opt/b4c5d6".to_string() });
    let mut so_far = vec![
        Event::Kind(PathKind::Directory),
        Event::Kind(PathKind::File),
        Event::Done,
    ];
    let (_, a) = upgrade_through(so_far.clone());
    assert_eq!(a, Action::CreateDir { path: "/opt/my-app".to_string() });
    so_far.push(Event::Done);
    let (_, a) = upgrade_through(so_far.clone());
    assert_eq!(
        a,
        Action::PlaceHelper { archive: "/tmp/new.AppImage".to_string(), dir: "/opt/my-app".to_string() }
    );
    so_far.extend(extraction_events());
    let (_, a) = upgrade_through(so_far.clone());
    assert_eq!(a, Action::ListNested { dir: "/opt/my-app".to_string() });
    so_far.push(Event::Entries(extracted()));
    let (_, a) = upgrade_through(so_far.clone());
    assert_eq!(
        a,
        Action::ReadNested { dir: "/opt/my-app".to_string(), name: "app.desktop".to_string() }
    );
    so_far.push(Event::Text(DESCRIPTOR.to_string()));
    let (_, a) = upgrade_through(so_far.clone());
    assert_eq!(a, Action::ListNested { dir: "/opt/my-app".to_string() });
    so_far.extend(flattening_events());
    let (_, a) = upgrade_through(so_far.clone());
    assert_eq!(a, Action::ListDir { dir: "/opt/my-app".to_string() });
    so_far.push(Event::Entries(extracted()));
    let (_, a) = upgrade_through(so_far.clone());
    assert_eq!(
        a,
        Action::Rename {
            from: ENTRY.to_string(),
            to: format!("{}/my-app.bak-e7f8a9", APPLICATIONS)
        }
    );
    so_far.push(Event::Done);
    let (_, a) = upgrade_through(so_far.clone());
    assert_eq!(a, Action::WriteFile { path: ENTRY.to_string(), content: ENTRY_TEXT.to_string() });
    so_far.push(Event::Done);
    let (state, a) = upgrade_through(so_far);
    assert_eq!(a, Action::Finish(Outcome::Completed));
    assert!(matches!(state.phase, UpgradePhase::Committed(_)));
}

#[test]
fn upgrade_fails_when_the_bundle_cannot_be_moved_aside() {
    let (_, a) = upgrade_through(vec![
        Event::Kind(PathKind::Directory),
        Event::Kind(PathKind::File),
        Event::Failed("denied".to_string()),
    ]);
    assert_eq!(a, failed_with(reported("denied"), true));
}

#[test]
fn upgrade_moves_the_bundle_back_when_it_cannot_be_made_anew() {
    let mut all = backed_up();
    all.pop();
    all.push(Event::Failed("denied".to_string()));
    let (_, a) = upgrade_through(all.clone());
    assert_eq!(a, Action::Rename { from: "/opt/b4c5d6".to_string(), to: "/opt/my-app".to_string() });
    all.push(Event::Done);
    let (_, a) = upgrade_through(all);
    assert_eq!(a, failed_with(reported("denied"), true));
}

#[test]
fn upgrade_reverts_when_extraction_fails() {
    let mut all = events(vec![backed_up(), vec![Event::Done, Event::Mode(0o644), Event::Done]]);
    all.push(Event::Exit(127));
    let (_, a) = upgrade_through(all.clone());
    assert_eq!(a, Action::RemoveDirAll { path: "/opt/my-app".to_string() });
    all.push(Event::Done);
    let (_, a) = upgrade_through(all.clone());
    assert_eq!(a, Action::Rename { from: "/opt/b4c5d6".to_string(), to: "/opt/my-app".to_string() });
    let (state, a) = upgrade_through(events(vec![all.clone(), vec![Event::Done]]));
    assert_eq!(a, failed_with(Failure::ExtractionFailed, true));
    assert_eq!(state.phase, UpgradePhase::Closed);
    let (_, a) = upgrade_through(events(vec![all, vec![boom()]]));
    assert_eq!(a, failed_with(Failure::ExtractionFailed, false));
}

#[test]
fn upgrade_does_not_move_back_over_what_it_could_not_remove() {
    let all = events(vec![backed_up(), vec![boom(), boom()]]);
    let (_, a) = upgrade_through(all);
    assert_eq!(a, failed_with(reported("boom"), false));
}

#[test]
fn upgrade_reverts_when_validation_fails() {
    let extracted_ok = events(vec![backed_up(), extraction_events()]);
    let (_, a) = upgrade_through(events(vec![extracted_ok.clone(), vec![Event::Entries(Vec::new())]]));
    assert_eq!(a, Action::RemoveDirAll { path: "/opt/my-app".to_string() });
    let (_, a) = upgrade_through(events(vec![
        extracted_ok.clone(),
        vec![Event::Entries(Vec::new()), Event::Done, Event::Done],
    ]));
    assert_eq!(a, failed_with(Failure::NotFound(Missing::Descriptor), true));
    let (_, a) = upgrade_through(events(vec![
        extracted_ok.clone(),
        vec![
            Event::Entries(extracted()),
            Event::Text("[Desktop Entry]\n".to_string()),
            Event::Done,
            Event::Done,
        ],
    ]));
    assert_eq!(a, failed_with(Failure::InvalidData(DescriptorError::MissingName), true));
    let flattened = events(vec![
        extracted_ok,
        vec![Event::Entries(extracted()), Event::Text(DESCRIPTOR.to_string())],
        flattening_events(),
    ]);
    let (_, a) = upgrade_through(events(vec![
        flattened.clone(),
        vec![Event::Entries(vec![regular("app.png", 0o644)]), Event::Done, Event::Done],
    ]));
    assert_eq!(a, failed_with(Failure::NotFound(Missing::Executable), true));
    let (_, a) = upgrade_through(events(vec![
        flattened,
        vec![Event::Entries(vec![regular("AppRun", 0o700)]), Event::Done, Event::Done],
    ]));
    assert_eq!(a, failed_with(Failure::NotFound(Missing::Icon), true));
}

#[test]
fn upgrade_reverts_when_the_entry_cannot_be_replaced() {
    let resolved = events(vec![
        backed_up(),
        extraction_events(),
        vec![Event::Entries(extracted()), Event::Text(DESCRIPTOR.to_string())],
        flattening_events(),
        vec![Event::Entries(extracted())],
    ]);
    let mut all = events(vec![
        resolved,
        vec![Event::Done, Event::Failed("disk full".to_string()), Event::Done],
    ]);
    let (_, a) = upgrade_through(all.clone());
    assert_eq!(
        a,
        Action::Rename {
            from: format!("{}/my-app.bak-e7f8a9", APPLICATIONS),
            to: ENTRY.to_string()
        }
    );
    all.push(Event::Done);
    let (_, a) = upgrade_through(all.clone());
    assert_eq!(a, Action::RemoveDirAll { path: "/opt/my-app".to_string() });
    all.push(Event::Done);
    let (_, a) = upgrade_through(all.clone());
    assert_eq!(a, Action::Rename { from: "/opt/b4c5d6".to_string(), to: "/opt/my-app".to_string() });
    all.push(Event::Done);
    let (_, a) = upgrade_through(all);
    assert_eq!(a, failed_with(reported("disk full"), true));
}

#[test]
fn uninstall_asks_first() {
    let (u, a) = uninstall_app("My App", &user_env());
    assert_eq!(a, Action::Confirm { name: "My App".to_string() });
    assert_eq!(u.target, "/opt/my-app");
    assert_eq!(u.entry, ENTRY);
    let (_, a) = u.clone().step(Event::Text("n\n".to_string()));
    assert_eq!(a, failed_with(Failure::Declined, true));
    let (_, a) = u.clone().step(Event::Text("\n".to_string()));
    assert_eq!(a, failed_with(Failure::Declined, true));
    let (_, a) = u.clone().step(Event::Text("yes\n".to_string()));
    assert_eq!(a, failed_with(Failure::Declined, true));
    let (_, a) = u.step(Event::Text(" Y \n".to_string()));
    assert_eq!(a, Action::Probe { path: "/opt/my-app".to_string() });
}

#[test]
fn uninstall_looks_in_the_applications_directory() {
    let env = Environment {
        data_home: Some("/data".to_string()),
        home: Some("/home/u".to_string()),
        sudo_user: Some("v".to_string()),
    };
    let (u, _) = uninstall_app("My App", &env);
    assert_eq!(u.entry, "/data/applications/my-app.desktop");
    assert_eq!(u.applications_dir, "/data/applications");
    let root = Environment { data_home: None, home: Some("/root".to_string()), sudo_user: None };
    let (u, _) = uninstall_app("My App", &root);
    assert_eq!(u.entry, "/root/.local/share/applications/my-app.desktop");
    let (i, _) = Installation::begin("/tmp/a.AppImage", &env, "abc123");
    assert_eq!(i.applications_dir, u_dir(&env));
}

fn u_dir(env: &Environment) -> String {
    uninstall_app("x", env).0.applications_dir
}

#[test]
fn uninstall_removes_entry_and_bundle() {
    let (u, _) = uninstall_app("My App", &user_env());
    let (u, _) = u.step(Event::Text("y\n".to_string()));
    let (u, a) = u.step(Event::Kind(PathKind::Directory));
    assert_eq!(a, Action::Probe { path: ENTRY.to_string() });
    let (u, a) = u.step(Event::Kind(PathKind::File));
    assert_eq!(a, Action::RemoveFile { path: ENTRY.to_string() });
    let (u, a) = u.step(Event::Done);
    assert_eq!(a, Action::RemoveDirAll { path: "/opt/my-app".to_string() });
    let (u, a) = u.step(Event::Done);
    assert_eq!(a, Action::RefreshRegistry { dir: APPLICATIONS.to_string() });
    let (_, a) = u.step(boom());
    assert_eq!(a, Action::Finish(Outcome::Completed));
}

#[test]
fn uninstall_wants_the_bundle_and_its_entry() {
    let (u, _) = uninstall_app("My App", &user_env());
    let (u, _) = u.step(Event::Text("y".to_string()));
    let (_, a) = u.clone().step(Event::Kind(PathKind::Missing));
    assert_eq!(a, failed_with(Failure::NotFound(Missing::Installation), true));
    let (u, _) = u.step(Event::Kind(PathKind::Directory));
    let (_, a) = u.clone().step(Event::Kind(PathKind::Missing));
    assert_eq!(a, failed_with(Failure::NotFound(Missing::Entry), true));
    let (u, _) = u.step(Event::Kind(PathKind::File));
    let (_, a) = u.step(Event::Failed("denied".to_string()));
    assert_eq!(a, failed_with(reported("denied"), true));
}

#[test]
fn confirmation_is_y_in_either_case() {
    assert!(is_confirmation("y"));
    assert!(is_confirmation("Y\n"));
    assert!(is_confirmation("  y  "));
    assert!(!is_confirmation("yes"));
    assert!(!is_confirmation(""));
    assert!(!is_confirmation("n"));
}

#[test]
fn failure_messages() {
    assert_eq!(reported("boom").message(), "boom");
    assert_eq!(Failure::Io(IoFailure::NoParent).message(), "path has no parent");
    assert_eq!(Failure::Io(IoFailure::UnexpectedReply).message(), "unexpected reply");
    assert_eq!(Failure::ExtractionFailed.message(), "extraction failed");
    assert_eq!(Failure::NotFound(Missing::Descriptor).message(), "Desktop ini file not found");
    assert_eq!(Failure::NotFound(Missing::Executable).message(), "exec not found");
    assert_eq!(Failure::NotFound(Missing::Icon).message(), "icon not found");
    assert_eq!(Failure::NotFound(Missing::Installation).message(), "App not found");
    assert_eq!(Failure::NotFound(Missing::Entry).message(), "Desktop ini file not found");
    assert_eq!(
        Failure::InvalidData(DescriptorError::MissingName).message(),
        "Required field missing: Name"
    );
    assert_eq!(Failure::AlreadyExists(Taken::Bundle).message(), "App already exists");
    assert_eq!(Failure::AlreadyExists(Taken::Entry).message(), "Desktop ini file already exists");
    assert_eq!(Failure::Declined.message(), "declined");
}
