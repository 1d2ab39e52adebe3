use apphatch::bundle::DirEntry;
use apphatch::effects::{Action, Event, Failure, Outcome, PathKind, Taken};
use apphatch::install::{InstallPhase, Installation};
use apphatch::layout::flatten_squashfs_root;
use apphatch::paths::Environment;
use apphatch::uninstall::uninstall_app;
use apphatch::upgrade::{Upgrade, UpgradePhase};
use std::collections::BTreeMap;

const HELPER: &str = "App.AppImage";
const NESTED: &str = "squashfs-root";
const APPS: &str = "/home/u/.local/share/applications";

#[derive(Clone, Debug, PartialEq, Eq)]
struct SimEntry {
    is_file: bool,
    mode: u32,
    content: String,
}

#[derive(Clone, Debug, PartialEq, Eq, Default)]
struct SimDir {
    top: BTreeMap<String, SimEntry>,
    nested: Option<BTreeMap<String, SimEntry>>,
}

/// A file system in memory, with one fault to inject.
#[derive(Clone, Debug, PartialEq, Eq, Default)]
struct Sim {
    dirs: BTreeMap<String, SimDir>,
    files: BTreeMap<String, String>,
}

struct Machine {
    world: Sim,
    archives: BTreeMap<String, BTreeMap<String, SimEntry>>,
    fail_at: Option<usize>,
    performed: usize,
}

fn plain(mode: u32, content: &str) -> SimEntry {
    SimEntry { is_file: true, mode, content: content.to_string() }
}

fn listing(entries: &BTreeMap<String, SimEntry>) -> Vec<DirEntry> {
    entries
        .iter()
        .map(|(name, e)| DirEntry { name: name.clone(), is_file: e.is_file, mode: e.mode })
        .collect()
}

fn done_if(ok: bool) -> Event {
    if ok {
        Event::Done
    } else {
        Event::Failed("refused".to_string())
    }
}

impl Machine {
    fn new(world: Sim) -> Machine {
        Machine { world, archives: BTreeMap::new(), fail_at: None, performed: 0 }
    }

    fn kind(&self, path: &str) -> PathKind {
        if self.world.dirs.contains_key(path) {
            PathKind::Directory
        } else if self.world.files.contains_key(path) {
            PathKind::File
        } else {
            PathKind::Missing
        }
    }

    fn rename(&mut self, from: &str, to: &str) -> Event {
        if let Some(dir) = self.world.dirs.remove(from) {
            self.world.dirs.insert(to.to_string(), dir);
            Event::Done
        } else if let Some(file) = self.world.files.remove(from) {
            self.world.files.insert(to.to_string(), file);
            Event::Done
        } else {
            Event::Failed("no such file or directory".to_string())
        }
    }

    fn perform(&mut self, action: &Action) -> Event {
        let index = self.performed;
        self.performed += 1;
        if self.fail_at == Some(index) {
            return Event::Failed("injected".to_string());
        }
        match action {
            Action::CreateDir { path } => {
                if self.kind(path) != PathKind::Missing {
                    return Event::Failed("exists".to_string());
                }
                self.world.dirs.insert(path.clone(), SimDir::default());
                Event::Done
            }
            Action::Rename { from, to } => self.rename(from, to),
            Action::RemoveDirAll { path } => done_if(self.world.dirs.remove(path).is_some()),
            Action::RemoveFile { path } => done_if(self.world.files.remove(path).is_some()),
            Action::WriteFile { path, content } => {
                if self.world.dirs.contains_key(path) {
                    return Event::Failed("is a directory".to_string());
                }
                self.world.files.insert(path.clone(), content.clone());
                Event::Done
            }
            Action::Probe { path } => Event::Kind(self.kind(path)),
            Action::PlaceHelper { archive, dir } => {
                let known = self.archives.contains_key(archive);
                match self.world.dirs.get_mut(dir) {
                    Some(d) if known => {
                        d.top.insert(HELPER.to_string(), plain(0o644, archive));
                        Event::Done
                    }
                    _ => Event::Failed("cannot copy".to_string()),
                }
            }
            Action::ReadHelperMode { dir } => match self.world.dirs.get(dir) {
                Some(d) if d.top.contains_key(HELPER) => Event::Mode(d.top[HELPER].mode),
                _ => Event::Failed("no helper".to_string()),
            },
            Action::SetHelperMode { dir, mode } => match self.world.dirs.get_mut(dir) {
                Some(d) if d.top.contains_key(HELPER) => {
                    d.top.get_mut(HELPER).unwrap().mode = *mode;
                    Event::Done
                }
                _ => Event::Failed("no helper".to_string()),
            },
            Action::RunExtractor { dir } => {
                let d = match self.world.dirs.get_mut(dir) {
                    Some(d) => d,
                    None => return Event::Failed("no directory".to_string()),
                };
                let helper = match d.top.get(HELPER) {
                    Some(h) if h.mode & 0o111 != 0 => h.clone(),
                    _ => return Event::Failed("cannot execute".to_string()),
                };
                let entries = self.archives[&helper.content].clone();
                if entries.is_empty() {
                    return Event::Exit(1);
                }
                d.nested = Some(entries);
                Event::Exit(0)
            }
            Action::ListNested { dir } => match self.world.dirs.get(dir) {
                Some(SimDir { nested: Some(entries), .. }) => Event::Entries(listing(entries)),
                _ => Event::Absent,
            },
            Action::ListDir { dir } => match self.world.dirs.get(dir) {
                Some(d) => {
                    let mut es = listing(&d.top);
                    if d.nested.is_some() {
                        es.push(DirEntry { name: NESTED.to_string(), is_file: false, mode: 0o755 });
                    }
                    Event::Entries(es)
                }
                None => Event::Absent,
            },
            Action::ReadNested { dir, name } => {
                match self.world.dirs.get(dir).and_then(|d| d.nested.as_ref()).and_then(|n| n.get(name)) {
                    Some(e) => Event::Text(e.content.clone()),
                    None => Event::Failed("no such file".to_string()),
                }
            }
            Action::ProbeEntry { dir, name } => match self.world.dirs.get(dir) {
                Some(d) if name == NESTED && d.nested.is_some() => Event::Kind(PathKind::Directory),
                Some(d) => match d.top.get(name) {
                    Some(e) if e.is_file => Event::Kind(PathKind::File),
                    Some(_) => Event::Kind(PathKind::Directory),
                    None => Event::Kind(PathKind::Missing),
                },
                None => Event::Kind(PathKind::Missing),
            },
            Action::RemoveEntry { dir, name, recursive } => match self.world.dirs.get_mut(dir) {
                Some(d) if name == NESTED && d.nested.is_some() && *recursive => {
                    d.nested = None;
                    Event::Done
                }
                Some(d) => match d.top.get(name) {
                    Some(e) if e.is_file != *recursive => {
                        d.top.remove(name);
                        Event::Done
                    }
                    _ => Event::Failed("cannot remove".to_string()),
                },
                None => Event::Failed("no directory".to_string()),
            },
            Action::Promote { dir, name } => match self.world.dirs.get_mut(dir) {
                Some(SimDir { top, nested: Some(entries) }) if name != NESTED => {
                    match entries.remove(name) {
                        Some(e) => {
                            top.insert(name.clone(), e);
                            Event::Done
                        }
                        None => Event::Failed("no such entry".to_string()),
                    }
                }
                _ => Event::Failed("cannot move".to_string()),
            },
            Action::RemoveNested { dir } => match self.world.dirs.get_mut(dir) {
                Some(d) if d.nested.is_some() => {
                    d.nested = None;
                    Event::Done
                }
                _ => Event::Failed("nothing to remove".to_string()),
            },
            Action::RelaxPermissions { dir } => {
                if let Some(d) = self.world.dirs.get_mut(dir) {
                    for e in d.top.values_mut() {
                        e.mode |= 0o777;
                    }
                }
                Event::Done
            }
            Action::RefreshRegistry { .. } => Event::Done,
            Action::Confirm { .. } => Event::Text("y\n".to_string()),
            Action::Finish(_) => panic!("nothing to perform"),
        }
    }

    fn run<S>(
        &mut self,
        mut state: S,
        mut action: Action,
        step: impl Fn(S, Event) -> (S, Action),
    ) -> (S, Outcome) {
        for _ in 0..200 {
            if let Action::Finish(outcome) = action {
                return (state, outcome);
            }
            let event = self.perform(&action);
            let next = step(state, event);
            state = next.0;
            action = next.1;
        }
        panic!("the transaction did not end");
    }
}

fn sim_env() -> Environment {
    Environment {
        data_home: None,
        home: Some("/home/u".to_string()),
        sudo_user: None,
    }
}

fn archive_of(descriptor: &str, exec: &str, icon: &str) -> BTreeMap<String, SimEntry> {
    let mut m = BTreeMap::new();
    m.insert("app.desktop".to_string(), plain(0o644, descriptor));
    m.insert(exec.to_string(), plain(0o755, "binary"));
    m.insert(icon.to_string(), plain(0o644, "image"));
    m.insert("usr".to_string(), SimEntry { is_file: false, mode: 0o755, content: String::new() });
    m
}

fn machine_with_archives(world: Sim) -> Machine {
    let mut m = Machine::new(world);
    m.archives.insert(
        "/tmp/one.AppImage".to_string(),
        archive_of("[Desktop Entry]\nName=My App\nComment=first\n", "AppRun", "one.png"),
    );
    m.archives.insert(
        "/tmp/two.AppImage".to_string(),
        archive_of("[Desktop Entry]\nName=My App\nComment=second\n", "launch", "two.svg"),
    );
    m.archives.insert(
        "/tmp/nameless.AppImage".to_string(),
        archive_of("[Desktop Entry]\nName=  \n", "AppRun", "one.png"),
    );
    m.archives.insert("/tmp/broken.AppImage".to_string(), BTreeMap::new());
    let mut no_icon = archive_of("[Desktop Entry]\nName=My App\n", "AppRun", "one.png");
    no_icon.remove("one.png");
    m.archives.insert("/tmp/no-icon.AppImage".to_string(), no_icon);
    m
}

fn other_bundle() -> Sim {
    let mut world = Sim::default();
    let mut dir = SimDir::default();
    dir.top.insert("run".to_string(), plain(0o755, "other"));
    world.dirs.insert("/opt/other".to_string(), dir);
    world.files.insert(format!("{}/other.desktop", APPS), "[Desktop Entry]\n".to_string());
    world
}

fn install(m: &mut Machine, archive: &str, id: &str) -> (Installation, Outcome) {
    let (state, action) = Installation::begin(archive, &sim_env(), id);
    m.run(state, action, |s, e| s.step(e))
}

fn upgrade(m: &mut Machine, archive: &str) -> (Upgrade, Outcome) {
    let (state, action) = Upgrade::begin("My App", archive, &sim_env(), "bbbbbb", "eeeeee");
    m.run(state, action, |s, e| s.step(e))
}

fn installed_world() -> Sim {
    let mut m = machine_with_archives(other_bundle());
    let (_, outcome) = install(&mut m, "/tmp/one.AppImage", "aaaaaa");
    assert_eq!(outcome, Outcome::Completed);
    m.world
}

#[test]
fn simulated_install_puts_bundle_and_entry_in_place() {
    let world = installed_world();
    let dir = &world.dirs["/opt/my-app"];
    assert_eq!(dir.nested, None);
    let names: Vec<&str> = dir.top.keys().map(|k| k.as_str()).collect();
    assert_eq!(names, vec!["AppRun", "app.desktop", "one.png", "usr"]);
    assert_eq!(
        world.files[&format!("{}/my-app.desktop", APPS)],
        "[Desktop Entry]\nComment=first\nExec=/opt/my-app/AppRun\nIcon=/opt/my-app/one.png\nName=My App\n"
    );
    assert!(!world.dirs.contains_key("/opt/aaaaaa"));
    assert_eq!(world.dirs["/opt/other"], other_bundle().dirs["/opt/other"]);
    assert_eq!(world.dirs.len(), 2);
    assert_eq!(world.files.len(), 2);
}

#[test]
fn simulated_install_that_fails_leaves_nothing_behind() {
    for archive in ["/tmp/broken.AppImage", "/tmp/nameless.AppImage", "/tmp/no-icon.AppImage", "/tmp/missing"] {
        let mut m = machine_with_archives(other_bundle());
        let (state, outcome) = install(&mut m, archive, "aaaaaa");
        assert!(matches!(outcome, Outcome::Failed { clean: true, .. }));
        assert_eq!(state.phase, InstallPhase::Closed);
        assert_eq!(m.world, other_bundle());
    }
}

#[test]
fn simulated_install_with_a_fault_at_any_step() {
    let mut completed = 0;
    let mut rolled_back = 0;
    for k in 0..40 {
        let mut m = machine_with_archives(other_bundle());
        m.fail_at = Some(k);
        let (state, outcome) = install(&mut m, "/tmp/one.AppImage", "aaaaaa");
        assert_eq!(m.world.dirs["/opt/other"], other_bundle().dirs["/opt/other"]);
        match outcome {
            Outcome::Completed => {
                completed += 1;
                assert!(matches!(state.phase, InstallPhase::Committed(_)));
                assert!(m.world.dirs.contains_key("/opt/my-app"));
            }
            Outcome::Failed { clean, .. } => {
                if state.phase == InstallPhase::Unpublished {
                    assert!(m.world.dirs.contains_key("/opt/my-app"));
                    assert!(!m.world.dirs.contains_key("/opt/aaaaaa"));
                    if clean {
                        assert_eq!(m.world.files, other_bundle().files);
                    }
                } else if clean {
                    rolled_back += 1;
                    assert_eq!(m.world, other_bundle());
                }
            }
        }
    }
    assert!(completed > 10);
    assert!(rolled_back > 10);
}

#[test]
fn simulated_second_install_is_refused() {
    let first = installed_world();
    let mut m = machine_with_archives(first.clone());
    let (state, outcome) = install(&mut m, "/tmp/two.AppImage", "cccccc");
    assert_eq!(outcome, Outcome::Failed { cause: Failure::AlreadyExists(Taken::Bundle), clean: true });
    assert_eq!(state.phase, InstallPhase::Closed);
    assert_eq!(m.world, first);
}

#[test]
fn simulated_upgrade_replaces_content_and_entry() {
    let before = installed_world();
    let mut m = machine_with_archives(before.clone());
    let (state, outcome) = upgrade(&mut m, "/tmp/two.AppImage");
    assert_eq!(outcome, Outcome::Completed);
    assert!(matches!(state.phase, UpgradePhase::Committed(_)));
    let dir = &m.world.dirs["/opt/my-app"];
    let names: Vec<&str> = dir.top.keys().map(|k| k.as_str()).collect();
    assert_eq!(names, vec!["app.desktop", "launch", "two.svg", "usr"]);
    assert!(!dir.top.contains_key("AppRun"));
    assert!(!dir.top.contains_key("one.png"));
    assert_eq!(
        m.world.files[&format!("{}/my-app.desktop", APPS)],
        "[Desktop Entry]\nComment=second\nExec=/opt/my-app/launch\nIcon=/opt/my-app/two.svg\nName=My App\n"
    );
    assert_eq!(m.world.dirs["/opt/bbbbbb"], before.dirs["/opt/my-app"]);
    assert_eq!(
        m.world.files[&format!("{}/my-app.bak-eeeeee", APPS)],
        before.files[&format!("{}/my-app.desktop", APPS)]
    );
    assert_eq!(m.world.dirs["/opt/other"], before.dirs["/opt/other"]);
}

#[test]
fn simulated_upgrade_that_fails_restores_the_bundle() {
    let before = installed_world();
    for archive in ["/tmp/broken.AppImage", "/tmp/nameless.AppImage", "/tmp/no-icon.AppImage", "/tmp/missing"] {
        let mut m = machine_with_archives(before.clone());
        let (state, outcome) = upgrade(&mut m, archive);
        assert!(matches!(outcome, Outcome::Failed { clean: true, .. }));
        assert_eq!(state.phase, UpgradePhase::Closed);
        assert_eq!(m.world, before);
    }
}

#[test]
fn simulated_upgrade_with_a_fault_at_any_step() {
    let before = installed_world();
    let mut completed = 0;
    let mut rolled_back = 0;
    for k in 0..40 {
        let mut m = machine_with_archives(before.clone());
        m.fail_at = Some(k);
        let (_, outcome) = upgrade(&mut m, "/tmp/two.AppImage");
        assert_eq!(m.world.dirs["/opt/other"], before.dirs["/opt/other"]);
        let old = before.dirs.get("/opt/my-app");
        assert!(m.world.dirs.get("/opt/my-app") == old || m.world.dirs.get("/opt/bbbbbb") == old);
        match outcome {
            Outcome::Completed => completed += 1,
            Outcome::Failed { clean: true, .. } => {
                rolled_back += 1;
                assert_eq!(m.world, before);
            }
            Outcome::Failed { clean: false, .. } => {}
        }
    }
    assert!(completed > 10);
    assert!(rolled_back > 15);
}

#[test]
fn simulated_upgrade_of_what_is_not_installed() {
    let mut m = machine_with_archives(other_bundle());
    let (_, outcome) = upgrade(&mut m, "/tmp/two.AppImage");
    assert!(matches!(outcome, Outcome::Failed { cause: Failure::NotFound(_), clean: true }));
    assert_eq!(m.world, other_bundle());
}

#[test]
fn simulated_flattening_twice_changes_nothing() {
    let world = installed_world();
    let mut m = machine_with_archives(world.clone());
    let (state, action) = flatten_squashfs_root("/opt/my-app");
    let (_, outcome) = m.run(state, action, |s, e| s.step(e));
    assert_eq!(outcome, Outcome::Completed);
    assert_eq!(m.world, world);
}

#[test]
fn simulated_uninstall_removes_bundle_and_entry() {
    let mut m = machine_with_archives(installed_world());
    let (state, action) = uninstall_app("My App", &sim_env());
    let (_, outcome) = m.run(state, action, |s, e| s.step(e));
    assert_eq!(outcome, Outcome::Completed);
    assert_eq!(m.world, other_bundle());
}

#[test]
fn simulated_uninstall_leaves_a_namesake_elsewhere_alone() {
    let mut world = installed_world();
    world.files.insert("/data/applications/other.desktop".to_string(), "elsewhere".to_string());
    let mut m = machine_with_archives(world.clone());
    let env = Environment {
        data_home: Some("/data".to_string()),
        home: Some("/home/u".to_string()),
        sudo_user: None,
    };
    let (state, action) = uninstall_app("My App", &env);
    let (_, outcome) = m.run(state, action, |s, e| s.step(e));
    assert!(matches!(outcome, Outcome::Failed { cause: Failure::NotFound(_), clean: true }));
    assert_eq!(m.world, world);
}

#[test]
fn simulated_install_keeps_the_helper_flag() {
    let mut m = machine_with_archives(other_bundle());
    let (state, outcome) = install(&mut m, "/tmp/one.AppImage", "aaaaaa");
    assert_eq!(outcome, Outcome::Completed);
    assert!(state.helper_removed);
    assert!(!m.world.dirs["/opt/my-app"].top.contains_key(HELPER));
}
