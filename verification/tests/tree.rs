//! The file tree with a worker that reads a made-up disk.

use ami_workbench::git::{GitChange, GitStatus};
use ami_workbench::jobs::{
    watch_signal, Job, MutationOutcome, Response, SidebarActivation, SidebarMutation, WatchSignal,
};
use ami_workbench::load::{DirectoryItem, DirectoryReader, FileType};
use ami_workbench::mutation::{
    ActionFailure, MutationAction, MutationEvent, MutationProgress, MutationRun,
};
use ami_workbench::path::PathBuf;
use ami_workbench::sidebar::Sidebar;
use ami_workbench::state::SidebarConfig;
use ami_workbench::tree::EntryKind;
use ami_workbench::trust::WorkspaceTrustState;

const MILLISECOND: u128 = 1_000_000;
const SECOND: u128 = 1_000_000_000;

#[derive(Clone, PartialEq)]
enum Thing {
    Directory,
    File,
    Link(String),
}

/// Paths and what is there, in the order in which they are read.
#[derive(Clone)]
struct Disk {
    things: Vec<(String, Thing)>,
    trust: WorkspaceTrustState,
}

fn path(text: &str) -> PathBuf {
    PathBuf::from_bytes(text.as_bytes())
}

fn text(path: &PathBuf) -> String {
    path.display()
}

impl Disk {
    fn new() -> Disk {
        Disk {
            things: vec![("/w".to_owned(), Thing::Directory)],
            trust: WorkspaceTrustState::Trusted,
        }
    }

    fn directory(mut self, place: &str) -> Disk {
        self.things.push((place.to_owned(), Thing::Directory));
        self
    }

    fn file(mut self, place: &str) -> Disk {
        self.things.push((place.to_owned(), Thing::File));
        self
    }

    fn link(mut self, place: &str, target: &str) -> Disk {
        self.things.push((place.to_owned(), Thing::Link(target.to_owned())));
        self
    }

    fn at(&self, place: &str) -> Option<Thing> {
        for (name, thing) in &self.things {
            if name == place {
                return Some(thing.clone());
            }
        }
        None
    }

    fn remove(&mut self, place: &str) {
        let below = format!("{place}/");
        self.things.retain(|(name, _)| name != place && !name.starts_with(&below));
    }

    fn rename(&mut self, from: &str, to: &str) {
        for (name, _) in &mut self.things {
            if name == from {
                *name = to.to_owned();
            }
        }
    }

    fn resolve(&self, place: &str) -> Result<String, String> {
        match self.at(place) {
            Some(Thing::Link(target)) => Ok(target),
            Some(_) => Ok(place.to_owned()),
            None => Err("no such file".to_owned()),
        }
    }

    fn load(
        &self,
        root: PathBuf,
        at: PathBuf,
        ancestors: Vec<PathBuf>,
        cap: usize,
    ) -> Result<ami_workbench::listing::LoadedDirectory, String> {
        let canonical = self.resolve(&text(&at)).map(|place| path(&place));
        let real = canonical.clone().map(|place| text(&place)).unwrap_or_default();
        let mut reader = DirectoryReader::start(root, at, ancestors, cap, canonical)?;
        for (place, thing) in &self.things {
            let (parent, name) = match place.rsplit_once('/') {
                Some(pair) => pair,
                None => continue,
            };
            if parent != real {
                continue;
            }
            let file_type = match thing {
                Thing::Directory => FileType::Directory { canonical: Some(path(place)) },
                Thing::File => FileType::File,
                Thing::Link(target) => FileType::Symlink {
                    target: Ok(path(target)),
                    directory: Ok(self.at(target) == Some(Thing::Directory)),
                },
            };
            reader.accept(Ok(DirectoryItem {
                name: name.as_bytes().to_vec(),
                file_type: Ok(file_type),
            }))?;
        }
        Ok(reader.finish())
    }

    fn mutate(
        &mut self,
        root: PathBuf,
        trust: bool,
        mutation: SidebarMutation,
    ) -> Result<MutationOutcome, String> {
        let top = text(&root);
        let mut here = top.clone();
        let mut before = top.clone();
        let mut progress = MutationRun::start(root, trust, mutation);
        loop {
            let run = match progress {
                MutationProgress::Finished(result) => return result,
                MutationProgress::Running(run) => run,
            };
            let below = |here: &str, name: &[u8]| {
                format!("{here}/{}", String::from_utf8(name.to_vec()).unwrap())
            };
            let taken = |place: &str| ActionFailure {
                already_exists: true,
                message: format!("{place} is taken"),
            };
            let missing = || ActionFailure {
                already_exists: false,
                message: "no such file".to_owned(),
            };
            let event = match run.action() {
                MutationAction::ResolveTrust => MutationEvent::Trust(Ok(self.trust)),
                MutationAction::ResolveRoot(root) => MutationEvent::Resolved(Ok(root)),
                MutationAction::OpenRoot(_) => MutationEvent::Done(Ok(())),
                MutationAction::StartWalk => MutationEvent::Done(Ok(())),
                MutationAction::InspectDirectory(name) => {
                    before = here.clone();
                    MutationEvent::Link(Ok(matches!(
                        self.at(&below(&here, &name)),
                        Some(Thing::Link(_))
                    )))
                }
                MutationAction::OpenDirectory(name) => {
                    here = below(&here, &name);
                    MutationEvent::Done(Ok(()))
                }
                MutationAction::RecheckDirectory(name) => MutationEvent::Link(Ok(matches!(
                    self.at(&below(&before, &name)),
                    Some(Thing::Link(_))
                ))),
                MutationAction::InspectLeaf(name) => {
                    MutationEvent::Done(match self.at(&below(&here, &name)) {
                        Some(_) => Ok(()),
                        None => Err(missing()),
                    })
                }
                MutationAction::CompareRoot(_) => MutationEvent::Same(true),
                MutationAction::CreateFile(name) => {
                    let place = below(&here, &name);
                    MutationEvent::Done(if self.at(&place).is_some() {
                        Err(taken(&place))
                    } else {
                        self.things.push((place, Thing::File));
                        Ok(())
                    })
                }
                MutationAction::CreateDirectory(name) => {
                    let place = below(&here, &name);
                    MutationEvent::Done(if self.at(&place).is_some() {
                        Err(taken(&place))
                    } else {
                        self.things.push((place, Thing::Directory));
                        Ok(())
                    })
                }
                MutationAction::Rename { from, to } => {
                    let place = below(&here, &to);
                    MutationEvent::Done(if self.at(&place).is_some() {
                        Err(taken(&place))
                    } else {
                        self.rename(&below(&here, &from), &place);
                        Ok(())
                    })
                }
                MutationAction::Trash(target) => {
                    self.remove(&text(&target));
                    MutationEvent::Done(Ok(()))
                }
            };
            progress = run.next(event);
        }
    }

    /// Does one job.
    fn work(&mut self, job: Job) -> Response {
        match job {
            Job::Load { id, path, root, ancestor_targets, cap } => Response::Load {
                id,
                path: path.duplicate(),
                result: self.load(root, path, ancestor_targets, cap),
            },
            Job::Git { id, .. } => Response::Git { id, result: Err("not a repository".to_owned()) },
            Job::Mutation { id, root, trust, mutation } => Response::Mutation {
                id,
                result: self.mutate(root, trust, mutation),
            },
        }
    }

    /// Does all jobs, and hands the replies in.
    fn settle(&mut self, sidebar: &mut Sidebar, now: u128) -> bool {
        let mut replies = Vec::new();
        while let Some(job) = sidebar.take_job() {
            replies.push(self.work(job));
        }
        sidebar.tick(now, replies, Vec::new())
    }

    /// Lets time pass until nothing more is asked for.
    fn settle_after(&mut self, sidebar: &mut Sidebar, signals: Vec<WatchSignal>, now: u128) {
        sidebar.tick(now, Vec::new(), signals);
        self.settle(sidebar, now + 20 * MILLISECOND);
        self.settle(sidebar, now + 40 * MILLISECOND);
    }
}

fn row_names(sidebar: &Sidebar) -> Vec<String> {
    sidebar.all_visible_rows().iter().map(|row| row.display_name()).collect()
}

fn fast_refresh_config() -> SidebarConfig {
    SidebarConfig {
        git_refresh_interval: 60 * SECOND,
        fs_debounce_interval: 20 * MILLISECOND,
        fs_reconcile_interval: 100 * MILLISECOND,
        ..SidebarConfig::default()
    }
}

fn change(place: &str, status: GitStatus) -> GitChange {
    GitChange { path: path(place), original_path: None, status }
}

fn expanded(disk: &mut Disk, config: SidebarConfig) -> Sidebar {
    let mut sidebar = Sidebar::with_config(path("/w"), config, 0).ok().unwrap();
    assert!(sidebar.request_expand(&path("/w")));
    assert!(disk.settle(&mut sidebar, 0));
    sidebar
}

#[test]
fn root_is_lazy_and_loading_sorts_shows_hidden_excludes_git_and_caps() {
    let mut disk = Disk::new()
        .directory("/w/z-dir")
        .file("/w/b")
        .file("/w/c")
        .file("/w/.hidden")
        .directory("/w/.git");
    let config = SidebarConfig { entry_cap: 3, ..SidebarConfig::default() };
    let mut sidebar = Sidebar::with_config(path("/w"), config, 0).ok().unwrap();
    assert_eq!(sidebar.all_visible_rows().len(), 1);
    assert!(sidebar.request_expand(&path("/w")));
    disk.settle(&mut sidebar, 0);
    let rows = sidebar.all_visible_rows();
    assert_eq!(rows.len(), 4);
    assert_eq!(rows[1].name, b"z-dir".to_vec());
    assert!(rows.iter().any(|row| row.name == b".hidden".to_vec()));
    assert!(!rows.iter().any(|row| row.name == b".git".to_vec()));
    assert!(rows[0].error.as_deref().unwrap().contains("entry cap"));
    assert_eq!(sidebar.select_visible_row(1, rows.len()), Some(path("/w/z-dir")));
    assert_eq!(sidebar.activate_selected(), Some(SidebarActivation::SelectOnly));
    assert_eq!(sidebar.selected_path(), Some(&path("/w/z-dir")));
}

#[test]
fn click_activation_only_emits_file_candidates() {
    let mut disk = Disk::new().directory("/w/dir").file("/w/file");
    let mut sidebar = expanded(&mut disk, SidebarConfig::default());
    let rows = sidebar.all_visible_rows();
    let directory = rows.iter().position(|row| row.path == path("/w/dir")).unwrap();
    let file = rows.iter().position(|row| row.path == path("/w/file")).unwrap();
    assert_eq!(sidebar.select_visible_row(directory, rows.len()), Some(path("/w/dir")));
    assert_eq!(sidebar.activate_selected(), Some(SidebarActivation::SelectOnly));
    assert_eq!(sidebar.select_visible_row(file, rows.len()), Some(path("/w/file")));
    assert_eq!(
        sidebar.activate_selected(),
        Some(SidebarActivation::OpenFile(path("/w/file")))
    );
    assert_eq!(sidebar.select_visible_row(rows.len(), rows.len()), None);
}

#[test]
fn stale_load_response_is_rejected_after_collapse() {
    let mut disk = Disk::new().file("/w/file");
    let mut sidebar = Sidebar::new(path("/w"), 0);
    sidebar.request_expand(&path("/w"));
    sidebar.collapse(&path("/w"));
    assert!(!disk.settle(&mut sidebar, 30 * MILLISECOND));
    assert_eq!(sidebar.all_visible_rows().len(), 1);
    assert!(!sidebar.all_visible_rows()[0].expanded);
}

#[test]
fn symlink_escape_and_ancestor_cycle_are_not_expandable() {
    let mut disk = Disk::new()
        .directory("/outside")
        .link("/w/escape", "/outside")
        .link("/w/cycle", "/w");
    let sidebar = expanded(&mut disk, SidebarConfig::default());
    let rows = sidebar.all_visible_rows();
    assert_eq!(rows.len(), 3);
    for row in rows.iter().skip(1) {
        assert_eq!(row.kind, EntryKind::Symlink);
        assert!(row.error.is_some());
    }
}

#[test]
fn links_inside_the_workspace_are_followed() {
    let mut disk = Disk::new()
        .directory("/w/real")
        .file("/w/real/file")
        .link("/w/alias", "/w/real")
        .link("/w/name", "/w/real/file");
    let mut sidebar = expanded(&mut disk, SidebarConfig::default());
    assert_eq!(row_names(&sidebar), ["w", "alias", "real", "name"]);
    let rows = sidebar.all_visible_rows();
    assert_eq!(rows[1].kind, EntryKind::SymlinkDirectory);
    assert_eq!(rows[3].kind, EntryKind::Symlink);
    assert!(sidebar.request_expand(&path("/w/alias")));
    assert!(disk.settle(&mut sidebar, 0));
    assert_eq!(row_names(&sidebar), ["w", "alias", "file", "real", "name"]);
}

#[test]
fn latest_git_snapshot_is_reconciled_after_lazy_directory_load() {
    let mut disk = Disk::new().directory("/w/dir").file("/w/dir/file");
    let mut sidebar = expanded(&mut disk, SidebarConfig::default());
    sidebar.apply_git(vec![
        change("dir/file", GitStatus::Modified),
        change("dir/gone", GitStatus::Deleted),
    ]);
    sidebar.request_expand(&path("/w/dir"));
    disk.settle(&mut sidebar, 0);
    let rows = sidebar.all_visible_rows();
    assert!(rows
        .iter()
        .any(|row| row.path == path("/w/dir/file")
            && row.git.status == Some(GitStatus::Modified)));
    assert!(rows
        .iter()
        .any(|row| row.path == path("/w/dir/gone") && row.kind == EntryKind::Deleted));
}

#[test]
fn dirty_ancestors_and_deleted_children_are_materialized() {
    let mut disk = Disk::new().directory("/w/dir");
    let mut sidebar = expanded(&mut disk, SidebarConfig::default());
    sidebar.request_expand(&path("/w/dir"));
    disk.settle(&mut sidebar, 0);
    sidebar.apply_git(vec![change("dir/gone", GitStatus::Deleted)]);
    let rows = sidebar.all_visible_rows();
    assert!(rows[0].git.dirty_descendant);
    assert!(rows.iter().any(|row| row.kind == EntryKind::Deleted));
    sidebar.apply_git(Vec::new());
    let rows = sidebar.all_visible_rows();
    assert!(!rows[0].git.dirty_descendant);
    assert!(!rows.iter().any(|row| row.kind == EntryKind::Deleted));
}

#[test]
fn watcher_refreshes_loaded_directories_and_preserves_hidden_entries() {
    let mut disk = Disk::new().file("/w/old").file("/w/.hidden").directory("/w/.git");
    let mut sidebar = expanded(&mut disk, fast_refresh_config());
    disk.rename("/w/old", "/w/new");
    let signal = watch_signal(&path("/w"), Some(vec![path("/w/old"), path("/w/new")])).unwrap();
    disk.settle_after(&mut sidebar, vec![signal], 10 * MILLISECOND);
    let rows = sidebar.all_visible_rows();
    assert!(rows.iter().any(|row| row.path == path("/w/new")));
    assert!(!rows.iter().any(|row| row.path == path("/w/old")));
    assert!(rows.iter().any(|row| row.path == path("/w/.hidden")));
    assert!(!rows.iter().any(|row| row.path == path("/w/.git")));
}

#[test]
fn reconciliation_restores_selection_and_viewport_anchor() {
    let mut disk = Disk::new().file("/w/a").file("/w/b").file("/w/c").file("/w/d");
    let mut sidebar = expanded(&mut disk, fast_refresh_config());
    sidebar.scroll(2, 2);
    let top = sidebar.visible_rows(2)[0].path.clone();
    assert_eq!(top, path("/w/b"));
    assert_eq!(sidebar.select_visible_row(1, 2), Some(path("/w/c")));

    disk = disk.file("/w/0");
    disk.settle_after(&mut sidebar, vec![WatchSignal::Rescan], 10 * MILLISECOND);
    assert!(sidebar.entry_kind(&path("/w/0")).is_some());
    assert_eq!(sidebar.visible_rows(2)[0].path, top);
    assert_eq!(sidebar.selected_path(), Some(&path("/w/c")));

    disk.remove("/w/c");
    disk.settle_after(&mut sidebar, vec![WatchSignal::Rescan], 60 * MILLISECOND);
    assert!(sidebar.entry_kind(&path("/w/c")).is_none());
    assert_eq!(sidebar.selected_path(), Some(&path("/w")));
}

#[test]
fn watcher_removes_a_deleted_loaded_directory_via_its_parent() {
    let mut disk = Disk::new().directory("/w/dir").file("/w/dir/file");
    let mut sidebar = expanded(&mut disk, fast_refresh_config());
    sidebar.request_expand(&path("/w/dir"));
    disk.settle(&mut sidebar, 0);
    assert_eq!(row_names(&sidebar), ["w", "dir", "file"]);
    disk.remove("/w/dir");
    let signal = watch_signal(&path("/w"), Some(vec![path("/w/dir")])).unwrap();
    disk.settle_after(&mut sidebar, vec![signal], 10 * MILLISECOND);
    assert!(sidebar.entry_kind(&path("/w/dir")).is_none());
    assert!(sidebar.entry_kind(&path("/w/dir/file")).is_none());
    assert_eq!(row_names(&sidebar), ["w"]);
}

#[test]
fn transient_reload_failure_keeps_a_loaded_directory_retryable() {
    let mut disk = Disk::new().file("/w/a");
    let mut sidebar = expanded(&mut disk, fast_refresh_config());
    assert!(sidebar.request_reload(&path("/w")));
    let id = match sidebar.take_job() {
        Some(Job::Load { id, .. }) => id,
        _ => panic!("no listing was asked for"),
    };
    assert!(sidebar.apply_response(
        Response::Load { id, path: path("/w"), result: Err("transient".to_owned()) },
        0,
    ));
    assert_eq!(row_names(&sidebar), ["w", "a"]);
    assert_eq!(sidebar.all_visible_rows()[0].error.as_deref(), Some("transient"));
    assert!(sidebar.request_reload(&path("/w")));
    let again = match sidebar.take_job() {
        Some(Job::Load { id, .. }) => id,
        _ => panic!("no listing was asked for"),
    };
    assert_ne!(id, again);
}

#[test]
fn viewport_reserves_space_for_a_new_entry_editor() {
    let mut disk = Disk::new().file("/w/a").file("/w/b").file("/w/c").file("/w/d");
    let mut sidebar = expanded(&mut disk, SidebarConfig::default());
    sidebar.ensure_path_visible_with_trailing(&path("/w/c"), 3, 1);
    let visible = sidebar.visible_rows(3);
    let position = visible.iter().position(|row| row.path == path("/w/c")).unwrap();
    assert!(position + 1 < 3);
}

#[test]
fn periodic_reconciliation_recovers_without_a_watcher() {
    let mut disk = Disk::new();
    let mut sidebar = expanded(&mut disk, fast_refresh_config());
    disk = disk.file("/w/eventually");
    disk.settle(&mut sidebar, 50 * MILLISECOND);
    assert!(sidebar.entry_kind(&path("/w/eventually")).is_none());
    disk.settle(&mut sidebar, 100 * MILLISECOND);
    disk.settle(&mut sidebar, 101 * MILLISECOND);
    assert!(sidebar.entry_kind(&path("/w/eventually")).is_some());
}

fn completed(disk: &mut Disk, sidebar: &mut Sidebar, now: u128) -> Result<(), String> {
    disk.settle(sidebar, now);
    sidebar.take_mutation_completion().unwrap().result
}

#[test]
fn trusted_worker_creates_and_renames_without_overwriting() {
    let mut disk = Disk::new();
    let mut sidebar =
        Sidebar::with_config_and_trust(path("/w"), fast_refresh_config(), true, 0).ok().unwrap();
    sidebar.request_expand(&path("/w"));
    disk.settle(&mut sidebar, 0);

    sidebar
        .request_mutation(SidebarMutation::CreateFile {
            parent: path("/w"),
            name: "file.txt".to_owned(),
        })
        .unwrap();
    completed(&mut disk, &mut sidebar, 0).unwrap();
    assert!(disk.at("/w/file.txt") == Some(Thing::File));

    sidebar
        .request_mutation(SidebarMutation::Rename {
            source: path("/w/file.txt"),
            name: "renamed.txt".to_owned(),
        })
        .unwrap();
    completed(&mut disk, &mut sidebar, 0).unwrap();
    assert!(disk.at("/w/renamed.txt") == Some(Thing::File));

    disk = disk.file("/w/taken");
    sidebar
        .request_mutation(SidebarMutation::Rename {
            source: path("/w/renamed.txt"),
            name: "taken".to_owned(),
        })
        .unwrap();
    assert!(completed(&mut disk, &mut sidebar, 0).unwrap_err().contains("already exists"));
    assert!(disk.at("/w/renamed.txt").is_some());
}

#[test]
fn worker_revalidates_trust_before_mutation() {
    let mut disk = Disk::new();
    disk.trust = WorkspaceTrustState::Untrusted;
    let error = disk
        .mutate(
            path("/w"),
            true,
            SidebarMutation::CreateDirectory { parent: path("/w"), name: "blocked".to_owned() },
        )
        .unwrap_err();
    assert!(error.contains("not trusted"));
    assert!(disk.at("/w/blocked").is_none());
}

#[test]
fn mutations_do_not_follow_symlink_leaves_or_directory_parents() {
    let mut disk = Disk::new()
        .directory("/outside")
        .file("/outside/target")
        .link("/w/link", "/outside/target");
    disk.mutate(
        path("/w"),
        true,
        SidebarMutation::Rename { source: path("/w/link"), name: "renamed-link".to_owned() },
    )
    .unwrap();
    assert!(disk.at("/w/renamed-link") == Some(Thing::Link("/outside/target".to_owned())));
    assert!(disk.at("/outside/target") == Some(Thing::File));

    let mut disk = disk.link("/w/linked-dir", "/outside");
    let error = disk
        .mutate(
            path("/w"),
            true,
            SidebarMutation::CreateFile {
                parent: path("/w/linked-dir"),
                name: "escape".to_owned(),
            },
        )
        .unwrap_err();
    assert!(error.contains("symlink directories"));
    assert!(disk.at("/outside/escape").is_none());
}

#[test]
fn delete_moves_the_target_to_trash_without_a_permanent_fallback() {
    let mut disk = Disk::new().directory("/w/dir").file("/w/dir/recoverable");
    let outcome = disk
        .mutate(path("/w"), true, SidebarMutation::Trash { target: path("/w/dir/recoverable") })
        .unwrap();
    assert!(disk.at("/w/dir/recoverable").is_none());
    assert_eq!(outcome.affected_parent, path("/w/dir"));
    assert_eq!(outcome.selected, path("/w/dir"));
}

#[test]
fn non_git_failure_degrades_to_error() {
    let mut disk = Disk::new();
    let mut sidebar = Sidebar::new(path("/w"), 0);
    assert!(sidebar.request_git_refresh(0));
    assert!(disk.settle(&mut sidebar, 0));
    assert_eq!(sidebar.git_error().map(String::as_str), Some("not a repository"));
    assert_eq!(row_names(&sidebar), ["w"]);
}

#[test]
fn a_second_refresh_waits_for_the_first() {
    let mut disk = Disk::new();
    let mut sidebar = Sidebar::new(path("/w"), 0);
    assert!(sidebar.request_git_refresh(0));
    assert!(!sidebar.request_git_refresh(0));
    disk.settle(&mut sidebar, 0);
    assert!(sidebar.request_git_refresh(0));
}

#[test]
fn repository_is_asked_again_after_an_interval() {
    let mut disk = Disk::new();
    let mut sidebar = Sidebar::new(path("/w"), 0);
    sidebar.request_initial(0);
    disk.settle(&mut sidebar, 0);
    assert!(sidebar.take_job().is_none());
    sidebar.tick(3 * SECOND - 1, Vec::new(), Vec::new());
    assert!(sidebar.take_job().is_none());
    sidebar.tick(3 * SECOND, Vec::new(), Vec::new());
    assert!(matches!(sidebar.take_job(), Some(Job::Git { .. })));
}

#[test]
fn limits_of_a_sidebar_are_not_zero() {
    let message = "sidebar entry cap and channel capacity must be non-zero";
    let config = SidebarConfig { entry_cap: 0, ..SidebarConfig::default() };
    assert_eq!(Sidebar::with_config(path("/w"), config, 0).err().unwrap(), message);
    let config = SidebarConfig { channel_capacity: 0, ..SidebarConfig::default() };
    assert_eq!(Sidebar::with_config(path("/w"), config, 0).err().unwrap(), message);
}

#[test]
fn a_full_queue_turns_requests_down() {
    let config = SidebarConfig { channel_capacity: 1, ..SidebarConfig::default() };
    let mut sidebar = Sidebar::with_config(path("/w"), config, 0).ok().unwrap();
    assert!(sidebar.request_expand(&path("/w")));
    assert!(!sidebar.request_git_refresh(0));
    assert!(sidebar
        .request_mutation(SidebarMutation::Trash { target: path("/w/a") })
        .is_err());
    assert!(sidebar.take_job().is_some());
    assert!(sidebar.take_job().is_none());
    assert!(sidebar.request_git_refresh(0));
}

#[test]
fn one_file_operation_is_under_way_at_a_time() {
    let mut disk = Disk::new();
    let mut sidebar = Sidebar::with_trust(path("/w"), true, 0);
    let make = |name: &str| SidebarMutation::CreateFile {
        parent: path("/w"),
        name: name.to_owned(),
    };
    sidebar.request_mutation(make("first")).unwrap();
    assert_eq!(
        sidebar.request_mutation(make("second")).unwrap_err(),
        "a sidebar file operation is already pending"
    );
    completed(&mut disk, &mut sidebar, 0).unwrap();
    sidebar.request_mutation(make("second")).unwrap();
}

#[test]
fn a_lost_worker_takes_nothing() {
    let mut sidebar = Sidebar::new(path("/w"), 0);
    sidebar.lose_worker();
    assert!(!sidebar.request_expand(&path("/w")));
    assert!(sidebar.take_job().is_none());
    assert!(sidebar
        .request_mutation(SidebarMutation::Trash { target: path("/w/a") })
        .is_err());
}

#[test]
fn what_is_made_is_selected_and_shown() {
    let mut disk = Disk::new().directory("/w/dir");
    let mut sidebar = Sidebar::with_trust(path("/w"), true, 0);
    sidebar.request_expand(&path("/w"));
    disk.settle(&mut sidebar, 0);
    sidebar
        .request_mutation(SidebarMutation::CreateFile {
            parent: path("/w"),
            name: "fresh".to_owned(),
        })
        .unwrap();
    completed(&mut disk, &mut sidebar, 0).unwrap();
    disk.settle(&mut sidebar, 0);
    assert_eq!(row_names(&sidebar), ["w", "dir", "fresh"]);
    assert_eq!(sidebar.selected_path(), Some(&path("/w/fresh")));
}

#[test]
fn events_in_the_repository_are_dropped() {
    assert!(watch_signal(&path("/w"), Some(vec![path("/w/.git/index")])).is_none());
    assert!(matches!(
        watch_signal(&path("/w"), Some(vec![path("/w/.git/index"), path("/w/a")])),
        Some(WatchSignal::Paths(paths)) if paths == vec![path("/w/a")]
    ));
    assert!(matches!(watch_signal(&path("/w"), None), Some(WatchSignal::Rescan)));
}

#[test]
fn scrolling_stays_among_the_rows() {
    let mut disk = Disk::new().file("/w/a").file("/w/b").file("/w/c");
    let mut sidebar = expanded(&mut disk, SidebarConfig::default());
    sidebar.scroll(100, 2);
    let names: Vec<String> =
        sidebar.visible_rows(2).iter().map(|row| row.display_name()).collect();
    assert_eq!(names, ["b", "c"]);
    sidebar.scroll(-100, 2);
    let names: Vec<String> =
        sidebar.visible_rows(2).iter().map(|row| row.display_name()).collect();
    assert_eq!(names, ["w", "a"]);
}

#[test]
fn names_that_are_not_text_are_shown_with_replacements() {
    let mut reader =
        DirectoryReader::start(path("/w"), path("/w"), Vec::new(), 10, Ok(path("/w")))
            .ok()
            .unwrap();
    reader
        .accept(Ok(DirectoryItem { name: vec![0x61, 0xff], file_type: Ok(FileType::File) }))
        .unwrap();
    let mut sidebar = Sidebar::new(path("/w"), 0);
    sidebar.request_expand(&path("/w"));
    let id = match sidebar.take_job() {
        Some(Job::Load { id, .. }) => id,
        _ => panic!("no listing was asked for"),
    };
    sidebar.apply_response(
        Response::Load { id, path: path("/w"), result: Ok(reader.finish()) },
        0,
    );
    let rows = sidebar.all_visible_rows();
    assert_eq!(rows[1].name, vec![0x61, 0xff]);
    assert_eq!(rows[1].display_name(), "a\u{fffd}");
}

#[test]
fn selecting_a_row_moves_no_row() {
    let mut disk = Disk::new().file("/w/a").file("/w/b");
    let mut sidebar = expanded(&mut disk, SidebarConfig::default());
    let before = row_names(&sidebar);
    sidebar.select_visible_row(2, 3);
    assert_eq!(row_names(&sidebar), before);
    assert!(sidebar.all_visible_rows()[2].selected);
}

#[test]
fn the_strongest_report_is_shown() {
    let mut disk = Disk::new().file("/w/a");
    let mut sidebar = expanded(&mut disk, SidebarConfig::default());
    sidebar.apply_git(vec![
        change("a", GitStatus::Modified),
        change("a", GitStatus::Conflict),
        change("a", GitStatus::Untracked),
        change("unknown", GitStatus::Modified),
        change("../outside", GitStatus::Deleted),
    ]);
    let rows = sidebar.all_visible_rows();
    assert_eq!(rows.len(), 2);
    assert_eq!(rows[1].git.status, Some(GitStatus::Conflict));
    assert!(sidebar.entry_kind(&path("/w/unknown")).is_none());
}

#[test]
fn a_made_row_shows_what_is_reported_after_it_is_made() {
    let mut disk = Disk::new().file("/w/z");
    let mut sidebar = expanded(&mut disk, SidebarConfig::default());
    let mut shown = |changes: Vec<GitChange>| {
        sidebar.apply_git(changes);
        let rows = sidebar.all_visible_rows();
        assert_eq!(rows[1].path.to_bytes(), b"/w/a");
        (rows[1].git.status, rows[1].git.dirty_descendant)
    };
    assert_eq!(
        shown(vec![change("a", GitStatus::Conflict), change("a", GitStatus::Deleted)]),
        (Some(GitStatus::Deleted), false)
    );
    assert_eq!(
        shown(vec![change("a", GitStatus::Deleted), change("a", GitStatus::Conflict)]),
        (Some(GitStatus::Conflict), false)
    );
    assert_eq!(
        shown(vec![change("a/b", GitStatus::Modified), change("a", GitStatus::Deleted)]),
        (Some(GitStatus::Deleted), false)
    );
    assert_eq!(
        shown(vec![change("a", GitStatus::Deleted), change("a/b", GitStatus::Modified)]),
        (Some(GitStatus::Deleted), true)
    );
}

#[test]
fn a_listing_is_asked_for_as_the_path_is_told() {
    let mut sidebar = Sidebar::new(path("/w//"), 0);
    assert!(sidebar.request_expand(&path("/w/.")));
    match sidebar.take_job() {
        Some(Job::Load { path, root, .. }) => {
            assert_eq!(path.to_bytes(), b"/w/.");
            assert_eq!(root.to_bytes(), b"/w//");
        }
        _ => panic!("no listing was asked for"),
    }
}

#[test]
fn activation_toggles_a_directory() {
    let mut disk = Disk::new().directory("/w/dir").file("/w/dir/file");
    let mut sidebar = expanded(&mut disk, SidebarConfig::default());
    sidebar.select_visible_row(1, 2);
    sidebar.activate_selected();
    disk.settle(&mut sidebar, 0);
    assert_eq!(row_names(&sidebar), ["w", "dir", "file"]);
    sidebar.activate_selected();
    assert_eq!(row_names(&sidebar), ["w", "dir"]);
    sidebar.activate_selected();
    assert_eq!(row_names(&sidebar), ["w", "dir", "file"]);
    assert!(sidebar.take_job().is_none());
}

#[test]
fn a_loaded_directory_expands_at_once() {
    let mut disk = Disk::new().file("/w/a");
    let mut sidebar = expanded(&mut disk, SidebarConfig::default());
    sidebar.collapse(&path("/w"));
    assert_eq!(row_names(&sidebar), ["w"]);
    assert!(!sidebar.request_expand(&path("/w")));
    assert_eq!(row_names(&sidebar), ["w", "a"]);
    assert!(sidebar.take_job().is_none());
}

#[test]
fn a_change_while_a_listing_is_read_is_not_lost() {
    let mut disk = Disk::new().file("/w/a");
    let mut sidebar = expanded(&mut disk, fast_refresh_config());
    assert!(sidebar.request_reload(&path("/w")));
    let job = sidebar.take_job().unwrap();
    let reply = disk.work(job);
    disk = disk.file("/w/b");
    let signal = watch_signal(&path("/w"), Some(vec![path("/w/b")])).unwrap();
    sidebar.tick(10 * MILLISECOND, Vec::new(), vec![signal]);
    sidebar.tick(30 * MILLISECOND, Vec::new(), Vec::new());
    assert!(sidebar.take_job().is_none());
    assert!(sidebar.tick(31 * MILLISECOND, vec![reply], Vec::new()));
    assert_eq!(row_names(&sidebar), ["w", "a"]);
    assert!(disk.settle(&mut sidebar, 32 * MILLISECOND));
    assert_eq!(row_names(&sidebar), ["w", "a", "b"]);
}

#[test]
fn a_change_that_finds_no_room_is_tried_again() {
    let mut disk = Disk::new();
    let config = SidebarConfig { channel_capacity: 1, ..fast_refresh_config() };
    let mut sidebar = expanded(&mut disk, config);
    assert!(sidebar.request_git_refresh(0));
    sidebar.tick(MILLISECOND, Vec::new(), vec![WatchSignal::Rescan]);
    sidebar.tick(21 * MILLISECOND, Vec::new(), Vec::new());
    assert!(matches!(sidebar.take_job(), Some(Job::Git { .. })));
    assert!(sidebar.take_job().is_none());
    sidebar.tick(100 * MILLISECOND, Vec::new(), Vec::new());
    assert!(matches!(sidebar.take_job(), Some(Job::Load { .. })));
}

#[test]
fn a_round_that_reports_no_change_shows_the_same() {
    let mut disk = Disk::new().file("/w/a");
    let mut sidebar = expanded(&mut disk, fast_refresh_config());
    let before = sidebar.all_visible_rows();
    let stale =
        Response::Load { id: 99, path: path("/w"), result: Err("too late".to_owned()) };
    assert!(!sidebar.tick(500 * MILLISECOND, vec![stale], vec![WatchSignal::Rescan]));
    assert_eq!(sidebar.all_visible_rows(), before);
    assert!(sidebar.git_error().is_none());
    assert!(sidebar.take_job().is_some());
}

#[test]
fn a_round_that_finds_the_worker_gone_reports_a_change() {
    let mut sidebar = Sidebar::new(path("/w"), 0);
    sidebar.lose_worker();
    assert!(!sidebar.tick(3 * SECOND - 1, Vec::new(), Vec::new()));
    assert!(sidebar.git_error().is_none());
    assert!(sidebar.tick(3 * SECOND, Vec::new(), Vec::new()));
    assert_eq!(sidebar.git_error().map(String::as_str), Some("sidebar worker is unavailable"));
    assert!(!sidebar.tick(6 * SECOND, Vec::new(), Vec::new()));
}

#[test]
fn a_root_without_a_name_is_called_as_it_is_written() {
    let sidebar = Sidebar::new(path("//"), 0);
    assert_eq!(sidebar.all_visible_rows()[0].name, b"//".to_vec());
    let sidebar = Sidebar::new(path("/w/"), 0);
    assert_eq!(sidebar.all_visible_rows()[0].name, b"w".to_vec());
}

#[test]
fn rows_follow_their_directories_and_one_is_selected() {
    let mut disk = Disk::new()
        .directory("/w/a")
        .directory("/w/a/b")
        .file("/w/a/b/c")
        .file("/w/a/d")
        .file("/w/e");
    let mut sidebar = expanded(&mut disk, SidebarConfig::default());
    for place in ["/w/a", "/w/a/b"] {
        assert!(sidebar.request_expand(&path(place)));
        disk.settle(&mut sidebar, 0);
    }
    assert_eq!(sidebar.select_visible_row(4, 6), Some(path("/w/a/d")));
    let rows = sidebar.all_visible_rows();
    assert_eq!(row_names(&sidebar), ["w", "a", "b", "c", "d", "e"]);
    assert_eq!(rows[0].path, path("/w"));
    assert_eq!(rows[0].depth, 0);
    for (at, row) in rows.iter().enumerate().skip(1) {
        let parent = row.path.parent().unwrap();
        let above = rows[..at].iter().find(|above| above.path == parent).unwrap();
        assert!(above.expanded);
        assert_eq!(row.depth, above.depth + 1);
    }
    let selected: Vec<usize> = (0..rows.len()).filter(|at| rows[*at].selected).collect();
    assert_eq!(selected, [4]);
    for height in 0..8 {
        assert_eq!(sidebar.visible_rows(height), rows[..height.min(6)]);
    }
}

#[test]
fn decorating_again_changes_nothing() {
    let mut disk = Disk::new().directory("/w/dir").file("/w/b").file("/w/dir/z");
    let mut sidebar = expanded(&mut disk, SidebarConfig::default());
    sidebar.request_expand(&path("/w/dir"));
    disk.settle(&mut sidebar, 0);
    let changes = || {
        vec![
            change("c", GitStatus::Deleted),
            change("dir/y", GitStatus::Deleted),
            change("a", GitStatus::Deleted),
            change("b", GitStatus::Modified),
            change("a", GitStatus::Added),
        ]
    };
    sidebar.apply_git(changes());
    let once = sidebar.all_visible_rows();
    assert_eq!(row_names(&sidebar), ["w", "dir", "y", "z", "a", "b", "c"]);
    for at in [2, 4, 6] {
        assert_eq!(once[at].kind, EntryKind::Deleted);
        assert_eq!(once[at].git.status, Some(GitStatus::Deleted));
    }
    sidebar.apply_git(changes());
    assert_eq!(sidebar.all_visible_rows(), once);
}
