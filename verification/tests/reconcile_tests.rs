//! The reconciliation algorithm on concrete manifests, and the two
//! convergence drivers on simulated stores.

use updater::driver::{ConvergenceDriver, PendingAction, RemoveOutcome};
use updater::gz::{gzip_compress, gzip_decompress};
use updater::manifest::{Entry, Manifest};
use updater::reconcile::{reconcile, SyncActions};

fn entry(checksum: &str, size_bytes: usize) -> Entry {
    Entry { checksum: checksum.to_string(), size_bytes }
}

fn manifest_of(entries: &[(&str, &str, usize)]) -> Manifest {
    let mut m = Manifest::new();
    for (path, checksum, size) in entries {
        m.insert(path.to_string(), entry(checksum, *size));
    }
    m
}

fn sorted(mut v: Vec<String>) -> Vec<String> {
    v.sort();
    v
}

#[test]
fn action_sets_are_exact() {
    let current = manifest_of(&[("a", "ck-a", 1), ("b", "ck-b", 2), ("c", "ck-c-old", 3)]);
    let target = manifest_of(&[("b", "ck-b", 2), ("c", "ck-c-new", 3), ("d", "ck-d", 4)]);
    let actions = reconcile(&current, &target);
    assert_eq!(sorted(actions.to_delete), vec!["a".to_string()]);
    assert_eq!(sorted(actions.to_sync), vec!["c".to_string(), "d".to_string()]);
}

#[test]
fn reconcile_with_itself_plans_nothing() {
    let a = manifest_of(&[("x/one", "ck1", 10), ("y/two", "ck2", 20)]);
    let same = manifest_of(&[("x/one", "ck1", 10), ("y/two", "ck2", 20)]);
    let actions = reconcile(&a, &same);
    assert!(actions.to_delete.is_empty());
    assert!(actions.to_sync.is_empty());

    let empty = Manifest::new();
    let none = reconcile(&empty, &Manifest::new());
    assert!(none.to_delete.is_empty());
    assert!(none.to_sync.is_empty());
}

#[test]
fn matching_checksum_with_wrong_size_is_unchanged() {
    let current = manifest_of(&[("a", "same-ck", 999)]);
    let target = manifest_of(&[("a", "same-ck", 5)]);
    let actions = reconcile(&current, &target);
    assert!(actions.to_delete.is_empty());
    assert!(actions.to_sync.is_empty());
}

#[test]
fn missing_and_changed_paths_are_synced() {
    let current = manifest_of(&[("kept", "k", 1), ("changed", "old", 2)]);
    let target = manifest_of(&[("kept", "k", 1), ("changed", "new", 2), ("fresh", "f", 3)]);
    let actions = reconcile(&current, &target);
    assert!(actions.to_delete.is_empty());
    assert_eq!(sorted(actions.to_sync), vec!["changed".to_string(), "fresh".to_string()]);
}

/// A fake local store: path -> plain content.
struct FakeDisk {
    files: Vec<(String, Vec<u8>)>,
}

impl FakeDisk {
    fn remove(&mut self, path: &str) -> RemoveOutcome {
        match self.files.iter().position(|(p, _)| p == path) {
            Some(i) => {
                self.files.remove(i);
                RemoveOutcome::Removed
            }
            None => RemoveOutcome::AlreadyAbsent,
        }
    }

    fn write(&mut self, path: &str, content: Vec<u8>) {
        self.files.retain(|(p, _)| p != path);
        self.files.push((path.to_string(), content));
    }

    fn read(&self, path: &str) -> Option<&Vec<u8>> {
        self.files.iter().find(|(p, _)| p == path).map(|(_, c)| c)
    }
}

/// Runs a download over a fake remote that may lack some objects.
fn run_download(
    actions: SyncActions,
    disk: &mut FakeDisk,
    remote: &[(&str, Vec<u8>)],
) -> Result<(), Vec<updater::driver::Failure>> {
    let mut driver = ConvergenceDriver::new(actions);
    loop {
        match driver.next_action() {
            PendingAction::Remove(path) => {
                let outcome = disk.remove(&path);
                assert!(!driver.note_remove(outcome));
            }
            PendingAction::Transfer(path) => {
                let fetched = match remote.iter().find(|(p, _)| *p == path) {
                    Some((_, compressed)) => Ok(compressed.clone()),
                    None => Err(format!("error getting {}", path)),
                };
                if let Some(plain) = driver.note_fetched(fetched) {
                    disk.write(&path, plain);
                }
            }
            PendingAction::Done => break,
        }
    }
    driver.into_report()
}

#[test]
fn partial_failure_keeps_completed_work() {
    let current = Manifest::new();
    let target = manifest_of(&[("p1", "ck1", 2), ("p2", "ck2", 2), ("p3", "ck3", 2)]);
    let actions = reconcile(&current, &target);
    assert_eq!(sorted(actions.to_sync.clone()), vec!["p1".to_string(), "p2".to_string(), "p3".to_string()]);

    let mut disk = FakeDisk { files: Vec::new() };
    // The remote is missing p2: that fetch fails, the others succeed.
    let remote = vec![
        ("p1", gzip_compress(&b"one".to_vec())),
        ("p3", gzip_compress(&b"three".to_vec())),
    ];
    let report = run_download(actions, &mut disk, &remote);

    assert_eq!(disk.read("p1"), Some(&b"one".to_vec()));
    assert_eq!(disk.read("p3"), Some(&b"three".to_vec()));
    assert_eq!(disk.read("p2"), None);
    let failures = report.unwrap_err();
    assert_eq!(failures.len(), 1);
    assert_eq!(failures[0].path, "p2");
}

#[test]
fn delete_is_idempotent() {
    let mut disk = FakeDisk { files: Vec::new() };
    disk.write("gone", b"bytes".to_vec());

    // Two removal rounds for the same path: the second sees it absent
    // already, and that is no error.
    let first = disk.remove("gone");
    assert!(matches!(first, RemoveOutcome::Removed));
    let second = disk.remove("gone");
    assert!(matches!(second, RemoveOutcome::AlreadyAbsent));

    let actions = SyncActions { to_delete: vec!["gone".to_string()], to_sync: Vec::new() };
    let mut driver = ConvergenceDriver::new(actions);
    match driver.next_action() {
        PendingAction::Remove(path) => {
            let outcome = disk.remove(&path);
            assert!(matches!(outcome, RemoveOutcome::AlreadyAbsent));
            let fatal = driver.note_remove(outcome);
            assert!(!fatal);
        }
        _ => panic!("expected a removal first"),
    }
    assert!(matches!(driver.next_action(), PendingAction::Done));
    assert!(driver.into_report().is_ok());
}

#[test]
fn other_removal_failures_are_fatal() {
    let actions = SyncActions { to_delete: vec!["locked".to_string()], to_sync: Vec::new() };
    let mut driver = ConvergenceDriver::new(actions);
    match driver.next_action() {
        PendingAction::Remove(_) => {
            let fatal = driver.note_remove(RemoveOutcome::RemoveFailed(
                "permission denied".to_string(),
            ));
            assert!(fatal);
        }
        _ => panic!("expected a removal first"),
    }
}

#[test]
fn download_converges_end_to_end() {
    // Local tree holds {a: "X"}; the target tracks a under the checksum of
    // "content-for-Y" and a fresh path b, with every pack enabled.
    let mut disk = FakeDisk { files: Vec::new() };
    disk.write("a", b"X".to_vec());

    let mut current = Manifest::new();
    for (path, content) in &disk.files {
        current.insert(path.clone(), updater::checksum::Checksummer::entry_of_bytes(content));
    }

    let mut target = Manifest::new();
    target.insert(
        "a".to_string(),
        updater::checksum::Checksummer::entry_of_bytes(&b"content-for-Y".to_vec()),
    );
    target.insert(
        "b".to_string(),
        updater::checksum::Checksummer::entry_of_bytes(&b"content-for-Z".to_vec()),
    );
    let everything = updater::packs::DataPacks::new(vec!["".to_string()]);
    let target = target.filter(&everything);

    let actions = reconcile(&current, &target);
    assert!(actions.to_delete.is_empty());
    assert_eq!(sorted(actions.to_sync.clone()), vec!["a".to_string(), "b".to_string()]);

    let remote = vec![
        ("a", gzip_compress(&b"content-for-Y".to_vec())),
        ("b", gzip_compress(&b"content-for-Z".to_vec())),
    ];
    let report = run_download(actions, &mut disk, &remote);
    assert!(report.is_ok());
    assert_eq!(disk.files.len(), 2);
    assert_eq!(disk.read("a"), Some(&b"content-for-Y".to_vec()));
    assert_eq!(disk.read("b"), Some(&b"content-for-Z".to_vec()));

    // Converged: a fresh snapshot of the tree now matches the target.
    let mut after = Manifest::new();
    for (path, content) in &disk.files {
        after.insert(path.clone(), updater::checksum::Checksummer::entry_of_bytes(content));
    }
    let settled = reconcile(&after, &target);
    assert!(settled.to_delete.is_empty());
    assert!(settled.to_sync.is_empty());
}

#[test]
fn upload_prepares_objects_the_fetcher_inverts() {
    let actions = SyncActions {
        to_delete: Vec::new(),
        to_sync: vec!["data/system/thing".to_string()],
    };
    let mut driver = ConvergenceDriver::new(actions);
    match driver.next_action() {
        PendingAction::Transfer(path) => {
            assert_eq!(path, "data/system/thing");
            let packed = driver.prepare_upload(Ok(b"local bytes".to_vec())).unwrap();
            assert_ne!(packed, b"local bytes".to_vec());
            assert_eq!(gzip_decompress(&packed).unwrap(), b"local bytes".to_vec());
        }
        _ => panic!("expected a transfer"),
    }
    assert!(driver.into_report().is_ok());
}

#[test]
fn upload_records_read_failures() {
    let actions = SyncActions {
        to_delete: Vec::new(),
        to_sync: vec!["broken".to_string(), "fine".to_string()],
    };
    let mut driver = ConvergenceDriver::new(actions);
    assert!(driver.prepare_upload(Err("unreadable".to_string())).is_none());
    assert!(driver.prepare_upload(Ok(b"ok".to_vec())).is_some());
    let failures = driver.into_report().unwrap_err();
    assert_eq!(failures.len(), 1);
    assert_eq!(failures[0].path, "broken");
    assert_eq!(failures[0].cause, "unreadable");
}
