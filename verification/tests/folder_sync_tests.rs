use mailsync::folder_sync::{
    build_folder_patch, folder_sync_hunks, FolderSyncCacheHunk, FolderSyncHunk, Side,
};

fn names(list: &[&str]) -> Vec<String> {
    list.iter().map(|s| s.to_string()).collect()
}

#[test]
fn converged_folders_plan_nothing() {
    let all = names(&["INBOX", "Sent"]);
    let plan = build_folder_patch(&all, &all, &all, &all);
    assert_eq!(plan.patch.len(), 0);
    assert_eq!(plan.cache_patch.len(), 0);
    assert_eq!(plan.folders, all);
}

#[test]
fn new_remote_folder_is_created_locally() {
    let empty = names(&[]);
    let remote = names(&["Archive"]);
    let plan = build_folder_patch(&empty, &empty, &empty, &remote);
    assert_eq!(plan.folders, names(&["Archive"]));
    assert_eq!(plan.patch.len(), 1);
    assert!(matches!(
        &plan.patch[0],
        FolderSyncHunk::CreateFolder(n, Side::Local) if n == "Archive"
    ));
    assert_eq!(plan.cache_patch.len(), 2);
    assert!(matches!(
        &plan.cache_patch[0],
        FolderSyncCacheHunk::InsertFolder(n, Side::Local) if n == "Archive"
    ));
    assert!(matches!(
        &plan.cache_patch[1],
        FolderSyncCacheHunk::InsertFolder(n, Side::Remote) if n == "Archive"
    ));
}

#[test]
fn cached_folder_gone_locally_is_deleted_remotely() {
    let cached = names(&["Trash"]);
    let empty = names(&[]);
    let remote = names(&["Trash"]);
    let plan = build_folder_patch(&cached, &empty, &cached, &remote);
    assert_eq!(plan.folders.len(), 0);
    assert_eq!(plan.patch.len(), 1);
    assert!(matches!(
        &plan.patch[0],
        FolderSyncHunk::DeleteFolder(n, Side::Remote) if n == "Trash"
    ));
    assert_eq!(plan.cache_patch.len(), 2);
    assert!(matches!(
        &plan.cache_patch[0],
        FolderSyncCacheHunk::DeleteFolder(n, Side::Local) if n == "Trash"
    ));
    assert!(matches!(
        &plan.cache_patch[1],
        FolderSyncCacheHunk::DeleteFolder(n, Side::Remote) if n == "Trash"
    ));
}

#[test]
fn uncached_folder_on_both_live_sides_is_kept() {
    // Present live on both sides but in neither cache: two independent
    // creations; both stay and both caches learn the name.
    let empty = names(&[]);
    let live = names(&["Drafts"]);
    let plan = build_folder_patch(&empty, &live, &empty, &live);
    assert_eq!(plan.folders, names(&["Drafts"]));
    assert_eq!(plan.patch.len(), 0);
    assert_eq!(plan.cache_patch.len(), 2);
}

#[test]
fn stale_cache_entry_is_dropped() {
    let local_cache = names(&["Old"]);
    let empty = names(&[]);
    let plan = build_folder_patch(&local_cache, &empty, &empty, &empty);
    assert_eq!(plan.folders.len(), 0);
    assert_eq!(plan.patch.len(), 0);
    assert_eq!(plan.cache_patch.len(), 1);
    assert!(matches!(
        &plan.cache_patch[0],
        FolderSyncCacheHunk::DeleteFolder(n, Side::Local) if n == "Old"
    ));
}

#[test]
fn per_name_hunks_follow_presence() {
    let name = String::from("Spam");
    // Newly created locally only: create remotely.
    let (hunks, cache) = folder_sync_hunks(&name, false, true, false, false);
    assert_eq!(hunks.len(), 1);
    assert!(matches!(&hunks[0], FolderSyncHunk::CreateFolder(_, Side::Remote)));
    assert_eq!(cache.len(), 2);
    // Cached everywhere and live everywhere: nothing to do.
    let (hunks, cache) = folder_sync_hunks(&name, true, true, true, true);
    assert_eq!(hunks.len(), 0);
    assert_eq!(cache.len(), 0);
}
