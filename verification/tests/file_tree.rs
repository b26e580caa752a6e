use kiwi_core::file_tree::{
    file_type_category, DirectoryEntry, ExpandAction, FileNode, FileTreeState, FileTypeCategory,
};
use kiwi_core::git::{GitFileEntry, GitFileStatus, GitFileStatusPatch};
use kiwi_core::path::path_join;
use kiwi_core::theme::SemanticRole;

fn file_node(name: &str, is_dir: bool) -> FileNode {
    FileNode {
        path: name.to_string(),
        name: name.to_string(),
        is_dir,
        expanded: false,
        children_loaded: false,
        load_error: None,
        git_status: None,
    }
}

fn entry(root: &str, rel: &str, name: &str, is_dir: bool) -> DirectoryEntry {
    DirectoryEntry {
        path: path_join(root, rel),
        name: name.to_string(),
        is_dir,
    }
}

fn node_of<'a>(state: &'a FileTreeState, path: &str) -> &'a FileNode {
    state.node(path).expect("node")
}

#[test]
fn directories_map_to_dir_category() {
    assert_eq!(file_type_category(&file_node("src", true)), FileTypeCategory::Dir);
}

#[test]
fn extensions_classify_common_types() {
    assert_eq!(file_type_category(&file_node("main.rs", false)), FileTypeCategory::Source);
    assert_eq!(file_type_category(&file_node("app.py", false)), FileTypeCategory::Script);
    assert_eq!(file_type_category(&file_node("README.md", false)), FileTypeCategory::Markup);
    assert_eq!(file_type_category(&file_node("Cargo.toml", false)), FileTypeCategory::Config);
    assert_eq!(file_type_category(&file_node("schema.sql", false)), FileTypeCategory::Data);
    assert_eq!(file_type_category(&file_node("logo.png", false)), FileTypeCategory::Media);
    assert_eq!(file_type_category(&file_node("notes", false)), FileTypeCategory::Other);
}

#[test]
fn extension_case_is_ignored() {
    assert_eq!(file_type_category(&file_node("MAIN.RS", false)), FileTypeCategory::Source);
}

#[test]
fn special_filenames_classify_without_extension() {
    assert_eq!(file_type_category(&file_node("Dockerfile", false)), FileTypeCategory::Config);
    assert_eq!(file_type_category(&file_node("LICENSE", false)), FileTypeCategory::Markup);
}

#[test]
fn semantic_roles_map_to_theme_keys() {
    assert_eq!(FileTypeCategory::Source.semantic_role(), SemanticRole::FileSource);
    assert_eq!(FileTypeCategory::Other.semantic_role(), SemanticRole::FileOther);
}

#[test]
fn badge_chars_match_spec_roles() {
    assert_eq!(GitFileStatus::Modified.badge(), "M");
    assert_eq!(GitFileStatus::Added.semantic_role(), SemanticRole::GitAdded);
    assert_eq!(GitFileStatus::Deleted.badge(), "D");
    assert_eq!(GitFileStatus::Deleted.semantic_role(), SemanticRole::GitDeleted);
    assert_eq!(GitFileStatus::Untracked.semantic_role(), SemanticRole::GitUntracked);
}

#[test]
fn at_root_contains_only_root_node() {
    let state = FileTreeState::at_root("/tmp/kiwi".to_string());
    assert_eq!(state.node_count(), 1);
    assert!(state.children.is_empty());
    assert!(!node_of(&state, "/tmp/kiwi").children_loaded);
}

#[test]
fn expand_requests_load_once() {
    let mut state = FileTreeState::at_root("/tmp/kiwi".to_string());
    let root = state.root.clone();
    assert_eq!(state.expand(&root).expect("expand"), ExpandAction::NeedsLoad);
    assert!(state.is_loading(&root));
    assert_eq!(state.expand(&root).expect("expand again"), ExpandAction::AlreadyExpanded);
}

#[test]
fn expand_checked_refusal_changes_nothing() {
    let mut state = FileTreeState::at_root("/tmp/kiwi".to_string());
    let root = state.root.clone();
    let before = state.clone();
    let result = state.expand_checked(&root, Some("symlink loop detected".to_string()));
    assert_eq!(result, Err("symlink loop detected".to_string()));
    assert_eq!(state, before);
}

#[test]
fn apply_children_loaded_populates_nodes_and_cache() {
    let root = "/tmp/kiwi".to_string();
    let mut state = FileTreeState::at_root(root.clone());
    let _ = state.expand(&root);

    state.apply_children_loaded(
        &root,
        vec![
            entry(&root, "src", "src", true),
            entry(&root, "Cargo.toml", "Cargo.toml", false),
        ],
        None,
    );

    assert!(node_of(&state, &root).children_loaded);
    assert_eq!(state.children_of(&root).expect("children").len(), 2);
    assert!(state.node(&path_join(&root, "src")).is_some());
    assert!(!state.is_loading(&root));
}

fn populate_two_level_tree(state: &mut FileTreeState, root: &str) {
    let _ = state.expand(root);
    state.apply_children_loaded(root, vec![entry(root, "src", "src", true)], None);
    let src = path_join(root, "src");
    let index = state.node_index(&src).expect("src");
    state.nodes[index].expanded = true;
    state.apply_children_loaded(&src, vec![entry(root, "src/main.rs", "main.rs", false)], None);
    state.ensure_selection();
}

#[test]
fn move_selection_updates_selected_path_and_scroll() {
    let root = "/tmp/kiwi".to_string();
    let mut state = FileTreeState::at_root(root.clone());
    populate_two_level_tree(&mut state, &root);

    state.move_selection(1, 2);
    assert_eq!(state.selected, Some(path_join(&root, "src")));
    assert_eq!(state.scroll_offset, 0);

    state.move_selection(1, 1);
    assert_eq!(state.selected, Some(path_join(&root, "src/main.rs")));
    assert_eq!(state.scroll_offset, 2);
}

#[test]
fn move_selection_clamps_at_both_ends() {
    let root = "/tmp/kiwi".to_string();
    let mut state = FileTreeState::at_root(root.clone());
    populate_two_level_tree(&mut state, &root);
    state.move_selection(-5, 10);
    assert_eq!(state.selected, Some(root.clone()));
    state.move_selection(99, 10);
    assert_eq!(state.selected, Some(path_join(&root, "src/main.rs")));
    assert_eq!(state.selected_row_index(), Some(2));
}

#[test]
fn clamp_scroll_to_viewport_reduces_stale_offset() {
    let mut state = FileTreeState::at_root("/tmp/kiwi".to_string());
    state.scroll_offset = 50;
    state.clamp_scroll_to_viewport(5);
    assert_eq!(state.scroll_offset, 0);
}

#[test]
fn visible_rows_flattens_expanded_tree_with_depth() {
    let root = "/tmp/kiwi".to_string();
    let mut state = FileTreeState::at_root(root.clone());
    populate_two_level_tree(&mut state, &root);

    let rows = state.visible_rows();
    assert_eq!(rows.len(), 3);
    assert_eq!(rows[0].depth, 0);
    assert_eq!(rows[1].depth, 1);
    assert_eq!(rows[2].depth, 2);
}

#[test]
fn visible_entries_flattens_expanded_tree() {
    let root = "/tmp/kiwi".to_string();
    let mut state = FileTreeState::at_root(root.clone());
    populate_two_level_tree(&mut state, &root);

    let names: Vec<_> = state
        .visible_rows()
        .iter()
        .map(|row| node_of(&state, &row.path).name.clone())
        .collect();
    assert_eq!(names, vec!["kiwi", "src", "main.rs"]);
}

#[test]
fn collapse_hides_children_from_visible_rows() {
    let root = "/tmp/kiwi".to_string();
    let mut state = FileTreeState::at_root(root.clone());
    populate_two_level_tree(&mut state, &root);
    state.collapse(&path_join(&root, "src"));
    assert_eq!(state.visible_rows().len(), 2);
    assert_eq!(state.row_at_viewport_index(1).map(|row| row.path), Some(path_join(&root, "src")));
}

#[test]
fn apply_git_status_patch_updates_only_changed_paths() {
    let root = "/tmp/kiwi".to_string();
    let mut state = FileTreeState::at_root(root.clone());
    let _ = state.expand(&root);
    state.apply_children_loaded(
        &root,
        vec![
            entry(&root, "src/main.rs", "main.rs", false),
            entry(&root, "src/other.rs", "other.rs", false),
        ],
        None,
    );
    for rel in ["src/main.rs", "src/other.rs"] {
        let index = state.node_index(&path_join(&root, rel)).unwrap();
        state.nodes[index].git_status = Some(GitFileStatus::Modified);
    }

    state.apply_git_status_patch(
        &root,
        &GitFileStatusPatch {
            changed: vec![GitFileEntry {
                path: "src/other.rs".to_string(),
                status: GitFileStatus::Added,
            }],
            removed: vec!["src/main.rs".to_string()],
        },
        true,
    );

    assert_eq!(node_of(&state, &path_join(&root, "src/main.rs")).git_status, None);
    assert_eq!(
        node_of(&state, &path_join(&root, "src/other.rs")).git_status,
        Some(GitFileStatus::Added)
    );
}

#[test]
fn apply_git_statuses_sets_file_badges() {
    let root = "/tmp/kiwi".to_string();
    let mut state = FileTreeState::at_root(root.clone());
    let _ = state.expand(&root);
    state.apply_children_loaded(
        &root,
        vec![
            entry(&root, "src/main.rs", "main.rs", false),
            entry(&root, "README.md", "README.md", false),
        ],
        None,
    );

    state.apply_git_statuses(
        &root,
        &[
            GitFileEntry {
                path: "src/main.rs".to_string(),
                status: GitFileStatus::Modified,
            },
            GitFileEntry {
                path: "README.md".to_string(),
                status: GitFileStatus::Untracked,
            },
        ],
        true,
    );

    assert_eq!(
        node_of(&state, &path_join(&root, "src/main.rs")).git_status,
        Some(GitFileStatus::Modified)
    );
    assert_eq!(
        node_of(&state, &path_join(&root, "README.md")).git_status,
        Some(GitFileStatus::Untracked)
    );
}

#[test]
fn invalidate_children_recurses_without_filesystem_stat() {
    let root = "/nonexistent/repo".to_string();
    let mut state = FileTreeState::at_root(root.clone());
    let src = path_join(&root, "src");
    let main = path_join(&root, "src/main.rs");

    state.apply_children_loaded(&root, vec![entry(&root, "src", "src", true)], None);
    state.apply_children_loaded(&src, vec![entry(&root, "src/main.rs", "main.rs", false)], None);

    assert!(state.node(&src).is_some());
    assert!(state.node(&main).is_some());
    assert!(node_of(&state, &src).is_dir);

    state.invalidate_children(&root);

    assert!(state.node(&src).is_none());
    assert!(state.node(&main).is_none());
    assert!(state.children_of(&root).is_none());
    assert!(state.children_of(&src).is_none());
    assert!(!node_of(&state, &root).children_loaded);
}

#[test]
fn apply_git_statuses_hides_untracked_when_disabled() {
    let root = "/tmp/kiwi".to_string();
    let mut state = FileTreeState::at_root(root.clone());
    let _ = state.expand(&root);
    state.apply_children_loaded(&root, vec![entry(&root, "new.txt", "new.txt", false)], None);

    state.apply_git_statuses(
        &root,
        &[GitFileEntry {
            path: "new.txt".to_string(),
            status: GitFileStatus::Untracked,
        }],
        false,
    );

    assert_eq!(node_of(&state, &path_join(&root, "new.txt")).git_status, None);
}
