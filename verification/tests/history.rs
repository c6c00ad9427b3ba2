use hyprcube::history::{
    commit_args, commit_message, diff_text, git_error, managed_files, parse_revisions, parse_snapshot_refs, revision_age,
    section_paths, short_revision, snapshot_slug, validate_revision, HistoryError, HistoryPanel,
    diff_line_kind, revision_label, DiffLineKind,
    HistoryStore, Revision, SnapshotKey,
};

fn rev(hash: &str) -> Revision {
    Revision {
        hash: hash.into(),
        short_hash: hash.chars().take(7).collect(),
        timestamp: 0,
        summary: String::new(),
        snapshots: Vec::new(),
    }
}

#[test]
fn section_filter_maps_to_managed_files() {
    assert_eq!(section_paths("HyprDeck"), ["configs/hyprdeck.toml"]);
    assert_eq!(section_paths("All"), ["configs"]);
}

#[test]
fn snapshot_names_are_safe_git_refs() {
    assert_eq!(
        snapshot_slug("  Warm / Work Theme  ").as_deref(),
        Some("warm-work-theme")
    );
    assert_eq!(snapshot_slug("///"), None);
}

#[test]
fn snapshot_slug_is_capped() {
    let long = "a".repeat(60);
    assert_eq!(snapshot_slug(&long).unwrap().len(), 48);
    assert_eq!(snapshot_slug("Cozy Theme").as_deref(), Some("cozy-theme"));
    assert_eq!(snapshot_slug("Été 2024!").as_deref(), Some("t-2024"));
}

#[test]
fn revisions_must_be_full_hashes() {
    let full = "0123456789abcdef0123456789ABCDEF01234567";
    assert!(validate_revision(full).is_ok());
    assert!(matches!(validate_revision("HEAD"), Err(HistoryError::InvalidRevision(r)) if r == "HEAD"));
    assert!(validate_revision(&full[..39]).is_err());
    assert!(validate_revision("g123456789abcdef0123456789abcdef01234567").is_err());
    assert_eq!(short_revision(full, 12), "0123456789ab");
    assert_eq!(short_revision("abc", 12), "abc");
}

#[test]
fn hyprpaper_filter_shows_three_files() {
    assert_eq!(section_paths("Hyprpaper").len(), 3);
    assert_eq!(managed_files().len(), 8);
    assert_eq!(managed_files()[0], "hyprland.conf");
}

#[test]
fn commit_messages_fit_on_one_line() {
    assert_eq!(commit_message("  Restore\nconfig\r\n"), "Restore config");
}

#[test]
fn blank_diff_becomes_a_notice() {
    assert_eq!(
        diff_text(b" \n"),
        "No differences between the selected and current configuration in this section."
    );
    assert_eq!(diff_text(b"+a\n"), "+a\n");
}

#[test]
fn log_lines_become_revisions() {
    let log = "aaaa\u{1f}aa\u{1f}1700000000\u{1f}Saved configuration\nbbbb\u{1f}bb\u{1f}x\u{1f}Sum\u{1f}mary\nonlyhash\n";
    let snaps = parse_snapshot_refs("cozy\u{0}aaaa\nwork\u{0}aaaa\nbroken\n".as_bytes());
    assert_eq!(snaps, vec![("cozy".to_string(), "aaaa".to_string()), ("work".to_string(), "aaaa".to_string())]);
    let revs = parse_revisions(log.as_bytes(), &snaps);
    assert_eq!(revs.len(), 2);
    assert_eq!(revs[0].hash, "aaaa");
    assert_eq!(revs[0].timestamp, 1_700_000_000);
    assert_eq!(revs[0].snapshots, vec!["cozy".to_string(), "work".to_string()]);
    assert_eq!(revs[1].timestamp, 0);
    assert_eq!(revs[1].summary, "Sum\u{1f}mary");
    assert!(revs[1].snapshots.is_empty());
}

#[test]
fn revision_ages() {
    assert_eq!(revision_age(100, 50), "now");
    assert_eq!(revision_age(1000, 0), "16m");
    assert_eq!(revision_age(7200, 0), "2h");
    assert_eq!(revision_age(200_000, 0), "2d");
    assert_eq!(revision_age(0, 50), "now");
}

#[test]
fn panel_keeps_selected_revision_across_refresh() {
    let mut p = HistoryPanel::new(Some("git missing".into()));
    assert_eq!(p.status, "git missing");
    assert_eq!(p.filter, "All");
    p.apply_revisions(vec![rev("c"), rev("b"), rev("a")]);
    p.select_older();
    p.select_older();
    p.select_older();
    assert_eq!(p.selected, 2);
    p.apply_revisions(vec![rev("d"), rev("c"), rev("b"), rev("a")]);
    assert_eq!(p.selected, 3);
    p.select_newer();
    assert_eq!(p.selected, 2);
    p.apply_revisions(vec![rev("z")]);
    assert_eq!(p.selected, 0);
    assert!(!p.select_row(4));
    assert_eq!(p.begin_diff(), Some(("z".to_string(), "All".to_string())));
}

#[test]
fn empty_history_shows_notice() {
    let mut p = HistoryPanel::new(None);
    assert_eq!(p.begin_diff(), None);
    assert_eq!(p.diff, "No configuration versions have been recorded yet.");
    p.finish_diff(Err("boom".into()));
    assert_eq!(p.status, "boom");
}

#[test]
fn snapshot_name_editing() {
    let mut p = HistoryPanel::new(None);
    p.snapshot_focused = true;
    assert_eq!(p.snapshot_key("a", Some("Ab\u{8}c")), SnapshotKey::Edited);
    assert_eq!(p.snapshot_name, "Abc");
    p.snapshot_key("BackSpace", None);
    assert_eq!(p.snapshot_name, "Ab");
    assert_eq!(p.snapshot_key("Return", None), SnapshotKey::Submit);
    p.snapshot_finished(Ok("ab".into()));
    assert_eq!(p.status, "Saved snapshot \u{201c}ab\u{201d}.");
    assert!(p.snapshot_name.is_empty());
}

#[test]
fn restore_reports_a_configuration_change_once() {
    let mut p = HistoryPanel::new(None);
    p.restore_finished(Ok("0123456789ab".into()));
    assert_eq!(p.status, "Restored 0123456789ab; HyprDeck, HyprSaver, and Hyprpaper may need refresh.");
    let change = p.take_external_config_change().unwrap();
    assert!(change.reload_hyprland);
    assert_eq!(change.message, p.status);
    assert!(p.take_external_config_change().is_none());
    p.restore_finished(Err("no git".into()));
    assert_eq!(p.status, "Restore failed: no git");
}

#[test]
fn diff_scrolls_in_steps_of_three() {
    let mut p = HistoryPanel::new(None);
    p.finish_diff(Ok("1\n2\n3\n4\n5\n".into()));
    p.scroll_diff(true);
    assert_eq!(p.diff_scroll, 3);
    p.scroll_diff(true);
    assert_eq!(p.diff_scroll, 4);
    p.scroll_diff(false);
    p.scroll_diff(false);
    assert_eq!(p.diff_scroll, 0);
}

#[test]
fn capture_commits_only_when_something_changed() {
    assert_eq!(commit_args("x", true, true), None);
    assert_eq!(
        commit_args("  Save\nsettings ", true, false),
        Some(vec!["commit".to_string(), "--quiet".to_string(), "-m".to_string(), "Save settings".to_string()])
    );
    assert_eq!(
        commit_args("Initial configuration", false, true),
        Some(vec![
            "commit".to_string(),
            "--quiet".to_string(),
            "-m".to_string(),
            "Initial configuration".to_string(),
            "--allow-empty".to_string(),
        ])
    );
}

#[test]
fn git_output_is_read_as_lossy_text() {
    assert!(matches!(git_error(b"  fatal: bad revision\n"), HistoryError::Git(m) if m == "fatal: bad revision"));
    assert!(matches!(git_error(b"bad \xff byte"), HistoryError::Git(m) if m == "bad \u{fffd} byte"));
    assert_eq!(hyprcube::text::trimmed_lossy(b"0123abcd\n"), "0123abcd");
}

#[test]
fn every_snapshot_slug_is_a_safe_ref() {
    for name in ["  Warm / Work Theme  ", "--a--b--", "\u{e9}t\u{e9} 2024!", "A".repeat(80).as_str(), "x-"] {
        let slug = snapshot_slug(name).unwrap();
        assert!(!slug.is_empty() && slug.len() <= 48);
        assert!(slug.chars().all(|c| c.is_ascii_lowercase() || c.is_ascii_digit() || c == '-'));
        assert!(!slug.starts_with('-') && !slug.ends_with('-') && !slug.contains("--"));
    }
    assert_eq!(snapshot_slug("\u{e9}\u{e9} ! ?"), None);
}

#[test]
fn diff_uses_the_chosen_section_filter() {
    let mut p = HistoryPanel::new(None);
    p.apply_revisions(vec![rev("a1"), rev("b2")]);
    p.set_filter("HyprDeck");
    assert_eq!(p.filter, "HyprDeck");
    assert_eq!(p.begin_diff(), Some(("a1".to_string(), "HyprDeck".to_string())));
}

fn store() -> HistoryStore {
    HistoryStore::new("/tmp/history-repo".into(), "/tmp/hypr".into())
}

fn strings(v: &[&str]) -> Vec<String> {
    v.iter().map(|s| s.to_string()).collect()
}

#[test]
fn store_commands() {
    assert_eq!(HistoryStore::init_commands()[0], strings(&["init", "--initial-branch=main"]));
    assert_eq!(HistoryStore::init_commands().len(), 4);
    assert_eq!(
        HistoryStore::log_command(),
        strings(&["log", "--first-parent", "--max-count=100", "--format=%H%x1f%h%x1f%ct%x1f%s"])
    );
    assert_eq!(HistoryStore::snapshot_refs_command()[2], "refs/tags/snapshot/");
    assert_eq!(HistoryStore::file_object("abc", "hyprland.conf"), "abc:configs/hyprland.conf");
}

#[test]
fn store_diff_and_snapshot_requests() {
    let s = store();
    let hash = "0123456789abcdef0123456789abcdef01234567";
    assert_eq!(
        s.diff(hash, "HyprDeck").unwrap(),
        strings(&["diff", "--no-ext-diff", "--unified=3", "HEAD", hash, "--", "configs/hyprdeck.toml"])
    );
    assert!(matches!(s.diff("HEAD~1", "All"), Err(HistoryError::InvalidRevision(r)) if r == "HEAD~1"));
    let (slug, args) = s.create_snapshot("Warm Theme!", hash).unwrap();
    assert_eq!(slug, "warm-theme");
    assert_eq!(args, strings(&["tag", "snapshot/warm-theme", hash]));
    assert!(matches!(s.create_snapshot("///", hash), Err(HistoryError::InvalidSnapshotName)));
}

#[test]
fn store_revisions_need_a_head() {
    let s = store();
    assert!(s.revisions(false, b"x", b"").is_empty());
    let log = "aaaa\x1faa\x1f1700000000\x1fSave\n";
    let refs = "cozy\u{0}aaaa\n";
    let revs = s.revisions(true, log.as_bytes(), refs.as_bytes());
    assert_eq!(revs.len(), 1);
    assert_eq!(revs[0].snapshots, vec!["cozy".to_string()]);
    assert_eq!(revs[0].timestamp, 1700000000);
    assert!(s.capture("m", true, true).is_none());
}

#[test]
fn history_panel_waits_for_clean_state() {
    let p = HistoryPanel::new(None);
    assert!(p.requires_clean_state());
}

#[test]
fn diff_lines_are_classified() {
    assert_eq!(diff_line_kind("+added"), DiffLineKind::Added);
    assert_eq!(diff_line_kind("+++ b/configs/x"), DiffLineKind::Context);
    assert_eq!(diff_line_kind("-removed"), DiffLineKind::Removed);
    assert_eq!(diff_line_kind("--- a/configs/x"), DiffLineKind::Context);
    assert_eq!(diff_line_kind("@@ -1 +1 @@"), DiffLineKind::Header);
    assert_eq!(diff_line_kind("diff --git a b"), DiffLineKind::Header);
    assert_eq!(diff_line_kind(" same"), DiffLineKind::Context);
}

#[test]
fn revision_row_label_names_age_and_snapshots() {
    let mut r = rev("abcdef1234");
    r.timestamp = 1000;
    assert_eq!(revision_label(&r, 1000 + 7200), "abcdef1  2h");
    r.snapshots = vec!["before".to_string(), "after".to_string()];
    assert_eq!(revision_label(&r, 1010), "abcdef1  now \u{2605} before, after");
}

#[test]
fn diff_view_title_and_visible_lines() {
    let mut p = HistoryPanel::new(None);
    assert_eq!(p.diff_title(), "Current \u{2192} selected diff \u{2014} All");
    p.finish_diff(Ok("a\r\nb\nc\nd\n".to_string()));
    assert_eq!(p.visible_diff_lines(2), vec!["a", "b"]);
    p.diff_scroll = 3;
    assert_eq!(p.visible_diff_lines(5), vec!["d"]);
    p.diff_scroll = 9;
    assert!(p.visible_diff_lines(5).is_empty());
}
