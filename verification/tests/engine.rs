use neatify::cancel::CancelToken;
use neatify::organize::{OrganizeError, OrganizeRun, OrganizeStep};
use neatify::paths::journal_file_name;
use neatify::undo::{UndoError, UndoRun};

/// A tiny in-memory stand-in for the target directory: a list of
/// `(path, content)` pairs, enough to exercise the engines end to end.
struct SimFs {
    files: Vec<(String, String)>,
}

impl SimFs {
    fn new(paths: &[&str]) -> SimFs {
        SimFs {
            files: paths.iter().map(|p| (p.to_string(), format!("content of {}", p))).collect(),
        }
    }

    fn has(&self, path: &str) -> bool {
        self.files.iter().any(|(p, _)| p == path)
    }

    fn rename(&mut self, from: &str, to: &str) -> bool {
        for pair in self.files.iter_mut() {
            if pair.0 == from {
                pair.0 = to.to_string();
                return true;
            }
        }
        false
    }

    fn remove(&mut self, path: &str) {
        self.files.retain(|(p, _)| p != path);
    }

    fn paths(&self) -> Vec<String> {
        let mut v: Vec<String> = self.files.iter().map(|(p, _)| p.clone()).collect();
        v.sort();
        v
    }

    fn content_of(&self, path: &str) -> Option<&str> {
        self.files.iter().find(|(p, _)| p == path).map(|(_, c)| c.as_str())
    }
}

fn no_custom() -> Vec<(String, Vec<String>)> {
    Vec::new()
}

/// Drive a run to completion against the simulated directory, collecting
/// the reported progress values; returns the persisted journal text.
fn drive_organize(run: &mut OrganizeRun, fs: &mut SimFs, token: &CancelToken) -> (Vec<i32>, String) {
    let mut reported = Vec::new();
    loop {
        match run.next_action(token.is_cancelled()) {
            OrganizeStep::Move(cmd) => {
                assert!(fs.rename(&cmd.origin, &cmd.destination));
                run.record_moved();
                reported.push(run.progress());
            }
            OrganizeStep::Done => break,
        }
    }
    (reported, run.journal_text())
}

#[test]
fn organize_scenario_builtin_table() {
    // Directory with a.pdf, b.jpg, c.unknownext and no journal present.
    let mut fs = SimFs::new(&["root/a.pdf", "root/b.jpg", "root/c.unknownext"]);
    let entries = vec!["a.pdf".to_string(), "b.jpg".to_string(), "c.unknownext".to_string()];
    let mut run = OrganizeRun::new("root".to_string(), true, entries, no_custom()).unwrap();
    assert_eq!(run.total(), 3);
    let token = CancelToken::new();
    let (reported, journal) = drive_organize(&mut run, &mut fs, &token);
    assert!(run.is_finished());

    assert_eq!(
        fs.paths(),
        vec![
            "root/Documents/PDF/a.pdf".to_string(),
            "root/Media/Images/b.jpg".to_string(),
            "root/Others/c.unknownext".to_string(),
        ]
    );
    // No file content is lost, only locations change.
    assert_eq!(fs.content_of("root/Documents/PDF/a.pdf"), Some("content of root/a.pdf"));

    assert_eq!(reported, vec![33, 66, 100]);
    assert_eq!(journal.lines().count(), 3);
    assert_eq!(
        journal,
        "root/Documents/PDF/a.pdf|root/a.pdf\n\
         root/Media/Images/b.jpg|root/b.jpg\n\
         root/Others/c.unknownext|root/c.unknownext"
    );
}

#[test]
fn undo_restores_original_paths_and_deletes_journal() {
    let mut fs = SimFs::new(&["root/a.pdf", "root/b.jpg", "root/c.unknownext"]);
    let before = fs.paths();
    let entries = vec!["a.pdf".to_string(), "b.jpg".to_string(), "c.unknownext".to_string()];
    let mut run = OrganizeRun::new("root".to_string(), true, entries, no_custom()).unwrap();
    let token = CancelToken::new();
    let (_, journal) = drive_organize(&mut run, &mut fs, &token);
    let journal_path = format!("root/{}", journal_file_name());

    let mut undo = UndoRun::new(true, &journal).unwrap();
    assert_eq!(undo.total(), 3);
    let mut reported = Vec::new();
    while let Some(cmd) = undo.next_restore() {
        assert_eq!(cmd.parent, "root");
        let ok = fs.rename(&cmd.source, &cmd.target);
        undo.record_result(ok);
        reported.push(undo.progress());
    }
    assert!(undo.is_finished());
    fs.remove(&journal_path);

    assert_eq!(fs.paths(), before);
    assert_eq!(reported, vec![33, 66, 100]);
    assert_eq!(undo.failed, 0);
}

#[test]
fn cancellation_keeps_remaining_files_untouched() {
    let mut fs = SimFs::new(&["root/a.pdf", "root/b.jpg", "root/c.unknownext"]);
    let entries = vec!["a.pdf".to_string(), "b.jpg".to_string(), "c.unknownext".to_string()];
    let mut run = OrganizeRun::new("root".to_string(), true, entries, no_custom()).unwrap();
    let mut token = CancelToken::new();

    // Process one file, then request cancellation.
    match run.next_action(token.is_cancelled()) {
        OrganizeStep::Move(cmd) => {
            assert!(fs.rename(&cmd.origin, &cmd.destination));
            run.record_moved();
        }
        OrganizeStep::Done => panic!("expected a move"),
    }
    token.request_cancel();
    match run.next_action(token.is_cancelled()) {
        OrganizeStep::Move(_) => panic!("cancelled run must stop"),
        OrganizeStep::Done => {}
    }
    assert!(!run.is_finished());

    // Exactly one journal record; the other two files are still in place.
    let journal = run.journal_text();
    assert_eq!(journal, "root/Documents/PDF/a.pdf|root/a.pdf");
    assert!(fs.has("root/b.jpg"));
    assert!(fs.has("root/c.unknownext"));
    assert_eq!(run.progress(), 33);

    // A partial run is still fully reversible from its journal.
    let mut undo = UndoRun::new(true, &journal).unwrap();
    while let Some(cmd) = undo.next_restore() {
        let ok = fs.rename(&cmd.source, &cmd.target);
        undo.record_result(ok);
    }
    assert!(fs.has("root/a.pdf"));
}

#[test]
fn token_resets_for_a_new_run() {
    let mut token = CancelToken::new();
    assert!(!token.is_cancelled());
    token.request_cancel();
    assert!(token.is_cancelled());
    token.reset();
    assert!(!token.is_cancelled());
}

#[test]
fn progress_sequence_is_non_decreasing() {
    let names: Vec<String> = (0..7).map(|i| format!("f{}.pdf", i)).collect();
    let paths: Vec<String> = names.iter().map(|n| format!("root/{}", n)).collect();
    let path_refs: Vec<&str> = paths.iter().map(|p| p.as_str()).collect();
    let mut fs = SimFs::new(&path_refs);
    let mut run = OrganizeRun::new("root".to_string(), true, names, no_custom()).unwrap();
    let token = CancelToken::new();
    let (reported, _) = drive_organize(&mut run, &mut fs, &token);
    for w in reported.windows(2) {
        assert!(w[0] <= w[1]);
    }
    assert_eq!(*reported.last().unwrap(), 100);
}

#[test]
fn missing_directory_is_not_found() {
    let r = OrganizeRun::new("root".to_string(), false, vec!["a.pdf".to_string()], no_custom());
    match r {
        Err(OrganizeError::NotFound) => {}
        _ => panic!("expected NotFound"),
    }
    assert_eq!(OrganizeError::NotFound.message(), "Folder not found.");
}

#[test]
fn empty_directory_is_rejected() {
    let r = OrganizeRun::new("root".to_string(), true, Vec::new(), no_custom());
    match r {
        Err(OrganizeError::Empty) => {}
        _ => panic!("expected Empty"),
    }
    assert_eq!(OrganizeError::Empty.message(), "No files found in the selected folder");
}

#[test]
fn reserved_artifacts_are_never_moved() {
    // A directory holding only the engine's own artifacts counts as empty.
    let entries = vec![".neatify_log".to_string(), ".organizer_backup".to_string()];
    match OrganizeRun::new("root".to_string(), true, entries, no_custom()) {
        Err(OrganizeError::Empty) => {}
        _ => panic!("expected Empty"),
    }

    // Alongside real files, the artifacts are skipped, not journaled.
    let entries = vec![".neatify_log".to_string(), "a.pdf".to_string()];
    let mut fs = SimFs::new(&["root/.neatify_log", "root/a.pdf"]);
    let mut run = OrganizeRun::new("root".to_string(), true, entries, no_custom()).unwrap();
    assert_eq!(run.total(), 1);
    let token = CancelToken::new();
    let (_, journal) = drive_organize(&mut run, &mut fs, &token);
    assert_eq!(journal, "root/Documents/PDF/a.pdf|root/a.pdf");
    assert!(fs.has("root/.neatify_log"));
}

#[test]
fn move_failed_message_names_path_and_cause() {
    let e = OrganizeError::MoveFailed {
        path: "root/a.pdf".to_string(),
        cause: "permission denied".to_string(),
    };
    assert_eq!(e.message(), "Could not move root/a.pdf: permission denied");
}

#[test]
fn undo_without_journal_fails() {
    match UndoRun::new(false, "") {
        Err(UndoError::NoJournal) => {}
        _ => panic!("expected NoJournal"),
    }
    assert_eq!(UndoError::NoJournal.message(), "No undo log found.");
}

#[test]
fn undo_failure_isolation() {
    // Organize three files, then delete one destination behind undo's back.
    let mut fs = SimFs::new(&["root/a.pdf", "root/b.jpg", "root/c.unknownext"]);
    let entries = vec!["a.pdf".to_string(), "b.jpg".to_string(), "c.unknownext".to_string()];
    let mut run = OrganizeRun::new("root".to_string(), true, entries, no_custom()).unwrap();
    let token = CancelToken::new();
    let (_, journal) = drive_organize(&mut run, &mut fs, &token);
    fs.remove("root/Media/Images/b.jpg");

    let mut undo = UndoRun::new(true, &journal).unwrap();
    while let Some(cmd) = undo.next_restore() {
        let ok = fs.rename(&cmd.source, &cmd.target);
        undo.record_result(ok);
    }
    // The failed record was skipped, every other file is restored, and the
    // run still finishes, so the shell deletes the journal.
    assert!(undo.is_finished());
    assert_eq!(undo.failed, 1);
    assert!(fs.has("root/a.pdf"));
    assert!(fs.has("root/c.unknownext"));
    assert!(!fs.has("root/b.jpg"));
}

#[test]
fn organize_with_custom_categories() {
    let custom = vec![("Homework".to_string(), vec!["pdf".to_string()])];
    let mut fs = SimFs::new(&["root/a.pdf", "root/b.jpg"]);
    let entries = vec!["a.pdf".to_string(), "b.jpg".to_string()];
    let mut run = OrganizeRun::new("root".to_string(), true, entries, custom).unwrap();
    let token = CancelToken::new();
    let (_, journal) = drive_organize(&mut run, &mut fs, &token);
    assert_eq!(
        journal,
        "root/Homework/a.pdf|root/a.pdf\nroot/Media/Images/b.jpg|root/b.jpg"
    );
    assert!(fs.has("root/Homework/a.pdf"));
}
