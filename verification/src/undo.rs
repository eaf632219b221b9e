//! The undo engine: walks a loaded move journal in order and asks the shell
//! to reverse each recorded move.  A restore that fails — because the user
//! meanwhile deleted or moved a journaled file — is counted and skipped, and
//! the remaining records are still processed: one bad record never blocks
//! the rest of the reversal.  This is deliberately the opposite of the
//! organize engine's fail-fast policy.

use vstd::prelude::*;
use crate::classify::lemma_category_clean;
use crate::journal::{lemma_journal_round_trip, parse_journal, records_model, spec_parse,
    spec_record_ok, spec_serialize, MoveRecord};
use crate::organize::{spec_move_destination, spec_move_origin, OrganizeRun};
use crate::paths::{lemma_join_clean, parent_of, spec_parent_of, spec_path_ok};
use crate::progress::{progress_value, spec_progress};

verus! {

/// Why an undo run could not start.
#[derive(Debug)]
pub enum UndoError {
    /// The reserved journal artifact does not exist.
    NoJournal,
}

impl UndoError {
    /// The short display string each error stands for.
    pub fn message(&self) -> (r: String)
        ensures
            r@ == "No undo log found."@,
    {
        "No undo log found.".to_owned()
    }
}

/// One reversal for the shell to carry out: recreate `parent` if it is
/// missing (and not empty), then relocate `source` back to `target`.
pub struct RestoreCommand {
    pub source: String,
    pub target: String,
    pub parent: String,
}

/// One undo run over one loaded journal.
pub struct UndoRun {
    /// The journal's records, in the order they were written.
    pub records: Vec<MoveRecord>,
    /// How many records have been attempted so far, failures included.
    pub processed: usize,
    /// How many of the attempted restores the shell reported failed.
    pub failed: usize,
}

impl UndoRun {
    /// The run's invariant.
    pub open spec fn wf(self) -> bool {
        &&& self.processed <= self.records@.len()
        &&& self.failed <= self.processed
    }

    /// The reversal the next record asks for, if any record is left.
    pub open spec fn spec_next_restore(self) -> Option<(Seq<char>, Seq<char>, Seq<char>)> {
        if self.processed < self.records@.len() {
            let r = records_model(self.records@)[self.processed as int];
            Some((r.0, r.1, spec_parent_of(r.1)))
        } else {
            None
        }
    }

    /// Start an undo run from the persisted journal.  Fails when the
    /// journal artifact does not exist; otherwise every record parsed from
    /// the text is still to be attempted.
    pub fn new(journal_exists: bool, text: &str) -> (r: Result<UndoRun, UndoError>)
        ensures
            match r {
                Ok(u) => {
                    &&& journal_exists
                    &&& u.wf()
                    &&& u.processed == 0
                    &&& u.failed == 0
                    &&& records_model(u.records@) == spec_parse(text@)
                },
                Err(e) => !journal_exists,
            },
    {
        if !journal_exists {
            return Err(UndoError::NoJournal);
        }
        let records = parse_journal(text);
        Ok(UndoRun { records, processed: 0, failed: 0 })
    }

    /// How many records the journal holds.
    pub fn total(&self) -> (n: usize)
        ensures
            n == self.records@.len(),
    {
        self.records.len()
    }

    /// Has every record been attempted?
    pub fn is_finished(&self) -> (r: bool)
        ensures
            r == (self.processed == self.records@.len()),
    {
        self.processed == self.records.len()
    }

    /// The next reversal to attempt: move the recorded destination back to
    /// the recorded origin, recreating the origin's parent folder first.
    pub fn next_restore(&self) -> (r: Option<RestoreCommand>)
        requires
            self.wf(),
        ensures
            match r {
                Some(cmd) => {
                    &&& self.processed < self.records@.len()
                    &&& Some((cmd.source@, cmd.target@, cmd.parent@)) == self.spec_next_restore()
                },
                None => self.processed == self.records@.len(),
            },
    {
        if self.processed >= self.records.len() {
            return None;
        }
        let rec = &self.records[self.processed];
        let source = rec.destination.clone();
        let target = rec.origin.clone();
        let parent = parent_of(rec.origin.as_str());
        Some(RestoreCommand { source, target, parent })
    }

    /// Record the outcome the shell reported for the current record and
    /// advance to the next one — on failure just as on success.
    pub fn record_result(&mut self, ok: bool)
        requires
            old(self).wf(),
            old(self).processed < old(self).records@.len(),
        ensures
            final(self).wf(),
            final(self).records == old(self).records,
            final(self).processed == old(self).processed + 1,
            final(self).failed == old(self).failed + if ok {
                0int
            } else {
                1int
            },
    {
        let total = self.records.len();
        proof {
            assert(self.processed < total);
        }
        self.processed = self.processed + 1;
        if !ok {
            self.failed = self.failed + 1;
        }
    }

    /// The percentage to report after the attempts so far.
    pub fn progress(&self) -> (p: i32)
        requires
            self.wf(),
            self.records@.len() > 0,
        ensures
            p == spec_progress(self.processed as int, self.records@.len() as int),
            0 <= p <= 100,
            self.processed == self.records@.len() ==> p == 100,
    {
        progress_value(self.processed, self.records.len())
    }
}

/// Failure isolation: what an undo run does next, and whether it is
/// finished (and so deletes the journal), depends on the journal and on how
/// many records were attempted — never on how many of them failed.  Two
/// runs over the same journal that have attempted the same number of
/// records ask for the same reversal next, however many restores failed in
/// either; and a run that attempted every record is finished even if every
/// single restore failed.
pub proof fn lemma_undo_failure_isolation(u: UndoRun, v: UndoRun)
    requires
        u.wf(),
        v.wf(),
        u.records == v.records,
        u.processed == v.processed,
    ensures
        u.spec_next_restore() == v.spec_next_restore(),
        u.processed == u.records@.len() ==> u.spec_next_restore() is None,
{
}

/// Undo is a left inverse of organize: parsing the journal text a completed
/// run persisted yields exactly the run's records — one per file of the
/// snapshot — and the reversal of record `i` moves the file back to
/// `dir/name`, its original path, so the directory's file set is restored.
/// Holds whenever the directory, the file names and the custom category
/// names are free of the journal format's two delimiter characters.
pub proof fn lemma_undo_left_inverse(run: OrganizeRun)
    requires
        run.wf(),
        run.processed == run.files@.len(),
        spec_path_ok(run.dir@),
        forall|i: int| 0 <= i < run.files@.len() ==> spec_path_ok((#[trigger] run.files@[i])@),
        forall|k: int|
            0 <= k < run.custom.deep_view().len() ==> spec_path_ok(
                (#[trigger] run.custom.deep_view()[k]).0,
            ),
    ensures
        spec_parse(spec_serialize(records_model(run.journal@))) =~~= records_model(run.journal@),
        records_model(run.journal@).len() == run.files@.len(),
        forall|i: int|
            0 <= i < run.files@.len() ==> records_model(run.journal@)[i].1 == spec_move_origin(
                run.dir@,
                (#[trigger] run.files@[i])@,
            ),
        forall|i: int|
            0 <= i < run.files@.len() ==> records_model(run.journal@)[i].0
                == spec_move_destination(
                run.dir@,
                run.custom.deep_view(),
                (#[trigger] run.files@[i])@,
            ),
{
    let rs = records_model(run.journal@);
    let cats = run.custom.deep_view();
    assert forall|i: int| 0 <= i < rs.len() implies spec_record_ok(#[trigger] rs[i]) by {
        let name = run.files@[i]@;
        lemma_category_clean(name, cats);
        let rel = crate::classify::spec_dest_rel(crate::classify::spec_category_for(name, cats));
        lemma_join_clean(run.dir@, rel);
        lemma_join_clean(crate::paths::spec_join(run.dir@, rel), name);
        lemma_join_clean(run.dir@, name);
    }
    lemma_journal_round_trip(rs);
}

} // verus!
