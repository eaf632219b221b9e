//! The organize engine, as a step-driven state machine.  The shell lists the
//! target directory once and hands the snapshot in; the engine decides, file
//! by file, which move to perform next; the shell performs it and reports
//! back.  Every recorded move is journaled, so a completed, cancelled or
//! aborted run can be written out and later reversed.
//!
//! The engine's invariant ties the journal exactly to the processed prefix
//! of the snapshot: one record per moved file, holding the file's original
//! path and the destination the classifier implies for it.

use vstd::prelude::*;
use crate::classify::{category_for, dest_rel, spec_category_for, spec_dest_rel};
use crate::journal::{records_model, serialize_journal, spec_serialize, MoveRecord};
use crate::paths::{is_reserved, join, spec_is_reserved, spec_join};
use crate::progress::{progress_value, spec_progress};

verus! {

/// Why an organize run could not start or continue.
#[derive(Debug)]
pub enum OrganizeError {
    /// The target directory does not exist.
    NotFound,
    /// The snapshot holds no eligible regular file.
    Empty,
    /// A filesystem operation failed; the run aborts at once.
    MoveFailed { path: String, cause: String },
}

impl OrganizeError {
    /// The short display string each error stands for.
    pub fn message(&self) -> (r: String)
        ensures
            match self {
                OrganizeError::NotFound => r@ == "Folder not found."@,
                OrganizeError::Empty => r@ == "No files found in the selected folder"@,
                OrganizeError::MoveFailed { path, cause } => r@ == "Could not move "@ + path@
                    + ": "@ + cause@,
            },
    {
        match self {
            OrganizeError::NotFound => "Folder not found.".to_owned(),
            OrganizeError::Empty => "No files found in the selected folder".to_owned(),
            OrganizeError::MoveFailed { path, cause } => {
                let mut r = "Could not move ".to_owned();
                r.append(path.as_str());
                r.append(": ");
                r.append(cause.as_str());
                proof {
                    assert(r@ =~= "Could not move "@ + path@ + ": "@ + cause@);
                }
                r
            },
        }
    }
}

/// One move for the shell to carry out: create `dest_folder` (and parents),
/// then relocate `origin` to `destination`.
pub struct MoveCommand {
    pub origin: String,
    pub dest_folder: String,
    pub destination: String,
}

/// What the engine asks of the shell next.
pub enum OrganizeStep {
    /// Perform this move, then report back.
    Move(MoveCommand),
    /// Nothing further: the run is complete or was cancelled.
    Done,
}

/// The entries of a snapshot that the run may move: everything except the
/// organizer's own reserved artifacts.
pub open spec fn spec_eligible(names: Seq<Seq<char>>) -> Seq<Seq<char>> {
    names.filter(|n: Seq<char>| !spec_is_reserved(n))
}

/// A file's original path within the run's directory.
pub open spec fn spec_move_origin(dir: Seq<char>, name: Seq<char>) -> Seq<char> {
    spec_join(dir, name)
}

/// The folder a file is moved into.
pub open spec fn spec_move_dest_folder(
    dir: Seq<char>,
    cats: Seq<(Seq<char>, Seq<Seq<char>>)>,
    name: Seq<char>,
) -> Seq<char> {
    spec_join(dir, spec_dest_rel(spec_category_for(name, cats)))
}

/// The path a file ends up at.
pub open spec fn spec_move_destination(
    dir: Seq<char>,
    cats: Seq<(Seq<char>, Seq<Seq<char>>)>,
    name: Seq<char>,
) -> Seq<char> {
    spec_join(spec_move_dest_folder(dir, cats, name), name)
}

/// The journal record a moved file leaves behind.
pub open spec fn spec_record_for(
    dir: Seq<char>,
    cats: Seq<(Seq<char>, Seq<Seq<char>>)>,
    name: Seq<char>,
) -> (Seq<char>, Seq<char>) {
    (spec_move_destination(dir, cats, name), spec_move_origin(dir, name))
}

/// Filtering a snapshot keeps an entry exactly when it is not reserved.
proof fn lemma_eligible_push(names: Seq<Seq<char>>, x: Seq<char>)
    ensures
        spec_eligible(names.push(x)) == if !spec_is_reserved(x) {
            spec_eligible(names).push(x)
        } else {
            spec_eligible(names)
        },
{
    reveal(Seq::filter);
    let pred = |n: Seq<char>| !spec_is_reserved(n);
    assert(names.push(x).drop_last() =~= names);
    assert(names.push(x).last() == x);
}

/// Keep the eligible entries of a snapshot: everything except the
/// organizer's own reserved artifacts, in snapshot order.
pub fn eligible_files(entries: &Vec<String>) -> (files: Vec<String>)
    ensures
        files.deep_view() == spec_eligible(entries.deep_view()),
        forall|k: int| 0 <= k < files@.len() ==> !spec_is_reserved(#[trigger] files@[k]@),
{
    let ghost em = entries.deep_view();
    let mut files: Vec<String> = Vec::new();
    let mut i: usize = 0;
    proof {
        assert(em.take(0) =~= Seq::<Seq<char>>::empty());
        reveal(Seq::filter);
        assert(files.deep_view() =~= spec_eligible(em.take(0)));
    }
    while i < entries.len()
        invariant
            i <= entries.len(),
            em == entries.deep_view(),
            em.len() == entries@.len(),
            forall|k: int| 0 <= k < entries@.len() ==> em[k] == entries@[k]@,
            files.deep_view() == spec_eligible(em.take(i as int)),
            forall|k: int| 0 <= k < files@.len() ==> !spec_is_reserved(#[trigger] files@[k]@),
        decreases entries.len() - i,
    {
        proof {
            lemma_eligible_push(em.take(i as int), em[i as int]);
            assert(em.take(i + 1) =~= em.take(i as int).push(em[i as int]));
        }
        let ghost before = files.deep_view();
        if !is_reserved(entries[i].as_str()) {
            files.push(entries[i].clone());
            proof {
                assert(files.deep_view() =~= before.push(em[i as int]));
            }
        }
        i += 1;
    }
    proof {
        assert(em.take(entries@.len() as int) =~= em);
    }
    files
}

/// One organization run over one directory snapshot.
pub struct OrganizeRun {
    /// The target directory.
    pub dir: String,
    /// The eligible regular files of the snapshot, in snapshot order.
    pub files: Vec<String>,
    /// The caller-supplied custom categories.
    pub custom: Vec<(String, Vec<String>)>,
    /// How many files have been moved so far.
    pub processed: usize,
    /// One record per moved file, in processing order.
    pub journal: Vec<MoveRecord>,
}

impl OrganizeRun {
    /// The run's invariant: the journal is exactly the record of the
    /// processed prefix, and no reserved artifact is among the files.
    pub open spec fn wf(self) -> bool {
        &&& self.processed <= self.files@.len()
        &&& self.journal@.len() == self.processed
        &&& forall|i: int|
            0 <= i < self.processed ==> records_model(self.journal@)[i] == spec_record_for(
                self.dir@,
                self.custom.deep_view(),
                #[trigger] self.files@[i]@,
            )
        &&& forall|i: int| 0 <= i < self.files@.len() ==> !spec_is_reserved(#[trigger] self.files@[i]@)
    }

    /// Start a run over a snapshot.  Fails when the directory does not
    /// exist, and when the snapshot holds no eligible file; otherwise the
    /// run begins with an empty journal over exactly the eligible entries,
    /// in snapshot order.
    pub fn new(
        dir: String,
        dir_exists: bool,
        entries: Vec<String>,
        custom: Vec<(String, Vec<String>)>,
    ) -> (r: Result<OrganizeRun, OrganizeError>)
        ensures
            match r {
                Ok(run) => {
                    &&& dir_exists
                    &&& run.wf()
                    &&& run.dir == dir
                    &&& run.custom == custom
                    &&& run.processed == 0
                    &&& run.journal@.len() == 0
                    &&& run.files.deep_view() == spec_eligible(entries.deep_view())
                    &&& run.files@.len() > 0
                },
                Err(e) => match e {
                    OrganizeError::NotFound => !dir_exists,
                    OrganizeError::Empty => dir_exists && spec_eligible(
                        entries.deep_view(),
                    ).len() == 0,
                    OrganizeError::MoveFailed { .. } => false,
                },
            },
    {
        if !dir_exists {
            return Err(OrganizeError::NotFound);
        }
        let files = eligible_files(&entries);
        if files.len() == 0 {
            return Err(OrganizeError::Empty);
        }
        let run = OrganizeRun { dir, files, custom, processed: 0, journal: Vec::new() };
        Ok(run)
    }

    /// How many files the run covers.
    pub fn total(&self) -> (n: usize)
        ensures
            n == self.files@.len(),
    {
        self.files.len()
    }

    /// Has every file of the snapshot been processed?
    pub fn is_finished(&self) -> (r: bool)
        ensures
            r == (self.processed == self.files@.len()),
    {
        self.processed == self.files.len()
    }

    /// Decide the next step.  A set cancellation flag, or an exhausted
    /// snapshot, ends the run; otherwise the next file's move command is
    /// produced from the classifier.
    pub fn next_action(&self, cancelled: bool) -> (s: OrganizeStep)
        requires
            self.wf(),
        ensures
            match s {
                OrganizeStep::Done => cancelled || self.processed == self.files@.len(),
                OrganizeStep::Move(cmd) => {
                    &&& !cancelled
                    &&& self.processed < self.files@.len()
                    &&& cmd.origin@ == spec_move_origin(
                        self.dir@,
                        self.files@[self.processed as int]@,
                    )
                    &&& cmd.dest_folder@ == spec_move_dest_folder(
                        self.dir@,
                        self.custom.deep_view(),
                        self.files@[self.processed as int]@,
                    )
                    &&& cmd.destination@ == spec_move_destination(
                        self.dir@,
                        self.custom.deep_view(),
                        self.files@[self.processed as int]@,
                    )
                },
            },
    {
        if cancelled || self.processed >= self.files.len() {
            return OrganizeStep::Done;
        }
        let name = &self.files[self.processed];
        let category = category_for(name.as_str(), &self.custom);
        let rel = dest_rel(&category);
        let origin = join(self.dir.as_str(), name.as_str());
        let dest_folder = join(self.dir.as_str(), rel.as_str());
        let destination = join(dest_folder.as_str(), name.as_str());
        OrganizeStep::Move(MoveCommand { origin, dest_folder, destination })
    }

    /// Record that the shell carried the current file's move out: append its
    /// record to the journal and advance.  (A failed move is never recorded;
    /// the run aborts instead, and the journal written so far stays exact.)
    pub fn record_moved(&mut self)
        requires
            old(self).wf(),
            old(self).processed < old(self).files@.len(),
        ensures
            final(self).wf(),
            final(self).dir == old(self).dir,
            final(self).files == old(self).files,
            final(self).custom == old(self).custom,
            final(self).processed == old(self).processed + 1,
            records_model(final(self).journal@) == records_model(old(self).journal@).push(
                spec_record_for(
                    old(self).dir@,
                    old(self).custom.deep_view(),
                    old(self).files@[old(self).processed as int]@,
                ),
            ),
    {
        let name = &self.files[self.processed];
        let category = category_for(name.as_str(), &self.custom);
        let rel = dest_rel(&category);
        let origin = join(self.dir.as_str(), name.as_str());
        let dest_folder = join(self.dir.as_str(), rel.as_str());
        let destination = join(dest_folder.as_str(), name.as_str());
        let total = self.files.len();
        self.journal.push(MoveRecord { destination, origin });
        proof {
            assert(self.processed < total);
        }
        self.processed = self.processed + 1;
        proof {
            assert(records_model(self.journal@) =~= records_model(old(self).journal@).push(
                spec_record_for(
                    old(self).dir@,
                    old(self).custom.deep_view(),
                    old(self).files@[old(self).processed as int]@,
                ),
            ));
        }
    }

    /// The percentage to report after the moves so far.
    pub fn progress(&self) -> (p: i32)
        requires
            self.wf(),
            self.files@.len() > 0,
        ensures
            p == spec_progress(self.processed as int, self.files@.len() as int),
            0 <= p <= 100,
            self.processed == self.files@.len() ==> p == 100,
    {
        progress_value(self.processed, self.files.len())
    }

    /// The serialized journal, ready to be persisted.  The shell writes it
    /// to the reserved journal file before returning, whether the run
    /// completed, was cancelled, or aborted on a failed move.
    pub fn journal_text(&self) -> (t: String)
        ensures
            t@ == spec_serialize(records_model(self.journal@)),
    {
        serialize_journal(&self.journal)
    }
}

/// After a completed run, every eligible file of the snapshot has exactly
/// one journal record, holding its original path and the destination the
/// classifier implies for its extension — so no file is lost: each is
/// accounted for at a known location.
pub proof fn lemma_run_complete(run: OrganizeRun)
    requires
        run.wf(),
        run.processed == run.files@.len(),
    ensures
        run.journal@.len() == run.files@.len(),
        forall|i: int|
            0 <= i < run.files@.len() ==> records_model(run.journal@)[i] == spec_record_for(
                run.dir@,
                run.custom.deep_view(),
                #[trigger] run.files@[i]@,
            ),
{
}

/// Journal completeness: at every point of a run — completed or cancelled
/// midway — the journal holds exactly one record per file actually moved,
/// no more, no less, in processing order.
pub proof fn lemma_journal_completeness(run: OrganizeRun)
    requires
        run.wf(),
    ensures
        run.journal@.len() == run.processed,
        forall|i: int|
            0 <= i < run.processed ==> records_model(run.journal@)[i] == spec_record_for(
                run.dir@,
                run.custom.deep_view(),
                #[trigger] run.files@[i]@,
            ),
{
}

/// Cancellation after `k` of `n` files: the journal holds exactly `k`
/// records, and none of the remaining `n - k` files is mentioned by any of
/// them — their original paths are untouched by the run.
pub proof fn lemma_cancellation(run: OrganizeRun, k: int)
    requires
        run.wf(),
        run.processed == k,
        forall|i: int, j: int|
            0 <= i < run.files@.len() && 0 <= j < run.files@.len() && i != j
                ==> #[trigger] run.files@[i]@ != #[trigger] run.files@[j]@,
    ensures
        run.journal@.len() == k,
        forall|i: int, j: int|
            #![trigger records_model(run.journal@)[i], run.files@[j]]
            0 <= i < k && k <= j < run.files@.len() ==> records_model(run.journal@)[i].1
                != spec_move_origin(run.dir@, run.files@[j]@),
{
    assert forall|i: int, j: int|
        #![trigger records_model(run.journal@)[i], run.files@[j]]
        0 <= i < k && k <= j < run.files@.len() implies records_model(run.journal@)[i].1
        != spec_move_origin(run.dir@, run.files@[j]@) by {
        assert(records_model(run.journal@)[i].1 == spec_move_origin(run.dir@, run.files@[i]@));
        assert(run.files@[i]@ != run.files@[j]@);
        crate::paths::lemma_join_injective(run.dir@, run.files@[i]@, run.files@[j]@);
    }
}

/// Distinct files never collide: two different eligible files of one run
/// are sent to two different destinations, so no move of the run can
/// overwrite the result of another — together with the completed-run record
/// of every file, no file is lost.  (Names coming from one directory
/// listing are distinct and contain no `/`.)
pub proof fn lemma_destinations_distinct(run: OrganizeRun, i: int, j: int)
    requires
        run.wf(),
        0 <= i < run.files@.len(),
        0 <= j < run.files@.len(),
        run.files@[i]@ != run.files@[j]@,
        !crate::text::spec_contains_char(run.files@[i]@, '/'),
        !crate::text::spec_contains_char(run.files@[j]@, '/'),
    ensures
        spec_move_destination(run.dir@, run.custom.deep_view(), run.files@[i]@)
            != spec_move_destination(run.dir@, run.custom.deep_view(), run.files@[j]@),
{
    let cats = run.custom.deep_view();
    if spec_move_destination(run.dir@, cats, run.files@[i]@) == spec_move_destination(
        run.dir@,
        cats,
        run.files@[j]@,
    ) {
        crate::paths::lemma_join_name_determines(
            spec_move_dest_folder(run.dir@, cats, run.files@[i]@),
            run.files@[i]@,
            spec_move_dest_folder(run.dir@, cats, run.files@[j]@),
            run.files@[j]@,
        );
    }
}

} // verus!
