//! Laws of the storing of images and of the totals of a run.

use vstd::prelude::*;

verus! {

use crate::export::{Counts, Output};
use crate::paths::{place_of, zip_name_text};
use crate::writer::{Totals, WriteDemand, WriteReply, WriteStage, Writer, Writing};

/// Counts may be taken together in any order and grouping, and nothing adds nothing.
pub proof fn law_counts_add_up(a: Counts, b: Counts, c: Counts)
    ensures
        a.plus(b) == b.plus(a),
        a.plus(b).plus(c) == a.plus(b.plus(c)),
        a.plus(Counts::zero()) == a,
{
}

/// An upper bound on the number of answers that a job still takes.
pub open spec fn answers_left(job: Writing) -> nat {
    match job.stage {
        WriteStage::Checking => 2 * job.left(),
        WriteStage::Storing => (2 * job.left() - 1) as nat,
        WriteStage::Done => 0,
    }
}

/// The storing of an icon's images comes to an end: every answer brings it closer.
pub proof fn law_writing_ends(writer: Writer, job: Writing, reply: WriteReply)
    requires
        job.valid(writer),
        job.accepts(reply),
    ensures
        answers_left(writer.after(job, reply).1) < answers_left(job),
{
}

/// Until all images of an icon were gone through, only the numbers of stored and of skipped
/// images change.
pub proof fn law_rest_taken_over_last(writer: Writer, job: Writing, reply: WriteReply)
    requires
        job.valid(writer),
        job.accepts(reply),
        writer.after(job, reply).1.stage != WriteStage::Done,
    ensures
        ({
            let before = writer.totals;
            let (writer_after, job_after) = writer.after(job, reply);
            let after = writer_after.totals;
            &&& after.mappings == before.mappings
            &&& after.stats == Counts {
                archived: after.stats.archived,
                skipped_existing: after.stats.skipped_existing,
                ..before.stats
            }
            &&& job_after.output == job.output
        }),
{
}

/// The answer to a demand; `present` says of each image whether its file is there when it is looked
/// for.
pub open spec fn answered(job: Writing, present: spec_fn(int) -> bool) -> WriteReply {
    match job.stage {
        WriteStage::Checking => if present(job.next) {
            WriteReply::FileExists
        } else {
            WriteReply::FileMissing
        },
        _ => WriteReply::Stored,
    }
}

/// Where the storing of an icon's images ends, and what was stored on the way.
pub open spec fn run(writer: Writer, job: Writing, present: spec_fn(int) -> bool) -> (
    Writer,
    Writing,
    Seq<WriteDemand>,
)
    decreases answers_left(job),
    when job.next < job.output.archive_entries.len() || job.stage == WriteStage::Done
{
    if job.stage == WriteStage::Done {
        (writer, job, seq![])
    } else {
        let (writer_after, job_after) = writer.after(job, answered(job, present));
        let (end, done, rest) = run(writer_after, job_after, present);
        if job.stage == WriteStage::Storing {
            (end, done, seq![writer.demand(job)] + rest)
        } else {
            (end, done, rest)
        }
    }
}

/// Whether image number `i` is stored: in an archive all are, as files those that are missing.
pub open spec fn is_stored(writer: Writer, present: spec_fn(int) -> bool, i: int) -> bool {
    writer.root is None || !present(i)
}

/// What stores image number `i`.
pub open spec fn storing(writer: Writer, output: Output, i: int) -> WriteDemand {
    let entry = output.archive_entries[i];
    match writer.root {
        Some(root) => WriteDemand::Store {
            root,
            place: place_of(entry.sha256, writer.output_format),
            data: entry.data,
        },
        None => WriteDemand::Add {
            name: zip_name_text(entry.sha256, writer.output_format),
            sha256: entry.sha256,
            data: entry.data,
        },
    }
}

/// What stores the images from number `from` on, in their order.
pub open spec fn stored_from(
    writer: Writer,
    output: Output,
    present: spec_fn(int) -> bool,
    from: int,
) -> Seq<WriteDemand>
    decreases output.archive_entries.len() - from,
{
    if from >= output.archive_entries.len() {
        seq![]
    } else if is_stored(writer, present, from) {
        seq![storing(writer, output, from)] + stored_from(writer, output, present, from + 1)
    } else {
        stored_from(writer, output, present, from + 1)
    }
}

/// The totals once an icon was taken care of, with `stored` and `skipped` images of it.
pub open spec fn completed(totals: Totals, output: Output, stored: nat, skipped: nat) -> Totals {
    let sum = totals.stats.plus(output.stats);
    Totals {
        mappings: totals.mappings + output.mappings,
        stats: Counts {
            archived: sum.archived + stored,
            skipped_existing: sum.skipped_existing + skipped,
            ..sum
        },
    }
}

/// What the storing of an icon's images from number `from` on comes to: each image that is not
/// there yet is stored once, in order; those are counted as stored and the others as skipped; and
/// the totals take over the icon's mappings and counts.
pub proof fn law_images_stored(
    writer: Writer,
    output: Output,
    from: int,
    present: spec_fn(int) -> bool,
)
    requires
        0 <= from <= output.archive_entries.len(),
    ensures
        ({
            let (at, job) = writer.at_entry(output, from);
            let (end, done, stores) = run(at, job, present);
            let skipped = (output.archive_entries.len() - from - stores.len()) as nat;
            &&& stores == stored_from(writer, output, present, from)
            &&& stores.len() <= output.archive_entries.len() - from
            &&& end == Writer {
                totals: completed(writer.totals, output, stores.len(), skipped),
                ..writer
            }
            &&& done.stage == WriteStage::Done
            &&& end.demand(done) == WriteDemand::Report { errors: output.errors }
        }),
    decreases output.archive_entries.len() - from,
{
    let (at, job) = writer.at_entry(output, from);
    if from < output.archive_entries.len() {
        let stored = Writer { totals: writer.totals.stored(), ..writer };
        let skipped = Writer { totals: writer.totals.skipped(), ..writer };
        law_images_stored(stored, output, from + 1, present);
        law_images_stored(skipped, output, from + 1, present);
        lemma_stored_from(writer, stored, output, present, from + 1);
        lemma_stored_from(writer, skipped, output, present, from + 1);
        if writer.root is Some && !present(from) {
            let storing_job = Writing { stage: WriteStage::Storing, ..job };
            assert(at.after(job, answered(job, present)) == (writer, storing_job));
            assert(run(at, job, present) == run(writer, storing_job, present));
        }
    }
}

proof fn lemma_stored_from(
    a: Writer,
    b: Writer,
    output: Output,
    present: spec_fn(int) -> bool,
    from: int,
)
    requires
        a.root == b.root,
        a.output_format == b.output_format,
    ensures
        stored_from(a, output, present, from) == stored_from(b, output, present, from),
    decreases output.archive_entries.len() - from,
{
    if from < output.archive_entries.len() {
        lemma_stored_from(a, b, output, present, from + 1);
    }
}

/// An archive gets every image of an icon, one entry for each, in order.
pub proof fn law_archive_gets_all(
    writer: Writer,
    output: Output,
    present: spec_fn(int) -> bool,
    from: int,
)
    requires
        writer.root is None,
        0 <= from <= output.archive_entries.len(),
    ensures
        ({
            let stores = stored_from(writer, output, present, from);
            &&& stores.len() == output.archive_entries.len() - from
            &&& forall|i: int|
                0 <= i < stores.len() ==> #[trigger] stores[i] == storing(
                    writer,
                    output,
                    from + i,
                )
        }),
    decreases output.archive_entries.len() - from,
{
    if from < output.archive_entries.len() {
        law_archive_gets_all(writer, output, present, from + 1);
        let rest = stored_from(writer, output, present, from + 1);
        let stores = stored_from(writer, output, present, from);
        assert forall|i: int| 0 <= i < stores.len() implies #[trigger] stores[i] == storing(
            writer,
            output,
            from + i,
        ) by {
            if i > 0 {
                assert(stores[i] == rest[i - 1]);
            }
        }
    }
}

/// Whether the totals account for every texture that was found: it was stored, seen before, there
/// already or faulty.
pub open spec fn accounted(totals: Totals) -> bool {
    &&& totals.stats.found == totals.mappings.len()
    &&& totals.stats.found == totals.stats.archived + totals.stats.duplicates
        + totals.stats.skipped_existing + totals.stats.errors
    &&& totals.stats.archived <= totals.stats.converted
}

/// The totals of a run account for every texture that was found, and go on to do so with every
/// icon that is taken care of. In an archive everything converted is stored.
pub proof fn law_totals_account_for_all(
    writer: Writer,
    output: Output,
    present: spec_fn(int) -> bool,
)
    requires
        output.balanced(),
        accounted(writer.totals),
    ensures
        accounted(Totals::zero()),
        ({
            let (at, job) = writer.at_entry(output, 0);
            let end = run(at, job, present).0;
            &&& accounted(end.totals)
            &&& writer.root is None && writer.totals.stats.archived
                == writer.totals.stats.converted ==> end.totals.stats.archived
                == end.totals.stats.converted
        }),
{
    law_images_stored(writer, output, 0, present);
    if writer.root is None {
        law_archive_gets_all(writer, output, present, 0);
    }
}

/// What a job asks for: in an archive, to add the image it is at under its name; for files, first
/// whether the image's file is there and then to write it; and at the end, to report the faults.
pub proof fn law_demands(writer: Writer, job: Writing)
    ensures
        ({
            let entry = job.output.archive_entries[job.next];
            let place = place_of(entry.sha256, writer.output_format);
            &&& job.stage == WriteStage::Checking ==> (writer.root matches Some(root)
                ==> writer.demand(job) == (WriteDemand::Check { root, place }))
            &&& job.stage == WriteStage::Storing ==> (writer.root matches Some(root)
                ==> writer.demand(job) == (WriteDemand::Store { root, place, data: entry.data }))
            &&& job.stage == WriteStage::Storing && writer.root is None ==> writer.demand(job) == (
            WriteDemand::Add {
                name: zip_name_text(entry.sha256, writer.output_format),
                sha256: entry.sha256,
                data: entry.data,
            })
            &&& job.stage == WriteStage::Done ==> writer.demand(job) == (WriteDemand::Report {
                errors: job.output.errors,
            })
        }),
{
}

/// Images are gone through one by one: an image that was stored or was there already is counted as
/// such, and the next one follows; one that is missing is stored next.
pub proof fn law_image_by_image(writer: Writer, output: Output, next: int, stage: WriteStage)
    requires
        0 <= next,
        next + 1 < output.archive_entries.len(),
    ensures
        ({
            let job = Writing { output, next, stage };
            let (stored, after_stored) = writer.after(job, WriteReply::Stored);
            let (skipped, after_skipped) = writer.after(job, WriteReply::FileExists);
            let (same, storing) = writer.after(job, WriteReply::FileMissing);
            let first = if writer.root is Some {
                WriteStage::Checking
            } else {
                WriteStage::Storing
            };
            &&& after_stored == (Writing { output, next: next + 1, stage: first })
            &&& after_skipped == (Writing { output, next: next + 1, stage: first })
            &&& storing == (Writing { output, next, stage: WriteStage::Storing })
            &&& same == writer
            &&& stored.root == writer.root && stored.output_format == writer.output_format
            &&& stored.totals.mappings == writer.totals.mappings
            &&& stored.totals.stats.archived == writer.totals.stats.archived + 1
            &&& stored.totals.stats.skipped_existing == writer.totals.stats.skipped_existing
            &&& stored.totals.stats.found == writer.totals.stats.found
            &&& skipped.root == writer.root && skipped.output_format == writer.output_format
            &&& skipped.totals.mappings == writer.totals.mappings
            &&& skipped.totals.stats.archived == writer.totals.stats.archived
            &&& skipped.totals.stats.skipped_existing == writer.totals.stats.skipped_existing + 1
            &&& skipped.totals.stats.found == writer.totals.stats.found
        }),
{
}

/// There is room for an output exactly if every sum can still be counted, whether its images are
/// stored or skipped.
pub proof fn law_room(totals: Totals, output: Output, entries: nat)
    ensures
        totals.has_room(output, entries) <==> {
            &&& totals.stats.found + output.stats.found <= usize::MAX
            &&& totals.stats.converted + output.stats.converted <= usize::MAX
            &&& totals.stats.archived + output.stats.archived + entries <= usize::MAX
            &&& totals.stats.duplicates + output.stats.duplicates <= usize::MAX
            &&& totals.stats.skipped_existing + output.stats.skipped_existing + entries
                <= usize::MAX
            &&& totals.stats.errors + output.stats.errors <= usize::MAX
        },
{
}

/// A run starts without mappings and with all counts at zero.
pub proof fn law_nothing_yet()
    ensures
        Totals::zero().mappings.len() == 0,
        Totals::zero().stats.found == 0,
        Totals::zero().stats.converted == 0,
        Totals::zero().stats.archived == 0,
        Totals::zero().stats.duplicates == 0,
        Totals::zero().stats.skipped_existing == 0,
        Totals::zero().stats.errors == 0,
{
}

/// A job takes the answers to what it asks for, and no others.
pub proof fn law_accepted_answers(job: Writing)
    ensures
        job.accepts(WriteReply::Stored) == (job.stage == WriteStage::Storing),
        job.accepts(WriteReply::FileExists) == (job.stage == WriteStage::Checking),
        job.accepts(WriteReply::FileMissing) == (job.stage == WriteStage::Checking),
{
}

} // verus!
