//! Laws of a whole run: many jobs, worked on in any order and at the same time, that share the
//! digests they note.

use vstd::prelude::*;

use crate::export::ExportProcessor;

verus! {

use crate::export::{Entry, Fate, Output};
use crate::job::{digest_of, Answer, Job, Phase};
use crate::laws::names::law_archive_names_differ;
use crate::paths::{place_of, zip_name_text, Place};
use crate::tex::{converted, TextureFault};

/// The jobs of a run and the digests that they noted.
#[verifier::ext_equal]
pub struct Run {
    pub jobs: Seq<Job>,
    pub seen: Set<Seq<char>>,
}

/// A run on the icons `ids` that nothing was done in yet.
pub open spec fn start(ids: Seq<u32>) -> Run {
    Run { jobs: ids.map_values(|id: u32| Job::start(id)), seen: Set::empty() }
}

/// Whether job `i` can get that answer next: it asked for it, a digest is said to be new exactly
/// if no job noted it before, and a file is said to be there only in one of the places `files`.
pub open spec fn allowed(
    processor: ExportProcessor,
    files: spec_fn(Place) -> bool,
    run: Run,
    i: int,
    answer: Answer,
) -> bool {
    &&& 0 <= i < run.jobs.len()
    &&& run.jobs[i].accepts(answer)
    &&& match run.jobs[i].phase {
        Phase::Registering { sha256, .. } => answer is Fresh <==> !run.seen.contains(sha256),
        Phase::Checking { sha256, .. } => answer is FileExists ==> files(
            place_of(sha256, processor.output_format),
        ),
        _ => true,
    }
}

/// The run once job `i` got that answer.
pub open spec fn step(processor: ExportProcessor, run: Run, i: int, answer: Answer) -> Run {
    Run {
        jobs: run.jobs.update(i, run.jobs[i].after(processor, answer)),
        seen: match run.jobs[i].phase {
            Phase::Registering { sha256, .. } => run.seen.insert(sha256),
            _ => run.seen,
        },
    }
}

/// Whether job `i` has an image number `k`.
pub open spec fn is_image(run: Run, i: int, k: int) -> bool {
    0 <= i < run.jobs.len() && 0 <= k < run.jobs[i].output.archive_entries.len()
}

/// Image number `k` of job `i`.
pub open spec fn image(run: Run, i: int, k: int) -> Entry {
    run.jobs[i].output.archive_entries[k]
}

/// Whether some job has that image.
pub open spec fn stored(run: Run, entry: Entry) -> bool {
    exists|i: int, k: int| is_image(run, i, k) && #[trigger] image(run, i, k) == entry
}

/// Whether job `i` looks for the file of that digest.
pub open spec fn looks_for(run: Run, i: int, sha256: Seq<char>) -> bool {
    match run.jobs[i].phase {
        Phase::Checking { sha256: own, .. } => own == sha256,
        _ => false,
    }
}

/// Whether some job is still at work on the digest, or was stopped.
pub open spec fn in_work(run: Run, sha256: Seq<char>) -> bool {
    exists|i: int|
        0 <= i < run.jobs.len() && ((#[trigger] run.jobs[i]).phase is Refused || looks_for(
            run,
            i,
            sha256,
        ))
}

/// Whether the texture `data` with that digest was taken care of: it cannot be converted, or a
/// file was there for it, or some job has the image that it becomes.
pub open spec fn settled_by(
    processor: ExportProcessor,
    files: spec_fn(Place) -> bool,
    run: Run,
    sha256: Seq<char>,
    data: Seq<u8>,
) -> bool {
    &&& digest_of(data) == sha256
    &&& match converted(data, processor.output_format) {
        Ok(file) => files(place_of(sha256, processor.output_format)) || stored(
            run,
            Entry { sha256, data: file },
        ),
        Err(_) => true,
    }
}

/// Whether a texture with that digest was taken care of.
pub open spec fn settled(
    processor: ExportProcessor,
    files: spec_fn(Place) -> bool,
    run: Run,
    sha256: Seq<char>,
) -> bool {
    exists|data: Seq<u8>| #[trigger] settled_by(processor, files, run, sha256, data)
}

/// Whether the digests of all mappings were noted.
pub open spec fn noted(output: Output, seen: Set<Seq<char>>) -> bool {
    forall|k: int|
        0 <= k < output.mappings.len() ==> seen.contains((#[trigger] output.mappings[k]).sha256)
}

/// The state of every job: the digest that it is at is that of its texture, it looks for files only
/// where that is called for, and then noted the digest, as those of all mappings.
pub open spec fn jobs_sound(processor: ExportProcessor, run: Run) -> bool {
    forall|i: int|
        0 <= i < run.jobs.len() ==> {
            &&& match (#[trigger] run.jobs[i]).phase {
                Phase::Registering { data, sha256 } => sha256 == digest_of(data),
                Phase::Checking { data, sha256 } => sha256 == digest_of(data)
                    && processor.checks_files() && run.seen.contains(sha256),
                _ => true,
            }
            &&& noted(run.jobs[i].output, run.seen)
        }
}

/// Whether the image was made of a texture, and goes by its digest.
pub open spec fn image_of(processor: ExportProcessor, entry: Entry, data: Seq<u8>) -> bool {
    entry.sha256 == digest_of(data) && converted(data, processor.output_format) == Ok::<
        Seq<u8>,
        TextureFault,
    >(entry.data)
}

/// Whether the image was made of some texture.
pub open spec fn made_of_texture(processor: ExportProcessor, entry: Entry) -> bool {
    exists|data: Seq<u8>| #[trigger] image_of(processor, entry, data)
}

/// The images of all jobs were made of textures, and go by different digests, which were noted.
pub open spec fn images_sound(processor: ExportProcessor, run: Run) -> bool {
    &&& forall|i: int, k: int|
        is_image(run, i, k) ==> run.seen.contains((#[trigger] image(run, i, k)).sha256)
    &&& forall|i: int, k: int|
        is_image(run, i, k) ==> made_of_texture(processor, #[trigger] image(run, i, k))
    &&& forall|i: int, k: int, j: int, l: int|
        is_image(run, i, k) && is_image(run, j, l) && (#[trigger] image(run, i, k)).sha256 == (
        #[trigger] image(run, j, l)).sha256 ==> i == j && k == l
}

/// A digest that a job looks for is no other job's, and there is no image of it yet.
pub open spec fn looks_sound(run: Run) -> bool {
    &&& forall|i: int, j: int, sha256: Seq<char>|
        0 <= i < run.jobs.len() && 0 <= j < run.jobs.len() && #[trigger] looks_for(run, i, sha256)
            && #[trigger] looks_for(run, j, sha256) ==> i == j
    &&& forall|i: int, j: int, l: int|
        0 <= i < run.jobs.len() && is_image(run, j, l) ==> !#[trigger] looks_for(
            run,
            i,
            (#[trigger] image(run, j, l)).sha256,
        )
}

/// Every digest that was noted is in work or taken care of.
pub open spec fn all_settled(
    processor: ExportProcessor,
    files: spec_fn(Place) -> bool,
    run: Run,
) -> bool {
    forall|sha256: Seq<char>| #[trigger]
        run.seen.contains(sha256) ==> in_work(run, sha256) || settled(
            processor,
            files,
            run,
            sha256,
        )
}

/// What holds of a run at all times.
pub open spec fn sound(
    processor: ExportProcessor,
    files: spec_fn(Place) -> bool,
    run: Run,
) -> bool {
    &&& jobs_sound(processor, run)
    &&& images_sound(processor, run)
    &&& looks_sound(run)
    &&& all_settled(processor, files, run)
}

/// A run starts out sound.
pub proof fn law_start_is_sound(
    processor: ExportProcessor,
    files: spec_fn(Place) -> bool,
    ids: Seq<u32>,
)
    ensures
        sound(processor, files, start(ids)),
{
    let run = start(ids);
    assert forall|i: int| 0 <= i < run.jobs.len() implies (#[trigger] run.jobs[i]) == Job::start(
        ids[i],
    ) by {}
}

/// Whether `next` differs from `run` in job `i` only, whose images go on from those it had.
spec fn continues(run: Run, next: Run, i: int) -> bool {
    &&& 0 <= i < run.jobs.len()
    &&& next.jobs.len() == run.jobs.len()
    &&& forall|j: int|
        0 <= j < run.jobs.len() && j != i ==> #[trigger] next.jobs[j] == run.jobs[j]
    &&& run.jobs[i].output.archive_entries.is_prefix_of(next.jobs[i].output.archive_entries)
    &&& run.seen.subset_of(next.seen)
}

proof fn lemma_image_kept(run: Run, next: Run, i: int, j: int, k: int)
    requires
        continues(run, next, i),
        is_image(run, j, k),
    ensures
        is_image(next, j, k),
        image(next, j, k) == image(run, j, k),
{
    if j == i {
        let (a, b) = (run.jobs[i].output.archive_entries, next.jobs[i].output.archive_entries);
        assert(a[k] == b[k]);
    } else {
        assert(next.jobs[j] == run.jobs[j]);
    }
}

proof fn lemma_settled_kept(
    processor: ExportProcessor,
    files: spec_fn(Place) -> bool,
    run: Run,
    next: Run,
    i: int,
    sha256: Seq<char>,
)
    requires
        continues(run, next, i),
        settled(processor, files, run, sha256),
    ensures
        settled(processor, files, next, sha256),
{
    let data = choose|data: Seq<u8>| #[trigger] settled_by(processor, files, run, sha256, data);
    if let Ok(file) = converted(data, processor.output_format) {
        let entry = Entry { sha256, data: file };
        if stored(run, entry) {
            let (j, k) = choose|j: int, k: int|
                is_image(run, j, k) && #[trigger] image(run, j, k) == entry;
            lemma_image_kept(run, next, i, j, k);
            assert(is_image(next, j, k) && image(next, j, k) == entry);
        }
    }
    assert(settled_by(processor, files, next, sha256, data));
}

proof fn lemma_in_work_kept(run: Run, next: Run, i: int, sha256: Seq<char>)
    requires
        continues(run, next, i),
        in_work(run, sha256),
        !(run.jobs[i].phase is Refused),
        !looks_for(run, i, sha256),
    ensures
        in_work(next, sha256),
{
    let j = choose|j: int|
        0 <= j < run.jobs.len() && ((#[trigger] run.jobs[j]).phase is Refused || looks_for(
            run,
            j,
            sha256,
        ));
    assert(next.jobs[j] == run.jobs[j]);
}

proof fn lemma_others_sound(
    processor: ExportProcessor,
    run: Run,
    next: Run,
    i: int,
)
    requires
        continues(run, next, i),
        jobs_sound(processor, run),
        noted(next.jobs[i].output, next.seen),
        match next.jobs[i].phase {
            Phase::Registering { data, sha256 } => sha256 == digest_of(data),
            Phase::Checking { data, sha256 } => sha256 == digest_of(data)
                && processor.checks_files() && next.seen.contains(sha256),
            _ => true,
        },
    ensures
        jobs_sound(processor, next),
{
    assert forall|j: int| 0 <= j < next.jobs.len() implies {
        &&& match (#[trigger] next.jobs[j]).phase {
            Phase::Registering { data, sha256 } => sha256 == digest_of(data),
            Phase::Checking { data, sha256 } => sha256 == digest_of(data)
                && processor.checks_files() && next.seen.contains(sha256),
            _ => true,
        }
        &&& noted(next.jobs[j].output, next.seen)
    } by {
        if j != i {
            assert(next.jobs[j] == run.jobs[j]);
            assert(noted(run.jobs[j].output, run.seen));
        }
    }
}

/// The images of `next` are those of `run`.
proof fn lemma_same_images(processor: ExportProcessor, run: Run, next: Run, i: int)
    requires
        continues(run, next, i),
        images_sound(processor, run),
        next.jobs[i].output.archive_entries == run.jobs[i].output.archive_entries,
    ensures
        images_sound(processor, next),
        forall|j: int, k: int| is_image(next, j, k) == is_image(run, j, k),
        forall|j: int, k: int|
            is_image(run, j, k) ==> #[trigger] image(next, j, k) == image(run, j, k),
{
    assert forall|j: int, k: int| is_image(next, j, k) == is_image(run, j, k) by {
        if 0 <= j < run.jobs.len() && j != i {
            assert(next.jobs[j] == run.jobs[j]);
        }
    }
    assert forall|j: int, k: int| is_image(run, j, k) implies #[trigger] image(next, j, k) == image(
        run,
        j,
        k,
    ) by {
        lemma_image_kept(run, next, i, j, k);
    }
}

/// A step after which job `i` has the same images, noted nothing new and looks for nothing, as
/// before.
proof fn lemma_quiet_step(
    processor: ExportProcessor,
    files: spec_fn(Place) -> bool,
    run: Run,
    next: Run,
    i: int,
)
    requires
        sound(processor, files, run),
        continues(run, next, i),
        next.seen == run.seen,
        next.jobs[i].output.archive_entries == run.jobs[i].output.archive_entries,
        !(run.jobs[i].phase is Checking),
        !(run.jobs[i].phase is Refused),
        !(next.jobs[i].phase is Checking),
        next.jobs[i].phase matches Phase::Registering { data, sha256 } ==> sha256 == digest_of(
            data,
        ),
        noted(next.jobs[i].output, next.seen),
    ensures
        sound(processor, files, next),
{
    lemma_others_sound(processor, run, next, i);
    lemma_same_images(processor, run, next, i);
    lemma_looks_kept(run, next, i);
    assert forall|sha256: Seq<char>| #[trigger] next.seen.contains(sha256) implies in_work(
        next,
        sha256,
    ) || settled(processor, files, next, sha256) by {
        assert(run.seen.contains(sha256));
        if in_work(run, sha256) {
            lemma_in_work_kept(run, next, i, sha256);
        } else {
            lemma_settled_kept(processor, files, run, next, i, sha256);
        }
    }
}

/// Where job `i` looks for nothing and there are no new images, no looking is in the way.
proof fn lemma_looks_kept(run: Run, next: Run, i: int)
    requires
        looks_sound(run),
        continues(run, next, i),
        next.jobs[i].output.archive_entries == run.jobs[i].output.archive_entries,
        !(next.jobs[i].phase is Checking),
    ensures
        looks_sound(next),
{
    assert forall|j: int, sha256: Seq<char>|
        0 <= j < next.jobs.len() && #[trigger] looks_for(next, j, sha256) implies j != i
        && looks_for(run, j, sha256) by {
        if j != i {
            assert(next.jobs[j] == run.jobs[j]);
        }
    }
    assert forall|j: int, k: int| is_image(next, j, k) implies is_image(run, j, k) && #[trigger] image(
        next,
        j,
        k,
    ) == image(run, j, k) by {
        if j != i {
            assert(next.jobs[j] == run.jobs[j]);
        }
    }
}

/// A step in which job `i` notes a new digest and starts to look for its file.
proof fn lemma_look_step(
    processor: ExportProcessor,
    files: spec_fn(Place) -> bool,
    run: Run,
    next: Run,
    i: int,
    data: Seq<u8>,
    sha256: Seq<char>,
)
    requires
        sound(processor, files, run),
        continues(run, next, i),
        run.jobs[i].phase == (Phase::Registering { data, sha256 }),
        next.jobs[i] == (Job { phase: Phase::Checking { data, sha256 }, ..run.jobs[i] }),
        !run.seen.contains(sha256),
        next.seen == run.seen.insert(sha256),
        processor.checks_files(),
    ensures
        sound(processor, files, next),
{
    assert(noted(run.jobs[i].output, run.seen));
    lemma_others_sound(processor, run, next, i);
    lemma_same_images(processor, run, next, i);
    assert forall|j: int, other: Seq<char>|
        0 <= j < next.jobs.len() && #[trigger] looks_for(next, j, other) implies if j == i {
        other == sha256
    } else {
        looks_for(run, j, other) && run.seen.contains(other)
    } by {
        if j != i {
            assert(next.jobs[j] == run.jobs[j]);
        }
    }
    assert(looks_sound(next));
    assert forall|other: Seq<char>| #[trigger] next.seen.contains(other) implies in_work(
        next,
        other,
    ) || settled(processor, files, next, other) by {
        if other == sha256 {
            assert(looks_for(next, i, sha256));
            assert(next.jobs[i].phase is Checking);
        } else {
            assert(run.seen.contains(other));
            if in_work(run, other) {
                lemma_in_work_kept(run, next, i, other);
            } else {
                lemma_settled_kept(processor, files, run, next, i, other);
            }
        }
    }
}

/// The next state where job `i` is done with a texture that can be converted, and has its image.
proof fn lemma_new_image(
    processor: ExportProcessor,
    run: Run,
    next: Run,
    i: int,
    entry: Entry,
)
    requires
        images_sound(processor, run),
        looks_sound(run),
        continues(run, next, i),
        next.jobs[i].output.archive_entries == run.jobs[i].output.archive_entries.push(entry),
        made_of_texture(processor, entry),
        next.seen.contains(entry.sha256),
        forall|j: int, k: int|
            is_image(run, j, k) ==> (#[trigger] image(run, j, k)).sha256 != entry.sha256,
        forall|j: int|
            0 <= j < run.jobs.len() && j != i ==> !#[trigger] looks_for(run, j, entry.sha256),
        !(next.jobs[i].phase is Checking),
    ensures
        images_sound(processor, next),
        looks_sound(next),
        stored(next, entry),
{
    let last = run.jobs[i].output.archive_entries.len() as int;
    assert(is_image(next, i, last) && image(next, i, last) == entry);
    assert forall|j: int, k: int| is_image(next, j, k) implies if j == i && k == last {
        #[trigger] image(next, j, k) == entry
    } else {
        is_image(run, j, k) && image(next, j, k) == image(run, j, k)
    } by {
        if j != i {
            assert(next.jobs[j] == run.jobs[j]);
        }
    }
    assert forall|j: int, sha256: Seq<char>|
        0 <= j < next.jobs.len() && #[trigger] looks_for(next, j, sha256) implies j != i
        && looks_for(run, j, sha256) by {
        if j != i {
            assert(next.jobs[j] == run.jobs[j]);
        }
    }
}

/// A step in which job `i` is done with a texture whose digest is new, or was until now looked
/// for by this job alone.
proof fn lemma_conclude_step(
    processor: ExportProcessor,
    files: spec_fn(Place) -> bool,
    run: Run,
    i: int,
    data: Seq<u8>,
    sha256: Seq<char>,
    exists_already: bool,
)
    requires
        sound(processor, files, run),
        0 <= i < run.jobs.len(),
        sha256 == digest_of(data),
        !(run.jobs[i].phase is Refused),
        run.jobs[i].phase is Checking ==> looks_for(run, i, sha256),
        forall|j: int, k: int|
            is_image(run, j, k) ==> (#[trigger] image(run, j, k)).sha256 != sha256,
        forall|j: int| 0 <= j < run.jobs.len() && j != i ==> !#[trigger] looks_for(run, j, sha256),
        processor.checks_files() && exists_already ==> files(
            place_of(sha256, processor.output_format),
        ),
    ensures
        sound(
            processor,
            files,
            Run {
                jobs: run.jobs.update(
                    i,
                    run.jobs[i].concluded(
                        sha256,
                        processor.outcome(data, sha256, true, exists_already),
                    ),
                ),
                seen: run.seen.insert(sha256),
            },
        ),
{
    let job = run.jobs[i];
    let outcome = processor.outcome(data, sha256, true, exists_already);
    let after = job.concluded(sha256, outcome);
    let next = Run { jobs: run.jobs.update(i, after), seen: run.seen.insert(sha256) };
    assert(noted(job.output, run.seen));
    assert(noted(after.output, next.seen)) by {
        assert forall|k: int| 0 <= k < after.output.mappings.len() implies next.seen.contains(
            (#[trigger] after.output.mappings[k]).sha256,
        ) by {
            if k < job.output.mappings.len() {
                assert(after.output.mappings[k] == job.output.mappings[k]);
            }
        }
    }
    assert(continues(run, next, i));
    lemma_others_sound(processor, run, next, i);
    if let Ok(Fate::Archived(entry)) = outcome {
        assert(image_of(processor, entry, data));
        lemma_new_image(processor, run, next, i, entry);
    } else {
        lemma_same_images(processor, run, next, i);
        lemma_looks_kept(run, next, i);
    }
    assert forall|other: Seq<char>| #[trigger] next.seen.contains(other) implies in_work(
        next,
        other,
    ) || settled(processor, files, next, other) by {
        if other == sha256 {
            if after.phase is Refused {
                assert(next.jobs[i].phase is Refused);
            } else {
                assert(settled_by(processor, files, next, sha256, data));
            }
        } else {
            assert(run.seen.contains(other));
            if in_work(run, other) {
                lemma_in_work_kept(run, next, i, other);
            } else {
                lemma_settled_kept(processor, files, run, next, i, other);
            }
        }
    }
}

/// Whichever job gets its answer next, the run stays sound: all images were made of textures and
/// go by different digests, and every texture that was found is in work or taken care of.
pub proof fn law_step_is_sound(
    processor: ExportProcessor,
    files: spec_fn(Place) -> bool,
    run: Run,
    i: int,
    answer: Answer,
)
    requires
        sound(processor, files, run),
        allowed(processor, files, run, i, answer),
    ensures
        sound(processor, files, step(processor, run, i, answer)),
{
    let job = run.jobs[i];
    let next = step(processor, run, i, answer);
    assert(noted(job.output, run.seen));
    match job.phase {
        Phase::Registering { data, sha256 } => {
            if answer is Duplicate {
                let after = next.jobs[i];
                assert(next.seen =~= run.seen);
                assert forall|k: int| 0 <= k < after.output.mappings.len() implies next.seen.contains(
                    (#[trigger] after.output.mappings[k]).sha256,
                ) by {
                    if k < job.output.mappings.len() {
                        assert(after.output.mappings[k] == job.output.mappings[k]);
                    }
                }
                lemma_quiet_step(processor, files, run, next, i);
            } else if processor.checks_files() {
                lemma_look_step(processor, files, run, next, i, data, sha256);
            } else {
                assert forall|j: int| 0 <= j < run.jobs.len() && j != i implies !#[trigger] looks_for(
                    run,
                    j,
                    sha256,
                ) by {
                    assert(run.jobs[j].phase matches Phase::Checking { sha256: own, .. }
                        ==> run.seen.contains(own));
                }
                lemma_conclude_step(processor, files, run, i, data, sha256, false);
            }
        },
        Phase::Checking { data, sha256 } => {
            assert(looks_for(run, i, sha256));
            assert(next.seen =~= run.seen.insert(sha256));
            lemma_conclude_step(processor, files, run, i, data, sha256, answer is FileExists);
        },
        _ => {
            lemma_quiet_step(processor, files, run, next, i);
        },
    }
}

/// What a run comes to once all its jobs are finished: for every mapping of every job there is
/// the image of a texture with that digest in the output of some job, unless a file was there for
/// it or it cannot be converted.
pub proof fn law_every_mapping_has_its_image(
    processor: ExportProcessor,
    files: spec_fn(Place) -> bool,
    run: Run,
    i: int,
    k: int,
)
    requires
        sound(processor, files, run),
        forall|j: int| 0 <= j < run.jobs.len() ==> (#[trigger] run.jobs[j]).phase is Finished,
        0 <= i < run.jobs.len(),
        0 <= k < run.jobs[i].output.mappings.len(),
    ensures
        settled(processor, files, run, run.jobs[i].output.mappings[k].sha256),
{
    let sha256 = run.jobs[i].output.mappings[k].sha256;
    assert(noted(run.jobs[i].output, run.seen));
    assert(run.seen.contains(sha256));
    assert(!in_work(run, sha256));
}

/// No two images of a run get the same name in the archive.
pub proof fn law_archive_entries_differ(
    processor: ExportProcessor,
    files: spec_fn(Place) -> bool,
    run: Run,
    i: int,
    k: int,
    j: int,
    l: int,
)
    requires
        sound(processor, files, run),
        is_image(run, i, k),
        is_image(run, j, l),
        zip_name_text(image(run, i, k).sha256, processor.output_format) == zip_name_text(
            image(run, j, l).sha256,
            processor.output_format,
        ),
    ensures
        i == j,
        k == l,
{
    let (a, b) = (image(run, i, k), image(run, j, l));
    assert(made_of_texture(processor, a) && made_of_texture(processor, b));
    let x = choose|data: Seq<u8>| #[trigger] image_of(processor, a, data);
    let y = choose|data: Seq<u8>| #[trigger] image_of(processor, b, data);
    crate::digest::lemma_hex(crate::digest::sha256(x));
    crate::digest::lemma_hex(crate::digest::sha256(y));
    law_archive_names_differ(a.sha256, b.sha256, processor.output_format);
}

} // verus!
