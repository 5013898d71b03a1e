//! Laws of the processing of an icon.

use vstd::prelude::*;

use crate::config::VERSIONS;
use crate::export::ExportProcessor;

verus! {

use crate::export::{Fate, Mapping, Outcome, Output};
use crate::job::{digest_of, recorded, Answer, Demand, Job, Phase};
use crate::paths::{place_of, texture_path_text, Place};
use crate::tex::TextureFault;

/// An upper bound on the number of answers that a job still takes.
pub open spec fn answers_left(job: Job) -> nat {
    let textures = 2 * (VERSIONS@.len() - 1 - job.version) + if job.hr {
        1int
    } else {
        0int
    };
    match job.phase {
        Phase::Reading => (3 * textures + 3) as nat,
        Phase::Registering { .. } => (3 * textures + 2) as nat,
        Phase::Checking { .. } => (3 * textures + 1) as nat,
        _ => 0,
    }
}

/// A job comes to an end: every answer brings it closer, and an icon takes at most 42.
pub proof fn law_job_ends(processor: ExportProcessor, job: Job, answer: Answer, id: u32)
    requires
        job.valid(),
        job.accepts(answer),
    ensures
        answers_left(job.after(processor, answer)) < answers_left(job),
        answers_left(Job::start(id)) == 42,
{
}

/// Every texture of a valid job that was found is accounted for exactly once.
pub proof fn law_all_accounted_for(job: Job)
    requires
        job.valid(),
    ensures
        job.output.mappings.len() == job.output.archive_entries.len()
            + job.output.stats.duplicates + job.output.stats.skipped_existing
            + job.output.errors.len(),
        job.output.mappings.len() <= 2 * VERSIONS@.len(),
{
}

/// Whether the mapping is one of the icon's.
pub open spec fn maps(mapping: Mapping, id: u32) -> bool {
    &&& mapping.id == id
    &&& exists|v: int| 0 <= v < VERSIONS@.len() && mapping.version == (#[trigger] VERSIONS@[v])@
    &&& exists|data: Seq<u8>| mapping.sha256 == #[trigger] digest_of(data)
}

/// Whether all mappings are the icon's and every image goes by the digest of a mapping.
pub open spec fn belongs(output: Output, id: u32) -> bool {
    &&& forall|i: int| 0 <= i < output.mappings.len() ==> maps(#[trigger] output.mappings[i], id)
    &&& forall|i: int|
        0 <= i < output.archive_entries.len() ==> exists|k: int|
            0 <= k < output.mappings.len() && (#[trigger] output.mappings[k]).sha256 == (
            #[trigger] output.archive_entries[i]).sha256
}

proof fn lemma_recorded_belongs(
    output: Output,
    id: u32,
    v: int,
    hr: bool,
    data: Seq<u8>,
    outcome: Outcome,
)
    requires
        belongs(output, id),
        0 <= v < VERSIONS@.len(),
        outcome matches Ok(Fate::Archived(entry)) ==> entry.sha256 == digest_of(data),
    ensures
        belongs(recorded(output, id, VERSIONS@[v]@, hr, digest_of(data), outcome), id),
{
    let after = recorded(output, id, VERSIONS@[v]@, hr, digest_of(data), outcome);
    let n = output.mappings.len() as int;
    assert(maps(after.mappings[n], id));
    assert forall|i: int| 0 <= i < after.mappings.len() implies maps(
        #[trigger] after.mappings[i],
        id,
    ) by {
        if i < n {
            assert(after.mappings[i] == output.mappings[i]);
        }
    }
    assert forall|i: int| 0 <= i < after.archive_entries.len() implies exists|k: int|
        0 <= k < after.mappings.len() && (#[trigger] after.mappings[k]).sha256 == (
        #[trigger] after.archive_entries[i]).sha256 by {
        if i < output.archive_entries.len() {
            assert(after.archive_entries[i] == output.archive_entries[i]);
            let k = choose|k: int|
                0 <= k < output.mappings.len() && (#[trigger] output.mappings[k]).sha256
                    == output.archive_entries[i].sha256;
            assert(after.mappings[k] == output.mappings[k]);
        } else {
            assert(after.mappings[n].sha256 == after.archive_entries[i].sha256);
        }
    }
}

/// The output of an icon speaks of that icon, of versions that there are and of digests of
/// textures; every image in it goes by the digest of one of its mappings. This holds at the start
/// of a job and every answer keeps it.
pub proof fn law_output_belongs_to_icon(processor: ExportProcessor, job: Job, answer: Answer)
    requires
        job.valid(),
        job.accepts(answer),
        belongs(job.output, job.id),
    ensures
        belongs(job.after(processor, answer).output, job.id),
        job.after(processor, answer).id == job.id,
        belongs(Output::empty(), job.id),
{
    match job.phase {
        Phase::Registering { data, sha256 } => {
            lemma_recorded_belongs(
                job.output,
                job.id,
                job.version,
                job.hr,
                data,
                processor.outcome(data, sha256, answer is Fresh, false),
            );
        },
        Phase::Checking { data, sha256 } => {
            lemma_recorded_belongs(
                job.output,
                job.id,
                job.version,
                job.hr,
                data,
                processor.outcome(data, sha256, true, answer is FileExists),
            );
        },
        _ => {},
    }
}

/// What a job's answers are taken from while nothing else changes: the game data and the files.
pub struct World {
    pub textures: spec_fn(Seq<char>) -> Option<Seq<u8>>,
    pub files: spec_fn(Place) -> bool,
}

/// The answer to a demand, and the digests that were noted once it is given.
pub open spec fn answered(world: World, seen: Set<Seq<char>>, demand: Demand) -> (
    Answer,
    Set<Seq<char>>,
) {
    match demand {
        Demand::Read(path) => match (world.textures)(path) {
            Some(data) => (Answer::Texture(data), seen),
            None => (Answer::NoTexture, seen),
        },
        Demand::Register(sha256) => if seen.contains(sha256) {
            (Answer::Duplicate, seen.insert(sha256))
        } else {
            (Answer::Fresh, seen.insert(sha256))
        },
        Demand::Check(place) => if (world.files)(place) {
            (Answer::FileExists, seen)
        } else {
            (Answer::FileMissing, seen)
        },
        _ => (Answer::NoTexture, seen),
    }
}

/// Where a job ends, and the digests that are noted then.
pub open spec fn run(processor: ExportProcessor, world: World, job: Job, seen: Set<Seq<char>>) -> (
    Job,
    Set<Seq<char>>,
)
    decreases answers_left(job),
    when 0 <= job.version && (job.version < VERSIONS@.len() || job.phase is Finished)
{
    if job.phase is Finished || job.phase is Refused {
        (job, seen)
    } else {
        let (answer, seen) = answered(world, seen, job.demand(processor.output_format));
        run(processor, world, job.after(processor, answer), seen)
    }
}

/// What looking a texture up comes to, if it is there: its digest and what becomes of it.
pub open spec fn lookup(
    processor: ExportProcessor,
    world: World,
    seen: Set<Seq<char>>,
    path: Seq<char>,
) -> Option<(Seq<char>, Outcome)> {
    match (world.textures)(path) {
        Some(data) => {
            let sha256 = digest_of(data);
            let exists = (world.files)(place_of(sha256, processor.output_format));
            Some((sha256, processor.outcome(data, sha256, !seen.contains(sha256), exists)))
        },
        None => None,
    }
}

/// The digests that are noted once a texture was looked up.
pub open spec fn noted(
    world: World,
    seen: Set<Seq<char>>,
    path: Seq<char>,
) -> Set<Seq<char>> {
    match (world.textures)(path) {
        Some(data) => seen.insert(digest_of(data)),
        None => seen,
    }
}

/// Whether the texture that was looked up stands for the icon.
pub open spec fn stands(found: Option<(Seq<char>, Outcome)>) -> bool {
    found matches Some((_, Ok(_)))
}

/// Whether the encoder did not accept the texture that was looked up.
pub open spec fn refused(found: Option<(Seq<char>, Outcome)>) -> bool {
    found matches Some((_, Err(TextureFault::EncoderRefused)))
}

/// `output` with the texture that was looked up, if it was there.
pub open spec fn entered(
    output: Output,
    id: u32,
    v: int,
    hr: bool,
    found: Option<(Seq<char>, Outcome)>,
) -> Output {
    match found {
        Some((sha256, outcome)) => recorded(output, id, VERSIONS@[v]@, hr, sha256, outcome),
        None => output,
    }
}

/// What the versions of an icon from number `v` on come to, added to `output`: of each version the
/// high-resolution texture, and the low-resolution one where that does not stand. Nothing where
/// the encoder does not accept a texture.
pub open spec fn icon_output(
    processor: ExportProcessor,
    world: World,
    id: u32,
    v: int,
    output: Output,
    seen: Set<Seq<char>>,
) -> Option<(Output, Set<Seq<char>>)>
    decreases VERSIONS@.len() - v,
{
    if v >= VERSIONS@.len() {
        Some((output, seen))
    } else {
        let high_path = texture_path_text(id, VERSIONS@[v]@, true);
        let high = lookup(processor, world, seen, high_path);
        let after_high = entered(output, id, v, true, high);
        let seen_high = noted(world, seen, high_path);
        if refused(high) {
            None
        } else if stands(high) {
            icon_output(processor, world, id, v + 1, after_high, seen_high)
        } else {
            let low_path = texture_path_text(id, VERSIONS@[v]@, false);
            let low = lookup(processor, world, seen_high, low_path);
            let after_low = entered(after_high, id, v, false, low);
            let seen_low = noted(world, seen_high, low_path);
            if refused(low) {
                None
            } else {
                icon_output(processor, world, id, v + 1, after_low, seen_low)
            }
        }
    }
}

proof fn lemma_run_texture(
    processor: ExportProcessor,
    world: World,
    job: Job,
    seen: Set<Seq<char>>,
)
    requires
        0 <= job.version < VERSIONS@.len(),
        job.phase is Reading,
    ensures
        ({
            let path = texture_path_text(job.id, job.version_text(), job.hr);
            let found = lookup(processor, world, seen, path);
            let next = match found {
                Some((sha256, outcome)) => job.concluded(sha256, outcome),
                None => job.moved_on(false),
            };
            run(processor, world, job, seen) == run(
                processor,
                world,
                next,
                noted(world, seen, path),
            )
        }),
{
    let path = texture_path_text(job.id, job.version_text(), job.hr);
    match (world.textures)(path) {
        None => {},
        Some(data) => {
            let sha256 = digest_of(data);
            let registering = Job { phase: Phase::Registering { data, sha256 }, ..job };
            assert(job.after(processor, Answer::Texture(data)) == registering);
            assert(run(processor, world, job, seen) == run(processor, world, registering, seen));
            let (answer, seen_after) = answered(
                world,
                seen,
                registering.demand(processor.output_format),
            );
            let second = registering.after(processor, answer);
            assert(run(processor, world, registering, seen) == run(
                processor,
                world,
                second,
                seen_after,
            ));
            let exists = (world.files)(place_of(sha256, processor.output_format));
            let fresh = !seen.contains(sha256);
            let outcome = processor.outcome(data, sha256, fresh, exists);
            if fresh && processor.checks_files() {
                assert(second == (Job { phase: Phase::Checking { data, sha256 }, ..job }));
                let (answer, seen_third) = answered(
                    world,
                    seen_after,
                    second.demand(processor.output_format),
                );
                let third = second.after(processor, answer);
                assert(seen_third == seen_after);
                assert(run(processor, world, second, seen_after) == run(
                    processor,
                    world,
                    third,
                    seen_third,
                ));
                assert(third == job.concluded(sha256, outcome));
            } else {
                assert(second == job.concluded(sha256, outcome));
            }
        },
    }
}

/// The job that stands at the end, with that output.
pub open spec fn finished(id: u32, output: Output) -> Job {
    Job { id, version: VERSIONS@.len() as int, hr: true, output, phase: Phase::Finished }
}

/// What an icon comes to, told by its textures: a job that is run to its end finishes with the
/// output of [`icon_output`], and is refused where there is none.
pub proof fn law_icon_output(
    processor: ExportProcessor,
    world: World,
    job: Job,
    seen: Set<Seq<char>>,
)
    requires
        0 <= job.version < VERSIONS@.len(),
        job.hr,
        job.phase is Reading,
    ensures
        match icon_output(processor, world, job.id, job.version, job.output, seen) {
            Some((output, noted)) => run(processor, world, job, seen) == (
                finished(job.id, output),
                noted,
            ),
            None => run(processor, world, job, seen).0.phase is Refused,
        },
    decreases VERSIONS@.len() - job.version, 0int,
{
    let v = job.version;
    let high_path = texture_path_text(job.id, VERSIONS@[v]@, true);
    let high = lookup(processor, world, seen, high_path);
    let seen_high = noted(world, seen, high_path);
    let after_high = entered(job.output, job.id, v, true, high);
    lemma_run_texture(processor, world, job, seen);
    if refused(high) {
    } else if stands(high) {
        let next = Job { output: after_high, ..job }.moved_on(true);
        lemma_next_version(processor, world, next, seen_high);
    } else {
        let low_job = Job { output: after_high, hr: false, phase: Phase::Reading, ..job };
        lemma_run_texture(processor, world, low_job, seen_high);
        let low_path = texture_path_text(job.id, VERSIONS@[v]@, false);
        let low = lookup(processor, world, seen_high, low_path);
        let seen_low = noted(world, seen_high, low_path);
        let after_low = entered(after_high, job.id, v, false, low);
        if refused(low) {
        } else {
            let next = Job { output: after_low, ..low_job }.moved_on(true);
            lemma_next_version(processor, world, next, seen_low);
        }
    }
}

proof fn lemma_next_version(
    processor: ExportProcessor,
    world: World,
    job: Job,
    seen: Set<Seq<char>>,
)
    requires
        0 <= job.version <= VERSIONS@.len(),
        job.hr,
        job.version == VERSIONS@.len() ==> job.phase is Finished,
        job.version < VERSIONS@.len() ==> job.phase is Reading,
    ensures
        match icon_output(processor, world, job.id, job.version, job.output, seen) {
            Some((output, noted)) => run(processor, world, job, seen) == (
                finished(job.id, output),
                noted,
            ),
            None => run(processor, world, job, seen).0.phase is Refused,
        },
    decreases VERSIONS@.len() - job.version, 1int,
{
    if job.version < VERSIONS@.len() {
        law_icon_output(processor, world, job, seen);
    }
}

/// The digests that were noted once the first `n` of `digests` were noted one after the other.
pub open spec fn after_notes(seen: Set<Seq<char>>, digests: Seq<Seq<char>>, n: int) -> Set<
    Seq<char>,
>
    decreases n,
{
    if n <= 0 {
        seen
    } else {
        after_notes(seen, digests, n - 1).insert(digests[n - 1])
    }
}

/// Whoever notes digests, and in whatever order: a digest is new exactly the first time it is
/// noted. So no two textures of the same content are both converted, whichever icons they belong
/// to.
pub proof fn law_new_the_first_time(seen: Set<Seq<char>>, digests: Seq<Seq<char>>, n: int)
    requires
        0 <= n < digests.len(),
    ensures
        !after_notes(seen, digests, n).contains(digests[n]) <==> !seen.contains(digests[n]) && forall|
            i: int,
        |
            0 <= i < n ==> #[trigger] digests[i] != digests[n],
{
    lemma_after_notes(seen, digests, n, digests[n]);
}

proof fn lemma_after_notes(
    seen: Set<Seq<char>>,
    digests: Seq<Seq<char>>,
    n: int,
    digest: Seq<char>,
)
    requires
        0 <= n <= digests.len(),
    ensures
        after_notes(seen, digests, n).contains(digest) <==> seen.contains(digest) || exists|i: int|
            0 <= i < n && #[trigger] digests[i] == digest,
    decreases n,
{
    if n > 0 {
        lemma_after_notes(seen, digests, n - 1, digest);
        assert(after_notes(seen, digests, n).contains(digest) <==> after_notes(
            seen,
            digests,
            n - 1,
        ).contains(digest) || digests[n - 1] == digest);
    }
}

/// A job looks for files only where images become files below a known directory. This holds at
/// the start of a job and every answer keeps it.
pub proof fn law_files_looked_for(processor: ExportProcessor, job: Job, answer: Answer)
    requires
        job.valid(),
        job.accepts(answer),
        job.phase is Checking ==> processor.checks_files(),
    ensures
        job.after(processor, answer).phase is Checking ==> processor.checks_files(),
        !(Job::start(job.id).phase is Checking),
{
}

/// An image comes to an icon's output only when a digest was found to be new, or later, when its
/// file was found to be missing; any other answer leaves the images as they are.
pub proof fn law_duplicates_add_no_image(processor: ExportProcessor, job: Job, answer: Answer)
    requires
        job.valid(),
        job.accepts(answer),
        job.phase is Checking ==> processor.checks_files(),
        !(answer is Fresh),
        !(answer is FileMissing),
    ensures
        job.after(processor, answer).output.archive_entries == job.output.archive_entries,
{
}

/// Whether all images go by different digests, none of them in `before` and all of them in `seen`,
/// as the digests of all mappings are.
pub open spec fn distinct(output: Output, before: Set<Seq<char>>, seen: Set<Seq<char>>) -> bool {
    &&& before.subset_of(seen)
    &&& forall|i: int|
        0 <= i < output.archive_entries.len() ==> {
            &&& !before.contains((#[trigger] output.archive_entries[i]).sha256)
            &&& seen.contains(output.archive_entries[i].sha256)
        }
    &&& forall|i: int, k: int|
        0 <= i < k < output.archive_entries.len() ==> (
        #[trigger] output.archive_entries[i]).sha256 != (
        #[trigger] output.archive_entries[k]).sha256
    &&& forall|i: int|
        0 <= i < output.mappings.len() ==> seen.contains((#[trigger] output.mappings[i]).sha256)
}

proof fn lemma_entered_distinct(
    processor: ExportProcessor,
    world: World,
    id: u32,
    v: int,
    hr: bool,
    output: Output,
    before: Set<Seq<char>>,
    seen: Set<Seq<char>>,
)
    requires
        0 <= v < VERSIONS@.len(),
        distinct(output, before, seen),
    ensures
        ({
            let path = texture_path_text(id, VERSIONS@[v]@, hr);
            let found = lookup(processor, world, seen, path);
            distinct(entered(output, id, v, hr, found), before, noted(world, seen, path))
        }),
{
    let path = texture_path_text(id, VERSIONS@[v]@, hr);
    let found = lookup(processor, world, seen, path);
    let after = entered(output, id, v, hr, found);
    let later = noted(world, seen, path);
    if let Some(data) = (world.textures)(path) {
        let sha256 = digest_of(data);
        assert(later.contains(sha256));
        assert forall|i: int| 0 <= i < after.archive_entries.len() implies {
            &&& !before.contains((#[trigger] after.archive_entries[i]).sha256)
            &&& later.contains(after.archive_entries[i].sha256)
        } by {
            if i < output.archive_entries.len() {
                assert(after.archive_entries[i] == output.archive_entries[i]);
            }
        }
        assert forall|i: int, k: int| 0 <= i < k < after.archive_entries.len() implies (
        #[trigger] after.archive_entries[i]).sha256 != (
        #[trigger] after.archive_entries[k]).sha256 by {
            assert(after.archive_entries[i] == output.archive_entries[i]);
            if k < output.archive_entries.len() {
                assert(after.archive_entries[k] == output.archive_entries[k]);
            } else {
                assert(after.archive_entries[k].sha256 == sha256);
                assert(!seen.contains(sha256));
            }
        }
        assert forall|i: int| 0 <= i < after.mappings.len() implies later.contains(
            (#[trigger] after.mappings[i]).sha256,
        ) by {
            if i < output.mappings.len() {
                assert(after.mappings[i] == output.mappings[i]);
            }
        }
    }
}

/// No texture is converted twice: the images that the versions of an icon add go by different
/// digests, none of which was noted before, and all digests are noted afterwards.
pub proof fn law_converted_once(
    processor: ExportProcessor,
    world: World,
    id: u32,
    v: int,
    output: Output,
    before: Set<Seq<char>>,
    seen: Set<Seq<char>>,
)
    requires
        0 <= v <= VERSIONS@.len(),
        distinct(output, before, seen),
    ensures
        icon_output(processor, world, id, v, output, seen) matches Some((result, noted))
            ==> distinct(result, before, noted),
        distinct(Output::empty(), seen, seen),
    decreases VERSIONS@.len() - v,
{
    if v < VERSIONS@.len() {
        let high_path = texture_path_text(id, VERSIONS@[v]@, true);
        let high = lookup(processor, world, seen, high_path);
        let after_high = entered(output, id, v, true, high);
        let seen_high = noted(world, seen, high_path);
        lemma_entered_distinct(processor, world, id, v, true, output, before, seen);
        if refused(high) {
        } else if stands(high) {
            law_converted_once(processor, world, id, v + 1, after_high, before, seen_high);
        } else {
            let low_path = texture_path_text(id, VERSIONS@[v]@, false);
            let low = lookup(processor, world, seen_high, low_path);
            let after_low = entered(after_high, id, v, false, low);
            let seen_low = noted(world, seen_high, low_path);
            lemma_entered_distinct(processor, world, id, v, false, after_high, before, seen_high);
            if !refused(low) {
                law_converted_once(processor, world, id, v + 1, after_low, before, seen_low);
            }
        }
    }
}

} // verus!
