//! Laws of what one texture adds to the output of its icon.

use vstd::prelude::*;

use crate::config::{OutputFormat, OutputMode, VERSIONS};
use crate::export::ExportProcessor;

verus! {

use crate::export::{Counts, Entry, Fate, Mapping, Outcome, Output};
use crate::job::{digest_of, recorded, Answer, Demand, Job, Phase};
use crate::paths::texture_path_text;
use crate::tex::{converted, TextureFault};

/// The versions that are looked up, in their order.
pub proof fn law_versions()
    ensures
        VERSIONS@.len() == 7,
        VERSIONS@[0]@ == ""@,
        VERSIONS@[1]@ == "/en"@,
        VERSIONS@[2]@ == "/ja"@,
        VERSIONS@[3]@ == "/fr"@,
        VERSIONS@[4]@ == "/de"@,
        VERSIONS@[5]@ == "/hq"@,
        VERSIONS@[6]@ == "/chs"@,
        crate::config::START_ID == 0,
        crate::config::END_ID_EXCLUSIVE == 1_000_000,
        crate::config::WEBP_QUALITY == 50,
{
}

/// Whether the images of a run become files below a known directory.
pub open spec fn writes_files(processor: ExportProcessor) -> bool {
    processor.output_mode == OutputMode::Files && processor.output_root is Some
}

/// Whether the job reads the texture of that version and resolution next, or is finished where
/// there is no such version.
pub open spec fn reads_next(job: Job, id: u32, version: int, hr: bool) -> bool {
    &&& job.id == id
    &&& job.version == version
    &&& job.hr == hr
    &&& job.phase == if version < 7 {
        Phase::Reading
    } else {
        Phase::Finished
    }
}

/// Whether the job goes on where the texture that it is at does not stand for its version: with
/// the low resolution after the high one, with the next version after the low one.
pub open spec fn tries_again(before: Job, after: Job) -> bool {
    if before.hr {
        reads_next(after, before.id, before.version, false)
    } else {
        reads_next(after, before.id, before.version + 1, true)
    }
}

/// Whether the job goes on with the next version.
pub open spec fn goes_on(before: Job, after: Job) -> bool {
    reads_next(after, before.id, before.version + 1, true)
}

/// Whether the mapping of the texture that the job is at was added, and one more texture counted as
/// found; of the others, these numbers more.
pub open spec fn adds(
    job: Job,
    after: Output,
    sha256: Seq<char>,
    converted: nat,
    duplicates: nat,
    existing: nat,
    errors: nat,
) -> bool {
    let before = job.output;
    &&& after.mappings.len() == before.mappings.len() + 1
    &&& after.mappings.drop_last() == before.mappings
    &&& after.mappings.last().id == job.id
    &&& after.mappings.last().version == VERSIONS@[job.version]@
    &&& after.mappings.last().hr == job.hr
    &&& after.mappings.last().sha256 == sha256
    &&& after.stats.found == before.stats.found + 1
    &&& after.stats.converted == before.stats.converted + converted
    &&& after.stats.archived == before.stats.archived
    &&& after.stats.duplicates == before.stats.duplicates + duplicates
    &&& after.stats.skipped_existing == before.stats.skipped_existing + existing
    &&& after.stats.errors == before.stats.errors + errors
}

/// A job starts with the high-resolution texture of the first version, and with nothing found.
pub proof fn law_first_texture(id: u32)
    ensures
        reads_next(Job::start(id), id, 0, true),
        Job::start(id).output.mappings == Seq::<Mapping>::empty(),
        Job::start(id).output.archive_entries == Seq::<Entry>::empty(),
        Job::start(id).output.errors == Seq::<Seq<char>>::empty(),
        Job::start(id).output.stats.found == 0,
        Job::start(id).output.stats.converted == 0,
        Job::start(id).output.stats.archived == 0,
        Job::start(id).output.stats.duplicates == 0,
        Job::start(id).output.stats.skipped_existing == 0,
        Job::start(id).output.stats.errors == 0,
{
}

/// What a job asks for: the texture that it is at, its digest, the place of its image, and at the
/// end nothing.
pub proof fn law_demands(job: Job, output_format: OutputFormat)
    requires
        0 <= job.version <= 7,
    ensures
        job.phase is Reading ==> job.demand(output_format) == Demand::Read(
            texture_path_text(job.id, VERSIONS@[job.version]@, job.hr),
        ),
        job.phase matches Phase::Registering { data, sha256 } ==> job.demand(output_format)
            == Demand::Register(sha256),
        job.phase matches Phase::Checking { data, sha256 } ==> job.demand(output_format)
            == Demand::Check(crate::paths::place_of(sha256, output_format)),
        job.phase is Finished ==> job.demand(output_format) is Finish,
        job.phase is Refused ==> job.demand(output_format) is Abort,
{
}

/// A texture that is there is taken for what it is, and its digest is noted next; one that is not
/// there adds nothing.
pub proof fn law_reading(processor: ExportProcessor, job: Job, data: Seq<u8>)
    requires
        0 <= job.version < 7,
        job.phase is Reading,
    ensures
        ({
            let read = job.after(processor, Answer::Texture(data));
            let missing = job.after(processor, Answer::NoTexture);
            &&& read.phase == (Phase::Registering { data, sha256: digest_of(data) })
            &&& read.id == job.id && read.version == job.version && read.hr == job.hr
            &&& read.output == job.output
            &&& missing.output == job.output
            &&& tries_again(job, missing)
        }),
{
}

/// A texture that was seen before is mapped and counted as a duplicate.
pub proof fn law_duplicate(
    processor: ExportProcessor,
    job: Job,
    data: Seq<u8>,
    sha256: Seq<char>,
)
    requires
        0 <= job.version < 7,
        job.phase == (Phase::Registering { data, sha256 }),
    ensures
        ({
            let after = job.after(processor, Answer::Duplicate);
            &&& goes_on(job, after)
            &&& adds(job, after.output, sha256, 0, 1, 0, 0)
            &&& after.output.archive_entries == job.output.archive_entries
            &&& after.output.errors == job.output.errors
        }),
{
    let after = job.after(processor, Answer::Duplicate);
    assert(after.output.mappings.drop_last() =~= job.output.mappings);
}

/// Where images become files, a new texture has its file looked for; one that is there is mapped
/// and counted as such.
pub proof fn law_existing_file(
    processor: ExportProcessor,
    job: Job,
    data: Seq<u8>,
    sha256: Seq<char>,
)
    requires
        0 <= job.version < 7,
        writes_files(processor),
    ensures
        job.phase == (Phase::Registering { data, sha256 }) ==> ({
            let after = job.after(processor, Answer::Fresh);
            &&& after.phase == (Phase::Checking { data, sha256 })
            &&& after.id == job.id && after.version == job.version && after.hr == job.hr
            &&& after.output == job.output
        }),
        job.phase == (Phase::Checking { data, sha256 }) ==> ({
            let after = job.after(processor, Answer::FileExists);
            &&& goes_on(job, after)
            &&& adds(job, after.output, sha256, 0, 0, 1, 0)
            &&& after.output.archive_entries == job.output.archive_entries
            &&& after.output.errors == job.output.errors
        }),
{
    let after = job.after(processor, Answer::FileExists);
    if job.phase == (Phase::Checking { data, sha256 }) {
        assert(after.output.mappings.drop_last() =~= job.output.mappings);
    }
}

/// The answer after which a new texture is converted: the digest is new, or, where images become
/// files, the file is missing.
pub open spec fn is_converted_on(
    processor: ExportProcessor,
    job: Job,
    data: Seq<u8>,
    sha256: Seq<char>,
    answer: Answer,
) -> bool {
    if writes_files(processor) {
        job.phase == (Phase::Checking { data, sha256 }) && answer is FileMissing
    } else {
        job.phase == (Phase::Registering { data, sha256 }) && answer is Fresh
    }
}

/// A new texture is converted. Its image is added under its digest; a fault is added under its
/// name and leads to the low resolution; an image that the encoder does not accept ends the job.
pub proof fn law_new_texture(
    processor: ExportProcessor,
    job: Job,
    data: Seq<u8>,
    sha256: Seq<char>,
    answer: Answer,
)
    requires
        0 <= job.version < 7,
        is_converted_on(processor, job, data, sha256, answer),
    ensures
        ({
            let after = job.after(processor, answer);
            let path = texture_path_text(job.id, VERSIONS@[job.version]@, job.hr);
            match converted(data, processor.output_format) {
                Ok(file) => {
                    &&& goes_on(job, after)
                    &&& adds(job, after.output, sha256, 1, 0, 0, 0)
                    &&& after.output.archive_entries == job.output.archive_entries.push(
                        Entry { sha256, data: file },
                    )
                    &&& after.output.errors == job.output.errors
                },
                Err(TextureFault::EncoderRefused) => {
                    &&& after.phase is Refused
                    &&& after.output == job.output
                },
                Err(fault) => {
                    &&& tries_again(job, after)
                    &&& adds(job, after.output, sha256, 0, 0, 0, 1)
                    &&& after.output.archive_entries == job.output.archive_entries
                    &&& after.output.errors == job.output.errors.push(
                        path + ": "@ + fault.message(),
                    )
                },
            }
        }),
{
    let after = job.after(processor, answer);
    if !(after.phase is Refused) {
        assert(after.output.mappings.drop_last() =~= job.output.mappings);
    }
}

/// What becomes of a texture: nothing new if its digest was noted before; else nothing if it is
/// stored already and images become files; else it is converted.
pub proof fn law_outcome(
    processor: ExportProcessor,
    data: Seq<u8>,
    sha256: Seq<char>,
    fresh: bool,
    present: bool,
)
    ensures
        ({
            let outcome = processor.outcome(data, sha256, fresh, present);
            &&& !fresh ==> outcome == Ok::<Fate, TextureFault>(Fate::Duplicate)
            &&& fresh && present && writes_files(processor) ==> outcome == Ok::<
                Fate,
                TextureFault,
            >(Fate::ExistingFile)
            &&& fresh && !(present && writes_files(processor)) ==> match converted(
                data,
                processor.output_format,
            ) {
                Ok(file) => outcome == Ok::<Fate, TextureFault>(
                    Fate::Archived(Entry { sha256, data: file }),
                ),
                Err(fault) => outcome == Err::<Fate, TextureFault>(fault),
            }
            &&& processor.checks_files() == writes_files(processor)
        }),
{
}

/// Whatever becomes of a texture, the mapping that is added says where it was read and what its
/// digest is.
pub proof fn law_recorded_mapping(
    output: Output,
    id: u32,
    version: Seq<char>,
    hr: bool,
    sha256: Seq<char>,
    outcome: Outcome,
)
    ensures
        ({
            let after = recorded(output, id, version, hr, sha256, outcome);
            &&& after.mappings == output.mappings.push(Mapping { id, version, hr, sha256 })
            &&& after.stats.found == output.stats.found + 1
        }),
{
}

/// Whether the mapping names a texture that there is, and has its digest.
pub open spec fn names_texture(
    textures: spec_fn(Seq<char>) -> Option<Seq<u8>>,
    mapping: Mapping,
) -> bool {
    textures(texture_path_text(mapping.id, mapping.version, mapping.hr)) matches Some(data)
        && mapping.sha256 == digest_of(data)
}

/// Whether all mappings name textures, and the texture that the job is at was read where it says.
pub open spec fn names_textures(
    textures: spec_fn(Seq<char>) -> Option<Seq<u8>>,
    job: Job,
) -> bool {
    let path = texture_path_text(job.id, VERSIONS@[job.version]@, job.hr);
    &&& forall|k: int|
        0 <= k < job.output.mappings.len() ==> names_texture(
            textures,
            #[trigger] job.output.mappings[k],
        )
    &&& match job.phase {
        Phase::Registering { data, sha256 } => textures(path) == Some(data) && sha256 == digest_of(
            data,
        ),
        Phase::Checking { data, sha256 } => textures(path) == Some(data) && sha256 == digest_of(
            data,
        ),
        _ => true,
    }
}

/// Every mapping names, by its icon, version and resolution, the path of the texture that it was
/// made for, and has the digest of what was read there. This holds at the start of a job and every
/// answer keeps it, where the texture that is asked for is the one that is handed over.
pub proof fn law_mappings_name_textures(
    processor: ExportProcessor,
    textures: spec_fn(Seq<char>) -> Option<Seq<u8>>,
    job: Job,
    answer: Answer,
)
    requires
        0 <= job.version < 7,
        job.accepts(answer),
        names_textures(textures, job),
        answer matches Answer::Texture(data) ==> (job.demand(
            processor.output_format,
        ) matches Demand::Read(path) && textures(path) == Some(data)),
    ensures
        names_textures(textures, job.after(processor, answer)),
        names_textures(textures, Job::start(job.id)),
{
    let after = job.after(processor, answer);
    assert forall|k: int| 0 <= k < after.output.mappings.len() implies names_texture(
        textures,
        #[trigger] after.output.mappings[k],
    ) by {
        if k < job.output.mappings.len() {
            assert(after.output.mappings[k] == job.output.mappings[k]);
        }
    }
}

/// Both counts taken together are, of each kind, the sum; none at all is zero of each.
pub proof fn law_sums(a: Counts, b: Counts)
    ensures
        a.plus(b).found == a.found + b.found,
        a.plus(b).converted == a.converted + b.converted,
        a.plus(b).archived == a.archived + b.archived,
        a.plus(b).duplicates == a.duplicates + b.duplicates,
        a.plus(b).skipped_existing == a.skipped_existing + b.skipped_existing,
        a.plus(b).errors == a.errors + b.errors,
        Counts::zero().found == 0,
        Counts::zero().converted == 0,
        Counts::zero().archived == 0,
        Counts::zero().duplicates == 0,
        Counts::zero().skipped_existing == 0,
        Counts::zero().errors == 0,
{
}

/// A job takes the answers to what it asks for, and no others.
pub proof fn law_accepted_answers(job: Job, data: Seq<u8>)
    ensures
        job.accepts(Answer::Texture(data)) == (job.phase is Reading),
        job.accepts(Answer::NoTexture) == (job.phase is Reading),
        job.accepts(Answer::Fresh) == (job.phase is Registering),
        job.accepts(Answer::Duplicate) == (job.phase is Registering),
        job.accepts(Answer::FileExists) == (job.phase is Checking),
        job.accepts(Answer::FileMissing) == (job.phase is Checking),
{
}

} // verus!
