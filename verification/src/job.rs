//! The processing of one icon, as a job that asks for what it cannot do itself.
//!
//! A job asks to read a texture, to note a digest, or to look whether a file is there. Its caller
//! does so and answers, until the job is finished.

use vstd::prelude::*;

use crate::config::VERSIONS;
use crate::digest::hex_sha256;
use crate::export::{ExportProcessor, ExportStats, IdOutput, MappingEntry, ProcessResult};
use crate::paths::{encoded_relative_path, texture_path, EncodedPath};
use crate::tex::TextureError;

verus! {

use crate::export::{Counts, Fate, Mapping, Outcome, Output};

/// The outcome that a result stands for.
pub open spec fn outcome_of(result: Result<ProcessResult, TextureError>) -> Outcome {
    match result {
        Ok(result) => Ok(result@),
        Err(error) => Err(error@),
    }
}

/// `output` with a texture that was found and what became of it.
pub open spec fn recorded(
    output: Output,
    id: u32,
    version: Seq<char>,
    hr: bool,
    sha256: Seq<char>,
    outcome: Outcome,
) -> Output {
    let found = output.stats.found + 1;
    let mappings = output.mappings.push(Mapping { id, version, hr, sha256 });
    match outcome {
        Ok(Fate::Archived(entry)) => Output {
            mappings,
            archive_entries: output.archive_entries.push(entry),
            stats: Counts { found, converted: output.stats.converted + 1, ..output.stats },
            ..output
        },
        Ok(Fate::Duplicate) => Output {
            mappings,
            stats: Counts { found, duplicates: output.stats.duplicates + 1, ..output.stats },
            ..output
        },
        Ok(Fate::ExistingFile) => Output {
            mappings,
            stats: Counts {
                found,
                skipped_existing: output.stats.skipped_existing + 1,
                ..output.stats
            },
            ..output
        },
        Err(fault) => Output {
            mappings,
            stats: Counts { found, errors: output.stats.errors + 1, ..output.stats },
            errors: output.errors.push(
                crate::paths::texture_path_text(id, version, hr) + ": "@ + fault.message(),
            ),
            ..output
        },
    }
}

impl ExportProcessor {
    /// Enters a texture that was found, and what became of it, in the icon's output. Says whether
    /// the icon has its texture now; a faulty one does not count.
    pub fn process_path(
        &self,
        id: u32,
        version: &str,
        hr: bool,
        sha256: String,
        result: Result<ProcessResult, TextureError>,
        output: &mut IdOutput,
    ) -> (r: bool)
        requires
            old(output)@.stats.within((usize::MAX - 1) as nat),
            outcome_of(result) != Err::<Fate, _>(crate::tex::TextureFault::EncoderRefused),
        ensures
            final(output)@ == recorded(
                old(output)@,
                id,
                version@,
                hr,
                sha256@,
                outcome_of(result),
            ),
            r == (result is Ok),
            final(output).mappings@.len() == old(output).mappings@.len() + 1,
            final(output).mappings@.drop_last() == old(output).mappings@,
            final(output).mappings@.last().id == id,
            final(output).mappings@.last().version@ == version@,
            final(output).mappings@.last().hr == hr,
            final(output).mappings@.last().sha256@ == sha256@,
    {
        let ghost before = output@;
        let entry = MappingEntry { id, version: version.to_owned(), hr, sha256 };
        output.stats.found = output.stats.found + 1;
        output.mappings.push(entry);
        assert(output@.mappings == before.mappings.push(entry@));
        let settled = match result {
            Ok(ProcessResult::Archived(entry)) => {
                output.stats.converted = output.stats.converted + 1;
                output.archive_entries.push(entry);
                assert(output@.archive_entries == before.archive_entries.push(entry@));
                true
            },
            Ok(ProcessResult::Duplicate) => {
                output.stats.duplicates = output.stats.duplicates + 1;
                true
            },
            Ok(ProcessResult::ExistingFile) => {
                output.stats.skipped_existing = output.stats.skipped_existing + 1;
                true
            },
            Err(error) => {
                output.stats.errors = output.stats.errors + 1;
                let mut line = texture_path(id, version, hr);
                line.append(": ");
                line.append(error.message().as_str());
                output.errors.push(line);
                assert(output@.errors == before.errors.push(line@));
                false
            },
        };
        assert(output@ == recorded(before, id, version@, hr, sha256@, outcome_of(result)));
        settled
    }
}

/// How far the job is with the texture that it is at.
#[derive(Debug)]
enum Stage {
    /// The texture is to be read.
    Reading,
    /// It was read, and its digest is to be noted.
    Registering { data: Vec<u8>, sha256: String },
    /// Its digest is new, and its image is to be looked for.
    Checking { data: Vec<u8>, sha256: String },
    /// All textures were gone through.
    Finished,
    /// The encoder did not accept an image.
    Refused,
}

/// The mathematical form of a job's stage.
#[verifier::ext_equal]
pub enum Phase {
    Reading,
    Registering { data: Seq<u8>, sha256: Seq<char> },
    Checking { data: Seq<u8>, sha256: Seq<char> },
    Finished,
    Refused,
}

/// The processing of one icon.
#[derive(Debug)]
pub struct IdJob {
    id: u32,
    version: usize,
    hr: bool,
    output: IdOutput,
    stage: Stage,
}

/// The mathematical form of an [`IdJob`]: the icon, the texture that it is at, what the textures
/// before that came to, and how far it is with this one.
#[verifier::ext_equal]
pub struct Job {
    pub id: u32,
    pub version: int,
    pub hr: bool,
    pub output: Output,
    pub phase: Phase,
}

impl View for IdJob {
    type V = Job;

    closed spec fn view(&self) -> Job {
        Job {
            id: self.id,
            version: self.version as int,
            hr: self.hr,
            output: self.output@,
            phase: match self.stage {
                Stage::Reading => Phase::Reading,
                Stage::Registering { data, sha256 } => Phase::Registering {
                    data: data@,
                    sha256: sha256@,
                },
                Stage::Checking { data, sha256 } => Phase::Checking {
                    data: data@,
                    sha256: sha256@,
                },
                Stage::Finished => Phase::Finished,
                Stage::Refused => Phase::Refused,
            },
        }
    }
}

/// What a job asks its caller to do.
#[derive(Debug)]
pub enum Request {
    /// Read the texture of that name from the game data.
    Read(String),
    /// Note that digest, and find out whether it is new.
    Register(String),
    /// Find out whether there is a file in that place below the output directory.
    Check(EncodedPath),
    /// Nothing: take the output.
    Finish,
    /// Nothing: the encoder did not accept an image, and the job cannot go on.
    Abort,
}

/// The mathematical form of a [`Request`].
#[verifier::ext_equal]
pub enum Demand {
    Read(Seq<char>),
    Register(Seq<char>),
    Check(crate::paths::Place),
    Finish,
    Abort,
}

impl View for Request {
    type V = Demand;

    open spec fn view(&self) -> Demand {
        match self {
            Request::Read(path) => Demand::Read(path@),
            Request::Register(sha256) => Demand::Register(sha256@),
            Request::Check(place) => Demand::Check(place@),
            Request::Finish => Demand::Finish,
            Request::Abort => Demand::Abort,
        }
    }
}

/// The answer to a request.
#[derive(Debug)]
pub enum Reply {
    /// The texture.
    Texture(Vec<u8>),
    /// There is no such texture.
    NoTexture,
    /// The digest is new.
    Fresh,
    /// The digest was noted before.
    Duplicate,
    /// The file is there.
    FileExists,
    /// The file is not there.
    FileMissing,
}

/// The mathematical form of a [`Reply`].
#[verifier::ext_equal]
pub enum Answer {
    Texture(Seq<u8>),
    NoTexture,
    Fresh,
    Duplicate,
    FileExists,
    FileMissing,
}

impl View for Reply {
    type V = Answer;

    open spec fn view(&self) -> Answer {
        match self {
            Reply::Texture(data) => Answer::Texture(data@),
            Reply::NoTexture => Answer::NoTexture,
            Reply::Fresh => Answer::Fresh,
            Reply::Duplicate => Answer::Duplicate,
            Reply::FileExists => Answer::FileExists,
            Reply::FileMissing => Answer::FileMissing,
        }
    }
}

/// The digest of a texture, in hexadecimal digits.
pub open spec fn digest_of(data: Seq<u8>) -> Seq<char> {
    crate::digest::hex(crate::digest::sha256(data))
}

impl Job {
    /// A job on an icon of which no texture was looked up yet.
    pub open spec fn start(id: u32) -> Job {
        Job { id, version: 0, hr: true, output: Output::empty(), phase: Phase::Reading }
    }

    /// The name of the version that the job is at.
    pub open spec fn version_text(self) -> Seq<char> {
        VERSIONS@[self.version]@
    }

    /// Whether `answer` answers what the job asks for.
    pub open spec fn accepts(self, answer: Answer) -> bool {
        match self.phase {
            Phase::Reading => answer is Texture || answer is NoTexture,
            Phase::Registering { .. } => answer is Fresh || answer is Duplicate,
            Phase::Checking { .. } => answer is FileExists || answer is FileMissing,
            _ => false,
        }
    }

    /// What the job asks for.
    pub open spec fn demand(self, output_format: crate::config::OutputFormat) -> Demand {
        match self.phase {
            Phase::Reading => Demand::Read(
                crate::paths::texture_path_text(self.id, self.version_text(), self.hr),
            ),
            Phase::Registering { sha256, .. } => Demand::Register(sha256),
            Phase::Checking { sha256, .. } => Demand::Check(
                crate::paths::place_of(sha256, output_format),
            ),
            Phase::Finished => Demand::Finish,
            Phase::Refused => Demand::Abort,
        }
    }

    /// The job at its next texture. The low-resolution texture is looked up only where the
    /// high-resolution one is missing or faulty.
    pub open spec fn moved_on(self, settled: bool) -> Job {
        if self.hr && !settled {
            Job { hr: false, phase: Phase::Reading, ..self }
        } else {
            Job {
                version: self.version + 1,
                hr: true,
                phase: if self.version + 1 == VERSIONS@.len() {
                    Phase::Finished
                } else {
                    Phase::Reading
                },
                ..self
            }
        }
    }

    /// The job once it is known what becomes of the texture that it is at.
    pub open spec fn concluded(self, sha256: Seq<char>, outcome: Outcome) -> Job {
        if outcome == Err::<Fate, _>(crate::tex::TextureFault::EncoderRefused) {
            Job { phase: Phase::Refused, ..self }
        } else {
            Job {
                output: recorded(
                    self.output,
                    self.id,
                    self.version_text(),
                    self.hr,
                    sha256,
                    outcome,
                ),
                ..self
            }.moved_on(outcome is Ok)
        }
    }

    /// The job after an answer.
    pub open spec fn after(self, processor: ExportProcessor, answer: Answer) -> Job {
        match (self.phase, answer) {
            (Phase::Reading, Answer::Texture(data)) => Job {
                phase: Phase::Registering { data, sha256: digest_of(data) },
                ..self
            },
            (Phase::Reading, _) => self.moved_on(false),
            (Phase::Registering { data, sha256 }, Answer::Fresh) => if processor.checks_files() {
                Job { phase: Phase::Checking { data, sha256 }, ..self }
            } else {
                self.concluded(sha256, processor.outcome(data, sha256, true, false))
            },
            (Phase::Registering { data, sha256 }, _) => self.concluded(
                sha256,
                processor.outcome(data, sha256, false, false),
            ),
            (Phase::Checking { data, sha256 }, answer) => self.concluded(
                sha256,
                processor.outcome(data, sha256, true, answer is FileExists),
            ),
            _ => self,
        }
    }

    /// What holds of every job: the counts of its output agree, no texture was counted more than
    /// once, and the digests are digests.
    pub open spec fn valid(self) -> bool {
        &&& 0 <= self.version <= VERSIONS@.len()
        &&& self.phase is Finished <==> self.version == VERSIONS@.len()
        &&& self.phase is Finished ==> self.hr
        &&& self.output.balanced()
        &&& self.output.named()
        &&& self.output.stats.found <= 2 * self.version + if self.hr {
            0int
        } else {
            1int
        }
        &&& match self.phase {
            Phase::Registering { data, sha256 } => sha256 == digest_of(data)
                && crate::export::is_digest(sha256),
            Phase::Checking { data, sha256 } => sha256 == digest_of(data)
                && crate::export::is_digest(sha256),
            _ => true,
        }
    }
}

impl IdJob {
    /// The result of a finished job.
    pub fn finish(self) -> (r: IdOutput)
        requires
            self@.phase is Finished,
        ensures
            r@ == self@.output,
    {
        self.output
    }

    fn moved_on(self, settled: bool) -> (r: IdJob)
        requires
            0 <= self@.version < VERSIONS@.len(),
        ensures
            r@ == self@.moved_on(settled),
    {
        if self.hr && !settled {
            IdJob { hr: false, stage: Stage::Reading, ..self }
        } else {
            let version: usize = self.version + 1;
            let versions = VERSIONS;
            IdJob {
                version,
                hr: true,
                stage: if version == versions.len() {
                    Stage::Finished
                } else {
                    Stage::Reading
                },
                ..self
            }
        }
    }
}

/// What was found grows by one with every texture that is recorded.
proof fn lemma_recorded(
    output: Output,
    id: u32,
    version: Seq<char>,
    hr: bool,
    sha256: Seq<char>,
    outcome: Outcome,
)
    requires
        output.balanced(),
        output.named(),
        crate::export::is_digest(sha256),
        outcome matches Ok(Fate::Archived(entry)) ==> entry.sha256 == sha256,
    ensures
        recorded(output, id, version, hr, sha256, outcome).balanced(),
        recorded(output, id, version, hr, sha256, outcome).named(),
        recorded(output, id, version, hr, sha256, outcome).stats.found == output.stats.found + 1,
{
}

impl ExportProcessor {
    /// Starts the processing of an icon.
    pub fn process_id(&self, id: u32) -> (r: IdJob)
        ensures
            r@ == Job::start(id),
            r@.valid(),
    {
        let output = IdOutput {
            mappings: Vec::new(),
            archive_entries: Vec::new(),
            stats: ExportStats::default(),
            errors: Vec::new(),
        };
        assert(output@ == Output::empty());
        IdJob { id, version: 0, hr: true, output, stage: Stage::Reading }
    }

    /// What the job needs next.
    pub fn request(&self, job: &IdJob) -> (r: Request)
        requires
            job@.valid(),
        ensures
            r@ == job@.demand(self.output_format),
    {
        match &job.stage {
            Stage::Reading => {
                let versions = VERSIONS;
                Request::Read(texture_path(job.id, versions[job.version], job.hr))
            },
            Stage::Registering { sha256, .. } => Request::Register(sha256.clone()),
            Stage::Checking { sha256, .. } => {
                proof {
                    crate::digest::lemma_hex_is_ascii(sha256@);
                    crate::paths::lemma_ascii_shard(sha256@);
                }
                Request::Check(encoded_relative_path(sha256.as_str(), self.output_format))
            },
            Stage::Finished => Request::Finish,
            Stage::Refused => Request::Abort,
        }
    }

    fn conclude(
        &self,
        job: IdJob,
        data: Vec<u8>,
        sha256: String,
        fresh: bool,
        file_exists: bool,
    ) -> (r: IdJob)
        requires
            job@.valid(),
            !(job@.phase is Finished),
            crate::export::is_digest(sha256@),
        ensures
            r@ == job@.concluded(sha256@, self.outcome(data@, sha256@, fresh, file_exists)),
            r@.valid(),
    {
        let result = self.process_texture(data.as_slice(), sha256.as_str(), fresh, file_exists);
        if let Err(TextureError::EncoderRefused) = result {
            return IdJob { stage: Stage::Refused, ..job };
        }
        let IdJob { id, version, hr, output, stage } = job;
        let mut output = output;
        let versions = VERSIONS;
        proof {
            lemma_recorded(
                job@.output,
                id,
                job@.version_text(),
                hr,
                sha256@,
                self.outcome(data@, sha256@, fresh, file_exists),
            );
        }
        let settled = self.process_path(id, versions[version], hr, sha256, result, &mut output);
        IdJob { id, version, hr, output, stage: Stage::Reading }.moved_on(settled)
    }

    /// Takes the answer to what the job asked for.
    pub fn advance(&self, job: IdJob, reply: Reply) -> (r: IdJob)
        requires
            job@.valid(),
            job@.accepts(reply@),
        ensures
            r@ == job@.after(*self, reply@),
            r@.valid(),
    {
        let IdJob { id, version, hr, output, stage } = job;
        match stage {
            Stage::Reading => match reply {
                Reply::Texture(data) => {
                    let sha256 = hex_sha256(data.as_slice());
                    proof {
                        crate::digest::lemma_hex(crate::digest::sha256(data@));
                    }
                    IdJob { id, version, hr, output, stage: Stage::Registering { data, sha256 } }
                },
                _ => IdJob { id, version, hr, output, stage: Stage::Reading }.moved_on(false),
            },
            Stage::Registering { data, sha256 } => match reply {
                Reply::Fresh => if self.skips_existing() {
                    IdJob { id, version, hr, output, stage: Stage::Checking { data, sha256 } }
                } else {
                    let job = IdJob { id, version, hr, output, stage: Stage::Reading };
                    self.conclude(job, data, sha256, true, false)
                },
                _ => {
                    let job = IdJob { id, version, hr, output, stage: Stage::Reading };
                    self.conclude(job, data, sha256, false, false)
                },
            },
            Stage::Checking { data, sha256 } => {
                let exists = match reply {
                    Reply::FileExists => true,
                    _ => false,
                };
                let job = IdJob { id, version, hr, output, stage: Stage::Reading };
                self.conclude(job, data, sha256, true, exists)
            },
            stage => IdJob { id, version, hr, output, stage },
        }
    }
}

} // verus!
