//! Storing the images of an export, in an archive or as files, and keeping the totals.
//!
//! As in [`crate::job`], the storing itself is asked for: the caller does it and answers.

use std::path::PathBuf;
use vstd::prelude::*;

use crate::config::OutputFormat;
use crate::export::{ExportStats, IdOutput, MappingEntry};
use crate::paths::{encoded_full_path, zip_entry_name, FullPath};

verus! {

use crate::export::{Counts, Entry, Mapping, Output};

/// The totals of a run: which image every texture became, and how many there were.
#[derive(Debug)]
pub struct Ledger {
    mappings: Vec<MappingEntry>,
    stats: ExportStats,
}

/// The mathematical form of a [`Ledger`].
#[verifier::ext_equal]
pub struct Totals {
    pub mappings: Seq<Mapping>,
    pub stats: Counts,
}

impl View for Ledger {
    type V = Totals;

    closed spec fn view(&self) -> Totals {
        Totals {
            mappings: self.mappings@.map_values(|m: MappingEntry| m@),
            stats: self.stats@,
        }
    }
}

impl Totals {
    /// Nothing was exported yet.
    pub open spec fn zero() -> Totals {
        Totals { mappings: seq![], stats: Counts::zero() }
    }

    /// One more image was stored.
    pub open spec fn stored(self) -> Totals {
        Totals { stats: Counts { archived: self.stats.archived + 1, ..self.stats }, ..self }
    }

    /// One more image was there already.
    pub open spec fn skipped(self) -> Totals {
        Totals {
            stats: Counts { skipped_existing: self.stats.skipped_existing + 1, ..self.stats },
            ..self
        }
    }

    /// An icon's output was taken care of.
    pub open spec fn with(self, output: Output) -> Totals {
        Totals {
            mappings: self.mappings + output.mappings,
            stats: self.stats.plus(output.stats),
        }
    }

    /// Whether the totals can be counted on after `entries` more images and the rest of `output`.
    pub open spec fn has_room(self, output: Output, entries: nat) -> bool {
        let sum = self.stats.plus(output.stats);
        Counts {
            archived: sum.archived + entries,
            skipped_existing: sum.skipped_existing + entries,
            ..sum
        }.within(usize::MAX as nat)
    }
}

impl Ledger {
    fn new() -> (r: Self)
        ensures
            r@ == Totals::zero(),
    {
        let r = Ledger { mappings: Vec::new(), stats: ExportStats::default() };
        assert(r@ == Totals::zero());
        r
    }

    fn note_stored(&mut self)
        requires
            old(self)@.stats.archived < usize::MAX,
        ensures
            final(self)@ == old(self)@.stored(),
    {
        self.stats.archived = self.stats.archived + 1;
    }

    fn note_skipped(&mut self)
        requires
            old(self)@.stats.skipped_existing < usize::MAX,
        ensures
            final(self)@ == old(self)@.skipped(),
    {
        self.stats.skipped_existing = self.stats.skipped_existing + 1;
    }

    fn take_over(&mut self, mappings: &mut Vec<MappingEntry>, stats: ExportStats)
        requires
            old(self)@.stats.plus(stats@).within(usize::MAX as nat),
        ensures
            final(self)@.mappings == old(self)@.mappings + old(mappings)@.map_values(
                |m: MappingEntry| m@,
            ),
            final(self)@.stats == old(self)@.stats.plus(stats@),
            final(mappings)@ == Seq::<MappingEntry>::empty(),
    {
        self.mappings.append(mappings);
        self.stats.merge(stats);
        assert(self@.mappings == old(self)@.mappings + old(mappings)@.map_values(
            |m: MappingEntry| m@,
        ));
    }

    fn room_for(&self, output: &IdOutput) -> (r: bool)
        ensures
            r == self@.has_room(output@, output@.archive_entries.len()),
    {
        let a = &self.stats;
        let b = &output.stats;
        let entries: usize = output.archive_entries.len();
        assert(output@.archive_entries.len() == entries);
        a.found <= usize::MAX - b.found && a.converted <= usize::MAX - b.converted && a.archived
            <= usize::MAX - b.archived && entries <= usize::MAX - b.archived - a.archived
            && a.duplicates <= usize::MAX - b.duplicates && a.skipped_existing <= usize::MAX
            - b.skipped_existing && entries <= usize::MAX - b.skipped_existing - a.skipped_existing
            && a.errors <= usize::MAX - b.errors
    }
}

/// Stores images in one archive.
#[derive(Debug)]
pub struct ArchiveWriter {
    output_format: OutputFormat,
    ledger: Ledger,
}

impl ArchiveWriter {
    fn new(output_format: OutputFormat) -> (r: Self)
        ensures
            r.output_format == output_format,
            r.ledger@ == Totals::zero(),
    {
        ArchiveWriter { output_format, ledger: Ledger::new() }
    }

    fn stats(&self) -> (r: ExportStats)
        ensures
            r@ == self.ledger@.stats,
    {
        self.ledger.stats
    }

    fn finish(self) -> (r: (Vec<MappingEntry>, ExportStats))
        ensures
            r.0@.map_values(|m: MappingEntry| m@) == self.ledger@.mappings,
            r.1@ == self.ledger@.stats,
    {
        (self.ledger.mappings, self.ledger.stats)
    }
}

/// Stores images as files below a directory.
#[derive(Debug)]
pub struct FileWriter {
    output_root: PathBuf,
    output_format: OutputFormat,
    ledger: Ledger,
}

impl FileWriter {
    fn new(output_root: PathBuf, output_format: OutputFormat) -> (r: Self)
        ensures
            r.output_root == output_root,
            r.output_format == output_format,
            r.ledger@ == Totals::zero(),
    {
        FileWriter { output_root, output_format, ledger: Ledger::new() }
    }

    fn stats(&self) -> (r: ExportStats)
        ensures
            r@ == self.ledger@.stats,
    {
        self.ledger.stats
    }

    fn finish(self) -> (r: (Vec<MappingEntry>, ExportStats))
        ensures
            r.0@.map_values(|m: MappingEntry| m@) == self.ledger@.mappings,
            r.1@ == self.ledger@.stats,
    {
        (self.ledger.mappings, self.ledger.stats)
    }
}

/// Stores the images of a run.
#[derive(Debug)]
pub enum OutputWriter {
    Archive(ArchiveWriter),
    Files(FileWriter),
}

/// The mathematical form of an [`OutputWriter`]. `root` is the directory that files go to; an
/// archive has none.
#[verifier::ext_equal]
pub struct Writer {
    pub root: Option<PathBuf>,
    pub output_format: OutputFormat,
    pub totals: Totals,
}

impl View for OutputWriter {
    type V = Writer;

    closed spec fn view(&self) -> Writer {
        match self {
            OutputWriter::Archive(writer) => Writer {
                root: None,
                output_format: writer.output_format,
                totals: writer.ledger@,
            },
            OutputWriter::Files(writer) => Writer {
                root: Some(writer.output_root),
                output_format: writer.output_format,
                totals: writer.ledger@,
            },
        }
    }
}

impl OutputWriter {
    /// Stores images in one archive.
    pub fn archive(output_format: OutputFormat) -> (r: Self)
        ensures
            r@ == (Writer { root: None, output_format, totals: Totals::zero() }),
    {
        OutputWriter::Archive(ArchiveWriter::new(output_format))
    }

    /// Stores images as files below `output_root`.
    pub fn files(output_root: PathBuf, output_format: OutputFormat) -> (r: Self)
        ensures
            r@ == (Writer { root: Some(output_root), output_format, totals: Totals::zero() }),
    {
        OutputWriter::Files(FileWriter::new(output_root, output_format))
    }

    /// The counts so far.
    pub fn stats(&self) -> (r: ExportStats)
        ensures
            r@ == self@.totals.stats,
    {
        match self {
            OutputWriter::Archive(writer) => writer.stats(),
            OutputWriter::Files(writer) => writer.stats(),
        }
    }

    /// The totals of the run.
    pub fn finish(self) -> (r: (Vec<MappingEntry>, ExportStats))
        ensures
            r.0@.map_values(|m: MappingEntry| m@) == self@.totals.mappings,
            r.1@ == self@.totals.stats,
    {
        match self {
            OutputWriter::Archive(writer) => writer.finish(),
            OutputWriter::Files(writer) => writer.finish(),
        }
    }

    /// Whether the totals can still be counted once `output` is added.
    pub fn has_room(&self, output: &IdOutput) -> (r: bool)
        ensures
            r == self@.totals.has_room(output@, output@.archive_entries.len()),
    {
        match self {
            OutputWriter::Archive(writer) => writer.ledger.room_for(output),
            OutputWriter::Files(writer) => writer.ledger.room_for(output),
        }
    }
}

/// How far a [`WriteJob`] is with the image that it is at.
#[derive(Debug, Clone, Copy, PartialEq, Eq, Structural)]
pub enum WriteStage {
    /// It is to be found out whether the image is stored already.
    Checking,
    /// The image is to be stored.
    Storing,
    /// All images were gone through.
    Done,
}

/// The storing of the images of one icon.
#[derive(Debug)]
pub struct WriteJob {
    output: IdOutput,
    next: usize,
    stage: WriteStage,
}

/// The mathematical form of a [`WriteJob`]: the output to be stored, and the image that it is at.
#[verifier::ext_equal]
pub struct Writing {
    pub output: Output,
    pub next: int,
    pub stage: WriteStage,
}

impl View for WriteJob {
    type V = Writing;

    closed spec fn view(&self) -> Writing {
        Writing { output: self.output@, next: self.next as int, stage: self.stage }
    }
}

/// What a [`WriteJob`] asks its caller to do.
#[derive(Debug)]
pub enum WriteRequest<'a> {
    /// Add a file of that name to the archive, for the texture of that digest.
    Add { name: String, sha256: &'a String, data: &'a Vec<u8> },
    /// Find out whether there is a file in that place.
    Check { path: FullPath<'a> },
    /// Write a file to that place, and make its directory first.
    Store { path: FullPath<'a>, data: &'a Vec<u8> },
    /// Tell the user what went wrong with the icon's textures. The job is done.
    Report { errors: &'a Vec<String> },
}

/// The mathematical form of a [`WriteRequest`].
#[verifier::ext_equal]
pub enum WriteDemand {
    Add { name: Seq<char>, sha256: Seq<char>, data: Seq<u8> },
    Check { root: PathBuf, place: crate::paths::Place },
    Store { root: PathBuf, place: crate::paths::Place, data: Seq<u8> },
    Report { errors: Seq<Seq<char>> },
}

impl<'a> View for WriteRequest<'a> {
    type V = WriteDemand;

    open spec fn view(&self) -> WriteDemand {
        match self {
            WriteRequest::Add { name, sha256, data } => WriteDemand::Add {
                name: name@,
                sha256: sha256@,
                data: data@,
            },
            WriteRequest::Check { path } => WriteDemand::Check {
                root: *path.root,
                place: path.relative@,
            },
            WriteRequest::Store { path, data } => WriteDemand::Store {
                root: *path.root,
                place: path.relative@,
                data: data@,
            },
            WriteRequest::Report { errors } => WriteDemand::Report {
                errors: errors@.map_values(|s: String| s@),
            },
        }
    }
}

/// The answer to a [`WriteRequest`].
#[derive(Debug, Clone, Copy, PartialEq, Eq, Structural)]
pub enum WriteReply {
    /// The image was stored.
    Stored,
    /// The file is there.
    FileExists,
    /// The file is not there.
    FileMissing,
}

impl Writing {
    /// The image that the job is at.
    pub open spec fn entry(self) -> Entry {
        self.output.archive_entries[self.next]
    }

    /// How many images are left, the present one included.
    pub open spec fn left(self) -> nat {
        if self.stage == WriteStage::Done {
            0
        } else {
            (self.output.archive_entries.len() - self.next) as nat
        }
    }

    /// Whether the job can run on `writer`.
    pub open spec fn valid(self, writer: Writer) -> bool {
        &&& self.output.named()
        &&& self.stage != WriteStage::Done ==> {
            &&& 0 <= self.next < self.output.archive_entries.len()
            &&& writer.totals.has_room(self.output, self.left())
        }
        &&& self.stage == WriteStage::Checking ==> writer.root is Some
    }

    /// Whether `reply` answers what the job asks for.
    pub open spec fn accepts(self, reply: WriteReply) -> bool {
        match self.stage {
            WriteStage::Checking => reply != WriteReply::Stored,
            WriteStage::Storing => reply == WriteReply::Stored,
            WriteStage::Done => false,
        }
    }
}

impl Writer {
    /// What is done first with an image: a file is looked for, an archive is written to.
    pub open spec fn first_stage(self) -> WriteStage {
        if self.root is Some {
            WriteStage::Checking
        } else {
            WriteStage::Storing
        }
    }

    /// The writer and the job, once the images before number `next` were gone through. After the
    /// last one the writer takes over the rest of the output.
    pub open spec fn at_entry(self, output: Output, next: int) -> (Writer, Writing) {
        if next < output.archive_entries.len() {
            (self, Writing { output, next, stage: self.first_stage() })
        } else {
            (
                Writer { totals: self.totals.with(output), ..self },
                Writing {
                    output: Output { mappings: seq![], ..output },
                    next,
                    stage: WriteStage::Done,
                },
            )
        }
    }

    /// The writer and the job after an answer.
    pub open spec fn after(self, job: Writing, reply: WriteReply) -> (Writer, Writing) {
        match reply {
            WriteReply::Stored => Writer { totals: self.totals.stored(), ..self }.at_entry(
                job.output,
                job.next + 1,
            ),
            WriteReply::FileExists => Writer { totals: self.totals.skipped(), ..self }.at_entry(
                job.output,
                job.next + 1,
            ),
            WriteReply::FileMissing => (self, Writing { stage: WriteStage::Storing, ..job }),
        }
    }

    /// What the job asks for.
    pub open spec fn demand(self, job: Writing) -> WriteDemand {
        let sha256 = job.entry().sha256;
        let place = crate::paths::place_of(sha256, self.output_format);
        match job.stage {
            WriteStage::Checking => WriteDemand::Check { root: self.root->0, place },
            WriteStage::Storing => match self.root {
                Some(root) => WriteDemand::Store { root, place, data: job.entry().data },
                None => WriteDemand::Add {
                    name: crate::paths::zip_name_text(sha256, self.output_format),
                    sha256,
                    data: job.entry().data,
                },
            },
            WriteStage::Done => WriteDemand::Report { errors: job.output.errors },
        }
    }
}

impl OutputWriter {
    fn at_entry(&mut self, output: IdOutput, next: usize) -> (r: WriteJob)
        requires
            next <= output@.archive_entries.len(),
            output@.named(),
            old(self)@.totals.has_room(
                output@,
                (output@.archive_entries.len() - next) as nat,
            ),
        ensures
            (final(self)@, r@) == old(self)@.at_entry(output@, next as int),
            r@.valid(final(self)@),
    {
        let ghost given = output@;
        if next < output.archive_entries.len() {
            let stage = match self {
                OutputWriter::Archive(_) => WriteStage::Storing,
                OutputWriter::Files(_) => WriteStage::Checking,
            };
            return WriteJob { output, next, stage };
        }
        let IdOutput { mappings, archive_entries, stats, errors } = output;
        let mut mappings = mappings;
        match self {
            OutputWriter::Archive(writer) => {
                writer.ledger.take_over(&mut mappings, stats);
            },
            OutputWriter::Files(writer) => {
                writer.ledger.take_over(&mut mappings, stats);
            },
        }
        let job = WriteJob {
            output: IdOutput { mappings, archive_entries, stats, errors },
            next,
            stage: WriteStage::Done,
        };
        assert(job@.output == (Output { mappings: seq![], ..given }));
        job
    }
}

impl OutputWriter {
    /// Starts the storing of an icon's images.
    pub fn write_output(&mut self, output: IdOutput) -> (r: WriteJob)
        requires
            output@.named(),
            old(self)@.totals.has_room(output@, output@.archive_entries.len()),
        ensures
            (final(self)@, r@) == old(self)@.at_entry(output@, 0),
            r@.valid(final(self)@),
    {
        self.at_entry(output, 0)
    }

    /// What the job needs next.
    pub fn request<'a>(&'a self, job: &'a WriteJob) -> (r: WriteRequest<'a>)
        requires
            job@.valid(self@),
        ensures
            r@ == self@.demand(job@),
    {
        if let WriteStage::Done = job.stage {
            return WriteRequest::Report { errors: &job.output.errors };
        }
        let entry = &job.output.archive_entries[job.next];
        assert(job@.entry() == entry@);
        proof {
            crate::digest::lemma_hex_is_ascii(entry.sha256@);
            crate::paths::lemma_ascii_shard(entry.sha256@);
        }
        match self {
            OutputWriter::Archive(writer) => {
                let name = zip_entry_name(entry.sha256.as_str(), writer.output_format);
                WriteRequest::Add { name, sha256: &entry.sha256, data: &entry.data }
            },
            OutputWriter::Files(writer) => {
                let path = encoded_full_path(
                    &writer.output_root,
                    entry.sha256.as_str(),
                    writer.output_format,
                );
                match job.stage {
                    WriteStage::Checking => WriteRequest::Check { path },
                    _ => WriteRequest::Store { path, data: &entry.data },
                }
            },
        }
    }

    /// Takes the answer to what the job asked for. Where the caller failed to store an image,
    /// it does not answer and drops the job: the images before that one stay counted.
    pub fn advance(&mut self, job: WriteJob, reply: WriteReply) -> (r: WriteJob)
        requires
            job@.valid(old(self)@),
            job@.accepts(reply),
        ensures
            (final(self)@, r@) == old(self)@.after(job@, reply),
            r@.valid(final(self)@),
    {
        match reply {
            WriteReply::FileMissing => {
                return WriteJob { stage: WriteStage::Storing, ..job };
            },
            WriteReply::Stored => match self {
                OutputWriter::Archive(writer) => {
                    writer.ledger.note_stored();
                },
                OutputWriter::Files(writer) => {
                    writer.ledger.note_stored();
                },
            },
            WriteReply::FileExists => match self {
                OutputWriter::Archive(writer) => {
                    writer.ledger.note_skipped();
                },
                OutputWriter::Files(writer) => {
                    writer.ledger.note_skipped();
                },
            },
        }
        assert(job.next < job.output.archive_entries.len());
        self.at_entry(job.output, job.next + 1)
    }
}

} // verus!
