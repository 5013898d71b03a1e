//! Looking up the textures of an icon, recognising those seen before, converting the others, and
//! keeping count.

use std::path::PathBuf;
use vstd::hash_set::StringHashSet;
use vstd::prelude::*;

use crate::config::{OutputFormat, OutputMode};
use crate::tex::{convert_tex, TextureError};

verus! {

/// Which image an icon's texture became.
#[derive(Debug)]
pub struct MappingEntry {
    pub id: u32,
    pub version: String,
    pub hr: bool,
    pub sha256: String,
}

/// The mathematical form of a [`MappingEntry`].
#[verifier::ext_equal]
pub struct Mapping {
    pub id: u32,
    pub version: Seq<char>,
    pub hr: bool,
    pub sha256: Seq<char>,
}

impl View for MappingEntry {
    type V = Mapping;

    open spec fn view(&self) -> Mapping {
        Mapping { id: self.id, version: self.version@, hr: self.hr, sha256: self.sha256@ }
    }
}

/// An image to be stored, under the digest of the texture that it was made of.
#[derive(Debug)]
pub struct ArchiveEntry {
    pub sha256: String,
    pub data: Vec<u8>,
}

/// The mathematical form of an [`ArchiveEntry`].
#[verifier::ext_equal]
pub struct Entry {
    pub sha256: Seq<char>,
    pub data: Seq<u8>,
}

impl View for ArchiveEntry {
    type V = Entry;

    open spec fn view(&self) -> Entry {
        Entry { sha256: self.sha256@, data: self.data@ }
    }
}

/// How many textures were found and what became of them.
#[derive(Debug, Clone, Copy, PartialEq, Eq, Structural)]
pub struct ExportStats {
    pub found: usize,
    pub converted: usize,
    pub archived: usize,
    pub duplicates: usize,
    pub skipped_existing: usize,
    pub errors: usize,
}

/// The mathematical form of [`ExportStats`].
#[verifier::ext_equal]
pub struct Counts {
    pub found: nat,
    pub converted: nat,
    pub archived: nat,
    pub duplicates: nat,
    pub skipped_existing: nat,
    pub errors: nat,
}

impl Counts {
    /// No texture at all.
    pub open spec fn zero() -> Counts {
        Counts {
            found: 0,
            converted: 0,
            archived: 0,
            duplicates: 0,
            skipped_existing: 0,
            errors: 0,
        }
    }

    /// Both counts taken together.
    pub open spec fn plus(self, other: Counts) -> Counts {
        Counts {
            found: self.found + other.found,
            converted: self.converted + other.converted,
            archived: self.archived + other.archived,
            duplicates: self.duplicates + other.duplicates,
            skipped_existing: self.skipped_existing + other.skipped_existing,
            errors: self.errors + other.errors,
        }
    }

    /// Whether no count is over `limit`.
    pub open spec fn within(self, limit: nat) -> bool {
        &&& self.found <= limit
        &&& self.converted <= limit
        &&& self.archived <= limit
        &&& self.duplicates <= limit
        &&& self.skipped_existing <= limit
        &&& self.errors <= limit
    }
}

impl View for ExportStats {
    type V = Counts;

    open spec fn view(&self) -> Counts {
        Counts {
            found: self.found as nat,
            converted: self.converted as nat,
            archived: self.archived as nat,
            duplicates: self.duplicates as nat,
            skipped_existing: self.skipped_existing as nat,
            errors: self.errors as nat,
        }
    }
}

impl Default for ExportStats {
    fn default() -> (r: Self)
        ensures
            r@ == Counts::zero(),
    {
        ExportStats {
            found: 0,
            converted: 0,
            archived: 0,
            duplicates: 0,
            skipped_existing: 0,
            errors: 0,
        }
    }
}

impl ExportStats {
    /// Adds the counts of `other`.
    pub fn merge(&mut self, other: ExportStats)
        requires
            old(self)@.plus(other@).within(usize::MAX as nat),
        ensures
            final(self)@ == old(self)@.plus(other@),
    {
        self.found = self.found + other.found;
        self.converted = self.converted + other.converted;
        self.archived = self.archived + other.archived;
        self.duplicates = self.duplicates + other.duplicates;
        self.skipped_existing = self.skipped_existing + other.skipped_existing;
        self.errors = self.errors + other.errors;
    }
}

/// What the textures of one icon came to.
#[derive(Debug)]
pub struct IdOutput {
    pub mappings: Vec<MappingEntry>,
    pub archive_entries: Vec<ArchiveEntry>,
    pub stats: ExportStats,
    pub errors: Vec<String>,
}

/// The mathematical form of an [`IdOutput`].
#[verifier::ext_equal]
pub struct Output {
    pub mappings: Seq<Mapping>,
    pub archive_entries: Seq<Entry>,
    pub stats: Counts,
    pub errors: Seq<Seq<char>>,
}

impl View for IdOutput {
    type V = Output;

    open spec fn view(&self) -> Output {
        Output {
            mappings: self.mappings@.map_values(|m: MappingEntry| m@),
            archive_entries: self.archive_entries@.map_values(|e: ArchiveEntry| e@),
            stats: self.stats@,
            errors: self.errors@.map_values(|s: String| s@),
        }
    }
}

impl Output {
    /// Nothing was found.
    pub open spec fn empty() -> Output {
        Output {
            mappings: seq![],
            archive_entries: seq![],
            stats: Counts::zero(),
            errors: seq![],
        }
    }

    /// The counts agree with the lists, every texture that was found was converted, seen before,
    /// stored already or faulty, and nothing was stored yet.
    pub open spec fn balanced(self) -> bool {
        &&& self.stats.found == self.mappings.len()
        &&& self.stats.converted == self.archive_entries.len()
        &&& self.stats.errors == self.errors.len()
        &&& self.stats.archived == 0
        &&& self.stats.found == self.stats.converted + self.stats.duplicates
            + self.stats.skipped_existing + self.stats.errors
    }

    /// Every image is named by a digest.
    pub open spec fn named(self) -> bool {
        forall|i: int|
            0 <= i < self.archive_entries.len() ==> is_digest(
                (#[trigger] self.archive_entries[i]).sha256,
            )
    }
}

/// Whether the text is a SHA-256 digest in hexadecimal digits.
pub open spec fn is_digest(text: Seq<char>) -> bool {
    text.len() == 64 && crate::digest::is_hex(text)
}

/// The digests of the textures that were seen so far.
pub struct Deduper {
    hashes: StringHashSet,
}

impl View for Deduper {
    type V = Set<Seq<char>>;

    closed spec fn view(&self) -> Set<Seq<char>> {
        self.hashes@
    }
}

/// No texture was seen yet.
pub fn new_deduper() -> (r: Deduper)
    ensures
        r@ == Set::<Seq<char>>::empty(),
{
    Deduper { hashes: StringHashSet::new() }
}

impl Deduper {
    /// Notes a digest. Says whether it is new.
    pub fn insert(&mut self, sha256: &str) -> (r: bool)
        ensures
            final(self)@ == old(self)@.insert(sha256@),
            r == !old(self)@.contains(sha256@),
    {
        self.hashes.insert(sha256.to_owned())
    }
}

/// What became of a texture that could be converted or did not have to be.
#[derive(Debug)]
pub enum ProcessResult {
    Archived(ArchiveEntry),
    Duplicate,
    ExistingFile,
}

/// The mathematical form of a [`ProcessResult`].
#[verifier::ext_equal]
pub enum Fate {
    Archived(Entry),
    Duplicate,
    ExistingFile,
}

impl View for ProcessResult {
    type V = Fate;

    open spec fn view(&self) -> Fate {
        match self {
            ProcessResult::Archived(entry) => Fate::Archived(entry@),
            ProcessResult::Duplicate => Fate::Duplicate,
            ProcessResult::ExistingFile => Fate::ExistingFile,
        }
    }
}

/// How textures are processed in a run.
#[derive(Debug)]
pub struct ExportProcessor {
    pub output_format: OutputFormat,
    pub output_mode: OutputMode,
    pub output_root: Option<PathBuf>,
}

/// The outcome of a texture's processing.
pub type Outcome = Result<Fate, crate::tex::TextureFault>;

impl ExportProcessor {
    /// Whether images that are stored already are left out: they are when images become files
    /// below a known directory.
    pub open spec fn checks_files(self) -> bool {
        self.output_mode == OutputMode::Files && self.output_root is Some
    }

    /// What becomes of the texture `data`. `fresh` says whether its digest is new, `exists`
    /// whether its image is stored already.
    pub open spec fn outcome(
        self,
        data: Seq<u8>,
        sha256: Seq<char>,
        fresh: bool,
        exists: bool,
    ) -> Outcome {
        if !fresh {
            Ok(Fate::Duplicate)
        } else if self.checks_files() && exists {
            Ok(Fate::ExistingFile)
        } else {
            match crate::tex::converted(data, self.output_format) {
                Ok(file) => Ok(Fate::Archived(Entry { sha256, data: file })),
                Err(fault) => Err(fault),
            }
        }
    }

    /// Sets up the processing of a run.
    pub fn new(
        output_format: OutputFormat,
        output_mode: OutputMode,
        output_root: Option<PathBuf>,
    ) -> (r: Self)
        ensures
            r.output_format == output_format,
            r.output_mode == output_mode,
            r.output_root == output_root,
    {
        ExportProcessor { output_format, output_mode, output_root }
    }

    /// Whether images that are stored already are left out.
    pub fn skips_existing(&self) -> (r: bool)
        ensures
            r == self.checks_files(),
    {
        self.output_mode == OutputMode::Files && self.output_root.is_some()
    }

    /// Decides what becomes of the texture `data`, whose digest is `sha256`. `fresh` says whether
    /// the digest is new, `file_exists` whether the image is stored already.
    pub fn process_texture(&self, data: &[u8], sha256: &str, fresh: bool, file_exists: bool) -> (r:
        Result<ProcessResult, TextureError>)
        ensures
            match r {
                Ok(result) => self.outcome(data@, sha256@, fresh, file_exists) == Ok::<
                    _,
                    crate::tex::TextureFault,
                >(result@),
                Err(error) => self.outcome(data@, sha256@, fresh, file_exists) == Err::<Fate, _>(
                    error@,
                ),
            },
    {
        if !fresh {
            return Ok(ProcessResult::Duplicate);
        }
        if self.skips_existing() && file_exists {
            return Ok(ProcessResult::ExistingFile);
        }
        match convert_tex(data, self.output_format) {
            Ok(encoded) => Ok(
                ProcessResult::Archived(ArchiveEntry { sha256: sha256.to_owned(), data: encoded }),
            ),
            Err(error) => Err(error),
        }
    }
}

} // verus!
