//! What is exported, where it is looked for, and the command line options of a run.

use std::path::PathBuf;
use vstd::prelude::*;

use crate::text::{same_text, strip_prefix, to_ascii_lowercase};

verus! {

/// An operating-system path. The library carries paths through and does not look into them.
#[verifier::external_type_specification]
#[verifier::external_body]
pub struct ExPathBuf(std::path::PathBuf);

/// The language and quality directories below an icon's directory; the first is the icon itself.
pub const VERSIONS: [&'static str; 7] = ["", "/en", "/ja", "/fr", "/de", "/hq", "/chs"];

/// The first icon id of an export.
pub const START_ID: u32 = 0;

/// The id after the last one of an export.
pub const END_ID_EXCLUSIVE: u32 = 1_000_000;

/// The quality that the WebP encoder is run with, out of 100.
pub const WEBP_QUALITY: u8 = 50;

/// The quality that AVIF images are meant to have, out of 100.
pub const AVIF_QUALITY: u8 = 50;

/// The places where the game is commonly installed.
pub const TRY_INSTALL_PATHS: [&'static str; 6] = [
    "C:\\Games\\FINAL FANTASY XIV",
    "C:\\SquareEnix\\FINAL FANTASY XIV - A Realm Reborn",
    "C:\\Program Files (x86)\\Steam\\steamapps\\common\\FINAL FANTASY XIV Online",
    "C:\\Program Files (x86)\\Steam\\steamapps\\common\\FINAL FANTASY XIV - A Realm Reborn",
    "C:\\Program Files (x86)\\FINAL FANTASY XIV - A Realm Reborn",
    "C:\\Program Files (x86)\\SquareEnix\\FINAL FANTASY XIV - A Realm Reborn",
];

/// A file that every install root has below it.
pub const REQUIRED_INDEX_PATH: &'static str = "game\\sqpack\\ffxiv\\060000.win32.index";

/// The directory that is written to when none is configured.
pub const DEFAULT_OUTPUT_ROOT: &'static str = "outputs";

/// The image format that textures are converted to.
#[derive(Debug, Clone, Copy, PartialEq, Eq, Structural)]
pub enum OutputFormat {
    Webp,
    Avif,
}

/// Whether the images go into one archive or into files of their own.
#[derive(Debug, Clone, Copy, PartialEq, Eq, Structural)]
pub enum OutputMode {
    Archive,
    Files,
}

/// The options of a run.
#[derive(Debug, Clone)]
pub struct AppOptions {
    pub install_root: Option<PathBuf>,
    pub output_format: OutputFormat,
    pub output_mode: OutputMode,
}

/// One command line argument, as the operating system hands it over.
#[derive(Debug)]
pub struct Argument {
    /// The argument, if it is valid Unicode.
    pub text: Option<String>,
    /// The argument with what is not valid Unicode replaced.
    pub lossy: String,
    /// The argument as a path.
    pub path: PathBuf,
}

/// Why the command line was not accepted.
#[derive(Debug)]
pub enum OptionError {
    MissingFormat,
    UnsupportedFormat(String),
    MissingMode,
    UnsupportedMode(String),
    UnknownOption(String),
    MultipleInstallRoots,
}

/// The mathematical form of an [`OptionError`].
#[verifier::ext_equal]
pub enum OptionFault {
    MissingFormat,
    UnsupportedFormat(Seq<char>),
    MissingMode,
    UnsupportedMode(Seq<char>),
    UnknownOption(Seq<char>),
    MultipleInstallRoots,
}

impl View for OptionError {
    type V = OptionFault;

    open spec fn view(&self) -> OptionFault {
        match self {
            OptionError::MissingFormat => OptionFault::MissingFormat,
            OptionError::UnsupportedFormat(s) => OptionFault::UnsupportedFormat(s@),
            OptionError::MissingMode => OptionFault::MissingMode,
            OptionError::UnsupportedMode(s) => OptionFault::UnsupportedMode(s@),
            OptionError::UnknownOption(s) => OptionFault::UnknownOption(s@),
            OptionError::MultipleInstallRoots => OptionFault::MultipleInstallRoots,
        }
    }
}

impl OutputFormat {
    /// The file name extension of the format.
    pub open spec fn extension_text(self) -> Seq<char> {
        match self {
            OutputFormat::Webp => "webp"@,
            OutputFormat::Avif => "avif"@,
        }
    }

    /// The name of the archive that holds the images of the format.
    pub open spec fn archive_text(self) -> Seq<char> {
        "icons."@ + self.extension_text() + ".zip"@
    }

    /// The file name extension of the format.
    pub fn extension(self) -> (r: &'static str)
        ensures
            r@ == self.extension_text(),
    {
        match self {
            OutputFormat::Webp => "webp",
            OutputFormat::Avif => "avif",
        }
    }

    /// The name of the archive that holds the images of the format.
    pub fn archive_name(self) -> (r: String)
        ensures
            r@ == self.archive_text(),
    {
        let mut name = "icons.".to_owned();
        name.append(self.extension());
        name.append(".zip");
        name
    }
}

impl OptionFault {
    /// What the user is told.
    pub open spec fn message(self) -> Seq<char> {
        match self {
            OptionFault::MissingFormat => "missing value for --format"@,
            OptionFault::UnsupportedFormat(s) => "unsupported output format `"@ + s
                + "`; expected `webp` or `avif`"@,
            OptionFault::MissingMode => "missing value for --output-mode"@,
            OptionFault::UnsupportedMode(s) => "unsupported output mode `"@ + s
                + "`; expected `archive` or `files`"@,
            OptionFault::UnknownOption(s) => "unsupported option `"@ + s + "`"@,
            OptionFault::MultipleInstallRoots => "multiple install-root paths provided"@,
        }
    }
}

impl OptionError {
    /// What the user is told.
    pub fn message(&self) -> (r: String)
        ensures
            r@ == self@.message(),
    {
        match self {
            OptionError::MissingFormat => "missing value for --format".to_owned(),
            OptionError::UnsupportedFormat(s) => {
                let mut out = "unsupported output format `".to_owned();
                out.append(s.as_str());
                out.append("`; expected `webp` or `avif`");
                out
            },
            OptionError::MissingMode => "missing value for --output-mode".to_owned(),
            OptionError::UnsupportedMode(s) => {
                let mut out = "unsupported output mode `".to_owned();
                out.append(s.as_str());
                out.append("`; expected `archive` or `files`");
                out
            },
            OptionError::UnknownOption(s) => {
                let mut out = "unsupported option `".to_owned();
                out.append(s.as_str());
                out.append("`");
                out
            },
            OptionError::MultipleInstallRoots => "multiple install-root paths provided".to_owned(),
        }
    }
}

/// The output format of that name, if there is one.
pub open spec fn format_named(name: Seq<char>) -> Option<OutputFormat> {
    if name == "webp"@ {
        Some(OutputFormat::Webp)
    } else if name == "avif"@ {
        Some(OutputFormat::Avif)
    } else {
        None
    }
}

/// The output mode of that name, if there is one.
pub open spec fn mode_named(name: Seq<char>) -> Option<OutputMode> {
    if name == "archive"@ {
        Some(OutputMode::Archive)
    } else if name == "files"@ {
        Some(OutputMode::Files)
    } else {
        None
    }
}

fn find_format(name: &str) -> (r: Option<OutputFormat>)
    ensures
        r == format_named(name@),
{
    if same_text(name, "webp") {
        Some(OutputFormat::Webp)
    } else if same_text(name, "avif") {
        Some(OutputFormat::Avif)
    } else {
        None
    }
}

fn find_mode(name: &str) -> (r: Option<OutputMode>)
    ensures
        r == mode_named(name@),
{
    if same_text(name, "archive") {
        Some(OutputMode::Archive)
    } else if same_text(name, "files") {
        Some(OutputMode::Files)
    } else {
        None
    }
}

/// What one argument means, taken by itself.
#[verifier::ext_equal]
pub enum Word {
    /// `--format`: the next argument names the format, in any letter case.
    Format,
    /// `--format=` and the name of the format, in lower case.
    FormatIs(Seq<char>),
    /// `--output-mode`: the next argument names the mode, in any letter case.
    Mode,
    /// `--output-mode=` and the name of the mode, in lower case.
    ModeIs(Seq<char>),
    /// `--no-archive`.
    NoArchive,
    /// Anything else that starts with two dashes.
    Unknown(Seq<char>),
    /// An install root.
    Root,
}

/// What an argument means, taken by itself.
pub open spec fn word(arg: Argument) -> Word {
    match arg.text {
        Some(text) => {
            if text@ == "--format"@ {
                Word::Format
            } else if let Some(name) = crate::text::after_prefix(text@, "--format="@) {
                Word::FormatIs(name)
            } else if text@ == "--output-mode"@ {
                Word::Mode
            } else if let Some(name) = crate::text::after_prefix(text@, "--output-mode="@) {
                Word::ModeIs(name)
            } else if text@ == "--no-archive"@ {
                Word::NoArchive
            } else if "--"@.is_prefix_of(text@) {
                Word::Unknown(text@)
            } else {
                Word::Root
            }
        },
        None => Word::Root,
    }
}

/// `options` with the format of that name, or the reason why there is none.
pub open spec fn with_format(options: AppOptions, name: Seq<char>) -> Result<
    AppOptions,
    OptionFault,
> {
    match format_named(name) {
        Some(output_format) => Ok(AppOptions { output_format, ..options }),
        None => Err(OptionFault::UnsupportedFormat(name)),
    }
}

/// `options` with the mode of that name, or the reason why there is none.
pub open spec fn with_mode(options: AppOptions, name: Seq<char>) -> Result<
    AppOptions,
    OptionFault,
> {
    match mode_named(name) {
        Some(output_mode) => Ok(AppOptions { output_mode, ..options }),
        None => Err(OptionFault::UnsupportedMode(name)),
    }
}

/// What the first option of `args` makes of `options`, and how many arguments it takes up.
pub open spec fn first_option(args: Seq<Argument>, options: AppOptions) -> (
    Result<AppOptions, OptionFault>,
    int,
)
    recommends
        args.len() > 0,
{
    match word(args[0]) {
        Word::Format => if args.len() == 1 {
            (Err(OptionFault::MissingFormat), 1)
        } else {
            (with_format(options, crate::text::lowercased(args[1].lossy@)), 2)
        },
        Word::FormatIs(name) => (with_format(options, name), 1),
        Word::Mode => if args.len() == 1 {
            (Err(OptionFault::MissingMode), 1)
        } else {
            (with_mode(options, crate::text::lowercased(args[1].lossy@)), 2)
        },
        Word::ModeIs(name) => (with_mode(options, name), 1),
        Word::NoArchive => (Ok(AppOptions { output_mode: OutputMode::Files, ..options }), 1),
        Word::Unknown(text) => (Err(OptionFault::UnknownOption(text)), 1),
        Word::Root => if options.install_root is Some {
            (Err(OptionFault::MultipleInstallRoots), 1)
        } else {
            (Ok(AppOptions { install_root: Some(args[0].path), ..options }), 1)
        },
    }
}

/// What `args`, taken from the left, make of `options`. The first fault ends the reading.
pub open spec fn options_after(args: Seq<Argument>, options: AppOptions) -> Result<
    AppOptions,
    OptionFault,
>
    decreases args.len(),
{
    if args.len() == 0 {
        Ok(options)
    } else {
        let (next, taken) = first_option(args, options);
        match next {
            Ok(options) => options_after(args.skip(taken), options),
            Err(fault) => Err(fault),
        }
    }
}

/// The options of a run that is given no arguments.
pub open spec fn default_options() -> AppOptions {
    AppOptions {
        install_root: None,
        output_format: OutputFormat::Webp,
        output_mode: OutputMode::Archive,
    }
}

/// Reads the command line, program name excluded.
pub fn parse_options(args: Vec<Argument>) -> (r: Result<AppOptions, OptionError>)
    ensures
        match r {
            Ok(options) => options_after(args@, default_options()) == Ok::<_, OptionFault>(options),
            Err(error) => options_after(args@, default_options()) == Err::<AppOptions, _>(error@),
        },
{
    let mut left = args;
    let mut options = AppOptions {
        install_root: None,
        output_format: OutputFormat::Webp,
        output_mode: OutputMode::Archive,
    };
    while left.len() > 0
        invariant
            options_after(args@, default_options()) == options_after(left@, options),
        decreases left.len(),
    {
        let ghost rest = left@;
        let arg = left.remove(0);
        assert(left@ == rest.skip(1));
        let text: &str = match &arg.text {
            Some(text) => text.as_str(),
            None => "",
        };
        proof {
            reveal_strlit("");
            reveal_strlit("--format");
            reveal_strlit("--format=");
            reveal_strlit("--output-mode");
            reveal_strlit("--output-mode=");
            reveal_strlit("--no-archive");
            reveal_strlit("--");
        }
        if same_text(text, "--format") {
            if left.len() == 0 {
                return Err(OptionError::MissingFormat);
            }
            let value = left.remove(0);
            assert(left@ == rest.skip(2));
            let name = to_ascii_lowercase(value.lossy.as_str());
            match find_format(name.as_str()) {
                Some(output_format) => {
                    options.output_format = output_format;
                },
                None => {
                    return Err(OptionError::UnsupportedFormat(name));
                },
            }
        } else if let Some(name) = strip_prefix(text, "--format=") {
            match find_format(name) {
                Some(output_format) => {
                    options.output_format = output_format;
                },
                None => {
                    return Err(OptionError::UnsupportedFormat(name.to_owned()));
                },
            }
        } else if same_text(text, "--output-mode") {
            if left.len() == 0 {
                return Err(OptionError::MissingMode);
            }
            let value = left.remove(0);
            assert(left@ == rest.skip(2));
            let name = to_ascii_lowercase(value.lossy.as_str());
            match find_mode(name.as_str()) {
                Some(output_mode) => {
                    options.output_mode = output_mode;
                },
                None => {
                    return Err(OptionError::UnsupportedMode(name));
                },
            }
        } else if let Some(name) = strip_prefix(text, "--output-mode=") {
            match find_mode(name) {
                Some(output_mode) => {
                    options.output_mode = output_mode;
                },
                None => {
                    return Err(OptionError::UnsupportedMode(name.to_owned()));
                },
            }
        } else if same_text(text, "--no-archive") {
            options.output_mode = OutputMode::Files;
        } else if strip_prefix(text, "--").is_some() {
            return Err(OptionError::UnknownOption(text.to_owned()));
        } else {
            if options.install_root.is_some() {
                return Err(OptionError::MultipleInstallRoots);
            }
            options.install_root = Some(arg.path);
        }
    }
    Ok(options)
}

/// The path that `PathBuf::from` makes of a text.
pub uninterp spec fn path_of(text: Seq<char>) -> PathBuf;

/// `PathBuf::from` on a `&str`: the path is made of the text alone, which it takes over unchanged.
#[verifier::external_body]
fn path_from(text: &str) -> (r: PathBuf)
    ensures
        r == path_of(text@),
{
    PathBuf::from(text)
}

/// The path in `path`, if there is one, as a sequence.
pub open spec fn given(path: Option<PathBuf>) -> Seq<PathBuf> {
    match path {
        Some(path) => seq![path],
        None => seq![],
    }
}

/// Where the game is looked for, in this order: the path on the command line, the current
/// directory, the common places.
pub open spec fn candidates(cli: Option<PathBuf>, current_dir: Option<PathBuf>) -> Seq<PathBuf> {
    given(cli) + given(current_dir) + TRY_INSTALL_PATHS@.map_values(
        |text: &'static str| path_of(text@),
    )
}

/// The first of `paths` that is marked valid.
pub open spec fn first_valid(paths: Seq<PathBuf>, valid: Seq<bool>) -> Option<PathBuf>
    decreases paths.len(),
{
    if paths.len() == 0 {
        None
    } else if valid[0] {
        Some(paths[0])
    } else {
        first_valid(paths.skip(1), valid.skip(1))
    }
}

/// Where the game is to be looked for, best place first. `current_dir` is the current directory,
/// where it is known.
pub fn install_candidates(cli: Option<PathBuf>, current_dir: Option<PathBuf>) -> (r: Vec<PathBuf>)
    ensures
        r@ == candidates(cli, current_dir),
{
    let mut paths: Vec<PathBuf> = Vec::new();
    if let Some(path) = cli {
        paths.push(path);
    }
    if let Some(path) = current_dir {
        paths.push(path);
    }
    let ghost known = TRY_INSTALL_PATHS@.map_values(|text: &'static str| path_of(text@));
    let places = TRY_INSTALL_PATHS;
    let mut i: usize = 0;
    assert(paths@ == given(cli) + given(current_dir) + known.take(0));
    while i < places.len()
        invariant
            i <= places@.len(),
            places@ == TRY_INSTALL_PATHS@,
            known == TRY_INSTALL_PATHS@.map_values(|text: &'static str| path_of(text@)),
            paths@ == given(cli) + given(current_dir) + known.take(i as int),
        decreases places@.len() - i,
    {
        paths.push(path_from(places[i]));
        assert(known.take(i + 1) == known.take(i as int).push(known[i as int]));
        i = i + 1;
    }
    assert(known.take(i as int) == known);
    paths
}

/// Picks the install root: the first of `paths` that was found to be one. `valid` says of each
/// path whether [`REQUIRED_INDEX_PATH`] is a file below it.
pub fn resolve_install_root(paths: Vec<PathBuf>, valid: &Vec<bool>) -> (r: Option<PathBuf>)
    requires
        paths@.len() == valid@.len(),
    ensures
        r == first_valid(paths@, valid@),
{
    let mut i: usize = 0;
    assert(paths@.skip(0) == paths@ && valid@.skip(0) == valid@);
    while i < paths.len()
        invariant
            i <= paths@.len(),
            paths@.len() == valid@.len(),
            first_valid(paths@, valid@) == first_valid(
                paths@.skip(i as int),
                valid@.skip(i as int),
            ),
        decreases paths@.len() - i,
    {
        if valid[i] {
            let mut paths = paths;
            return Some(paths.swap_remove(i));
        }
        assert(paths@.skip(i as int).skip(1) == paths@.skip(i + 1));
        assert(valid@.skip(i as int).skip(1) == valid@.skip(i + 1));
        i = i + 1;
    }
    None
}

/// The directory that is written to: the configured one, or the default.
pub fn output_root(configured: Option<PathBuf>) -> (r: PathBuf)
    ensures
        r == match configured {
            Some(path) => path,
            None => path_of(DEFAULT_OUTPUT_ROOT@),
        },
{
    match configured {
        Some(path) => path,
        None => path_from(DEFAULT_OUTPUT_ROOT),
    }
}

} // verus!
