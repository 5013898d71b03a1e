//! Laws of the command line and of the search for the game.

use std::path::PathBuf;
use vstd::prelude::*;

use crate::config::{AppOptions, Argument, OutputFormat, OutputMode};

verus! {

use crate::config::{
    candidates, default_options, first_option, first_valid, format_named, mode_named,
    options_after, path_of, word, OptionFault, Word,
};
use crate::text::lowercased;

/// Arguments are read from the left: what follows arguments that were accepted is read as if it
/// stood alone, with the options that these arguments set.
pub proof fn law_read_from_the_left(a: Seq<Argument>, b: Seq<Argument>, options: AppOptions)
    requires
        options_after(a, options) is Ok,
    ensures
        options_after(a + b, options) == options_after(b, options_after(a, options)->Ok_0),
    decreases a.len(),
{
    if a.len() == 0 {
        assert(a + b == b);
    } else {
        let (next, taken) = first_option(a, options);
        assert((a + b)[0] == a[0]);
        assert(a.len() > 1 ==> (a + b)[1] == a[1]);
        assert(first_option(a + b, options) == first_option(a, options));
        assert((a + b).skip(taken) == a.skip(taken) + b);
        law_read_from_the_left(a.skip(taken), b, next->Ok_0);
    }
}

/// A fault in the arguments is reported whatever follows them, unless it is a value that is
/// missing at their end.
pub proof fn law_first_fault_stands(a: Seq<Argument>, b: Seq<Argument>, options: AppOptions)
    requires
        options_after(a, options) is Err,
        !(options_after(a, options)->Err_0 is MissingFormat),
        !(options_after(a, options)->Err_0 is MissingMode),
    ensures
        options_after(a + b, options) == options_after(a, options),
    decreases a.len(),
{
    let (next, taken) = first_option(a, options);
    assert((a + b)[0] == a[0]);
    assert(a.len() > 1 ==> (a + b)[1] == a[1]);
    assert(first_option(a + b, options) == first_option(a, options));
    if next is Ok {
        assert((a + b).skip(taken) == a.skip(taken) + b);
        law_first_fault_stands(a.skip(taken), b, next->Ok_0);
    }
}

/// Of several formats the last one counts.
pub proof fn law_last_format_counts(a: Seq<Argument>, last: Argument, options: AppOptions)
    requires
        options_after(a, options) is Ok,
        word(last) matches Word::FormatIs(name) && format_named(name) is Some,
    ensures
        options_after(a.push(last), options) == Ok::<_, OptionFault>(
            AppOptions {
                output_format: format_named(word(last)->FormatIs_0)->0,
                ..options_after(a, options)->Ok_0
            },
        ),
{
    reveal_with_fuel(options_after, 2);
    law_read_from_the_left(a, seq![last], options);
    assert(a.push(last) == a + seq![last]);
}

/// Of several modes the last one counts.
pub proof fn law_last_mode_counts(a: Seq<Argument>, last: Argument, options: AppOptions)
    requires
        options_after(a, options) is Ok,
        word(last) matches Word::ModeIs(name) && mode_named(name) is Some,
    ensures
        options_after(a.push(last), options) == Ok::<_, OptionFault>(
            AppOptions {
                output_mode: mode_named(word(last)->ModeIs_0)->0,
                ..options_after(a, options)->Ok_0
            },
        ),
{
    reveal_with_fuel(options_after, 2);
    law_read_from_the_left(a, seq![last], options);
    assert(a.push(last) == a + seq![last]);
}

/// `--no-archive` says the same as `--output-mode=files`, and as `--output-mode` followed by
/// `files` in any letter case.
pub proof fn law_no_archive_means_files(
    short: Argument,
    inline: Argument,
    flag: Argument,
    value: Argument,
    rest: Seq<Argument>,
    options: AppOptions,
)
    requires
        word(short) is NoArchive,
        word(inline) == Word::ModeIs("files"@),
        word(flag) is Mode,
        crate::text::lowercased(value.lossy@) == "files"@,
    ensures
        options_after(seq![short] + rest, options) == options_after(seq![inline] + rest, options),
        options_after(seq![short] + rest, options) == options_after(
            seq![flag, value] + rest,
            options,
        ),
{
    reveal_strlit("files");
    reveal_strlit("archive");
    assert("files"@[0] != "archive"@[0]);
    assert((seq![short] + rest).skip(1) == rest);
    assert((seq![inline] + rest).skip(1) == rest);
    assert((seq![flag, value] + rest).skip(2) == rest);
}

/// There is at most one install root: a second one is refused.
pub proof fn law_second_root_refused(a: Seq<Argument>, root: Argument, b: Seq<Argument>)
    requires
        options_after(a, default_options()) matches Ok(options) && options.install_root is Some,
        word(root) is Root,
    ensures
        options_after(a + seq![root] + b, default_options()) == Err::<AppOptions, _>(
            OptionFault::MultipleInstallRoots,
        ),
{
    law_read_from_the_left(a, seq![root] + b, default_options());
    assert(a + seq![root] + b == a + (seq![root] + b));
}

/// An install root that is accepted is one of the arguments.
pub proof fn law_root_is_an_argument(args: Seq<Argument>, options: AppOptions) -> (i: int)
    requires
        options.install_root is None,
        options_after(args, options) matches Ok(result) && result.install_root is Some,
    ensures
        0 <= i < args.len(),
        word(args[i]) is Root,
        options_after(args, options)->Ok_0.install_root == Some(args[i].path),
    decreases args.len(),
{
    let (next, taken) = first_option(args, options);
    if word(args[0]) is Root {
        lemma_root_stays(args.skip(taken), next->Ok_0);
        0
    } else {
        let i = law_root_is_an_argument(args.skip(taken), next->Ok_0);
        i + taken
    }
}

proof fn lemma_root_stays(args: Seq<Argument>, options: AppOptions)
    requires
        options.install_root is Some,
        options_after(args, options) is Ok,
    ensures
        options_after(args, options)->Ok_0.install_root == options.install_root,
    decreases args.len(),
{
    if args.len() > 0 {
        let (next, taken) = first_option(args, options);
        lemma_root_stays(args.skip(taken), next->Ok_0);
    }
}

/// The install root is the first candidate that is valid, and there is none only where no
/// candidate is.
pub proof fn law_first_valid(paths: Seq<PathBuf>, valid: Seq<bool>)
    requires
        paths.len() == valid.len(),
    ensures
        first_valid(paths, valid) is None <==> forall|i: int|
            0 <= i < valid.len() ==> !#[trigger] valid[i],
        first_valid(paths, valid) is Some ==> exists|i: int|
            #![trigger valid[i]]
            0 <= i < valid.len() && valid[i] && first_valid(paths, valid) == Some(paths[i])
                && forall|j: int| 0 <= j < i ==> !#[trigger] valid[j],
    decreases paths.len(),
{
    if paths.len() > 0 {
        if valid[0] {
            assert(first_valid(paths, valid) == Some(paths[0]));
        } else {
            let (more_paths, more_valid) = (paths.skip(1), valid.skip(1));
            law_first_valid(more_paths, more_valid);
            if first_valid(more_paths, more_valid) is None {
                assert forall|i: int| 0 <= i < valid.len() implies !#[trigger] valid[i] by {
                    if i > 0 {
                        assert(!more_valid[i - 1]);
                    }
                }
            } else {
                let k = choose|k: int|
                    #![trigger more_valid[k]]
                    0 <= k < more_valid.len() && more_valid[k] && first_valid(
                        more_paths,
                        more_valid,
                    ) == Some(more_paths[k]) && forall|j: int|
                        0 <= j < k ==> !#[trigger] more_valid[j];
                assert(valid[k + 1]);
                assert(paths[k + 1] == more_paths[k]);
                assert forall|j: int| 0 <= j < k + 1 implies !#[trigger] valid[j] by {
                    if j > 0 {
                        assert(!more_valid[j - 1]);
                    }
                }
            }
        }
    }
}

/// A valid path on the command line is taken, whatever else is valid.
pub proof fn law_command_line_first(
    cli: PathBuf,
    current_dir: Option<PathBuf>,
    valid: Seq<bool>,
)
    requires
        valid.len() == candidates(Some(cli), current_dir).len(),
        valid[0],
    ensures
        first_valid(candidates(Some(cli), current_dir), valid) == Some(cli),
{
    assert(candidates(Some(cli), current_dir)[0] == cli);
}

/// Whether the argument is that text.
pub open spec fn is_text(arg: Argument, text: Seq<char>) -> bool {
    arg.text matches Some(own) && own@ == text
}

/// Whether the argument starts with that text.
pub open spec fn starts_with(arg: Argument, text: Seq<char>) -> bool {
    arg.text matches Some(own) && text.is_prefix_of(own@)
}

/// Whether the argument has a meaning other than that of an install root.
pub open spec fn is_option(arg: Argument) -> bool {
    starts_with(arg, "--"@)
}

/// Whether the argument is one of the options that there are.
pub open spec fn is_known(arg: Argument) -> bool {
    ||| is_text(arg, "--format"@)
    ||| is_text(arg, "--output-mode"@)
    ||| is_text(arg, "--no-archive"@)
    ||| starts_with(arg, "--format="@)
    ||| starts_with(arg, "--output-mode="@)
}

/// Whether `args` were accepted and led to those options.
pub open spec fn lead_to(args: Seq<Argument>, options: AppOptions) -> bool {
    options_after(args, default_options()) == Ok::<AppOptions, OptionFault>(options)
}

/// Whether `args` were refused for that reason.
pub open spec fn fail_with(args: Seq<Argument>, fault: OptionFault) -> bool {
    options_after(args, default_options()) == Err::<AppOptions, OptionFault>(fault)
}

proof fn lemma_words()
    ensures
        "--"@ == seq!['-', '-'],
        "--format"@ == seq!['-', '-', 'f', 'o', 'r', 'm', 'a', 't'],
        "--format="@ == seq!['-', '-', 'f', 'o', 'r', 'm', 'a', 't', '='],
        "--output-mode"@ == seq![
            '-',
            '-',
            'o',
            'u',
            't',
            'p',
            'u',
            't',
            '-',
            'm',
            'o',
            'd',
            'e',
        ],
        "--output-mode="@ == seq![
            '-',
            '-',
            'o',
            'u',
            't',
            'p',
            'u',
            't',
            '-',
            'm',
            'o',
            'd',
            'e',
            '=',
        ],
        "--no-archive"@ == seq!['-', '-', 'n', 'o', '-', 'a', 'r', 'c', 'h', 'i', 'v', 'e'],
{
    reveal_strlit("--");
    reveal_strlit("--format");
    reveal_strlit("--format=");
    reveal_strlit("--output-mode");
    reveal_strlit("--output-mode=");
    reveal_strlit("--no-archive");
    assert("--"@ =~= seq!['-', '-']);
    assert("--format"@ =~= seq!['-', '-', 'f', 'o', 'r', 'm', 'a', 't']);
    assert("--format="@ =~= seq!['-', '-', 'f', 'o', 'r', 'm', 'a', 't', '=']);
    assert("--output-mode"@ =~= seq![
        '-',
        '-',
        'o',
        'u',
        't',
        'p',
        'u',
        't',
        '-',
        'm',
        'o',
        'd',
        'e',
    ]);
    assert("--output-mode="@ =~= seq![
        '-',
        '-',
        'o',
        'u',
        't',
        'p',
        'u',
        't',
        '-',
        'm',
        'o',
        'd',
        'e',
        '=',
    ]);
    assert("--no-archive"@ =~= seq!['-', '-', 'n', 'o', '-', 'a', 'r', 'c', 'h', 'i', 'v', 'e']);
}

proof fn lemma_names()
    ensures
        "webp"@ != "avif"@,
        "archive"@ != "files"@,
{
    reveal_strlit("webp");
    reveal_strlit("avif");
    reveal_strlit("archive");
    reveal_strlit("files");
    assert("webp"@[0] != "avif"@[0]);
    assert("archive"@[0] != "files"@[0]);
}

/// Without arguments the images become WebP files in an archive, and no install root is given.
pub proof fn law_no_arguments()
    ensures
        lead_to(
            seq![],
            AppOptions {
                install_root: None,
                output_format: OutputFormat::Webp,
                output_mode: OutputMode::Archive,
            },
        ),
{
}

/// A format option that names a format, in one argument or in two, sets the format and leaves the
/// mode and the install root as the arguments before it set them. The name is taken in any letter
/// case where it is an argument of its own, and as it stands where it is not.
pub proof fn law_format_option(
    a: Seq<Argument>,
    before: AppOptions,
    flag: Argument,
    value: Argument,
    inline: Argument,
    output_format: OutputFormat,
)
    requires
        lead_to(a, before),
        is_text(flag, "--format"@),
        output_format == OutputFormat::Webp ==> {
            &&& lowercased(value.lossy@) == "webp"@
            &&& is_text(inline, "--format="@ + "webp"@)
        },
        output_format == OutputFormat::Avif ==> {
            &&& lowercased(value.lossy@) == "avif"@
            &&& is_text(inline, "--format="@ + "avif"@)
        },
    ensures
        lead_to(
            a + seq![flag, value],
            AppOptions {
                install_root: before.install_root,
                output_format,
                output_mode: before.output_mode,
            },
        ),
        lead_to(
            a + seq![inline],
            AppOptions {
                install_root: before.install_root,
                output_format,
                output_mode: before.output_mode,
            },
        ),
{
    lemma_words();
    lemma_names();
    reveal_with_fuel(options_after, 2);
    law_read_from_the_left(a, seq![flag, value], default_options());
    law_read_from_the_left(a, seq![inline], default_options());
    assert(seq![flag, value].skip(2) =~= seq![]);
    assert(seq![inline].skip(1) =~= seq![]);
    let text = inline.text->0@;
    assert(text[8] == '=');
    assert("--format="@.is_prefix_of(text));
    assert(("--format="@ + "webp"@).skip(9) =~= "webp"@);
    assert(("--format="@ + "avif"@).skip(9) =~= "avif"@);
}

/// A mode option that names a mode, in one argument or in two, sets the mode and leaves the format
/// and the install root as the arguments before it set them.
pub proof fn law_mode_option(
    a: Seq<Argument>,
    before: AppOptions,
    flag: Argument,
    value: Argument,
    inline: Argument,
    output_mode: OutputMode,
)
    requires
        lead_to(a, before),
        is_text(flag, "--output-mode"@),
        output_mode == OutputMode::Archive ==> {
            &&& lowercased(value.lossy@) == "archive"@
            &&& is_text(inline, "--output-mode="@ + "archive"@)
        },
        output_mode == OutputMode::Files ==> {
            &&& lowercased(value.lossy@) == "files"@
            &&& is_text(inline, "--output-mode="@ + "files"@)
        },
    ensures
        lead_to(
            a + seq![flag, value],
            AppOptions {
                install_root: before.install_root,
                output_format: before.output_format,
                output_mode,
            },
        ),
        lead_to(
            a + seq![inline],
            AppOptions {
                install_root: before.install_root,
                output_format: before.output_format,
                output_mode,
            },
        ),
{
    lemma_words();
    lemma_names();
    reveal_with_fuel(options_after, 2);
    law_read_from_the_left(a, seq![flag, value], default_options());
    law_read_from_the_left(a, seq![inline], default_options());
    assert(seq![flag, value].skip(2) =~= seq![]);
    assert(seq![inline].skip(1) =~= seq![]);
    assert(flag.text->0@[2] == 'o');
    let text = inline.text->0@;
    assert(text[2] == 'o');
    assert(text[13] == '=');
    assert("--output-mode="@.is_prefix_of(text));
    assert(("--output-mode="@ + "archive"@).skip(14) =~= "archive"@);
    assert(("--output-mode="@ + "files"@).skip(14) =~= "files"@);
}

/// `--no-archive` sets the mode to files, and an argument that is no option sets the install root
/// where there is none yet; both leave the rest as the arguments before set it.
pub proof fn law_single_arguments(
    a: Seq<Argument>,
    before: AppOptions,
    no_archive: Argument,
    root: Argument,
)
    requires
        lead_to(a, before),
        is_text(no_archive, "--no-archive"@),
        !is_option(root),
    ensures
        lead_to(
            a + seq![no_archive],
            AppOptions {
                install_root: before.install_root,
                output_format: before.output_format,
                output_mode: OutputMode::Files,
            },
        ),
        before.install_root is None ==> lead_to(
            a + seq![root],
            AppOptions {
                install_root: Some(root.path),
                output_format: before.output_format,
                output_mode: before.output_mode,
            },
        ),
        before.install_root is Some ==> fail_with(
            a + seq![root],
            OptionFault::MultipleInstallRoots,
        ),
{
    lemma_words();
    reveal_with_fuel(options_after, 2);
    law_read_from_the_left(a, seq![no_archive], default_options());
    law_read_from_the_left(a, seq![root], default_options());
    assert(seq![no_archive].skip(1) =~= seq![]);
    assert(seq![root].skip(1) =~= seq![]);
    let text = no_archive.text->0@;
    assert(text[2] == 'n');
    if root.text is Some {
        lemma_no_option(root);
    }
}

proof fn lemma_no_option(root: Argument)
    requires
        root.text is Some,
        !is_option(root),
    ensures
        word(root) is Root,
{
    lemma_words();
    let text = root.text->0@;
    assert forall|longer: Seq<char>|
        longer.len() >= 2 && longer[0] == '-' && longer[1] == '-' && #[trigger] longer.is_prefix_of(
            text,
        ) implies false by {
        assert(text[0] == longer[0] && text[1] == longer[1]);
        assert("--"@.is_prefix_of(text));
    }
    assert(text == "--format"@ ==> "--format"@.is_prefix_of(text));
    assert(text == "--output-mode"@ ==> "--output-mode"@.is_prefix_of(text));
    assert(text == "--no-archive"@ ==> "--no-archive"@.is_prefix_of(text));
}

/// An option whose value is missing, or names nothing that there is, and an option that there is
/// not are refused with what was wrong.
pub proof fn law_refused_options(
    a: Seq<Argument>,
    before: AppOptions,
    format: Argument,
    mode: Argument,
    value: Argument,
    name: Seq<char>,
    inline_format: Argument,
    inline_mode: Argument,
    unknown: Argument,
)
    requires
        lead_to(a, before),
        is_text(format, "--format"@),
        is_text(mode, "--output-mode"@),
        is_text(inline_format, "--format="@ + name),
        is_text(inline_mode, "--output-mode="@ + name),
        is_option(unknown),
        !is_known(unknown),
    ensures
        fail_with(a + seq![format], OptionFault::MissingFormat),
        fail_with(a + seq![mode], OptionFault::MissingMode),
        lowercased(value.lossy@) != "webp"@ && lowercased(value.lossy@) != "avif"@ ==> fail_with(
            a + seq![format, value],
            OptionFault::UnsupportedFormat(lowercased(value.lossy@)),
        ),
        lowercased(value.lossy@) != "archive"@ && lowercased(value.lossy@) != "files"@
            ==> fail_with(
            a + seq![mode, value],
            OptionFault::UnsupportedMode(lowercased(value.lossy@)),
        ),
        name != "webp"@ && name != "avif"@ ==> fail_with(
            a + seq![inline_format],
            OptionFault::UnsupportedFormat(name),
        ),
        name != "archive"@ && name != "files"@ ==> fail_with(
            a + seq![inline_mode],
            OptionFault::UnsupportedMode(name),
        ),
        fail_with(a + seq![unknown], OptionFault::UnknownOption(unknown.text->0@)),
{
    lemma_words();
    law_read_from_the_left(a, seq![format], default_options());
    law_read_from_the_left(a, seq![mode], default_options());
    law_read_from_the_left(a, seq![format, value], default_options());
    law_read_from_the_left(a, seq![mode, value], default_options());
    law_read_from_the_left(a, seq![inline_format], default_options());
    law_read_from_the_left(a, seq![inline_mode], default_options());
    law_read_from_the_left(a, seq![unknown], default_options());
    assert(mode.text->0@[2] == 'o');
    let (x, y) = (inline_format.text->0@, inline_mode.text->0@);
    assert(x[8] == '=' && y[13] == '=' && y[2] == 'o');
    assert("--format="@.is_prefix_of(x));
    assert("--output-mode="@.is_prefix_of(y));
    assert(("--format="@ + name).skip(9) =~= name);
    assert(("--output-mode="@ + name).skip(14) =~= name);
}

/// The directories of a game's installation are the usual ones.
pub proof fn law_common_places()
    ensures
        crate::config::TRY_INSTALL_PATHS@.len() == 6,
        crate::config::TRY_INSTALL_PATHS@[0]@ == "C:\\Games\\FINAL FANTASY XIV"@,
        crate::config::TRY_INSTALL_PATHS@[1]@
            == "C:\\SquareEnix\\FINAL FANTASY XIV - A Realm Reborn"@,
        crate::config::TRY_INSTALL_PATHS@[2]@
            == "C:\\Program Files (x86)\\Steam\\steamapps\\common\\FINAL FANTASY XIV Online"@,
        crate::config::TRY_INSTALL_PATHS@[3]@
            == "C:\\Program Files (x86)\\Steam\\steamapps\\common\\FINAL FANTASY XIV - A Realm Reborn"@,
        crate::config::TRY_INSTALL_PATHS@[4]@
            == "C:\\Program Files (x86)\\FINAL FANTASY XIV - A Realm Reborn"@,
        crate::config::TRY_INSTALL_PATHS@[5]@
            == "C:\\Program Files (x86)\\SquareEnix\\FINAL FANTASY XIV - A Realm Reborn"@,
        crate::config::REQUIRED_INDEX_PATH@ == "game\\sqpack\\ffxiv\\060000.win32.index"@,
        crate::config::DEFAULT_OUTPUT_ROOT@ == "outputs"@,
{
}

/// Where the game is looked for: at the path on the command line, in the current directory,
/// whether or not such a path was given, and in the common places. The first of them that is
/// valid is the install root.
pub proof fn law_install_root(
    cli: Option<PathBuf>,
    current_dir: Option<PathBuf>,
    valid: spec_fn(PathBuf) -> bool,
    place: int,
)
    requires
        0 <= place < 6,
    ensures
        ({
            let paths = candidates(cli, current_dir);
            let root = first_valid(paths, paths.map_values(valid));
            let common = |k: int| path_of(crate::config::TRY_INSTALL_PATHS@[k]@);
            let cli_valid = cli is Some && valid(cli->0);
            let here_valid = current_dir is Some && valid(current_dir->0);
            &&& cli_valid ==> root == cli
            &&& !cli_valid && here_valid ==> root == current_dir
            &&& !cli_valid && !here_valid && valid(common(place)) && (forall|k: int|
                0 <= k < place ==> !valid(#[trigger] path_of(
                    crate::config::TRY_INSTALL_PATHS@[k]@,
                ))) ==> root == Some(common(place))
            &&& !cli_valid && !here_valid && (forall|k: int|
                0 <= k < 6 ==> !valid(#[trigger] path_of(
                    crate::config::TRY_INSTALL_PATHS@[k]@,
                ))) ==> root is None
        }),
{
    let paths = candidates(cli, current_dir);
    let flags = paths.map_values(valid);
    let first = (if cli is Some {
        1int
    } else {
        0int
    });
    let before = first + if current_dir is Some {
        1int
    } else {
        0int
    };
    assert(paths.len() == before + 6);
    assert(cli is Some ==> paths[0] == cli->0);
    assert(current_dir is Some ==> paths[first] == current_dir->0);
    assert forall|k: int| 0 <= k < 6 implies #[trigger] paths[before + k] == path_of(
        crate::config::TRY_INSTALL_PATHS@[k]@,
    ) by {}
    law_first_valid(paths, flags);
    let root = first_valid(paths, flags);
    if root is Some {
        let i = choose|i: int|
            #![trigger flags[i]]
            0 <= i < flags.len() && flags[i] && root == Some(paths[i]) && forall|j: int|
                0 <= j < i ==> !#[trigger] flags[j];
        assert(flags[i] == valid(paths[i]));
        assert(i > 0 ==> !flags[0] && flags[0] == valid(paths[0]));
        assert(i > first ==> !flags[first] && flags[first] == valid(paths[first]));
        if i >= before {
            let k = i - before;
            assert(paths[before + k] == path_of(crate::config::TRY_INSTALL_PATHS@[k]@));
            if k > place {
                assert(!flags[before + place]);
                assert(flags[before + place] == valid(paths[before + place]));
            }
        }
    } else {
        assert(!flags[before + place] && flags[before + place] == valid(paths[before + place]));
        assert(before > 0 ==> !flags[0] && flags[0] == valid(paths[0]));
        assert(before > first ==> !flags[first] && flags[first] == valid(paths[first]));
    }
}

/// What the user is told of each fault in the arguments.
pub proof fn law_option_messages(name: Seq<char>)
    ensures
        OptionFault::MissingFormat.message() == "missing value for --format"@,
        OptionFault::MissingMode.message() == "missing value for --output-mode"@,
        OptionFault::UnsupportedFormat(name).message() == "unsupported output format `"@ + name
            + "`; expected `webp` or `avif`"@,
        OptionFault::UnsupportedMode(name).message() == "unsupported output mode `"@ + name
            + "`; expected `archive` or `files`"@,
        OptionFault::UnknownOption(name).message() == "unsupported option `"@ + name + "`"@,
        OptionFault::MultipleInstallRoots.message() == "multiple install-root paths provided"@,
{
}

/// The names of the output formats, and of the archives that they are stored in.
pub proof fn law_format_names()
    ensures
        OutputFormat::Webp.extension_text() == "webp"@,
        OutputFormat::Avif.extension_text() == "avif"@,
        OutputFormat::Webp.archive_text() == "icons.webp.zip"@,
        OutputFormat::Avif.archive_text() == "icons.avif.zip"@,
{
    reveal_strlit("icons.");
    reveal_strlit("webp");
    reveal_strlit("avif");
    reveal_strlit(".zip");
    reveal_strlit("icons.webp.zip");
    reveal_strlit("icons.avif.zip");
    assert(OutputFormat::Webp.archive_text() =~= "icons.webp.zip"@);
    assert(OutputFormat::Avif.archive_text() =~= "icons.avif.zip"@);
}

} // verus!
