use std::path::PathBuf;

use icon_export::config::{
    install_candidates, output_root, parse_options, resolve_install_root, AppOptions, Argument,
    OptionError, OutputFormat, OutputMode, AVIF_QUALITY, DEFAULT_OUTPUT_ROOT, END_ID_EXCLUSIVE,
    START_ID, TRY_INSTALL_PATHS, VERSIONS, WEBP_QUALITY,
};

fn arguments(texts: &[&str]) -> Vec<Argument> {
    texts
        .iter()
        .map(|text| Argument {
            text: Some(text.to_string()),
            lossy: text.to_string(),
            path: PathBuf::from(text),
        })
        .collect()
}

fn parse(texts: &[&str]) -> Result<AppOptions, OptionError> {
    parse_options(arguments(texts))
}

fn fault(texts: &[&str]) -> String {
    parse(texts).unwrap_err().message()
}

#[test]
fn no_arguments() {
    let options = parse(&[]).unwrap();
    assert_eq!(options.install_root, None);
    assert_eq!(options.output_format, OutputFormat::Webp);
    assert_eq!(options.output_mode, OutputMode::Archive);
}

#[test]
fn format_in_two_arguments_in_any_case() {
    assert_eq!(parse(&["--format", "AVIF"]).unwrap().output_format, OutputFormat::Avif);
    assert_eq!(parse(&["--format", "WebP"]).unwrap().output_format, OutputFormat::Webp);
}

#[test]
fn format_in_one_argument_in_lower_case_only() {
    assert_eq!(parse(&["--format=avif"]).unwrap().output_format, OutputFormat::Avif);
    assert_eq!(
        fault(&["--format=AVIF"]),
        "unsupported output format `AVIF`; expected `webp` or `avif`"
    );
}

#[test]
fn unsupported_formats() {
    assert_eq!(
        fault(&["--format", "PNG"]),
        "unsupported output format `png`; expected `webp` or `avif`"
    );
    assert_eq!(fault(&["--format="]), "unsupported output format ``; expected `webp` or `avif`");
    assert!(matches!(parse(&["--format", "x"]), Err(OptionError::UnsupportedFormat(name)) if name == "x"));
}

#[test]
fn missing_format() {
    assert!(matches!(parse(&["--format"]), Err(OptionError::MissingFormat)));
    assert_eq!(fault(&["--format"]), "missing value for --format");
}

#[test]
fn an_option_is_taken_for_the_value_before_it() {
    assert_eq!(
        fault(&["--format", "--no-archive"]),
        "unsupported output format `--no-archive`; expected `webp` or `avif`"
    );
}

#[test]
fn output_modes() {
    assert_eq!(parse(&["--output-mode", "Files"]).unwrap().output_mode, OutputMode::Files);
    assert_eq!(parse(&["--output-mode=files"]).unwrap().output_mode, OutputMode::Files);
    assert_eq!(
        parse(&["--no-archive", "--output-mode=archive"]).unwrap().output_mode,
        OutputMode::Archive
    );
    assert_eq!(
        parse(&["--output-mode=archive", "--no-archive"]).unwrap().output_mode,
        OutputMode::Files
    );
}

#[test]
fn unsupported_modes() {
    assert!(matches!(parse(&["--output-mode"]), Err(OptionError::MissingMode)));
    assert_eq!(fault(&["--output-mode"]), "missing value for --output-mode");
    assert_eq!(
        fault(&["--output-mode", "ZIP"]),
        "unsupported output mode `zip`; expected `archive` or `files`"
    );
    assert_eq!(
        fault(&["--output-mode=Files"]),
        "unsupported output mode `Files`; expected `archive` or `files`"
    );
}

#[test]
fn unknown_options() {
    assert!(matches!(parse(&["--"]), Err(OptionError::UnknownOption(text)) if text == "--"));
    assert_eq!(fault(&["--formats"]), "unsupported option `--formats`");
    assert_eq!(fault(&["--no-archive=1"]), "unsupported option `--no-archive=1`");
}

#[test]
fn install_root_on_the_command_line() {
    let options = parse(&["--no-archive", "/games/xiv"]).unwrap();
    assert_eq!(options.install_root, Some(PathBuf::from("/games/xiv")));
    assert_eq!(parse(&["-x"]).unwrap().install_root, Some(PathBuf::from("-x")));
    assert_eq!(parse(&[""]).unwrap().install_root, Some(PathBuf::from("")));
    assert!(matches!(parse(&["a", "b"]), Err(OptionError::MultipleInstallRoots)));
    assert_eq!(fault(&["a", "b"]), "multiple install-root paths provided");
}

#[test]
fn argument_that_is_not_unicode() {
    let args = vec![Argument {
        text: None,
        lossy: "--no-archive\u{fffd}".to_string(),
        path: PathBuf::from("stands for it"),
    }];
    let options = parse_options(args).unwrap();
    assert_eq!(options.install_root, Some(PathBuf::from("stands for it")));
    assert_eq!(options.output_mode, OutputMode::Archive);

    let mut args = arguments(&["--format"]);
    args.push(Argument {
        text: None,
        lossy: "web\u{fffd}".to_string(),
        path: PathBuf::from("x"),
    });
    assert_eq!(
        parse_options(args).unwrap_err().message(),
        "unsupported output format `web\u{fffd}`; expected `webp` or `avif`"
    );
}

#[test]
fn last_format_and_mode_count() {
    let options = parse(&["--format=avif", "--format=webp", "--format", "Avif"]).unwrap();
    assert_eq!(options.output_format, OutputFormat::Avif);
    let options = parse(&["--output-mode=files", "--output-mode=archive"]).unwrap();
    assert_eq!(options.output_mode, OutputMode::Archive);
}

#[test]
fn first_fault_is_reported() {
    assert_eq!(fault(&["--what", "--format"]), "unsupported option `--what`");
    assert_eq!(fault(&["a", "b", "--what"]), "multiple install-root paths provided");
}

#[test]
fn install_candidates_in_order() {
    let paths = install_candidates(Some(PathBuf::from("cli")), Some(PathBuf::from("here")));
    assert_eq!(paths.len(), 8);
    assert_eq!(paths[0], PathBuf::from("cli"));
    assert_eq!(paths[1], PathBuf::from("here"));
    assert_eq!(paths[2], PathBuf::from("C:\\Games\\FINAL FANTASY XIV"));
    assert_eq!(paths[7], PathBuf::from(TRY_INSTALL_PATHS[5]));
    assert_eq!(install_candidates(None, None).len(), 6);
}

#[test]
fn first_valid_candidate_is_the_install_root() {
    let paths = install_candidates(Some(PathBuf::from("cli")), None);
    let mut valid = vec![false; 7];
    assert_eq!(resolve_install_root(paths.clone(), &valid), None);
    valid[6] = true;
    assert_eq!(
        resolve_install_root(paths.clone(), &valid),
        Some(PathBuf::from(TRY_INSTALL_PATHS[5]))
    );
    valid[2] = true;
    assert_eq!(
        resolve_install_root(paths.clone(), &valid),
        Some(PathBuf::from(TRY_INSTALL_PATHS[1]))
    );
    valid[0] = true;
    assert_eq!(resolve_install_root(paths, &valid), Some(PathBuf::from("cli")));
}

#[test]
fn configured_and_default_output_root() {
    assert_eq!(output_root(Some(PathBuf::from("/out"))), PathBuf::from("/out"));
    assert_eq!(output_root(None), PathBuf::from("outputs"));
    assert_eq!(DEFAULT_OUTPUT_ROOT, "outputs");
}

#[test]
fn names_of_formats() {
    assert_eq!(OutputFormat::Webp.extension(), "webp");
    assert_eq!(OutputFormat::Avif.extension(), "avif");
    assert_eq!(OutputFormat::Webp.archive_name(), "icons.webp.zip");
    assert_eq!(OutputFormat::Avif.archive_name(), "icons.avif.zip");
}

#[test]
fn what_is_exported() {
    assert_eq!(VERSIONS, ["", "/en", "/ja", "/fr", "/de", "/hq", "/chs"]);
    assert_eq!((START_ID, END_ID_EXCLUSIVE), (0, 1_000_000));
    assert_eq!((WEBP_QUALITY, AVIF_QUALITY), (50, 50));
}
