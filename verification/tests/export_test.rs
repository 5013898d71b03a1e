use std::path::PathBuf;

use icon_export::config::{OutputFormat, OutputMode};
use icon_export::digest::hex_sha256;
use icon_export::export::{
    new_deduper, Deduper, ExportProcessor, ExportStats, IdOutput, ProcessResult,
};
use icon_export::job::{Reply, Request};
use icon_export::paths::EncodedPath;
use icon_export::tex::{convert_tex_to_webp, TextureError};

fn texture(shade: u8) -> Vec<u8> {
    let mut data = vec![0u8; 80];
    data[4..8].copy_from_slice(&0x1450u32.to_le_bytes());
    data[8] = 1;
    data[10] = 1;
    data[28] = 80;
    data.extend_from_slice(&[shade, shade, shade, 255]);
    data
}

fn archive() -> ExportProcessor {
    ExportProcessor::new(OutputFormat::Webp, OutputMode::Archive, None)
}

fn files() -> ExportProcessor {
    ExportProcessor::new(OutputFormat::Webp, OutputMode::Files, Some(PathBuf::from("out")))
}

/// Runs a job to its end, and notes what it asked for.
fn run(
    processor: &ExportProcessor,
    deduper: &mut Deduper,
    id: u32,
    textures: &dyn Fn(&str) -> Option<Vec<u8>>,
    exists: &dyn Fn(&EncodedPath) -> bool,
) -> (Option<IdOutput>, Vec<String>) {
    let mut log = Vec::new();
    let mut job = processor.process_id(id);
    loop {
        let reply = match processor.request(&job) {
            Request::Read(path) => {
                let found = textures(&path);
                log.push(path);
                match found {
                    Some(data) => Reply::Texture(data),
                    None => Reply::NoTexture,
                }
            }
            Request::Register(sha256) => match deduper.insert(&sha256) {
                true => Reply::Fresh,
                false => Reply::Duplicate,
            },
            Request::Check(place) => {
                log.push(format!("{}|{}", place.shard, place.file_name));
                match exists(&place) {
                    true => Reply::FileExists,
                    false => Reply::FileMissing,
                }
            }
            Request::Finish => return (Some(job.finish()), log),
            Request::Abort => return (None, log),
        };
        job = processor.advance(job, reply);
    }
}

fn stats(found: usize, converted: usize, duplicates: usize, skipped: usize, errors: usize) -> ExportStats {
    ExportStats { found, converted, archived: 0, duplicates, skipped_existing: skipped, errors }
}

#[test]
fn icon_without_textures() {
    let (output, log) = run(&archive(), &mut new_deduper(), 7, &|_| None, &|_| false);
    let output = output.unwrap();
    assert!(output.mappings.is_empty() && output.archive_entries.is_empty());
    assert!(output.errors.is_empty());
    assert_eq!(output.stats, ExportStats::default());
    assert_eq!(log.len(), 14);
    assert_eq!(log[0], "ui/icon/000000/000007_hr1.tex");
    assert_eq!(log[1], "ui/icon/000000/000007.tex");
    assert_eq!(log[2], "ui/icon/000000/en/000007_hr1.tex");
    assert_eq!(log[13], "ui/icon/000000/chs/000007.tex");
}

#[test]
fn high_resolution_stands_for_low() {
    let textures = |path: &str| match path {
        "ui/icon/000000/000007_hr1.tex" => Some(texture(1)),
        "ui/icon/000000/000007.tex" => Some(texture(2)),
        "ui/icon/000000/ja/000007.tex" => Some(texture(3)),
        _ => None,
    };
    let (output, log) = run(&archive(), &mut new_deduper(), 7, &textures, &|_| false);
    let output = output.unwrap();
    assert_eq!(log.len(), 13);
    assert!(!log.contains(&"ui/icon/000000/000007.tex".to_string()));
    assert_eq!(output.stats, stats(2, 2, 0, 0, 0));
    let mappings: Vec<_> = output
        .mappings
        .iter()
        .map(|m| (m.id, m.version.as_str(), m.hr, m.sha256.clone()))
        .collect();
    assert_eq!(
        mappings,
        [
            (7, "", true, hex_sha256(&texture(1))),
            (7, "/ja", false, hex_sha256(&texture(3))),
        ]
    );
    assert_eq!(output.archive_entries[0].sha256, hex_sha256(&texture(1)));
    assert_eq!(output.archive_entries[0].data, convert_tex_to_webp(&texture(1)).unwrap());
    assert_eq!(output.archive_entries[1].data, convert_tex_to_webp(&texture(3)).unwrap());
}

#[test]
fn equal_textures_are_converted_once() {
    let mut deduper = new_deduper();
    let textures = |path: &str| path.ends_with("_hr1.tex").then_some(texture(5));
    let (output, _) = run(&archive(), &mut deduper, 1, &textures, &|_| false);
    let output = output.unwrap();
    assert_eq!(output.stats, stats(7, 1, 6, 0, 0));
    assert_eq!(output.mappings.len(), 7);
    assert_eq!(output.archive_entries.len(), 1);
    let (output, _) = run(&archive(), &mut deduper, 2, &textures, &|_| false);
    let output = output.unwrap();
    assert_eq!(output.stats, stats(7, 0, 7, 0, 0));
    assert!(output.archive_entries.is_empty());
}

#[test]
fn faulty_texture_is_reported_and_the_low_one_tried() {
    let textures = |path: &str| match path {
        "ui/icon/012000/012345_hr1.tex" => Some(vec![1, 2, 3]),
        "ui/icon/012000/012345.tex" => Some(texture(9)),
        _ => None,
    };
    let (output, _) = run(&archive(), &mut new_deduper(), 12345, &textures, &|_| false);
    let output = output.unwrap();
    assert_eq!(output.stats, stats(2, 1, 0, 0, 1));
    assert_eq!(
        output.errors,
        ["ui/icon/012000/012345_hr1.tex: invalid texture buffer: expected at least 80 bytes, got 3"]
    );
    assert!(output.mappings[0].hr && !output.mappings[1].hr);
}

#[test]
fn faulty_texture_is_a_duplicate_the_second_time() {
    let textures = |path: &str| path.contains("000001").then_some(vec![1, 2, 3]);
    let (output, _) = run(&archive(), &mut new_deduper(), 1, &textures, &|_| false);
    let output = output.unwrap();
    assert_eq!(output.stats, stats(8, 0, 7, 0, 1));
}

#[test]
fn existing_files_are_left_out() {
    let textures = |path: &str| (path == "ui/icon/000000/000003_hr1.tex").then_some(texture(4));
    let sha256 = hex_sha256(&texture(4));
    let (output, log) = run(&files(), &mut new_deduper(), 3, &textures, &|_| true);
    let output = output.unwrap();
    assert_eq!(output.stats, stats(1, 0, 0, 1, 0));
    assert!(output.archive_entries.is_empty());
    assert_eq!(log[1], format!("{}|{}.webp", &sha256[..2], sha256));
    let (output, _) = run(&files(), &mut new_deduper(), 3, &textures, &|_| false);
    assert_eq!(output.unwrap().stats, stats(1, 1, 0, 0, 0));
}

#[test]
fn files_are_looked_for_in_files_mode_only() {
    let textures = |path: &str| (path == "ui/icon/000000/000003_hr1.tex").then_some(texture(4));
    let rootless = ExportProcessor::new(OutputFormat::Webp, OutputMode::Files, None);
    let rooted = ExportProcessor::new(
        OutputFormat::Webp,
        OutputMode::Archive,
        Some(PathBuf::from("out")),
    );
    assert!(files().skips_existing());
    for processor in [archive(), rootless, rooted] {
        assert!(!processor.skips_existing());
        let (output, log) = run(&processor, &mut new_deduper(), 3, &textures, &|_| true);
        assert_eq!(output.unwrap().stats, stats(1, 1, 0, 0, 0));
        assert!(log.iter().all(|line| line.starts_with("ui/icon/")));
    }
}

#[test]
fn refused_image_ends_the_job() {
    let mut empty = texture(0);
    empty[8] = 0;
    let textures = |_: &str| Some(empty.clone());
    let (output, log) = run(&archive(), &mut new_deduper(), 3, &textures, &|_| false);
    assert!(output.is_none());
    assert_eq!(log.len(), 1);
}

#[test]
fn textures_in_avif() {
    let textures = |path: &str| (path == "ui/icon/000000/000003.tex").then_some(texture(4));
    let processor = ExportProcessor::new(OutputFormat::Avif, OutputMode::Archive, None);
    let (output, _) = run(&processor, &mut new_deduper(), 3, &textures, &|_| false);
    let output = output.unwrap();
    assert_eq!(output.stats, stats(1, 0, 0, 0, 1));
    assert_eq!(output.errors, ["ui/icon/000000/000003.tex: avif encoding is not available"]);
}

#[test]
fn what_becomes_of_a_texture() {
    let data = texture(8);
    let result = archive().process_texture(&data, "00ff", true, true).unwrap();
    assert!(matches!(result, ProcessResult::Archived(entry) if entry.sha256 == "00ff"));
    let result = archive().process_texture(&data, "00ff", false, false).unwrap();
    assert!(matches!(result, ProcessResult::Duplicate));
    let result = files().process_texture(&data, "00ff", true, true).unwrap();
    assert!(matches!(result, ProcessResult::ExistingFile));
    let result = files().process_texture(&data, "00ff", false, true).unwrap();
    assert!(matches!(result, ProcessResult::Duplicate));
    let result = archive().process_texture(&[], "00ff", true, false);
    assert!(matches!(result, Err(TextureError::TooShort { len: 0 })));
}

#[test]
fn entering_a_texture() {
    let processor = archive();
    let mut output = IdOutput {
        mappings: Vec::new(),
        archive_entries: Vec::new(),
        stats: ExportStats::default(),
        errors: Vec::new(),
    };
    let found = |result, output: &mut IdOutput| {
        processor.process_path(4, "/de", false, "ab".to_string(), result, output)
    };
    assert!(found(Ok(ProcessResult::Duplicate), &mut output));
    assert!(found(Ok(ProcessResult::ExistingFile), &mut output));
    assert!(!found(Err(TextureError::UnsupportedFormat(1)), &mut output));
    assert_eq!(output.stats, stats(3, 0, 1, 1, 1));
    assert_eq!(output.mappings.len(), 3);
    assert_eq!(
        output.errors,
        ["ui/icon/000000/de/000004.tex: unsupported texture format 0x0001"]
    );
}

#[test]
fn digests_are_new_once() {
    let mut deduper = new_deduper();
    assert!(deduper.insert("a"));
    assert!(deduper.insert("b"));
    assert!(!deduper.insert("a"));
    assert!(!deduper.insert("b"));
    assert!(new_deduper().insert("a"));
}

#[test]
fn stats_are_merged() {
    let a = ExportStats { archived: 6, ..stats(1, 2, 3, 4, 5) };
    let b = ExportStats { archived: 60, ..stats(10, 20, 30, 40, 50) };
    let mut left = a;
    left.merge(b);
    let mut right = b;
    right.merge(a);
    assert_eq!(left, ExportStats { archived: 66, ..stats(11, 22, 33, 44, 55) });
    assert_eq!(left, right);
    left.merge(ExportStats::default());
    assert_eq!(left, right);
}

#[test]
fn jobs_that_alternate_share_their_digests() {
    let processor = archive();
    let mut deduper = new_deduper();
    let mut jobs = vec![Some(processor.process_id(1)), Some(processor.process_id(2))];
    let mut outputs = Vec::new();
    let mut turn: usize = 0;
    while outputs.len() < 2 {
        if let Some(job) = jobs[turn % 2].take() {
            let reply = match processor.request(&job) {
                Request::Read(path) if path.contains("/en/") => Reply::Texture(texture(6)),
                Request::Read(path) if path.contains("/de/") => Reply::Texture(vec![0; 3]),
                Request::Read(_) => Reply::NoTexture,
                Request::Register(sha256) => match deduper.insert(&sha256) {
                    true => Reply::Fresh,
                    false => Reply::Duplicate,
                },
                Request::Finish => {
                    outputs.push(job.finish());
                    continue;
                }
                _ => unreachable!(),
            };
            jobs[turn % 2] = Some(processor.advance(job, reply));
        }
        turn += 1;
    }
    let images: Vec<_> = outputs.iter().flat_map(|output| &output.archive_entries).collect();
    assert_eq!(images.len(), 1);
    assert_eq!(images[0].sha256, hex_sha256(&texture(6)));
    let mut total = outputs[0].stats;
    total.merge(outputs[1].stats);
    assert_eq!(total, stats(5, 1, 3, 0, 1));
}
