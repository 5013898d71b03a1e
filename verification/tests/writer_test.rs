use std::path::PathBuf;

use icon_export::config::OutputFormat;
use icon_export::digest::hex_sha256;
use icon_export::export::{ArchiveEntry, ExportStats, IdOutput, MappingEntry};
use icon_export::writer::{OutputWriter, WriteReply, WriteRequest};

/// An output of an icon with images of the given contents, and one faulty texture.
fn output(id: u32, images: &[u8]) -> IdOutput {
    let mut mappings = Vec::new();
    let mut archive_entries = Vec::new();
    for image in images {
        let sha256 = hex_sha256(&[*image]);
        mappings.push(MappingEntry {
            id,
            version: String::new(),
            hr: true,
            sha256: sha256.clone(),
        });
        archive_entries.push(ArchiveEntry { sha256, data: vec![*image] });
    }
    mappings.push(MappingEntry {
        id,
        version: "/en".to_string(),
        hr: false,
        sha256: hex_sha256(b"faulty"),
    });
    let stats = ExportStats {
        found: images.len() + 1,
        converted: images.len(),
        archived: 0,
        duplicates: 0,
        skipped_existing: 0,
        errors: 1,
    };
    IdOutput { mappings, archive_entries, stats, errors: vec![format!("fault of {id}")] }
}

/// Runs the storing to its end; an image is there already if its one byte is in `present`.
fn store(writer: &mut OutputWriter, output: IdOutput, present: &[&str]) -> Vec<String> {
    assert!(writer.has_room(&output));
    let mut log = Vec::new();
    let mut job = writer.write_output(output);
    loop {
        let reply = match writer.request(&job) {
            WriteRequest::Add { name, sha256, data } => {
                assert_eq!(sha256, &hex_sha256(data));
                log.push(format!("add {name} {data:?}"));
                WriteReply::Stored
            }
            WriteRequest::Check { path } => {
                let place = format!("{}/{}", path.relative.shard, path.relative.file_name);
                assert_eq!(path.root, &PathBuf::from("out"));
                match present.contains(&place.as_str()) {
                    true => WriteReply::FileExists,
                    false => WriteReply::FileMissing,
                }
            }
            WriteRequest::Store { path, data } => {
                assert_eq!(path.root, &PathBuf::from("out"));
                log.push(format!(
                    "store {}/{} {data:?}",
                    path.relative.shard, path.relative.file_name
                ));
                WriteReply::Stored
            }
            WriteRequest::Report { errors } => {
                log.extend(errors.iter().cloned());
                return log;
            }
        };
        job = writer.advance(job, reply);
    }
}

fn place(image: u8, extension: &str) -> String {
    let sha256 = hex_sha256(&[image]);
    format!("{}/{sha256}.{extension}", &sha256[..2])
}

#[test]
fn archive_gets_every_image() {
    let mut writer = OutputWriter::archive(OutputFormat::Webp);
    let log = store(&mut writer, output(1, &[5, 6]), &[]);
    assert_eq!(
        log,
        [
            format!("add {} [5]", place(5, "webp")),
            format!("add {} [6]", place(6, "webp")),
            "fault of 1".to_string(),
        ]
    );
    let stats = writer.stats();
    assert_eq!((stats.found, stats.converted, stats.archived, stats.errors), (3, 2, 2, 1));
    store(&mut writer, output(2, &[7]), &[]);
    let (mappings, stats) = writer.finish();
    assert_eq!(mappings.iter().map(|m| m.id).collect::<Vec<_>>(), [1, 1, 1, 2, 2]);
    assert_eq!(mappings[1].sha256, hex_sha256(&[6]));
    assert_eq!(mappings[2].version, "/en");
    assert_eq!((stats.found, stats.converted, stats.archived, stats.errors), (5, 3, 3, 2));
    assert_eq!(stats.skipped_existing, 0);
}

#[test]
fn missing_files_are_written_and_others_skipped() {
    let mut writer = OutputWriter::files(PathBuf::from("out"), OutputFormat::Avif);
    let present = place(6, "avif");
    let log = store(&mut writer, output(1, &[5, 6, 7]), &[&present]);
    assert_eq!(
        log,
        [
            format!("store {} [5]", place(5, "avif")),
            format!("store {} [7]", place(7, "avif")),
            "fault of 1".to_string(),
        ]
    );
    let (mappings, stats) = writer.finish();
    assert_eq!(mappings.len(), 4);
    assert_eq!((stats.converted, stats.archived, stats.skipped_existing), (3, 2, 1));
    assert_eq!(
        stats.found,
        stats.archived + stats.duplicates + stats.skipped_existing + stats.errors
    );
}

#[test]
fn output_without_images_is_taken_over_at_once() {
    let mut writer = OutputWriter::archive(OutputFormat::Webp);
    let log = store(&mut writer, output(9, &[]), &[]);
    assert_eq!(log, ["fault of 9"]);
    assert_eq!(writer.stats().found, 1);
    assert_eq!(writer.finish().0.len(), 1);
}

#[test]
fn dropped_job_leaves_the_rest_uncounted() {
    let mut writer = OutputWriter::archive(OutputFormat::Webp);
    let job = writer.write_output(output(1, &[5, 6]));
    let job = writer.advance(job, WriteReply::Stored);
    assert!(matches!(writer.request(&job), WriteRequest::Add { .. }));
    drop(job);
    let (mappings, stats) = writer.finish();
    assert!(mappings.is_empty());
    assert_eq!(stats, ExportStats { archived: 1, ..ExportStats::default() });
}

#[test]
fn room_in_the_totals() {
    let mut writer = OutputWriter::archive(OutputFormat::Webp);
    let mut large = output(1, &[]);
    large.stats.archived = usize::MAX - 1;
    store(&mut writer, large, &[]);
    assert!(writer.has_room(&output(2, &[5])));
    assert!(!writer.has_room(&output(2, &[5, 6])));
}

#[test]
fn order_of_icons_does_not_matter_for_the_counts() {
    let mut forth = OutputWriter::archive(OutputFormat::Webp);
    store(&mut forth, output(1, &[1]), &[]);
    store(&mut forth, output(2, &[2, 3]), &[]);
    let mut back = OutputWriter::archive(OutputFormat::Webp);
    store(&mut back, output(2, &[2, 3]), &[]);
    store(&mut back, output(1, &[1]), &[]);
    assert_eq!(forth.stats(), back.stats());
}
