use std::io::Write;

use cluaiz_engines::tools::installer::bundle::{plan_bundle_extraction, ExtractStep};
use zip::write::SimpleFileOptions;
use zip::{CompressionMethod, ZipWriter};

fn archive(deflate: bool) -> Vec<u8> {
    let method = if deflate { CompressionMethod::Deflated } else { CompressionMethod::Stored };
    let opts = SimpleFileOptions::default().compression_method(method);
    let mut w = ZipWriter::new(std::io::Cursor::new(Vec::new()));
    w.add_directory("scripts/", opts).unwrap();
    w.start_file("scripts/run.py", opts).unwrap();
    w.write_all(b"print(1)").unwrap();
    w.start_file("../escape.txt", opts).unwrap();
    w.write_all(b"no").unwrap();
    w.start_file("SKILL.md", opts).unwrap();
    w.write_all(b"# Skill").unwrap();
    w.finish().unwrap().into_inner()
}

#[test]
fn bundle_unpacks_into_component_folder() {
    for deflate in [false, true] {
        let plan = plan_bundle_extraction("/t/skills/writer", &archive(deflate)).unwrap();
        assert!(!plan.broken);
        assert_eq!(plan.entries.len(), 4);
        assert_eq!(plan.entries[2].enclosed_name, None);
        assert_eq!(
            plan.steps,
            vec![
                ExtractStep::CreateDir("/t/skills/writer/scripts".to_string()),
                ExtractStep::WriteFile("/t/skills/writer/scripts/run.py".to_string(), 1),
                ExtractStep::WriteFile("/t/skills/writer/SKILL.md".to_string(), 3),
            ]
        );
        assert_eq!(plan.entries[1].data, b"print(1)".to_vec());
        assert_eq!(plan.entries[3].data, b"# Skill".to_vec());
    }
}

#[test]
fn bytes_that_are_no_archive_give_no_plan() {
    assert!(plan_bundle_extraction("/t/x", b"not a zip").is_none());
    assert!(plan_bundle_extraction("/t/x", b"").is_none());
}
