use cluaiz_engines::models::registry::discovery::{AutonomousDiscovery, FolderFinding};
use cluaiz_engines::bytes::{read_u16, read_u32, read_u64};
use cluaiz_engines::models::prober::gguf::read_string;
use cluaiz_engines::models::registry::vault::ModelVault;

#[test]
fn category_folders_and_endpoints() {
    assert_eq!(ModelVault::chat_dir("/m"), "/m/chat");
    assert_eq!(ModelVault::ingest_dir("/m/"), "/m/ingest");
    assert_eq!(ModelVault::embedding_dir("/m"), "/m/embedding");
    assert_eq!(ModelVault::tts_dir("/m"), "/m/tts");
    assert_eq!(ModelVault::stt_dir("/m"), "/m/stt");
    assert_eq!(ModelVault::chat_endpoint(), "/v1/chat/completions");
    assert_eq!(ModelVault::ingest_endpoint(), "/v1/ingest");
    assert_eq!(ModelVault::embedding_endpoint(), "/v1/embeddings");
    assert_eq!(ModelVault::tts_endpoint(), "/v1/audio/speech");
    assert_eq!(ModelVault::stt_endpoint(), "/v1/audio/transcriptions");
}

#[test]
fn categories_resolve_by_name() {
    assert_eq!(ModelVault::resolve_category_dir("/m", "TTS"), "/m/tts");
    assert_eq!(ModelVault::resolve_category_dir("/m", "embedding"), "/m/embedding");
    assert_eq!(ModelVault::resolve_category_dir("/m", "vision"), "/m/chat");
    assert_eq!(ModelVault::resolve_category_endpoint("Stt"), "/v1/audio/transcriptions");
    assert_eq!(ModelVault::resolve_category_endpoint("unknown"), "/v1/chat/completions");
    let dirs = ModelVault::category_dirs("/m");
    assert_eq!(dirs.len(), 5);
    assert_eq!(dirs[1], ("ingest", "/m/ingest".to_string()));
    let d = ModelVault::category_descriptors("/m");
    assert_eq!(d[3].category, "tts");
    assert_eq!(d[3].path, "/m/tts");
    assert_eq!(d[3].endpoint, "/v1/audio/speech");
    assert_eq!(d[3].description, "Text-to-Speech Audio Generation (Kokoro, Piper)");
    for c in ModelVault::category_dirs("/m") {
        assert_eq!(ModelVault::resolve_category_dir("/m", c.0), c.1);
    }
}

#[test]
fn little_endian_reads() {
    let b = [0x01u8, 0x02, 0x03, 0x04, 0x05, 0x06, 0x07, 0x08, 0x09];
    assert_eq!(read_u16(&b, 0), Some(0x0201));
    assert_eq!(read_u32(&b, 1), Some(0x05040302));
    assert_eq!(read_u64(&b, 1), Some(0x0908070605040302));
    assert_eq!(read_u64(&b, 2), None);
    assert_eq!(read_u16(&b, 8), None);
}

#[test]
fn gguf_strings() {
    let mut b = vec![0u8; 2];
    b.extend_from_slice(&3u64.to_le_bytes());
    b.extend_from_slice(b"abcdef");
    assert_eq!(read_string(&b, 2), Some(("abc".to_string(), 13)));
    let short = [5u8, 0, 0, 0, 0, 0, 0, 0, b'a'];
    assert_eq!(read_string(&short, 0), None);
    assert_eq!(read_string(&short, 4), None);
    let mut bad = Vec::new();
    bad.extend_from_slice(&3u64.to_le_bytes());
    bad.extend_from_slice(&[b'a', 0xFF, b'b']);
    assert_eq!(read_string(&bad, 0), Some(("a\u{FFFD}b".to_string(), 11)));
}

#[test]
fn discovery_classifies_folders() {
    let names = vec!["README.md".to_string(), "Model.Q4.GGUF".to_string(), "b.onnx".to_string()];
    assert_eq!(AutonomousDiscovery::classify_folder(true, Some("m"), &names), FolderFinding::Indexed);
    assert_eq!(AutonomousDiscovery::classify_folder(false, Some("m"), &names), FolderFinding::WeightsOnly(1));
    assert_eq!(AutonomousDiscovery::classify_folder(false, None, &names), FolderFinding::Descend);
    assert_eq!(AutonomousDiscovery::classify_folder(false, Some("m"), &vec!["notes.txt".to_string()]), FolderFinding::Descend);
    assert_eq!(
        AutonomousDiscovery::discovered_description("chat", "qwen3"),
        "Discovered local chat model 'qwen3'"
    );
}
