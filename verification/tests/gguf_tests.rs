use cluaiz_engines::models::prober::gguf::{GgufError, GgufProber, GgufValue};

fn put_u32(b: &mut Vec<u8>, v: u32) {
    b.extend_from_slice(&v.to_le_bytes());
}

fn put_u64(b: &mut Vec<u8>, v: u64) {
    b.extend_from_slice(&v.to_le_bytes());
}

fn put_str(b: &mut Vec<u8>, s: &str) {
    put_u64(b, s.len() as u64);
    b.extend_from_slice(s.as_bytes());
}

fn header(tensors: u64, kvs: u64) -> Vec<u8> {
    let mut b = b"GGUF".to_vec();
    put_u32(&mut b, 3);
    put_u64(&mut b, tensors);
    put_u64(&mut b, kvs);
    b
}

fn text<'a>(h: &'a [(String, GgufValue)], k: &str) -> Option<&'a str> {
    h.iter().find(|(n, _)| n == k).and_then(|(_, v)| match v {
        GgufValue::Text(t) => Some(t.as_str()),
        _ => None,
    })
}

fn sample() -> Vec<u8> {
    let mut b = header(2, 6);
    put_str(&mut b, "general.architecture");
    put_u32(&mut b, 8);
    put_str(&mut b, "llama");
    put_str(&mut b, "llama.context_length");
    put_u32(&mut b, 4);
    put_u32(&mut b, 4096);
    put_str(&mut b, "general.flag");
    put_u32(&mut b, 7);
    b.push(1);
    put_str(&mut b, "general.eps");
    put_u32(&mut b, 6);
    put_u32(&mut b, 1.5f32.to_bits());
    put_str(&mut b, "tokenizer.ggml.tokens");
    put_u32(&mut b, 9);
    put_u32(&mut b, 8);
    put_u64(&mut b, 12);
    for i in 0..12 {
        put_str(&mut b, &format!("t{}", i));
    }
    put_str(&mut b, "tokenizer.ggml.scores");
    put_u32(&mut b, 9);
    put_u32(&mut b, 6);
    put_u64(&mut b, 3);
    b.extend_from_slice(&[0u8; 12]);
    put_str(&mut b, "blk.0.attn_q.weight");
    put_u32(&mut b, 2);
    put_u64(&mut b, 4096);
    put_u64(&mut b, 11008);
    put_u32(&mut b, 1);
    put_u64(&mut b, 0);
    put_str(&mut b, "v.patch_embd");
    put_u32(&mut b, 1);
    put_u64(&mut b, 3);
    put_u32(&mut b, 1);
    put_u64(&mut b, 64);
    b
}

#[test]
fn gguf_probe_reads_metadata_and_tensors() {
    let h = GgufProber::probe(&sample()).unwrap();
    assert_eq!(h.tensor_count, 2);
    assert_eq!(h.metadata.len(), 6);
    assert_eq!(text(&h.metadata, "general.architecture"), Some("llama"));
    assert_eq!(text(&h.metadata, "llama.context_length"), Some("4096"));
    assert_eq!(text(&h.metadata, "general.flag"), Some("true"));
    assert_eq!(
        text(&h.metadata, "tokenizer.ggml.tokens"),
        Some("[StringArray: len=12, first_few=[\"t0\", \"t1\", \"t2\", \"t3\", \"t4\", \"t5\", \"t6\", \"t7\", \"t8\", \"t9\"]]")
    );
    assert_eq!(text(&h.metadata, "tokenizer.ggml.scores"), Some("[PrimitiveArray: len=3, type=6]"));
    let eps = h.metadata.iter().find(|(k, _)| k == "general.eps").unwrap();
    assert!(matches!(eps.1, GgufValue::Float32(bits) if bits == 1.5f32.to_bits()));
    assert_eq!(h.tensor_infos.len(), 2);
    assert_eq!(h.tensor_infos[0], ("blk.0.attn_q.weight".to_string(), vec![4096, 11008]));
    assert_eq!(h.tensor_infos[1], ("v.patch_embd".to_string(), vec![3]));
}

#[test]
fn gguf_probe_rejects_other_files() {
    assert_eq!(GgufProber::probe(b"GGU").unwrap_err(), GgufError::UnexpectedEof);
    assert_eq!(GgufProber::probe(b"PK\x03\x04 not a model at all").unwrap_err(), GgufError::NotGguf);
    assert_eq!(GgufProber::probe(b"GGUF\x03\x00\x00\x00").unwrap_err(), GgufError::UnexpectedEof);
    assert_eq!(GgufError::NotGguf.message(), "Not a valid GGUF binary");
    assert_eq!(GgufError::UnknownValueType(13).message(), "Unknown GGUF value type: 13");
}

#[test]
fn gguf_probe_keeps_entries_before_a_bad_one() {
    let mut b = header(1, 3);
    put_str(&mut b, "general.name");
    put_u32(&mut b, 8);
    put_str(&mut b, "tiny");
    put_str(&mut b, "general.bad");
    put_u32(&mut b, 42);
    let h = GgufProber::probe(&b).unwrap();
    assert_eq!(h.metadata.len(), 1);
    assert_eq!(text(&h.metadata, "general.name"), Some("tiny"));
    assert!(h.tensor_infos.is_empty());
    assert_eq!(h.tensor_count, 1);
}

#[test]
fn gguf_read_value_kinds() {
    let b = [0xFFu8, 0x01, 0x00, 0x00];
    assert!(matches!(GgufProber::read_value(&b, 0, 0), Ok((GgufValue::Text(ref t), 1)) if t == "255"));
    assert!(matches!(GgufProber::read_value(&b, 0, 3), Ok((GgufValue::Text(ref t), 2)) if t == "511"));
    assert!(matches!(GgufProber::read_value(&b, 1, 7), Ok((GgufValue::Text(ref t), 2)) if t == "true"));
    assert!(matches!(GgufProber::read_value(&b, 2, 7), Ok((GgufValue::Text(ref t), 3)) if t == "false"));
    assert_eq!(GgufProber::read_value(&b, 0, 10).unwrap_err(), GgufError::UnexpectedEof);
    assert_eq!(GgufProber::read_value(&b, 0, 13).unwrap_err(), GgufError::UnknownValueType(13));
    let mut big = Vec::new();
    put_u32(&mut big, 4);
    put_u64(&mut big, 2_000_000);
    assert_eq!(GgufProber::read_value(&big, 0, 9).unwrap_err(), GgufError::ArrayTooLarge(2_000_000));
    let mut nested = Vec::new();
    put_u32(&mut nested, 9);
    put_u64(&mut nested, 1);
    assert_eq!(GgufProber::read_value(&nested, 0, 9).unwrap_err(), GgufError::UnsupportedArrayItem(9));
}

#[test]
fn gguf_describe_summarises() {
    let meta = vec![
        ("general.architecture".to_string(), "nomic_bert".to_string()),
        ("nomic_bert.context_length".to_string(), "2048".to_string()),
        ("general.file_type".to_string(), "1".to_string()),
    ];
    let tensors = vec![("token_embd.weight".to_string(), vec![768usize])];
    let r = GgufProber::describe(&meta, &tensors);
    assert_eq!(r.architecture.as_deref(), Some("nomic_bert"));
    assert_eq!(r.context_window.as_deref(), Some("2048"));
    assert_eq!(r.quantization.as_deref(), Some("1"));
    assert!(r.is_embedding);
    assert!(!r.has_vision);
    assert!(r.chat_template.is_none());

    let meta2 = vec![("general.context_length".to_string(), "8192".to_string())];
    let tensors2 = vec![("MM.Projector".to_string(), vec![1usize]), ("Pooling.dense".to_string(), vec![1usize])];
    let r2 = GgufProber::describe(&meta2, &tensors2);
    assert!(r2.architecture.is_none());
    assert_eq!(r2.context_window.as_deref(), Some("8192"));
    assert!(r2.has_vision);
    assert!(r2.is_embedding);
}

#[test]
fn gguf_layer_checks() {
    let t = vec![("blk.3.nextn.mtp".to_string(), vec![1usize])];
    assert!(GgufProber::check_native_mtp(&t));
    assert!(!GgufProber::check_native_mtp(&vec![("blk.0.ffn_up".to_string(), vec![1usize])]));
    let m = vec![("general.architecture".to_string(), "Falcon_Mamba".to_string())];
    assert!(GgufProber::check_recurrent_ssm(&m, &vec![]));
    let m2 = vec![("qwen.ssm_state_size".to_string(), "16".to_string())];
    assert!(GgufProber::check_recurrent_ssm(&m2, &vec![]));
    let t2 = vec![("blk.0.time_mix_k".to_string(), vec![1usize])];
    assert!(GgufProber::check_recurrent_ssm(&vec![], &t2));
    let m3 = vec![("general.architecture".to_string(), "llama".to_string())];
    assert!(!GgufProber::check_recurrent_ssm(&m3, &vec![("blk.0.attn_q".to_string(), vec![1usize])]));
}
