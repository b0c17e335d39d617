use cluaiz_engines::neural_foundry::security::permission_schema::{ModelProps, PermissionSchema, SlotConfig};

fn slot<'a>(p: &'a PermissionSchema, key: &str) -> Option<&'a SlotConfig> {
    p.active_slots.iter().find(|(k, _)| k == key).map(|(_, s)| s)
}

fn slot_with(model: &str) -> SlotConfig {
    SlotConfig { model_id: Some(model.to_string()), format_type: None, supported_tasks: Vec::new() }
}

fn props() -> Vec<(String, ModelProps)> {
    vec![
        (
            "qwen-7b".to_string(),
            ModelProps { format: "gguf".to_string(), tasks: vec!["chat".to_string(), "tools".to_string()] },
        ),
        ("florence".to_string(), ModelProps { format: "onnx".to_string(), tasks: Vec::new() }),
    ]
}

#[test]
fn defaults_of_the_schema() {
    let p = PermissionSchema::default();
    assert!(p.active_slots.is_empty());
    assert_eq!(p.chat_models.text, None);
    assert_eq!(p.wasm_firewall, "auto");
    assert!(p.vectorize_user_input && p.vectorize_ai_response && p.lazy_load_model && p.enable_kvcache);
    assert!(!p.stream_telemetry && !p.model_header_info);
    assert_eq!(p.api_port, 8000);
    assert_eq!(p.connection_protocol, "http");
    assert!(!p.api_auth.required);
    let mut q = PermissionSchema::default();
    q.auto_assign_defaults();
    assert_eq!(q.chat_models.text, None);
}

#[test]
fn active_models_prefer_their_slots() {
    let mut p = PermissionSchema::default();
    p.chat_models.text = Some("fallback".to_string());
    assert_eq!(p.get_active_chat_model(), Some("fallback".to_string()));
    p.active_slots.push(("chat_slot".to_string(), slot_with("slotted")));
    assert_eq!(p.get_active_chat_model(), Some("slotted".to_string()));
    p.vector_models.vision = Some("vis".to_string());
    assert_eq!(p.get_active_vision_model(), Some("vis".to_string()));
    assert_eq!(p.get_active_embedding_model(), None);
    assert_eq!(p.get_active_audio_model(), None);
}

#[test]
fn sync_installs_models_in_their_slots() {
    let mut p = PermissionSchema::default();
    p.chat_models.text = Some("old-chat".to_string());
    p.active_slots.push(("chat_slot".to_string(), slot_with("qwen-7b")));
    p.active_slots.push(("embed_slot".to_string(), slot_with("   ")));
    p.vector_models.vision = Some("florence".to_string());
    p.vector_models.audio = Some("Kokoro-82M".to_string());
    assert_eq!(
        p.models_to_probe(),
        vec!["qwen-7b".to_string(), "florence".to_string(), "Kokoro-82M".to_string()]
    );
    p.sync_active_slots(&props());
    assert_eq!(p.chat_models.text, Some("qwen-7b".to_string()));
    assert_eq!(p.vector_models.text, None);
    let chat = slot(&p, "chat_slot").unwrap();
    assert_eq!(chat.model_id, Some("qwen-7b".to_string()));
    assert_eq!(chat.format_type, Some("gguf".to_string()));
    assert_eq!(chat.supported_tasks, vec!["chat".to_string(), "tools".to_string()]);
    let ingest = slot(&p, "ingest_slot").unwrap();
    assert_eq!(ingest.format_type, Some("onnx".to_string()));
    assert_eq!(
        ingest.supported_tasks,
        vec!["document-ocr".to_string(), "image-to-text".to_string(), "spatial-vision".to_string()]
    );
    assert_eq!(slot(&p, "vision_slot").unwrap().model_id, Some("florence".to_string()));
    let tts = slot(&p, "tts_slot").unwrap();
    assert_eq!(tts.model_id, Some("Kokoro-82M".to_string()));
    assert_eq!(tts.format_type, Some("gguf".to_string()));
    assert_eq!(tts.supported_tasks, vec!["text_to_speech".to_string(), "voice-synthesis".to_string()]);
    assert!(slot(&p, "stt_slot").is_none());
    assert_eq!(slot(&p, "audio_slot").unwrap().supported_tasks, Vec::<String>::new());
    // The blank embedding slot stays as it was.
    assert_eq!(slot(&p, "embed_slot").unwrap().model_id, Some("   ".to_string()));
}

#[test]
fn speech_recognisers_go_to_the_stt_slot() {
    let mut p = PermissionSchema::default();
    p.set_active_audio_model("whisper-small".to_string(), &props());
    assert_eq!(p.vector_models.audio, Some("whisper-small".to_string()));
    let stt = slot(&p, "stt_slot").unwrap();
    assert_eq!(stt.supported_tasks, vec!["speech_to_text".to_string(), "automatic-speech-recognition".to_string()]);
    assert!(slot(&p, "tts_slot").is_none());
    assert_eq!(p.get_active_audio_model(), Some("whisper-small".to_string()));
}

#[test]
fn setting_models_reads_back() {
    let mut p = PermissionSchema::default();
    p.set_active_embedding_model("bge".to_string(), &props());
    assert_eq!(p.get_active_embedding_model(), Some("bge".to_string()));
    p.set_active_vision_model("florence".to_string(), &props());
    assert_eq!(p.get_active_vision_model(), Some("florence".to_string()));
    p.set_active_chat_model("qwen-7b".to_string(), &props());
    assert_eq!(p.get_active_chat_model(), Some("qwen-7b".to_string()));
    assert_eq!(p.api_port, 8000);
}
