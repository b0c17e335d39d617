//! The model vault: one folder and one API endpoint per model category,
//! under a models root directory.
use vstd::prelude::*;
use crate::paths::{join, join_seq};
use vstd::utf8::is_ascii_chars;
use crate::text::{lowercase_seq, replace_char, str_eq, to_lowercase};

verus! {

/// A model category with its folder, endpoint and description.
#[derive(Debug, Clone)]
pub struct CategoryDescriptor {
    pub category: &'static str,
    pub path: String,
    pub endpoint: &'static str,
    pub description: &'static str,
}

/// The five model categories, in their canonical order.
pub open spec fn category_names() -> Seq<Seq<char>> {
    seq!["chat"@, "ingest"@, "embedding"@, "tts"@, "stt"@]
}

/// The API endpoints of the categories, in the same order.
pub open spec fn category_endpoints() -> Seq<Seq<char>> {
    seq!["/v1/chat/completions"@, "/v1/ingest"@, "/v1/embeddings"@, "/v1/audio/speech"@, "/v1/audio/transcriptions"@]
}

/// The descriptions of the categories, in the same order.
pub open spec fn category_descriptions() -> Seq<Seq<char>> {
    seq![
        "Multi-Turn Dialogue LLMs & Multimodal Chat VLMs (Qwen2.5, Qwen2-VL, Llama 3.3)"@,
        "Document OCR, Tables, SAM & Spatial Vision (GOT-OCR, Nougat, Florence-2)"@,
        "Unified Multimodal Vector Embeddings (BGE, Nomic, CLIP, SigLIP, ColPali)"@,
        "Text-to-Speech Audio Generation (Kokoro, Piper)"@,
        "Speech-to-Text Audio Transcription (Whisper, Moonshine, SenseVoice)"@,
    ]
}

/// The category name lower-cased with `_` turned into `-`, as the resolvers
/// compare it.
pub open spec fn normalized_category(category: Seq<char>) -> Seq<char> {
    lowercase_seq(category).map_values(|c: char| if c == '_' { '-' } else { c })
}

/// Position of a category among the five; an unknown name stands for chat.
pub open spec fn category_index(category: Seq<char>) -> int {
    let n = normalized_category(category);
    if n == "ingest"@ {
        1
    } else if n == "embedding"@ {
        2
    } else if n == "tts"@ {
        3
    } else if n == "stt"@ {
        4
    } else {
        0
    }
}

/// The folder of the category at `i` under `root`.
pub open spec fn category_dir_seq(root: Seq<char>, i: int) -> Seq<char> {
    join_seq(root, category_names()[i])
}

/// Folders and endpoints of the model categories under a models root.
pub struct ModelVault;

impl ModelVault {
    /// The chat model folder.
    pub fn chat_dir(root: &str) -> (r: String)
        ensures
            r@ == category_dir_seq(root@, 0),
    {
        join(root, "chat")
    }

    /// The chat endpoint.
    pub fn chat_endpoint() -> (r: &'static str)
        ensures
            r@ == category_endpoints()[0],
    {
        "/v1/chat/completions"
    }

    /// The ingest (document and vision) model folder.
    pub fn ingest_dir(root: &str) -> (r: String)
        ensures
            r@ == category_dir_seq(root@, 1),
    {
        join(root, "ingest")
    }

    /// The ingest endpoint.
    pub fn ingest_endpoint() -> (r: &'static str)
        ensures
            r@ == category_endpoints()[1],
    {
        "/v1/ingest"
    }

    /// The embedding model folder.
    pub fn embedding_dir(root: &str) -> (r: String)
        ensures
            r@ == category_dir_seq(root@, 2),
    {
        join(root, "embedding")
    }

    /// The embedding endpoint.
    pub fn embedding_endpoint() -> (r: &'static str)
        ensures
            r@ == category_endpoints()[2],
    {
        "/v1/embeddings"
    }

    /// The text-to-speech model folder.
    pub fn tts_dir(root: &str) -> (r: String)
        ensures
            r@ == category_dir_seq(root@, 3),
    {
        join(root, "tts")
    }

    /// The text-to-speech endpoint.
    pub fn tts_endpoint() -> (r: &'static str)
        ensures
            r@ == category_endpoints()[3],
    {
        "/v1/audio/speech"
    }

    /// The speech-to-text model folder.
    pub fn stt_dir(root: &str) -> (r: String)
        ensures
            r@ == category_dir_seq(root@, 4),
    {
        join(root, "stt")
    }

    /// The speech-to-text endpoint.
    pub fn stt_endpoint() -> (r: &'static str)
        ensures
            r@ == category_endpoints()[4],
    {
        "/v1/audio/transcriptions"
    }

    /// The five category descriptors, in canonical order.
    pub fn category_descriptors(root: &str) -> (r: Vec<CategoryDescriptor>)
        ensures
            r@.len() == 5,
            forall|i: int|
                0 <= i < 5 ==> {
                    &&& (#[trigger] r@[i]).category@ == category_names()[i]
                    &&& r@[i].path@ == category_dir_seq(root@, i)
                    &&& r@[i].endpoint@ == category_endpoints()[i]
                    &&& r@[i].description@ == category_descriptions()[i]
                },
    {
        let mut r: Vec<CategoryDescriptor> = Vec::new();
        r.push(CategoryDescriptor {
            category: "chat",
            path: Self::chat_dir(root),
            endpoint: Self::chat_endpoint(),
            description: "Multi-Turn Dialogue LLMs & Multimodal Chat VLMs (Qwen2.5, Qwen2-VL, Llama 3.3)",
        });
        r.push(CategoryDescriptor {
            category: "ingest",
            path: Self::ingest_dir(root),
            endpoint: Self::ingest_endpoint(),
            description: "Document OCR, Tables, SAM & Spatial Vision (GOT-OCR, Nougat, Florence-2)",
        });
        r.push(CategoryDescriptor {
            category: "embedding",
            path: Self::embedding_dir(root),
            endpoint: Self::embedding_endpoint(),
            description: "Unified Multimodal Vector Embeddings (BGE, Nomic, CLIP, SigLIP, ColPali)",
        });
        r.push(CategoryDescriptor {
            category: "tts",
            path: Self::tts_dir(root),
            endpoint: Self::tts_endpoint(),
            description: "Text-to-Speech Audio Generation (Kokoro, Piper)",
        });
        r.push(CategoryDescriptor {
            category: "stt",
            path: Self::stt_dir(root),
            endpoint: Self::stt_endpoint(),
            description: "Speech-to-Text Audio Transcription (Whisper, Moonshine, SenseVoice)",
        });
        r
    }

    /// Category names with their folders, for scanning.
    pub fn category_dirs(root: &str) -> (r: Vec<(&'static str, String)>)
        ensures
            r@.len() == 5,
            forall|i: int|
                0 <= i < 5 ==> (#[trigger] r@[i]).0@ == category_names()[i] && r@[i].1@ == category_dir_seq(
                    root@,
                    i,
                ),
    {
        let mut r: Vec<(&'static str, String)> = Vec::new();
        r.push(("chat", Self::chat_dir(root)));
        r.push(("ingest", Self::ingest_dir(root)));
        r.push(("embedding", Self::embedding_dir(root)));
        r.push(("tts", Self::tts_dir(root)));
        r.push(("stt", Self::stt_dir(root)));
        r
    }

    /// Position of a category by name; unknown names fall back to chat.
    fn resolve_index(category: &str) -> (r: usize)
        ensures
            r == category_index(category@),
            r < 5,
    {
        let lower = to_lowercase(category);
        proof {
            reveal_strlit("-");
        }
        let n = replace_char(lower.as_str(), '_', "-");
        assert(n@ =~= normalized_category(category@));
        if str_eq(n.as_str(), "ingest") {
            1
        } else if str_eq(n.as_str(), "embedding") {
            2
        } else if str_eq(n.as_str(), "tts") {
            3
        } else if str_eq(n.as_str(), "stt") {
            4
        } else {
            0
        }
    }

    /// The folder of a category given by name; unknown names give the chat
    /// folder.
    pub fn resolve_category_dir(root: &str, category: &str) -> (r: String)
        ensures
            r@ == category_dir_seq(root@, category_index(category@)),
    {
        match Self::resolve_index(category) {
            1 => Self::ingest_dir(root),
            2 => Self::embedding_dir(root),
            3 => Self::tts_dir(root),
            4 => Self::stt_dir(root),
            _ => Self::chat_dir(root),
        }
    }

    /// The endpoint of a category given by name; unknown names give the chat
    /// endpoint.
    pub fn resolve_category_endpoint(category: &str) -> (r: &'static str)
        ensures
            r@ == category_endpoints()[category_index(category@)],
    {
        match Self::resolve_index(category) {
            1 => Self::ingest_endpoint(),
            2 => Self::embedding_endpoint(),
            3 => Self::tts_endpoint(),
            4 => Self::stt_endpoint(),
            _ => Self::chat_endpoint(),
        }
    }
}

/// Resolving a canonical category name (folder or endpoint) gives that
/// category back.
pub proof fn lemma_canonical_names_resolve(i: int)
    requires
        0 <= i < 5,
    ensures
        category_index(category_names()[i]) == i,
{
    reveal_strlit("chat");
    reveal_strlit("ingest");
    reveal_strlit("embedding");
    reveal_strlit("tts");
    reveal_strlit("stt");
    let n = category_names()[i];
    assert(is_ascii_chars(n));
    assert(lowercase_seq(n) =~= n);
    assert(normalized_category(n) =~= n);
    if i == 0 {
        assert(n != "ingest"@ && n != "embedding"@ && n != "tts"@ && n != "stt"@) by {
            assert(n.len() == 4 && n[0] == 'c');
            assert("tts"@.len() == 3 && "stt"@.len() == 3);
        }
    } else if i == 1 {
    } else if i == 2 {
        assert(n != "ingest"@) by {
            assert(n.len() != "ingest"@.len());
        }
    } else if i == 3 {
        assert(n != "ingest"@ && n != "embedding"@) by {
            assert(n.len() == 3);
        }
    } else {
        assert(n != "ingest"@ && n != "embedding"@ && n != "tts"@) by {
            assert(n[0] == 's' && "tts"@[0] == 't');
        }
    }
}

} // verus!
