//! Engine permissions and active model selection, with the slot table that
//! tells each engine component which model serves it.
use vstd::prelude::*;
use crate::keyed::{distinct_keys, find_key, keyed_insert, keyed_view, lemma_first_match_view};
use crate::text::{
    clone_opt_string, clone_strings, contains, contains_seq, lowercase_seq, opt_view, to_lowercase, trim,
    trim_seq, views,
};

verus! {

/// The model assigned to one slot, with its weights format and tasks.
#[derive(Debug)]
pub struct SlotConfig {
    pub model_id: Option<String>,
    pub format_type: Option<String>,
    pub supported_tasks: Vec<String>,
}

/// A slot with its texts as character sequences.
pub ghost struct SlotView {
    pub model_id: Option<Seq<char>>,
    pub format_type: Option<Seq<char>>,
    pub supported_tasks: Seq<Seq<char>>,
}

impl View for SlotConfig {
    type V = SlotView;

    open spec fn view(&self) -> SlotView {
        SlotView {
            model_id: opt_view(self.model_id),
            format_type: opt_view(self.format_type),
            supported_tasks: views(self.supported_tasks@),
        }
    }
}

/// Models chosen per modality.
#[derive(Debug)]
pub struct ModelSelection {
    pub text: Option<String>,
    pub vision: Option<String>,
    pub audio: Option<String>,
}

/// A model selection with its identifiers as character sequences.
pub ghost struct SelectionView {
    pub text: Option<Seq<char>>,
    pub vision: Option<Seq<char>>,
    pub audio: Option<Seq<char>>,
}

impl View for ModelSelection {
    type V = SelectionView;

    open spec fn view(&self) -> SelectionView {
        SelectionView { text: opt_view(self.text), vision: opt_view(self.vision), audio: opt_view(self.audio) }
    }
}

impl Default for ModelSelection {
    fn default() -> (r: Self)
        ensures
            r.text is None && r.vision is None && r.audio is None,
    {
        ModelSelection { text: None, vision: None, audio: None }
    }
}

/// Authentication of the local API.
#[derive(Debug)]
pub struct ApiAuth {
    pub required: bool,
    pub tokens: Vec<String>,
}

impl Default for ApiAuth {
    fn default() -> (r: Self)
        ensures
            r.required == false,
            r.tokens@.len() == 0,
    {
        ApiAuth { required: default_require_api_auth(), tokens: default_api_tokens() }
    }
}

/// Engine permissions and model selection.
#[derive(Debug)]
pub struct PermissionSchema {
    /// Slot name to slot; a repeated name stands for its first occurrence.
    pub active_slots: Vec<(String, SlotConfig)>,
    pub vector_models: ModelSelection,
    pub chat_models: ModelSelection,
    pub wasm_firewall: String,
    pub vectorize_user_input: bool,
    pub vectorize_ai_response: bool,
    pub stream_telemetry: bool,
    pub lazy_load_model: bool,
    pub enable_kvcache: bool,
    pub model_header_info: bool,
    pub api_port: u16,
    pub connection_protocol: String,
    pub api_auth: ApiAuth,
}

/// What probing one model's weights found: its format and its tasks.
#[derive(Debug)]
pub struct ModelProps {
    pub format: String,
    pub tasks: Vec<String>,
}

fn default_connection_protocol() -> (r: String)
    ensures
        r@ == "http"@,
{
    String::from_str("http")
}

fn default_wasm_firewall() -> (r: String)
    ensures
        r@ == "auto"@,
{
    String::from_str("auto")
}

fn default_vectorize_user_input() -> (r: bool)
    ensures
        r,
{
    true
}

fn default_vectorize_ai_response() -> (r: bool)
    ensures
        r,
{
    true
}

fn default_stream_telemetry() -> (r: bool)
    ensures
        !r,
{
    false
}

fn default_lazy_load_model() -> (r: bool)
    ensures
        r,
{
    true
}

fn default_enable_kvcache() -> (r: bool)
    ensures
        r,
{
    true
}

fn default_model_header_info() -> (r: bool)
    ensures
        !r,
{
    false
}

fn default_require_api_auth() -> (r: bool)
    ensures
        !r,
{
    false
}

fn default_api_tokens() -> (r: Vec<String>)
    ensures
        r@.len() == 0,
{
    Vec::new()
}

fn default_api_port() -> (r: u16)
    ensures
        r == 8000,
{
    8000
}

impl Default for PermissionSchema {
    fn default() -> (r: Self)
        ensures
            r.active_slots@.len() == 0,
            r.vector_models@ == (SelectionView { text: None, vision: None, audio: None }),
            r.chat_models@ == (SelectionView { text: None, vision: None, audio: None }),
            r.wasm_firewall@ == "auto"@,
            r.vectorize_user_input,
            r.vectorize_ai_response,
            !r.stream_telemetry,
            r.lazy_load_model,
            r.enable_kvcache,
            !r.model_header_info,
            r.api_port == 8000,
            r.connection_protocol@ == "http"@,
            !r.api_auth.required,
            r.api_auth.tokens@.len() == 0,
    {
        PermissionSchema {
            active_slots: Vec::new(),
            vector_models: ModelSelection::default(),
            chat_models: ModelSelection::default(),
            wasm_firewall: default_wasm_firewall(),
            vectorize_user_input: default_vectorize_user_input(),
            vectorize_ai_response: default_vectorize_ai_response(),
            stream_telemetry: default_stream_telemetry(),
            lazy_load_model: default_lazy_load_model(),
            enable_kvcache: default_enable_kvcache(),
            model_header_info: default_model_header_info(),
            api_port: default_api_port(),
            connection_protocol: default_connection_protocol(),
            api_auth: ApiAuth::default(),
        }
    }
}

/// The slot table as a map from slot name to slot.
pub open spec fn slots_view(s: Seq<(String, SlotConfig)>) -> Map<Seq<char>, SlotView> {
    keyed_view(s).map_values(|c: SlotConfig| c@)
}

/// The model of slot `key` when the slot names one, else `fallback`.
pub open spec fn active_or(slots: Map<Seq<char>, SlotView>, key: Seq<char>, fallback: Option<Seq<char>>) -> Option<Seq<char>> {
    if slots.contains_key(key) && slots[key].model_id is Some {
        slots[key].model_id
    } else {
        fallback
    }
}

/// The model that slot `key` sets, when the slot exists and names a model
/// that is not blank.
pub open spec fn slot_override(slots: Map<Seq<char>, SlotView>, key: Seq<char>) -> Option<Seq<char>> {
    if slots.contains_key(key) {
        match slots[key].model_id {
            Some(m) => if trim_seq(m).len() > 0 {
                Some(m)
            } else {
                None
            },
            None => None,
        }
    } else {
        None
    }
}

/// The override of slot `first` when that slot exists, else of `second`.
pub open spec fn slot_override_pref(slots: Map<Seq<char>, SlotView>, first: Seq<char>, second: Seq<char>) -> Option<Seq<char>> {
    if slots.contains_key(first) {
        slot_override(slots, first)
    } else {
        slot_override(slots, second)
    }
}

/// `o` when it is set, else `cur`.
pub open spec fn or_keep(o: Option<Seq<char>>, cur: Option<Seq<char>>) -> Option<Seq<char>> {
    match o {
        Some(m) => Some(m),
        None => cur,
    }
}

/// The chat text model after the slot overrides.
pub open spec fn overridden_chat(slots: Map<Seq<char>, SlotView>, chat: SelectionView) -> SelectionView {
    SelectionView { text: or_keep(slot_override(slots, "chat_slot"@), chat.text), ..chat }
}

/// The vector models after the slot overrides.
pub open spec fn overridden_vectors(slots: Map<Seq<char>, SlotView>, v: SelectionView) -> SelectionView {
    SelectionView {
        text: or_keep(slot_override(slots, "embed_slot"@), v.text),
        vision: or_keep(slot_override_pref(slots, "ingest_slot"@, "vision_slot"@), v.vision),
        audio: or_keep(
            slot_override_pref(slots, "stt_slot"@, "audio_slot"@),
            or_keep(slot_override(slots, "tts_slot"@), v.audio),
        ),
    }
}

/// Format and tasks probed for model `id`; `gguf` and no tasks when the
/// probe found nothing.
pub open spec fn props_of(props: Seq<(String, ModelProps)>, id: Seq<char>) -> (Seq<char>, Seq<Seq<char>>) {
    let m = keyed_view(props);
    if m.contains_key(id) {
        (m[id].format@, views(m[id].tasks@))
    } else {
        ("gguf"@, Seq::empty())
    }
}

/// Tasks of a document model whose probe named none.
pub open spec fn default_ingest_tasks() -> Seq<Seq<char>> {
    seq!["document-ocr"@, "image-to-text"@, "spatial-vision"@]
}

/// Does an audio model identifier name a speech synthesiser?
pub open spec fn is_tts_model(id: Seq<char>) -> bool {
    let c = lowercase_seq(id);
    contains_seq(c, "kokoro"@) || contains_seq(c, "piper"@) || contains_seq(c, "tts"@)
}

/// A slot for model `id` with the probed format and the given tasks.
pub open spec fn slot_for(props: Seq<(String, ModelProps)>, id: Seq<char>, tasks: Seq<Seq<char>>) -> SlotView {
    SlotView { model_id: Some(id), format_type: Some(props_of(props, id).0), supported_tasks: tasks }
}

/// The slot table after the selected models are installed in their slots.
pub open spec fn installed_slots(slots: Map<Seq<char>, SlotView>, chat: SelectionView, v: SelectionView, props: Seq<(String, ModelProps)>) -> Map<Seq<char>, SlotView> {
    let m1 = match chat.text {
        Some(id) => slots.insert("chat_slot"@, slot_for(props, id, props_of(props, id).1)),
        None => slots,
    };
    let m2 = match v.text {
        Some(id) => m1.insert("embed_slot"@, slot_for(props, id, props_of(props, id).1)),
        None => m1,
    };
    let m3 = match v.vision {
        Some(id) => {
            let t = if props_of(props, id).1.len() == 0 {
                default_ingest_tasks()
            } else {
                props_of(props, id).1
            };
            m2.insert("ingest_slot"@, slot_for(props, id, t)).insert("vision_slot"@, slot_for(props, id, t))
        },
        None => m2,
    };
    match v.audio {
        Some(id) => {
            let routed = if is_tts_model(id) {
                m3.insert("tts_slot"@, slot_for(props, id, seq!["text_to_speech"@, "voice-synthesis"@]))
            } else {
                m3.insert(
                    "stt_slot"@,
                    slot_for(props, id, seq!["speech_to_text"@, "automatic-speech-recognition"@]),
                )
            };
            routed.insert("audio_slot"@, slot_for(props, id, props_of(props, id).1))
        },
        None => m3,
    }
}

/// The settings other than models and slots are the same in `a` and `b`.
pub open spec fn same_settings(a: &PermissionSchema, b: &PermissionSchema) -> bool {
    &&& a.wasm_firewall@ == b.wasm_firewall@
    &&& a.vectorize_user_input == b.vectorize_user_input
    &&& a.vectorize_ai_response == b.vectorize_ai_response
    &&& a.stream_telemetry == b.stream_telemetry
    &&& a.lazy_load_model == b.lazy_load_model
    &&& a.enable_kvcache == b.enable_kvcache
    &&& a.model_header_info == b.model_header_info
    &&& a.api_port == b.api_port
    &&& a.connection_protocol@ == b.connection_protocol@
    &&& a.api_auth.required == b.api_auth.required
    &&& views(a.api_auth.tokens@) == views(b.api_auth.tokens@)
}

/// Inserts or replaces slot `key`.
fn insert_slot(slots: &mut Vec<(String, SlotConfig)>, key: &str, cfg: SlotConfig)
    ensures
        slots_view(final(slots)@) == slots_view(old(slots)@).insert(key@, cfg@),
        distinct_keys(old(slots)@) ==> distinct_keys(final(slots)@),
{
    let ghost c = cfg@;
    keyed_insert(slots, String::from_str(key), cfg);
    assert(slots_view(slots@) =~= slots_view(old(slots)@).insert(key@, c));
}

/// Format and tasks probed for model `id`, with the defaults of `props_of`.
fn props_lookup(props: &Vec<(String, ModelProps)>, id: &str) -> (r: (String, Vec<String>))
    ensures
        (r.0@, views(r.1@)) == props_of(props@, id@),
{
    match find_key(props, id) {
        Some(i) => {
            proof {
                lemma_first_match_view(props@, id@, i as int);
            }
            (props[i].1.format.clone(), clone_strings(&props[i].1.tasks))
        },
        None => (String::from_str("gguf"), Vec::new()),
    }
}

/// A vector holding the given literals.
fn string_list2(a: &str, b: &str) -> (r: Vec<String>)
    ensures
        views(r@) == seq![a@, b@],
{
    let mut r: Vec<String> = Vec::new();
    r.push(String::from_str(a));
    r.push(String::from_str(b));
    assert(views(r@) =~= seq![a@, b@]);
    r
}

impl PermissionSchema {
    /// Assigns default models; models stay unset until the user picks them,
    /// so nothing changes.
    pub fn auto_assign_defaults(&mut self)
        ensures
            *final(self) == *old(self),
    {
    }

    /// The model of slot `key` when the slot names one, else `fallback`.
    fn active_model(&self, key: &str, fallback: &Option<String>) -> (r: Option<String>)
        ensures
            opt_view(r) == active_or(slots_view(self.active_slots@), key@, opt_view(*fallback)),
    {
        if let Some(i) = find_key(&self.active_slots, key) {
            proof {
                lemma_first_match_view(self.active_slots@, key@, i as int);
            }
            if self.active_slots[i].1.model_id.is_some() {
                return clone_opt_string(&self.active_slots[i].1.model_id);
            }
        }
        clone_opt_string(fallback)
    }

    /// The active chat model: the chat slot's, else the chat text model.
    pub fn get_active_chat_model(&self) -> (r: Option<String>)
        ensures
            opt_view(r) == active_or(slots_view(self.active_slots@), "chat_slot"@, self.chat_models@.text),
    {
        self.active_model("chat_slot", &self.chat_models.text)
    }

    /// The active embedding model: the embedding slot's, else the vector
    /// text model.
    pub fn get_active_embedding_model(&self) -> (r: Option<String>)
        ensures
            opt_view(r) == active_or(slots_view(self.active_slots@), "embed_slot"@, self.vector_models@.text),
    {
        self.active_model("embed_slot", &self.vector_models.text)
    }

    /// The active vision model: the vision slot's, else the vector vision
    /// model.
    pub fn get_active_vision_model(&self) -> (r: Option<String>)
        ensures
            opt_view(r) == active_or(slots_view(self.active_slots@), "vision_slot"@, self.vector_models@.vision),
    {
        self.active_model("vision_slot", &self.vector_models.vision)
    }

    /// The active audio model: the audio slot's, else the vector audio model.
    pub fn get_active_audio_model(&self) -> (r: Option<String>)
        ensures
            opt_view(r) == active_or(slots_view(self.active_slots@), "audio_slot"@, self.vector_models@.audio),
    {
        self.active_model("audio_slot", &self.vector_models.audio)
    }

    /// The non-blank model that slot `key` names, if the slot exists.
    fn override_of(&self, key: &str) -> (r: Option<String>)
        ensures
            opt_view(r) == slot_override(slots_view(self.active_slots@), key@),
    {
        if let Some(i) = find_key(&self.active_slots, key) {
            proof {
                lemma_first_match_view(self.active_slots@, key@, i as int);
            }
            if let Some(mid) = &self.active_slots[i].1.model_id {
                if !trim(mid.as_str()).is_empty() {
                    return Some(mid.clone());
                }
            }
        }
        None
    }

    /// The override of slot `first` when that slot exists, else of `second`.
    fn override_pref(&self, first: &str, second: &str) -> (r: Option<String>)
        ensures
            opt_view(r) == slot_override_pref(slots_view(self.active_slots@), first@, second@),
    {
        if let Some(i) = find_key(&self.active_slots, first) {
            proof {
                lemma_first_match_view(self.active_slots@, first@, i as int);
            }
            self.override_of(first)
        } else {
            self.override_of(second)
        }
    }

    /// Copies the models named in the slots back into the model selections.
    pub fn apply_slot_overrides(&mut self)
        ensures
            final(self).chat_models@ == overridden_chat(slots_view(old(self).active_slots@), old(self).chat_models@),
            final(self).vector_models@ == overridden_vectors(slots_view(old(self).active_slots@), old(self).vector_models@),
            final(self).active_slots@ == old(self).active_slots@,
            same_settings(&*final(self), &*old(self)),
    {
        let chat = self.override_of("chat_slot");
        if let Some(m) = chat {
            self.chat_models.text = Some(m);
        }
        let embed = self.override_of("embed_slot");
        if let Some(m) = embed {
            self.vector_models.text = Some(m);
        }
        let vision = self.override_pref("ingest_slot", "vision_slot");
        if let Some(m) = vision {
            self.vector_models.vision = Some(m);
        }
        let tts = self.override_of("tts_slot");
        if let Some(m) = tts {
            self.vector_models.audio = Some(m);
        }
        let stt = self.override_pref("stt_slot", "audio_slot");
        if let Some(m) = stt {
            self.vector_models.audio = Some(m);
        }
    }

    /// Puts each selected model into its slots, with the format and tasks
    /// that probing found (`props`, by model identifier).
    pub fn install_active_slots(&mut self, props: &Vec<(String, ModelProps)>)
        ensures
            slots_view(final(self).active_slots@) == installed_slots(
                slots_view(old(self).active_slots@),
                old(self).chat_models@,
                old(self).vector_models@,
                props@,
            ),
            final(self).chat_models@ == old(self).chat_models@,
            final(self).vector_models@ == old(self).vector_models@,
            same_settings(&*final(self), &*old(self)),
            distinct_keys(old(self).active_slots@) ==> distinct_keys(final(self).active_slots@),
    {
        let ghost s0 = slots_view(self.active_slots@);
        let ghost chat_v = self.chat_models@;
        let ghost vec_v = self.vector_models@;
        if let Some(id) = &self.chat_models.text {
            let (format, tasks) = props_lookup(props, id.as_str());
            let cfg = SlotConfig { model_id: Some(id.clone()), format_type: Some(format), supported_tasks: tasks };
            insert_slot(&mut self.active_slots, "chat_slot", cfg);
        }
        let ghost s1 = slots_view(self.active_slots@);
        if let Some(id) = &self.vector_models.text {
            let (format, tasks) = props_lookup(props, id.as_str());
            let cfg = SlotConfig { model_id: Some(id.clone()), format_type: Some(format), supported_tasks: tasks };
            insert_slot(&mut self.active_slots, "embed_slot", cfg);
        }
        if let Some(id) = &self.vector_models.vision {
            let (format, tasks) = props_lookup(props, id.as_str());
            let final_tasks = if tasks.len() == 0 {
                let mut d: Vec<String> = Vec::new();
                d.push(String::from_str("document-ocr"));
                d.push(String::from_str("image-to-text"));
                d.push(String::from_str("spatial-vision"));
                assert(views(d@) =~= default_ingest_tasks());
                d
            } else {
                tasks
            };
            let cfg = SlotConfig {
                model_id: Some(id.clone()),
                format_type: Some(format.clone()),
                supported_tasks: clone_strings(&final_tasks),
            };
            insert_slot(&mut self.active_slots, "ingest_slot", cfg);
            let alias = SlotConfig { model_id: Some(id.clone()), format_type: Some(format), supported_tasks: final_tasks };
            insert_slot(&mut self.active_slots, "vision_slot", alias);
        }
        if let Some(id) = &self.vector_models.audio {
            let (format, tasks) = props_lookup(props, id.as_str());
            let clean = to_lowercase(id.as_str());
            if contains(clean.as_str(), "kokoro") || contains(clean.as_str(), "piper") || contains(
                clean.as_str(),
                "tts",
            ) {
                let cfg = SlotConfig {
                    model_id: Some(id.clone()),
                    format_type: Some(format.clone()),
                    supported_tasks: string_list2("text_to_speech", "voice-synthesis"),
                };
                insert_slot(&mut self.active_slots, "tts_slot", cfg);
            } else {
                let cfg = SlotConfig {
                    model_id: Some(id.clone()),
                    format_type: Some(format.clone()),
                    supported_tasks: string_list2("speech_to_text", "automatic-speech-recognition"),
                };
                insert_slot(&mut self.active_slots, "stt_slot", cfg);
            }
            let alias = SlotConfig { model_id: Some(id.clone()), format_type: Some(format), supported_tasks: tasks };
            insert_slot(&mut self.active_slots, "audio_slot", alias);
        }
    }

    /// Synchronises the slots with the model selections: overrides named in
    /// the slots are copied into the selections, then each selected model is
    /// installed in its slots with the probed format and tasks.
    pub fn sync_active_slots(&mut self, props: &Vec<(String, ModelProps)>)
        ensures
            final(self).chat_models@ == overridden_chat(slots_view(old(self).active_slots@), old(self).chat_models@),
            final(self).vector_models@ == overridden_vectors(slots_view(old(self).active_slots@), old(self).vector_models@),
            slots_view(final(self).active_slots@) == installed_slots(
                slots_view(old(self).active_slots@),
                overridden_chat(slots_view(old(self).active_slots@), old(self).chat_models@),
                overridden_vectors(slots_view(old(self).active_slots@), old(self).vector_models@),
                props@,
            ),
            same_settings(&*final(self), &*old(self)),
            distinct_keys(old(self).active_slots@) ==> distinct_keys(final(self).active_slots@),
    {
        self.apply_slot_overrides();
        self.install_active_slots(props);
    }

    /// Identifiers of the models that a synchronisation installs, in slot
    /// order (chat, embedding, vision, audio): those to probe beforehand.
    pub fn models_to_probe(&self) -> (r: Vec<String>)
        ensures
            views(r@) == selected_ids(
                overridden_chat(slots_view(self.active_slots@), self.chat_models@),
                overridden_vectors(slots_view(self.active_slots@), self.vector_models@),
            ),
    {
        let chat = self.override_of("chat_slot");
        let embed = self.override_of("embed_slot");
        let vision = self.override_pref("ingest_slot", "vision_slot");
        let tts = self.override_of("tts_slot");
        let stt = self.override_pref("stt_slot", "audio_slot");
        let c = if chat.is_some() { chat } else { clone_opt_string(&self.chat_models.text) };
        let e = if embed.is_some() { embed } else { clone_opt_string(&self.vector_models.text) };
        let v = if vision.is_some() { vision } else { clone_opt_string(&self.vector_models.vision) };
        let a0 = if tts.is_some() { tts } else { clone_opt_string(&self.vector_models.audio) };
        let a = if stt.is_some() { stt } else { a0 };
        let mut r: Vec<String> = Vec::new();
        let ghost want = selected_ids(
            overridden_chat(slots_view(self.active_slots@), self.chat_models@),
            overridden_vectors(slots_view(self.active_slots@), self.vector_models@),
        );
        let ghost s0 = opt_seq(opt_view(c));
        if let Some(x) = c {
            r.push(x);
        }
        assert(views(r@) =~= s0);
        let ghost s1 = s0 + opt_seq(opt_view(e));
        if let Some(x) = e {
            r.push(x);
        }
        assert(views(r@) =~= s1);
        let ghost s2 = s1 + opt_seq(opt_view(v));
        if let Some(x) = v {
            r.push(x);
        }
        assert(views(r@) =~= s2);
        let ghost s3 = s2 + opt_seq(opt_view(a));
        if let Some(x) = a {
            r.push(x);
        }
        assert(views(r@) =~= s3);
        r
    }

    /// Makes `model_id` the chat model and synchronises the slots.
    pub fn set_active_chat_model(&mut self, model_id: String, props: &Vec<(String, ModelProps)>)
        ensures
            ({
                let sel = SelectionView { text: Some(model_id@), ..old(self).chat_models@ };
                let slots = slots_view(old(self).active_slots@);
                &&& final(self).chat_models@ == overridden_chat(slots, sel)
                &&& final(self).vector_models@ == overridden_vectors(slots, old(self).vector_models@)
                &&& slots_view(final(self).active_slots@) == installed_slots(
                    slots,
                    overridden_chat(slots, sel),
                    overridden_vectors(slots, old(self).vector_models@),
                    props@,
                )
            }),
            same_settings(&*final(self), &*old(self)),
    {
        self.chat_models.text = Some(model_id);
        self.sync_active_slots(props);
    }

    /// Makes `model_id` the embedding model and synchronises the slots.
    pub fn set_active_embedding_model(&mut self, model_id: String, props: &Vec<(String, ModelProps)>)
        ensures
            ({
                let sel = SelectionView { text: Some(model_id@), ..old(self).vector_models@ };
                let slots = slots_view(old(self).active_slots@);
                &&& final(self).chat_models@ == overridden_chat(slots, old(self).chat_models@)
                &&& final(self).vector_models@ == overridden_vectors(slots, sel)
                &&& slots_view(final(self).active_slots@) == installed_slots(
                    slots,
                    overridden_chat(slots, old(self).chat_models@),
                    overridden_vectors(slots, sel),
                    props@,
                )
            }),
            same_settings(&*final(self), &*old(self)),
    {
        self.vector_models.text = Some(model_id);
        self.sync_active_slots(props);
    }

    /// Makes `model_id` the vision model and synchronises the slots.
    pub fn set_active_vision_model(&mut self, model_id: String, props: &Vec<(String, ModelProps)>)
        ensures
            ({
                let sel = SelectionView { vision: Some(model_id@), ..old(self).vector_models@ };
                let slots = slots_view(old(self).active_slots@);
                &&& final(self).chat_models@ == overridden_chat(slots, old(self).chat_models@)
                &&& final(self).vector_models@ == overridden_vectors(slots, sel)
                &&& slots_view(final(self).active_slots@) == installed_slots(
                    slots,
                    overridden_chat(slots, old(self).chat_models@),
                    overridden_vectors(slots, sel),
                    props@,
                )
            }),
            same_settings(&*final(self), &*old(self)),
    {
        self.vector_models.vision = Some(model_id);
        self.sync_active_slots(props);
    }

    /// Makes `model_id` the audio model and synchronises the slots.
    pub fn set_active_audio_model(&mut self, model_id: String, props: &Vec<(String, ModelProps)>)
        ensures
            ({
                let sel = SelectionView { audio: Some(model_id@), ..old(self).vector_models@ };
                let slots = slots_view(old(self).active_slots@);
                &&& final(self).chat_models@ == overridden_chat(slots, old(self).chat_models@)
                &&& final(self).vector_models@ == overridden_vectors(slots, sel)
                &&& slots_view(final(self).active_slots@) == installed_slots(
                    slots,
                    overridden_chat(slots, old(self).chat_models@),
                    overridden_vectors(slots, sel),
                    props@,
                )
            }),
            same_settings(&*final(self), &*old(self)),
    {
        self.vector_models.audio = Some(model_id);
        self.sync_active_slots(props);
    }
}

/// An optional identifier as a sequence of zero or one identifiers.
pub open spec fn opt_seq(o: Option<Seq<char>>) -> Seq<Seq<char>> {
    match o {
        Some(x) => seq![x],
        None => Seq::empty(),
    }
}

/// The selected model identifiers in slot order.
pub open spec fn selected_ids(chat: SelectionView, v: SelectionView) -> Seq<Seq<char>> {
    opt_seq(chat.text) + opt_seq(v.text) + opt_seq(v.vision) + opt_seq(v.audio)
}

/// Setting the chat model and reading it back gives the model set, unless
/// the chat slot names another (non-blank) model, which then wins. The
/// slots installed for the vector models never touch the chat slot.
pub proof fn lemma_set_then_get_chat_model(
    slots: Map<Seq<char>, SlotView>,
    chat: SelectionView,
    vectors: SelectionView,
    props: Seq<(String, ModelProps)>,
    id: Seq<char>,
)
    ensures
        ({
            let c = overridden_chat(slots, SelectionView { text: Some(id), ..chat });
            let v = overridden_vectors(slots, vectors);
            active_or(installed_slots(slots, c, v, props), "chat_slot"@, c.text) == Some(
                match slot_override(slots, "chat_slot"@) {
                    Some(o) => o,
                    None => id,
                },
            )
        }),
{
    reveal_strlit("chat_slot");
    reveal_strlit("embed_slot");
    reveal_strlit("ingest_slot");
    reveal_strlit("vision_slot");
    reveal_strlit("tts_slot");
    reveal_strlit("stt_slot");
    reveal_strlit("audio_slot");
    assert("chat_slot"@ != "embed_slot"@) by {
        assert("chat_slot"@[0] != "embed_slot"@[0]);
    }
    assert("chat_slot"@ != "ingest_slot"@) by {
        assert("chat_slot"@[0] != "ingest_slot"@[0]);
    }
    assert("chat_slot"@ != "vision_slot"@) by {
        assert("chat_slot"@[0] != "vision_slot"@[0]);
    }
    assert("chat_slot"@ != "tts_slot"@) by {
        assert("chat_slot"@[0] != "tts_slot"@[0]);
    }
    assert("chat_slot"@ != "stt_slot"@) by {
        assert("chat_slot"@[0] != "stt_slot"@[0]);
    }
    assert("chat_slot"@ != "audio_slot"@) by {
        assert("chat_slot"@[0] != "audio_slot"@[0]);
    }
}

} // verus!
