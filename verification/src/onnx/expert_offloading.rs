//! A pool of expert sessions for mixture-of-experts ONNX models: each slot
//! holds the experts of one layer, slots are reused when they already hold
//! what a step needs, and the least recently used slot makes room when the
//! pool is full.
use vstd::prelude::*;
use crate::llama::expert_offloading::MoeModelInfo;

verus! {

/// Per-session overhead of the runtime, in bytes, added to an expert's own
/// weights when sizing the pool.
pub const SESSION_OVERHEAD_BYTES: u64 = 52428800;

/// How many expert sessions fit a cache budget: the budget over one
/// expert's weights plus the session overhead, at least 2 (the current step
/// and the one read ahead).
pub open spec fn sessions_for(budget_bytes: int, expert_size_bytes: int) -> int {
    let fit = budget_bytes / (expert_size_bytes + SESSION_OVERHEAD_BYTES);
    if fit > 2 {
        fit
    } else {
        2
    }
}

/// How many expert sessions fit a cache budget of `budget_bytes`.
pub fn max_expert_sessions(budget_bytes: u64, expert_size_bytes: u64) -> (r: usize)
    requires
        expert_size_bytes <= u64::MAX - SESSION_OVERHEAD_BYTES,
    ensures
        r == sessions_for(budget_bytes as int, expert_size_bytes as int) as usize,
{
    let per = expert_size_bytes + SESSION_OVERHEAD_BYTES;
    let fit = budget_bytes / per;
    let n = if fit > 2 { fit } else { 2 };
    n as usize
}

/// Where one expert tensor lives in the model's external data.
#[derive(Debug, Clone)]
pub struct ExpertShardEntry {
    /// Tensor name in the ONNX graph.
    pub tensor_name: String,
    /// Layer of the expert.
    pub layer: usize,
    /// Expert within its layer.
    pub expert_id: usize,
    /// External data file holding the tensor.
    pub data_file: String,
    /// Byte offset of the tensor in that file.
    pub offset: u64,
    /// Byte length of the tensor.
    pub length: u64,
}

/// The expert shards of an ONNX mixture-of-experts model, by layer and
/// expert.
#[derive(Debug)]
pub struct OnnxExpertShardManifest {
    /// `(layer, expert_id)` to the shards of that expert.
    pub entries: Vec<((usize, usize), Vec<ExpertShardEntry>)>,
    pub n_experts: usize,
    pub n_layers: usize,
}

impl OnnxExpertShardManifest {
    /// The manifest of a model: its expert and layer counts. The runtime
    /// gives no access to external initializers yet, so no shard is listed
    /// and the model's folder is not read.
    pub fn from_model_dir(_model_path: &str, moe_info: &MoeModelInfo) -> (r: OnnxExpertShardManifest)
        ensures
            r.entries@.len() == 0,
            r.n_experts == moe_info.expert_count,
            r.n_layers == moe_info.moe_layer_count,
    {
        OnnxExpertShardManifest { entries: Vec::new(), n_experts: moe_info.expert_count, n_layers: moe_info.moe_layer_count }
    }
}

/// A session slot: the experts of one layer it holds, and when it was last
/// used (a reading of a monotonic clock supplied by the caller).
#[derive(Debug)]
pub struct ExpertSessionSlot {
    pub layer: usize,
    pub expert_ids: Vec<usize>,
    pub last_used: u64,
}

/// A slot as data.
pub struct SlotView {
    pub layer: usize,
    pub expert_ids: Seq<usize>,
    pub last_used: u64,
}

/// The slots as data.
pub open spec fn slots_view(v: Seq<ExpertSessionSlot>) -> Seq<SlotView> {
    v.map_values(|s: ExpertSessionSlot| SlotView { layer: s.layer, expert_ids: s.expert_ids@, last_used: s.last_used })
}

/// Does `s` hold every expert of `ids` in `layer`?
pub open spec fn covers(s: SlotView, layer: usize, ids: Seq<usize>) -> bool {
    s.layer == layer && forall|i: int| 0 <= i < ids.len() ==> s.expert_ids.contains(ids[i])
}

/// Index of the first slot of `v` that holds every expert of `ids` in `layer`.
pub open spec fn first_cover(v: Seq<SlotView>, layer: usize, ids: Seq<usize>) -> Option<int> {
    if exists|i: int| 0 <= i < v.len() && covers(v[i], layer, ids) {
        Some(
            choose|i: int|
                0 <= i < v.len() && covers(v[i], layer, ids) && forall|j: int| 0 <= j < i ==> !covers(v[j], layer, ids),
        )
    } else {
        None
    }
}

/// Is `i` the first slot of `v` least recently used?
pub open spec fn is_lru(v: Seq<SlotView>, i: int) -> bool {
    &&& 0 <= i < v.len()
    &&& forall|j: int| 0 <= j < v.len() ==> v[i].last_used <= v[j].last_used
    &&& forall|j: int| 0 <= j < i ==> v[i].last_used < v[j].last_used
}

/// `v` without its first least recently used slot (unchanged when empty).
pub open spec fn without_lru(v: Seq<SlotView>) -> Seq<SlotView> {
    if v.len() == 0 {
        v
    } else {
        v.remove(choose|i: int| is_lru(v, i))
    }
}

/// A pool of expert sessions, at most `max_slots` of them.
pub struct OnnxMoeSessionPool {
    slots: Vec<ExpertSessionSlot>,
    max_slots: usize,
}

fn slot_covers(slot: &ExpertSessionSlot, layer: usize, ids: &Vec<usize>) -> (r: bool)
    ensures
        r == covers(SlotView { layer: slot.layer, expert_ids: slot.expert_ids@, last_used: slot.last_used }, layer, ids@),
{
    if slot.layer != layer {
        return false;
    }
    let mut i: usize = 0;
    while i < ids.len()
        invariant
            i <= ids@.len(),
            forall|j: int| 0 <= j < i ==> slot.expert_ids@.contains(ids@[j]),
        decreases ids@.len() - i,
    {
        let mut found = false;
        let mut k: usize = 0;
        while k < slot.expert_ids.len() && !found
            invariant
                i < ids@.len(),
                k <= slot.expert_ids@.len(),
                found ==> slot.expert_ids@.contains(ids@[i as int]),
                !found ==> forall|m: int| 0 <= m < k ==> slot.expert_ids@[m] != ids@[i as int],
            decreases slot.expert_ids@.len() - k + (if found { 0int } else { 1int }),
        {
            if slot.expert_ids[k] == ids[i] {
                assert(slot.expert_ids@[k as int] == ids@[i as int]);
                found = true;
            } else {
                k = k + 1;
            }
        }
        if !found {
            assert(!slot.expert_ids@.contains(ids@[i as int]));
            return false;
        }
        i = i + 1;
    }
    true
}

impl OnnxMoeSessionPool {
    /// The slots, as data.
    pub closed spec fn slots(&self) -> Seq<SlotView> {
        slots_view(self.slots@)
    }

    /// The most slots the pool holds.
    pub closed spec fn capacity(&self) -> usize {
        self.max_slots
    }

    /// An empty pool of at most `max_slots` sessions.
    pub fn new(max_slots: usize) -> (r: Self)
        ensures
            r.slots() == Seq::<SlotView>::empty(),
            r.capacity() == max_slots,
    {
        let r = OnnxMoeSessionPool { slots: Vec::new(), max_slots };
        assert(r.slots() =~= Seq::<SlotView>::empty());
        r
    }

    /// The number of sessions in the pool.
    pub fn active_sessions(&self) -> (r: usize)
        ensures
            r == self.slots().len(),
    {
        self.slots.len()
    }

    /// The most sessions the pool holds.
    pub fn max_slots(&self) -> (r: usize)
        ensures
            r == self.capacity(),
    {
        self.max_slots
    }

    /// The slots, oldest first.
    pub fn slot_list(&self) -> (r: &Vec<ExpertSessionSlot>)
        ensures
            slots_view(r@) == self.slots(),
    {
        &self.slots
    }

    /// Removes the first least recently used slot, if there is one.
    fn evict_lru(&mut self)
        ensures
            final(self).slots() == without_lru(old(self).slots()),
            final(self).capacity() == old(self).capacity(),
    {
        if self.slots.len() == 0 {
            return;
        }
        let ghost v = self.slots();
        let mut best: usize = 0;
        let mut i: usize = 1;
        while i < self.slots.len()
            invariant
                v == slots_view(self.slots@),
                1 <= i <= self.slots@.len(),
                best < i,
                forall|j: int| 0 <= j < i ==> v[best as int].last_used <= v[j].last_used,
                forall|j: int| 0 <= j < best ==> v[best as int].last_used < v[j].last_used,
            decreases self.slots@.len() - i,
        {
            if self.slots[i].last_used < self.slots[best].last_used {
                best = i;
            }
            i = i + 1;
        }
        proof {
            assert(is_lru(v, best as int));
            let c = choose|c: int| is_lru(v, c);
            assert(is_lru(v, c));
            if c < best {
                assert(v[best as int].last_used < v[c].last_used);
            }
            if best < c {
                assert(v[c].last_used < v[best as int].last_used);
            }
            assert(c == best);
        }
        self.slots.remove(best);
        assert(self.slots() =~= v.remove(best as int));
    }
}

/// The pool after a step that needs the experts `ids` of `layer` at time
/// `now`: the first slot holding them all is marked used; otherwise, the
/// least recently used slot leaving first when the pool is full, a new slot
/// for them is added.
pub open spec fn prepared(v: Seq<SlotView>, max_slots: usize, layer: usize, ids: Seq<usize>, now: u64) -> Seq<SlotView> {
    match first_cover(v, layer, ids) {
        Some(i) => v.update(i, SlotView { layer: v[i].layer, expert_ids: v[i].expert_ids, last_used: now }),
        None => (if v.len() >= max_slots {
            without_lru(v)
        } else {
            v
        }).push(SlotView { layer, expert_ids: ids, last_used: now }),
    }
}

impl OnnxMoeSessionPool {
    /// Makes sure a session holds the experts `expert_ids` of `layer` before
    /// a generation step, at time `now`.
    pub fn prepare_experts(&mut self, layer: usize, expert_ids: &Vec<usize>, now: u64) -> (r: Result<(), String>)
        ensures
            r is Ok,
            final(self).capacity() == old(self).capacity(),
            final(self).slots() == prepared(old(self).slots(), old(self).capacity(), layer, expert_ids@, now),
    {
        let ghost v = self.slots();
        let mut i: usize = 0;
        while i < self.slots.len()
            invariant
                v == slots_view(self.slots@),
                v == old(self).slots(),
                self.max_slots == old(self).max_slots,
                i <= self.slots@.len(),
                forall|j: int| 0 <= j < i ==> !covers(v[j], layer, expert_ids@),
            decreases self.slots@.len() - i,
        {
            if slot_covers(&self.slots[i], layer, expert_ids) {
                proof {
                    assert(covers(v[i as int], layer, expert_ids@));
                    let c = choose|c: int|
                        0 <= c < v.len() && covers(v[c], layer, expert_ids@) && forall|j: int|
                            0 <= j < c ==> !covers(v[j], layer, expert_ids@);
                    if c < i {
                        assert(!covers(v[c], layer, expert_ids@));
                    }
                    if i < c {
                        assert(!covers(v[i as int], layer, expert_ids@));
                    }
                    assert(first_cover(v, layer, expert_ids@) == Some(i as int));
                }
                let mut slot = self.slots.remove(i);
                slot.last_used = now;
                self.slots.insert(i, slot);
                assert(self.slots() =~= v.update(
                    i as int,
                    SlotView { layer: v[i as int].layer, expert_ids: v[i as int].expert_ids, last_used: now },
                ));
                return Ok(());
            }
            i = i + 1;
        }
        assert(first_cover(v, layer, expert_ids@) is None);
        if self.slots.len() >= self.max_slots {
            self.evict_lru();
        }
        let mut ids: Vec<usize> = Vec::new();
        let mut k: usize = 0;
        while k < expert_ids.len()
            invariant
                k <= expert_ids@.len(),
                ids@ == expert_ids@.take(k as int),
            decreases expert_ids@.len() - k,
        {
            ids.push(expert_ids[k]);
            assert(ids@ =~= expert_ids@.take(k as int + 1));
            k = k + 1;
        }
        assert(expert_ids@.take(expert_ids@.len() as int) =~= expert_ids@);
        let ghost before = self.slots();
        self.slots.push(ExpertSessionSlot { layer, expert_ids: ids, last_used: now });
        assert(self.slots() =~= before.push(SlotView { layer, expert_ids: expert_ids@, last_used: now }));
        Ok(())
    }
}

proof fn lemma_first_cover_exists(v: Seq<SlotView>, layer: usize, ids: Seq<usize>, i: int)
    requires
        0 <= i < v.len(),
        covers(v[i], layer, ids),
    ensures
        exists|c: int|
            0 <= c < v.len() && covers(v[c], layer, ids) && forall|j: int| 0 <= j < c ==> !covers(v[j], layer, ids),
    decreases i,
{
    if exists|j: int| 0 <= j < i && covers(v[j], layer, ids) {
        let j = choose|j: int| 0 <= j < i && covers(v[j], layer, ids);
        lemma_first_cover_exists(v, layer, ids, j);
    } else {
        assert(forall|j: int| 0 <= j < i ==> !covers(v[j], layer, ids));
    }
}

/// What `first_cover` gives: the first covering slot, or none at all.
proof fn lemma_first_cover(v: Seq<SlotView>, layer: usize, ids: Seq<usize>)
    ensures
        match first_cover(v, layer, ids) {
            Some(i) => 0 <= i < v.len() && covers(v[i], layer, ids) && forall|j: int|
                0 <= j < i ==> !covers(v[j], layer, ids),
            None => forall|j: int| 0 <= j < v.len() ==> !covers(v[j], layer, ids),
        },
{
    if exists|i: int| 0 <= i < v.len() && covers(v[i], layer, ids) {
        let i = choose|i: int| 0 <= i < v.len() && covers(v[i], layer, ids);
        lemma_first_cover_exists(v, layer, ids, i);
    }
}

/// A nonempty pool has a first least recently used slot.
proof fn lemma_lru_exists(v: Seq<SlotView>)
    requires
        v.len() > 0,
    ensures
        exists|i: int| is_lru(v, i),
    decreases v.len(),
{
    if v.len() == 1 {
        assert(is_lru(v, 0));
    } else {
        let w = v.drop_last();
        lemma_lru_exists(w);
        let i = choose|i: int| is_lru(w, i);
        assert(forall|j: int| 0 <= j < w.len() ==> w[j] == v[j]);
        if v.last().last_used < w[i].last_used {
            assert(is_lru(v, v.len() - 1));
        } else {
            assert(is_lru(v, i));
        }
    }
}

/// The pool never holds more sessions than it may: a step on a pool within
/// its capacity (of at least one slot) leaves it within its capacity.
pub proof fn lemma_pool_within_capacity(v: Seq<SlotView>, max_slots: usize, layer: usize, ids: Seq<usize>, now: u64)
    requires
        v.len() <= max_slots,
        max_slots >= 1,
    ensures
        prepared(v, max_slots, layer, ids, now).len() <= max_slots,
{
    lemma_first_cover(v, layer, ids);
    if v.len() > 0 {
        lemma_lru_exists(v);
    }
}

/// After a step, some slot holds every expert the step needs, in its layer,
/// marked used at the step's time.
pub proof fn lemma_prepared_covers(v: Seq<SlotView>, max_slots: usize, layer: usize, ids: Seq<usize>, now: u64)
    ensures
        exists|i: int|
            0 <= i < prepared(v, max_slots, layer, ids, now).len() && covers(
                #[trigger] prepared(v, max_slots, layer, ids, now)[i],
                layer,
                ids,
            ) && prepared(v, max_slots, layer, ids, now)[i].last_used == now,
{
    let p = prepared(v, max_slots, layer, ids, now);
    lemma_first_cover(v, layer, ids);
    if v.len() > 0 {
        lemma_lru_exists(v);
    }
    match first_cover(v, layer, ids) {
        Some(i) => {
            assert(covers(p[i], layer, ids));
        },
        None => {
            let n = p.len() - 1;
            assert(p[n].expert_ids == ids);
            assert forall|k: int| 0 <= k < ids.len() implies p[n].expert_ids.contains(ids[k]) by {
                assert(p[n].expert_ids[k] == ids[k]);
            }
            assert(covers(p[n], layer, ids));
        },
    }
}

} // verus!
