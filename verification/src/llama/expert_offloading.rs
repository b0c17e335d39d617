//! Residency of mixture-of-experts weights: which `(layer, expert)` pages a
//! model keeps warm, which it releases, and which it asks to be read ahead.
//!
//! The controller keeps a recency list of the experts the router used. Each
//! routing step moves the step's experts to the back of the list; when the
//! list outgrows the RAM budget, the oldest entries leave it and, unless
//! pinned, their pages are released. Layers held on the GPU are never
//! advised.
use vstd::prelude::*;
use crate::text::{decimal_seq, join_parts, u64_to_decimal};

verus! {

/// A `(layer, expert)` pair.
pub type ExpertKey = (usize, usize);

/// The structure of a mixture-of-experts model.
#[derive(Debug, Clone, Copy)]
pub struct MoeModelInfo {
    pub is_moe: bool,
    /// Experts per MoE layer.
    pub expert_count: usize,
    /// Number of MoE layers.
    pub moe_layer_count: usize,
    /// Experts the router activates per token.
    pub active_experts_per_token: usize,
    /// Bytes of all expert weights.
    pub total_expert_bytes: u64,
    /// Bytes of one expert's weights.
    pub expert_size_bytes: u64,
    /// Bytes of the dense (non-expert) weights.
    pub dense_backbone_bytes: u64,
}

/// `s` with `k` moved to (or added at) its back.
pub open spec fn touch(s: Seq<ExpertKey>, k: ExpertKey) -> Seq<ExpertKey> {
    s.remove_value(k).push(k)
}

/// `s` after touching `(layer, id)` for each `id` of `ids` in turn.
pub open spec fn touch_all(s: Seq<ExpertKey>, layer: usize, ids: Seq<usize>) -> Seq<ExpertKey>
    decreases ids.len(),
{
    if ids.len() == 0 {
        s
    } else {
        touch(touch_all(s, layer, ids.drop_last()), (layer, ids.last()))
    }
}

/// How many entries of a recency list of length `n` exceed a budget of `max`.
pub open spec fn overflow(n: int, max: int) -> int {
    if n > max {
        n - max
    } else {
        0
    }
}

/// What one routing step asks of the operating system and the reader.
#[derive(Debug)]
pub struct RoutingAdvice {
    /// Pages to keep or bring resident, in the order they are advised.
    pub willneed: Vec<ExpertKey>,
    /// Pages to release, oldest first.
    pub dontneed: Vec<ExpertKey>,
    /// Read-ahead requests: a layer and the experts to read in it.
    pub prefetch: Vec<(usize, Vec<usize>)>,
}

/// The read-ahead requests as data.
pub open spec fn prefetch_view(v: Seq<(usize, Vec<usize>)>) -> Seq<(usize, Seq<usize>)> {
    v.map_values(|g: (usize, Vec<usize>)| (g.0, g.1@))
}

/// The distinct layers of `p`, in order of first appearance.
pub open spec fn layers_in_order(p: Seq<ExpertKey>) -> Seq<usize>
    decreases p.len(),
{
    if p.len() == 0 {
        Seq::empty()
    } else {
        let d = layers_in_order(p.drop_last());
        if d.contains(p.last().0) {
            d
        } else {
            d.push(p.last().0)
        }
    }
}

/// The experts of `p` in layer `l`, in order.
pub open spec fn experts_of(p: Seq<ExpertKey>, l: usize) -> Seq<usize>
    decreases p.len(),
{
    if p.len() == 0 {
        Seq::empty()
    } else {
        let r = experts_of(p.drop_last(), l);
        if p.last().0 == l {
            r.push(p.last().1)
        } else {
            r
        }
    }
}

/// `p` grouped by layer: each layer once, in order of first appearance,
/// with its experts in order.
pub open spec fn group_by_layer(p: Seq<ExpertKey>) -> Seq<(usize, Seq<usize>)> {
    layers_in_order(p).map_values(|l: usize| (l, experts_of(p, l)))
}

/// The expert residency state of a model: which layers sit on the GPU, the
/// recency list of routed experts, and the experts pinned in RAM.
pub struct ExpertResidency {
    n_gpu_layers: usize,
    moe_layer_count: usize,
    last_active_experts: Vec<ExpertKey>,
    pinned_hot_experts: Vec<ExpertKey>,
}

impl ExpertResidency {
    /// Layers below this index are held on the GPU.
    pub closed spec fn gpu_layers(&self) -> usize {
        self.n_gpu_layers
    }

    /// The number of MoE layers.
    pub closed spec fn layer_count(&self) -> usize {
        self.moe_layer_count
    }

    /// The recency list, oldest first.
    pub closed spec fn recent(&self) -> Seq<ExpertKey> {
        self.last_active_experts@
    }

    /// The experts pinned in RAM.
    pub closed spec fn pinned(&self) -> Seq<ExpertKey> {
        self.pinned_hot_experts@
    }

    /// A state with an empty recency list.
    pub fn new(n_gpu_layers: usize, moe_layer_count: usize, pinned_hot_experts: Vec<ExpertKey>) -> (r: Self)
        ensures
            r.gpu_layers() == n_gpu_layers,
            r.layer_count() == moe_layer_count,
            r.recent() == Seq::<ExpertKey>::empty(),
            r.pinned() == pinned_hot_experts@,
    {
        ExpertResidency { n_gpu_layers, moe_layer_count, last_active_experts: Vec::new(), pinned_hot_experts }
    }

    /// The recency list, oldest first.
    pub fn last_active_experts(&self) -> (r: &Vec<ExpertKey>)
        ensures
            r@ == self.recent(),
    {
        &self.last_active_experts
    }

    /// The experts pinned in RAM.
    pub fn pinned_hot_experts(&self) -> (r: &Vec<ExpertKey>)
        ensures
            r@ == self.pinned(),
    {
        &self.pinned_hot_experts
    }

    /// Layers below this index are held on the GPU.
    pub fn n_gpu_layers(&self) -> (r: usize)
        ensures
            r == self.gpu_layers(),
    {
        self.n_gpu_layers
    }
}

fn index_of_key(v: &Vec<ExpertKey>, k: ExpertKey) -> (r: Option<usize>)
    ensures
        r == match v@.index_of_first(k) {
            Some(i) => Some(i as usize),
            None => None::<usize>,
        },
{
    proof {
        v@.index_of_first_ensures(k);
    }
    let mut i: usize = 0;
    while i < v.len()
        invariant
            i <= v@.len(),
            forall|j: int| 0 <= j < i ==> v@[j] != k,
            match v@.index_of_first(k) {
                Some(x) => i <= x < v@.len() && v@[x] == k && forall|j: int| 0 <= j < x ==> v@[j] != k,
                None => !v@.contains(k),
            },
        decreases v@.len() - i,
    {
        if v[i].0 == k.0 && v[i].1 == k.1 {
            proof {
                match v@.index_of_first(k) {
                    Some(x) => {
                        if x > i {
                            assert(v@[i as int] != k);
                        }
                    },
                    None => {
                        assert(v@.contains(k));
                    },
                }
            }
            return Some(i);
        }
        i = i + 1;
    }
    proof {
        match v@.index_of_first(k) {
            Some(x) => {
                assert(v@[x] != k);
            },
            None => {},
        }
    }
    None
}

fn contains_key(v: &Vec<ExpertKey>, k: ExpertKey) -> (r: bool)
    ensures
        r == v@.contains(k),
{
    let mut i: usize = 0;
    while i < v.len()
        invariant
            i <= v@.len(),
            forall|j: int| 0 <= j < i ==> v@[j] != k,
        decreases v@.len() - i,
    {
        if v[i].0 == k.0 && v[i].1 == k.1 {
            assert(v@[i as int] == k);
            return true;
        }
        i = i + 1;
    }
    false
}

fn touch_key(v: &mut Vec<ExpertKey>, k: ExpertKey)
    ensures
        final(v)@ == touch(old(v)@, k),
{
    proof {
        v@.index_of_first_ensures(k);
    }
    match index_of_key(v, k) {
        Some(i) => {
            v.remove(i);
        },
        None => {},
    }
    v.push(k);
}

/// The mapped bytes that a paging advice for one expert covers: from its
/// gate tensor's offset over its gate, up and down tensors, when the expert
/// is on the CPU and the span lies inside the mapping.
pub open spec fn advice_span_spec(layer: int, gpu_layers: int, gate_offset: int, gate_len: int, up_len: int, down_len: int, mapped_len: int) -> Option<(int, int)> {
    if layer >= gpu_layers && gate_offset + gate_len + up_len + down_len <= mapped_len {
        Some((gate_offset, gate_len + up_len + down_len))
    } else {
        None
    }
}

/// The offset and length of the mapped bytes that a paging advice for the
/// expert with these tensors covers; `None` for an expert on the GPU or a
/// span that leaves the mapping of `mapped_len` bytes.
pub fn advice_span(layer: usize, gpu_layers: usize, gate_offset: u64, gate_len: u64, up_len: u64, down_len: u64, mapped_len: u64) -> (r: Option<(u64, u64)>)
    ensures
        match r {
            Some((o, l)) => advice_span_spec(layer as int, gpu_layers as int, gate_offset as int, gate_len as int, up_len as int, down_len as int, mapped_len as int) == Some((o as int, l as int)),
            None => advice_span_spec(layer as int, gpu_layers as int, gate_offset as int, gate_len as int, up_len as int, down_len as int, mapped_len as int) is None,
        },
{
    if layer < gpu_layers {
        return None;
    }
    if gate_len > mapped_len || up_len > mapped_len - gate_len || down_len > mapped_len - gate_len - up_len {
        return None;
    }
    let total = gate_len + up_len + down_len;
    if gate_offset > mapped_len - total {
        return None;
    }
    Some((gate_offset, total))
}

/// Entries whose pages a release may advise: not pinned, not on the GPU.
pub open spec fn releasable(pinned: Seq<ExpertKey>, gpu_layers: usize) -> spec_fn(ExpertKey) -> bool {
    |k: ExpertKey| !pinned.contains(k) && k.0 >= gpu_layers
}

/// Entries whose pages an advice may name: those not on the GPU.
pub open spec fn on_cpu(gpu_layers: usize) -> spec_fn(ExpertKey) -> bool {
    |k: ExpertKey| k.0 >= gpu_layers
}

/// The pairs `(layer, id)` for each `id` of `ids`.
pub open spec fn in_layer(layer: usize, ids: Seq<usize>) -> Seq<ExpertKey> {
    ids.map_values(|id: usize| (layer, id))
}

fn contains_usize(v: &Vec<usize>, x: usize) -> (r: bool)
    ensures
        r == v@.contains(x),
{
    let mut i: usize = 0;
    while i < v.len()
        invariant
            i <= v@.len(),
            forall|j: int| 0 <= j < i ==> v@[j] != x,
        decreases v@.len() - i,
    {
        if v[i] == x {
            assert(v@[i as int] == x);
            return true;
        }
        i = i + 1;
    }
    false
}

fn distinct_layers(p: &Vec<ExpertKey>) -> (r: Vec<usize>)
    ensures
        r@ == layers_in_order(p@),
{
    let mut d: Vec<usize> = Vec::new();
    let mut i: usize = 0;
    while i < p.len()
        invariant
            i <= p@.len(),
            d@ == layers_in_order(p@.take(i as int)),
        decreases p@.len() - i,
    {
        assert(p@.take(i as int + 1).drop_last() =~= p@.take(i as int));
        let l = p[i].0;
        if !contains_usize(&d, l) {
            d.push(l);
        }
        i = i + 1;
    }
    assert(p@.take(p@.len() as int) =~= p@);
    d
}

fn experts_in(p: &Vec<ExpertKey>, l: usize) -> (r: Vec<usize>)
    ensures
        r@ == experts_of(p@, l),
{
    let mut e: Vec<usize> = Vec::new();
    let mut i: usize = 0;
    while i < p.len()
        invariant
            i <= p@.len(),
            e@ == experts_of(p@.take(i as int), l),
        decreases p@.len() - i,
    {
        assert(p@.take(i as int + 1).drop_last() =~= p@.take(i as int));
        if p[i].0 == l {
            e.push(p[i].1);
        }
        i = i + 1;
    }
    assert(p@.take(p@.len() as int) =~= p@);
    e
}

fn group_layers(p: &Vec<ExpertKey>) -> (r: Vec<(usize, Vec<usize>)>)
    ensures
        prefetch_view(r@) == group_by_layer(p@),
{
    let layers = distinct_layers(p);
    let mut r: Vec<(usize, Vec<usize>)> = Vec::new();
    let mut i: usize = 0;
    while i < layers.len()
        invariant
            i <= layers@.len(),
            layers@ == layers_in_order(p@),
            prefetch_view(r@) == layers@.take(i as int).map_values(|l: usize| (l, experts_of(p@, l))),
        decreases layers@.len() - i,
    {
        let l = layers[i];
        let es = experts_in(p, l);
        let ghost old_r = r@;
        let ghost ev = es@;
        r.push((l, es));
        proof {
            assert(prefetch_view(r@) =~= prefetch_view(old_r).push((l, ev)));
            assert(layers@.take(i as int + 1) =~= layers@.take(i as int).push(l));
            assert(prefetch_view(r@) =~= layers@.take(i as int + 1).map_values(|l: usize| (l, experts_of(p@, l))));
        }
        i = i + 1;
    }
    assert(layers@.take(layers@.len() as int) =~= layers@);
    r
}

fn copy_ids(v: &Vec<usize>) -> (r: Vec<usize>)
    ensures
        r@ == v@,
{
    let mut r: Vec<usize> = Vec::new();
    let mut i: usize = 0;
    while i < v.len()
        invariant
            i <= v@.len(),
            r@ == v@.take(i as int),
        decreases v@.len() - i,
    {
        r.push(v[i]);
        assert(r@ =~= v@.take(i as int + 1));
        i = i + 1;
    }
    assert(v@.take(v@.len() as int) =~= v@);
    r
}

impl ExpertResidency {
    /// One routing step: the router chose `active_expert_ids` in `layer`,
    /// and may have predicted the experts of the next step.
    ///
    /// Each chosen expert moves to the back of the recency list; then, while
    /// the list holds more than `max_experts_in_ram` entries, the oldest
    /// leaves it, its pages released unless it is pinned or on the GPU. The
    /// chosen experts, then the predicted ones, are advised resident (those
    /// on the GPU excepted). Read-ahead goes to the predicted experts,
    /// grouped by layer, or without a prediction to the chosen experts in
    /// the next layer, if there is one.
    pub fn on_routing_decision(
        &mut self,
        layer: usize,
        active_expert_ids: &Vec<usize>,
        predicted_next_experts: Option<&Vec<ExpertKey>>,
        max_experts_in_ram: usize,
    ) -> (r: RoutingAdvice)
        ensures
            final(self).gpu_layers() == old(self).gpu_layers(),
            final(self).layer_count() == old(self).layer_count(),
            final(self).pinned() == old(self).pinned(),
            ({
                let t = touch_all(old(self).recent(), layer, active_expert_ids@);
                let n = overflow(t.len() as int, max_experts_in_ram as int);
                &&& final(self).recent() == t.skip(n)
                &&& r.dontneed@ == t.take(n).filter(releasable(old(self).pinned(), old(self).gpu_layers()))
            }),
            r.willneed@ == (if layer >= old(self).gpu_layers() {
                in_layer(layer, active_expert_ids@)
            } else {
                Seq::empty()
            }) + match predicted_next_experts {
                Some(p) => p@.filter(on_cpu(old(self).gpu_layers())),
                None => Seq::empty(),
            },
            prefetch_view(r.prefetch@) == match predicted_next_experts {
                Some(p) => group_by_layer(p@),
                None => if layer + 1 < old(self).layer_count() {
                    seq![((layer + 1) as usize, active_expert_ids@)]
                } else {
                    Seq::empty()
                },
            },
    {
        let ghost start = self.last_active_experts@;
        let ngpu = self.n_gpu_layers;
        let mut i: usize = 0;
        while i < active_expert_ids.len()
            invariant
                i <= active_expert_ids@.len(),
                self.last_active_experts@ == touch_all(start, layer, active_expert_ids@.take(i as int)),
                self.n_gpu_layers == ngpu,
                self.n_gpu_layers == old(self).n_gpu_layers,
                self.moe_layer_count == old(self).moe_layer_count,
                self.pinned_hot_experts == old(self).pinned_hot_experts,
            decreases active_expert_ids@.len() - i,
        {
            assert(active_expert_ids@.take(i as int + 1).drop_last() =~= active_expert_ids@.take(i as int));
            touch_key(&mut self.last_active_experts, (layer, active_expert_ids[i]));
            i = i + 1;
        }
        assert(active_expert_ids@.take(active_expert_ids@.len() as int) =~= active_expert_ids@);
        let ghost t = self.last_active_experts@;

        let mut willneed: Vec<ExpertKey> = Vec::new();
        if layer >= ngpu {
            let mut j: usize = 0;
            while j < active_expert_ids.len()
                invariant
                    j <= active_expert_ids@.len(),
                    willneed@ == in_layer(layer, active_expert_ids@.take(j as int)),
                decreases active_expert_ids@.len() - j,
            {
                willneed.push((layer, active_expert_ids[j]));
                assert(willneed@ =~= in_layer(layer, active_expert_ids@.take(j as int + 1)));
                j = j + 1;
            }
        }
        let ghost w0 = willneed@;
        assert(w0 == if layer >= ngpu { in_layer(layer, active_expert_ids@) } else { Seq::<ExpertKey>::empty() });
        match predicted_next_experts {
            Some(p) => {
                let mut j: usize = 0;
                while j < p.len()
                    invariant
                        j <= p@.len(),
                        willneed@ == w0 + p@.take(j as int).filter(on_cpu(ngpu)),
                    decreases p@.len() - j,
                {
                    proof {
                        assert(p@.take(j as int + 1) =~= p@.take(j as int).push(p@[j as int]));
                        p@.take(j as int).lemma_filter_push(p@[j as int], on_cpu(ngpu));
                    }
                    if p[j].0 >= ngpu {
                        willneed.push(p[j]);
                    }
                    j = j + 1;
                }
                assert(p@.take(p@.len() as int) =~= p@);
            },
            None => {
                assert(w0 + Seq::<ExpertKey>::empty() =~= w0);
            },
        }

        let mut dontneed: Vec<ExpertKey> = Vec::new();
        let ghost mut k: int = 0;
        let ghost rel = releasable(self.pinned_hot_experts@, ngpu);
        while self.last_active_experts.len() > max_experts_in_ram
            invariant
                0 <= k <= t.len(),
                self.last_active_experts@ == t.skip(k),
                dontneed@ == t.take(k).filter(rel),
                k <= overflow(t.len() as int, max_experts_in_ram as int),
                rel == releasable(self.pinned_hot_experts@, ngpu),
                self.n_gpu_layers == ngpu,
                self.n_gpu_layers == old(self).n_gpu_layers,
                self.moe_layer_count == old(self).moe_layer_count,
                self.pinned_hot_experts == old(self).pinned_hot_experts,
            decreases self.last_active_experts@.len(),
        {
            let cold = self.last_active_experts.remove(0);
            proof {
                assert(cold == t[k]);
                assert(t.take(k + 1) =~= t.take(k).push(t[k]));
                t.take(k).lemma_filter_push(t[k], rel);
                assert(self.last_active_experts@ =~= t.skip(k + 1));
                k = k + 1;
            }
            if !contains_key(&self.pinned_hot_experts, cold) && cold.0 >= ngpu {
                dontneed.push(cold);
            }
        }

        let prefetch = match predicted_next_experts {
            Some(p) => group_layers(p),
            None => {
                if self.moe_layer_count > 0 && layer < self.moe_layer_count - 1 {
                    let mut v: Vec<(usize, Vec<usize>)> = Vec::new();
                    v.push((layer + 1, copy_ids(active_expert_ids)));
                    assert(prefetch_view(v@) =~= seq![((layer + 1) as usize, active_expert_ids@)]);
                    v
                } else {
                    let v: Vec<(usize, Vec<usize>)> = Vec::new();
                    assert(prefetch_view(v@) =~= Seq::<(usize, Seq<usize>)>::empty());
                    v
                }
            },
        };
        RoutingAdvice { willneed, dontneed, prefetch }
    }
}

/// Expert `a` is hotter than expert `b`: routed more often, or as often
/// and with a lower id.
pub open spec fn hotter(freq: Seq<u64>, a: int, b: int) -> bool {
    freq[a] > freq[b] || (freq[a] == freq[b] && a < b)
}

/// `r` lists the hottest routed experts of `freq` (those with a nonzero
/// frequency), hottest first, at most `limit` of them: no routed expert left
/// out is hotter than one listed, and one is left out only when `limit` is
/// reached.
pub open spec fn hottest_first(freq: Seq<u64>, limit: int, r: Seq<usize>) -> bool {
    &&& r.len() <= limit
    &&& forall|i: int| 0 <= i < r.len() ==> r[i] < freq.len() && freq[r[i] as int] > 0
    &&& forall|i: int, j: int| 0 <= i < j < r.len() ==> hotter(freq, r[i] as int, r[j] as int)
    &&& forall|e: int|
        0 <= e < freq.len() && freq[e] > 0 && !r.contains(e as usize) ==> r.len() == limit && forall|i: int|
            0 <= i < r.len() ==> hotter(freq, r[i] as int, e)
}

/// The number of experts pre-warmed at start-up: twice the experts routed
/// per token, at least 8.
pub open spec fn prewarm_limit(active_experts_per_token: usize) -> int {
    if active_experts_per_token * 2 > 8 {
        active_experts_per_token * 2
    } else {
        8
    }
}

/// Lexicographic order on `(layer, expert)` pairs.
pub open spec fn key_less(a: ExpertKey, b: ExpertKey) -> bool {
    a.0 < b.0 || (a.0 == b.0 && a.1 < b.1)
}

/// Expert `x` can follow the list `r`: it was routed, and it is colder
/// than the last expert listed.
pub open spec fn can_follow(freq: Seq<u64>, r: Seq<usize>, x: int) -> bool {
    freq[x] > 0 && (r.len() == 0 || hotter(freq, r.last() as int, x))
}

/// The hottest expert that can follow `r`, if any.
fn hottest_after(freq: &Vec<u64>, r: &Vec<usize>) -> (best: Option<usize>)
    requires
        forall|i: int| 0 <= i < r@.len() ==> r@[i] < freq@.len(),
    ensures
        match best {
            Some(b) => {
                &&& b < freq@.len()
                &&& can_follow(freq@, r@, b as int)
                &&& forall|x: int|
                    0 <= x < freq@.len() && #[trigger] can_follow(freq@, r@, x) && x != b ==> hotter(
                        freq@,
                        b as int,
                        x,
                    )
            },
            None => forall|x: int| 0 <= x < freq@.len() ==> !#[trigger] can_follow(freq@, r@, x),
        },
{
    let n = freq.len();
    let mut best: Option<usize> = None;
    let mut e: usize = 0;
    while e < n
        invariant
            n == freq@.len(),
            e <= n,
            forall|i: int| 0 <= i < r@.len() ==> r@[i] < n,
            match best {
                Some(b) => {
                    &&& b < e
                    &&& can_follow(freq@, r@, b as int)
                    &&& forall|x: int|
                        0 <= x < e && #[trigger] can_follow(freq@, r@, x) && x != b ==> hotter(freq@, b as int, x)
                },
                None => forall|x: int| 0 <= x < e ==> !#[trigger] can_follow(freq@, r@, x),
            },
        decreases n - e,
    {
        let fe = freq[e];
        let mut eligible = fe > 0;
        if eligible && r.len() > 0 {
            let last = r[r.len() - 1];
            assert(last == r@.last());
            eligible = freq[last] > fe || (freq[last] == fe && last < e);
        }
        assert(eligible == can_follow(freq@, r@, e as int));
        if eligible {
            match best {
                Some(b) => {
                    if fe > freq[b] {
                        best = Some(e);
                        assert forall|x: int|
                            0 <= x < e + 1 && #[trigger] can_follow(freq@, r@, x) && x != e implies hotter(
                            freq@,
                            e as int,
                            x,
                        ) by {
                            if x != b {
                                assert(hotter(freq@, b as int, x));
                            }
                        }
                    }
                },
                None => {
                    best = Some(e);
                },
            }
        }
        e = e + 1;
    }
    best
}

impl ExpertResidency {
    /// The experts of the first layer on the CPU to pre-warm at start-up,
    /// from their routing frequencies in earlier sessions (`freq[e]` for
    /// expert `e`): the hottest first, at most twice the experts routed per
    /// token (at least 8). None when every MoE layer is on the GPU.
    pub fn prewarm_experts(&self, active_experts_per_token: usize, freq: &Vec<u64>) -> (r: Vec<usize>)
        requires
            active_experts_per_token <= usize::MAX / 2,
        ensures
            self.gpu_layers() >= self.layer_count() ==> r@.len() == 0,
            self.gpu_layers() < self.layer_count() ==> hottest_first(
                freq@,
                prewarm_limit(active_experts_per_token),
                r@,
            ),
    {
        let mut r: Vec<usize> = Vec::new();
        if self.n_gpu_layers >= self.moe_layer_count {
            return r;
        }
        let doubled = active_experts_per_token * 2;
        let limit: usize = if doubled > 8 { doubled } else { 8 };
        let n = freq.len();
        while r.len() < limit
            invariant
                self.gpu_layers() < self.layer_count(),
                n == freq@.len(),
                limit == prewarm_limit(active_experts_per_token),
                r@.len() <= limit,
                forall|i: int| 0 <= i < r@.len() ==> r@[i] < n && freq@[r@[i] as int] > 0,
                forall|i: int, j: int| 0 <= i < j < r@.len() ==> hotter(freq@, r@[i] as int, r@[j] as int),
                forall|e: int|
                    0 <= e < n && freq@[e] > 0 && !r@.contains(e as usize) ==> forall|i: int|
                        0 <= i < r@.len() ==> hotter(freq@, r@[i] as int, e),
            decreases limit - r@.len(),
        {
            match hottest_after(freq, &r) {
                Some(b) => {
                    let ghost old_r = r@;
                    proof {
                        assert forall|i: int| 0 <= i < old_r.len() implies hotter(freq@, old_r[i] as int, b as int) by {
                            assert(hotter(freq@, old_r.last() as int, b as int));
                            if i < old_r.len() - 1 {
                                assert(hotter(freq@, old_r[i] as int, old_r[old_r.len() - 1] as int));
                            }
                        }
                    }
                    r.push(b);
                    proof {
                        assert(r@ == old_r.push(b));
                        assert forall|x: int|
                            0 <= x < n && freq@[x] > 0 && !r@.contains(x as usize) implies forall|i: int|
                            0 <= i < r@.len() ==> hotter(freq@, r@[i] as int, x) by {
                            assert(r@[old_r.len() as int] == b);
                            assert(x != b);
                            if old_r.contains(x as usize) {
                                let i = choose|i: int| 0 <= i < old_r.len() && old_r[i] == x as usize;
                                assert(r@[i] == x as usize);
                            }
                            if old_r.len() > 0 {
                                assert(hotter(freq@, old_r[old_r.len() - 1] as int, x));
                            }
                            assert(can_follow(freq@, old_r, x));
                            assert(hotter(freq@, b as int, x));
                        }
                    }
                },
                None => {
                    proof {
                        assert forall|x: int| 0 <= x < n && freq@[x] > 0 && !r@.contains(x as usize) implies false by {
                            if r@.len() > 0 {
                                assert(hotter(freq@, r@[r@.len() - 1] as int, x));
                            }
                            assert(can_follow(freq@, r@, x));
                        }
                    }
                    return r;
                },
            }
        }
        r
    }
}

/// The pages released after loading: every expert of every MoE layer but
/// `keep_layer`, layers on the GPU excepted.
pub open spec fn purged(layer_count: usize, expert_count: usize, keep_layer: usize, gpu_layers: usize, k: ExpertKey) -> bool {
    k.0 < layer_count && k.0 != keep_layer && k.0 >= gpu_layers && k.1 < expert_count
}

impl ExpertResidency {
    /// The `(layer, expert)` pages to release right after loading, in layer
    /// then expert order: all experts of all MoE layers except
    /// `keep_layer`, layers on the GPU excepted.
    pub fn purge_targets(&self, expert_count: usize, keep_layer: usize) -> (r: Vec<ExpertKey>)
        ensures
            forall|k: ExpertKey|
                r@.contains(k) <==> purged(self.layer_count(), expert_count, keep_layer, self.gpu_layers(), k),
            forall|i: int, j: int| 0 <= i < j < r@.len() ==> key_less(r@[i], r@[j]),
    {
        let mut r: Vec<ExpertKey> = Vec::new();
        let lc = self.moe_layer_count;
        let ngpu = self.n_gpu_layers;
        let mut l: usize = 0;
        while l < lc
            invariant
                l <= lc,
                lc == self.layer_count(),
                ngpu == self.gpu_layers(),
                forall|k: ExpertKey| r@.contains(k) <==> (k.0 < l && purged(lc, expert_count, keep_layer, ngpu, k)),
                forall|i: int, j: int| 0 <= i < j < r@.len() ==> key_less(r@[i], r@[j]),
                forall|i: int| 0 <= i < r@.len() ==> r@[i].0 < l,
            decreases lc - l,
        {
            if l != keep_layer && l >= ngpu {
                let ghost before = r@;
                let mut e: usize = 0;
                while e < expert_count
                    invariant
                        l < lc,
                        e <= expert_count,
                        l != keep_layer && l >= ngpu,
                        forall|k: ExpertKey|
                            r@.contains(k) <==> (before.contains(k) || (k.0 == l && k.1 < e)),
                        forall|i: int, j: int| 0 <= i < j < r@.len() ==> key_less(r@[i], r@[j]),
                        forall|i: int| 0 <= i < r@.len() ==> r@[i].0 < l || (r@[i].0 == l && r@[i].1 < e),
                    decreases expert_count - e,
                {
                    let ghost old_r = r@;
                    assert(forall|k: ExpertKey| #[trigger] old_r.contains(k) <==> (before.contains(k) || (k.0 == l && k.1 < e)));
                    r.push((l, e));
                    proof {
                        broadcast use vstd::seq_lib::group_seq_properties;
                        assert forall|k: ExpertKey|
                            r@.contains(k) <==> (before.contains(k) || (k.0 == l && k.1 < e + 1)) by {
                            assert(r@.contains(k) <==> (old_r.contains(k) || k == (l, e)));
                            assert(old_r.contains(k) <==> (before.contains(k) || (k.0 == l && k.1 < e)));
                        }
                    }
                    e = e + 1;
                }
                proof {
                    assert forall|k: ExpertKey| r@.contains(k) <==> (k.0 < l + 1 && purged(lc, expert_count, keep_layer, ngpu, k)) by {
                        assert(r@.contains(k) <==> (before.contains(k) || (k.0 == l && k.1 < expert_count)));
                        assert(before.contains(k) <==> (k.0 < l && purged(lc, expert_count, keep_layer, ngpu, k)));
                    }
                }
            } else {
                proof {
                    assert forall|k: ExpertKey| r@.contains(k) <==> (k.0 < l + 1 && purged(lc, expert_count, keep_layer, ngpu, k)) by {
                        assert(r@.contains(k) <==> (k.0 < l && purged(lc, expert_count, keep_layer, ngpu, k)));
                    }
                }
            }
            l = l + 1;
        }
        r
    }
}

/// Touching a list of distinct experts leaves them, in order, at the back
/// of the recency list.
proof fn lemma_touch_all_suffix(s: Seq<ExpertKey>, layer: usize, ids: Seq<usize>)
    requires
        ids.no_duplicates(),
    ensures
        touch_all(s, layer, ids).len() >= ids.len(),
        touch_all(s, layer, ids).subrange(
            touch_all(s, layer, ids).len() - ids.len(),
            touch_all(s, layer, ids).len() as int,
        ) == in_layer(layer, ids),
    decreases ids.len(),
{
    let t = touch_all(s, layer, ids);
    if ids.len() == 0 {
        assert(t.subrange(t.len() as int, t.len() as int) =~= in_layer(layer, ids));
    } else {
        let d = ids.drop_last();
        assert(d.no_duplicates());
        lemma_touch_all_suffix(s, layer, d);
        let u = touch_all(s, layer, d);
        let k = (layer, ids.last());
        let m = u.len() - d.len();
        assert(u.subrange(m, u.len() as int) == in_layer(layer, d));
        assert forall|j: int| m <= j < u.len() implies u[j] != k by {
            assert(u.subrange(m, u.len() as int)[j - m] == in_layer(layer, d)[j - m]);
            assert(d[j - m] == ids[j - m]);
            assert(ids[j - m] != ids[ids.len() - 1]);
        }
        u.index_of_first_ensures(k);
        let r = u.remove_value(k);
        match u.index_of_first(k) {
            Some(i) => {
                assert(i < m);
                assert(r == u.remove(i));
                assert(r.len() == u.len() - 1);
                assert forall|j: int| 0 <= j < d.len() implies r[r.len() - d.len() + j] == in_layer(layer, d)[j] by {
                    assert(r[r.len() - d.len() + j] == u[m + j]);
                    assert(u.subrange(m, u.len() as int)[j] == u[m + j]);
                }
            },
            None => {
                assert(r == u);
                assert forall|j: int| 0 <= j < d.len() implies r[r.len() - d.len() + j] == in_layer(layer, d)[j] by {
                    assert(u.subrange(m, u.len() as int)[j] == u[m + j]);
                }
            },
        }
        assert(t == r.push(k));
        assert(forall|j: int| 0 <= j < d.len() ==> r[r.len() - d.len() + j] == #[trigger] in_layer(layer, d)[j]);
        assert(t.subrange(t.len() - ids.len(), t.len() as int) =~= in_layer(layer, ids)) by {
            assert forall|j: int| 0 <= j < ids.len() implies t.subrange(t.len() - ids.len(), t.len() as int)[j]
                == in_layer(layer, ids)[j] by {
                assert(t.subrange(t.len() - ids.len(), t.len() as int)[j] == t[t.len() - ids.len() + j]);
                if j < d.len() {
                    assert(ids[j] == d[j]);
                    assert(t[t.len() - ids.len() + j] == r[r.len() - d.len() + j]);
                    assert(r[r.len() - d.len() + j] == in_layer(layer, d)[j]);
                } else {
                    assert(j == ids.len() - 1);
                    assert(t[t.len() - 1] == k);
                }
            }
        }
    }
}

/// After a routing step, the recency list holds no more entries than the
/// budget allows, and when the step's experts are distinct and within the
/// budget, they are its most recent entries, in the order routed.
pub proof fn lemma_routing_keeps_recent(s: Seq<ExpertKey>, layer: usize, ids: Seq<usize>, max: usize)
    ensures
        ({
            let t = touch_all(s, layer, ids);
            let kept = t.skip(overflow(t.len() as int, max as int));
            &&& kept.len() <= max
            &&& (ids.no_duplicates() && ids.len() <= max) ==> kept.subrange(
                kept.len() - ids.len(),
                kept.len() as int,
            ) == in_layer(layer, ids)
        }),
{
    let t = touch_all(s, layer, ids);
    let n = overflow(t.len() as int, max as int);
    let kept = t.skip(n);
    if ids.no_duplicates() && ids.len() <= max {
        lemma_touch_all_suffix(s, layer, ids);
        assert(kept.subrange(kept.len() - ids.len(), kept.len() as int) =~= t.subrange(
            t.len() - ids.len(),
            t.len() as int,
        ));
    }
}

/// A release never names a pinned expert or a layer on the GPU.
pub proof fn lemma_release_spares_pinned(t: Seq<ExpertKey>, pinned: Seq<ExpertKey>, gpu_layers: usize, k: ExpertKey)
    requires
        t.filter(releasable(pinned, gpu_layers)).contains(k),
    ensures
        !pinned.contains(k),
        k.0 >= gpu_layers,
{
    broadcast use vstd::seq_lib::group_filter_ensures;
    let f = t.filter(releasable(pinned, gpu_layers));
    let i = choose|i: int| 0 <= i < f.len() && f[i] == k;
    assert(releasable(pinned, gpu_layers)(f[i]));
}

/// The magnitude of a token id or position.
pub open spec fn magnitude(x: i32) -> u64 {
    if x < 0 {
        (-(x as int)) as u64
    } else {
        x as u64
    }
}

/// The mixing seed for the `e`-th expert pick of a chunk starting at layer
/// `start`, for a token and its position (64-bit wrapping arithmetic).
pub open spec fn chunk_seed(token_id: i32, token_pos: i32, start: u64, e: u64) -> u64 {
    magnitude(token_id).wrapping_mul(6364136223846793005u64).wrapping_add(
        magnitude(token_pos).wrapping_mul(1442695040888963407u64),
    ).wrapping_add(start.wrapping_mul(1013904223u64)).wrapping_add(e.wrapping_mul(17u64))
}

/// The expert a seed picks among `total`.
pub open spec fn seed_pick(seed: u64, total: u64) -> u64 {
    ((seed ^ (seed >> 16u64)) % total) as u64
}

/// The distinct experts of the first `n` picks, in order of first pick.
#[verifier::opaque]
pub open spec fn seeded_experts(token_id: i32, token_pos: i32, start: u64, total: u64, n: nat) -> Seq<u64>
    decreases n,
{
    if n == 0 {
        Seq::empty()
    } else {
        let s = seeded_experts(token_id, token_pos, start, total, (n - 1) as nat);
        let x = seed_pick(chunk_seed(token_id, token_pos, start, (n - 1) as u64), total);
        if s.contains(x) {
            s
        } else {
            s.push(x)
        }
    }
}

/// The `k`-th expert counted up from the last pick, wrapping at `total`.
pub open spec fn fill_value(s: Seq<u64>, total: u64, k: int) -> u64 {
    ((s.last() + k) % (total as int)) as u64
}

/// The first `k` experts counted up from the last pick.
pub open spec fn fills(s: Seq<u64>, total: u64, k: int) -> Seq<u64> {
    Seq::new(k as nat, |i: int| fill_value(s, total, i + 1))
}

/// Can the picks `s` be completed to eight by counting up from the last
/// pick (wrapping at `total`), each count meeting no expert already taken?
/// Otherwise completing them never ends.
pub open spec fn fill_completes(s: Seq<u64>, total: u64) -> bool {
    &&& 1 <= s.len() <= 8
    &&& forall|k: int|
        1 <= k <= 8 - s.len() ==> !(s + fills(s, total, k - 1)).contains(#[trigger] fill_value(s, total, k))
}

/// The picks completed to eight by counting up from the last one.
pub open spec fn filled_experts(s: Seq<u64>, total: u64) -> Seq<u64> {
    s + fills(s, total, 8 - s.len())
}

/// Is `v` strictly increasing?
pub open spec fn ascending(v: Seq<u64>) -> bool {
    forall|i: int, j: int| 0 <= i < j < v.len() ==> v[i] < v[j]
}

fn contains_u64(v: &Vec<u64>, x: u64) -> (r: bool)
    ensures
        r == v@.contains(x),
{
    let mut i: usize = 0;
    while i < v.len()
        invariant
            i <= v@.len(),
            forall|j: int| 0 <= j < i ==> v@[j] != x,
        decreases v@.len() - i,
    {
        if v[i] == x {
            assert(v@[i as int] == x);
            return true;
        }
        i = i + 1;
    }
    false
}

fn magnitude_of(x: i32) -> (r: u64)
    ensures
        r == magnitude(x),
{
    if x < 0 {
        (-(x as i64)) as u64
    } else {
        x as u64
    }
}

/// Sorts distinct values into increasing order.
fn sort_ascending(v: Vec<u64>) -> (r: Vec<u64>)
    requires
        v@.no_duplicates(),
    ensures
        ascending(r@),
        r@.to_set() == v@.to_set(),
        r@.len() == v@.len(),
{
    let mut r: Vec<u64> = Vec::new();
    let mut i: usize = 0;
    while i < v.len()
        invariant
            i <= v@.len(),
            v@.no_duplicates(),
            ascending(r@),
            r@.to_set() == v@.take(i as int).to_set(),
            r@.len() == i,
        decreases v@.len() - i,
    {
        let x = v[i];
        let mut pos: usize = 0;
        while pos < r.len() && r[pos] < x
            invariant
                pos <= r@.len(),
                forall|j: int| 0 <= j < pos ==> r@[j] < x,
            decreases r@.len() - pos,
        {
            pos = pos + 1;
        }
        proof {
            assert(!v@.take(i as int).contains(x)) by {
                if v@.take(i as int).contains(x) {
                    let j = choose|j: int| 0 <= j < i && v@.take(i as int)[j] == x;
                    assert(v@[j] == v@[i as int]);
                }
            }
            assert(!r@.contains(x)) by {
                if r@.contains(x) {
                    let j = choose|j: int| 0 <= j < r@.len() && r@[j] == x;
                    assert(r@.to_set().contains(x));
                }
            }
            if pos < r@.len() {
                assert(r@[pos as int] != x);
            }
        }
        let ghost old_r = r@;
        r.insert(pos, x);
        proof {
            assert(r@ == old_r.insert(pos as int, x));
            assert forall|a: int, b: int| 0 <= a < b < r@.len() implies r@[a] < r@[b] by {
                if b < pos {
                    assert(r@[a] == old_r[a] && r@[b] == old_r[b]);
                } else if b == pos {
                    assert(r@[a] == old_r[a]);
                } else if a < pos {
                    assert(r@[b] == old_r[b - 1]);
                    assert(r@[a] == old_r[a]);
                    if pos < old_r.len() {
                        assert(old_r[pos as int] >= x);
                        if a < pos {
                            assert(old_r[a] < x);
                        }
                    }
                } else if a == pos {
                    assert(r@[b] == old_r[b - 1]);
                    assert(old_r[pos as int] >= x);
                    assert(old_r[pos as int] != x);
                } else {
                    assert(r@[a] == old_r[a - 1] && r@[b] == old_r[b - 1]);
                }
            }
            assert(v@.take(i as int + 1) =~= v@.take(i as int).push(x));
            assert(r@.to_set() =~= old_r.to_set().insert(x)) by {
                assert forall|y: u64| r@.contains(y) <==> old_r.contains(y) || y == x by {
                    if r@.contains(y) {
                        let j = choose|j: int| 0 <= j < r@.len() && r@[j] == y;
                        if j < pos {
                            assert(old_r[j] == y);
                        } else if j > pos {
                            assert(old_r[j - 1] == y);
                        }
                    }
                    if old_r.contains(y) {
                        let j = choose|j: int| 0 <= j < old_r.len() && old_r[j] == y;
                        if j < pos {
                            assert(r@[j] == y);
                        } else {
                            assert(r@[j + 1] == y);
                        }
                    }
                    if y == x {
                        assert(r@[pos as int] == x);
                    }
                }
            }
            assert(v@.take(i as int).push(x).to_set() =~= v@.take(i as int).to_set().insert(x)) by {
                v@.take(i as int).lemma_push_to_set_commute(x);
            }
        }
        i = i + 1;
    }
    assert(v@.take(v@.len() as int) =~= v@);
    r
}

/// The experts streamed with a chunk whose first layer is `start`, for a
/// token at a position: eight picks mixed from the token, its position and
/// the layer (a repeated pick kept once), completed to eight by counting up
/// from the last pick, in increasing order. None when completing them would
/// never end.
pub fn chunk_experts(token_id: i32, token_pos: i32, start: u64, expert_count: u64) -> (r: Option<Vec<u64>>)
    ensures
        ({
            let total = if expert_count > 0 { expert_count } else { 1 };
            let s = seeded_experts(token_id, token_pos, start, total, 8);
            match r {
                None => !fill_completes(s, total),
                Some(v) => {
                    &&& fill_completes(s, total)
                    &&& ascending(v@)
                    &&& v@.len() == 8
                    &&& v@.to_set() == filled_experts(s, total).to_set()
                },
            }
        }),
{
    let total: u64 = if expert_count > 0 { expert_count } else { 1 };
    let a = magnitude_of(token_id).wrapping_mul(6364136223846793005u64);
    let b = magnitude_of(token_pos).wrapping_mul(1442695040888963407u64);
    let c = start.wrapping_mul(1013904223u64);
    let mut picks: Vec<u64> = Vec::new();
    let mut e: u64 = 0;
    proof {
        reveal(seeded_experts);
    }
    while e < 8
        invariant
            e <= 8,
            total == (if expert_count > 0 { expert_count } else { 1 }),
            a == magnitude(token_id).wrapping_mul(6364136223846793005u64),
            b == magnitude(token_pos).wrapping_mul(1442695040888963407u64),
            c == start.wrapping_mul(1013904223u64),
            picks@ == seeded_experts(token_id, token_pos, start, total, e as nat),
            picks@.no_duplicates(),
            forall|i: int| 0 <= i < picks@.len() ==> picks@[i] < total,
            picks@.len() <= e,
            e > 0 ==> picks@.len() >= 1,
        decreases 8 - e,
    {
        proof {
            reveal(seeded_experts);
        }
        let seed = a.wrapping_add(b).wrapping_add(c).wrapping_add(e.wrapping_mul(17u64));
        assert(seed == chunk_seed(token_id, token_pos, start, e));
        let x = (seed ^ (seed >> 16u64)) % total;
        if !contains_u64(&picks, x) {
            picks.push(x);
        }
        e = e + 1;
    }
    let ghost s = picks@;
    let m = 8 - picks.len();
    let last = picks[picks.len() - 1];
    assert(last == s.last());
    proof {
        vstd::arithmetic::div_mod::lemma_small_mod(last as nat, total as nat);
    }
    let mut v = picks;
    let mut cur: u64 = last;
    let mut k: usize = 1;
    while k <= m
        invariant
            s == seeded_experts(token_id, token_pos, start, total, 8),
            1 <= s.len() <= 8,
            m == 8 - s.len(),
            last == s.last(),
            last < total,
            total >= 1,
            total == (if expert_count > 0 { expert_count } else { 1 }),
            cur < total,
            cur as int == (last + k - 1) % (total as int),
            1 <= k <= m + 1,
            v@ == s + fills(s, total, k - 1),
            v@.no_duplicates(),
            forall|j: int| 1 <= j < k ==> !(s + fills(s, total, j - 1)).contains(#[trigger] fill_value(s, total, j)),
        decreases m + 1 - k,
    {
        let f = (cur + 1) % total;
        proof {
            vstd::arithmetic::div_mod::lemma_add_mod_noop((last + k - 1) as int, 1, total as int);
            if total > 1 {
                vstd::arithmetic::div_mod::lemma_small_mod(1, total as nat);
                vstd::arithmetic::div_mod::lemma_small_mod(cur as nat, total as nat);
            }
        }
        assert(f == fill_value(s, total, k as int));
        if contains_u64(&v, f) {
            assert((s + fills(s, total, k - 1)).contains(fill_value(s, total, k as int)));
            return None;
        }
        let ghost old_v = v@;
        v.push(f);
        cur = f;
        proof {
            assert(fills(s, total, k as int) =~= fills(s, total, k - 1).push(f));
            assert(v@ =~= s + fills(s, total, k as int));
            assert forall|p: int, q: int| 0 <= p < q < v@.len() implies v@[p] != v@[q] by {
                if q == v@.len() - 1 {
                    assert(old_v[p] == v@[p]);
                    assert(old_v.contains(v@[p]));
                }
            }
        }
        k = k + 1;
    }
    assert(v@ == filled_experts(s, total));
    let sorted = sort_ascending(v);
    Some(sorted)
}

/// Debug text of a list of numbers, as `{:?}` prints it: `[1, 2, 3]`.
pub open spec fn list_text(v: Seq<u64>) -> Seq<char> {
    "["@ + join_parts(v.map_values(|x: u64| decimal_seq(x as nat)), ", "@) + "]"@
}

fn list_string(v: &Vec<u64>) -> (r: String)
    ensures
        r@ == list_text(v@),
{
    let mut r = String::from_str("[");
    let mut i: usize = 0;
    while i < v.len()
        invariant
            i <= v@.len(),
            r@ == "["@ + join_parts(v@.take(i as int).map_values(|x: u64| decimal_seq(x as nat)), ", "@),
        decreases v@.len() - i,
    {
        let ghost before = r@;
        if i > 0 {
            r.append(", ");
        }
        let d = u64_to_decimal(v[i]);
        r.append(d.as_str());
        proof {
            let ps = v@.take(i as int + 1).map_values(|x: u64| decimal_seq(x as nat));
            let qs = v@.take(i as int).map_values(|x: u64| decimal_seq(x as nat));
            assert(ps.drop_last() =~= qs);
            assert(ps.last() == decimal_seq(v@[i as int] as nat));
            if i == 0 {
                assert(join_parts(ps, ", "@) == ps[0]);
            }
            assert(r@ =~= "["@ + join_parts(ps, ", "@));
        }
        i = i + 1;
    }
    r.append("]");
    assert(v@.take(v@.len() as int) =~= v@);
    r
}

/// One chunk of offloaded layers streamed for a token.
#[derive(Debug)]
pub struct OffloadChunk {
    /// Index of the chunk's first layer among the offloaded layers.
    pub layer_offset: usize,
    /// The chunk's layers among the offloaded ones (each looked up with
    /// every expert of the chunk).
    pub targets: Vec<usize>,
    /// The model layers the chunk spans, shown to the user.
    pub start_layer: usize,
    pub end_layer: usize,
    /// The experts streamed, in increasing order.
    pub experts: Vec<u64>,
    pub description: String,
}

/// The chunks the offloaded layers (those from `n_gpu_layers` on) fall
/// into, `batch_capacity` layers each (at least one).
pub open spec fn chunk_count(n_gpu_layers: usize, total_layers: usize, batch_capacity: usize) -> int {
    let cap = if batch_capacity > 0 { batch_capacity as int } else { 1 };
    let off = if total_layers > n_gpu_layers { total_layers - n_gpu_layers } else { 0 };
    (off + cap - 1) / cap
}

/// Do the expert picks of the `c`-th offloaded chunk complete?
pub open spec fn chunk_completes(
    n_gpu_layers: usize,
    batch_capacity: usize,
    expert_count: usize,
    token_id: i32,
    token_pos: i32,
    c: int,
) -> bool {
    let cap = if batch_capacity > 0 { batch_capacity as int } else { 1 };
    let total = if expert_count > 0 { expert_count as u64 } else { 1 };
    fill_completes(seeded_experts(token_id, token_pos, (n_gpu_layers + c * cap) as u64, total, 8), total)
}

/// The experts picked for every offloaded chunk complete.
pub open spec fn chunks_complete(
    n_gpu_layers: usize,
    total_layers: usize,
    batch_capacity: usize,
    expert_count: usize,
    token_id: i32,
    token_pos: i32,
) -> bool {
    forall|c: int|
        0 <= c < chunk_count(n_gpu_layers, total_layers, batch_capacity) ==> #[trigger] chunk_completes(
            n_gpu_layers,
            batch_capacity,
            expert_count,
            token_id,
            token_pos,
            c,
        )
}

/// What the `c`-th chunk holds: its offset among the offloaded layers,
/// its layers (up to `batch_capacity`, within the offloaded ones), its span
/// in model layers (the last clamped to the model's), the experts picked
/// for it in increasing order, and its description
/// `Chunk i/n: Layers [a..b] (k Layers Bulk / t Total) | Experts [..]/e`.
pub open spec fn chunk_holds(
    ch: OffloadChunk,
    c: int,
    n_gpu_layers: usize,
    total_layers: usize,
    batch_capacity: usize,
    expert_count: usize,
    token_id: i32,
    token_pos: i32,
) -> bool {
    let cap = if batch_capacity > 0 { batch_capacity as int } else { 1 };
    let off = total_layers - n_gpu_layers;
    let start = n_gpu_layers + c * cap;
    let end = if start + cap - 1 < total_layers - 1 { start + cap - 1 } else { total_layers - 1 };
    let total = if expert_count > 0 { expert_count as u64 } else { 1 };
    let s = seeded_experts(token_id, token_pos, start as u64, total, 8);
    &&& ch.layer_offset == c * cap
    &&& ch.targets@ == Seq::new(
        (if off - c * cap < cap { off - c * cap } else { cap }) as nat,
        |i: int| (c * cap + i) as usize,
    )
    &&& ch.start_layer == start
    &&& ch.end_layer == end
    &&& ascending(ch.experts@) && ch.experts@.len() == 8
    &&& ch.experts@.to_set() == filled_experts(s, total).to_set()
    &&& ch.description@ == "Chunk "@ + decimal_seq((c + 1) as nat) + "/"@ + decimal_seq(
        chunk_count(n_gpu_layers, total_layers, batch_capacity) as nat,
    ) + ": Layers ["@ + decimal_seq(start as nat) + ".."@ + decimal_seq(end as nat) + "] ("@ + decimal_seq(
        (end - start + 1) as nat,
    ) + " Layers Bulk / "@ + decimal_seq(total_layers as nat) + " Total) | Experts "@ + list_text(ch.experts@)
        + "/"@ + decimal_seq(total as nat)
}

/// The chunks to stream for a token at a position: one per
/// `batch_capacity` offloaded layers (the layers from `n_gpu_layers` on; at
/// least one layer per chunk), as `chunk_holds` describes them. None when
/// picking the experts of some chunk would never end.
pub fn offload_chunks(
    n_gpu_layers: usize,
    total_layers: usize,
    batch_capacity: usize,
    expert_count: usize,
    token_id: i32,
    token_pos: i32,
) -> (r: Option<Vec<OffloadChunk>>)
    ensures
        r is None <==> !chunks_complete(n_gpu_layers, total_layers, batch_capacity, expert_count, token_id, token_pos),
        r matches Some(v) ==> v@.len() == chunk_count(n_gpu_layers, total_layers, batch_capacity) && forall|c: int|
            0 <= c < v@.len() ==> #[trigger] chunk_holds(
                v@[c],
                c,
                n_gpu_layers,
                total_layers,
                batch_capacity,
                expert_count,
                token_id,
                token_pos,
            ),
{
    let cap: usize = if batch_capacity > 0 { batch_capacity } else { 1 };
    let off: usize = if total_layers > n_gpu_layers { total_layers - n_gpu_layers } else { 0 };
    let q = off / cap;
    let extra: usize = if off % cap > 0 { 1 } else { 0 };
    assert(q + extra <= usize::MAX && (q + extra) * cap < off + cap && q + extra == (off + cap - 1) / (cap as int))
        by (nonlinear_arith)
        requires
            cap >= 1,
            q == off / cap,
            extra == (if off % cap > 0 { 1int } else { 0int }),
            off <= usize::MAX,
    {
        if cap == 1 {
            assert(off % cap == 0);
        } else {
            assert(q <= off / 2);
        }
    }
    let n_chunks: usize = q + extra;
    let total: u64 = if expert_count > 0 { expert_count as u64 } else { 1 };
    let mut out: Vec<OffloadChunk> = Vec::new();
    let mut c: usize = 0;
    while c < n_chunks
        invariant
            c <= n_chunks,
            out@.len() == c,
            cap == (if batch_capacity > 0 { batch_capacity as int } else { 1 }),
            off == (if total_layers > n_gpu_layers { total_layers - n_gpu_layers } else { 0 }),
            n_chunks == chunk_count(n_gpu_layers, total_layers, batch_capacity),
            n_chunks * cap < off + cap,
            total == (if expert_count > 0 { expert_count as u64 } else { 1 }),
            forall|j: int|
                0 <= j < c ==> #[trigger] chunk_completes(n_gpu_layers, batch_capacity, expert_count, token_id, token_pos, j),
            forall|j: int|
                0 <= j < c ==> #[trigger] chunk_holds(
                    out@[j],
                    j,
                    n_gpu_layers,
                    total_layers,
                    batch_capacity,
                    expert_count,
                    token_id,
                    token_pos,
                ),
        decreases n_chunks - c,
    {
        assert(c * cap < off && c * cap + cap <= n_chunks * cap) by (nonlinear_arith)
            requires
                c < n_chunks,
                n_chunks * cap < off + cap,
                cap >= 1,
        ;
        let layer_offset = c * cap;
        let start = n_gpu_layers + layer_offset;
        let end = if cap - 1 < (total_layers - 1) - start { start + cap - 1 } else { total_layers - 1 };
        let experts = match chunk_experts(token_id, token_pos, start as u64, total) {
            Some(e) => e,
            None => {
                assert(!chunk_completes(n_gpu_layers, batch_capacity, expert_count, token_id, token_pos, c as int));
                return None;
            },
        };
        let mut targets: Vec<usize> = Vec::new();
        let mut l: usize = 0;
        while l < cap && layer_offset + l < off
            invariant
                l <= cap,
                layer_offset + l <= off,
                targets@ == Seq::new(l as nat, |i: int| (layer_offset + i) as usize),
            decreases cap - l,
        {
            targets.push(layer_offset + l);
            assert(targets@ =~= Seq::new((l + 1) as nat, |i: int| (layer_offset + i) as usize));
            l = l + 1;
        }
        let mut d = String::from_str("Chunk ");
        d.append(u64_to_decimal((c + 1) as u64).as_str());
        d.append("/");
        d.append(u64_to_decimal(n_chunks as u64).as_str());
        d.append(": Layers [");
        d.append(u64_to_decimal(start as u64).as_str());
        d.append("..");
        d.append(u64_to_decimal(end as u64).as_str());
        d.append("] (");
        d.append(u64_to_decimal((end - start + 1) as u64).as_str());
        d.append(" Layers Bulk / ");
        d.append(u64_to_decimal(total_layers as u64).as_str());
        d.append(" Total) | Experts ");
        d.append(list_string(&experts).as_str());
        d.append("/");
        d.append(u64_to_decimal(total).as_str());
        assert(chunk_completes(n_gpu_layers, batch_capacity, expert_count, token_id, token_pos, c as int));
        let ch = OffloadChunk { layer_offset, targets, start_layer: start, end_layer: end, experts, description: d };
        assert(chunk_holds(ch, c as int, n_gpu_layers, total_layers, batch_capacity, expert_count, token_id, token_pos));
        out.push(ch);
        c = c + 1;
    }
    Some(out)
}

} // verus!
