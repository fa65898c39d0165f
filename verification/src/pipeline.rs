//! The pipeline specializer: a cache of compiled pipelines keyed by what a
//! pipeline is compiled from.

use vstd::prelude::*;
use crate::shader::names_of;

verus! {

/// What a pipeline is compiled from. Two draws with equal keys share one
/// pipeline.
#[derive(Debug)]
pub struct PipelineKey {
    /// Stable tag of the material type.
    pub type_tag: u128,
    /// Tag of the vertex layout of the mesh.
    pub vertex_layout: u64,
    /// Entry point that the material asks for; `None` asks for the default.
    pub entry_point: Option<String>,
    /// Revision of the shader source that the module was compiled from.
    pub revision: u64,
}

/// Mathematical model of a [`PipelineKey`].
pub struct PipelineKeySpec {
    pub type_tag: u128,
    pub vertex_layout: u64,
    pub entry_point: Option<Seq<char>>,
    pub revision: u64,
}

impl View for PipelineKey {
    type V = PipelineKeySpec;

    open spec fn view(&self) -> PipelineKeySpec {
        PipelineKeySpec {
            type_tag: self.type_tag,
            vertex_layout: self.vertex_layout,
            entry_point: match self.entry_point {
                Some(name) => Some(name@),
                None => None,
            },
            revision: self.revision,
        }
    }
}

impl Clone for PipelineKey {
    fn clone(&self) -> (out: PipelineKey)
        ensures
            out@ == self@,
    {
        PipelineKey {
            type_tag: self.type_tag,
            vertex_layout: self.vertex_layout,
            entry_point: match &self.entry_point {
                Some(name) => Some(name.clone()),
                None => None,
            },
            revision: self.revision,
        }
    }
}

impl PipelineKey {
    /// True when the two keys are equal.
    pub fn same(&self, other: &PipelineKey) -> (r: bool)
        ensures
            r == (self@ == other@),
    {
        if self.type_tag != other.type_tag || self.vertex_layout != other.vertex_layout
            || self.revision != other.revision {
            return false;
        }
        match (&self.entry_point, &other.entry_point) {
            (Some(a), Some(b)) => *a == *b,
            (None, None) => true,
            _ => false,
        }
    }
}

/// A compiled pipeline, as the cache records it.
#[derive(Debug)]
pub struct Pipeline {
    /// Identity of the compiled object: no two pipelines of a cache share it.
    pub id: u64,
    pub key: PipelineKey,
    /// The entry point that the pipeline was compiled with.
    pub entry_point: String,
}

/// Mathematical model of a [`Pipeline`].
pub struct PipelineSpec {
    pub id: u64,
    pub key: PipelineKeySpec,
    pub entry_point: Seq<char>,
}

impl View for Pipeline {
    type V = PipelineSpec;

    open spec fn view(&self) -> PipelineSpec {
        PipelineSpec { id: self.id, key: self.key@, entry_point: self.entry_point@ }
    }
}

/// The entry point that a key resolves to: the one it asks for, or
/// `fragment`.
pub open spec fn resolved_entry(entry_point: Option<Seq<char>>) -> Seq<char> {
    match entry_point {
        Some(name) => name,
        None => "fragment"@,
    }
}

/// Why no pipeline could be built.
#[derive(Clone, Copy, Debug, PartialEq, Eq, Structural)]
pub enum PipelineError {
    /// The shader module declares no entry point of the resolved name.
    UnknownEntryPoint,
    /// The cache has handed out every identity it has.
    IdsExhausted,
}

/// Mathematical model of a [`PipelineCache`].
pub struct PipelineCacheSpec {
    /// The cached pipelines by key.
    pub pipelines: Map<PipelineKeySpec, PipelineSpec>,
    /// The identity that the next pipeline gets.
    pub next_id: u64,
}

/// A key is stale when it names another revision of the shader than
/// `revision`.
pub open spec fn stale(key: PipelineKeySpec, revision: u64) -> bool {
    key.revision != revision
}

/// What a cache keeps when the pipelines that were built from another
/// revision of the shader than `revision` are dropped.
pub open spec fn without_stale(cache: PipelineCacheSpec, revision: u64) -> PipelineCacheSpec {
    PipelineCacheSpec {
        pipelines: Map::new(
            |key: PipelineKeySpec|
                cache.pipelines.dom().contains(key) && !stale(key, revision),
            |key: PipelineKeySpec| cache.pipelines[key],
        ),
        next_id: cache.next_id,
    }
}

/// The pipeline that a miss on `key` builds in `cache`.
pub open spec fn built(cache: PipelineCacheSpec, key: PipelineKeySpec) -> PipelineSpec {
    PipelineSpec { id: cache.next_id, key, entry_point: resolved_entry(key.entry_point) }
}

/// The result of `get_or_build` on `cache`.
pub open spec fn outcome_of(
    cache: PipelineCacheSpec,
    key: PipelineKeySpec,
    declared: Seq<Seq<char>>,
) -> Result<u64, PipelineError> {
    if cache.pipelines.dom().contains(key) {
        Ok(cache.pipelines[key].id)
    } else if !declared.contains(resolved_entry(key.entry_point)) {
        Err(PipelineError::UnknownEntryPoint)
    } else if cache.next_id == u64::MAX {
        Err(PipelineError::IdsExhausted)
    } else {
        Ok(cache.next_id)
    }
}

/// The cache after `get_or_build`.
pub open spec fn cache_after(
    cache: PipelineCacheSpec,
    key: PipelineKeySpec,
    declared: Seq<Seq<char>>,
) -> PipelineCacheSpec {
    if !cache.pipelines.dom().contains(key) && outcome_of(cache, key, declared) is Ok {
        PipelineCacheSpec {
            pipelines: cache.pipelines.insert(key, built(cache, key)),
            next_id: (cache.next_id + 1) as u64,
        }
    } else {
        cache
    }
}

/// What holds of every cache: a pipeline is filed under its own key, was
/// compiled with the entry point that the key resolves to, and has an
/// identity below `next_id` that no pipeline of another key shares.
pub open spec fn cache_wf(cache: PipelineCacheSpec) -> bool {
    &&& forall|key: PipelineKeySpec| #[trigger]
        cache.pipelines.dom().contains(key) ==> {
            &&& cache.pipelines[key].key == key
            &&& cache.pipelines[key].entry_point == resolved_entry(key.entry_point)
            &&& cache.pipelines[key].id < cache.next_id
        }
    &&& forall|a: PipelineKeySpec, b: PipelineKeySpec|
        #![trigger cache.pipelines[a], cache.pipelines[b]]
        cache.pipelines.dom().contains(a) && cache.pipelines.dom().contains(b) && a != b
            ==> cache.pipelines[a].id != cache.pipelines[b].id
}

/// Building keeps the cache well formed.
pub proof fn law_build_keeps_cache_wf(
    cache: PipelineCacheSpec,
    key: PipelineKeySpec,
    declared: Seq<Seq<char>>,
)
    requires
        cache_wf(cache),
    ensures
        cache_wf(cache_after(cache, key, declared)),
{
}

/// Dropping stale pipelines keeps the cache well formed.
pub proof fn law_invalidation_keeps_cache_wf(cache: PipelineCacheSpec, revision: u64)
    requires
        cache_wf(cache),
    ensures
        cache_wf(without_stale(cache, revision)),
{
}

/// Once a key has a pipeline, asking for it again returns that same
/// pipeline and leaves the cache as it is, however often it is asked and
/// whatever the shader module declares by then.
pub proof fn law_same_key_same_pipeline(
    cache: PipelineCacheSpec,
    key: PipelineKeySpec,
    declared: Seq<Seq<char>>,
    later: Seq<Seq<char>>,
)
    requires
        outcome_of(cache, key, declared) is Ok,
    ensures
        ({
            let after = cache_after(cache, key, declared);
            &&& outcome_of(after, key, later) == outcome_of(cache, key, declared)
            &&& cache_after(after, key, later) == after
        }),
{
}

/// Pipelines of different keys are different objects.
pub proof fn law_other_key_other_pipeline(
    cache: PipelineCacheSpec,
    a: PipelineKeySpec,
    b: PipelineKeySpec,
    declared: Seq<Seq<char>>,
)
    requires
        cache_wf(cache),
        a != b,
        outcome_of(cache, a, declared) is Ok,
        outcome_of(cache_after(cache, a, declared), b, declared) is Ok,
    ensures
        outcome_of(cache, a, declared) != outcome_of(cache_after(cache, a, declared), b, declared),
{
    let after = cache_after(cache, a, declared);
    law_build_keeps_cache_wf(cache, a, declared);
    assert(after.pipelines.dom().contains(a));
    if after.pipelines.dom().contains(b) {
        assert(after.pipelines[a].id != after.pipelines[b].id);
    } else {
        assert(after.pipelines[a].id < after.next_id);
    }
}

/// True when `declared` holds `name`.
pub fn declares(declared: &Vec<String>, name: &String) -> (r: bool)
    ensures
        r == names_of(declared@).contains(name@),
{
    let mut k: usize = 0;
    while k < declared.len()
        invariant
            k <= declared.len(),
            forall|j: int| 0 <= j < k ==> (#[trigger] names_of(declared@)[j]) != name@,
        decreases declared.len() - k,
    {
        if declared[k] == *name {
            assert(names_of(declared@)[k as int] == name@);
            return true;
        }
        k += 1;
    }
    false
}

/// The cache of compiled pipelines.
#[derive(Debug)]
pub struct PipelineCache {
    entries: Vec<Pipeline>,
    next_id: u64,
}

/// No two entries have the same key.
pub open spec fn keys_distinct(entries: Seq<Pipeline>) -> bool {
    forall|i: int, j: int|
        0 <= i < j < entries.len() ==> (#[trigger] entries[i]).key@ != (#[trigger] entries[j]).key@
}

/// True when some entry is filed under `key`.
pub open spec fn has_key(entries: Seq<Pipeline>, key: PipelineKeySpec) -> bool {
    exists|i: int| 0 <= i < entries.len() && (#[trigger] entries[i]).key@ == key
}

/// Position of the entry that is filed under `key`.
pub open spec fn position_of(entries: Seq<Pipeline>, key: PipelineKeySpec) -> int {
    choose|i: int| 0 <= i < entries.len() && (#[trigger] entries[i]).key@ == key
}

/// The mapping that a list of entries with distinct keys stands for.
pub open spec fn mapping_of(entries: Seq<Pipeline>) -> Map<PipelineKeySpec, PipelineSpec> {
    Map::new(
        |key: PipelineKeySpec| has_key(entries, key),
        |key: PipelineKeySpec| entries[position_of(entries, key)]@,
    )
}

proof fn lemma_position(entries: Seq<Pipeline>, i: int)
    requires
        keys_distinct(entries),
        0 <= i < entries.len(),
    ensures
        has_key(entries, entries[i].key@),
        position_of(entries, entries[i].key@) == i,
        mapping_of(entries)[entries[i].key@] == entries[i]@,
{
    let key = entries[i].key@;
    assert(has_key(entries, key));
    let j = position_of(entries, key);
    assert(0 <= j < entries.len() && entries[j].key@ == key);
    if j < i {
        assert(entries[j].key@ != entries[i].key@);
    } else if i < j {
        assert(entries[i].key@ != entries[j].key@);
    }
}

proof fn lemma_mapping_push(entries: Seq<Pipeline>, p: Pipeline)
    requires
        keys_distinct(entries),
        !has_key(entries, p.key@),
    ensures
        keys_distinct(entries.push(p)),
        mapping_of(entries.push(p)) == mapping_of(entries).insert(p.key@, p@),
{
    let grown = entries.push(p);
    assert forall|i: int, j: int| 0 <= i < j < grown.len() implies (#[trigger] grown[i]).key@ != (
    #[trigger] grown[j]).key@ by {
        if j == entries.len() {
            assert(entries[i].key@ != p.key@);
        } else {
            assert(entries[i].key@ != entries[j].key@);
        }
    }
    assert forall|key: PipelineKeySpec| has_key(grown, key) <==> (key == p.key@ || has_key(
        entries,
        key,
    )) by {
        if has_key(grown, key) {
            let i = position_of(grown, key);
            if i < entries.len() {
                assert(entries[i].key@ == key);
            }
        }
        if key == p.key@ {
            assert(grown[entries.len() as int].key@ == key);
        }
        if has_key(entries, key) {
            let i = position_of(entries, key);
            assert(grown[i].key@ == key);
        }
    }
    assert forall|key: PipelineKeySpec| has_key(grown, key) implies #[trigger] mapping_of(
        grown,
    )[key] == mapping_of(entries).insert(p.key@, p@)[key] by {
        let i = position_of(grown, key);
        lemma_position(grown, i);
        if i < entries.len() {
            lemma_position(entries, i);
        }
    }
    assert(mapping_of(grown) =~= mapping_of(entries).insert(p.key@, p@));
}

proof fn lemma_mapping_len(entries: Seq<Pipeline>)
    requires
        keys_distinct(entries),
    ensures
        mapping_of(entries).dom().finite(),
        mapping_of(entries).dom().len() == entries.len(),
    decreases entries.len(),
{
    if entries.len() == 0 {
        assert(mapping_of(entries).dom() =~= Set::<PipelineKeySpec>::empty());
    } else {
        let front = entries.drop_last();
        let last = entries.last();
        assert(entries =~= front.push(last));
        assert forall|i: int, j: int| 0 <= i < j < front.len() implies (#[trigger] front[i]).key@
            != (#[trigger] front[j]).key@ by {
            assert(entries[i].key@ != entries[j].key@);
        }
        if has_key(front, last.key@) {
            let i = position_of(front, last.key@);
            assert(entries[i].key@ != entries[entries.len() - 1].key@);
        }
        lemma_mapping_len(front);
        lemma_mapping_push(front, last);
        assert(mapping_of(entries).dom() =~= mapping_of(front).dom().insert(last.key@));
    }
}

impl View for PipelineCache {
    type V = PipelineCacheSpec;

    closed spec fn view(&self) -> PipelineCacheSpec {
        PipelineCacheSpec { pipelines: mapping_of(self.entries@), next_id: self.next_id }
    }
}

impl PipelineCache {
    /// The cache is well formed, and so is what it stands for.
    pub closed spec fn wf(&self) -> bool {
        keys_distinct(self.entries@) && cache_wf(self@)
    }

    /// A well-formed cache stands for a well-formed mapping.
    pub proof fn lemma_wf(&self)
        requires
            self.wf(),
        ensures
            cache_wf(self@),
    {
    }

    /// A well-formed cache holds finitely many pipelines.
    pub proof fn lemma_finite(&self)
        requires
            self.wf(),
        ensures
            self@.pipelines.dom().finite(),
    {
        lemma_mapping_len(self.entries@);
    }

    /// The empty cache.
    pub fn new() -> (cache: PipelineCache)
        ensures
            cache.wf(),
            cache@ == (PipelineCacheSpec { pipelines: Map::empty(), next_id: 0 }),
    {
        let cache = PipelineCache { entries: Vec::new(), next_id: 0 };
        assert(cache@.pipelines =~= Map::empty());
        cache
    }

    /// Position of the entry filed under `key`.
    fn find(&self, key: &PipelineKey) -> (r: Option<usize>)
        requires
            self.wf(),
        ensures
            match r {
                Some(i) => i < self.entries.len() && self.entries[i as int].key@ == key@,
                None => !has_key(self.entries@, key@),
            },
    {
        let mut k: usize = 0;
        while k < self.entries.len()
            invariant
                k <= self.entries.len(),
                forall|j: int| 0 <= j < k ==> (#[trigger] self.entries[j]).key@ != key@,
            decreases self.entries.len() - k,
        {
            if self.entries[k].key.same(key) {
                return Some(k);
            }
            k += 1;
        }
        None
    }

    /// The pipeline of `key`, if the cache holds one.
    pub fn get(&self, key: &PipelineKey) -> (r: Option<&Pipeline>)
        requires
            self.wf(),
        ensures
            match r {
                Some(p) => self@.pipelines.dom().contains(key@) && p@ == self@.pipelines[key@],
                None => !self@.pipelines.dom().contains(key@),
            },
    {
        match self.find(key) {
            Some(i) => {
                proof {
                    lemma_position(self.entries@, i as int);
                }
                Some(&self.entries[i])
            },
            None => None,
        }
    }

    /// The pipeline of `key`: the cached one where there is one, with no
    /// work done; else a new one, compiled with the entry point that the key
    /// resolves to, provided that the shader module declares it.
    pub fn get_or_build(&mut self, key: PipelineKey, declared: &Vec<String>) -> (r: Result<
        u64,
        PipelineError,
    >)
        requires
            old(self).wf(),
        ensures
            final(self).wf(),
            r == outcome_of(old(self)@, key@, names_of(declared@)),
            final(self)@ == cache_after(old(self)@, key@, names_of(declared@)),
    {
        match self.find(&key) {
            Some(i) => {
                proof {
                    lemma_position(self.entries@, i as int);
                }
                return Ok(self.entries[i].id);
            },
            None => {},
        }
        let entry_point = match &key.entry_point {
            Some(name) => name.clone(),
            None => "fragment".to_owned(),
        };
        assert(entry_point@ == resolved_entry(key@.entry_point));
        if !declares(declared, &entry_point) {
            return Err(PipelineError::UnknownEntryPoint);
        }
        if self.next_id == u64::MAX {
            return Err(PipelineError::IdsExhausted);
        }
        let id = self.next_id;
        let pipeline = Pipeline { id, key, entry_point };
        proof {
            lemma_mapping_push(self.entries@, pipeline);
        }
        self.entries.push(pipeline);
        self.next_id = id + 1;
        Ok(id)
    }

    /// Number of pipelines in the cache.
    pub fn len(&self) -> (n: usize)
        requires
            self.wf(),
        ensures
            self@.pipelines.dom().finite(),
            n == self@.pipelines.dom().len(),
    {
        proof {
            lemma_mapping_len(self.entries@);
        }
        self.entries.len()
    }

    /// The pipeline of identity `id`, if the cache holds it.
    pub fn pipeline(&self, id: u64) -> (r: Option<&Pipeline>)
        requires
            self.wf(),
        ensures
            match r {
                Some(p) => {
                    &&& p.id == id
                    &&& self@.pipelines.dom().contains(p.key@)
                    &&& self@.pipelines[p.key@] == p@
                },
                None => forall|key: PipelineKeySpec| #[trigger]
                    self@.pipelines.dom().contains(key) ==> self@.pipelines[key].id != id,
            },
    {
        let mut k: usize = 0;
        while k < self.entries.len()
            invariant
                self.wf(),
                k <= self.entries.len(),
                forall|j: int| 0 <= j < k ==> (#[trigger] self.entries[j]).id != id,
            decreases self.entries.len() - k,
        {
            if self.entries[k].id == id {
                proof {
                    lemma_position(self.entries@, k as int);
                }
                return Some(&self.entries[k]);
            }
            k += 1;
        }
        proof {
            assert forall|key: PipelineKeySpec| #[trigger]
                self@.pipelines.dom().contains(key) implies self@.pipelines[key].id != id by {
                let i = position_of(self.entries@, key);
                lemma_position(self.entries@, i);
            }
        }
        None
    }

    /// Drops the pipelines that were built from another revision of the
    /// shader than `revision`, and returns how many went.
    pub fn invalidate(&mut self, revision: u64) -> (evicted: usize)
        requires
            old(self).wf(),
        ensures
            final(self).wf(),
            final(self)@ == without_stale(old(self)@, revision),
            old(self)@.pipelines.dom().finite(),
            final(self)@.pipelines.dom().finite(),
            evicted == old(self)@.pipelines.dom().len() - final(self)@.pipelines.dom().len(),
    {
        let ghost before = self.entries@;
        let ghost mut origin: Seq<int> = Seq::empty();
        assert(before.len() == self.entries.len());
        let mut kept: Vec<Pipeline> = Vec::new();
        let mut evicted: usize = 0;
        proof {
            lemma_mapping_len(before);
        }
        while self.entries.len() > 0
            invariant
                old(self).wf(),
                before == old(self).entries@,
                before.len() <= usize::MAX,
                self.next_id == old(self).next_id,
                keys_distinct(before),
                self.entries@ == before.subrange(0, self.entries.len() as int),
                self.entries.len() <= before.len(),
                origin.len() == kept.len(),
                evicted + kept.len() + self.entries.len() == before.len(),
                forall|a: int|
                    0 <= a < kept.len() ==> {
                        &&& self.entries.len() <= #[trigger] origin[a] < before.len()
                        &&& kept[a] == before[origin[a]]
                        &&& !stale(kept[a].key@, revision)
                    },
                forall|b: int|
                    self.entries.len() <= b < before.len() && !stale((#[trigger] before[b]).key@, revision) ==> exists|a: int| 0 <= a < kept.len() && #[trigger] origin[a] == b,
                forall|a: int, c: int|
                    0 <= a < c < kept.len() ==> #[trigger] origin[a] != #[trigger] origin[c],
            decreases self.entries.len(),
        {
            let ghost n = self.entries.len() - 1;
            let p = self.entries.pop().unwrap();
            assert(p == before[n]);
            assert(self.entries@ =~= before.subrange(0, n));
            if p.key.revision != revision {
                evicted += 1;
            } else {
                kept.push(p);
                proof {
                    let ghost earlier = origin;
                    origin = origin.push(n);
                    assert forall|b: int|
                        n <= b < before.len() && !stale((#[trigger] before[b]).key@, revision) implies exists|a: int| 0 <= a < kept.len() && #[trigger] origin[a]
                        == b by {
                        if b == n {
                            assert(origin[kept.len() - 1] == n);
                        } else {
                            let a = choose|a: int| 0 <= a < earlier.len() && #[trigger] earlier[a] == b;
                            assert(origin[a] == b);
                        }
                    }
                }
            }
        }
        proof {
            assert forall|a: int, c: int| 0 <= a < c < kept.len() implies (#[trigger] kept[a]).key@
                != (#[trigger] kept[c]).key@ by {
                let x = origin[a];
                let y = origin[c];
                if x < y {
                    assert(before[x].key@ != before[y].key@);
                } else {
                    assert(before[y].key@ != before[x].key@);
                }
            }
            let target = without_stale(old(self)@, revision).pipelines;
            assert forall|key: PipelineKeySpec| has_key(kept@, key) <==> target.dom().contains(
                key,
            ) by {
                if has_key(kept@, key) {
                    let a = position_of(kept@, key);
                    assert(before[origin[a]].key@ == key);
                }
                if target.dom().contains(key) {
                    let b = position_of(before, key);
                    let a = choose|a: int| 0 <= a < kept.len() && #[trigger] origin[a] == b;
                    assert(kept[a].key@ == key);
                }
            }
            assert forall|key: PipelineKeySpec| has_key(kept@, key) implies #[trigger] mapping_of(
                kept@,
            )[key] == target[key] by {
                let a = position_of(kept@, key);
                lemma_position(kept@, a);
                lemma_position(before, origin[a]);
            }
            assert(mapping_of(kept@) =~= target);
            lemma_mapping_len(kept@);
            law_invalidation_keeps_cache_wf(old(self)@, revision);
        }
        self.entries = kept;
        evicted
    }
}

} // verus!
