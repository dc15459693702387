//! The frame protocol: which layer a batch of sections is prepared on, what
//! follows when the glyph atlas is full, and when each cache is trimmed.
//!
//! Within a frame, batches are prepared one after another, each on a layer of
//! its own; the layers are then drawn, and the frame ends. The pipeline
//! decides; the caller owns the layers and the atlas, and performs what the
//! pipeline tells it: it creates the layer that [`Prepared::created`] asks
//! for, submits the batch, reports how that went with a [`Submission`], and
//! follows the [`Verdict`].

use crate::cache::Cache;
use crate::cache::CacheView;
use crate::key::fingerprint_of;
use crate::key::Key;
use glyphon::Buffer;
use glyphon::PrepareError;
use vstd::prelude::*;

verus! {

/// Why a layer could not be prepared, `glyphon::PrepareError`: the glyph
/// atlas is full.
#[verifier::external_type_specification]
pub struct ExPrepareError(PrepareError);

/// How the submission of a prepared batch went.
pub enum Submission<T> {
    /// The batch is on its layer.
    Accepted,
    /// The glyph atlas could not take the glyphs of the batch. The tag says
    /// which kind of content it ran out of room for.
    AtlasFull(T),
}

/// What the caller does after a submission.
pub struct Verdict<T> {
    /// Whether every batch of this frame has to be prepared again.
    pub retry: bool,
    /// The kind of content for which the atlas is to be grown first, if any.
    pub grow: Option<T>,
}

impl<T> Submission<T> {
    /// The verdict on a submission: an accepted batch asks for nothing, a
    /// full atlas for growth and for another round.
    pub open spec fn verdict(self) -> Verdict<T> {
        match self {
            Submission::Accepted => Verdict { retry: false, grow: None },
            Submission::AtlasFull(tag) => Verdict { retry: true, grow: Some(tag) },
        }
    }
}

/// The submission that the result of the renderer of a layer stands for.
/// The renderer does not say which kind of content the atlas ran out of
/// room for, so the submission carries no tag.
pub fn submission_of(result: Result<(), PrepareError>) -> (submission: Submission<()>)
    ensures
        submission == match result {
            Ok(_) => Submission::<()>::Accepted,
            Err(PrepareError::AtlasFull) => Submission::AtlasFull(()),
        },
{
    match result {
        Ok(_) => Submission::Accepted,
        Err(PrepareError::AtlasFull) => Submission::AtlasFull(()),
    }
}

/// Where a batch was prepared.
pub struct Prepared {
    /// The layer of the batch.
    pub layer: usize,
    /// Whether that layer is new, so that the caller has to create it.
    pub created: bool,
    /// The fingerprint of each section, in the order of the sections.
    pub keys: Vec<u64>,
}

/// What a [`Pipeline`] holds.
#[verifier::ext_equal]
pub struct PipelineView {
    /// How many layers exist.
    pub layers: nat,
    /// The layer that the next batch is prepared on.
    pub cursor: nat,
    /// The cache behind measurement and hit testing.
    pub measurement: CacheView,
    /// The cache behind rendering.
    pub render: CacheView,
}

impl PipelineView {
    /// The pipeline of a new surface: no layers, nothing cached.
    pub open spec fn initial() -> PipelineView {
        PipelineView {
            layers: 0,
            cursor: 0,
            measurement: CacheView::empty(),
            render: CacheView::empty(),
        }
    }

    /// The cursor is on a layer or just behind the last one, and both caches
    /// are well formed.
    pub open spec fn wf(self) -> bool {
        &&& self.cursor <= self.layers
        &&& self.measurement.wf()
        &&& self.render.wf()
    }

    /// Whether there is a layer at the cursor.
    pub open spec fn has_layer(self) -> bool {
        self.cursor < self.layers
    }

    /// The pipeline with a layer at the cursor: one more layer if there was
    /// none there.
    pub open spec fn with_layer(self) -> PipelineView {
        PipelineView {
            layers: if self.has_layer() {
                self.layers
            } else {
                self.cursor + 1
            },
            ..self
        }
    }

    /// Whether `after` can be this pipeline after a batch with the
    /// fingerprints `hashes` was prepared: there is a layer at the cursor,
    /// the cursor has not moved, and the render cache has seen a request for
    /// each fingerprint.
    pub open spec fn prepared(self, hashes: Seq<u64>, after: PipelineView) -> bool {
        &&& after.layers == self.with_layer().layers
        &&& after.cursor == self.cursor
        &&& after.measurement == self.measurement
        &&& self.render.allocated(hashes.to_set(), after.render)
    }

    /// The pipeline after a request for `hash` to the measurement cache,
    /// where `fresh` is the paragraph that shaping would give.
    pub open spec fn measure(self, hash: u64, fresh: Buffer) -> PipelineView {
        PipelineView { measurement: self.measurement.allocate(hash, fresh), ..self }
    }

    /// The pipeline after the outcome of a submission: past the layer of an
    /// accepted batch, back at the first layer where the atlas was full.
    pub open spec fn complete<T>(self, submission: Submission<T>) -> PipelineView {
        match submission {
            Submission::Accepted => PipelineView { cursor: self.cursor + 1, ..self },
            Submission::AtlasFull(_) => PipelineView { cursor: 0, ..self },
        }
    }

    /// The pipeline after the end of a frame: the render cache is trimmed
    /// and the cursor is back at the first layer.
    pub open spec fn end_frame(self) -> PipelineView {
        PipelineView { cursor: 0, render: self.render.trim(), ..self }
    }

    /// The pipeline after a trim of the measurement cache.
    pub open spec fn trim_measurement_cache(self) -> PipelineView {
        PipelineView { measurement: self.measurement.trim(), ..self }
    }
}

/// Whether `i` is the first place at which `hash` stands in `hashes`.
pub open spec fn is_first(hashes: Seq<u64>, i: int, hash: u64) -> bool {
    &&& 0 <= i < hashes.len()
    &&& hashes[i] == hash
    &&& forall|j: int| 0 <= j < i ==> hashes[j] != hash
}

/// Whether every entry that `after` has and `before` lacks holds a paragraph
/// that `shape` gave for the first section with that fingerprint.
pub open spec fn shaped_by<F: Fn(usize) -> Buffer>(
    shape: F,
    hashes: Seq<u64>,
    before: CacheView,
    after: CacheView,
) -> bool {
    forall|hash: u64|
        #![trigger after.entries.contains_key(hash)]
        after.entries.contains_key(hash) && !before.entries.contains_key(hash) ==> exists|i: int|
            #[trigger] is_first(hashes, i, hash) && shape.ensures((i as usize,), after.entries[hash])
}

/// The fingerprint of each section, in the order of the sections.
pub open spec fn fingerprints<'a>(sections: Seq<Key<'a>>) -> Seq<u64> {
    Seq::new(sections.len(), |i: int| fingerprint_of(sections[i]@))
}

/// The caches of one rendering surface and the cursor over its layers.
pub struct Pipeline {
    layers: usize,
    prepare_layer: usize,
    measurement_cache: Cache,
    render_cache: Cache,
}

impl View for Pipeline {
    type V = PipelineView;

    closed spec fn view(&self) -> PipelineView {
        PipelineView {
            layers: self.layers as nat,
            cursor: self.prepare_layer as nat,
            measurement: self.measurement_cache@,
            render: self.render_cache@,
        }
    }
}

impl Pipeline {
    /// The pipeline of a new surface.
    pub fn new() -> (pipeline: Pipeline)
        ensures
            pipeline@ == PipelineView::initial(),
            pipeline@.wf(),
    {
        Pipeline {
            layers: 0,
            prepare_layer: 0,
            measurement_cache: Cache::new(),
            render_cache: Cache::new(),
        }
    }

    /// Prepares a batch of sections, given by their fingerprints, on the
    /// layer at the cursor.
    ///
    /// Makes sure that there is a layer at the cursor, and requests each
    /// fingerprint from the render cache. `shape` is called with the index
    /// of a section, to shape it, only where the render cache has no entry
    /// under the fingerprint of that section. The cursor stays where it is
    /// until [`Pipeline::complete`] is told how the submission went.
    pub fn prepare_hashed<F: Fn(usize) -> Buffer>(&mut self, hashes: Vec<u64>, shape: F) -> (prepared:
        Prepared)
        requires
            old(self)@.wf(),
            old(self)@.cursor < usize::MAX,
            forall|i: usize| i < hashes.len() ==> shape.requires((i,)),
        ensures
            final(self)@.wf(),
            final(self)@.has_layer(),
            old(self)@.prepared(hashes@, final(self)@),
            shaped_by(shape, hashes@, old(self)@.render, final(self)@.render),
            prepared.layer == old(self)@.cursor,
            prepared.created == !old(self)@.has_layer(),
            prepared.keys@ == hashes@,
    {
        let layer = self.prepare_layer;
        let created = self.layers <= layer;
        if created {
            self.layers = layer + 1;
        }
        let ghost start = self@;
        proof {
            let none = hashes@.take(0).to_set();
            assert(none =~= Set::empty());
            assert(start.render.recently_used.union(none) =~= start.render.recently_used);
            assert(start.render.entries.dom().union(none) =~= start.render.entries.dom());
        }
        let mut done: usize = 0;
        while done < hashes.len()
            invariant
                done <= hashes.len(),
                forall|i: usize| i < hashes.len() ==> shape.requires((i,)),
                self@.layers == start.layers,
                self@.cursor == start.cursor,
                self@.measurement == start.measurement,
                start.render.wf(),
                self@.render.wf(),
                start.render.allocated(hashes@.take(done as int).to_set(), self@.render),
                shaped_by(shape, hashes@.take(done as int), start.render, self@.render),
            decreases hashes.len() - done,
        {
            let hash = hashes[done];
            let ghost before = self@.render;
            let one = || -> (fresh: Buffer)
                requires
                    shape.requires((done,)),
                ensures
                    shape.ensures((done,), fresh),
                { shape(done) };
            let _ = self.render_cache.allocate_hashed(hash, one);
            proof {
                let seen = hashes@.take(done as int);
                let next = hashes@.take(done + 1);
                assert(next =~= seen.push(hash));
                assert(next.to_set() =~= seen.to_set().insert(hash)) by {
                    assert forall|h: u64| next.to_set().contains(h) implies seen.to_set().insert(
                        hash,
                    ).contains(h) by {
                        let i = choose|i: int| 0 <= i < next.len() && next[i] == h;
                        if i < seen.len() {
                            assert(seen[i] == h);
                        }
                    }
                    assert forall|h: u64| seen.to_set().insert(hash).contains(
                        h,
                    ) implies next.to_set().contains(h) by {
                        if h == hash {
                            assert(next[done as int] == h);
                        } else {
                            let i = choose|i: int| 0 <= i < seen.len() && seen[i] == h;
                            assert(next[i] == h);
                        }
                    }
                }
                let after = self@.render;
                assert(after.recently_used =~= start.render.recently_used.union(next.to_set()));
                assert(after.entries.dom() =~= start.render.entries.dom().union(next.to_set()));
                assert forall|h: u64|
                    after.entries.contains_key(h) && !start.render.entries.contains_key(
                        h,
                    ) implies exists|i: int| #[trigger]
                    is_first(next, i, h) && shape.ensures((i as usize,), after.entries[h]) by {
                    if before.entries.contains_key(h) {
                        let i = choose|i: int| #[trigger]
                            is_first(seen, i, h) && shape.ensures(
                                (i as usize,),
                                before.entries[h],
                            );
                        assert(is_first(next, i, h));
                    } else {
                        assert(h == hash);
                        assert forall|j: int| 0 <= j < done implies next[j] != h by {
                            assert(seen[j] == next[j]);
                            assert(seen.to_set().contains(seen[j]));
                        }
                        assert(is_first(next, done as int, h));
                    }
                }
            }
            done += 1;
        }
        proof {
            assert(hashes@.take(done as int) =~= hashes@);
        }
        Prepared { layer, created, keys: hashes }
    }

    /// Prepares a batch of sections on the layer at the cursor.
    ///
    /// The same as [`Pipeline::prepare_hashed`] on the fingerprints of the
    /// sections, which come back in [`Prepared::keys`].
    pub fn prepare<F: Fn(usize) -> Buffer>(&mut self, sections: &[Key<'_>], shape: F) -> (prepared:
        Prepared)
        requires
            old(self)@.wf(),
            old(self)@.cursor < usize::MAX,
            forall|i: usize| i < sections.len() ==> shape.requires((i,)),
        ensures
            final(self)@.wf(),
            final(self)@.has_layer(),
            old(self)@.prepared(fingerprints(sections@), final(self)@),
            shaped_by(shape, fingerprints(sections@), old(self)@.render, final(self)@.render),
            prepared.layer == old(self)@.cursor,
            prepared.created == !old(self)@.has_layer(),
            prepared.keys@ == fingerprints(sections@),
    {
        let mut hashes: Vec<u64> = Vec::new();
        let mut done: usize = 0;
        while done < sections.len()
            invariant
                done <= sections.len(),
                hashes@ == fingerprints(sections@).take(done as int),
            decreases sections.len() - done,
        {
            let hash = sections[done].fingerprint();
            hashes.push(hash);
            assert(hashes@ =~= fingerprints(sections@).take(done + 1));
            done += 1;
        }
        assert(hashes@ =~= fingerprints(sections@));
        self.prepare_hashed(hashes, shape)
    }

    /// Takes note of how the submission of the batch prepared last went, and
    /// says what the caller has to do.
    ///
    /// After an accepted batch the next one goes to the next layer. After a
    /// full atlas the layers prepared in this frame no longer count: the
    /// cursor is back at the first layer, the atlas is to be grown for the
    /// content that the failure names, and every batch of the frame is to
    /// be prepared again, whether or not the atlas could grow.
    pub fn complete<T>(&mut self, submission: Submission<T>) -> (verdict: Verdict<T>)
        requires
            old(self)@.wf(),
            submission is Accepted ==> old(self)@.has_layer(),
        ensures
            final(self)@ == old(self)@.complete(submission),
            final(self)@.wf(),
            verdict == submission.verdict(),
    {
        match submission {
            Submission::Accepted => {
                self.prepare_layer = self.prepare_layer + 1;
                Verdict { retry: false, grow: None }
            },
            Submission::AtlasFull(tag) => {
                self.prepare_layer = 0;
                Verdict { retry: true, grow: Some(tag) }
            },
        }
    }

    /// Ends the frame: trims the render cache and puts the cursor back on
    /// the first layer. The layers stay, and so does the measurement cache.
    pub fn end_frame(&mut self)
        requires
            old(self)@.wf(),
        ensures
            final(self)@ == old(self)@.end_frame(),
            final(self)@.wf(),
    {
        self.render_cache.trim();
        self.prepare_layer = 0;
    }

    /// Trims the measurement cache, and nothing else.
    pub fn trim_measurement_cache(&mut self)
        requires
            old(self)@.wf(),
        ensures
            final(self)@ == old(self)@.trim_measurement_cache(),
            final(self)@.wf(),
    {
        self.measurement_cache.trim();
    }

    /// The paragraph under `hash` in the measurement cache, shaped by
    /// `shape` if there is none yet. The render cache takes no part.
    pub fn measure_hashed<F: FnOnce() -> Buffer>(&mut self, hash: u64, shape: F) -> (buffer:
        &Buffer)
        requires
            old(self)@.wf(),
            shape.requires(()),
        ensures
            final(self)@ == old(self)@.measure(hash, *buffer),
            final(self)@.wf(),
            *buffer == final(self)@.measurement.entries[hash],
            !old(self)@.measurement.entries.contains_key(hash) ==> shape.ensures((), *buffer),
    {
        self.measurement_cache.allocate_hashed(hash, shape)
    }

    /// The paragraph against which the request `key` is measured or hit
    /// tested: the one in the measurement cache, shaped by `shape` if there
    /// is none yet.
    pub fn measure<F: FnOnce() -> Buffer>(&mut self, key: &Key<'_>, shape: F) -> (buffer: &Buffer)
        requires
            old(self)@.wf(),
            shape.requires(()),
        ensures
            final(self)@ == old(self)@.measure(fingerprint_of(key@), *buffer),
            final(self)@.wf(),
            *buffer == final(self)@.measurement.entries[fingerprint_of(key@)],
            !old(self)@.measurement.entries.contains_key(fingerprint_of(key@)) ==> shape.ensures(
                (),
                *buffer,
            ),
    {
        let hash = key.fingerprint();
        self.measure_hashed(hash, shape)
    }

    /// The layer that the next batch is prepared on.
    pub fn prepare_layer(&self) -> (cursor: usize)
        ensures
            cursor == self@.cursor,
    {
        self.prepare_layer
    }

    /// How many layers exist.
    pub fn layers(&self) -> (layers: usize)
        ensures
            layers == self@.layers,
    {
        self.layers
    }

    /// The cache behind rendering.
    pub fn render_cache(&self) -> (cache: &Cache)
        ensures
            cache@ == self@.render,
    {
        &self.render_cache
    }

    /// The cache behind measurement and hit testing.
    pub fn measurement_cache(&self) -> (cache: &Cache)
        ensures
            cache@ == self@.measurement,
    {
        &self.measurement_cache
    }
}

/// Every step of the protocol keeps a pipeline well formed.
pub proof fn lemma_wf_is_kept<T>(
    before: PipelineView,
    hashes: Seq<u64>,
    prepared: PipelineView,
    submission: Submission<T>,
    hash: u64,
    fresh: Buffer,
)
    requires
        before.wf(),
        before.prepared(hashes, prepared),
    ensures
        PipelineView::initial().wf(),
        prepared.wf(),
        prepared.has_layer(),
        prepared.complete(submission).wf(),
        before.measure(hash, fresh).wf(),
        before.end_frame().wf(),
        before.trim_measurement_cache().wf(),
{
}

/// Layers are created, never dropped.
pub proof fn lemma_layers_only_grow<T>(
    before: PipelineView,
    hashes: Seq<u64>,
    prepared: PipelineView,
    submission: Submission<T>,
    hash: u64,
    fresh: Buffer,
)
    requires
        before.prepared(hashes, prepared),
    ensures
        prepared.layers >= before.layers,
        before.complete(submission).layers == before.layers,
        before.measure(hash, fresh).layers == before.layers,
        before.end_frame().layers == before.layers,
        before.trim_measurement_cache().layers == before.layers,
{
}

/// A full atlas asks for another round and puts the cursor back on the
/// first layer; when the batch prepared next is accepted, no further round
/// is asked for and the cursor is on the second layer.
pub proof fn lemma_retry_then_success<T>(
    before: PipelineView,
    tag: T,
    hashes: Seq<u64>,
    again: PipelineView,
)
    requires
        before.complete(Submission::AtlasFull(tag)).prepared(hashes, again),
    ensures
        Submission::AtlasFull(tag).verdict().retry,
        Submission::AtlasFull(tag).verdict().grow == Some(tag),
        before.complete(Submission::AtlasFull(tag)).cursor == 0,
        !Submission::<T>::Accepted.verdict().retry,
        again.complete(Submission::<T>::Accepted).cursor == 1,
{
}

/// Each accepted batch has a layer of its own: the batch prepared after an
/// accepted one goes to the next layer.
pub proof fn lemma_accepted_batches_take_successive_layers<T>(
    before: PipelineView,
    hashes: Seq<u64>,
    prepared: PipelineView,
)
    requires
        before.prepared(hashes, prepared),
    ensures
        prepared.complete(Submission::<T>::Accepted).cursor == before.cursor + 1,
{
}

/// The two caches live apart. The end of a frame trims the render cache and
/// leaves the measurement cache as it is; a trim of the measurement cache
/// leaves the render cache as it is; preparing a batch and its outcome leave
/// the measurement cache as it is, and a measurement the render cache.
pub proof fn lemma_caches_live_apart<T>(
    before: PipelineView,
    hashes: Seq<u64>,
    prepared: PipelineView,
    submission: Submission<T>,
    hash: u64,
    fresh: Buffer,
)
    requires
        before.prepared(hashes, prepared),
    ensures
        before.end_frame().render == before.render.trim(),
        before.end_frame().measurement == before.measurement,
        before.trim_measurement_cache().measurement == before.measurement.trim(),
        before.trim_measurement_cache().render == before.render,
        prepared.measurement == before.measurement,
        before.complete(submission).measurement == before.measurement,
        before.complete(submission).render == before.render,
        before.measure(hash, fresh).render == before.render,
{
}

} // verus!
