//! The decisions of registering a pipeline with an engine, as a state
//! machine. The caller performs each action (reading a source, registering a
//! shader) and feeds back what came of it as an event; the machine decides
//! what happens next and collects the engine's handles.

use vstd::prelude::*;
use crate::pipeline::{BindType, ShaderId, StageRow, Variant, stages, stage_features, stage_count, stage_source, stage_is_full, stage_bindings};
use crate::preprocess::{PreprocessError, preprocess, preprocessed};
use crate::tables::{FeatureSet, ImportTable};
use crate::imports::{all_resolve, build_imports, flattened, resolved};

verus! {

/// Why a source could not be turned into a shader.
#[derive(Debug, Clone, Copy, PartialEq, Eq)]
pub enum SourceFault {
    /// The source provider has no text for the file of the stage at this index.
    Missing { stage: usize },
    /// The source of the stage at this index does not preprocess.
    Preprocess { stage: usize, error: PreprocessError },
    /// The shared modules could not be flattened.
    Imports(PreprocessError),
}

/// Why a pipeline could not be built.
#[derive(Debug, Clone, Copy, PartialEq, Eq)]
pub enum BuildError {
    /// A source is missing or broken.
    SourceUnavailable(SourceFault),
    /// The engine refused the stage at this index.
    EngineRejected { stage: usize },
}

/// Where a registration stands.
#[derive(Debug, Clone, Copy, PartialEq, Eq, Structural)]
pub enum Phase {
    /// Waiting for the source of the current stage.
    Loading,
    /// Waiting for the engine to register the current stage.
    Registering,
    /// Every stage is registered.
    Done,
    /// Registration stopped on an error.
    Failed,
}

/// What the caller reports back.
pub enum Event {
    /// Asks for the first action.
    Begin,
    /// The text of the source that was asked for.
    SourceLoaded(String),
    /// The source that was asked for cannot be had.
    SourceMissing,
    /// The engine registered the shader under this handle.
    Registered(ShaderId),
    /// The engine refused the shader.
    Rejected,
}

/// What the caller is to do next.
pub enum Action {
    /// Read the source file of this name (without its `.wgsl` extension).
    LoadSource(&'static str),
    /// Register this preprocessed source with this binding signature.
    AddShader { source: String, bindings: Vec<BindType> },
    /// Every stage is registered.
    Finished,
    /// Stop: the build failed.
    Abort(BuildError),
}

impl Action {
    /// Whether this asks for the source file `name`.
    pub open spec fn loads(self, name: Seq<char>) -> bool {
        match self {
            Action::LoadSource(n) => n@ == name,
            _ => false,
        }
    }

    /// Whether this registers `source` with the binding signature `bindings`.
    pub open spec fn adds(self, source: Seq<char>, bindings: Seq<BindType>) -> bool {
        match self {
            Action::AddShader { source: s, bindings: b } => s@ == source && b@ == bindings,
            _ => false,
        }
    }

    /// Whether this stops the build with `e`.
    pub open spec fn aborts(self, e: BuildError) -> bool {
        match self {
            Action::Abort(b) => b == e,
            _ => false,
        }
    }
}

/// A registration in progress.
pub struct Registrar {
    variant: Variant,
    handles: Vec<ShaderId>,
    phase: Phase,
    issued: Ghost<Seq<StageRow>>,
}

/// The abstract state of a registration: the handles collected so far, one
/// per registered stage, in stage order.
pub struct RegistrarState {
    pub variant: Variant,
    pub handles: Seq<ShaderId>,
    pub phase: Phase,
    /// The stages handed to the engine so far, in the order they were handed.
    pub issued: Seq<StageRow>,
}

impl View for Registrar {
    type V = RegistrarState;

    closed spec fn view(&self) -> RegistrarState {
        RegistrarState {
            variant: self.variant,
            handles: self.handles@,
            phase: self.phase,
            issued: self.issued@,
        }
    }
}

impl RegistrarState {
    /// The index of the current stage, counted by the handles collected.
    pub open spec fn stage(self) -> int {
        self.handles.len() as int
    }

    /// The state is consistent: a stage is pending while the phase waits on
    /// one, and all stages have handles once done; the stages handed to the
    /// engine are the first ones of the table, in table order, one past the
    /// handles while the engine's answer is awaited (or was a refusal).
    pub open spec fn wf(self) -> bool {
        &&& self.issued == stages(self.variant).take(self.issued.len() as int)
        &&& match self.phase {
            Phase::Loading => self.stage() < stages(self.variant).len() && self.issued.len()
                == self.stage(),
            Phase::Registering => self.stage() < stages(self.variant).len() && self.issued.len()
                == self.stage() + 1,
            Phase::Done => self.stage() == stages(self.variant).len() && self.issued.len()
                == self.stage(),
            Phase::Failed => self.stage() < stages(self.variant).len() && (self.issued.len()
                == self.stage() || self.issued.len() == self.stage() + 1),
        }
    }

    /// Whether `e` is an event that the state waits for.
    pub open spec fn accepts(self, e: &Event) -> bool {
        match self.phase {
            Phase::Loading => e is Begin || e is SourceLoaded || e is SourceMissing,
            Phase::Registering => e is Registered || e is Rejected,
            Phase::Done | Phase::Failed => false,
        }
    }
}

impl Registrar {
    /// A registration of `variant` that has done nothing yet.
    pub fn new(variant: Variant) -> (r: Registrar)
        ensures
            r@.variant == variant,
            r@.handles == Seq::<ShaderId>::empty(),
            r@.phase == Phase::Loading,
            r@.issued == Seq::<StageRow>::empty(),
            r@.wf(),
    {
        let r = Registrar {
            variant,
            handles: Vec::new(),
            phase: Phase::Loading,
            issued: Ghost(Seq::empty()),
        };
        assert(stages(variant).take(0) =~= Seq::<StageRow>::empty());
        r
    }

    /// Where the registration stands.
    pub fn phase(&self) -> (r: Phase)
        ensures
            r == self@.phase,
    {
        self.phase
    }

    /// Whether the registration waits for `e`.
    pub fn accepts(&self, e: &Event) -> (r: bool)
        ensures
            r == self@.accepts(e),
    {
        match self.phase {
            Phase::Loading => match e {
                Event::Begin | Event::SourceLoaded(_) | Event::SourceMissing => true,
                _ => false,
            },
            Phase::Registering => match e {
                Event::Registered(_) | Event::Rejected => true,
                _ => false,
            },
            Phase::Done | Phase::Failed => false,
        }
    }

    /// The handles collected so far, in stage order.
    pub fn handles(&self) -> (r: &Vec<ShaderId>)
        ensures
            r@ == self@.handles,
    {
        &self.handles
    }

    /// Takes one event and decides the next action.
    ///
    /// Stage `k` (the number of handles so far) first asks for its source. A
    /// loaded source is preprocessed with the stage's features and `imports`
    /// and handed to the engine with the stage's binding signature. A handle
    /// from the engine is kept and moves on to the next stage's source, or
    /// finishes after the last stage. A missing source, a source that does
    /// not preprocess, or a refusal by the engine stops the registration for
    /// good: a failed registration takes no further events.
    pub fn step(&mut self, event: Event, imports: &ImportTable) -> (r: Action)
        requires
            old(self)@.wf(),
            old(self)@.accepts(&event),
        ensures
            final(self)@.wf(),
            final(self)@.variant == old(self)@.variant,
            final(self)@.issued == if event is SourceLoaded && r is AddShader {
                old(self)@.issued.push(stages(old(self)@.variant)[old(self)@.stage()])
            } else {
                old(self)@.issued
            },
            ({
                let v = old(self)@.variant;
                let k = old(self)@.stage();
                let st = stages(v)[k];
                let h = old(self)@.handles;
                match event {
                    Event::Begin => final(self)@ == old(self)@ && r.loads(st.source),
                    Event::SourceLoaded(text) => match preprocessed(
                        text@,
                        stage_features(st),
                        imports@,
                    ) {
                        Ok(t) => final(self)@.handles == h && final(self)@.phase == Phase::Registering
                            && r.adds(t, st.bindings),
                        Err(e) => final(self)@.handles == h && final(self)@.phase == Phase::Failed
                            && r.aborts(
                            BuildError::SourceUnavailable(
                                SourceFault::Preprocess { stage: k as usize, error: e },
                            ),
                        ),
                    },
                    Event::SourceMissing => final(self)@.handles == h && final(self)@.phase
                        == Phase::Failed && r.aborts(
                        BuildError::SourceUnavailable(SourceFault::Missing { stage: k as usize }),
                    ),
                    Event::Registered(id) => final(self)@.handles == h.push(id) && if k + 1 == stages(
                        v,
                    ).len() {
                        final(self)@.phase == Phase::Done && r is Finished
                    } else {
                        final(self)@.phase == Phase::Loading && r.loads(stages(v)[k + 1].source)
                    },
                    Event::Rejected => final(self)@.handles == h && final(self)@.phase == Phase::Failed
                        && r.aborts(BuildError::EngineRejected { stage: k as usize }),
                }
            }),
    {
        let v = self.variant;
        let k = self.handles.len();
        match event {
            Event::Begin => Action::LoadSource(stage_source(v, k)),
            Event::SourceLoaded(text) => {
                let mut features = FeatureSet::new();
                if stage_is_full(v, k) {
                    features.insert("full");
                }
                assert(features@ =~= stage_features(stages(v)[k as int]));
                match preprocess(text.as_str(), &features, imports) {
                    Ok(t) => {
                        self.phase = Phase::Registering;
                        self.issued = Ghost(self.issued@.push(stages(v)[k as int]));
                        assert(self.issued@ =~= stages(v).take(k + 1));
                        Action::AddShader { source: t, bindings: stage_bindings(v, k) }
                    },
                    Err(e) => {
                        self.phase = Phase::Failed;
                        Action::Abort(
                            BuildError::SourceUnavailable(
                                SourceFault::Preprocess { stage: k, error: e },
                            ),
                        )
                    },
                }
            },
            Event::SourceMissing => {
                self.phase = Phase::Failed;
                Action::Abort(BuildError::SourceUnavailable(SourceFault::Missing { stage: k }))
            },
            Event::Registered(id) => {
                self.handles.push(id);
                if k + 1 == stage_count(v) {
                    self.phase = Phase::Done;
                    Action::Finished
                } else {
                    self.phase = Phase::Loading;
                    Action::LoadSource(stage_source(v, k + 1))
                }
            },
            Event::Rejected => {
                self.phase = Phase::Failed;
                Action::Abort(BuildError::EngineRejected { stage: k })
            },
        }
    }
}

/// The handles of the minimal pipeline.
#[derive(Debug, Clone, Copy)]
pub struct Shaders {
    pub pathtag_reduce: ShaderId,
    pub pathtag_scan: ShaderId,
    pub path_coarse: ShaderId,
    pub backdrop: ShaderId,
    pub fine: ShaderId,
}

impl Shaders {
    /// The fields in stage order.
    pub open spec fn ids(self) -> Seq<ShaderId> {
        seq![self.pathtag_reduce, self.pathtag_scan, self.path_coarse, self.backdrop, self.fine]
    }
}

/// The handles of the full pipeline.
#[derive(Debug, Clone, Copy)]
pub struct FullShaders {
    pub pathtag_reduce: ShaderId,
    pub pathtag_scan: ShaderId,
    pub bbox_clear: ShaderId,
    pub pathseg: ShaderId,
    pub draw_reduce: ShaderId,
    pub draw_leaf: ShaderId,
    pub binning: ShaderId,
    pub tile_alloc: ShaderId,
    pub path_coarse: ShaderId,
    pub backdrop: ShaderId,
    pub coarse: ShaderId,
    pub fine: ShaderId,
}

impl FullShaders {
    /// The fields in stage order.
    pub open spec fn ids(self) -> Seq<ShaderId> {
        seq![
            self.pathtag_reduce,
            self.pathtag_scan,
            self.bbox_clear,
            self.pathseg,
            self.draw_reduce,
            self.draw_leaf,
            self.binning,
            self.tile_alloc,
            self.path_coarse,
            self.backdrop,
            self.coarse,
            self.fine,
        ]
    }
}

impl Registrar {
    /// The record of a finished minimal registration: each field is the
    /// handle the engine gave for that stage.
    pub fn into_shaders(self) -> (r: Shaders)
        requires
            self@.wf(),
            self@.phase == Phase::Done,
            self@.variant == Variant::Minimal,
        ensures
            r.ids() == self@.handles,
    {
        let h = &self.handles;
        let r = Shaders {
            pathtag_reduce: h[0],
            pathtag_scan: h[1],
            path_coarse: h[2],
            backdrop: h[3],
            fine: h[4],
        };
        assert(r.ids() =~= self@.handles);
        r
    }

    /// The record of a finished full registration: each field is the handle
    /// the engine gave for that stage.
    pub fn into_full_shaders(self) -> (r: FullShaders)
        requires
            self@.wf(),
            self@.phase == Phase::Done,
            self@.variant == Variant::Full,
        ensures
            r.ids() == self@.handles,
    {
        let h = &self.handles;
        let r = FullShaders {
            pathtag_reduce: h[0],
            pathtag_scan: h[1],
            bbox_clear: h[2],
            pathseg: h[3],
            draw_reduce: h[4],
            draw_leaf: h[5],
            binning: h[6],
            tile_alloc: h[7],
            path_coarse: h[8],
            backdrop: h[9],
            coarse: h[10],
            fine: h[11],
        };
        assert(r.ids() =~= self@.handles);
        r
    }
}

/// The shaders handed to the engine are the table's stages in table order:
/// at any point a prefix of the table, and once the registration is done
/// exactly the table, each stage once.
pub proof fn lemma_issued_follow_table(s: RegistrarState)
    requires
        s.wf(),
    ensures
        s.issued == stages(s.variant).take(s.issued.len() as int),
        s.issued.len() <= s.stage() + 1,
        s.phase == Phase::Done ==> s.issued == stages(s.variant),
{
    if s.phase == Phase::Done {
        assert(stages(s.variant).take(s.issued.len() as int) =~= stages(s.variant));
    }
}

/// A stopped registration stays stopped: it accepts no event, so no stage
/// after the one that failed is ever loaded or handed to the engine, and
/// its handles stop at the failed stage.
pub proof fn lemma_failure_is_final(s: RegistrarState, e: &Event)
    requires
        s.wf(),
        s.phase == Phase::Failed,
    ensures
        !s.accepts(e),
        s.stage() < stages(s.variant).len(),
        s.issued == stages(s.variant).take(s.issued.len() as int),
        s.issued.len() <= s.stage() + 1,
{
}

/// The minimal record holds a distinct handle in each field whenever the
/// engine handed out distinct handles.
pub proof fn lemma_distinct_shaders(handles: Seq<ShaderId>, r: Shaders)
    requires
        handles.no_duplicates(),
        r.ids() == handles,
    ensures
        forall|i: int, j: int| 0 <= i < j < 5 ==> r.ids()[i] != r.ids()[j],
{
}

/// The full record holds a distinct handle in each field whenever the
/// engine handed out distinct handles.
pub proof fn lemma_distinct_full_shaders(handles: Seq<ShaderId>, r: FullShaders)
    requires
        handles.no_duplicates(),
        r.ids() == handles,
    ensures
        forall|i: int, j: int| 0 <= i < j < 12 ==> r.ids()[i] != r.ids()[j],
{
}

/// Flattens the shared modules for a build: any error in them makes the
/// build's sources unavailable.
pub fn shared_imports(raw: &ImportTable) -> (r: Result<ImportTable, BuildError>)
    ensures
        r is Ok <==> all_resolve(raw@, raw.size()),
        r is Ok ==> r->Ok_0@ == flattened(raw@, raw.size()),
        r is Err ==> exists|k: Seq<char>, e: PreprocessError|
            raw@.contains_key(k) && resolved(raw@, raw@[k], raw.size()) == Err::<
                Seq<char>,
                PreprocessError,
            >(e) && r->Err_0 == BuildError::SourceUnavailable(SourceFault::Imports(e)),
{
    match build_imports(raw) {
        Ok(t) => Ok(t),
        Err(e) => Err(BuildError::SourceUnavailable(SourceFault::Imports(e))),
    }
}

} // verus!
