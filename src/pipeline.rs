//! The two pipeline variants: which stages they register, in which order,
//! from which source file, with which features and binding signature.

use vstd::prelude::*;

verus! {

/// Workgroup sizes that the dispatcher uses for these shaders.
pub const PATHTAG_REDUCE_WG: u32 = 256;
pub const PATH_BBOX_WG: u32 = 256;
pub const PATH_COARSE_WG: u32 = 256;
pub const PATH_DRAWOBJ_WG: u32 = 256;

/// The kind of one binding of a shader.
#[derive(Debug, Clone, Copy, PartialEq, Eq, Structural)]
pub enum BindType {
    /// A read-only storage buffer.
    BufReadOnly,
    /// A read-write storage buffer.
    Buffer,
}

/// An engine's opaque handle to a registered shader.
#[derive(Debug, Clone, Copy, PartialEq, Eq, Structural)]
pub struct ShaderId(pub usize);

/// The two pipelines.
#[derive(Debug, Clone, Copy, PartialEq, Eq, Structural)]
pub enum Variant {
    Minimal,
    Full,
}

/// One row of a pipeline table.
pub struct StageRow {
    /// The source file's name without its `.wgsl` extension.
    pub source: Seq<char>,
    /// Whether the stage is preprocessed with the `full` feature.
    pub full: bool,
    /// The binding signature, in binding index order.
    pub bindings: Seq<BindType>,
}

pub open spec fn row(source: Seq<char>, full: bool, bindings: Seq<BindType>) -> StageRow {
    StageRow { source, full, bindings }
}

/// The stages of each variant, in registration order.
pub open spec fn stages(v: Variant) -> Seq<StageRow> {
    let ro = BindType::BufReadOnly;
    let rw = BindType::Buffer;
    match v {
        Variant::Minimal => seq![
            row("pathtag_reduce"@, false, seq![ro, ro, rw]),
            row("pathtag_scan"@, false, seq![ro, ro, ro, rw]),
            row("path_coarse"@, false, seq![ro, ro, ro, rw, rw]),
            row("backdrop"@, false, seq![ro, rw]),
            row("fine"@, false, seq![ro, ro, ro, rw]),
        ],
        Variant::Full => seq![
            row("pathtag_reduce"@, true, seq![ro, ro, rw]),
            row("pathtag_scan"@, true, seq![ro, ro, ro, rw]),
            row("bbox_clear"@, false, seq![ro, rw]),
            row("pathseg"@, true, seq![ro, ro, ro, rw, rw]),
            row("draw_reduce"@, false, seq![ro, ro, rw]),
            row("draw_leaf"@, false, seq![ro, ro, ro, ro, rw, rw]),
            row("binning"@, false, seq![ro, ro, ro, ro, rw, rw, rw, rw]),
            row("tile_alloc"@, false, seq![ro, ro, ro, rw, rw, rw]),
            row("path_coarse_full"@, true, seq![ro, ro, ro, ro, ro, rw, rw, rw]),
            row("backdrop_dyn"@, false, seq![ro, ro, rw]),
            row("coarse"@, false, seq![ro, ro, ro, ro, ro, ro, ro, ro, rw, rw]),
            row("fine"@, true, seq![ro, ro, ro, rw, ro]),
        ],
    }
}

/// The feature set a stage is preprocessed with.
pub open spec fn stage_features(r: StageRow) -> Set<Seq<char>> {
    if r.full {
        set!["full"@]
    } else {
        Set::empty()
    }
}

/// The number of stages of `v`.
pub fn stage_count(v: Variant) -> (r: usize)
    ensures
        r == stages(v).len(),
{
    match v {
        Variant::Minimal => 5,
        Variant::Full => 12,
    }
}

/// The source file of stage `k` of `v`, without its extension.
pub fn stage_source(v: Variant, k: usize) -> (r: &'static str)
    requires
        k < stages(v).len(),
    ensures
        r@ == stages(v)[k as int].source,
{
    match v {
        Variant::Minimal => match k {
            0 => "pathtag_reduce",
            1 => "pathtag_scan",
            2 => "path_coarse",
            3 => "backdrop",
            _ => "fine",
        },
        Variant::Full => match k {
            0 => "pathtag_reduce",
            1 => "pathtag_scan",
            2 => "bbox_clear",
            3 => "pathseg",
            4 => "draw_reduce",
            5 => "draw_leaf",
            6 => "binning",
            7 => "tile_alloc",
            8 => "path_coarse_full",
            9 => "backdrop_dyn",
            10 => "coarse",
            _ => "fine",
        },
    }
}

/// Whether stage `k` of `v` is preprocessed with the `full` feature.
pub fn stage_is_full(v: Variant, k: usize) -> (r: bool)
    requires
        k < stages(v).len(),
    ensures
        r == stages(v)[k as int].full,
{
    match v {
        Variant::Minimal => false,
        Variant::Full => k == 0 || k == 1 || k == 3 || k == 8 || k == 11,
    }
}

/// The binding signature of stage `k` of `v`.
pub fn stage_bindings(v: Variant, k: usize) -> (r: Vec<BindType>)
    requires
        k < stages(v).len(),
    ensures
        r@ == stages(v)[k as int].bindings,
{
    let ro = BindType::BufReadOnly;
    let rw = BindType::Buffer;
    let r = match v {
        Variant::Minimal => match k {
            0 => vec![ro, ro, rw],
            1 => vec![ro, ro, ro, rw],
            2 => vec![ro, ro, ro, rw, rw],
            3 => vec![ro, rw],
            _ => vec![ro, ro, ro, rw],
        },
        Variant::Full => match k {
            0 => vec![ro, ro, rw],
            1 => vec![ro, ro, ro, rw],
            2 => vec![ro, rw],
            3 => vec![ro, ro, ro, rw, rw],
            4 => vec![ro, ro, rw],
            5 => vec![ro, ro, ro, ro, rw, rw],
            6 => vec![ro, ro, ro, ro, rw, rw, rw, rw],
            7 => vec![ro, ro, ro, rw, rw, rw],
            8 => vec![ro, ro, ro, ro, ro, rw, rw, rw],
            9 => vec![ro, ro, rw],
            10 => vec![ro, ro, ro, ro, ro, ro, ro, ro, rw, rw],
            _ => vec![ro, ro, ro, rw, ro],
        },
    };
    assert(r@ =~= stages(v)[k as int].bindings);
    r
}

/// The two variants differ in where the path-coarse and backdrop stages
/// come from: the minimal pipeline uses `path_coarse` and `backdrop`, the full
/// one `path_coarse_full` and `backdrop_dyn`; the remaining stages that both
/// share use the same file.
pub proof fn lemma_source_selection()
    ensures
        stages(Variant::Minimal)[2].source == "path_coarse"@,
        stages(Variant::Minimal)[3].source == "backdrop"@,
        stages(Variant::Full)[8].source == "path_coarse_full"@,
        stages(Variant::Full)[9].source == "backdrop_dyn"@,
        stages(Variant::Minimal)[0].source == stages(Variant::Full)[0].source,
        stages(Variant::Minimal)[1].source == stages(Variant::Full)[1].source,
        stages(Variant::Minimal)[4].source == stages(Variant::Full)[11].source,
{
}

/// Only the full pipeline activates `full`, and there exactly on the
/// pathtag, pathseg, path-coarse and fine stages.
pub proof fn lemma_full_feature_stages()
    ensures
        forall|k: int| 0 <= k < stages(Variant::Minimal).len() ==> stage_features(
            #[trigger] stages(Variant::Minimal)[k],
        ) == Set::<Seq<char>>::empty(),
        forall|k: int|
            0 <= k < stages(Variant::Full).len() ==> (stages(Variant::Full)[k].full <==> (k == 0
                || k == 1 || k == 3 || k == 8 || k == 11)),
{
}

} // verus!
