//! Shader registration for a compute-based 2D path renderer: a line-oriented
//! preprocessor for shader sources, the flattening of shared modules, the two
//! pipeline tables and the decisions that drive registration with an engine.

pub mod text;
pub mod directive;
pub mod tables;
pub mod preprocess;
pub mod imports;
pub mod pipeline;
pub mod registrar;

pub use tables::{FeatureSet, ImportTable};
pub use preprocess::{preprocess, PreprocessError};
pub use imports::build_imports;
pub use pipeline::{
    stage_bindings, stage_count, stage_is_full, stage_source, BindType, ShaderId, Variant,
    PATHTAG_REDUCE_WG, PATH_BBOX_WG, PATH_COARSE_WG, PATH_DRAWOBJ_WG,
};
pub use registrar::{
    shared_imports, Action, BuildError, Event, FullShaders, Phase, Registrar, Shaders, SourceFault,
};
