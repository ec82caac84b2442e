use piet_wgsl_shaders::{
    build_imports, preprocess, shared_imports, stage_bindings, stage_count, stage_is_full, stage_source, Action,
    BindType, BuildError, Event, FeatureSet, ImportTable, Phase, PreprocessError, Registrar,
    ShaderId, SourceFault, Variant, PATHTAG_REDUCE_WG, PATH_BBOX_WG, PATH_COARSE_WG,
    PATH_DRAWOBJ_WG,
};

use BindType::{BufReadOnly as RO, Buffer as RW};

/// An engine that records every registration and hands out sequential ids.
struct MockEngine {
    calls: Vec<(String, Vec<BindType>)>,
    reject_at: Option<usize>,
}

impl MockEngine {
    fn new() -> Self {
        MockEngine { calls: Vec::new(), reject_at: None }
    }

    fn add_shader(&mut self, source: String, bindings: Vec<BindType>) -> Option<ShaderId> {
        let index = self.calls.len();
        self.calls.push((source, bindings));
        if self.reject_at == Some(index) {
            None
        } else {
            Some(ShaderId(100 + index))
        }
    }
}

/// Drives a registration to its end; returns the finished registrar or the
/// error, and the names of the sources asked for.
fn drive(
    variant: Variant,
    sources: &dyn Fn(&str) -> Option<String>,
    imports: &ImportTable,
    engine: &mut MockEngine,
) -> (Result<Registrar, BuildError>, Vec<String>) {
    let mut reg = Registrar::new(variant);
    let mut loaded = Vec::new();
    let mut action = reg.step(Event::Begin, imports);
    loop {
        let event = match action {
            Action::LoadSource(name) => {
                loaded.push(name.to_string());
                match sources(name) {
                    Some(text) => Event::SourceLoaded(text),
                    None => Event::SourceMissing,
                }
            }
            Action::AddShader { source, bindings } => match engine.add_shader(source, bindings) {
                Some(id) => Event::Registered(id),
                None => Event::Rejected,
            },
            Action::Finished => return (Ok(reg), loaded),
            Action::Abort(e) => return (Err(e), loaded),
        };
        assert!(reg.accepts(&event));
        action = reg.step(event, imports);
    }
}

fn plain_source(name: &str) -> Option<String> {
    Some(format!("// {}\nfn main() {{}}", name))
}

fn gated_source(name: &str) -> Option<String> {
    Some(format!("{}\n#ifdef full\nFULL\n#else\nBASE\n#endif", name))
}

fn minimal_signatures() -> Vec<Vec<BindType>> {
    vec![
        vec![RO, RO, RW],
        vec![RO, RO, RO, RW],
        vec![RO, RO, RO, RW, RW],
        vec![RO, RW],
        vec![RO, RO, RO, RW],
    ]
}

fn full_signatures() -> Vec<Vec<BindType>> {
    vec![
        vec![RO, RO, RW],
        vec![RO, RO, RO, RW],
        vec![RO, RW],
        vec![RO, RO, RO, RW, RW],
        vec![RO, RO, RW],
        vec![RO, RO, RO, RO, RW, RW],
        vec![RO, RO, RO, RO, RW, RW, RW, RW],
        vec![RO, RO, RO, RW, RW, RW],
        vec![RO, RO, RO, RO, RO, RW, RW, RW],
        vec![RO, RO, RW],
        vec![RO, RO, RO, RO, RO, RO, RO, RO, RW, RW],
        vec![RO, RO, RO, RW, RO],
    ]
}

fn features(names: &[&str]) -> FeatureSet {
    let mut f = FeatureSet::new();
    for n in names {
        f.insert(n);
    }
    f
}

#[test]
fn minimal_build_registers_five_stages_in_order() {
    let mut engine = MockEngine::new();
    let imports = ImportTable::new();
    let (r, _) = drive(Variant::Minimal, &plain_source, &imports, &mut engine);
    let reg = r.expect("minimal build succeeds");
    assert_eq!(engine.calls.len(), 5);
    let sigs: Vec<Vec<BindType>> = engine.calls.iter().map(|c| c.1.clone()).collect();
    assert_eq!(sigs, minimal_signatures());
    assert_eq!(engine.calls[0].0, "// pathtag_reduce\nfn main() {}");
    assert_eq!(reg.phase(), Phase::Done);
}

#[test]
fn full_build_registers_twelve_stages_in_order() {
    let mut engine = MockEngine::new();
    let imports = ImportTable::new();
    let (r, _) = drive(Variant::Full, &plain_source, &imports, &mut engine);
    assert!(r.is_ok());
    assert_eq!(engine.calls.len(), 12);
    let sigs: Vec<Vec<BindType>> = engine.calls.iter().map(|c| c.1.clone()).collect();
    assert_eq!(sigs, full_signatures());
}

#[test]
fn full_feature_only_on_marked_stages() {
    let mut engine = MockEngine::new();
    let imports = ImportTable::new();
    let (r, loaded) = drive(Variant::Full, &gated_source, &imports, &mut engine);
    assert!(r.is_ok());
    let marked = [0usize, 1, 3, 8, 11];
    for (i, call) in engine.calls.iter().enumerate() {
        let expected = if marked.contains(&i) {
            format!("{}\n\nFULL\n\n\n", loaded[i])
        } else {
            format!("{}\n\n\n\nBASE\n", loaded[i])
        };
        assert_eq!(call.0, expected);
    }
    let mut engine = MockEngine::new();
    let (r, _) = drive(Variant::Minimal, &gated_source, &imports, &mut engine);
    assert!(r.is_ok());
    for call in &engine.calls {
        assert!(call.0.contains("BASE"));
        assert!(!call.0.contains("FULL"));
    }
}

#[test]
fn source_selection_differs_between_variants() {
    let imports = ImportTable::new();
    let mut engine = MockEngine::new();
    let (_, minimal) = drive(Variant::Minimal, &plain_source, &imports, &mut engine);
    assert_eq!(minimal, vec!["pathtag_reduce", "pathtag_scan", "path_coarse", "backdrop", "fine"]);
    let mut engine = MockEngine::new();
    let (_, full) = drive(Variant::Full, &plain_source, &imports, &mut engine);
    assert_eq!(
        full,
        vec![
            "pathtag_reduce",
            "pathtag_scan",
            "bbox_clear",
            "pathseg",
            "draw_reduce",
            "draw_leaf",
            "binning",
            "tile_alloc",
            "path_coarse_full",
            "backdrop_dyn",
            "coarse",
            "fine"
        ]
    );
    assert!(!full.contains(&"path_coarse".to_string()));
    assert!(!full.contains(&"backdrop".to_string()));
}

#[test]
fn stage_table_accessors() {
    assert_eq!(stage_count(Variant::Minimal), 5);
    assert_eq!(stage_count(Variant::Full), 12);
    assert_eq!(stage_source(Variant::Full, 8), "path_coarse_full");
    assert_eq!(stage_source(Variant::Minimal, 2), "path_coarse");
    assert!(stage_is_full(Variant::Full, 11));
    assert!(!stage_is_full(Variant::Full, 10));
    assert!(!stage_is_full(Variant::Minimal, 0));
    assert_eq!(stage_bindings(Variant::Full, 10), full_signatures()[10]);
}

#[test]
fn workgroup_sizes() {
    assert_eq!(PATHTAG_REDUCE_WG, 256);
    assert_eq!(PATH_BBOX_WG, 256);
    assert_eq!(PATH_COARSE_WG, 256);
    assert_eq!(PATH_DRAWOBJ_WG, 256);
}

#[test]
fn records_hold_distinct_handles() {
    let imports = ImportTable::new();
    let mut engine = MockEngine::new();
    let (r, _) = drive(Variant::Minimal, &plain_source, &imports, &mut engine);
    let s = r.unwrap().into_shaders();
    let ids = [s.pathtag_reduce, s.pathtag_scan, s.path_coarse, s.backdrop, s.fine];
    assert_eq!(ids, [ShaderId(100), ShaderId(101), ShaderId(102), ShaderId(103), ShaderId(104)]);

    let mut engine = MockEngine::new();
    let (r, _) = drive(Variant::Full, &plain_source, &imports, &mut engine);
    let f = r.unwrap().into_full_shaders();
    let ids = [
        f.pathtag_reduce,
        f.pathtag_scan,
        f.bbox_clear,
        f.pathseg,
        f.draw_reduce,
        f.draw_leaf,
        f.binning,
        f.tile_alloc,
        f.path_coarse,
        f.backdrop,
        f.coarse,
        f.fine,
    ];
    for i in 0..ids.len() {
        assert_eq!(ids[i], ShaderId(100 + i));
        for j in 0..i {
            assert_ne!(ids[i], ids[j]);
        }
    }
}

#[test]
fn missing_fine_source_stops_after_four_stages() {
    let imports = ImportTable::new();
    let mut engine = MockEngine::new();
    let without_fine = |name: &str| if name == "fine" { None } else { plain_source(name) };
    let (r, _) = drive(Variant::Minimal, &without_fine, &imports, &mut engine);
    assert_eq!(
        r.err(),
        Some(BuildError::SourceUnavailable(SourceFault::Missing { stage: 4 }))
    );
    assert_eq!(engine.calls.len(), 4);
}

#[test]
fn missing_early_source_registers_nothing_after_it() {
    let imports = ImportTable::new();
    let mut engine = MockEngine::new();
    let without = |name: &str| if name == "pathseg" { None } else { plain_source(name) };
    let (r, loaded) = drive(Variant::Full, &without, &imports, &mut engine);
    assert_eq!(
        r.err(),
        Some(BuildError::SourceUnavailable(SourceFault::Missing { stage: 3 }))
    );
    assert_eq!(engine.calls.len(), 3);
    assert_eq!(loaded.len(), 4);
}

#[test]
fn engine_rejection_stops_registration() {
    let imports = ImportTable::new();
    let mut engine = MockEngine::new();
    engine.reject_at = Some(2);
    let (r, loaded) = drive(Variant::Full, &plain_source, &imports, &mut engine);
    assert_eq!(r.err(), Some(BuildError::EngineRejected { stage: 2 }));
    assert_eq!(engine.calls.len(), 3);
    assert_eq!(loaded.len(), 3);
}

#[test]
fn failed_registration_accepts_no_events() {
    let imports = ImportTable::new();
    let mut reg = Registrar::new(Variant::Minimal);
    let a = reg.step(Event::Begin, &imports);
    assert!(matches!(a, Action::LoadSource("pathtag_reduce")));
    let a = reg.step(Event::SourceMissing, &imports);
    assert!(matches!(a, Action::Abort(_)));
    assert_eq!(reg.phase(), Phase::Failed);
    assert!(!reg.accepts(&Event::Begin));
    assert!(!reg.accepts(&Event::Registered(ShaderId(1))));
    assert!(reg.handles().is_empty());
}

#[test]
fn broken_stage_source_is_source_unavailable() {
    let imports = ImportTable::new();
    let mut engine = MockEngine::new();
    let broken = |name: &str| {
        if name == "pathtag_scan" {
            Some("#import missing".to_string())
        } else {
            plain_source(name)
        }
    };
    let (r, _) = drive(Variant::Minimal, &broken, &imports, &mut engine);
    assert_eq!(
        r.err(),
        Some(BuildError::SourceUnavailable(SourceFault::Preprocess {
            stage: 1,
            error: PreprocessError::UnknownImport { line: 0 },
        }))
    );
    assert_eq!(engine.calls.len(), 1);
}

#[test]
fn import_line_is_replaced_by_module_text() {
    let mut imports = ImportTable::new();
    imports.insert("utils", "FOO");
    let out = preprocess("a\n// #import utils\nb", &FeatureSet::new(), &imports);
    assert_eq!(out, Ok("a\nFOO\nb".to_string()));
    let out = preprocess("  #import utils  ", &FeatureSet::new(), &imports);
    assert_eq!(out, Ok("FOO".to_string()));
}

#[test]
fn feature_gate_keeps_block_iff_active() {
    let src = "top\n#ifdef msaa\nblock\n#endif\nend";
    let imports = ImportTable::new();
    let on = preprocess(src, &features(&["msaa"]), &imports).unwrap();
    let off = preprocess(src, &FeatureSet::new(), &imports).unwrap();
    assert_eq!(on, "top\n\nblock\n\nend");
    assert_eq!(off, "top\n\n\n\nend");
    let inverse = "#ifndef msaa\nno\n#else\nyes\n#endif";
    assert_eq!(preprocess(inverse, &features(&["msaa"]), &imports).unwrap(), "\n\n\nyes\n");
    assert_eq!(preprocess(inverse, &FeatureSet::new(), &imports).unwrap(), "\nno\n\n\n");
}

#[test]
fn nested_gates_need_every_region_active() {
    let src = "#ifdef a\n#ifdef b\nab\n#endif\n#endif";
    let imports = ImportTable::new();
    assert_eq!(preprocess(src, &features(&["a", "b"]), &imports).unwrap(), "\n\nab\n\n");
    assert_eq!(preprocess(src, &features(&["b"]), &imports).unwrap(), "\n\n\n\n");
}

#[test]
fn unknown_feature_is_ignored() {
    let src = "x\n#ifdef full\ny\n#endif\n// #import m\nz";
    let mut imports = ImportTable::new();
    imports.insert("m", "M");
    let with = preprocess(src, &features(&["full", "unheard_of"]), &imports);
    let without = preprocess(src, &features(&["full"]), &imports);
    assert_eq!(with, without);
    assert_eq!(with, Ok("x\n\ny\n\nM\nz".to_string()));
}

#[test]
fn source_without_directives_is_unchanged() {
    let imports = ImportTable::new();
    let src = "fn main() {\n    // a comment\n}\n";
    assert_eq!(preprocess(src, &FeatureSet::new(), &imports).unwrap(), src);
    assert_eq!(preprocess("", &FeatureSet::new(), &imports).unwrap(), "");
}

#[test]
fn feature_names_are_case_sensitive() {
    let imports = ImportTable::new();
    let src = "#ifdef Full\nX\n#endif";
    assert_eq!(preprocess(src, &features(&["full"]), &imports).unwrap(), "\n\n");
}

#[test]
fn preprocess_errors() {
    let imports = ImportTable::new();
    let none = FeatureSet::new();
    assert_eq!(
        preprocess("a\n#bogus", &none, &imports),
        Err(PreprocessError::MalformedDirective { line: 1 })
    );
    assert_eq!(
        preprocess("#ifdef", &none, &imports),
        Err(PreprocessError::MalformedDirective { line: 0 })
    );
    assert_eq!(
        preprocess("#endif extra", &none, &imports),
        Err(PreprocessError::MalformedDirective { line: 0 })
    );
    assert_eq!(
        preprocess("x\n#import nowhere", &none, &imports),
        Err(PreprocessError::UnknownImport { line: 1 })
    );
    assert_eq!(
        preprocess("#else", &none, &imports),
        Err(PreprocessError::UnbalancedRegion { line: 0 })
    );
    assert_eq!(
        preprocess("#ifdef a\n#else\n#else\n#endif", &none, &imports),
        Err(PreprocessError::UnbalancedRegion { line: 2 })
    );
    assert_eq!(
        preprocess("x\n#endif", &none, &imports),
        Err(PreprocessError::UnbalancedRegion { line: 1 })
    );
    assert_eq!(
        preprocess("#ifdef a\nx", &none, &imports),
        Err(PreprocessError::UnclosedRegion)
    );
}

#[test]
fn shared_modules_are_flattened() {
    let mut raw = ImportTable::new();
    raw.insert("outer", "begin\n#import inner\nend");
    raw.insert("inner", "// #import leaf\nmid");
    raw.insert("leaf", "LEAF");
    let flat = build_imports(&raw).unwrap();
    let name: Vec<char> = "outer".chars().collect();
    assert_eq!(flat.get(&name).unwrap(), "begin\nLEAF\nmid\nend");
    let out = preprocess("#import outer", &FeatureSet::new(), &flat).unwrap();
    assert_eq!(out, "begin\nLEAF\nmid\nend");
}

#[test]
fn import_cycle_is_reported() {
    let mut raw = ImportTable::new();
    raw.insert("a", "#import b");
    raw.insert("b", "x\n#import a");
    assert_eq!(build_imports(&raw).err(), Some(PreprocessError::ImportCycle));
    assert_eq!(
        shared_imports(&raw).err(),
        Some(BuildError::SourceUnavailable(SourceFault::Imports(PreprocessError::ImportCycle)))
    );
    let mut raw = ImportTable::new();
    raw.insert("selfish", "#import selfish");
    assert_eq!(build_imports(&raw).err(), Some(PreprocessError::ImportCycle));
}

#[test]
fn shared_module_errors() {
    let mut raw = ImportTable::new();
    raw.insert("a", "ok\n#import gone");
    assert_eq!(build_imports(&raw).err(), Some(PreprocessError::UnknownImport { line: 1 }));
    let mut raw = ImportTable::new();
    raw.insert("a", "#import");
    assert_eq!(
        build_imports(&raw).err(),
        Some(PreprocessError::MalformedDirective { line: 0 })
    );
}

#[test]
fn import_table_later_text_wins() {
    let mut t = ImportTable::new();
    t.insert("m", "old");
    t.insert("m", "new");
    let name: Vec<char> = "m".chars().collect();
    assert_eq!(t.get(&name).unwrap(), "new");
    let other: Vec<char> = "n".chars().collect();
    assert!(t.get(&other).is_none());
}

#[test]
fn feature_set_membership() {
    let f = features(&["full"]);
    assert!(f.contains(&"full".chars().collect()));
    assert!(!f.contains(&"ful".chars().collect()));
    assert_eq!(piet_wgsl_shaders::text::chars_of("añb"), vec!['a', 'ñ', 'b']);
}
