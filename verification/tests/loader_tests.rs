use filehandler::codec::FileFormat;
use filehandler::hierarchy::{HierarchyIndex, ScopeNode, VarNode};
use filehandler::loader::{plan_load, LoadError, LoadPlan, LoadState, TraceLoader};
use filehandler::time_table::TimeTable;

fn hierarchy() -> HierarchyIndex {
    let top = ScopeNode {
        name: "top".to_string(),
        tpe: "Module".to_string(),
        scopes: vec![],
        vars: vec![0],
    };
    let p = VarNode {
        name: "P".to_string(),
        signal_id: 0,
        var_type: "Parameter".to_string(),
        encoding: "BitVector(4)".to_string(),
        width: 4,
        msb: 3,
        lsb: 0,
        enum_name: String::new(),
        enum_values: Vec::new(),
    };
    HierarchyIndex::new(vec![top], vec![p], vec![0], vec![0], None).unwrap()
}

#[test]
fn load_plan_follows_the_mode() {
    assert_eq!(plan_load(1000, true, 64), LoadPlan::Static { size: 1000 });
    assert_eq!(plan_load(1000, false, 64), LoadPlan::Streamed { buffer_size: 64 });
}

#[test]
fn header_then_body_then_unload() {
    let mut loader: TraceLoader<&str> = TraceLoader::new();
    assert_eq!(loader.load_state(), LoadState::Unloaded);
    let a = loader.begin_load(Some((FileFormat::Vcd, hierarchy(), "rest of the file"))).unwrap();
    assert_eq!(a.metadata.scope_count, 1);
    assert_eq!(a.metadata.var_count, 1);
    assert_eq!(a.metadata.timescale_factor, 1);
    assert_eq!(a.metadata.timescale_unit, "s");
    assert_eq!(a.scopes.len(), 1);
    assert_eq!(a.vars.len(), 1);
    assert_eq!(a.vars[0].param_value, None);
    assert_eq!(loader.load_state(), LoadState::HeaderLoaded);
    assert_eq!(loader.complete_body(), Ok("rest of the file"));
    let report = loader.install_time_table(TimeTable::new(vec![0, 10]).unwrap()).unwrap();
    assert_eq!(report.min_span, 10);
    assert_eq!(loader.load_state(), LoadState::BodyLoaded);
    loader.load_parameters(&vec![(0, Some("1010".to_string()))]);
    assert_eq!(loader.loaded_params(), &vec![(0u32, "1010".to_string())]);
    let page = loader.get_children(0, 0);
    assert_eq!(page.vars[0].param_value, Some("1010".to_string()));
    loader.unload();
    assert_eq!(loader.load_state(), LoadState::Unloaded);
    assert!(loader.loaded_hierarchy().is_none());
    assert!(loader.loaded_time_table().is_none());
    assert!(loader.loaded_params().is_empty());
    assert_eq!(loader.complete_body(), Err(LoadError::NoBodyContinuation));
}

#[test]
fn body_cannot_be_read_twice_or_without_a_header() {
    let mut loader: TraceLoader<u8> = TraceLoader::new();
    assert_eq!(loader.complete_body(), Err(LoadError::NoBodyContinuation));
    assert_eq!(loader.load_state(), LoadState::Unloaded);
    loader.begin_load(Some((FileFormat::Fst, hierarchy(), 7))).unwrap();
    assert_eq!(loader.complete_body(), Ok(7));
    assert_eq!(loader.complete_body(), Err(LoadError::NoBodyContinuation));
    assert_eq!(loader.load_state(), LoadState::HeaderLoaded);
}

#[test]
fn failed_header_leaves_the_session_as_it_is() {
    let mut loader: TraceLoader<u8> = TraceLoader::new();
    assert_eq!(loader.begin_load(None).err(), Some(LoadError::HeaderFailed));
    assert_eq!(loader.load_state(), LoadState::Unloaded);
    loader.begin_load(Some((FileFormat::Fst, hierarchy(), 7))).unwrap();
    assert_eq!(loader.begin_load(None).err(), Some(LoadError::HeaderFailed));
    assert_eq!(loader.load_state(), LoadState::HeaderLoaded);
    assert_eq!(loader.complete_body(), Ok(7));
}

#[test]
fn queries_without_a_hierarchy_are_empty() {
    let loader: TraceLoader<u8> = TraceLoader::new();
    let page = loader.get_children(0, 0);
    assert_eq!(page.total_returned, 0);
    assert_eq!(page.remaining_items, 0);
}

#[test]
fn remote_parts_are_installed_directly() {
    let mut loader: TraceLoader<u8> = TraceLoader::new();
    let a = loader.install_hierarchy(FileFormat::Ghw, hierarchy());
    assert_eq!(a.scopes[0].name, "top");
    assert_eq!(loader.load_state(), LoadState::HeaderLoaded);
    assert_eq!(loader.complete_body(), Err(LoadError::NoBodyContinuation));
    assert!(loader.install_time_table(TimeTable::new(vec![]).unwrap()).is_none());
    assert_eq!(loader.load_state(), LoadState::BodyLoaded);
}
