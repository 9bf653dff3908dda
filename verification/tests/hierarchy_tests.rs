use filehandler::hierarchy::{
    get_parameter_value, get_scope_data, get_var_data, getparametervalues, page_json,
    parameter_table, scope_json, send_enum_data, time_unit_name, var_json, ChildrenPage,
    EnumReply,
    HierarchyIndex, ScopeNode, Timescale, TimescaleUnit, VarNode,
};

fn scope(name: &str, scopes: Vec<u32>, vars: Vec<u32>) -> ScopeNode {
    ScopeNode { name: name.to_string(), tpe: "Module".to_string(), scopes, vars }
}

fn var(name: &str, signal_id: u32, var_type: &str) -> VarNode {
    VarNode {
        name: name.to_string(),
        signal_id,
        var_type: var_type.to_string(),
        encoding: "BitVector(8)".to_string(),
        width: 8,
        msb: 7,
        lsb: 0,
        enum_name: String::new(),
        enum_values: Vec::new(),
    }
}

fn small() -> HierarchyIndex {
    let scopes = vec![scope("top", vec![1, 2], vec![0, 1]), scope("u0", vec![], vec![2]), scope("u1", vec![], vec![])];
    let mut state = var("state", 5, "Wire");
    state.enum_name = "state_t".to_string();
    state.enum_values = vec![
        ("IDLE".to_string(), "00".to_string()),
        ("RUN".to_string(), "01".to_string()),
    ];
    state.msb = -1;
    state.lsb = -1;
    let vars = vec![var("clk", 0, "Wire"), var("WIDTH", 1, "Parameter"), state];
    HierarchyIndex::new(
        scopes,
        vars,
        vec![0],
        vec![],
        Some(Timescale { factor: 10, unit: TimescaleUnit::PicoSeconds }),
    )
    .unwrap()
}

fn wide(children: u32, name_len: usize) -> (HierarchyIndex, u32, u32) {
    // one parent with `children` sub-scopes and as many variables
    let mut scopes = vec![scope("top", (1..=children).collect(), (0..children).collect())];
    let mut vars = Vec::new();
    for i in 0..children {
        scopes.push(scope(&format!("{}{}", "s".repeat(name_len), i), vec![], vec![]));
        vars.push(var(&format!("{}{}", "v".repeat(name_len), i), i, "Wire"));
    }
    (HierarchyIndex::new(scopes, vars, vec![0], vec![], None).unwrap(), children, children)
}

#[test]
fn hierarchy_with_a_missing_child_is_refused() {
    assert!(HierarchyIndex::new(vec![scope("top", vec![1], vec![])], vec![], vec![0], vec![], None).is_none());
    assert!(HierarchyIndex::new(vec![scope("top", vec![], vec![0])], vec![], vec![0], vec![], None).is_none());
    assert!(HierarchyIndex::new(vec![scope("top", vec![], vec![])], vec![], vec![1], vec![], None).is_none());
    assert!(HierarchyIndex::new(vec![], vec![], vec![], vec![0], None).is_none());
    assert!(HierarchyIndex::new(vec![], vec![], vec![], vec![], None).is_some());
}

#[test]
fn scope_descriptor_and_its_text() {
    let h = small();
    let d = get_scope_data(&h, 1).unwrap();
    assert_eq!(d.name, "u0");
    assert_eq!(d.id, 1);
    assert_eq!(d.tpe, "Module");
    assert_eq!(
        String::from_utf8(scope_json(&d)).unwrap(),
        "{\"name\": \"u0\",\"id\": 1,\"type\": \"Module\"}"
    );
    assert!(get_scope_data(&h, 3).is_none());
}

#[test]
fn variable_descriptor_and_its_text() {
    let h = small();
    let params = vec![(1u32, "32".to_string())];
    let d = get_var_data(&h, &params, 0).unwrap();
    assert_eq!(d.param_value, None);
    assert_eq!(
        String::from_utf8(var_json(&d)).unwrap(),
        "{\"name\": \"clk\",\"netlistId\": 0,\"signalId\": 0,\"type\": \"Wire\",\"encoding\": \"BitVector(8)\", \"width\": 8, \"msb\": 7, \"lsb\": 0, \"enumType\": \"\", \"paramValue\": \"\"}"
    );
    let d = get_var_data(&h, &params, 1).unwrap();
    assert_eq!(d.param_value, Some("32".to_string()));
    let d = get_var_data(&h, &params, 2).unwrap();
    assert_eq!(d.enum_name, "state_t");
    assert_eq!(
        String::from_utf8(var_json(&d)).unwrap(),
        "{\"name\": \"state\",\"netlistId\": 2,\"signalId\": 5,\"type\": \"Wire\",\"encoding\": \"BitVector(8)\", \"width\": 8, \"msb\": -1, \"lsb\": -1, \"enumType\": \"state_t\", \"paramValue\": \"\"}"
    );
    assert!(get_var_data(&h, &params, 3).is_none());
}

#[test]
fn parameter_value_only_for_parameters() {
    let h = small();
    // signal 0 has an entry, but `clk` is no parameter
    let params = vec![(0u32, "1".to_string()), (1u32, "32".to_string())];
    assert_eq!(get_var_data(&h, &params, 0).unwrap().param_value, None);
    assert_eq!(get_var_data(&h, &params, 1).unwrap().param_value, Some("32".to_string()));
    assert_eq!(get_var_data(&h, &Vec::new(), 1).unwrap().param_value, None);
}

#[test]
fn small_page_holds_scopes_then_variables() {
    let h = small();
    let page = h.get_children(&Vec::new(), 0, 0);
    assert_eq!(page.total_returned, 4);
    assert_eq!(page.remaining_items, 0);
    let names: Vec<&str> = page.scopes.iter().map(|s| s.name.as_str()).collect();
    assert_eq!(names, vec!["u0", "u1"]);
    let names: Vec<&str> = page.vars.iter().map(|v| v.name.as_str()).collect();
    assert_eq!(names, vec!["clk", "WIDTH"]);
    let page = h.get_children(&Vec::new(), 0, 1);
    assert_eq!(page.total_returned, 3);
    assert_eq!(page.scopes.len(), 1);
    assert_eq!(page.scopes[0].id, 2);
    assert_eq!(page.vars.len(), 2);
    let page = h.get_children(&Vec::new(), 0, 3);
    assert_eq!(page.total_returned, 1);
    assert_eq!(page.scopes.len(), 0);
    assert_eq!(page.vars[0].id, 1);
}

#[test]
fn page_as_text() {
    let h = small();
    let page = h.get_children(&Vec::new(), 1, 0);
    assert_eq!(
        String::from_utf8(page_json(&page)).unwrap(),
        "{\"scopes\": [], \"vars\": [{\"name\": \"state\",\"netlistId\": 2,\"signalId\": 5,\"type\": \"Wire\",\"encoding\": \"BitVector(8)\", \"width\": 8, \"msb\": -1, \"lsb\": -1, \"enumType\": \"state_t\", \"paramValue\": \"\"}],\"totalReturned\": 1,\"remainingItems\": 0}"
    );
    let page = h.get_children(&Vec::new(), 0, 0);
    let text = String::from_utf8(page_json(&page)).unwrap();
    assert!(text.starts_with(
        "{\"scopes\": [{\"name\": \"u0\",\"id\": 1,\"type\": \"Module\"},{\"name\": \"u1\",\"id\": 2,\"type\": \"Module\"}], \"vars\": [{\"name\": \"clk\""
    ));
    assert!(text.ends_with("],\"totalReturned\": 4,\"remainingItems\": 0}"));
}

#[test]
fn unknown_scope_has_an_empty_page() {
    let h = small();
    let page = h.get_children(&Vec::new(), 9, 0);
    assert_eq!(page.total_returned, 0);
    assert_eq!(page.remaining_items, 0);
    assert!(page.scopes.is_empty() && page.vars.is_empty());
    assert_eq!(
        String::from_utf8(page_json(&page)).unwrap(),
        "{\"scopes\": [], \"vars\": [],\"totalReturned\": 0,\"remainingItems\": 0}"
    );
}

#[test]
fn start_behind_the_last_child_has_an_empty_page() {
    let h = small();
    for start in [4u32, 5, u32::MAX] {
        let page = h.get_children(&Vec::new(), 0, start);
        assert_eq!(page.total_returned, 0);
        assert_eq!(page.remaining_items, 0);
    }
}

fn counted(page: &ChildrenPage) -> usize {
    // the header, and each descriptor with its separator
    let scopes: usize = page.scopes.iter().map(|d| scope_json(d).len() + 1).sum();
    let vars: usize = page.vars.iter().map(|d| var_json(d).len() + 1).sum();
    12 + scopes + vars
}

#[test]
fn pages_are_bounded_by_serialized_size() {
    let (h, ns, nv) = wide(400, 300);
    let page = h.get_children(&Vec::new(), 0, 0);
    // {"name": "sss..0","id": 1,"type": "Module"} and one for the separator
    let size = scope_json(&get_scope_data(&h, 1).unwrap()).len() + 1;
    assert_eq!(size, 9 + 303 + 7 + 1 + 9 + 8 + 1 + 1);
    // an item goes out while the count with it is at most 65000, from 12 on
    let mut bytes = 12;
    let mut expected = 0;
    loop {
        let next = scope_json(&get_scope_data(&h, expected as u32 + 1).unwrap()).len() + 1;
        if bytes + next > 65000 {
            break;
        }
        bytes += next;
        expected += 1;
    }
    assert!(expected > 150 && expected < 200);
    assert_eq!(page.total_returned as usize, expected);
    assert_eq!(page.remaining_items as usize, (ns + nv) as usize - expected);
    assert_eq!(page.scopes.len(), expected);
    assert!(page.vars.is_empty());
    assert_eq!(counted(&page), bytes);
    assert!(counted(&page) <= 65000);
}

#[test]
fn every_page_stays_within_the_budget_and_is_full() {
    let (h, ns, nv) = wide(400, 300);
    let mut start = 0u32;
    loop {
        let page = h.get_children(&Vec::new(), 0, start);
        let bytes = counted(&page);
        assert!(bytes <= 65000);
        start += page.total_returned;
        if page.remaining_items == 0 {
            break;
        }
        // the next child would not have fitted
        let next = h.get_children(&Vec::new(), 0, start);
        let first = if next.scopes.is_empty() {
            var_json(&next.vars[0]).len() + 1
        } else {
            scope_json(&next.scopes[0]).len() + 1
        };
        assert!(bytes + first > 65000);
    }
    assert_eq!(start, ns + nv);
}

#[test]
fn two_children_that_do_not_fit_together_go_on_two_pages() {
    // descriptors of about 64000 and 2000 bytes
    let scopes = vec![
        scope("top", vec![1, 2], vec![]),
        scope(&"a".repeat(63_950), vec![], vec![]),
        scope(&"b".repeat(1_950), vec![], vec![]),
    ];
    let h = HierarchyIndex::new(scopes, vec![], vec![0], vec![], None).unwrap();
    let page = h.get_children(&Vec::new(), 0, 0);
    assert_eq!(page.total_returned, 1);
    assert_eq!(page.remaining_items, 1);
    assert!(counted(&page) <= 65000);
    let page = h.get_children(&Vec::new(), 0, 1);
    assert_eq!(page.total_returned, 1);
    assert_eq!(page.remaining_items, 0);
    assert_eq!(page.scopes[0].id, 2);
}

#[test]
fn child_that_is_too_long_alone_has_a_page_of_its_own() {
    let scopes = vec![
        scope("top", vec![1, 2, 3], vec![]),
        scope("small", vec![], vec![]),
        scope(&"x".repeat(70_000), vec![], vec![]),
        scope("last", vec![], vec![]),
    ];
    let h = HierarchyIndex::new(scopes, vec![], vec![0], vec![], None).unwrap();
    let page = h.get_children(&Vec::new(), 0, 0);
    assert_eq!((page.total_returned, page.remaining_items), (1, 2));
    let page = h.get_children(&Vec::new(), 0, 1);
    assert_eq!((page.total_returned, page.remaining_items), (1, 1));
    assert_eq!(page.scopes[0].id, 2);
    let page = h.get_children(&Vec::new(), 0, 2);
    assert_eq!((page.total_returned, page.remaining_items), (1, 0));
    assert_eq!(page.scopes[0].name, "last");
}

#[test]
fn variable_without_width_range_or_enum_type_has_the_defaults() {
    let v = VarNode::new("s".to_string(), 4, "String".to_string(), "String".to_string(), None, None, None);
    assert_eq!((v.width, v.msb, v.lsb), (0, -1, -1));
    assert_eq!(v.enum_name, "");
    assert!(v.enum_values.is_empty());
    assert_eq!(v.name, "s");
    assert_eq!(v.signal_id, 4);
    let values = vec![("A".to_string(), "0".to_string())];
    let v = VarNode::new(
        "e".to_string(),
        5,
        "Enum".to_string(),
        "BitVector(3)".to_string(),
        Some(3),
        Some((2, 0)),
        Some(("kind".to_string(), values.clone())),
    );
    assert_eq!((v.width, v.msb, v.lsb), (3, 2, 0));
    assert_eq!(v.enum_name, "kind");
    assert_eq!(v.enum_values, values);
    assert_eq!(v.var_type, "Enum");
    assert_eq!(v.encoding, "BitVector(3)");
}

#[test]
fn repeated_pages_yield_every_child_once_in_order() {
    let (h, ns, nv) = wide(400, 300);
    let mut seen: Vec<(bool, u32)> = Vec::new();
    let mut start = 0u32;
    let mut calls = 0;
    loop {
        let page = h.get_children(&Vec::new(), 0, start);
        assert_eq!(page.total_returned as usize, page.scopes.len() + page.vars.len());
        seen.extend(page.scopes.iter().map(|s| (true, s.id)));
        seen.extend(page.vars.iter().map(|v| (false, v.id)));
        start += page.total_returned;
        calls += 1;
        assert_eq!(page.remaining_items, ns + nv - start);
        if page.remaining_items == 0 {
            break;
        }
    }
    assert!(calls > 3);
    let mut all: Vec<(bool, u32)> = (1..=ns).map(|i| (true, i)).collect();
    all.extend((0..nv).map(|i| (false, i)));
    assert_eq!(seen, all);
}

#[test]
fn top_level_and_metadata() {
    let h = small();
    assert_eq!(h.scope_count(), 3);
    assert_eq!(h.var_count(), 3);
    let m = h.metadata();
    assert_eq!((m.scope_count, m.var_count, m.timescale_factor), (3, 3, 10));
    assert_eq!(m.timescale_unit, "ps");
    let (scopes, vars) = h.top_level(&Vec::new());
    assert_eq!(scopes.len(), 1);
    assert_eq!(scopes[0].name, "top");
    assert!(vars.is_empty());
    let (h, _, _) = wide(1, 1);
    let m = h.metadata();
    assert_eq!(m.timescale_factor, 1);
    assert_eq!(m.timescale_unit, "s");
}

#[test]
fn unit_names() {
    assert_eq!(time_unit_name(TimescaleUnit::ZeptoSeconds), "zs");
    assert_eq!(time_unit_name(TimescaleUnit::AttoSeconds), "as");
    assert_eq!(time_unit_name(TimescaleUnit::FemtoSeconds), "fs");
    assert_eq!(time_unit_name(TimescaleUnit::NanoSeconds), "ns");
    assert_eq!(time_unit_name(TimescaleUnit::MicroSeconds), "us");
    assert_eq!(time_unit_name(TimescaleUnit::MilliSeconds), "ms");
    assert_eq!(time_unit_name(TimescaleUnit::Seconds), "s");
    assert_eq!(time_unit_name(TimescaleUnit::Unknown), "s");
}

#[test]
fn parameter_table_keeps_signals_with_a_value() {
    let loaded = vec![(4u32, Some("8".to_string())), (5, None), (6, Some("x".to_string()))];
    let table = parameter_table(&loaded);
    assert_eq!(table, vec![(4u32, "8".to_string()), (6, "x".to_string())]);
    assert_eq!(get_parameter_value(&table, 6), Some("x".to_string()));
    assert_eq!(get_parameter_value(&table, 5), None);
    let twice = vec![(4u32, "first".to_string()), (4, "second".to_string())];
    assert_eq!(get_parameter_value(&twice, 4), Some("first".to_string()));
}

#[test]
fn parameter_signals_in_variable_order() {
    assert_eq!(small().parameter_signals(), vec![1]);
}

#[test]
fn parameter_values_as_json() {
    let table = vec![(4u32, "8".to_string()), (6, "a\"b".to_string())];
    assert_eq!(getparametervalues(&table, &vec![6, 5, 4]), "[[6,\"a\\\"b\"],[4,\"8\"]]");
    assert_eq!(getparametervalues(&table, &vec![5]), "[]");
}

#[test]
fn enum_values_are_sent_in_chunks() {
    let h = small();
    match h.getenumdata(2) {
        EnumReply::Chunks(chunks) => {
            assert_eq!(chunks.len(), 1);
            assert_eq!(chunks[0].enum_name, "state_t");
            assert_eq!(chunks[0].chunk_count, 1);
            assert_eq!(chunks[0].chunk_index, 0);
            assert_eq!(chunks[0].payload, b"[[\"IDLE\",\"00\"],[\"RUN\",\"01\"]]".to_vec());
        }
        _ => panic!("the variable has an enum type"),
    }
    assert!(matches!(h.getenumdata(0), EnumReply::Nothing));
    assert!(matches!(h.getenumdata(77), EnumReply::Nothing));
}

#[test]
fn long_enum_values_are_cut_at_65000_bytes() {
    let values = "x".repeat(130_001);
    let chunks = send_enum_data("big", &values).unwrap();
    assert_eq!(chunks.len(), 3);
    assert_eq!(chunks[0].payload.len(), 65000);
    assert_eq!(chunks[2].payload.len(), 1);
    assert_eq!(chunks[2].chunk_index, 2);
    assert_eq!(chunks[2].chunk_count, 3);
    assert_eq!(chunks[1].enum_name, "big");
    assert!(send_enum_data("none", "").unwrap().is_empty());
}
