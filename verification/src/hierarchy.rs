//! The scope and variable tree of a trace, and what the host is told of it.

use crate::text::{
    append_comma_separated, append_decimal, append_quoted, append_signed_decimal, append_text,
    comma_separated, debug_text, decimal, rows_view, signed_decimal, text,
};
use vstd::string::StringSliceAdditionalSpecFns;
use crate::chunks::{
    chunk_at, chunk_count, chunk_payload, count_chunks, lemma_chunk_count, MAX_RETURN_LENGTH,
};
use crate::codec::{
    id_value_views, json_id_values, json_name_values, json_of_id_values, json_of_name_values,
    name_value_views,
};
use crate::pagination::{
    emitted_from, lemma_page_budget, lemma_page_progress, page_bytes, page_len, remaining_after,
    PAGE_HEADER,
};
use vstd::prelude::*;
use vstd::string::StringExecFns;

verus! {

/// What the host is told of a scope.
#[derive(Debug)]
pub struct ScopeData {
    pub name: String,
    pub id: u32,
    pub tpe: String,
}

/// What the host is told of a variable. `msb` and `lsb` are -1 where the
/// variable has no bit range; `param_value` is the constant of a parameter,
/// once it is known.
#[derive(Debug)]
pub struct VarData {
    pub name: String,
    pub id: u32,
    pub signal_id: u32,
    pub var_type: String,
    pub encoding: String,
    pub width: u32,
    pub msb: i32,
    pub lsb: i32,
    pub enum_name: String,
    pub param_value: Option<String>,
}

/// A scope of the tree: its name, its type tag, and its children by id, the
/// scopes and the variables each in declaration order.
pub struct ScopeNode {
    pub name: String,
    pub tpe: String,
    pub scopes: Vec<u32>,
    pub vars: Vec<u32>,
}

/// A variable of the tree. `enum_values` maps the names of its enum type to
/// their values and is empty where `enum_name` is.
pub struct VarNode {
    pub name: String,
    pub signal_id: u32,
    pub var_type: String,
    pub encoding: String,
    pub width: u32,
    pub msb: i32,
    pub lsb: i32,
    pub enum_name: String,
    pub enum_values: Vec<(String, String)>,
}

/// The unit of the time scale of a trace.
#[derive(Clone, Copy, Debug, PartialEq, Eq, Structural)]
pub enum TimescaleUnit {
    ZeptoSeconds,
    AttoSeconds,
    FemtoSeconds,
    PicoSeconds,
    NanoSeconds,
    MicroSeconds,
    MilliSeconds,
    Seconds,
    Unknown,
}

/// The time scale of a trace.
#[derive(Clone, Copy, Debug, PartialEq, Eq, Structural)]
pub struct Timescale {
    pub factor: u32,
    pub unit: TimescaleUnit,
}

/// The abbreviation of a unit; an unknown unit counts as seconds.
pub open spec fn unit_name(unit: TimescaleUnit) -> Seq<char> {
    match unit {
        TimescaleUnit::ZeptoSeconds => "zs"@,
        TimescaleUnit::AttoSeconds => "as"@,
        TimescaleUnit::FemtoSeconds => "fs"@,
        TimescaleUnit::PicoSeconds => "ps"@,
        TimescaleUnit::NanoSeconds => "ns"@,
        TimescaleUnit::MicroSeconds => "us"@,
        TimescaleUnit::MilliSeconds => "ms"@,
        TimescaleUnit::Seconds => "s"@,
        TimescaleUnit::Unknown => "s"@,
    }
}

/// The abbreviation of a unit.
pub fn time_unit_name(unit: TimescaleUnit) -> (r: &'static str)
    ensures
        r@ == unit_name(unit),
{
    match unit {
        TimescaleUnit::ZeptoSeconds => "zs",
        TimescaleUnit::AttoSeconds => "as",
        TimescaleUnit::FemtoSeconds => "fs",
        TimescaleUnit::PicoSeconds => "ps",
        TimescaleUnit::NanoSeconds => "ns",
        TimescaleUnit::MicroSeconds => "us",
        TimescaleUnit::MilliSeconds => "ms",
        TimescaleUnit::Seconds => "s",
        TimescaleUnit::Unknown => "s",
    }
}

/// The session metadata announced after a header was loaded.
pub struct Metadata {
    pub scope_count: u32,
    pub var_count: u32,
    pub timescale_factor: u32,
    pub timescale_unit: String,
}

/// The constants of the parameters of a trace, by signal id.
pub open spec fn param_lookup(table: Seq<(u32, String)>, signal_id: u32, n: nat) -> Option<String>
    decreases n,
{
    if n == 0 {
        None
    } else {
        match param_lookup(table, signal_id, (n - 1) as nat) {
            Some(v) => Some(v),
            None => if table[n - 1].0 == signal_id {
                Some(table[n - 1].1)
            } else {
                None
            },
        }
    }
}

/// The value of the first entry of the table for the signal.
pub open spec fn param_value(table: Seq<(u32, String)>, signal_id: u32) -> Option<String> {
    param_lookup(table, signal_id, table.len())
}

/// The constant recorded for the signal of a parameter, if there is one.
pub fn get_parameter_value(table: &Vec<(u32, String)>, signal_id: u32) -> (r: Option<String>)
    ensures
        r == param_value(table@, signal_id),
{
    let mut i: usize = 0;
    while i < table.len()
        invariant
            i <= table.len(),
            param_lookup(table@, signal_id, i as nat) is None,
        decreases table.len() - i,
    {
        if table[i].0 == signal_id {
            let found = table[i].1.clone();
            assert(param_lookup(table@, signal_id, (i + 1) as nat) == Some(found));
            proof {
                lemma_param_found(table@, signal_id, (i + 1) as nat, table@.len());
            }
            return Some(found);
        }
        i += 1;
    }
    None
}

proof fn lemma_param_found(table: Seq<(u32, String)>, signal_id: u32, n: nat, m: nat)
    requires
        n <= m,
        param_lookup(table, signal_id, n) is Some,
    ensures
        param_lookup(table, signal_id, m) == param_lookup(table, signal_id, n),
    decreases m,
{
    if n < m {
        lemma_param_found(table, signal_id, n, (m - 1) as nat);
    }
}

/// The scopes, the variables and the time scale of a trace. The id of a scope
/// or a variable is its position among the scopes or the variables.
pub struct HierarchyIndex {
    scopes: Vec<ScopeNode>,
    vars: Vec<VarNode>,
    top_scopes: Vec<u32>,
    top_vars: Vec<u32>,
    timescale: Option<Timescale>,
}

/// Every id in the list is below the bound.
pub open spec fn ids_below(ids: Seq<u32>, bound: nat) -> bool {
    forall|i: int| 0 <= i < ids.len() ==> (#[trigger] ids[i]) < bound
}

/// The ids of scopes and variables fit in 32 bits, every child that a scope
/// or the top level names exists, and the number of children of one scope fits
/// in 32 bits.
pub open spec fn well_formed(
    scopes: Seq<ScopeNode>,
    vars: Seq<VarNode>,
    top_scopes: Seq<u32>,
    top_vars: Seq<u32>,
) -> bool {
    &&& scopes.len() <= u32::MAX
    &&& vars.len() <= u32::MAX
    &&& ids_below(top_scopes, scopes.len())
    &&& ids_below(top_vars, vars.len())
    &&& forall|s: int|
        0 <= s < scopes.len() ==> {
            &&& ids_below((#[trigger] scopes[s]).scopes@, scopes.len())
            &&& ids_below(scopes[s].vars@, vars.len())
            &&& scopes[s].scopes@.len() + scopes[s].vars@.len() <= u32::MAX
        }
}

fn check_ids(ids: &Vec<u32>, bound: usize) -> (r: bool)
    ensures
        r == ids_below(ids@, bound as nat),
{
    let mut i: usize = 0;
    while i < ids.len()
        invariant
            i <= ids.len(),
            forall|j: int| 0 <= j < i ==> (#[trigger] ids@[j]) < bound,
        decreases ids.len() - i,
    {
        if ids[i] as usize >= bound {
            return false;
        }
        i += 1;
    }
    true
}

impl VarNode {
    /// A variable as the tree holds it. One without a width has the width 0,
    /// one without a bit range has -1 for both ends, and one without an enum
    /// type has an empty name for it and no values.
    pub fn new(
        name: String,
        signal_id: u32,
        var_type: String,
        encoding: String,
        width: Option<u32>,
        range: Option<(i32, i32)>,
        enum_type: Option<(String, Vec<(String, String)>)>,
    ) -> (r: VarNode)
        ensures
            r.name == name,
            r.signal_id == signal_id,
            r.var_type == var_type,
            r.encoding == encoding,
            r.width == match width {
                Some(w) => w,
                None => 0,
            },
            (r.msb, r.lsb) == match range {
                Some(bits) => bits,
                None => (-1i32, -1i32),
            },
            match enum_type {
                Some(e) => r.enum_name == e.0 && r.enum_values == e.1,
                None => r.enum_name@.len() == 0 && r.enum_values@.len() == 0,
            },
    {
        let width: u32 = match width {
            Some(w) => w,
            None => 0,
        };
        let (msb, lsb) = match range {
            Some(bits) => bits,
            None => (-1i32, -1i32),
        };
        let (enum_name, enum_values) = match enum_type {
            Some(e) => e,
            None => (String::new(), Vec::new()),
        };
        VarNode { name, signal_id, var_type, encoding, width, msb, lsb, enum_name, enum_values }
    }
}

impl HierarchyIndex {
    /// The scopes by id.
    pub closed spec fn scopes(&self) -> Seq<ScopeNode> {
        self.scopes@
    }

    /// The variables by id.
    pub closed spec fn vars(&self) -> Seq<VarNode> {
        self.vars@
    }

    /// The ids of the scopes at the top level.
    pub closed spec fn top_scopes(&self) -> Seq<u32> {
        self.top_scopes@
    }

    /// The ids of the variables at the top level.
    pub closed spec fn top_vars(&self) -> Seq<u32> {
        self.top_vars@
    }

    /// The time scale, where the trace declares one.
    pub closed spec fn timescale(&self) -> Option<Timescale> {
        self.timescale
    }

    #[verifier::type_invariant]
    spec fn wf(&self) -> bool {
        well_formed(self.scopes@, self.vars@, self.top_scopes@, self.top_vars@)
    }

    /// Takes the parts as a hierarchy, unless they are not well formed.
    pub fn new(
        scopes: Vec<ScopeNode>,
        vars: Vec<VarNode>,
        top_scopes: Vec<u32>,
        top_vars: Vec<u32>,
        timescale: Option<Timescale>,
    ) -> (r: Option<HierarchyIndex>)
        ensures
            r is Some <==> well_formed(scopes@, vars@, top_scopes@, top_vars@),
            r matches Some(h) ==> h.scopes() == scopes@ && h.vars() == vars@ && h.top_scopes()
                == top_scopes@ && h.top_vars() == top_vars@ && h.timescale() == timescale,
    {
        if scopes.len() > u32::MAX as usize || vars.len() > u32::MAX as usize {
            return None;
        }
        if !check_ids(&top_scopes, scopes.len()) || !check_ids(&top_vars, vars.len()) {
            return None;
        }
        let mut s: usize = 0;
        while s < scopes.len()
            invariant
                s <= scopes.len(),
                forall|k: int|
                    0 <= k < s ==> {
                        &&& ids_below((#[trigger] scopes@[k]).scopes@, scopes@.len())
                        &&& ids_below(scopes@[k].vars@, vars@.len())
                        &&& scopes@[k].scopes@.len() + scopes@[k].vars@.len() <= u32::MAX
                    },
            decreases scopes.len() - s,
        {
            let node = &scopes[s];
            if !check_ids(&node.scopes, scopes.len()) || !check_ids(&node.vars, vars.len()) {
                return None;
            }
            if node.scopes.len() > u32::MAX as usize || node.vars.len() > u32::MAX as usize
                - node.scopes.len() {
                return None;
            }
            s += 1;
        }
        Some(HierarchyIndex { scopes, vars, top_scopes, top_vars, timescale })
    }

    /// Number of scopes.
    pub fn scope_count(&self) -> (n: u32)
        ensures
            n == self.scopes().len(),
    {
        proof {
            use_type_invariant(self);
        }
        self.scopes.len() as u32
    }

    /// Number of variables.
    pub fn var_count(&self) -> (n: u32)
        ensures
            n == self.vars().len(),
    {
        proof {
            use_type_invariant(self);
        }
        self.vars.len() as u32
    }
}

/// The descriptor of the scope with the given id.
pub open spec fn scope_data_of(scopes: Seq<ScopeNode>, id: u32) -> ScopeData {
    ScopeData { name: scopes[id as int].name, id, tpe: scopes[id as int].tpe }
}

/// The descriptor of the variable with the given id. A variable of type
/// `Parameter` carries the constant that the table records for its signal.
pub open spec fn var_data_of(vars: Seq<VarNode>, params: Seq<(u32, String)>, id: u32) -> VarData {
    let node = vars[id as int];
    VarData {
        name: node.name,
        id,
        signal_id: node.signal_id,
        var_type: node.var_type,
        encoding: node.encoding,
        width: node.width,
        msb: node.msb,
        lsb: node.lsb,
        enum_name: node.enum_name,
        param_value: if node.var_type@ == "Parameter"@ {
            param_value(params, node.signal_id)
        } else {
            None
        },
    }
}

/// The serialized form of a scope descriptor.
pub open spec fn scope_text(d: ScopeData) -> Seq<u8> {
    text("{\"name\": ") + debug_text(d.name@) + text(",\"id\": ") + decimal(d.id as nat) + text(
        ",\"type\": ",
    ) + debug_text(d.tpe@) + text("}")
}

/// The constant of a parameter as it is serialized: empty where there is none.
pub open spec fn param_text(v: Option<String>) -> Seq<char> {
    match v {
        Some(s) => s@,
        None => Seq::empty(),
    }
}

/// The serialized form of a variable descriptor.
pub open spec fn var_text(d: VarData) -> Seq<u8> {
    text("{\"name\": ") + debug_text(d.name@) + text(",\"netlistId\": ") + decimal(d.id as nat)
        + text(",\"signalId\": ") + decimal(d.signal_id as nat) + text(",\"type\": ")
        + debug_text(d.var_type@) + text(",\"encoding\": ") + debug_text(d.encoding@) + text(
        ", \"width\": ",
    ) + decimal(d.width as nat) + text(", \"msb\": ") + signed_decimal(d.msb as int) + text(
        ", \"lsb\": ",
    ) + signed_decimal(d.lsb as int) + text(", \"enumType\": ") + debug_text(d.enum_name@) + text(
        ", \"paramValue\": ",
    ) + debug_text(param_text(d.param_value)) + text("}")
}

/// The serialized form of a scope descriptor.
pub fn scope_json(d: &ScopeData) -> (r: Vec<u8>)
    ensures
        r@ == scope_text(*d),
{
    let mut out: Vec<u8> = Vec::new();
    append_text(&mut out, "{\"name\": ");
    append_quoted(&mut out, d.name.as_str());
    append_text(&mut out, ",\"id\": ");
    append_decimal(&mut out, d.id as u64);
    append_text(&mut out, ",\"type\": ");
    append_quoted(&mut out, d.tpe.as_str());
    append_text(&mut out, "}");
    out
}

/// The serialized form of a variable descriptor.
pub fn var_json(d: &VarData) -> (r: Vec<u8>)
    ensures
        r@ == var_text(*d),
{
    let mut out: Vec<u8> = Vec::new();
    append_text(&mut out, "{\"name\": ");
    append_quoted(&mut out, d.name.as_str());
    append_text(&mut out, ",\"netlistId\": ");
    append_decimal(&mut out, d.id as u64);
    append_text(&mut out, ",\"signalId\": ");
    append_decimal(&mut out, d.signal_id as u64);
    append_text(&mut out, ",\"type\": ");
    append_quoted(&mut out, d.var_type.as_str());
    append_text(&mut out, ",\"encoding\": ");
    append_quoted(&mut out, d.encoding.as_str());
    append_text(&mut out, ", \"width\": ");
    append_decimal(&mut out, d.width as u64);
    append_text(&mut out, ", \"msb\": ");
    append_signed_decimal(&mut out, d.msb);
    append_text(&mut out, ", \"lsb\": ");
    append_signed_decimal(&mut out, d.lsb);
    append_text(&mut out, ", \"enumType\": ");
    append_quoted(&mut out, d.enum_name.as_str());
    append_text(&mut out, ", \"paramValue\": ");
    match &d.param_value {
        Some(v) => {
            append_quoted(&mut out, v.as_str());
        },
        None => {
            append_quoted(&mut out, "");
            assert(""@ =~= Seq::<char>::empty()) by {
                reveal_strlit("");
            }
        },
    }
    append_text(&mut out, "}");
    out
}

impl HierarchyIndex {
    fn scope_data(&self, s: u32) -> (r: ScopeData)
        requires
            (s as int) < self.scopes().len(),
        ensures
            r == scope_data_of(self.scopes(), s),
    {
        let node = &self.scopes[s as usize];
        ScopeData { name: node.name.clone(), id: s, tpe: node.tpe.clone() }
    }

    fn var_data(&self, params: &Vec<(u32, String)>, v: u32) -> (r: VarData)
        requires
            (v as int) < self.vars().len(),
        ensures
            r == var_data_of(self.vars(), params@, v),
    {
        let node = &self.vars[v as usize];
        let parameter = String::from_str("Parameter");
        let param_value = if node.var_type == parameter {
            get_parameter_value(params, node.signal_id)
        } else {
            None
        };
        VarData {
            name: node.name.clone(),
            id: v,
            signal_id: node.signal_id,
            var_type: node.var_type.clone(),
            encoding: node.encoding.clone(),
            width: node.width,
            msb: node.msb,
            lsb: node.lsb,
            enum_name: node.enum_name.clone(),
            param_value,
        }
    }
}

/// The descriptor of a scope, if the hierarchy has it.
pub fn get_scope_data(hierarchy: &HierarchyIndex, s: u32) -> (r: Option<ScopeData>)
    ensures
        r == if (s as int) < hierarchy.scopes().len() {
            Some(scope_data_of(hierarchy.scopes(), s))
        } else {
            None
        },
{
    if (s as usize) < hierarchy.scopes.len() {
        Some(hierarchy.scope_data(s))
    } else {
        None
    }
}

/// The descriptor of a variable, if the hierarchy has it.
pub fn get_var_data(hierarchy: &HierarchyIndex, params: &Vec<(u32, String)>, v: u32) -> (r: Option<
    VarData,
>)
    ensures
        r == if (v as int) < hierarchy.vars().len() {
            Some(var_data_of(hierarchy.vars(), params@, v))
        } else {
            None
        },
{
    if (v as usize) < hierarchy.vars.len() {
        Some(hierarchy.var_data(params, v))
    } else {
        None
    }
}

/// One page of the children of a scope.
pub struct ChildrenPage {
    pub scopes: Vec<ScopeData>,
    pub vars: Vec<VarData>,
    pub total_returned: u32,
    pub remaining_items: u32,
}

/// The bytes that each child of the scope counts for in a response, the
/// sub-scopes first, then the variables: the length of its serialized
/// descriptor and one more for the separator.
pub open spec fn child_sizes(
    scopes: Seq<ScopeNode>,
    vars: Seq<VarNode>,
    params: Seq<(u32, String)>,
    id: u32,
) -> Seq<nat> {
    let node = scopes[id as int];
    let ns = node.scopes@.len() as int;
    Seq::new(
        node.scopes@.len() + node.vars@.len(),
        |k: int|
            if k < ns {
                scope_text(scope_data_of(scopes, node.scopes@[k])).len() + 1
            } else {
                var_text(var_data_of(vars, params, node.vars@[k - ns])).len() + 1
            },
    )
}

/// `x` cut down to `limit`.
pub open spec fn at_most(x: int, limit: int) -> int {
    if x < limit {
        x
    } else {
        limit
    }
}

/// The page holds the children of scope `id` with the flat indices from
/// `start` up to `start + n`: the descriptors of the sub-scopes among them,
/// then those of the variables, each in declaration order.
pub open spec fn page_holds(
    page: ChildrenPage,
    scopes: Seq<ScopeNode>,
    vars: Seq<VarNode>,
    params: Seq<(u32, String)>,
    id: u32,
    start: int,
    n: int,
) -> bool {
    let node = scopes[id as int];
    let ns = node.scopes@.len() as int;
    let first_scope = at_most(start, ns);
    let first_var = start - first_scope;
    &&& page.scopes@.len() == at_most(start + n, ns) - first_scope
    &&& page.vars@.len() == n - page.scopes@.len()
    &&& forall|i: int|
        0 <= i < page.scopes@.len() ==> #[trigger] page.scopes@[i] == scope_data_of(
            scopes,
            node.scopes@[first_scope + i],
        )
    &&& forall|i: int|
        0 <= i < page.vars@.len() ==> #[trigger] page.vars@[i] == var_data_of(
            vars,
            params,
            node.vars@[first_var + i],
        )
}

/// A child of a scope: a sub-scope or a variable, by its descriptor.
enum ChildItem {
    Scope(ScopeData),
    Var(VarData),
}

impl HierarchyIndex {
    /// The child of scope `id` with the flat index `k`, and the bytes that it
    /// counts for in a response.
    fn child_at(&self, params: &Vec<(u32, String)>, id: u32, k: usize) -> (r: (ChildItem, u128))
        requires
            (id as int) < self.scopes().len(),
            k < self.scopes()[id as int].scopes@.len() + self.scopes()[id as int].vars@.len(),
        ensures
            r.1 == child_sizes(self.scopes(), self.vars(), params@, id)[k as int],
            r.1 <= usize::MAX + 1,
            k < self.scopes()[id as int].scopes@.len() ==> r.0 == ChildItem::Scope(
                scope_data_of(self.scopes(), self.scopes()[id as int].scopes@[k as int]),
            ),
            k >= self.scopes()[id as int].scopes@.len() ==> r.0 == ChildItem::Var(
                var_data_of(
                    self.vars(),
                    params@,
                    self.scopes()[id as int].vars@[k - self.scopes()[id as int].scopes@.len()],
                ),
            ),
    {
        proof {
            use_type_invariant(self);
        }
        let node = &self.scopes[id as usize];
        let ns: usize = node.scopes.len();
        if k < ns {
            let child: u32 = node.scopes[k];
            assert(ids_below(node.scopes@, self.scopes@.len()));
            let d = self.scope_data(child);
            let size: u128 = scope_json(&d).len() as u128 + 1;
            (ChildItem::Scope(d), size)
        } else {
            let child: u32 = node.vars[k - ns];
            assert(ids_below(node.vars@, self.vars@.len()));
            let d = self.var_data(params, child);
            let size: u128 = var_json(&d).len() as u128 + 1;
            (ChildItem::Var(d), size)
        }
    }

    /// One page of the children of scope `id`, from the child with the flat
    /// index `start` on: as many as stay within the size budget together,
    /// and the first of them in any case. An unknown scope has an empty page
    /// with nothing remaining, and so has a start index behind the last child.
    pub fn get_children(&self, params: &Vec<(u32, String)>, id: u32, start: u32) -> (page:
        ChildrenPage)
        ensures
            (id as int) >= self.scopes().len() ==> page.scopes@.len() == 0 && page.vars@.len() == 0
                && page.total_returned == 0 && page.remaining_items == 0,
            (id as int) < self.scopes().len() ==> {
                let sizes = child_sizes(self.scopes(), self.vars(), params@, id);
                &&& page.total_returned == page_len(sizes, start as nat)
                &&& page.remaining_items == remaining_after(sizes, start as nat)
                &&& page_holds(
                    page,
                    self.scopes(),
                    self.vars(),
                    params@,
                    id,
                    start as int,
                    page_len(sizes, start as nat) as int,
                )
                &&& (start as int) < sizes.len() && PAGE_HEADER + sizes[start as int]
                    <= MAX_RETURN_LENGTH ==> page_bytes(sizes, start as nat) <= MAX_RETURN_LENGTH
                &&& page.remaining_items > 0 ==> page_bytes(sizes, start as nat) + sizes[start
                    + page.total_returned] > MAX_RETURN_LENGTH
            },
    {
        proof {
            use_type_invariant(self);
            if (id as int) < self.scopes@.len() {
                let sizes = child_sizes(self.scopes@, self.vars@, params@, id);
                if (start as int) < sizes.len() {
                    lemma_page_budget(sizes, start as nat);
                }
            }
        }
        let mut scopes: Vec<ScopeData> = Vec::new();
        let mut vars: Vec<VarData> = Vec::new();
        if id as usize >= self.scopes.len() {
            return ChildrenPage { scopes, vars, total_returned: 0, remaining_items: 0 };
        }
        let node = &self.scopes[id as usize];
        let ns: usize = node.scopes.len();
        let nv: usize = node.vars.len();
        let total: usize = ns + nv;
        let ghost sizes = child_sizes(self.scopes@, self.vars@, params@, id);
        proof {
            lemma_page_progress(sizes, start as nat);
        }
        if start as usize >= total {
            return ChildrenPage { scopes, vars, total_returned: 0, remaining_items: 0 };
        }
        let first: usize = start as usize;
        let mut acc: u128 = PAGE_HEADER as u128;
        let mut k: usize = first;
        let mut stop: usize = total;
        while k < stop
            invariant
                first <= k <= stop <= total,
                first < total,
                total == ns + nv,
                total <= u32::MAX,
                ns == node.scopes@.len(),
                nv == node.vars@.len(),
                (id as int) < self.scopes@.len(),
                *node == self.scopes@[id as int],
                sizes == child_sizes(self.scopes@, self.vars@, params@, id),
                sizes.len() == total,
                acc <= MAX_RETURN_LENGTH + usize::MAX + 1,
                k == first ==> acc == PAGE_HEADER && stop == total,
                k > first && k < stop ==> stop == total && page_len(sizes, first as nat) == (k
                    - first) + emitted_from(sizes, k as int, acc as nat),
                k > first && k == stop ==> page_len(sizes, first as nat) == k - first,
                scopes@.len() == at_most(k as int, ns as int) - at_most(first as int, ns as int),
                vars@.len() == (k - first) - scopes@.len(),
                forall|i: int|
                    0 <= i < scopes@.len() ==> #[trigger] scopes@[i] == scope_data_of(
                        self.scopes@,
                        node.scopes@[at_most(first as int, ns as int) + i],
                    ),
                forall|i: int|
                    0 <= i < vars@.len() ==> #[trigger] vars@[i] == var_data_of(
                        self.vars@,
                        params@,
                        node.vars@[first - at_most(first as int, ns as int) + i],
                    ),
            decreases stop - k,
        {
            let (item, size) = self.child_at(params, id, k);
            proof {
                let more = emitted_from(sizes, k + 1, (acc + size) as nat);
                if k == first {
                    assert(page_len(sizes, first as nat) == 1 + more);
                } else if acc + size <= MAX_RETURN_LENGTH {
                    assert(emitted_from(sizes, k as int, acc as nat) == 1 + more);
                } else {
                    assert(emitted_from(sizes, k as int, acc as nat) == 0);
                }
                if k + 1 == total {
                    assert(more == 0);
                }
            }
            if k == first || acc + size <= MAX_RETURN_LENGTH as u128 {
                acc = acc + size;
                match item {
                    ChildItem::Scope(d) => {
                        scopes.push(d);
                    },
                    ChildItem::Var(d) => {
                        vars.push(d);
                    },
                }
                k += 1;
            } else {
                stop = k;
            }
        }
        ChildrenPage {
            scopes,
            vars,
            total_returned: (k - first) as u32,
            remaining_items: (total - k) as u32,
        }
    }
}

/// The serialized descriptors of the scopes.
pub open spec fn scope_rows(scopes: Seq<ScopeData>) -> Seq<Seq<u8>> {
    Seq::new(scopes.len(), |i: int| scope_text(scopes[i]))
}

/// The serialized descriptors of the variables.
pub open spec fn var_rows(vars: Seq<VarData>) -> Seq<Seq<u8>> {
    Seq::new(vars.len(), |i: int| var_text(vars[i]))
}

/// The response that carries a page.
pub open spec fn page_text(page: ChildrenPage) -> Seq<u8> {
    text("{\"scopes\": [") + comma_separated(scope_rows(page.scopes@), page.scopes@.len()) + text(
        "], \"vars\": [",
    ) + comma_separated(var_rows(page.vars@), page.vars@.len()) + text("],\"totalReturned\": ")
        + decimal(page.total_returned as nat) + text(",\"remainingItems\": ") + decimal(
        page.remaining_items as nat,
    ) + text("}")
}

/// The response that carries a page.
pub fn page_json(page: &ChildrenPage) -> (r: Vec<u8>)
    ensures
        r@ == page_text(*page),
{
    let mut scope_texts: Vec<Vec<u8>> = Vec::new();
    let mut i: usize = 0;
    while i < page.scopes.len()
        invariant
            i <= page.scopes.len(),
            scope_texts@.len() == i,
            forall|j: int| 0 <= j < i ==> (#[trigger] scope_texts@[j])@ == scope_text(page.scopes@[j]),
        decreases page.scopes.len() - i,
    {
        scope_texts.push(scope_json(&page.scopes[i]));
        i += 1;
    }
    let mut var_texts: Vec<Vec<u8>> = Vec::new();
    let mut i: usize = 0;
    while i < page.vars.len()
        invariant
            i <= page.vars.len(),
            var_texts@.len() == i,
            forall|j: int| 0 <= j < i ==> (#[trigger] var_texts@[j])@ == var_text(page.vars@[j]),
        decreases page.vars.len() - i,
    {
        var_texts.push(var_json(&page.vars[i]));
        i += 1;
    }
    assert(rows_view(scope_texts@) =~= scope_rows(page.scopes@));
    assert(rows_view(var_texts@) =~= var_rows(page.vars@));
    let mut out: Vec<u8> = Vec::new();
    append_text(&mut out, "{\"scopes\": [");
    append_comma_separated(&mut out, &scope_texts);
    append_text(&mut out, "], \"vars\": [");
    append_comma_separated(&mut out, &var_texts);
    append_text(&mut out, "],\"totalReturned\": ");
    append_decimal(&mut out, page.total_returned as u64);
    append_text(&mut out, ",\"remainingItems\": ");
    append_decimal(&mut out, page.remaining_items as u64);
    append_text(&mut out, "}");
    out
}

/// The signal ids of the first `n` variables that are parameters.
pub open spec fn parameter_signals_of(vars: Seq<VarNode>, n: nat) -> Seq<u32>
    decreases n,
{
    if n == 0 {
        Seq::empty()
    } else if vars[n - 1].var_type@ == "Parameter"@ {
        parameter_signals_of(vars, (n - 1) as nat).push(vars[n - 1].signal_id)
    } else {
        parameter_signals_of(vars, (n - 1) as nat)
    }
}

/// The first `n` entries that have a value, each with its value.
pub open spec fn with_values(loaded: Seq<(u32, Option<String>)>, n: nat) -> Seq<(u32, String)>
    decreases n,
{
    if n == 0 {
        Seq::empty()
    } else {
        match loaded[n - 1].1 {
            Some(v) => with_values(loaded, (n - 1) as nat).push((loaded[n - 1].0, v)),
            None => with_values(loaded, (n - 1) as nat),
        }
    }
}

/// The table of parameter constants: of the signals loaded for the
/// parameters, with the first value of each, those that have a value.
pub fn parameter_table(loaded: &Vec<(u32, Option<String>)>) -> (r: Vec<(u32, String)>)
    ensures
        r@ == with_values(loaded@, loaded@.len()),
{
    let mut table: Vec<(u32, String)> = Vec::new();
    let mut i: usize = 0;
    while i < loaded.len()
        invariant
            i <= loaded.len(),
            table@ == with_values(loaded@, i as nat),
        decreases loaded.len() - i,
    {
        match &loaded[i].1 {
            Some(v) => {
                table.push((loaded[i].0, v.clone()));
            },
            None => {},
        }
        i += 1;
    }
    table
}

/// The first `n` requested ids for which the table has a value, each with
/// its value.
pub open spec fn found_values(table: Seq<(u32, String)>, ids: Seq<u32>, n: nat) -> Seq<
    (u32, String),
>
    decreases n,
{
    if n == 0 {
        Seq::empty()
    } else {
        match param_value(table, ids[n - 1]) {
            Some(v) => found_values(table, ids, (n - 1) as nat).push((ids[n - 1], v)),
            None => found_values(table, ids, (n - 1) as nat),
        }
    }
}

/// The constants of the requested signals as JSON text: an array of pairs of
/// id and value, for the ids that the table knows; an empty array where the
/// serializer fails.
pub fn getparametervalues(table: &Vec<(u32, String)>, signal_ids: &Vec<u32>) -> (r: String)
    ensures
        r@ == match json_of_id_values(
            id_value_views(found_values(table@, signal_ids@, signal_ids@.len())),
        ) {
            Some(t) => t,
            None => "[]"@,
        },
{
    let mut found: Vec<(u32, String)> = Vec::new();
    let mut i: usize = 0;
    while i < signal_ids.len()
        invariant
            i <= signal_ids.len(),
            found@ == found_values(table@, signal_ids@, i as nat),
        decreases signal_ids.len() - i,
    {
        match get_parameter_value(table, signal_ids[i]) {
            Some(v) => {
                found.push((signal_ids[i], v));
            },
            None => {},
        }
        i += 1;
    }
    match json_id_values(&found) {
        Ok(t) => t,
        Err(_) => String::from_str("[]"),
    }
}

/// One chunk of the serialized values of an enum type.
pub struct EnumChunk {
    pub enum_name: String,
    pub chunk_count: u32,
    pub chunk_index: u32,
    pub payload: Vec<u8>,
}

/// The chunks are those of `data` cut at `MAX_RETURN_LENGTH` bytes, each
/// tagged with the name of the enum type, its position and their number.
pub open spec fn is_enum_chunking(chunks: Seq<EnumChunk>, name: Seq<char>, data: Seq<u8>) -> bool {
    &&& chunks.len() == chunk_count(data.len(), MAX_RETURN_LENGTH as nat)
    &&& forall|i: int|
        0 <= i < chunks.len() ==> {
            &&& (#[trigger] chunks[i]).enum_name@ == name
            &&& chunks[i].chunk_count == chunks.len()
            &&& chunks[i].chunk_index == i
            &&& chunks[i].payload@ == chunk_at(data, MAX_RETURN_LENGTH as nat, i as nat)
        }
}

/// Cuts the serialized values of an enum type into chunks of at most
/// `MAX_RETURN_LENGTH` bytes. Values whose length does not fit in 32 bits give
/// no chunks.
pub fn send_enum_data(name: &str, values: &str) -> (r: Option<Vec<EnumChunk>>)
    ensures
        r is Some <==> text(values).len() <= u32::MAX,
        r matches Some(chunks) ==> is_enum_chunking(chunks@, name@, text(values)),
{
    let data = values.as_bytes();
    if data.len() > u32::MAX as usize {
        return None;
    }
    let count: usize = count_chunks(data.len(), MAX_RETURN_LENGTH);
    proof {
        lemma_chunk_count(data@.len(), MAX_RETURN_LENGTH as nat);
    }
    let mut chunks: Vec<EnumChunk> = Vec::new();
    let mut i: usize = 0;
    while i < count
        invariant
            i <= count,
            count == chunk_count(data@.len(), MAX_RETURN_LENGTH as nat),
            count <= u32::MAX,
            chunks@.len() == i,
            forall|j: int|
                0 <= j < i ==> {
                    &&& (#[trigger] chunks[j]).enum_name@ == name@
                    &&& chunks[j].chunk_count == count
                    &&& chunks[j].chunk_index == j
                    &&& chunks[j].payload@ == chunk_at(data@, MAX_RETURN_LENGTH as nat, j as nat)
                },
        decreases count - i,
    {
        let payload = chunk_payload(data, MAX_RETURN_LENGTH, i);
        chunks.push(
            EnumChunk {
                enum_name: String::from_str(name),
                chunk_count: count as u32,
                chunk_index: i as u32,
                payload,
            },
        );
        i += 1;
    }
    Some(chunks)
}

/// What is sent for one requested variable.
pub enum EnumReply {
    /// The variable does not exist or has no enum type: nothing is sent.
    Nothing,
    /// The values of the enum type could not be serialized or are too long.
    Failed,
    /// The chunks of the serialized values.
    Chunks(Vec<EnumChunk>),
}

impl HierarchyIndex {
    /// The signal ids of the variables that are parameters, in the order of
    /// the variables.
    pub fn parameter_signals(&self) -> (r: Vec<u32>)
        ensures
            r@ == parameter_signals_of(self.vars(), self.vars().len()),
    {
        let parameter = String::from_str("Parameter");
        let mut ids: Vec<u32> = Vec::new();
        let mut i: usize = 0;
        while i < self.vars.len()
            invariant
                i <= self.vars.len(),
                parameter@ == "Parameter"@,
                ids@ == parameter_signals_of(self.vars@, i as nat),
            decreases self.vars.len() - i,
        {
            if self.vars[i].var_type == parameter {
                ids.push(self.vars[i].signal_id);
            }
            i += 1;
        }
        ids
    }

    /// The descriptors of the scopes and of the variables at the top level.
    pub fn top_level(&self, params: &Vec<(u32, String)>) -> (r: (Vec<ScopeData>, Vec<VarData>))
        ensures
            r.0@.len() == self.top_scopes().len(),
            forall|i: int|
                0 <= i < r.0@.len() ==> #[trigger] r.0@[i] == scope_data_of(
                    self.scopes(),
                    self.top_scopes()[i],
                ),
            r.1@.len() == self.top_vars().len(),
            forall|i: int|
                0 <= i < r.1@.len() ==> #[trigger] r.1@[i] == var_data_of(
                    self.vars(),
                    params@,
                    self.top_vars()[i],
                ),
    {
        proof {
            use_type_invariant(self);
        }
        let mut scopes: Vec<ScopeData> = Vec::new();
        let mut i: usize = 0;
        while i < self.top_scopes.len()
            invariant
                i <= self.top_scopes.len(),
                ids_below(self.top_scopes@, self.scopes@.len()),
                scopes@.len() == i,
                forall|j: int|
                    0 <= j < i ==> #[trigger] scopes@[j] == scope_data_of(
                        self.scopes@,
                        self.top_scopes@[j],
                    ),
            decreases self.top_scopes.len() - i,
        {
            scopes.push(self.scope_data(self.top_scopes[i]));
            i += 1;
        }
        let mut vars: Vec<VarData> = Vec::new();
        let mut i: usize = 0;
        while i < self.top_vars.len()
            invariant
                i <= self.top_vars.len(),
                ids_below(self.top_vars@, self.vars@.len()),
                vars@.len() == i,
                forall|j: int|
                    0 <= j < i ==> #[trigger] vars@[j] == var_data_of(
                        self.vars@,
                        params@,
                        self.top_vars@[j],
                    ),
            decreases self.top_vars.len() - i,
        {
            vars.push(self.var_data(params, self.top_vars[i]));
            i += 1;
        }
        (scopes, vars)
    }

    /// The metadata announced for the hierarchy: the numbers of scopes and
    /// variables, and the time scale, which is 1 s where none is declared.
    pub fn metadata(&self) -> (r: Metadata)
        ensures
            r.scope_count == self.scopes().len(),
            r.var_count == self.vars().len(),
            r.timescale_factor == match self.timescale() {
                Some(t) => t.factor,
                None => 1,
            },
            r.timescale_unit@ == match self.timescale() {
                Some(t) => unit_name(t.unit),
                None => "s"@,
            },
    {
        proof {
            use_type_invariant(self);
        }
        let (factor, unit) = match self.timescale {
            Some(t) => (t.factor, time_unit_name(t.unit)),
            None => (1, "s"),
        };
        Metadata {
            scope_count: self.scopes.len() as u32,
            var_count: self.vars.len() as u32,
            timescale_factor: factor,
            timescale_unit: String::from_str(unit),
        }
    }

    /// The values of the enum type of a variable, serialized and cut into
    /// chunks.
    pub fn getenumdata(&self, variable_id: u32) -> (r: EnumReply)
        ensures
            (variable_id as int) >= self.vars().len() ==> r is Nothing,
            (variable_id as int) < self.vars().len() ==> {
                let node = self.vars()[variable_id as int];
                if node.enum_name@.len() == 0 {
                    r is Nothing
                } else {
                    match json_of_name_values(name_value_views(node.enum_values@)) {
                        Some(t) => if vstd::utf8::encode_utf8(t).len() <= u32::MAX {
                            r matches EnumReply::Chunks(chunks) && is_enum_chunking(
                                chunks@,
                                node.enum_name@,
                                vstd::utf8::encode_utf8(t),
                            )
                        } else {
                            r is Failed
                        },
                        None => r is Failed,
                    }
                }
            },
    {
        if variable_id as usize >= self.vars.len() {
            return EnumReply::Nothing;
        }
        let node = &self.vars[variable_id as usize];
        if node.enum_name.as_str().is_empty() {
            return EnumReply::Nothing;
        }
        match json_name_values(&node.enum_values) {
            Ok(t) => match send_enum_data(node.enum_name.as_str(), t.as_str()) {
                Some(chunks) => EnumReply::Chunks(chunks),
                None => EnumReply::Failed,
            },
            Err(_) => EnumReply::Failed,
        }
    }
}

} // verus!
