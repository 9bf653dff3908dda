//! The session of one trace: what is loaded of it, and the two phases of
//! loading, header first and body after.

use crate::codec::FileFormat;
use crate::hierarchy::{
    child_sizes, page_holds, parameter_table, scope_data_of, unit_name, var_data_of, with_values,
    ChildrenPage, HierarchyIndex, Metadata, ScopeData, VarData,
};
use crate::chunks::MAX_RETURN_LENGTH;
use crate::pagination::{page_bytes, page_len, remaining_after, PAGE_HEADER};
use crate::time_table::{chunk_size_heuristic, reported_end, ChunkSizeReport, TimeTable};
use vstd::prelude::*;

verus! {

/// How far the trace is loaded.
#[derive(Clone, Copy, Debug, PartialEq, Eq, Structural)]
pub enum LoadState {
    Unloaded,
    HeaderLoaded,
    BodyLoaded,
}

/// Why a step of loading failed.
#[derive(Clone, Copy, Debug, PartialEq, Eq, Structural)]
pub enum LoadError {
    /// The header of the trace does not parse.
    HeaderFailed,
    /// There is no header whose body could be read, or the body was read
    /// before.
    NoBodyContinuation,
}

/// How the header is read: from a copy of the whole file in memory, or from
/// the byte source through a read-ahead buffer.
#[derive(Clone, Copy, Debug, PartialEq, Eq, Structural)]
pub enum LoadPlan {
    Static { size: u64 },
    Streamed { buffer_size: u32 },
}

/// What the host is told once a hierarchy is in place.
pub struct HeaderAnnouncement {
    pub metadata: Metadata,
    pub scopes: Vec<ScopeData>,
    pub vars: Vec<VarData>,
}

/// The way to read a header of a file of `total_size` bytes.
pub fn plan_load(total_size: u64, static_mode: bool, buffer_size: u32) -> (r: LoadPlan)
    ensures
        r == if static_mode {
            LoadPlan::Static { size: total_size }
        } else {
            LoadPlan::Streamed { buffer_size }
        },
{
    if static_mode {
        LoadPlan::Static { size: total_size }
    } else {
        LoadPlan::Streamed { buffer_size }
    }
}

/// The session of a trace. `C` is what the parser needs to go on with the body
/// after the header; the session keeps at most one and gives it out once.
pub struct TraceLoader<C> {
    file_format: FileFormat,
    hierarchy: Option<HierarchyIndex>,
    body: Option<C>,
    time_table: Option<TimeTable>,
    params: Vec<(u32, String)>,
}

impl<C> TraceLoader<C> {
    /// The format of the trace; unknown while none is loaded.
    pub closed spec fn file_format(&self) -> FileFormat {
        self.file_format
    }

    /// The hierarchy, once a header is loaded.
    pub closed spec fn hierarchy(&self) -> Option<HierarchyIndex> {
        self.hierarchy
    }

    /// What is kept to read the body with.
    pub closed spec fn body(&self) -> Option<C> {
        self.body
    }

    /// The time table, once a body is loaded.
    pub closed spec fn time_table(&self) -> Option<TimeTable> {
        self.time_table
    }

    /// The constants of the parameters.
    pub closed spec fn params(&self) -> Seq<(u32, String)> {
        self.params@
    }

    /// How far the trace is loaded: not at all without a hierarchy, and
    /// wholly with a hierarchy and a time table.
    pub open spec fn state(&self) -> LoadState {
        if self.hierarchy() is None {
            LoadState::Unloaded
        } else if self.time_table() is None {
            LoadState::HeaderLoaded
        } else {
            LoadState::BodyLoaded
        }
    }

    /// Nothing is loaded.
    pub open spec fn is_clear(&self) -> bool {
        &&& self.file_format() == FileFormat::Unknown
        &&& self.hierarchy() is None
        &&& self.body() is None
        &&& self.time_table() is None
        &&& self.params().len() == 0
    }

    /// A session with nothing loaded.
    pub fn new() -> (r: TraceLoader<C>)
        ensures
            r.is_clear(),
    {
        TraceLoader {
            file_format: FileFormat::Unknown,
            hierarchy: None,
            body: None,
            time_table: None,
            params: Vec::new(),
        }
    }

    /// How far the trace is loaded.
    pub fn load_state(&self) -> (r: LoadState)
        ensures
            r == self.state(),
    {
        if self.hierarchy.is_none() {
            LoadState::Unloaded
        } else if self.time_table.is_none() {
            LoadState::HeaderLoaded
        } else {
            LoadState::BodyLoaded
        }
    }

    /// Takes in the outcome of parsing a header. A parsed header replaces the
    /// session by one with its format, its hierarchy and its continuation, and
    /// nothing else; the metadata and the top level of the hierarchy are
    /// announced. A header that did not parse leaves the session as it is.
    pub fn begin_load(&mut self, header: Option<(FileFormat, HierarchyIndex, C)>) -> (r: Result<
        HeaderAnnouncement,
        LoadError,
    >)
        ensures
            header is None ==> *final(self) == *old(self) && r == Err::<
                HeaderAnnouncement,
                LoadError,
            >(LoadError::HeaderFailed),
            header matches Some(h) ==> {
                &&& final(self).file_format() == h.0
                &&& final(self).hierarchy() == Some(h.1)
                &&& final(self).body() == Some(h.2)
                &&& final(self).time_table() is None
                &&& final(self).params().len() == 0
                &&& final(self).state() == LoadState::HeaderLoaded
                &&& r matches Ok(a) && announces(a, h.1, Seq::empty())
            },
    {
        match header {
            None => Err(LoadError::HeaderFailed),
            Some((file_format, hierarchy, body)) => {
                let params: Vec<(u32, String)> = Vec::new();
                let announcement = announce(&hierarchy, &params);
                self.time_table = None;
                self.params = params;
                self.file_format = file_format;
                self.hierarchy = Some(hierarchy);
                self.body = Some(body);
                Ok(announcement)
            },
        }
    }

    /// Takes in a hierarchy that did not come from a header of this session:
    /// it replaces the format and the hierarchy, and what was kept for a body
    /// is dropped. The metadata and the top level are announced.
    pub fn install_hierarchy(&mut self, file_format: FileFormat, hierarchy: HierarchyIndex) -> (r:
        HeaderAnnouncement)
        ensures
            final(self).file_format() == file_format,
            final(self).hierarchy() == Some(hierarchy),
            final(self).body() is None,
            final(self).time_table() == old(self).time_table(),
            final(self).params() == old(self).params(),
            announces(r, hierarchy, old(self).params()),
    {
        let announcement = announce(&hierarchy, &self.params);
        self.body = None;
        self.file_format = file_format;
        self.hierarchy = Some(hierarchy);
        announcement
    }

    /// Gives out what was kept to read the body with, once: without a loaded
    /// header, or a second time, it fails and changes nothing.
    pub fn complete_body(&mut self) -> (r: Result<C, LoadError>)
        ensures
            old(self).body() matches Some(c) ==> r == Ok::<C, LoadError>(c),
            old(self).body() is None ==> r == Err::<C, LoadError>(LoadError::NoBodyContinuation),
            final(self).body() is None,
            final(self).file_format() == old(self).file_format(),
            final(self).hierarchy() == old(self).hierarchy(),
            final(self).time_table() == old(self).time_table(),
            final(self).params() == old(self).params(),
    {
        match self.body.take() {
            Some(c) => Ok(c),
            None => Err(LoadError::NoBodyContinuation),
        }
    }

    /// Takes a time table in and reports the figures for the host; what was
    /// kept for a body is dropped.
    pub fn install_time_table(&mut self, table: TimeTable) -> (r: Option<ChunkSizeReport>)
        ensures
            final(self).time_table() == Some(table),
            final(self).body() is None,
            final(self).file_format() == old(self).file_format(),
            final(self).hierarchy() == old(self).hierarchy(),
            final(self).params() == old(self).params(),
            old(self).hierarchy() is Some ==> final(self).state() == LoadState::BodyLoaded,
            r is Some <==> table@.len() > 0,
            r matches Some(rep) ==> rep.min_span == chunk_size_heuristic(table@)
                && rep.extended_end == reported_end(table@) && rep.event_count == table@.len(),
    {
        let report = table.analyze();
        self.body = None;
        self.time_table = Some(table);
        report
    }

    /// Takes in the first values of the signals that were loaded for the
    /// parameters: those with a value make up the table of constants.
    pub fn load_parameters(&mut self, loaded: &Vec<(u32, Option<String>)>)
        ensures
            final(self).params() == with_values(loaded@, loaded@.len()),
            final(self).file_format() == old(self).file_format(),
            final(self).hierarchy() == old(self).hierarchy(),
            final(self).body() == old(self).body(),
            final(self).time_table() == old(self).time_table(),
    {
        self.params = parameter_table(loaded);
    }

    /// Drops everything that is loaded.
    pub fn unload(&mut self)
        ensures
            final(self).is_clear(),
            final(self).state() == LoadState::Unloaded,
    {
        self.body = None;
        self.time_table = None;
        self.hierarchy = None;
        self.params = Vec::new();
        self.file_format = FileFormat::Unknown;
    }

    /// The hierarchy, once a header is loaded.
    pub fn loaded_hierarchy(&self) -> (r: Option<&HierarchyIndex>)
        ensures
            r matches Some(h) ==> self.hierarchy() == Some(*h),
            r is None ==> self.hierarchy() is None,
    {
        self.hierarchy.as_ref()
    }

    /// The time table, once there is one.
    pub fn loaded_time_table(&self) -> (r: Option<&TimeTable>)
        ensures
            r matches Some(t) ==> self.time_table() == Some(*t),
            r is None ==> self.time_table() is None,
    {
        self.time_table.as_ref()
    }

    /// The constants of the parameters.
    pub fn loaded_params(&self) -> (r: &Vec<(u32, String)>)
        ensures
            r@ == self.params(),
    {
        &self.params
    }

    /// One page of the children of a scope; the empty page with nothing
    /// remaining while no hierarchy is loaded.
    pub fn get_children(&self, id: u32, start: u32) -> (page: ChildrenPage)
        ensures
            match self.hierarchy() {
                None => page.scopes@.len() == 0 && page.vars@.len() == 0 && page.total_returned
                    == 0 && page.remaining_items == 0,
                Some(h) => if (id as int) >= h.scopes().len() {
                    page.scopes@.len() == 0 && page.vars@.len() == 0 && page.total_returned == 0
                        && page.remaining_items == 0
                } else {
                    let sizes = child_sizes(h.scopes(), h.vars(), self.params(), id);
                    &&& page.total_returned == page_len(sizes, start as nat)
                    &&& page.remaining_items == remaining_after(sizes, start as nat)
                    &&& page_holds(
                        page,
                        h.scopes(),
                        h.vars(),
                        self.params(),
                        id,
                        start as int,
                        page_len(sizes, start as nat) as int,
                    )
                    &&& (start as int) < sizes.len() && PAGE_HEADER + sizes[start as int]
                        <= MAX_RETURN_LENGTH ==> page_bytes(sizes, start as nat)
                        <= MAX_RETURN_LENGTH
                    &&& page.remaining_items > 0 ==> page_bytes(sizes, start as nat) + sizes[start
                        + page.total_returned] > MAX_RETURN_LENGTH
                },
            },
    {
        match &self.hierarchy {
            Some(h) => h.get_children(&self.params, id, start),
            None => ChildrenPage {
                scopes: Vec::new(),
                vars: Vec::new(),
                total_returned: 0,
                remaining_items: 0,
            },
        }
    }
}

/// The announcement is that of the hierarchy: its metadata, and the
/// descriptors of its top-level scopes and variables.
pub open spec fn announces(a: HeaderAnnouncement, h: HierarchyIndex, params: Seq<(u32, String)>)
    -> bool {
    &&& a.metadata.scope_count == h.scopes().len()
    &&& a.metadata.var_count == h.vars().len()
    &&& a.metadata.timescale_factor == match h.timescale() {
        Some(t) => t.factor,
        None => 1,
    }
    &&& a.metadata.timescale_unit@ == match h.timescale() {
        Some(t) => unit_name(t.unit),
        None => "s"@,
    }
    &&& a.scopes@.len() == h.top_scopes().len()
    &&& forall|i: int|
        0 <= i < a.scopes@.len() ==> #[trigger] a.scopes@[i] == scope_data_of(
            h.scopes(),
            h.top_scopes()[i],
        )
    &&& a.vars@.len() == h.top_vars().len()
    &&& forall|i: int|
        0 <= i < a.vars@.len() ==> #[trigger] a.vars@[i] == var_data_of(
            h.vars(),
            params,
            h.top_vars()[i],
        )
}

/// What the host is told of a hierarchy: its metadata and its top level.
pub fn announce(hierarchy: &HierarchyIndex, params: &Vec<(u32, String)>) -> (r: HeaderAnnouncement)
    ensures
        announces(r, *hierarchy, params@),
{
    let metadata = hierarchy.metadata();
    let (scopes, vars) = hierarchy.top_level(params);
    HeaderAnnouncement { metadata, scopes, vars }
}

} // verus!
