//! The build pipeline orchestrator.
//!
//! A build run is a strict, fixed sequence of passes. Whole-system passes run
//! once each: spec parse, topological order, address assignment, properties,
//! resource tables; then the per-component generation loop visits every
//! component in the *reverse* of the dependency order, deriving parameters,
//! the object artifact and the invocation table of each; two finalization
//! passes assemble the constructor image and export the dependency graph.
//!
//! The orchestrator is split in two verified halves:
//!
//! * [`SystemState`] is the append-only aggregate of pass outputs: each fact
//!   is attached exactly once, only after the passes it depends on, and never
//!   changes afterwards;
//! * [`PipelinePhase`] with [`next_action`] and [`advance`] is the state
//!   machine that decides which pass runs next and how a pass's success or
//!   failure moves the run forward; a failing core pass aborts the run, the
//!   best-effort object analysis never does.
//!
//! The passes themselves other than address assignment are external
//! collaborators: the surrounding program performs each action and reports
//! back whether it succeeded.

use vstd::prelude::*;
use crate::address_assignment::AddressAssignmentx86_64;
use crate::registry::{ComponentId, Registry};

verus! {

/// The parsed declarative system description, as far as the pipeline's own
/// decisions read it: the address-space grouping. `components` lists the
/// declared component names; a component outside every group is exclusive.
pub struct ParsedSpec {
    pub components: Vec<String>,
    pub groups: Vec<crate::address_assignment::AddressSpaceGroup>,
    pub exclusives: Vec<crate::address_assignment::ExclusiveComponent>,
}

/// Output of the external properties pass.
pub struct Properties {
    pub data: String,
}

/// Output of the external resource-table assignment pass.
pub struct ResourceTables {
    pub data: String,
}

/// Per-component output of the external parameter derivation pass.
pub struct Parameters {
    pub data: String,
}

/// Per-component output of the external object-construction pass; `path`
/// locates the artifact for the best-effort analyzer.
pub struct ObjectArtifact {
    pub path: String,
}

/// Per-component output of the external invocation-table pass.
pub struct InvocationsDesc {
    pub data: String,
}

/// Output of the external final-image constructor pass.
pub struct Constructor {
    pub image_path: String,
}

/// Output of the external dependency-graph export pass.
pub struct GraphExport {
    pub data: String,
}

/// The append-only aggregate of one build run: one field per pass output.
/// A field is attached exactly once, only after every pass it reads from has
/// attached its own output, and is immutable from then on; the attach
/// contracts make that order a checked invariant rather than a convention.
pub struct SystemState {
    spec_file: String,
    parsed: Option<ParsedSpec>,
    named: Option<Registry>,
    address_assign: Option<AddressAssignmentx86_64>,
    properties: Option<Properties>,
    restbls: Option<ResourceTables>,
    params: Vec<Option<Parameters>>,
    objs: Vec<Option<ObjectArtifact>>,
    invs: Vec<Option<InvocationsDesc>>,
    constructor: Option<Constructor>,
    graph: Option<GraphExport>,
}

impl SystemState {
    pub closed spec fn spec_input_file(&self) -> Seq<char> {
        self.spec_file@
    }

    pub closed spec fn spec_parsed(&self) -> Option<ParsedSpec> {
        self.parsed
    }

    pub closed spec fn spec_named(&self) -> Option<Registry> {
        self.named
    }

    pub closed spec fn spec_address_assign(&self) -> Option<AddressAssignmentx86_64> {
        self.address_assign
    }

    pub closed spec fn spec_properties(&self) -> Option<Properties> {
        self.properties
    }

    pub closed spec fn spec_restbls(&self) -> Option<ResourceTables> {
        self.restbls
    }

    pub closed spec fn spec_params(&self) -> Seq<Option<Parameters>> {
        self.params@
    }

    pub closed spec fn spec_objs(&self) -> Seq<Option<ObjectArtifact>> {
        self.objs@
    }

    pub closed spec fn spec_invs(&self) -> Seq<Option<InvocationsDesc>> {
        self.invs@
    }

    pub closed spec fn spec_constructor(&self) -> Option<Constructor> {
        self.constructor
    }

    pub closed spec fn spec_graph(&self) -> Option<GraphExport> {
        self.graph
    }

    /// A fresh aggregate for one run over the given system description file:
    /// nothing is attached yet.
    pub fn new(spec_file: String) -> (s: SystemState)
        ensures
            s.spec_input_file() == spec_file@,
            s.spec_parsed() is None,
            s.spec_named() is None,
            s.spec_address_assign() is None,
            s.spec_properties() is None,
            s.spec_restbls() is None,
            s.spec_params() == Seq::<Option<Parameters>>::empty(),
            s.spec_objs() == Seq::<Option<ObjectArtifact>>::empty(),
            s.spec_invs() == Seq::<Option<InvocationsDesc>>::empty(),
            s.spec_constructor() is None,
            s.spec_graph() is None,
    {
        let s = SystemState {
            spec_file,
            parsed: None,
            named: None,
            address_assign: None,
            properties: None,
            restbls: None,
            params: Vec::new(),
            objs: Vec::new(),
            invs: Vec::new(),
            constructor: None,
            graph: None,
        };
        proof {
            assert(s.params@ =~= Seq::<Option<Parameters>>::empty());
            assert(s.objs@ =~= Seq::<Option<ObjectArtifact>>::empty());
            assert(s.invs@ =~= Seq::<Option<InvocationsDesc>>::empty());
        }
        s
    }

    /// Attaches the parsed system description: the first pass of a run.
    pub fn add_parsed(&mut self, p: ParsedSpec)
        requires
            old(self).spec_parsed() is None,
        ensures
            final(self).spec_parsed() == Some(p),
            final(self).spec_input_file() == old(self).spec_input_file(),
            final(self).spec_named() == old(self).spec_named(),
            final(self).spec_address_assign() == old(self).spec_address_assign(),
            final(self).spec_properties() == old(self).spec_properties(),
            final(self).spec_restbls() == old(self).spec_restbls(),
            final(self).spec_params() == old(self).spec_params(),
            final(self).spec_objs() == old(self).spec_objs(),
            final(self).spec_invs() == old(self).spec_invs(),
            final(self).spec_constructor() == old(self).spec_constructor(),
            final(self).spec_graph() == old(self).spec_graph(),
    {
        self.parsed = Some(p);
    }

    /// Attaches the name-resolved, ordered registry and sizes the
    /// per-component tables, one empty slot per component.
    pub fn add_named(&mut self, reg: Registry)
        requires
            old(self).spec_parsed() is Some,
            old(self).spec_named() is None,
        ensures
            final(self).spec_named() == Some(reg),
            final(self).spec_params().len() == reg@.len(),
            final(self).spec_objs().len() == reg@.len(),
            final(self).spec_invs().len() == reg@.len(),
            forall|i: int| 0 <= i < reg@.len() ==> final(self).spec_params()[i] is None,
            forall|i: int| 0 <= i < reg@.len() ==> final(self).spec_objs()[i] is None,
            forall|i: int| 0 <= i < reg@.len() ==> final(self).spec_invs()[i] is None,
            final(self).spec_input_file() == old(self).spec_input_file(),
            final(self).spec_parsed() == old(self).spec_parsed(),
            final(self).spec_address_assign() == old(self).spec_address_assign(),
            final(self).spec_properties() == old(self).spec_properties(),
            final(self).spec_restbls() == old(self).spec_restbls(),
            final(self).spec_constructor() == old(self).spec_constructor(),
            final(self).spec_graph() == old(self).spec_graph(),
    {
        let n = reg.len();
        let mut params: Vec<Option<Parameters>> = Vec::new();
        let mut objs: Vec<Option<ObjectArtifact>> = Vec::new();
        let mut invs: Vec<Option<InvocationsDesc>> = Vec::new();
        let mut i: usize = 0;
        while i < n
            invariant
                params@.len() == i <= n,
                objs@.len() == i,
                invs@.len() == i,
                forall|q: int| 0 <= q < i ==> params@[q] is None,
                forall|q: int| 0 <= q < i ==> objs@[q] is None,
                forall|q: int| 0 <= q < i ==> invs@[q] is None,
            decreases n - i,
        {
            params.push(None);
            objs.push(None);
            invs.push(None);
            i += 1;
        }
        self.named = Some(reg);
        self.params = params;
        self.objs = objs;
        self.invs = invs;
    }

    /// Attaches the address assignment; it must cover exactly the registry.
    pub fn add_address_assign(&mut self, a: AddressAssignmentx86_64)
        requires
            old(self).spec_named() is Some,
            old(self).spec_address_assign() is None,
            a@.len() == old(self).spec_named()->0@.len(),
        ensures
            final(self).spec_address_assign() == Some(a),
            final(self).spec_input_file() == old(self).spec_input_file(),
            final(self).spec_parsed() == old(self).spec_parsed(),
            final(self).spec_named() == old(self).spec_named(),
            final(self).spec_properties() == old(self).spec_properties(),
            final(self).spec_restbls() == old(self).spec_restbls(),
            final(self).spec_params() == old(self).spec_params(),
            final(self).spec_objs() == old(self).spec_objs(),
            final(self).spec_invs() == old(self).spec_invs(),
            final(self).spec_constructor() == old(self).spec_constructor(),
            final(self).spec_graph() == old(self).spec_graph(),
    {
        self.address_assign = Some(a);
    }

    /// Attaches the properties pass output.
    pub fn add_properties(&mut self, p: Properties)
        requires
            old(self).spec_address_assign() is Some,
            old(self).spec_properties() is None,
        ensures
            final(self).spec_properties() == Some(p),
            final(self).spec_input_file() == old(self).spec_input_file(),
            final(self).spec_parsed() == old(self).spec_parsed(),
            final(self).spec_named() == old(self).spec_named(),
            final(self).spec_address_assign() == old(self).spec_address_assign(),
            final(self).spec_restbls() == old(self).spec_restbls(),
            final(self).spec_params() == old(self).spec_params(),
            final(self).spec_objs() == old(self).spec_objs(),
            final(self).spec_invs() == old(self).spec_invs(),
            final(self).spec_constructor() == old(self).spec_constructor(),
            final(self).spec_graph() == old(self).spec_graph(),
    {
        self.properties = Some(p);
    }

    /// Attaches the resource-table assignment output.
    pub fn add_restbls(&mut self, r: ResourceTables)
        requires
            old(self).spec_properties() is Some,
            old(self).spec_restbls() is None,
        ensures
            final(self).spec_restbls() == Some(r),
            final(self).spec_input_file() == old(self).spec_input_file(),
            final(self).spec_parsed() == old(self).spec_parsed(),
            final(self).spec_named() == old(self).spec_named(),
            final(self).spec_address_assign() == old(self).spec_address_assign(),
            final(self).spec_properties() == old(self).spec_properties(),
            final(self).spec_params() == old(self).spec_params(),
            final(self).spec_objs() == old(self).spec_objs(),
            final(self).spec_invs() == old(self).spec_invs(),
            final(self).spec_constructor() == old(self).spec_constructor(),
            final(self).spec_graph() == old(self).spec_graph(),
    {
        self.restbls = Some(r);
    }

    /// Attaches the derived parameters of one component, once.
    pub fn add_params_iter(&mut self, id: &ComponentId, p: Parameters)
        requires
            old(self).spec_restbls() is Some,
            id.id < old(self).spec_params().len(),
            old(self).spec_params()[id.id as int] is None,
        ensures
            final(self).spec_params() == old(self).spec_params().update(id.id as int, Some(p)),
            final(self).spec_input_file() == old(self).spec_input_file(),
            final(self).spec_parsed() == old(self).spec_parsed(),
            final(self).spec_named() == old(self).spec_named(),
            final(self).spec_address_assign() == old(self).spec_address_assign(),
            final(self).spec_properties() == old(self).spec_properties(),
            final(self).spec_restbls() == old(self).spec_restbls(),
            final(self).spec_objs() == old(self).spec_objs(),
            final(self).spec_invs() == old(self).spec_invs(),
            final(self).spec_constructor() == old(self).spec_constructor(),
            final(self).spec_graph() == old(self).spec_graph(),
    {
        self.params[id.id] = Some(p);
    }

    /// Attaches the object artifact of one component; its parameters must
    /// already stand.
    pub fn add_objs_iter(&mut self, id: &ComponentId, o: ObjectArtifact)
        requires
            id.id < old(self).spec_params().len(),
            old(self).spec_params()[id.id as int] is Some,
            id.id < old(self).spec_objs().len(),
            old(self).spec_objs()[id.id as int] is None,
        ensures
            final(self).spec_objs() == old(self).spec_objs().update(id.id as int, Some(o)),
            final(self).spec_input_file() == old(self).spec_input_file(),
            final(self).spec_parsed() == old(self).spec_parsed(),
            final(self).spec_named() == old(self).spec_named(),
            final(self).spec_address_assign() == old(self).spec_address_assign(),
            final(self).spec_properties() == old(self).spec_properties(),
            final(self).spec_restbls() == old(self).spec_restbls(),
            final(self).spec_params() == old(self).spec_params(),
            final(self).spec_invs() == old(self).spec_invs(),
            final(self).spec_constructor() == old(self).spec_constructor(),
            final(self).spec_graph() == old(self).spec_graph(),
    {
        self.objs[id.id] = Some(o);
    }

    /// Attaches the invocation table of one component; its object must
    /// already stand.
    pub fn add_invs_iter(&mut self, id: &ComponentId, v: InvocationsDesc)
        requires
            id.id < old(self).spec_objs().len(),
            old(self).spec_objs()[id.id as int] is Some,
            id.id < old(self).spec_invs().len(),
            old(self).spec_invs()[id.id as int] is None,
        ensures
            final(self).spec_invs() == old(self).spec_invs().update(id.id as int, Some(v)),
            final(self).spec_input_file() == old(self).spec_input_file(),
            final(self).spec_parsed() == old(self).spec_parsed(),
            final(self).spec_named() == old(self).spec_named(),
            final(self).spec_address_assign() == old(self).spec_address_assign(),
            final(self).spec_properties() == old(self).spec_properties(),
            final(self).spec_restbls() == old(self).spec_restbls(),
            final(self).spec_params() == old(self).spec_params(),
            final(self).spec_objs() == old(self).spec_objs(),
            final(self).spec_constructor() == old(self).spec_constructor(),
            final(self).spec_graph() == old(self).spec_graph(),
    {
        self.invs[id.id] = Some(v);
    }

    /// Attaches the final constructor: only once every component's
    /// invocation table stands, since the image needs them all.
    pub fn add_constructor(&mut self, c: Constructor)
        requires
            old(self).spec_restbls() is Some,
            forall|i: int|
                0 <= i < old(self).spec_invs().len() ==> old(self).spec_invs()[i] is Some,
            old(self).spec_constructor() is None,
        ensures
            final(self).spec_constructor() == Some(c),
            final(self).spec_input_file() == old(self).spec_input_file(),
            final(self).spec_parsed() == old(self).spec_parsed(),
            final(self).spec_named() == old(self).spec_named(),
            final(self).spec_address_assign() == old(self).spec_address_assign(),
            final(self).spec_properties() == old(self).spec_properties(),
            final(self).spec_restbls() == old(self).spec_restbls(),
            final(self).spec_params() == old(self).spec_params(),
            final(self).spec_objs() == old(self).spec_objs(),
            final(self).spec_invs() == old(self).spec_invs(),
            final(self).spec_graph() == old(self).spec_graph(),
    {
        self.constructor = Some(c);
    }

    /// Attaches the exported dependency graph: the last pass of a run.
    pub fn add_graph(&mut self, g: GraphExport)
        requires
            old(self).spec_constructor() is Some,
            old(self).spec_graph() is None,
        ensures
            final(self).spec_graph() == Some(g),
            final(self).spec_input_file() == old(self).spec_input_file(),
            final(self).spec_parsed() == old(self).spec_parsed(),
            final(self).spec_named() == old(self).spec_named(),
            final(self).spec_address_assign() == old(self).spec_address_assign(),
            final(self).spec_properties() == old(self).spec_properties(),
            final(self).spec_restbls() == old(self).spec_restbls(),
            final(self).spec_params() == old(self).spec_params(),
            final(self).spec_objs() == old(self).spec_objs(),
            final(self).spec_invs() == old(self).spec_invs(),
            final(self).spec_constructor() == old(self).spec_constructor(),
    {
        self.graph = Some(g);
    }

    /// The system description file this run builds.
    pub fn input_file(&self) -> (f: &String)
        ensures
            f@ == self.spec_input_file(),
    {
        &self.spec_file
    }

    /// The parsed system description; the parse pass has attached it.
    pub fn get_spec(&self) -> (p: &ParsedSpec)
        requires
            self.spec_parsed() is Some,
        ensures
            Some(*p) == self.spec_parsed(),
    {
        self.parsed.as_ref().unwrap()
    }

    /// The ordered registry; the ordering pass has attached it.
    pub fn get_named(&self) -> (r: &Registry)
        requires
            self.spec_named() is Some,
        ensures
            Some(*r) == self.spec_named(),
    {
        self.named.as_ref().unwrap()
    }

    /// The address assignment; the address pass has attached it.
    pub fn get_address_assign(&self) -> (a: &AddressAssignmentx86_64)
        requires
            self.spec_address_assign() is Some,
        ensures
            Some(*a) == self.spec_address_assign(),
    {
        self.address_assign.as_ref().unwrap()
    }

    /// The properties output; its pass has attached it.
    pub fn get_properties(&self) -> (p: &Properties)
        requires
            self.spec_properties() is Some,
        ensures
            Some(*p) == self.spec_properties(),
    {
        self.properties.as_ref().unwrap()
    }

    /// The resource tables; their pass has attached them.
    pub fn get_restbls(&self) -> (r: &ResourceTables)
        requires
            self.spec_restbls() is Some,
        ensures
            Some(*r) == self.spec_restbls(),
    {
        self.restbls.as_ref().unwrap()
    }

    /// One component's derived parameters, once attached.
    pub fn get_params(&self, id: &ComponentId) -> (p: &Parameters)
        requires
            id.id < self.spec_params().len(),
            self.spec_params()[id.id as int] is Some,
        ensures
            Some(*p) == self.spec_params()[id.id as int],
    {
        self.params[id.id].as_ref().unwrap()
    }

    /// One component's object artifact, once attached.
    pub fn get_obj(&self, id: &ComponentId) -> (o: &ObjectArtifact)
        requires
            id.id < self.spec_objs().len(),
            self.spec_objs()[id.id as int] is Some,
        ensures
            Some(*o) == self.spec_objs()[id.id as int],
    {
        self.objs[id.id].as_ref().unwrap()
    }

    /// One component's invocation table, once attached.
    pub fn get_invs(&self, id: &ComponentId) -> (v: &InvocationsDesc)
        requires
            id.id < self.spec_invs().len(),
            self.spec_invs()[id.id as int] is Some,
        ensures
            Some(*v) == self.spec_invs()[id.id as int],
    {
        self.invs[id.id].as_ref().unwrap()
    }

    /// The assembled constructor, once attached.
    pub fn get_constructor(&self) -> (c: &Constructor)
        requires
            self.spec_constructor() is Some,
        ensures
            Some(*c) == self.spec_constructor(),
    {
        self.constructor.as_ref().unwrap()
    }

    /// The exported dependency graph, once attached.
    pub fn get_graph(&self) -> (g: &GraphExport)
        requires
            self.spec_graph() is Some,
        ensures
            Some(*g) == self.spec_graph(),
    {
        self.graph.as_ref().unwrap()
    }
}

/// Runs the address-assignment pass against the aggregate: reads the parsed
/// grouping and the ordered registry, and attaches the resulting mapping.
///
/// Success and failure are exactly those of
/// [`AddressAssignmentx86_64::transition`]; on failure nothing is attached
/// and the aggregate is unchanged, so the run can only abort.
pub fn run_address_assignment(sys: &mut SystemState) -> (r: Result<
    Vec<crate::address_assignment::Warning>,
    crate::address_assignment::AssignError,
>)
    requires
        old(sys).spec_parsed() is Some,
        old(sys).spec_named() is Some,
        old(sys).spec_named()->0.wf(),
        old(sys).spec_address_assign() is None,
        crate::address_assignment::BASE_OFFSET + crate::address_assignment::total_slots(
            crate::address_assignment::groups_of(old(sys).spec_parsed()->0.groups@),
        ) * crate::address_assignment::SLOT_SIZE <= u64::MAX,
    ensures
        ({
            let reg = old(sys).spec_named()->0@;
            let gv = crate::address_assignment::groups_of(old(sys).spec_parsed()->0.groups@);
            let ev = crate::address_assignment::exclusives_of(
                old(sys).spec_parsed()->0.exclusives@,
            );
            &&& (r is Ok <==> (crate::address_assignment::group_names_resolve(reg, gv)
                && crate::address_assignment::exclusive_names_resolve(reg, ev)
                && crate::address_assignment::parents_resolve(gv)
                && crate::address_assignment::placements_unique(gv, ev)
                && crate::address_assignment::covers_registry(reg, gv, ev)))
            &&& r matches Ok(warns) ==> {
                &&& final(sys).spec_address_assign() matches Some(a)
                    && crate::address_assignment::conforms(reg, gv, ev, a@)
                &&& crate::address_assignment::warning_views(warns@)
                    == crate::address_assignment::expected_warnings(ev)
                &&& final(sys).spec_parsed() == old(sys).spec_parsed()
                &&& final(sys).spec_named() == old(sys).spec_named()
            }
            &&& r is Err ==> *final(sys) == *old(sys)
        }),
{
    let outcome = {
        let spec = sys.get_spec();
        let registry = sys.get_named();
        AddressAssignmentx86_64::transition(registry, &spec.groups, &spec.exclusives)
    };
    match outcome {
        Ok((asg, warns)) => {
            sys.add_address_assign(asg);
            Ok(warns)
        },
        Err(e) => Err(e),
    }
}

/// The sub-steps of the per-component generation loop, in their strict
/// order; `Analyze` is the trailing best-effort object analysis.
#[derive(Clone, Copy, PartialEq, Eq, Structural, Debug)]
pub enum GenStep {
    Params,
    Object,
    Invocations,
    Analyze,
}

/// Where a build run stands: which pass has completed last. `Generating`
/// records how many components the loop has finished (`visited` names the
/// current one by its position in the visit order) and the sub-step the
/// current component has completed. `Done` and `Failed` are terminal.
#[derive(Clone, Copy, PartialEq, Eq, Structural, Debug)]
pub enum PipelinePhase {
    Init,
    SpecParsed,
    Ordered,
    AddressAssigned,
    PropertiesComputed,
    ResourcesAssigned,
    Generating { visited: usize, step: GenStep },
    Constructed,
    GraphExported,
    Done,
    Failed,
}

/// What the orchestrator asks the surrounding program to do next. `Stop`
/// means the run is over.
#[derive(Clone, Copy, PartialEq, Eq, Structural, Debug)]
pub enum PipelineAction {
    ParseSpec,
    ComputeOrder,
    AssignAddresses,
    ComputeProperties,
    AssignResources,
    DeriveParameters(ComponentId),
    BuildObject(ComponentId),
    DeriveInvocations(ComponentId),
    AnalyzeObject(ComponentId),
    AssembleConstructor,
    ExportGraph,
    Stop,
}

/// A phase is meaningful for a run over `n` components.
pub open spec fn phase_wf(phase: PipelinePhase, n: nat) -> bool {
    match phase {
        PipelinePhase::Generating { visited, step } => visited < n,
        _ => true,
    }
}

/// The component the generation loop works on at visit position `v`: the
/// loop runs in reverse dependency order, so visit 0 is the component
/// depended upon by nothing (id `n - 1`) and the last visit is the
/// foundational component (id 0).
pub open spec fn visit_component(n: nat, v: nat) -> ComponentId
    recommends
        v < n,
{
    ComponentId { id: (n - 1 - v) as usize }
}

/// The next pass the fixed sequence demands in `phase`, for `n` components.
pub open spec fn next_action_spec(phase: PipelinePhase, n: nat) -> PipelineAction {
    match phase {
        PipelinePhase::Init => PipelineAction::ParseSpec,
        PipelinePhase::SpecParsed => PipelineAction::ComputeOrder,
        PipelinePhase::Ordered => PipelineAction::AssignAddresses,
        PipelinePhase::AddressAssigned => PipelineAction::ComputeProperties,
        PipelinePhase::PropertiesComputed => PipelineAction::AssignResources,
        PipelinePhase::ResourcesAssigned => if n == 0 {
            PipelineAction::AssembleConstructor
        } else {
            PipelineAction::DeriveParameters(visit_component(n, 0))
        },
        PipelinePhase::Generating { visited, step } => match step {
            GenStep::Params => PipelineAction::BuildObject(visit_component(n, visited as nat)),
            GenStep::Object => PipelineAction::DeriveInvocations(
                visit_component(n, visited as nat),
            ),
            GenStep::Invocations => PipelineAction::AnalyzeObject(
                visit_component(n, visited as nat),
            ),
            GenStep::Analyze => if visited + 1 < n {
                PipelineAction::DeriveParameters(visit_component(n, visited as nat + 1))
            } else {
                PipelineAction::AssembleConstructor
            },
        },
        PipelinePhase::Constructed => PipelineAction::ExportGraph,
        PipelinePhase::GraphExported => PipelineAction::Stop,
        PipelinePhase::Done => PipelineAction::Stop,
        PipelinePhase::Failed => PipelineAction::Stop,
    }
}

/// The named failure policy: every core pass aborts the run when it fails;
/// the object analysis is best-effort diagnostics only, and `Stop` performs
/// nothing.
pub open spec fn action_fatal_spec(a: PipelineAction) -> bool {
    match a {
        PipelineAction::AnalyzeObject(_) => false,
        PipelineAction::Stop => false,
        _ => true,
    }
}

/// The phase after performing `next_action_spec(phase, n)` with outcome
/// `ok`: the fixed sequence on success, `Failed` when a fatal pass fails,
/// and unchanged progress when only the best-effort analysis fails.
pub open spec fn advance_spec(phase: PipelinePhase, n: nat, ok: bool) -> PipelinePhase {
    if action_fatal_spec(next_action_spec(phase, n)) && !ok {
        PipelinePhase::Failed
    } else {
        match phase {
            PipelinePhase::Init => PipelinePhase::SpecParsed,
            PipelinePhase::SpecParsed => PipelinePhase::Ordered,
            PipelinePhase::Ordered => PipelinePhase::AddressAssigned,
            PipelinePhase::AddressAssigned => PipelinePhase::PropertiesComputed,
            PipelinePhase::PropertiesComputed => PipelinePhase::ResourcesAssigned,
            PipelinePhase::ResourcesAssigned => if n == 0 {
                PipelinePhase::Constructed
            } else {
                PipelinePhase::Generating { visited: 0, step: GenStep::Params }
            },
            PipelinePhase::Generating { visited, step } => match step {
                GenStep::Params => PipelinePhase::Generating { visited, step: GenStep::Object },
                GenStep::Object => PipelinePhase::Generating {
                    visited,
                    step: GenStep::Invocations,
                },
                GenStep::Invocations => PipelinePhase::Generating {
                    visited,
                    step: GenStep::Analyze,
                },
                GenStep::Analyze => if visited + 1 < n {
                    PipelinePhase::Generating { visited: (visited + 1) as usize, step: GenStep::Params }
                } else {
                    PipelinePhase::Constructed
                },
            },
            PipelinePhase::Constructed => PipelinePhase::GraphExported,
            PipelinePhase::GraphExported => PipelinePhase::Done,
            PipelinePhase::Done => PipelinePhase::Done,
            PipelinePhase::Failed => PipelinePhase::Failed,
        }
    }
}

/// The next pass to run; see [`next_action_spec`].
pub fn next_action(phase: &PipelinePhase, n: usize) -> (a: PipelineAction)
    requires
        phase_wf(*phase, n as nat),
    ensures
        a == next_action_spec(*phase, n as nat),
{
    match *phase {
        PipelinePhase::Init => PipelineAction::ParseSpec,
        PipelinePhase::SpecParsed => PipelineAction::ComputeOrder,
        PipelinePhase::Ordered => PipelineAction::AssignAddresses,
        PipelinePhase::AddressAssigned => PipelineAction::ComputeProperties,
        PipelinePhase::PropertiesComputed => PipelineAction::AssignResources,
        PipelinePhase::ResourcesAssigned => if n == 0 {
            PipelineAction::AssembleConstructor
        } else {
            PipelineAction::DeriveParameters(ComponentId { id: n - 1 })
        },
        PipelinePhase::Generating { visited, step } => {
            match step {
                GenStep::Params => PipelineAction::BuildObject(ComponentId { id: n - 1 - visited }),
                GenStep::Object => PipelineAction::DeriveInvocations(
                    ComponentId { id: n - 1 - visited },
                ),
                GenStep::Invocations => PipelineAction::AnalyzeObject(
                    ComponentId { id: n - 1 - visited },
                ),
                GenStep::Analyze => if visited + 1 < n {
                    PipelineAction::DeriveParameters(ComponentId { id: n - 1 - (visited + 1) })
                } else {
                    PipelineAction::AssembleConstructor
                },
            }
        },
        PipelinePhase::Constructed => PipelineAction::ExportGraph,
        PipelinePhase::GraphExported => PipelineAction::Stop,
        PipelinePhase::Done => PipelineAction::Stop,
        PipelinePhase::Failed => PipelineAction::Stop,
    }
}

/// Whether a failure of `a` aborts the run; see [`action_fatal_spec`].
pub fn action_is_fatal(a: &PipelineAction) -> (b: bool)
    ensures
        b == action_fatal_spec(*a),
{
    match *a {
        PipelineAction::AnalyzeObject(_) => false,
        PipelineAction::Stop => false,
        _ => true,
    }
}

/// Moves the run past the action [`next_action`] gave for `phase`, with
/// outcome `ok`; see [`advance_spec`].
pub fn advance(phase: &PipelinePhase, n: usize, ok: bool) -> (p: PipelinePhase)
    requires
        phase_wf(*phase, n as nat),
    ensures
        p == advance_spec(*phase, n as nat, ok),
        phase_wf(p, n as nat),
{
    let a = next_action(phase, n);
    if action_is_fatal(&a) && !ok {
        return PipelinePhase::Failed;
    }
    match *phase {
        PipelinePhase::Init => PipelinePhase::SpecParsed,
        PipelinePhase::SpecParsed => PipelinePhase::Ordered,
        PipelinePhase::Ordered => PipelinePhase::AddressAssigned,
        PipelinePhase::AddressAssigned => PipelinePhase::PropertiesComputed,
        PipelinePhase::PropertiesComputed => PipelinePhase::ResourcesAssigned,
        PipelinePhase::ResourcesAssigned => if n == 0 {
            PipelinePhase::Constructed
        } else {
            PipelinePhase::Generating { visited: 0, step: GenStep::Params }
        },
        PipelinePhase::Generating { visited, step } => {
            match step {
                GenStep::Params => PipelinePhase::Generating { visited, step: GenStep::Object },
                GenStep::Object => PipelinePhase::Generating {
                    visited,
                    step: GenStep::Invocations,
                },
                GenStep::Invocations => PipelinePhase::Generating {
                    visited,
                    step: GenStep::Analyze,
                },
                GenStep::Analyze => if visited + 1 < n {
                    PipelinePhase::Generating { visited: visited + 1, step: GenStep::Params }
                } else {
                    PipelinePhase::Constructed
                },
            }
        },
        PipelinePhase::Constructed => PipelinePhase::GraphExported,
        PipelinePhase::GraphExported => PipelinePhase::Done,
        PipelinePhase::Done => PipelinePhase::Done,
        PipelinePhase::Failed => PipelinePhase::Failed,
    }
}

/// The visit order of the per-component loop, made explicit: exactly the
/// reverse of the registry's forward dependency order.
pub fn generation_order(n: usize) -> (order: Vec<ComponentId>)
    ensures
        order@.len() == n,
        forall|v: int| 0 <= v < n ==> (#[trigger] order@[v]).id == n - 1 - v,
{
    let mut order: Vec<ComponentId> = Vec::new();
    let mut v: usize = 0;
    while v < n
        invariant
            v <= n,
            order@.len() == v,
            forall|q: int| 0 <= q < v ==> (#[trigger] order@[q]).id == n - 1 - q,
        decreases n - v,
    {
        order.push(ComponentId { id: n - 1 - v });
        v += 1;
    }
    order
}

/// The generation loop visits components in exactly the reverse dependency
/// order: visit `v` works on component `n - 1 - v`, every sub-step of that
/// visit names the same component, and the first visit targets the last
/// component of the forward order.
pub proof fn lemma_generation_visits_reverse(n: nat, v: nat)
    requires
        v < n <= usize::MAX,
    ensures
        visit_component(n, v).id == n - 1 - v,
        next_action_spec(PipelinePhase::Generating { visited: v as usize, step: GenStep::Params }, n)
            == PipelineAction::BuildObject(visit_component(n, v)),
        next_action_spec(PipelinePhase::Generating { visited: v as usize, step: GenStep::Object }, n)
            == PipelineAction::DeriveInvocations(visit_component(n, v)),
        next_action_spec(
            PipelinePhase::Generating { visited: v as usize, step: GenStep::Invocations },
            n,
        ) == PipelineAction::AnalyzeObject(visit_component(n, v)),
        next_action_spec(PipelinePhase::ResourcesAssigned, n) == PipelineAction::DeriveParameters(
            visit_component(n, 0),
        ),
        v + 1 < n ==> next_action_spec(
            PipelinePhase::Generating { visited: v as usize, step: GenStep::Analyze },
            n,
        ) == PipelineAction::DeriveParameters(visit_component(n, v + 1)),
{
}

/// A failed core pass aborts the run: whenever the pending action is fatal
/// and reported failed, the run moves to `Failed`.
pub proof fn lemma_core_failure_aborts(phase: PipelinePhase, n: nat)
    requires
        action_fatal_spec(next_action_spec(phase, n)),
    ensures
        advance_spec(phase, n, false) is Failed,
{
}

/// The best-effort object analysis never aborts the run: where the pending
/// action is not fatal, failure and success move the run the same way.
pub proof fn lemma_best_effort_never_aborts(phase: PipelinePhase, n: nat)
    requires
        !action_fatal_spec(next_action_spec(phase, n)),
    ensures
        advance_spec(phase, n, false) == advance_spec(phase, n, true),
{
}

} // verus!
