use composer::pipeline::{
    advance, generation_order, next_action, Constructor, GenStep, GraphExport, InvocationsDesc,
    ObjectArtifact, Parameters, ParsedSpec, PipelineAction, PipelinePhase, Properties,
    ResourceTables, SystemState,
};
use composer::registry::{ComponentId, Registry};

fn names(list: &[&str]) -> Vec<String> {
    list.iter().map(|s| s.to_string()).collect()
}

#[test]
fn generation_order_is_reverse_of_registry_order() {
    let order = generation_order(3);
    let ids: Vec<usize> = order.iter().map(|c| c.id).collect();
    assert_eq!(ids, vec![2, 1, 0]);
    assert!(generation_order(0).is_empty());
}

#[test]
fn per_component_loop_visits_reverse_order_every_run() {
    // Three components A -> B -> C in forward dependency order: the loop
    // must visit C, then B, then A, identically on every run.
    for _ in 0..2 {
        let n = 3;
        let mut phase = PipelinePhase::Init;
        let mut visited: Vec<usize> = Vec::new();
        loop {
            let action = next_action(&phase, n);
            if let PipelineAction::Stop = action {
                phase = advance(&phase, n, true);
                break;
            }
            if let PipelineAction::DeriveParameters(cid) = action {
                visited.push(cid.id);
            }
            phase = advance(&phase, n, true);
        }
        assert_eq!(visited, vec![2, 1, 0]);
        assert_eq!(phase, PipelinePhase::Done);
    }
}

#[test]
fn pipeline_runs_passes_in_fixed_sequence() {
    let n = 1;
    let mut phase = PipelinePhase::Init;
    let mut log: Vec<PipelineAction> = Vec::new();
    loop {
        let action = next_action(&phase, n);
        if let PipelineAction::Stop = action {
            phase = advance(&phase, n, true);
            break;
        }
        log.push(action);
        phase = advance(&phase, n, true);
    }
    let cid = ComponentId { id: 0 };
    assert_eq!(
        log,
        vec![
            PipelineAction::ParseSpec,
            PipelineAction::ComputeOrder,
            PipelineAction::AssignAddresses,
            PipelineAction::ComputeProperties,
            PipelineAction::AssignResources,
            PipelineAction::DeriveParameters(cid),
            PipelineAction::BuildObject(cid),
            PipelineAction::DeriveInvocations(cid),
            PipelineAction::AnalyzeObject(cid),
            PipelineAction::AssembleConstructor,
            PipelineAction::ExportGraph,
        ]
    );
    assert_eq!(phase, PipelinePhase::Done);
}

#[test]
fn pipeline_with_no_components_skips_the_generation_loop() {
    let n = 0;
    let mut phase = PipelinePhase::Init;
    let mut saw_generation = false;
    loop {
        let action = next_action(&phase, n);
        match action {
            PipelineAction::Stop => {
                phase = advance(&phase, n, true);
                break;
            }
            PipelineAction::DeriveParameters(_)
            | PipelineAction::BuildObject(_)
            | PipelineAction::DeriveInvocations(_)
            | PipelineAction::AnalyzeObject(_) => saw_generation = true,
            _ => {}
        }
        phase = advance(&phase, n, true);
    }
    assert!(!saw_generation);
    assert_eq!(phase, PipelinePhase::Done);
}

#[test]
fn failed_core_pass_aborts_the_run() {
    let phase = PipelinePhase::Ordered;
    assert_eq!(advance(&phase, 2, false), PipelinePhase::Failed);
    assert_eq!(
        next_action(&PipelinePhase::Failed, 2),
        PipelineAction::Stop
    );
}

#[test]
fn failed_analyzer_does_not_abort_the_run() {
    let phase = PipelinePhase::Generating { visited: 0, step: GenStep::Invocations };
    let after_failure = advance(&phase, 1, false);
    let after_success = advance(&phase, 1, true);
    assert_eq!(after_failure, after_success);
    assert_eq!(after_failure, PipelinePhase::Generating { visited: 0, step: GenStep::Analyze });
}

#[test]
fn address_assignment_step_reads_the_aggregate_and_attaches_the_mapping() {
    let mut sys = SystemState::new("system.toml".to_string());
    sys.add_parsed(ParsedSpec {
        components: names(&["X", "Y", "Z"]),
        groups: vec![composer::address_assignment::AddressSpaceGroup {
            name: "G".to_string(),
            components: names(&["X", "Y"]),
            parent: None,
        }],
        exclusives: vec![composer::address_assignment::ExclusiveComponent {
            name: "Z".to_string(),
            base_vaddr: Some("0x800000".to_string()),
        }],
    });
    sys.add_named(Registry::new(names(&["X", "Y", "Z"])).unwrap());
    let warns = composer::pipeline::run_address_assignment(&mut sys).unwrap();
    assert!(warns.is_empty());
    let asg = sys.get_address_assign();
    assert_eq!(asg.component_baseaddr(&ComponentId { id: 0 }), 0x400000);
    assert_eq!(asg.component_baseaddr(&ComponentId { id: 1 }), 0x400000 + (1u64 << 39));
    assert_eq!(asg.component_baseaddr(&ComponentId { id: 2 }), 0x800000);
}

#[test]
fn aggregate_attaches_and_reads_back_every_pass_output() {
    let mut sys = SystemState::new("system.toml".to_string());
    assert_eq!(sys.input_file().as_str(), "system.toml");

    sys.add_parsed(ParsedSpec {
        components: names(&["boot", "init"]),
        groups: Vec::new(),
        exclusives: Vec::new(),
    });
    assert_eq!(sys.get_spec().components.len(), 2);

    let reg = Registry::new(names(&["boot", "init"])).unwrap();
    let n = reg.len();
    sys.add_named(reg);
    assert_eq!(sys.get_named().len(), 2);

    let groups = Vec::new();
    let exclusives = vec![
        composer::address_assignment::ExclusiveComponent {
            name: "boot".to_string(),
            base_vaddr: None,
        },
        composer::address_assignment::ExclusiveComponent {
            name: "init".to_string(),
            base_vaddr: None,
        },
    ];
    let (asg, _) = composer::address_assignment::AddressAssignmentx86_64::transition(
        sys.get_named(),
        &groups,
        &exclusives,
    )
    .unwrap();
    sys.add_address_assign(asg);
    assert_eq!(sys.get_address_assign().len(), 2);

    sys.add_properties(Properties { data: "properties".to_string() });
    sys.add_restbls(ResourceTables { data: "tables".to_string() });

    for cid in generation_order(n) {
        sys.add_params_iter(&cid, Parameters { data: format!("params:{}", cid.id) });
        sys.add_objs_iter(&cid, ObjectArtifact { path: format!("obj:{}", cid.id) });
        sys.add_invs_iter(&cid, InvocationsDesc { data: format!("invs:{}", cid.id) });
    }
    let first = ComponentId { id: 0 };
    assert_eq!(sys.get_params(&first).data, "params:0");
    assert_eq!(sys.get_obj(&first).path, "obj:0");
    assert_eq!(sys.get_invs(&first).data, "invs:0");

    sys.add_constructor(Constructor { image_path: "image.img".to_string() });
    sys.add_graph(GraphExport { data: "graph".to_string() });
    assert_eq!(sys.get_constructor().image_path, "image.img");
    assert_eq!(sys.get_graph().data, "graph");
    assert_eq!(sys.get_properties().data, "properties");
    assert_eq!(sys.get_restbls().data, "tables");
}
