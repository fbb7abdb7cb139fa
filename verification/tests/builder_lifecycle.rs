use springboot::app::AppBuilder;
use springboot::app::ROUTERS_KEY;
use springboot::app::start_run;
use springboot::app::TaskKind;
use springboot::app::WebConfigurator;
use springboot::app::WebStarter;
use springboot::component::Component;
use springboot::config::ConfigTree;
use springboot::config::ConfigValue;
use springboot::errors::BootError;
use springboot::lifecycle::drive;
use springboot::lifecycle::lifecycle_step;
use springboot::lifecycle::run_report;
use springboot::lifecycle::RunOutcome;
use springboot::lifecycle::RunState;
use springboot::lifecycle::StepAction;
use springboot::lifecycle::TaskEvent;
use springboot::route::HandlerSig;
use springboot::route::MethodType;
use springboot::route::route_new;
use springboot::route::RouteArgs;

fn web_config() -> ConfigTree {
    ConfigTree::load(
        vec![
            ("web.port".to_string(), ConfigValue::Number(8080)),
            ("web.graceful".to_string(), ConfigValue::Truth(true)),
            ("web.connect_info".to_string(), ConfigValue::Truth(false)),
        ],
        vec![],
    )
}

fn fragment(path: &str, name: &str) -> Vec<springboot::route::RouteBinding> {
    let args = RouteArgs { path: path.to_string(), options: vec![] };
    let sig = HandlerSig { name: name.to_string(), has_return_type: true };
    let route = route_new(&args, sig, Some(MethodType::Get)).unwrap();
    springboot::route::bindings(&route)
}

#[test]
fn web_starter_schedules_one_serving_task_over_merged_fragments() {
    let mut app = AppBuilder::new(web_config());
    app.add_router(fragment("/a", "a"));
    app.add_router(fragment("/b", "b"));
    let starter = WebStarter;
    app.run_starter(&starter).unwrap();
    let frozen = app.build();
    let tasks = frozen.tasks();
    assert_eq!(tasks.len(), 1);
    assert_eq!(tasks[0].id, 0);
    match &tasks[0].kind {
        TaskKind::Serve(plan) => {
            assert_eq!(plan.server.port, 8080);
            assert!(plan.server.graceful);
            assert!(!plan.server.connect_info);
            assert_eq!(plan.routes.len(), 2);
            assert_eq!(plan.routes[0].path, "/a");
            assert_eq!(plan.routes[1].path, "/b");
        }
        other => panic!("expected a serving task, got {:?}", other),
    }
}

#[test]
fn web_starter_fails_without_a_web_section() {
    let mut app = AppBuilder::new(ConfigTree::load(vec![], vec![]));
    let starter = WebStarter;
    match app.run_starter(&starter) {
        Err(BootError::ConfigMissing { prefix }) => assert_eq!(prefix, "web"),
        other => panic!("expected ConfigMissing, got {:?}", other),
    }
    let frozen = app.build();
    assert!(frozen.tasks().is_empty());
}

#[test]
fn web_starter_rejects_a_port_out_of_range() {
    let mut app = AppBuilder::new(ConfigTree::load(
        vec![
            ("web.port".to_string(), ConfigValue::Number(70000)),
            ("web.graceful".to_string(), ConfigValue::Truth(false)),
            ("web.connect_info".to_string(), ConfigValue::Truth(false)),
        ],
        vec![],
    ));
    let starter = WebStarter;
    match app.run_starter(&starter) {
        Err(BootError::ConfigTypeMismatch { prefix, detail }) => {
            assert_eq!(prefix, "web");
            assert_eq!(detail, "port");
        }
        other => panic!("expected ConfigTypeMismatch, got {:?}", other),
    }
}

#[test]
fn two_contributions_land_in_order_in_one_collection() {
    let mut app = AppBuilder::new(ConfigTree::load(vec![], vec![]));
    app.add_router(fragment("/a", "a"));
    app.add_router(fragment("/b", "b"));
    let group = app.get_group(ROUTERS_KEY).unwrap();
    assert_eq!(group.len(), 2);
    match (&group[0], &group[1]) {
        (Component::Routes(first), Component::Routes(second)) => {
            assert_eq!(first[0].path, "/a");
            assert_eq!(second[0].path, "/b");
        }
        other => panic!("expected two router fragments, got {:?}", other),
    }
    assert!(app.get_group(ROUTERS_KEY + 1).is_none());
    assert!(app.get_component(ROUTERS_KEY).is_none());
}

#[test]
fn sealed_app_still_reads_components_and_groups() {
    let mut app = AppBuilder::new(ConfigTree::load(vec![], vec![]));
    app.add_component(5, Component::Text("svc".to_string())).unwrap();
    app.add_router(fragment("/a", "a"));
    let frozen = app.build();
    assert_eq!(frozen.registry().get(5).unwrap(), &Component::Text("svc".to_string()));
    assert!(frozen.registry().get_group(ROUTERS_KEY).is_some());
}

#[test]
fn start_run_makes_every_scheduled_task_pending() {
    let mut app = AppBuilder::new(web_config());
    app.add_scheduler(TaskKind::Custom("worker-a".to_string()));
    app.add_scheduler(TaskKind::Custom("worker-b".to_string()));
    let frozen = app.build();
    match start_run(&frozen) {
        RunState::Running { pending } => assert_eq!(pending, vec![0, 1]),
        other => panic!("expected Running, got {:?}", other),
    }
}

#[test]
fn a_run_with_no_tasks_completes_at_once() {
    let app = AppBuilder::new(ConfigTree::load(vec![], vec![])).build();
    match start_run(&app) {
        RunState::Terminated { outcome } => assert_eq!(outcome, RunOutcome::AllCompleted),
        other => panic!("expected Terminated, got {:?}", other),
    }
}

#[test]
fn a_failure_is_terminal_while_a_sibling_still_runs() {
    let state = RunState::Running { pending: vec![0, 1] };
    let (state, action) = lifecycle_step(
        state,
        TaskEvent::TaskFailed { task: 0, detail: "bind failed".to_string() },
    );
    assert_eq!(action, StepAction::StopSiblings);
    match state {
        RunState::Terminated { outcome } => {
            assert_eq!(
                outcome,
                RunOutcome::Failed { task: 0, detail: "bind failed".to_string() }
            );
        }
        other => panic!("expected Terminated, got {:?}", other),
    }
}

#[test]
fn completions_drain_the_pending_set_then_terminate() {
    let state = RunState::Running { pending: vec![0, 1] };
    let (state, action) = lifecycle_step(state, TaskEvent::TaskCompleted { task: 1 });
    assert_eq!(action, StepAction::KeepWaiting);
    assert_eq!(state, RunState::Running { pending: vec![0] });
    let (state, _) = lifecycle_step(state, TaskEvent::TaskCompleted { task: 0 });
    assert_eq!(state, RunState::Terminated { outcome: RunOutcome::AllCompleted });
}

#[test]
fn a_shutdown_signal_terminates_gracefully() {
    let state = RunState::Running { pending: vec![0, 1] };
    let (state, action) = lifecycle_step(state, TaskEvent::Shutdown);
    assert_eq!(action, StepAction::StopSiblings);
    assert_eq!(state, RunState::Terminated { outcome: RunOutcome::ShutDown });
}

#[test]
fn a_terminated_run_absorbs_further_events() {
    let state = RunState::Terminated { outcome: RunOutcome::ShutDown };
    let (state, action) = lifecycle_step(state, TaskEvent::TaskCompleted { task: 0 });
    assert_eq!(action, StepAction::KeepWaiting);
    assert_eq!(state, RunState::Terminated { outcome: RunOutcome::ShutDown });
}

#[test]
fn run_report_gives_a_message_or_the_terminal_error() {
    assert_eq!(run_report(RunOutcome::AllCompleted).unwrap(), "all scheduled tasks completed");
    assert_eq!(run_report(RunOutcome::ShutDown).unwrap(), "shut down after signal");
    match run_report(RunOutcome::Failed { task: 3, detail: "boom".to_string() }) {
        Err(BootError::TaskFailure { task, detail }) => {
            assert_eq!(task, 3);
            assert_eq!(detail, "boom");
        }
        other => panic!("expected TaskFailure, got {:?}", other),
    }
}

#[test]
fn a_replayed_run_reports_the_first_failure_and_absorbs_the_rest() {
    let state = RunState::Running { pending: vec![0, 1, 2] };
    let events = vec![
        TaskEvent::TaskCompleted { task: 2 },
        TaskEvent::TaskFailed { task: 0, detail: "boom".to_string() },
        TaskEvent::TaskCompleted { task: 1 },
    ];
    let end = drive(state, &events);
    assert_eq!(
        end,
        RunState::Terminated {
            outcome: RunOutcome::Failed { task: 0, detail: "boom".to_string() }
        }
    );
}

#[test]
fn duplicate_registration_is_rejected_through_the_builder_too() {
    let mut app = AppBuilder::new(ConfigTree::load(vec![], vec![]));
    app.add_component(5, Component::Num(1)).unwrap();
    match app.add_component(5, Component::Num(2)) {
        Err(BootError::DuplicateComponent { type_key }) => assert_eq!(type_key, 5),
        other => panic!("expected DuplicateComponent, got {:?}", other),
    }
    assert_eq!(app.get_component(5).unwrap(), &Component::Num(1));
}
