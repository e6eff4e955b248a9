use dev_launcher::{AppError, ProcessManager, ServiceSpec, ServiceStatus};

fn spec_for(project: &str, service: &str, command: &str) -> ServiceSpec {
    ServiceSpec {
        project_id: project.to_string(),
        service_id: service.to_string(),
        name: "Frontend".to_string(),
        path: "/tmp".to_string(),
        command: command.to_string(),
        detect_url: true,
    }
}

fn status_of(pm: &ProcessManager, id: &str) -> Option<ServiceStatus> {
    pm.status()
        .services
        .into_iter()
        .find(|(k, _)| k == id)
        .map(|(_, st)| st)
}

#[test]
fn start_plan_tokenizes_command() {
    let pm = ProcessManager::new();
    let plan = pm
        .plan_start(&spec_for("proj", "front", "pnpm run dev --host"))
        .expect("start should be planned");
    assert_eq!(plan.composite_id, "proj:front");
    assert_eq!(plan.program, "pnpm");
    assert_eq!(plan.args, vec!["run".to_string(), "dev".to_string(), "--host".to_string()]);
}

#[test]
fn second_start_refused_while_running() {
    let mut pm = ProcessManager::new();
    let plan = pm
        .plan_start(&spec_for("proj", "front", "pnpm dev"))
        .expect("first start should be planned");
    pm.register_started(plan.composite_id.as_str(), 4242);

    let second = pm.plan_start(&spec_for("proj", "front", "pnpm dev"));
    match second {
        Err(AppError::ServiceAlreadyRunning { service_id }) => {
            assert_eq!(service_id, "front");
        }
        other => panic!("expected ServiceAlreadyRunning, got {:?}", other),
    }
    let st = status_of(&pm, "proj:front").expect("slot should be known");
    assert!(st.running, "the first process must stay recorded as running");
}

#[test]
fn whitespace_command_is_empty_command() {
    let pm = ProcessManager::new();
    let r = pm.plan_start(&spec_for("proj", "front", "  \t   "));
    assert!(matches!(r, Err(AppError::EmptyCommand)));
    assert!(
        pm.status().services.is_empty(),
        "no record may be created for a refused start"
    );
}

#[test]
fn status_reports_running_after_start() {
    let mut pm = ProcessManager::new();
    let plan = pm.plan_start(&spec_for("proj", "front", "pnpm dev")).unwrap();
    pm.register_started(plan.composite_id.as_str(), 7);
    let st = status_of(&pm, "proj:front").expect("slot should be known");
    assert!(st.running);
}

#[test]
fn status_running_until_exit() {
    let mut pm = ProcessManager::new();
    let plan = pm.plan_start(&spec_for("proj", "front", "pnpm dev")).unwrap();
    pm.register_started(plan.composite_id.as_str(), 7);
    assert_eq!(pm.poll_check("proj:front"), Some(7));
    assert!(status_of(&pm, "proj:front").unwrap().running);

    pm.record_url("proj:front", "http://localhost:5173/");
    pm.on_process_exit("proj:front");
    let st = status_of(&pm, "proj:front").expect("slot stays known after exit");
    assert!(!st.running);
    assert!(st.url.is_none(), "the URL entry leaves with the process");
    assert_eq!(pm.poll_check("proj:front"), None, "polling ends once the handle is gone");
}

#[test]
fn stop_clears_running_and_url() {
    let mut pm = ProcessManager::new();
    let plan = pm.plan_start(&spec_for("proj", "front", "pnpm dev")).unwrap();
    pm.register_started(plan.composite_id.as_str(), 99);
    pm.record_url("proj:front", "http://localhost:5173/");
    assert_eq!(
        status_of(&pm, "proj:front").unwrap().url.as_deref(),
        Some("http://localhost:5173/")
    );

    let pid = pm.begin_stop("proj:front");
    assert_eq!(pid, Some(99), "stop takes the live handle");
    pm.finish_stop("proj:front");

    let st = status_of(&pm, "proj:front").expect("slot stays known after stop");
    assert!(!st.running);
    assert!(st.url.is_none());
}

#[test]
fn stop_without_running_process_is_noop() {
    let mut pm = ProcessManager::new();
    assert_eq!(pm.begin_stop("proj:never-started"), None);
    assert!(pm.status().services.is_empty());

    let plan = pm.plan_start(&spec_for("proj", "front", "pnpm dev")).unwrap();
    pm.register_started(plan.composite_id.as_str(), 5);
    let stopped = pm.begin_stop("proj:front");
    assert_eq!(stopped, Some(5));
    pm.finish_stop("proj:front");

    let before: Vec<(String, bool)> = pm
        .status()
        .services
        .into_iter()
        .map(|(k, st)| (k, st.running))
        .collect();
    assert_eq!(pm.begin_stop("proj:front"), None, "a second stop finds no handle");
    let after: Vec<(String, bool)> = pm
        .status()
        .services
        .into_iter()
        .map(|(k, st)| (k, st.running))
        .collect();
    assert_eq!(before, after, "a no-op stop changes no status");
}

#[test]
fn start_again_after_stop() {
    let mut pm = ProcessManager::new();
    let plan = pm.plan_start(&spec_for("proj", "front", "pnpm dev")).unwrap();
    pm.register_started(plan.composite_id.as_str(), 5);
    pm.begin_stop("proj:front");
    pm.finish_stop("proj:front");
    let plan2 = pm
        .plan_start(&spec_for("proj", "front", "pnpm dev"))
        .expect("a stopped slot may start again");
    pm.register_started(plan2.composite_id.as_str(), 6);
    assert!(status_of(&pm, "proj:front").unwrap().running);
}

#[test]
fn active_children_lists_live_handles() {
    let mut pm = ProcessManager::new();
    let a = pm.plan_start(&spec_for("proj", "front", "pnpm dev")).unwrap();
    pm.register_started(a.composite_id.as_str(), 11);
    let b = pm.plan_start(&spec_for("proj", "back", "pnpm start:dev")).unwrap();
    pm.register_started(b.composite_id.as_str(), 22);
    pm.begin_stop("proj:back");

    let pids = pm.active_children();
    assert_eq!(pids, vec![11], "only slots with a live handle are listed");
}

#[test]
fn separate_slots_do_not_interfere() {
    let mut pm = ProcessManager::new();
    let a = pm.plan_start(&spec_for("proj", "front", "pnpm dev")).unwrap();
    pm.register_started(a.composite_id.as_str(), 1);
    let b = pm.plan_start(&spec_for("proj", "back", "pnpm start:dev")).unwrap();
    pm.register_started(b.composite_id.as_str(), 2);

    pm.begin_stop("proj:front");
    pm.finish_stop("proj:front");

    assert!(!status_of(&pm, "proj:front").unwrap().running);
    assert!(status_of(&pm, "proj:back").unwrap().running);
}
