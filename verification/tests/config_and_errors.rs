use dev_launcher::config::{get_config_dir, get_config_path};
use dev_launcher::{AppError, Config, Project, Service};

fn service(id: &str, command: &str) -> Service {
    Service {
        id: id.to_string(),
        name: id.to_string(),
        path: format!("/srv/{}", id),
        command: command.to_string(),
        detect_url: false,
    }
}

fn sample_config() -> Config {
    Config {
        version: 1,
        active_project: Some("alpha".to_string()),
        projects: vec![
            Project {
                id: "alpha".to_string(),
                name: "Alpha".to_string(),
                services: vec![service("front", "pnpm dev"), service("back", "pnpm start:dev")],
            },
            Project {
                id: "beta".to_string(),
                name: "Beta".to_string(),
                services: vec![service("front", "cargo run")],
            },
        ],
    }
}

#[test]
fn default_config_is_empty_version_one() {
    let c = Config::default();
    assert_eq!(c.version, 1);
    assert!(c.active_project.is_none());
    assert!(c.projects.is_empty());
}

#[test]
fn get_project_finds_by_id() {
    let c = sample_config();
    let p = c.get_project("beta").expect("beta exists");
    assert_eq!(p.name, "Beta");
    assert!(c.get_project("gamma").is_none());
}

#[test]
fn get_project_first_match_wins() {
    let mut c = sample_config();
    c.projects.push(Project {
        id: "alpha".to_string(),
        name: "Shadowed".to_string(),
        services: Vec::new(),
    });
    assert_eq!(c.get_project("alpha").unwrap().name, "Alpha");
}

#[test]
fn get_service_finds_in_matching_project() {
    let c = sample_config();
    let s = c.get_service("alpha", "back").expect("alpha:back exists");
    assert_eq!(s.command, "pnpm start:dev");
    let s = c.get_service("beta", "front").expect("beta:front exists");
    assert_eq!(s.command, "cargo run");
    assert!(c.get_service("alpha", "db").is_none());
    assert!(c.get_service("gamma", "front").is_none());
}

#[test]
fn config_paths_live_under_home() {
    if let Some(dir) = get_config_dir() {
        assert!(dir.ends_with("/.dev-stack-launcher"));
    }
    if let Some(path) = get_config_path() {
        assert!(path.ends_with("/.dev-stack-launcher/config.json"));
    }
}

#[test]
fn error_messages_are_human_readable() {
    assert_eq!(AppError::NoConfigLoaded.message(), "No config loaded");
    assert_eq!(
        AppError::ServiceNotFound { service_id: "front".to_string() }.message(),
        "Service not found: front"
    );
    assert_eq!(
        AppError::ProjectNotFound { project_id: "alpha".to_string() }.message(),
        "Project not found: alpha"
    );
    assert_eq!(
        AppError::ServiceAlreadyRunning { service_id: "front".to_string() }.message(),
        "Service already running: front"
    );
    assert_eq!(AppError::EmptyCommand.message(), "Empty command");
    assert_eq!(
        AppError::ProcessStartFailed {
            service_name: "Frontend".to_string(),
            message: "spawn failed".to_string()
        }
        .message(),
        "Failed to start Frontend: spawn failed"
    );
    assert_eq!(
        AppError::SaveConfig { message: "disk full".to_string() }.message(),
        "Failed to save config: disk full"
    );
    assert_eq!(
        AppError::OpenBrowser { message: "no browser".to_string() }.message(),
        "Failed to open browser: no browser"
    );
}
