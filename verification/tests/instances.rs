use pojde_rs::error::Error;
use pojde_rs::forward::{Address, Direction, ForwardRequest, Tunnel};
use pojde_rs::instances::{Instances, ListQuery, SERVICE_PORT};
use pojde_rs::lifecycle::{Command, Failure, Operation};
use pojde_rs::projection::{ContainerRecord, Instance, PortMapping};
use pojde_rs::stream::{Source, Subscription};

fn record(id: &str, name: &str, state: &str, ports: Vec<(u64, u64)>) -> ContainerRecord {
    ContainerRecord {
        id: id.to_string(),
        names: vec![name.to_string()],
        state: state.to_string(),
        ports: ports
            .into_iter()
            .map(|(private_port, public_port)| PortMapping {
                private_port,
                public_port: Some(public_port),
                protocol: "tcp".to_string(),
            })
            .collect(),
    }
}

fn instance(name: &str, status: &str) -> Instance {
    Instance {
        name: name.to_string(),
        start_port: None,
        end_port: None,
        status: status.to_string(),
        handle: name.to_uppercase(),
    }
}

#[test]
fn default_manager_uses_the_usual_prefix() {
    let manager = Instances::default();
    assert_eq!(manager.prefix(), "pojde-");
    assert_eq!(manager.service_port(), SERVICE_PORT);
    assert_eq!(SERVICE_PORT, 8005);
}

#[test]
fn manager_refuses_a_bad_prefix() {
    assert_eq!(Instances::new("", 22), None);
    assert_eq!(Instances::new("a/b", 22), None);
    let manager = Instances::new("box-", 22).unwrap();
    assert_eq!(manager.prefix(), "box-");
    assert_eq!(manager.service_port(), 22);
}

#[test]
fn manager_names_round_trip() {
    let manager = Instances::new("box-", 22).unwrap();
    for name in ["web", "a-b", "box-", "/lead", ""] {
        let runtime_name = manager.to_runtime_name(name);
        assert_eq!(runtime_name, format!("box-{}", name));
        assert_eq!(manager.from_runtime_name(&runtime_name), Ok(name.to_string()));
        assert_eq!(
            manager.from_runtime_name(&format!("/{}", runtime_name)),
            Ok(name.to_string())
        );
    }
}

#[test]
fn manager_refuses_foreign_names() {
    let manager = Instances::default();
    assert_eq!(manager.from_runtime_name("/nginx"), Err(Error::NotAnInstance));
    assert_eq!(manager.from_runtime_name("/box-web"), Err(Error::NotAnInstance));
}

#[test]
fn list_query_filters_by_slash_and_prefix() {
    assert_eq!(
        Instances::default().list_query(),
        ListQuery { name_filter: "/pojde-".to_string(), include_stopped: true }
    );
}

#[test]
fn get_instances_projects_a_listing() {
    let manager = Instances::default();
    let listing = Ok(vec![
        record("1", "/pojde-web", "running", vec![(8001, 8081), (8000, 8080), (8005, 8085)]),
        record("2", "/traefik", "running", vec![(80, 80)]),
        record("3", "/pojde-db", "exited", Vec::new()),
    ]);
    let instances = manager.get_instances(listing).unwrap();
    assert_eq!(instances.len(), 2);
    assert_eq!(instances[0].name, "web");
    assert_eq!(instances[0].port_range(), Some((8080, 8085)));
    assert_eq!(instances[0].status, "running");
    assert_eq!(instances[1].name, "db");
    assert_eq!(instances[1].port_range(), None);
    assert_eq!(instances[1].status, "exited");
}

#[test]
fn get_instances_hands_a_failure_on() {
    let manager = Instances::default();
    assert_eq!(
        manager.get_instances(Err(Failure::Unavailable("no socket".to_string()))),
        Err(Error::RuntimeUnavailable("no socket".to_string()))
    );
    assert_eq!(
        manager.get_instances(Err(Failure::Refused("bad filter".to_string()))),
        Err(Error::RuntimeRequestFailed("bad filter".to_string()))
    );
    assert_eq!(
        manager.get_instances(Err(Failure::NotFound("page not found".to_string()))),
        Err(Error::RuntimeRequestFailed("page not found".to_string()))
    );
}

#[test]
fn lifecycle_commands_name_the_container() {
    let manager = Instances::default();
    assert_eq!(
        manager.start("web"),
        Command { operation: Operation::Start, container: "pojde-web".to_string() }
    );
    assert_eq!(
        manager.stop("web"),
        Command { operation: Operation::Stop, container: "pojde-web".to_string() }
    );
    assert_eq!(
        manager.restart("web"),
        Command { operation: Operation::Restart, container: "pojde-web".to_string() }
    );
}

#[test]
fn batch_covers_every_name() {
    let manager = Instances::default();
    let names = vec!["a".to_string(), "b".to_string(), "c".to_string()];
    let commands = manager.batch(Operation::Stop, &names);
    let containers: Vec<&str> = commands.iter().map(|c| c.container.as_str()).collect();
    assert_eq!(containers, vec!["pojde-a", "pojde-b", "pojde-c"]);
    assert!(commands.iter().all(|c| c.operation == Operation::Stop));
}

#[test]
fn logs_and_console_subscribe_to_the_container() {
    let manager = Instances::default();
    assert_eq!(
        manager.get_logs("web"),
        Subscription {
            container: "pojde-web".to_string(),
            source: Source::Logs,
            stdout: true,
            stderr: true,
        }
    );
    assert_eq!(
        manager.enter("web"),
        Subscription {
            container: "pojde-web".to_string(),
            source: Source::Console,
            stdout: true,
            stderr: true,
        }
    );
}

#[test]
fn resolve_finds_the_running_instance() {
    let manager = Instances::default();
    let instances = vec![instance("a", "exited"), instance("b", "running")];
    assert_eq!(manager.resolve(&instances, "b").unwrap().handle, "B");
}

#[test]
fn resolve_refuses_a_stopped_instance() {
    let manager = Instances::default();
    let instances = vec![instance("a", "exited"), instance("b", "running")];
    assert_eq!(manager.resolve(&instances, "a"), Err(Error::InstanceNotRunning));
}

#[test]
fn resolve_reports_an_unknown_instance() {
    let manager = Instances::default();
    let instances = vec![instance("a", "exited")];
    assert_eq!(
        manager.resolve(&instances, "zz"),
        Err(Error::InstanceNotFound("zz".to_string()))
    );
}

#[test]
fn forward_runs_through_the_published_service_port() {
    let manager = Instances::default();
    let ports = vec![
        PortMapping { private_port: 8000, public_port: Some(5000), protocol: "tcp".to_string() },
        PortMapping { private_port: 8005, public_port: Some(5005), protocol: "tcp".to_string() },
    ];
    let requests =
        vec![ForwardRequest::parse("localhost:1234:localhost:80", Direction::Local).unwrap()];
    let plan = manager.forward(&instance("web", "running"), &ports, &requests).unwrap();
    assert_eq!(plan.gateway_port, 5005);
    assert_eq!(
        plan.tunnels,
        vec![Tunnel {
            direction: Direction::Local,
            listen: Address { host: "localhost".to_string(), port: 1234 },
            connect: Address { host: "localhost".to_string(), port: 80 },
        }]
    );
}

#[test]
fn forward_fails_without_a_running_instance_or_a_published_port() {
    let manager = Instances::default();
    let ports = vec![PortMapping {
        private_port: 8005,
        public_port: Some(5005),
        protocol: "tcp".to_string(),
    }];
    assert_eq!(
        manager.forward(&instance("web", "paused"), &ports, &Vec::new()),
        Err(Error::InstanceNotRunning)
    );
    assert_eq!(
        manager.forward(&instance("web", "running"), &Vec::new(), &Vec::new()),
        Err(Error::PortNotPublished)
    );
}
