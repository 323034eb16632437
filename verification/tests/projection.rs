use pojde_rs::error::Error;
use pojde_rs::projection::{
    port_range, ports_label, project, project_all, published_ports, sort_ports, ContainerRecord,
    Instance, PortMapping,
};

fn tcp(private_port: u64, public_port: Option<u64>) -> PortMapping {
    PortMapping { private_port, public_port, protocol: "tcp".to_string() }
}

fn udp(private_port: u64, public_port: Option<u64>) -> PortMapping {
    PortMapping { private_port, public_port, protocol: "udp".to_string() }
}

fn record(id: &str, names: &[&str], state: &str, ports: Vec<PortMapping>) -> ContainerRecord {
    ContainerRecord {
        id: id.to_string(),
        names: names.iter().map(|n| n.to_string()).collect(),
        state: state.to_string(),
        ports,
    }
}

#[test]
fn port_range_spans_lowest_to_highest() {
    let ports = vec![tcp(8001, Some(8081)), tcp(8000, Some(8080)), tcp(8005, Some(8085))];
    assert_eq!(port_range(&ports), Some((8080, 8085)));
}

#[test]
fn port_range_is_absent_without_published_ports() {
    assert_eq!(port_range(&Vec::new()), None);
    assert_eq!(port_range(&vec![tcp(8000, None), tcp(8001, None)]), None);
}

#[test]
fn port_range_of_one_port_is_that_port_twice() {
    assert_eq!(port_range(&vec![tcp(8000, Some(5000))]), Some((5000, 5000)));
}

#[test]
fn unpublished_and_udp_mappings_are_skipped() {
    let ports = vec![
        udp(53, Some(53)),
        tcp(8000, Some(6000)),
        tcp(8001, None),
        udp(8002, Some(9999)),
        tcp(8003, Some(6003)),
    ];
    assert_eq!(published_ports(&ports), vec![6000, 6003]);
    assert_eq!(port_range(&ports), Some((6000, 6003)));
}

#[test]
fn published_ports_keep_the_table_order() {
    let ports = vec![tcp(1, Some(30)), tcp(2, Some(10)), tcp(3, Some(20))];
    assert_eq!(published_ports(&ports), vec![30, 10, 20]);
}

#[test]
fn sort_ports_orders_and_keeps_every_port() {
    assert_eq!(sort_ports(&vec![8081, 8080, 8085]), vec![8080, 8081, 8085]);
    assert_eq!(sort_ports(&vec![3, 1, 3, 2, 1]), vec![1, 1, 2, 3, 3]);
    assert_eq!(sort_ports(&Vec::new()), Vec::<u64>::new());
    assert_eq!(sort_ports(&vec![u64::MAX, 0]), vec![0, u64::MAX]);
}

#[test]
fn project_strips_the_prefix_and_takes_the_state() {
    let r = record(
        "abc123",
        &["/pojde-web"],
        "running",
        vec![tcp(8001, Some(8081)), tcp(8000, Some(8080)), tcp(8005, Some(8085))],
    );
    assert_eq!(
        project("pojde-", &r),
        Ok(Instance {
            name: "web".to_string(),
            start_port: Some(8080),
            end_port: Some(8085),
            status: "running".to_string(),
            handle: "abc123".to_string(),
        })
    );
}

#[test]
fn project_of_a_stopped_container_has_no_range() {
    let r = record("id", &["/pojde-db"], "exited", vec![tcp(8000, None)]);
    let instance = project("pojde-", &r).unwrap();
    assert_eq!(instance.name, "db");
    assert_eq!(instance.status, "exited");
    assert_eq!(instance.start_port, None);
    assert_eq!(instance.end_port, None);
    assert_eq!(instance.port_range(), None);
}

#[test]
fn project_passes_unknown_states_through() {
    let r = record("id", &["/pojde-x"], "restarting", Vec::new());
    assert_eq!(project("pojde-", &r).unwrap().status, "restarting");
}

#[test]
fn project_refuses_a_foreign_container() {
    let r = record("id", &["/postgres"], "running", vec![tcp(5432, Some(5432))]);
    assert_eq!(project("pojde-", &r), Err(Error::NotAnInstance));
}

#[test]
fn project_refuses_a_container_without_names() {
    let r = record("id", &[], "running", Vec::new());
    assert_eq!(project("pojde-", &r), Err(Error::NotAnInstance));
}

#[test]
fn project_goes_by_the_first_name() {
    let r = record("id", &["/other", "/pojde-web"], "running", Vec::new());
    assert_eq!(project("pojde-", &r), Err(Error::NotAnInstance));
    let r = record("id", &["/pojde-web", "/other"], "running", Vec::new());
    assert_eq!(project("pojde-", &r).unwrap().name, "web");
}

#[test]
fn listing_leaves_foreign_containers_out_and_keeps_the_order() {
    let records = vec![
        record("1", &["/pojde-b"], "running", vec![tcp(8000, Some(7000))]),
        record("2", &["/redis"], "running", Vec::new()),
        record("3", &["/pojde-a"], "exited", Vec::new()),
        record("4", &["/x-pojde-c"], "running", Vec::new()),
    ];
    let instances = project_all("pojde-", &records);
    let names: Vec<&str> = instances.iter().map(|i| i.name.as_str()).collect();
    assert_eq!(names, vec!["b", "a"]);
    assert_eq!(instances[0].handle, "1");
    assert_eq!(instances[0].port_range(), Some((7000, 7000)));
    assert_eq!(instances[1].handle, "3");
}

#[test]
fn listing_of_nothing_is_empty() {
    assert_eq!(project_all("pojde-", &Vec::new()), Vec::<Instance>::new());
}

#[test]
fn ports_label_joins_the_ends() {
    assert_eq!(ports_label(Some((8080, 8085))), "8080-8085");
    assert_eq!(ports_label(Some((0, 0))), "0-0");
    assert_eq!(ports_label(None), "");
}

#[test]
fn instance_label_shows_its_range() {
    let r = record("id", &["/pojde-web"], "running", vec![tcp(1, Some(5005)), tcp(2, Some(5000))]);
    assert_eq!(project("pojde-", &r).unwrap().ports_label(), "5000-5005");
}

#[test]
fn binding_reads_port_and_protocol() {
    assert_eq!(
        PortMapping::from_binding("8005/tcp", Some("5005")),
        Some(tcp(8005, Some(5005)))
    );
    assert_eq!(PortMapping::from_binding("53/udp", Some("53")), Some(udp(53, Some(53))));
    assert_eq!(PortMapping::from_binding("8000/tcp", None), Some(tcp(8000, None)));
    assert_eq!(PortMapping::from_binding("8000/tcp", Some("")), Some(tcp(8000, None)));
    assert_eq!(PortMapping::from_binding("8000/tcp", Some("http")), Some(tcp(8000, None)));
    assert_eq!(
        PortMapping::from_binding("80/tcp/extra", Some("1")),
        Some(PortMapping {
            private_port: 80,
            public_port: Some(1),
            protocol: "tcp/extra".to_string()
        })
    );
}

#[test]
fn binding_of_another_form_is_refused() {
    for key in ["", "/", "8005", "8005/", "/tcp", "tcp/8005", "80 05/tcp", "-1/tcp"] {
        assert_eq!(PortMapping::from_binding(key, Some("5005")), None, "{}", key);
    }
    assert_eq!(PortMapping::from_binding("18446744073709551616/tcp", None), None);
    assert_eq!(
        PortMapping::from_binding("18446744073709551615/tcp", None),
        Some(tcp(u64::MAX, None))
    );
}
