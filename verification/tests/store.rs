use rust_proxy::app_config::ApiService;
use rust_proxy::app_config::ServiceConfig;
use rust_proxy::app_config::ServiceType;
use rust_proxy::app_config::TlsMaterial;
use rust_proxy::app_config::DEFAULT_ADMIN_PORT;
use rust_proxy::handler::init_static_config;
use rust_proxy::handler::Handler;
use rust_proxy::listener::ListenerCommand;
use rust_proxy::listener::ListenerEvent;
use rust_proxy::listener::ListenerState;
use rust_proxy::listener::listener_step;
use rust_proxy::AppError;

fn plain_service(port: i32, server_type: ServiceType) -> ApiService {
    ApiService {
        listen_port: port,
        service_config: ServiceConfig { server_type, routes: Vec::new(), tls: None },
    }
}

#[test]
fn issued_identifiers_are_distinct() {
    let mut h = Handler::new(init_static_config(None, None, None, None));
    let (id1, _r1) = h.apply_service(plain_service(8081, ServiceType::Http));
    let (id2, _r2) = h.apply_service(plain_service(8082, ServiceType::Tcp));
    let (id3, _r3) = h.apply_service(plain_service(8083, ServiceType::Http2));
    assert_ne!(id1, id2);
    assert_ne!(id2, id3);
    assert_ne!(id1, id3);
    assert_eq!(h.get_snapshot().len(), 3);
}

#[test]
fn remove_unknown_service_fails_with_task_not_found() {
    let mut h = Handler::new(init_static_config(None, None, None, None));
    assert_eq!(h.remove_service(12345), Err(AppError::TaskNotFound));
}

#[test]
fn services_stop_independently() {
    let mut h = Handler::new(init_static_config(None, None, None, None));
    let (id1, mut stop1) = h.apply_service(plain_service(9001, ServiceType::Http));
    let (id2, mut stop2) = h.apply_service(plain_service(9002, ServiceType::Http));
    assert!(h.remove_service(id1).is_ok());
    // The removed service's own control channel carries the stop signal...
    assert!(stop1.try_recv().is_ok());
    // ...while the other service's channel stays silent and its entry stays
    // registered: its accept loop is unaffected.
    assert!(stop2.try_recv().is_err());
    let snapshot = h.get_snapshot();
    assert_eq!(snapshot.len(), 1);
    assert_eq!(snapshot[0].0, id2);
    assert_eq!(snapshot[0].1.listen_port, 9002);
    assert_eq!(h.remove_service(id1), Err(AppError::TaskNotFound));
}

#[test]
fn static_config_defaults_and_overrides() {
    let defaulted = init_static_config(None, None, None, None);
    assert_eq!(defaulted.admin_port, DEFAULT_ADMIN_PORT);
    assert!(defaulted.database_url.is_none());
    assert!(defaulted.access_log.is_none());
    assert!(defaulted.config_file_path.is_none());
    let given = init_static_config(
        Some(9999),
        Some("postgres://db".to_string()),
        Some("/var/log/access.log".to_string()),
        Some("/etc/proxy.yaml".to_string()),
    );
    assert_eq!(given.admin_port, 9999);
    assert_eq!(given.database_url.as_deref(), Some("postgres://db"));
    assert_eq!(given.access_log.as_deref(), Some("/var/log/access.log"));
    assert_eq!(given.config_file_path.as_deref(), Some("/etc/proxy.yaml"));
}

#[test]
fn run_registers_initial_services_in_order() {
    let mut h = Handler::new(init_static_config(None, None, None, None));
    let plans = h.run(
        init_static_config(Some(7000), None, None, None),
        vec![
            plain_service(8081, ServiceType::Http),
            plain_service(8082, ServiceType::Tcp),
        ],
    );
    assert_eq!(plans.len(), 2);
    assert_eq!(plans[0].listen_port, 8081);
    assert_eq!(plans[0].server_type, ServiceType::Http);
    assert_eq!(plans[1].listen_port, 8082);
    assert_eq!(plans[1].server_type, ServiceType::Tcp);
    assert_ne!(plans[0].service_id, plans[1].service_id);
    assert_eq!(h.shared_app_config.static_config.admin_port, 7000);
}

#[test]
fn run_with_no_config_file_yields_no_services() {
    let mut h = Handler::new(init_static_config(None, None, None, None));
    let plans = h.run(init_static_config(None, None, None, None), Vec::new());
    assert!(plans.is_empty());
    assert!(h.get_snapshot().is_empty());
}

#[test]
fn tls_protocols_need_material_to_start() {
    let h = Handler::new(init_static_config(None, None, None, None));
    assert_eq!(
        h.start_proxy(443, ServiceType::Https, &None).err(),
        Some(AppError::ListenerBindFailure)
    );
    assert_eq!(
        h.start_proxy(443, ServiceType::Http2Tls, &None).err(),
        Some(AppError::ListenerBindFailure)
    );
    let material = TlsMaterial { cert_pem: vec![1, 2, 3], key_pem: vec![4, 5, 6] };
    let plan = h.start_proxy(443, ServiceType::Https, &Some(material)).unwrap();
    assert_eq!(plan.port, 443);
    assert_eq!(plan.server_type, ServiceType::Https);
    assert_eq!(plan.tls.as_ref().unwrap().cert_pem, vec![1, 2, 3]);
    let plain = h.start_proxy(8080, ServiceType::Http, &None).unwrap();
    assert_eq!(plain.server_type, ServiceType::Http);
    assert!(plain.tls.is_none());
}

#[test]
fn listener_lifecycle_follows_the_state_machine() {
    let (s, c) = listener_step(ListenerState::Starting, ListenerEvent::BindOk);
    assert_eq!(s, ListenerState::Running);
    assert_eq!(c, ListenerCommand::AcceptConnections);
    let (s, c) = listener_step(s, ListenerEvent::ConnArrived);
    assert_eq!(s, ListenerState::Running);
    assert_eq!(c, ListenerCommand::HandleConnection);
    let (s, c) = listener_step(s, ListenerEvent::StopSignal);
    assert_eq!(s, ListenerState::Stopping);
    assert_eq!(c, ListenerCommand::DrainConnections);
    let (s, c) = listener_step(s, ListenerEvent::ConnArrived);
    assert_eq!(s, ListenerState::Stopping);
    assert_eq!(c, ListenerCommand::RefuseConnection);
    let (s, c) = listener_step(s, ListenerEvent::Drained);
    assert_eq!(s, ListenerState::Stopped);
    assert_eq!(c, ListenerCommand::Finish);
}

#[test]
fn failed_bind_never_reaches_running() {
    let (s, c) = listener_step(ListenerState::Starting, ListenerEvent::BindFail);
    assert_eq!(s, ListenerState::Stopped);
    assert_eq!(c, ListenerCommand::ReportBindFailure);
    for e in [
        ListenerEvent::BindOk,
        ListenerEvent::BindFail,
        ListenerEvent::StopSignal,
        ListenerEvent::ConnArrived,
        ListenerEvent::Drained,
    ] {
        let (s2, c2) = listener_step(ListenerState::Stopped, e);
        assert_eq!(s2, ListenerState::Stopped);
        assert_eq!(c2, ListenerCommand::Ignore);
    }
}

#[test]
fn snapshot_is_a_faithful_read_only_copy() {
    let mut h = Handler::new(init_static_config(None, None, None, None));
    let (id, _stop) = h.apply_service(plain_service(8088, ServiceType::Http2));
    let snapshot = h.get_snapshot();
    assert_eq!(snapshot.len(), 1);
    assert_eq!(snapshot[0].0, id);
    assert_eq!(snapshot[0].1.listen_port, 8088);
    assert_eq!(snapshot[0].1.service_config.server_type, ServiceType::Http2);
    // The copy is detached: dropping it leaves the store intact.
    drop(snapshot);
    assert_eq!(h.get_snapshot().len(), 1);
}
