use hermit::admission::mutate;
use hermit::discovery::{
    supports, DiscoveryError, DiscoveryOperation, DiscoveryRequest, HermitXds, ResourceKind,
};
use hermit::enforce::{source_host, ConnectionAction, EnforcementContext, RequestAction};
use hermit::store::{ConfigObject, ConfigStore};
use hermit::workload::Workload;

fn request() -> DiscoveryRequest {
    DiscoveryRequest {
        node_id: "sidecar-1".to_string(),
        version_info: "v7".to_string(),
    }
}

fn policy_object(ns: &str, name: &str, doc: &str) -> ConfigObject {
    ConfigObject {
        namespace: ns.to_string(),
        name: name.to_string(),
        data: vec![("hermit.json".to_string(), doc.to_string())],
    }
}

#[test]
fn capability_table() {
    assert!(supports(DiscoveryOperation::Fetch));
    assert!(!supports(DiscoveryOperation::Stream));
    assert!(!supports(DiscoveryOperation::Delta));
}

#[test]
fn streaming_variants_are_unimplemented() {
    let xds = HermitXds::new();
    let req = request();
    assert!(matches!(
        xds.stream_listeners(&req),
        Err(DiscoveryError::Unimplemented(_))
    ));
    assert!(matches!(
        xds.delta_listeners(&req),
        Err(DiscoveryError::Unimplemented(_))
    ));
    assert!(matches!(
        xds.stream_clusters(&req),
        Err(DiscoveryError::Unimplemented(_))
    ));
    assert!(matches!(
        xds.delta_clusters(&req),
        Err(DiscoveryError::Unimplemented(_))
    ));
    let store = ConfigStore::new();
    assert!(matches!(
        xds.handle(ResourceKind::Listener, DiscoveryOperation::Stream, &req, Ok(&store)),
        Err(DiscoveryError::Unimplemented(_))
    ));
    assert!(matches!(
        xds.handle(ResourceKind::Cluster, DiscoveryOperation::Delta, &req, Ok(&store)),
        Err(DiscoveryError::Unimplemented(_))
    ));
    // the capability table is checked before the read outcome matters
    assert!(matches!(
        xds.handle(
            ResourceKind::Listener,
            DiscoveryOperation::Delta,
            &req,
            Err("store unreachable".to_string())
        ),
        Err(DiscoveryError::Unimplemented(_))
    ));
}

#[test]
fn snapshot_contains_seed_listener() {
    let xds = HermitXds::new();
    let store = ConfigStore::new();
    let resp = xds.fetch_listeners(&request(), &store).unwrap();
    assert_eq!(resp.version_info, "v7");
    assert_eq!(resp.resources.len(), 1);
    assert_eq!(resp.resources[0].name, "main");
    assert!(resp.resources[0].config.contains("172.18.0.1"));
    assert!(resp.resources[0].config.contains("curl/7.81.0"));
}

#[test]
fn snapshot_grows_with_provisioning() {
    let xds = HermitXds::new();
    let mut store = ConfigStore::new();
    store.upsert(policy_object(
        "ns1",
        "policy-a",
        "{\"blockedAddresses\":[\"10.0.0.5\"],\"blockedClientIds\":[]}",
    ));
    let pod = Workload {
        name: "test-pod".to_string(),
        namespace: Some("ns1".to_string()),
        annotations: vec![(
            "hermit.jan0ski.net/config".to_string(),
            "policy-a".to_string(),
        )],
        containers: Vec::new(),
        volumes: Vec::new(),
    };
    assert!(mutate(&mut store, &pod).allowed);
    let resp = xds.fetch_listeners(&request(), &store).unwrap();
    assert_eq!(resp.resources.len(), 2);
    assert_eq!(resp.resources[0].name, "main");
    assert_eq!(resp.resources[1].name, "ns1/main");
    assert!(resp.resources[1].config.contains("\"blockedAddresses\":[\"10.0.0.5\"]"));
}

#[test]
fn fetch_clusters_serves_seed() {
    let xds = HermitXds::new();
    let store = ConfigStore::new();
    let resp = xds.fetch_clusters(&request(), &store).unwrap();
    assert_eq!(resp.resources.len(), 1);
    assert_eq!(resp.resources[0].name, "web_service");
}

#[test]
fn source_host_strips_port() {
    assert_eq!(source_host("10.0.0.5:43210"), "10.0.0.5");
    assert_eq!(source_host("10.0.0.5"), "10.0.0.5");
    assert_eq!(source_host(":80"), "");
    assert_eq!(source_host(""), "");
}

#[test]
fn enforcement_matches_lists() {
    let mut ctx = EnforcementContext::new();
    assert!(ctx.configure(
        "{\"blockedAddresses\":[\"10.0.0.5\"],\"blockedClientIds\":[\"curl/7.81.0\"]}"
    ));
    assert!(matches!(
        ctx.on_new_connection("10.0.0.5:55555"),
        ConnectionAction::Close
    ));
    assert!(matches!(
        ctx.on_new_connection("10.0.0.6:55555"),
        ConnectionAction::Continue
    ));
    assert!(matches!(
        ctx.on_http_request_headers(&"curl/7.81.0".to_string()),
        RequestAction::Reject(403)
    ));
    assert!(matches!(
        ctx.on_http_request_headers(&"Mozilla/5.0".to_string()),
        RequestAction::Continue
    ));
}

#[test]
fn enforcement_keeps_config_on_bad_input() {
    let mut ctx = EnforcementContext::new();
    assert!(ctx.configure("{\"blockedAddresses\":[\"10.0.0.5\"],\"blockedClientIds\":[]}"));
    assert!(!ctx.configure("not a policy"));
    assert!(matches!(
        ctx.on_new_connection("10.0.0.5:1"),
        ConnectionAction::Close
    ));
}

#[test]
fn failed_store_read_is_transient() {
    let xds = HermitXds::new();
    let req = request();
    match xds.handle(
        ResourceKind::Listener,
        DiscoveryOperation::Fetch,
        &req,
        Err("store unreachable".to_string()),
    ) {
        Err(DiscoveryError::Transient(m)) => assert_eq!(m, "store unreachable"),
        _ => panic!("expected a transient error"),
    }
}

#[test]
fn handle_fetch_answers_from_snapshot() {
    let xds = HermitXds::new();
    let store = ConfigStore::new();
    let resp = xds
        .handle(ResourceKind::Cluster, DiscoveryOperation::Fetch, &request(), Ok(&store))
        .unwrap();
    assert_eq!(resp.version_info, "v7");
    assert_eq!(resp.resources.len(), 1);
    assert_eq!(resp.resources[0].name, "web_service");
}
