use hermit::admission::{health, inject_sidecar, injection_policy_ref, mutate, AdmissionResponse, PatchValue};
use hermit::policy::{parse, resolve, Policy, PolicyError, PolicyRef};
use hermit::store::{ConfigObject, ConfigStore};
use hermit::workload::{Container, Volume, VolumeMount, Workload};

const ANNOTATION: &str = "hermit.jan0ski.net/config";

fn policy_ref(ns: &str, name: &str) -> PolicyRef {
    PolicyRef {
        namespace: ns.to_string(),
        name: name.to_string(),
    }
}

fn policy_object(ns: &str, name: &str, doc: &str) -> ConfigObject {
    ConfigObject {
        namespace: ns.to_string(),
        name: name.to_string(),
        data: vec![("hermit.json".to_string(), doc.to_string())],
    }
}

fn workload(ns: Option<&str>, annotations: Vec<(&str, &str)>) -> Workload {
    Workload {
        name: "test-pod".to_string(),
        namespace: ns.map(|s| s.to_string()),
        annotations: annotations
            .into_iter()
            .map(|(k, v)| (k.to_string(), v.to_string()))
            .collect(),
        containers: vec![Container {
            name: "empty".to_string(),
            image: "alpine:latest".to_string(),
            volume_mounts: Vec::new(),
        }],
        volumes: Vec::new(),
    }
}

fn artifacts_in(store: &ConfigStore, ns: &str) -> Vec<String> {
    store
        .objects
        .iter()
        .filter(|o| o.namespace == ns && o.name == "envoy-config")
        .map(|o| o.data[0].1.clone())
        .collect()
}

#[test]
fn test_inject() {
    let mut store = ConfigStore::new();
    let pod = workload(None, Vec::new());
    let res: AdmissionResponse = mutate(&mut store, &pod);
    assert!(res.allowed);
    assert!(res.patches.is_empty());
}

#[test]
fn no_op_without_annotation() {
    let mut store = ConfigStore::new();
    store.upsert(policy_object(
        "ns1",
        "hermit-config",
        "{\"blockedAddresses\":[],\"blockedClientIds\":[]}",
    ));
    let before = store.objects.len();
    let res = mutate(&mut store, &workload(Some("ns1"), Vec::new()));
    assert!(res.allowed);
    assert!(res.reason.is_none());
    assert!(res.patches.is_empty());
    assert_eq!(store.objects.len(), before);
}

#[test]
fn fail_closed_on_missing_policy() {
    let mut store = ConfigStore::new();
    let res = mutate(&mut store, &workload(Some("ns1"), vec![(ANNOTATION, "absent")]));
    assert!(!res.allowed);
    assert_eq!(
        res.reason.as_deref(),
        Some("policy configuration not found; denying admission")
    );
    assert!(res.patches.is_empty());
    assert!(store.objects.is_empty());
}

#[test]
fn fail_closed_on_malformed_policy() {
    let mut store = ConfigStore::new();
    store.upsert(policy_object("ns1", "broken", "not json at all"));
    let res = mutate(&mut store, &workload(Some("ns1"), vec![(ANNOTATION, "broken")]));
    assert!(!res.allowed);
    assert_eq!(
        res.reason.as_deref(),
        Some("policy configuration is malformed; denying admission")
    );
    assert!(artifacts_in(&store, "ns1").is_empty());
}

#[test]
fn missing_field_is_not_found() {
    let source = policy_ref("ns1", "incomplete");
    let object = ConfigObject {
        namespace: "ns1".to_string(),
        name: "incomplete".to_string(),
        data: vec![("other.txt".to_string(), "{}".to_string())],
    };
    let r = resolve(source, Ok(Some(&object)));
    assert!(matches!(r, Err(PolicyError::NotFound)));
}

#[test]
fn transport_error_is_surfaced() {
    let r = resolve(policy_ref("ns1", "x"), Err("connection refused".to_string()));
    match r {
        Err(PolicyError::Transport(m)) => assert_eq!(m, "connection refused"),
        _ => panic!("expected a transport error"),
    }
}

#[test]
fn parse_normalizes_entries() {
    let doc = "{\"blockedAddresses\":[\" 10.0.0.5 \",\"10.0.0.5\",\"\",\"  \"],\
               \"blockedClientIds\":[\"curl/7.81.0\"]}";
    let p = parse(policy_ref("ns1", "policy-a"), doc).unwrap();
    assert_eq!(p.blocked_addresses, vec!["10.0.0.5".to_string()]);
    assert_eq!(p.blocked_client_ids, vec!["curl/7.81.0".to_string()]);
}

#[test]
fn parse_rejects_wrong_shape() {
    assert!(parse(policy_ref("ns1", "p"), "{\"blockedAddresses\":[1,2]}").is_err());
    assert!(parse(policy_ref("ns1", "p"), "[]").is_err());
}

#[test]
fn non_destructive_patching() {
    let mut pod = workload(Some("ns1"), vec![(ANNOTATION, "policy-a")]);
    pod.containers.push(Container {
        name: "second".to_string(),
        image: "busybox:latest".to_string(),
        volume_mounts: vec![VolumeMount {
            name: "data".to_string(),
            mount_path: "/data".to_string(),
        }],
    });
    pod.volumes.push(Volume {
        name: "data".to_string(),
        config_map: None,
    });
    let policy = Policy {
        source: policy_ref("ns1", "policy-a"),
        blocked_addresses: vec!["10.0.0.5".to_string()],
        blocked_client_ids: Vec::new(),
    };
    let patches = inject_sidecar(&pod, &policy).unwrap();
    assert_eq!(patches.len(), 2);
    assert_eq!(patches[0].path, "/spec/containers");
    match &patches[0].value {
        PatchValue::Containers(cs) => {
            assert_eq!(cs.len(), 3);
            assert_eq!(cs[0].name, "empty");
            assert_eq!(cs[0].image, "alpine:latest");
            assert_eq!(cs[1].name, "second");
            assert_eq!(cs[1].volume_mounts[0].mount_path, "/data");
            assert_eq!(cs[2].name, "hermit");
            assert_eq!(cs[2].image, "envoyproxy/envoy:v1.24-latest");
            assert_eq!(cs[2].volume_mounts.len(), 1);
            assert_eq!(cs[2].volume_mounts[0].name, "envoy-config");
            assert_eq!(cs[2].volume_mounts[0].mount_path, "/etc/envoy.yaml");
        }
        _ => panic!("expected a container patch"),
    }
    assert_eq!(patches[1].path, "/spec/volumes");
    match &patches[1].value {
        PatchValue::Volumes(vs) => {
            assert_eq!(vs.len(), 3);
            assert_eq!(vs[0].name, "data");
            assert_eq!(vs[1].name, "policy-a");
            assert_eq!(vs[1].config_map.as_deref(), Some("policy-a"));
            assert_eq!(vs[2].name, "envoy-config");
            assert_eq!(vs[2].config_map.as_deref(), Some("envoy-config"));
        }
        _ => panic!("expected a volume patch"),
    }
}

#[test]
fn conflicting_names_deny() {
    let mut pod = workload(Some("ns1"), vec![(ANNOTATION, "policy-a")]);
    pod.containers.push(Container {
        name: "hermit".to_string(),
        image: "other:latest".to_string(),
        volume_mounts: Vec::new(),
    });
    let policy = Policy {
        source: policy_ref("ns1", "policy-a"),
        blocked_addresses: Vec::new(),
        blocked_client_ids: Vec::new(),
    };
    assert!(inject_sidecar(&pod, &policy).is_err());

    let mut store = ConfigStore::new();
    store.upsert(policy_object(
        "ns1",
        "policy-a",
        "{\"blockedAddresses\":[],\"blockedClientIds\":[]}",
    ));
    let res = mutate(&mut store, &pod);
    assert!(!res.allowed);
    assert_eq!(
        res.reason.as_deref(),
        Some("a container named hermit already exists; denying admission")
    );
    assert!(artifacts_in(&store, "ns1").is_empty());
}

#[test]
fn idempotent_provisioning() {
    let mut store = ConfigStore::new();
    store.upsert(policy_object(
        "ns1",
        "policy-a",
        "{\"blockedAddresses\":[\"10.0.0.5\"],\"blockedClientIds\":[\"curl/7.81.0\"]}",
    ));
    let pod = workload(Some("ns1"), vec![(ANNOTATION, "policy-a")]);
    let first = mutate(&mut store, &pod);
    assert!(first.allowed);
    let after_first = artifacts_in(&store, "ns1");
    assert_eq!(after_first.len(), 1);
    let second = mutate(&mut store, &pod);
    assert!(second.allowed);
    let after_second = artifacts_in(&store, "ns1");
    assert_eq!(after_second.len(), 1);
    assert_eq!(after_first[0], after_second[0]);
}

#[test]
fn example_scenario() {
    let mut store = ConfigStore::new();
    store.upsert(policy_object(
        "ns1",
        "policy-a",
        "{\"blockedAddresses\":[\"10.0.0.5\"],\"blockedClientIds\":[\"curl/7.81.0\"]}",
    ));
    let pod = workload(Some("ns1"), vec![(ANNOTATION, "policy-a")]);
    let res = mutate(&mut store, &pod);
    assert!(res.allowed);

    let artifacts = artifacts_in(&store, "ns1");
    assert_eq!(artifacts.len(), 1);
    assert!(artifacts[0].contains("\"blockedAddresses\":[\"10.0.0.5\"]"));
    assert!(artifacts[0].contains("\"blockedClientIds\":[\"curl/7.81.0\"]"));
    assert!(artifacts[0].contains("port_value: 80"));
    assert!(artifacts[0].contains("port_value: 5678"));
    assert!(artifacts[0].contains("port_value: 8001"));

    assert_eq!(res.patches.len(), 2);
    match &res.patches[0].value {
        PatchValue::Containers(cs) => assert_eq!(cs.last().unwrap().name, "hermit"),
        _ => panic!("expected a container patch"),
    }
    match &res.patches[1].value {
        PatchValue::Volumes(vs) => {
            assert_eq!(vs.len(), 2);
            assert_eq!(vs[0].name, "policy-a");
            assert_eq!(vs[1].name, "envoy-config");
        }
        _ => panic!("expected a volume patch"),
    }
}

#[test]
fn empty_annotation_uses_default_name() {
    let mut store = ConfigStore::new();
    store.upsert(policy_object(
        "ns1",
        "hermit-config",
        "{\"blockedAddresses\":[],\"blockedClientIds\":[]}",
    ));
    let res = mutate(&mut store, &workload(Some("ns1"), vec![(ANNOTATION, "")]));
    assert!(res.allowed);
    assert_eq!(artifacts_in(&store, "ns1").len(), 1);
}

#[test]
fn default_namespace_when_absent() {
    let mut store = ConfigStore::new();
    store.upsert(policy_object(
        "default",
        "hermit-config",
        "{\"blockedAddresses\":[],\"blockedClientIds\":[]}",
    ));
    let res = mutate(&mut store, &workload(None, vec![(ANNOTATION, "")]));
    assert!(res.allowed);
    assert_eq!(artifacts_in(&store, "default").len(), 1);
}

#[test]
fn health_payload_is_fixed() {
    assert_eq!(health(), "{\"message\":\"ok\"}");
}

#[test]
fn annotation_names_the_policy() {
    assert!(injection_policy_ref(&workload(Some("ns1"), Vec::new())).is_none());
    let named = injection_policy_ref(&workload(Some("ns1"), vec![(ANNOTATION, "policy-a")]))
        .unwrap();
    assert_eq!(named.namespace, "ns1");
    assert_eq!(named.name, "policy-a");
    let defaulted = injection_policy_ref(&workload(None, vec![(ANNOTATION, "")])).unwrap();
    assert_eq!(defaulted.namespace, "default");
    assert_eq!(defaulted.name, "hermit-config");
}

#[test]
fn policy_named_like_artifact_denies() {
    let mut store = ConfigStore::new();
    store.upsert(policy_object(
        "ns1",
        "envoy-config",
        "{\"blockedAddresses\":[],\"blockedClientIds\":[]}",
    ));
    let res = mutate(&mut store, &workload(Some("ns1"), vec![(ANNOTATION, "envoy-config")]));
    assert!(!res.allowed);
    assert_eq!(store.objects.len(), 1);
    assert_eq!(store.objects[0].data[0].0, "hermit.json");
}
