//! The admission-time mutation workflow: decide injection from the
//! workload's annotation, resolve the referenced policy, provision the
//! bootstrap artifact, and produce the additive patch that attaches the
//! enforcement sidecar.

use crate::policy::{normalize_of, parsed_policy, resolve, Policy, PolicyError, PolicyRef};
use crate::provision::{is_artifact_for, provision};
use crate::store::{count_key, field_of, field_value, lookup_key, spec_upsert, ConfigStore};
use crate::workload::{
    container_like, duplicate_containers, duplicate_volumes, has_container, has_volume,
    namespace_of, Container, Volume, VolumeMount, Workload,
};
use vstd::prelude::*;
use vstd::string::*;

verus! {

/// One additive document-patch entry.
pub struct PatchOperation {
    pub path: String,
    pub value: PatchValue,
}

/// The value a patch writes: a full container or volume list.
pub enum PatchValue {
    Containers(Vec<Container>),
    Volumes(Vec<Volume>),
}

/// The decision returned for one admission exchange.
pub struct AdmissionResponse {
    pub allowed: bool,
    pub reason: Option<String>,
    pub patches: Vec<PatchOperation>,
}

impl AdmissionResponse {
    /// An allowing decision with no patch.
    pub fn allow() -> (r: AdmissionResponse)
        ensures
            r.allowed,
            r.reason is None,
            r.patches@.len() == 0,
    {
        AdmissionResponse { allowed: true, reason: None, patches: Vec::new() }
    }

    /// A denying decision carrying a human-readable reason.
    pub fn deny(reason: String) -> (r: AdmissionResponse)
        ensures
            !r.allowed,
            r.reason == Some(reason),
            r.patches@.len() == 0,
    {
        AdmissionResponse { allowed: false, reason: Some(reason), patches: Vec::new() }
    }
}

/// The fixed payload the liveness probe is answered with.
pub fn health() -> (r: String)
    ensures
        r@ == "{\"message\":\"ok\"}"@,
{
    "{\"message\":\"ok\"}".to_owned()
}

/// The value of the workload's injection annotation, if it carries one.
pub open spec fn injection_annotation(w: Workload) -> Option<Seq<char>> {
    field_of(w.annotations@, "hermit.jan0ski.net/config"@)
}

/// The policy object name an annotation value asks for: an empty value
/// falls back to the well-known default.
pub open spec fn requested_name(v: Seq<char>) -> Seq<char> {
    if v.len() == 0 {
        "hermit-config"@
    } else {
        v
    }
}

/// The policy reference an annotated workload asks to be provisioned from;
/// a workload without the annotation asks for nothing.
pub fn injection_policy_ref(workload: &Workload) -> (r: Option<PolicyRef>)
    ensures
        match injection_annotation(*workload) {
            None => r is None,
            Some(v) => r matches Some(pr) && pr.namespace@ == namespace_of(*workload)
                && pr.name@ == requested_name(v),
        },
{
    let key = "hermit.jan0ski.net/config".to_owned();
    match field_value(&workload.annotations, &key) {
        None => None,
        Some(v) => {
            let name = if v.as_str().unicode_len() == 0 {
                "hermit-config".to_owned()
            } else {
                v.clone()
            };
            Some(PolicyRef { namespace: workload.effective_namespace(), name })
        },
    }
}

/// The enforcement sidecar container: it mounts the rendered bootstrap.
pub open spec fn is_sidecar_container(c: Container) -> bool {
    &&& c.name@ == "hermit"@
    &&& c.image@ == "envoyproxy/envoy:v1.24-latest"@
    &&& c.volume_mounts@.len() == 1
    &&& c.volume_mounts@[0].name@ == "envoy-config"@
    &&& c.volume_mounts@[0].mount_path@ == "/etc/envoy.yaml"@
}

/// A volume named after, and backed by, the configuration object `name`.
pub open spec fn is_config_volume(v: Volume, name: Seq<char>) -> bool {
    &&& v.name@ == name
    &&& v.config_map matches Some(cm) && cm@ == name
}

/// The names the injection would add collide with the workload's own
/// containers or volumes (or with each other).
pub open spec fn patch_conflict(w: Workload, policy_name: Seq<char>) -> bool {
    ||| has_container(w.containers@, "hermit"@)
    ||| has_volume(w.volumes@, "envoy-config"@)
    ||| has_volume(w.volumes@, policy_name)
    ||| policy_name == "envoy-config"@
}

/// The reason an injection is refused: the first colliding name, checked in
/// the order container, artifact volume, policy volume, the two new volumes
/// against each other.
pub open spec fn conflict_reason_of(w: Workload, policy_name: Seq<char>) -> Seq<char> {
    if has_container(w.containers@, "hermit"@) {
        "a container named hermit already exists; denying admission"@
    } else if has_volume(w.volumes@, "envoy-config"@) {
        "a volume named envoy-config already exists; denying admission"@
    } else if has_volume(w.volumes@, policy_name) {
        "a volume named after the policy already exists; denying admission"@
    } else {
        "the policy name collides with the artifact volume; denying admission"@
    }
}

/// The two additive patch operations of an injection: the container list
/// with the sidecar appended, and the volume list with the policy volume
/// and the artifact volume appended, originals kept in place.
pub open spec fn is_injection_patch(
    patches: Seq<PatchOperation>,
    w: Workload,
    policy_name: Seq<char>,
) -> bool {
    &&& patches.len() == 2
    &&& patches[0].path@ == "/spec/containers"@
    &&& patches[0].value matches PatchValue::Containers(cs) && {
        let n = w.containers@.len();
        &&& cs@.len() == n + 1
        &&& forall|i: int| 0 <= i < n ==> container_like(#[trigger] cs@[i], w.containers@[i])
        &&& is_sidecar_container(cs@[n as int])
    }
    &&& patches[1].path@ == "/spec/volumes"@
    &&& patches[1].value matches PatchValue::Volumes(vs) && {
        let m = w.volumes@.len();
        &&& vs@.len() == m + 2
        &&& forall|i: int| 0 <= i < m ==> #[trigger] vs@[i] == w.volumes@[i]
        &&& is_config_volume(vs@[m as int], policy_name)
        &&& is_config_volume(vs@[m as int + 1], "envoy-config"@)
    }
}

/// Builds the enforcement sidecar container.
fn sidecar_container() -> (r: Container)
    ensures
        is_sidecar_container(r),
{
    let mut volume_mounts: Vec<VolumeMount> = Vec::new();
    volume_mounts.push(
        VolumeMount { name: "envoy-config".to_owned(), mount_path: "/etc/envoy.yaml".to_owned() },
    );
    Container {
        name: "hermit".to_owned(),
        image: "envoyproxy/envoy:v1.24-latest".to_owned(),
        volume_mounts,
    }
}

/// Builds a volume backed by the configuration object `name`.
fn config_volume(name: &String) -> (r: Volume)
    ensures
        is_config_volume(r, name@),
{
    Volume { name: name.clone(), config_map: Some(name.clone()) }
}

/// Computes the additive patch that attaches the enforcement sidecar for
/// `policy`, or the reason the patch would collide with the workload's own
/// containers or volumes. Never touches entries the workload already has.
pub fn inject_sidecar(workload: &Workload, policy: &Policy) -> (r: Result<
    Vec<PatchOperation>,
    String,
>)
    ensures
        match r {
            Ok(patches) => !patch_conflict(*workload, policy.source.name@) && is_injection_patch(
                patches@,
                *workload,
                policy.source.name@,
            ),
            Err(m) => patch_conflict(*workload, policy.source.name@) && m@ == conflict_reason_of(
                *workload,
                policy.source.name@,
            ),
        },
{
    let sidecar_name = "hermit".to_owned();
    let artifact_volume_name = "envoy-config".to_owned();
    if workload.contains_container(&sidecar_name) {
        return Err("a container named hermit already exists; denying admission".to_owned());
    }
    if workload.contains_volume(&artifact_volume_name) {
        return Err("a volume named envoy-config already exists; denying admission".to_owned());
    }
    if workload.contains_volume(&policy.source.name) {
        return Err("a volume named after the policy already exists; denying admission".to_owned());
    }
    if policy.source.name == artifact_volume_name {
        return Err("the policy name collides with the artifact volume; denying admission"
            .to_owned());
    }
    let mut cs = duplicate_containers(&workload.containers);
    cs.push(sidecar_container());
    let mut vs = duplicate_volumes(&workload.volumes);
    vs.push(config_volume(&policy.source.name));
    vs.push(config_volume(&artifact_volume_name));
    proof {
        assert(vs@[workload.volumes@.len() as int] == vs@[vs@.len() - 2]);
    }
    let mut patches: Vec<PatchOperation> = Vec::new();
    patches.push(
        PatchOperation { path: "/spec/containers".to_owned(), value: PatchValue::Containers(cs) },
    );
    patches.push(
        PatchOperation { path: "/spec/volumes".to_owned(), value: PatchValue::Volumes(vs) },
    );
    Ok(patches)
}

/// Handles one admission exchange against the configuration store.
///
/// A workload without the injection annotation is allowed untouched. An
/// annotated workload has its policy reference resolved and, on success,
/// its namespace provisioned and the injection patch returned; any
/// resolution failure or patch conflict denies the admission and leaves the
/// store unchanged (fail closed).
pub fn mutate(store: &mut ConfigStore, workload: &Workload) -> (r: AdmissionResponse)
    requires
        old(store).wf(),
    ensures
        final(store).wf(),
        match injection_annotation(*workload) {
            None => r.allowed && r.reason is None && r.patches@.len() == 0
                && final(store).objects@ == old(store).objects@,
            Some(v) => {
                let nm = requested_name(v);
                let ns = namespace_of(*workload);
                match lookup_key(old(store).objects@, (ns, nm)) {
                    None => !r.allowed && (r.reason matches Some(m) && m@
                        == "policy configuration not found; denying admission"@)
                        && r.patches@.len() == 0 && final(store).objects@ == old(store).objects@,
                    Some(obj) => match field_of(obj.data@, "hermit.json"@) {
                        None => !r.allowed && (r.reason matches Some(m) && m@
                            == "policy configuration not found; denying admission"@)
                            && r.patches@.len() == 0 && final(store).objects@ == old(
                            store,
                        ).objects@,
                        Some(text) => match parsed_policy(text) {
                            None => !r.allowed && (r.reason matches Some(m) && m@
                                == "policy configuration is malformed; denying admission"@)
                                && r.patches@.len() == 0 && final(store).objects@ == old(
                                store,
                            ).objects@,
                            Some(lists) => {
                                if patch_conflict(*workload, nm) {
                                    !r.allowed && (r.reason matches Some(m) && m@
                                        == conflict_reason_of(*workload, nm))
                                        && r.patches@.len() == 0 && final(store).objects@ == old(
                                        store,
                                    ).objects@
                                } else {
                                    &&& r.allowed
                                    &&& r.reason is None
                                    &&& is_injection_patch(r.patches@, *workload, nm)
                                    &&& exists|a|
                                        is_artifact_for(
                                            a,
                                            normalize_of(lists.0),
                                            normalize_of(lists.1),
                                            ns,
                                        ) && final(store).objects@ == spec_upsert(
                                            old(store).objects@,
                                            a,
                                        )
                                    &&& count_key(final(store).objects@, (ns, "envoy-config"@))
                                        == 1
                                }
                            },
                        },
                    },
                }
            },
        },
{
    let key = "hermit.jan0ski.net/config".to_owned();
    let annotation = match field_value(&workload.annotations, &key) {
        None => {
            return AdmissionResponse::allow();
        },
        Some(v) => v,
    };
    let name = if annotation.as_str().unicode_len() == 0 {
        "hermit-config".to_owned()
    } else {
        annotation.clone()
    };
    let namespace = workload.effective_namespace();
    let source = PolicyRef { namespace: namespace.clone(), name: name.clone() };
    let read = store.get(&namespace, &name);
    let policy = match resolve(source, Ok(read)) {
        Ok(p) => p,
        Err(PolicyError::NotFound) => {
            return AdmissionResponse::deny(
                "policy configuration not found; denying admission".to_owned(),
            );
        },
        Err(PolicyError::Parse) => {
            return AdmissionResponse::deny(
                "policy configuration is malformed; denying admission".to_owned(),
            );
        },
        Err(PolicyError::Transport(m)) => {
            return AdmissionResponse::deny(
                "configuration store unreachable: ".to_owned().concat(m.as_str()),
            );
        },
    };
    let patches = match inject_sidecar(workload, &policy) {
        Ok(patches) => patches,
        Err(reason) => {
            return AdmissionResponse::deny(reason);
        },
    };
    provision(store, &policy, &namespace);
    AdmissionResponse { allowed: true, reason: None, patches }
}

} // verus!
