//! Rendering a policy into the sidecar's bootstrap document and upserting
//! it as the namespaced `envoy-config` artifact.

use crate::policy::Policy;
use crate::store::{
    count_key, lemma_upsert_content, lemma_upsert_idempotent, lemma_upsert_unique, lemma_wf_count,
    obj_key, spec_upsert, ConfigObject, ConfigStore,
};
use crate::text::{dec_render, dec_str_of};
use vstd::prelude::*;
use vstd::string::*;

verus! {

/// What serializing a string list as JSON yields.
pub uninterp spec fn json_list_of(l: Seq<Seq<char>>) -> Seq<char>;

/// Relies on serde_json::to_string: serializing a `Vec<String>` depends on
/// the list alone, and cannot fail for this type (no map keys, and string
/// serialization is infallible), so the unwrap never panics.
#[verifier::external_body]
fn json_string_list(v: &Vec<String>) -> (r: String)
    ensures
        r@ == json_list_of(v.deep_view()),
{
    serde_json::to_string(v).unwrap()
}

/// The filter configuration carried by the rendered listener: a JSON object
/// holding the policy's two lists.
pub open spec fn policy_json_of(addrs: Seq<Seq<char>>, ids: Seq<Seq<char>>) -> Seq<char> {
    "{\"blockedAddresses\":"@ + json_list_of(addrs) + ",\"blockedClientIds\":"@ + json_list_of(
        ids,
    ) + "}"@
}

/// Serializes the policy's lists as the sidecar filter configuration.
pub fn render_policy_json(p: &Policy) -> (r: String)
    ensures
        r@ == policy_json_of(p.blocked_addresses.deep_view(), p.blocked_client_ids.deep_view()),
{
    let r = "{\"blockedAddresses\":".to_owned().concat(
        json_string_list(&p.blocked_addresses).as_str(),
    ).concat(",\"blockedClientIds\":").concat(
        json_string_list(&p.blocked_client_ids).as_str(),
    ).concat("}");
    proof {
        assert(r@ =~= policy_json_of(
            p.blocked_addresses.deep_view(),
            p.blocked_client_ids.deep_view(),
        ));
    }
    r
}

/// The bootstrap document rendered for a policy: a static listener on the
/// ingress port whose filter chain carries the serialized policy and hands
/// accepted traffic to the single upstream cluster.
pub open spec fn bootstrap_text_of(
    addrs: Seq<Seq<char>>,
    ids: Seq<Seq<char>>,
    ingress: u16,
    upstream: u16,
    admin: u16,
) -> Seq<char> {
    "static_resources:\n  listeners:\n    - name: main\n      address:\n        socket_address:\n          address: 0.0.0.0\n          port_value: "@
        + dec_str_of(ingress as nat)
        + "\n      filter_chains:\n        - filters:\n            - name: hermit\n              configuration: '"@
        + policy_json_of(addrs, ids)
        + "'\n            - name: tcp_proxy\n              cluster: web_service\n  clusters:\n    - name: web_service\n      connect_timeout: 0.25s\n      load_assignment:\n        cluster_name: web_service\n        endpoints:\n          - lb_endpoints:\n              - endpoint:\n                  address:\n                    socket_address:\n                      address: web_service\n                      port_value: "@
        + dec_str_of(upstream as nat)
        + "\nadmin:\n  address:\n    socket_address:\n      address: 0.0.0.0\n      port_value: "@
        + dec_str_of(admin as nat) + "\n"@
}

/// Renders the bootstrap document for a policy and the three ports.
pub fn render_bootstrap(p: &Policy, ingress: u16, upstream: u16, admin: u16) -> (r: String)
    ensures
        r@ == bootstrap_text_of(
            p.blocked_addresses.deep_view(),
            p.blocked_client_ids.deep_view(),
            ingress,
            upstream,
            admin,
        ),
{
    let r =
        "static_resources:\n  listeners:\n    - name: main\n      address:\n        socket_address:\n          address: 0.0.0.0\n          port_value: ".to_owned().concat(
        dec_render(ingress).as_str(),
    ).concat(
        "\n      filter_chains:\n        - filters:\n            - name: hermit\n              configuration: '",
    ).concat(render_policy_json(p).as_str()).concat(
        "'\n            - name: tcp_proxy\n              cluster: web_service\n  clusters:\n    - name: web_service\n      connect_timeout: 0.25s\n      load_assignment:\n        cluster_name: web_service\n        endpoints:\n          - lb_endpoints:\n              - endpoint:\n                  address:\n                    socket_address:\n                      address: web_service\n                      port_value: ",
    ).concat(dec_render(upstream).as_str()).concat(
        "\nadmin:\n  address:\n    socket_address:\n      address: 0.0.0.0\n      port_value: ",
    ).concat(dec_render(admin).as_str()).concat("\n");
    proof {
        assert(r@ =~= bootstrap_text_of(
            p.blocked_addresses.deep_view(),
            p.blocked_client_ids.deep_view(),
            ingress,
            upstream,
            admin,
        ));
    }
    r
}

/// The artifact the provisioner maintains for a policy in a namespace:
/// named `envoy-config`, holding one `envoy.yaml` field with the rendered
/// bootstrap for the standard ports.
pub open spec fn is_artifact_for(
    o: ConfigObject,
    addrs: Seq<Seq<char>>,
    ids: Seq<Seq<char>>,
    ns: Seq<char>,
) -> bool {
    &&& o.namespace@ == ns
    &&& o.name@ == "envoy-config"@
    &&& o.data@.len() == 1
    &&& o.data@[0].0@ == "envoy.yaml"@
    &&& o.data@[0].1@ == bootstrap_text_of(addrs, ids, 80, 5678, 8001)
}

/// Renders the artifact for `policy` in `namespace`.
pub fn render_artifact(policy: &Policy, namespace: &String) -> (r: ConfigObject)
    ensures
        is_artifact_for(
            r,
            policy.blocked_addresses.deep_view(),
            policy.blocked_client_ids.deep_view(),
            namespace@,
        ),
{
    let text = render_bootstrap(policy, 80, 5678, 8001);
    let mut data: Vec<(String, String)> = Vec::new();
    data.push(("envoy.yaml".to_owned(), text));
    ConfigObject { namespace: namespace.clone(), name: "envoy-config".to_owned(), data }
}

/// Renders and upserts the artifact for `policy` in `namespace`: afterwards
/// the store holds exactly one object under that namespace's artifact key,
/// and it carries the rendered bootstrap.
pub fn provision(store: &mut ConfigStore, policy: &Policy, namespace: &String)
    requires
        old(store).wf(),
    ensures
        final(store).wf(),
        exists|a: ConfigObject|
            is_artifact_for(
                a,
                policy.blocked_addresses.deep_view(),
                policy.blocked_client_ids.deep_view(),
                namespace@,
            ) && final(store).objects@ == spec_upsert(old(store).objects@, a),
        count_key(final(store).objects@, (namespace@, "envoy-config"@)) == 1,
        forall|i: int|
            0 <= i < final(store).objects@.len() && obj_key(
                #[trigger] final(store).objects@[i],
            ) == (namespace@, "envoy-config"@) ==> is_artifact_for(
                final(store).objects@[i],
                policy.blocked_addresses.deep_view(),
                policy.blocked_client_ids.deep_view(),
                namespace@,
            ),
{
    let artifact = render_artifact(policy, namespace);
    proof {
        lemma_wf_count(store.objects@, obj_key(artifact));
        lemma_upsert_unique(store.objects@, artifact);
        lemma_upsert_content(store.objects@, artifact);
    }
    store.upsert(artifact);
    proof {
        assert(is_artifact_for(
            artifact,
            policy.blocked_addresses.deep_view(),
            policy.blocked_client_ids.deep_view(),
            namespace@,
        ) && store.objects@ == spec_upsert(old(store).objects@, artifact));
    }
}

/// Idempotent provisioning: upserting two renderings of one policy for one
/// namespace leaves exactly the store of the single, latest upsert, holding
/// one artifact with the rendered content.
pub proof fn lemma_provision_idempotent(
    s: Seq<ConfigObject>,
    a1: ConfigObject,
    a2: ConfigObject,
    addrs: Seq<Seq<char>>,
    ids: Seq<Seq<char>>,
    ns: Seq<char>,
)
    requires
        is_artifact_for(a1, addrs, ids, ns),
        is_artifact_for(a2, addrs, ids, ns),
        forall|i: int, j: int| 0 <= i < j < s.len() ==> obj_key(s[i]) != obj_key(s[j]),
    ensures
        spec_upsert(spec_upsert(s, a1), a2) == spec_upsert(s, a2),
        count_key(spec_upsert(spec_upsert(s, a1), a2), (ns, "envoy-config"@)) == 1,
        forall|i: int|
            0 <= i < spec_upsert(s, a2).len() && obj_key(#[trigger] spec_upsert(s, a2)[i]) == (
            ns,
            "envoy-config"@,
            ) ==> is_artifact_for(spec_upsert(s, a2)[i], addrs, ids, ns),
{
    lemma_upsert_idempotent(s, a1, a2);
    lemma_wf_count(s, (ns, "envoy-config"@));
    assert(obj_key(a2) == (ns, "envoy-config"@));
    lemma_upsert_unique(s, a2);
    lemma_upsert_content(s, a2);
}

} // verus!
