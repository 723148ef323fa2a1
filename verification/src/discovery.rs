//! The pull-only discovery service: Fetch is answered from a snapshot
//! rebuilt on every read from the seed bootstrap and the provisioned
//! artifacts; the streaming and delta variants are outside the capability
//! table and always refused.

use crate::policy::{Policy, PolicyRef};
use crate::provision::{bootstrap_text_of, render_bootstrap};
use crate::store::{
    field_of, field_value, lemma_upsert_contains, spec_upsert, ConfigObject, ConfigStore,
};
use vstd::prelude::*;
use vstd::string::*;

verus! {

/// The resource kinds the service answers for.
pub enum ResourceKind {
    Listener,
    Cluster,
}

/// The delivery operations a client may ask for.
pub enum DiscoveryOperation {
    Fetch,
    Stream,
    Delta,
}

/// The capability table: pull-based Fetch is served; streaming and
/// incremental delivery are deliberately not.
pub open spec fn op_supported(op: DiscoveryOperation) -> bool {
    op is Fetch
}

/// Whether the service supports a delivery operation.
pub fn supports(op: DiscoveryOperation) -> (r: bool)
    ensures
        r == op_supported(op),
{
    match op {
        DiscoveryOperation::Fetch => true,
        DiscoveryOperation::Stream => false,
        DiscoveryOperation::Delta => false,
    }
}

/// One discovery request: the calling node and the version it holds.
pub struct DiscoveryRequest {
    pub node_id: String,
    pub version_info: String,
}

/// One named resource of a response.
pub struct Resource {
    pub name: String,
    pub config: String,
}

/// One discovery response: the acknowledged version and the resources.
pub struct DiscoveryResponse {
    pub version_info: String,
    pub resources: Vec<Resource>,
}

/// Why a discovery call was not answered.
#[derive(Debug)]
pub enum DiscoveryError {
    /// The operation is outside the capability table.
    Unimplemented(String),
    /// The store could not be read; the polling client retries.
    Transient(String),
}

impl Resource {
    /// An exact copy of the resource.
    pub fn duplicate(&self) -> (r: Resource)
        ensures
            r == *self,
    {
        Resource { name: self.name.clone(), config: self.config.clone() }
    }
}

/// The three blocked addresses the seed bootstrap ships with.
pub open spec fn seed_addresses() -> Seq<Seq<char>> {
    seq!["172.18.0.1"@, "172.19.0.1"@, "172.20.0.1"@]
}

/// The two blocked client identifiers the seed bootstrap ships with.
pub open spec fn seed_client_ids() -> Seq<Seq<char>> {
    seq!["Fake User Agent"@, "curl/7.81.0"@]
}

/// The seed bootstrap and the discovery endpoints answered from it.
pub struct HermitXds {
    pub bootstrap: Bootstrap,
}

/// The statically-seeded resources a snapshot always starts from.
pub struct Bootstrap {
    pub listeners: Vec<Resource>,
    pub clusters: Vec<Resource>,
}

impl HermitXds {
    /// The service carries the statically-seeded listener and cluster.
    pub open spec fn seeded(self) -> bool {
        &&& self.bootstrap.listeners@.len() == 1
        &&& self.bootstrap.listeners@[0].name@ == "main"@
        &&& self.bootstrap.listeners@[0].config@ == bootstrap_text_of(
            seed_addresses(),
            seed_client_ids(),
            80,
            5678,
            8001,
        )
        &&& self.bootstrap.clusters@.len() == 1
        &&& self.bootstrap.clusters@[0].name@ == "web_service"@
        &&& self.bootstrap.clusters@[0].config@ == "web_service:5678"@
    }

    /// Builds the service around the seed bootstrap: one static listener
    /// rendered for the shipped default policy, one upstream cluster.
    pub fn new() -> (r: HermitXds)
        ensures
            r.seeded(),
    {
        let mut addresses: Vec<String> = Vec::new();
        addresses.push("172.18.0.1".to_owned());
        addresses.push("172.19.0.1".to_owned());
        addresses.push("172.20.0.1".to_owned());
        let mut ids: Vec<String> = Vec::new();
        ids.push("Fake User Agent".to_owned());
        ids.push("curl/7.81.0".to_owned());
        proof {
            assert(addresses.deep_view() =~= seed_addresses());
            assert(ids.deep_view() =~= seed_client_ids());
        }
        let seed_policy = Policy {
            source: PolicyRef {
                namespace: "default".to_owned(),
                name: "hermit-config".to_owned(),
            },
            blocked_addresses: addresses,
            blocked_client_ids: ids,
        };
        let listener_config = render_bootstrap(&seed_policy, 80, 5678, 8001);
        let mut listeners: Vec<Resource> = Vec::new();
        listeners.push(Resource { name: "main".to_owned(), config: listener_config });
        let mut clusters: Vec<Resource> = Vec::new();
        clusters.push(
            Resource { name: "web_service".to_owned(), config: "web_service:5678".to_owned() },
        );
        HermitXds { bootstrap: Bootstrap { listeners, clusters } }
    }

    /// Answers a Listener fetch from the snapshot rebuilt out of the seed
    /// bootstrap and the provisioned artifacts: the seeded listeners come
    /// first, then one listener per artifact, in store order.
    pub fn fetch_listeners(&self, request: &DiscoveryRequest, store: &ConfigStore) -> (r: Result<
        DiscoveryResponse,
        DiscoveryError,
    >)
        ensures
            r matches Ok(resp) && {
                let seed = self.bootstrap.listeners@;
                let derived = artifact_objs(store.objects@);
                &&& resp.version_info == request.version_info
                &&& resp.resources@.len() == seed.len() + derived.len()
                &&& forall|i: int| 0 <= i < seed.len() ==> #[trigger] resp.resources@[i] == seed[i]
                &&& forall|j: int|
                    0 <= j < derived.len() ==> resource_derived_from(
                        #[trigger] resp.resources@[seed.len() + j],
                        derived[j],
                    )
            },
    {
        let mut resources = duplicate_resources(&self.bootstrap.listeners);
        push_derived_listeners(&mut resources, store);
        Ok(DiscoveryResponse { version_info: request.version_info.clone(), resources })
    }

    /// Answers a Cluster fetch: the statically-seeded clusters. No cluster
    /// is derived per artifact, because every rendered bootstrap hands
    /// traffic to the same `web_service` upstream the seed already carries.
    pub fn fetch_clusters(&self, request: &DiscoveryRequest, _store: &ConfigStore) -> (r: Result<
        DiscoveryResponse,
        DiscoveryError,
    >)
        ensures
            r matches Ok(resp) && {
                let seed = self.bootstrap.clusters@;
                &&& resp.version_info == request.version_info
                &&& resp.resources@.len() == seed.len()
                &&& forall|i: int| 0 <= i < seed.len() ==> #[trigger] resp.resources@[i] == seed[i]
            },
    {
        let resources = duplicate_resources(&self.bootstrap.clusters);
        Ok(DiscoveryResponse { version_info: request.version_info.clone(), resources })
    }

    /// Streaming Listener delivery is outside the capability table.
    pub fn stream_listeners(&self, _request: &DiscoveryRequest) -> (r: Result<
        DiscoveryResponse,
        DiscoveryError,
    >)
        ensures
            r matches Err(e) && e matches DiscoveryError::Unimplemented(m) && m@ == "cannot stream listeners"@,
    {
        Err(DiscoveryError::Unimplemented("cannot stream listeners".to_owned()))
    }

    /// Incremental Listener delivery is outside the capability table.
    pub fn delta_listeners(&self, _request: &DiscoveryRequest) -> (r: Result<
        DiscoveryResponse,
        DiscoveryError,
    >)
        ensures
            r matches Err(e) && e matches DiscoveryError::Unimplemented(m) && m@ == "delta listeners stream not supported"@,
    {
        Err(DiscoveryError::Unimplemented("delta listeners stream not supported".to_owned()))
    }

    /// Streaming Cluster delivery is outside the capability table.
    pub fn stream_clusters(&self, _request: &DiscoveryRequest) -> (r: Result<
        DiscoveryResponse,
        DiscoveryError,
    >)
        ensures
            r matches Err(e) && e matches DiscoveryError::Unimplemented(m) && m@ == "cannot stream clusters"@,
    {
        Err(DiscoveryError::Unimplemented("cannot stream clusters".to_owned()))
    }

    /// Incremental Cluster delivery is outside the capability table.
    pub fn delta_clusters(&self, _request: &DiscoveryRequest) -> (r: Result<
        DiscoveryResponse,
        DiscoveryError,
    >)
        ensures
            r matches Err(e) && e matches DiscoveryError::Unimplemented(m) && m@ == "delta clusters stream not supported"@,
    {
        Err(DiscoveryError::Unimplemented("delta clusters stream not supported".to_owned()))
    }

    /// The uniform entry, fed the outcome of reading the store: operations
    /// outside the capability table are refused, a failed read is a
    /// transient error for the polling client to retry, and a Fetch on a
    /// read store is answered from the snapshot, exactly as the kind's own
    /// fetch method answers it.
    pub fn handle(
        &self,
        kind: ResourceKind,
        op: DiscoveryOperation,
        request: &DiscoveryRequest,
        read: Result<&ConfigStore, String>,
    ) -> (r: Result<DiscoveryResponse, DiscoveryError>)
        ensures
            !op_supported(op) ==> (r matches Err(e) && e matches DiscoveryError::Unimplemented(
                m,
            ) && m@ == "only pull-based fetch is supported"@),
            op_supported(op) ==> match read {
                Err(m) => r matches Err(e) && e matches DiscoveryError::Transient(t) && t == m,
                Ok(store) => r matches Ok(resp) && {
                    &&& resp.version_info == request.version_info
                    &&& match kind {
                        ResourceKind::Listener => {
                            let seed = self.bootstrap.listeners@;
                            let derived = artifact_objs(store.objects@);
                            &&& resp.resources@.len() == seed.len() + derived.len()
                            &&& forall|i: int|
                                0 <= i < seed.len() ==> #[trigger] resp.resources@[i] == seed[i]
                            &&& forall|j: int|
                                0 <= j < derived.len() ==> resource_derived_from(
                                    #[trigger] resp.resources@[seed.len() + j],
                                    derived[j],
                                )
                        },
                        ResourceKind::Cluster => {
                            let seed = self.bootstrap.clusters@;
                            &&& resp.resources@.len() == seed.len()
                            &&& forall|i: int|
                                0 <= i < seed.len() ==> #[trigger] resp.resources@[i] == seed[i]
                        },
                    }
                },
            },
    {
        if !supports(op) {
            return Err(
                DiscoveryError::Unimplemented(
                    "only pull-based fetch is supported".to_owned(),
                ),
            );
        }
        let store = match read {
            Err(m) => {
                return Err(DiscoveryError::Transient(m));
            },
            Ok(store) => store,
        };
        match kind {
            ResourceKind::Listener => self.fetch_listeners(request, store),
            ResourceKind::Cluster => self.fetch_clusters(request, store),
        }
    }
}

/// The artifacts among the store's objects, in store order.
pub open spec fn artifact_objs(s: Seq<ConfigObject>) -> Seq<ConfigObject>
    decreases s.len(),
{
    if s.len() == 0 {
        Seq::empty()
    } else {
        let rest = artifact_objs(s.drop_last());
        if s.last().name@ == "envoy-config"@ {
            rest.push(s.last())
        } else {
            rest
        }
    }
}

/// Snapshot completeness, store side: every artifact among the store's
/// objects is among the artifacts a rebuilt snapshot derives a listener
/// from (the seeded listeners are always served besides them).
pub proof fn lemma_snapshot_includes_artifact(s: Seq<ConfigObject>, i: int)
    requires
        0 <= i < s.len(),
        s[i].name@ == "envoy-config"@,
    ensures
        artifact_objs(s).contains(s[i]),
    decreases s.len(),
{
    let rest = artifact_objs(s.drop_last());
    if i == s.len() - 1 {
        assert(artifact_objs(s) == rest.push(s.last()));
        assert(rest.push(s.last()).last() == s[i]);
    } else {
        assert(s.drop_last()[i] == s[i]);
        lemma_snapshot_includes_artifact(s.drop_last(), i);
        let k = choose|k: int| 0 <= k < rest.len() && rest[k] == s[i];
        if s.last().name@ == "envoy-config"@ {
            assert(rest.push(s.last())[k] == s[i]);
        }
    }
}

/// Snapshot completeness, provisioning side: once an artifact has been
/// upserted, every snapshot rebuilt from the store derives a listener from
/// it.
pub proof fn lemma_snapshot_includes_provisioned(s: Seq<ConfigObject>, a: ConfigObject)
    requires
        a.name@ == "envoy-config"@,
    ensures
        artifact_objs(spec_upsert(s, a)).contains(a),
{
    lemma_upsert_contains(s, a);
    let u = spec_upsert(s, a);
    let i = choose|i: int| 0 <= i < u.len() && u[i] == a;
    lemma_snapshot_includes_artifact(u, i);
}

/// The listener a provisioned artifact contributes to a snapshot: named
/// for its namespace and carrying the artifact's rendered bootstrap.
pub open spec fn resource_derived_from(r: Resource, o: ConfigObject) -> bool {
    &&& r.name@ == o.namespace@ + "/main"@
    &&& match field_of(o.data@, "envoy.yaml"@) {
        Some(t) => r.config@ == t,
        None => r.config@.len() == 0,
    }
}

/// An exact copy of a resource list.
fn duplicate_resources(rs: &Vec<Resource>) -> (r: Vec<Resource>)
    ensures
        r@ == rs@,
{
    let n = rs.len();
    let mut r: Vec<Resource> = Vec::new();
    let mut i: usize = 0;
    while i < n
        invariant
            i <= n,
            n == rs@.len(),
            r@ == rs@.subrange(0, i as int),
        decreases n - i,
    {
        r.push(rs[i].duplicate());
        proof {
            assert(r@ =~= rs@.subrange(0, i + 1));
        }
        i = i + 1;
    }
    proof {
        assert(rs@.subrange(0, n as int) =~= rs@);
    }
    r
}

/// Appends one listener per provisioned artifact, in store order.
fn push_derived_listeners(resources: &mut Vec<Resource>, store: &ConfigStore)
    ensures
        final(resources)@.len() == old(resources)@.len() + artifact_objs(store.objects@).len(),
        forall|i: int|
            0 <= i < old(resources)@.len() ==> #[trigger] final(resources)@[i] == old(
                resources,
            )@[i],
        forall|j: int|
            0 <= j < artifact_objs(store.objects@).len() ==> resource_derived_from(
                #[trigger] final(resources)@[old(resources)@.len() + j],
                artifact_objs(store.objects@)[j],
            ),
{
    let n = store.objects.len();
    proof {
        assert(store.objects@.subrange(0, 0) =~= Seq::<ConfigObject>::empty());
    }
    let artifact_name = "envoy-config".to_owned();
    let mut i: usize = 0;
    while i < n
        invariant
            i <= n,
            n == store.objects@.len(),
            artifact_name@ == "envoy-config"@,
            resources@.len() == old(resources)@.len() + artifact_objs(
                store.objects@.subrange(0, i as int),
            ).len(),
            forall|k: int|
                0 <= k < old(resources)@.len() ==> #[trigger] resources@[k] == old(
                    resources,
                )@[k],
            forall|j: int|
                0 <= j < artifact_objs(store.objects@.subrange(0, i as int)).len()
                    ==> resource_derived_from(
                    #[trigger] resources@[old(resources)@.len() + j],
                    artifact_objs(store.objects@.subrange(0, i as int))[j],
                ),
        decreases n - i,
    {
        proof {
            let pre = store.objects@.subrange(0, i as int);
            let cur = store.objects@.subrange(0, i + 1);
            assert(cur.drop_last() =~= pre);
            assert(cur.last() == store.objects@[i as int]);
        }
        let o = &store.objects[i];
        if o.name == artifact_name {
            let derived_name = o.namespace.clone().concat("/main");
            let key = "envoy.yaml".to_owned();
            let config = match field_value(&o.data, &key) {
                Some(t) => t.clone(),
                None => String::new(),
            };
            resources.push(Resource { name: derived_name, config });
        }
        i = i + 1;
    }
    proof {
        assert(store.objects@.subrange(0, n as int) =~= store.objects@);
    }
}

} // verus!
