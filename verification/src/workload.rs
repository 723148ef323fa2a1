//! The slice of a workload object that admission reads and patches:
//! metadata, annotations, containers and volumes.

use crate::store::field_of;
use vstd::prelude::*;
use vstd::string::*;

verus! {

/// A mount of a named volume into a container.
pub struct VolumeMount {
    pub name: String,
    pub mount_path: String,
}

/// A container of the workload's specification.
pub struct Container {
    pub name: String,
    pub image: String,
    pub volume_mounts: Vec<VolumeMount>,
}

/// A volume of the workload's specification, optionally backed by a named
/// configuration object.
pub struct Volume {
    pub name: String,
    pub config_map: Option<String>,
}

/// The target object of one admission exchange.
pub struct Workload {
    pub name: String,
    pub namespace: Option<String>,
    pub annotations: Vec<(String, String)>,
    pub containers: Vec<Container>,
    pub volumes: Vec<Volume>,
}

/// The namespace the workload is admitted into; absent means `default`.
pub open spec fn namespace_of(w: Workload) -> Seq<char> {
    match w.namespace {
        Some(ns) => ns@,
        None => "default"@,
    }
}

/// The value of the workload's annotation named `key`, if present.
pub open spec fn annotation_of(w: Workload, key: Seq<char>) -> Option<Seq<char>> {
    field_of(w.annotations@, key)
}

/// Whether some container is named `name`.
pub open spec fn has_container(cs: Seq<Container>, name: Seq<char>) -> bool {
    exists|i: int| 0 <= i < cs.len() && cs[i].name@ == name
}

/// Whether some volume is named `name`.
pub open spec fn has_volume(vs: Seq<Volume>, name: Seq<char>) -> bool {
    exists|i: int| 0 <= i < vs.len() && vs[i].name@ == name
}

impl Workload {
    /// The namespace the workload is admitted into.
    pub fn effective_namespace(&self) -> (r: String)
        ensures
            r@ == namespace_of(*self),
    {
        match &self.namespace {
            Some(ns) => ns.clone(),
            None => "default".to_owned(),
        }
    }

    /// Whether the workload already has a container named `name`.
    pub fn contains_container(&self, name: &String) -> (r: bool)
        ensures
            r == has_container(self.containers@, name@),
    {
        let n = self.containers.len();
        let mut i: usize = 0;
        while i < n
            invariant
                i <= n,
                n == self.containers@.len(),
                forall|k: int| 0 <= k < i ==> self.containers@[k].name@ != name@,
            decreases n - i,
        {
            if self.containers[i].name == *name {
                return true;
            }
            i = i + 1;
        }
        false
    }

    /// Whether the workload already has a volume named `name`.
    pub fn contains_volume(&self, name: &String) -> (r: bool)
        ensures
            r == has_volume(self.volumes@, name@),
    {
        let n = self.volumes.len();
        let mut i: usize = 0;
        while i < n
            invariant
                i <= n,
                n == self.volumes@.len(),
                forall|k: int| 0 <= k < i ==> self.volumes@[k].name@ != name@,
            decreases n - i,
        {
            if self.volumes[i].name == *name {
                return true;
            }
            i = i + 1;
        }
        false
    }
}

impl VolumeMount {
    /// An exact copy of the mount.
    pub fn duplicate(&self) -> (r: VolumeMount)
        ensures
            r == *self,
    {
        VolumeMount { name: self.name.clone(), mount_path: self.mount_path.clone() }
    }
}

/// The two containers read the same: equal names, images and mount lists.
pub open spec fn container_like(a: Container, b: Container) -> bool {
    a.name == b.name && a.image == b.image && a.volume_mounts@ == b.volume_mounts@
}

impl Container {
    /// An exact copy of the container.
    pub fn duplicate(&self) -> (r: Container)
        ensures
            container_like(r, *self),
    {
        let n = self.volume_mounts.len();
        let mut mounts: Vec<VolumeMount> = Vec::new();
        let mut i: usize = 0;
        while i < n
            invariant
                i <= n,
                n == self.volume_mounts@.len(),
                mounts@ == self.volume_mounts@.subrange(0, i as int),
            decreases n - i,
        {
            mounts.push(self.volume_mounts[i].duplicate());
            proof {
                assert(mounts@ =~= self.volume_mounts@.subrange(0, i + 1));
            }
            i = i + 1;
        }
        proof {
            assert(self.volume_mounts@.subrange(0, n as int) =~= self.volume_mounts@);
        }
        Container { name: self.name.clone(), image: self.image.clone(), volume_mounts: mounts }
    }
}

impl Volume {
    /// An exact copy of the volume.
    pub fn duplicate(&self) -> (r: Volume)
        ensures
            r == *self,
    {
        let config_map = match &self.config_map {
            Some(cm) => Some(cm.clone()),
            None => None,
        };
        Volume { name: self.name.clone(), config_map }
    }
}

/// A copy of a container list whose entries read the same.
pub fn duplicate_containers(cs: &Vec<Container>) -> (r: Vec<Container>)
    ensures
        r@.len() == cs@.len(),
        forall|i: int| 0 <= i < cs@.len() ==> container_like(#[trigger] r@[i], cs@[i]),
{
    let n = cs.len();
    let mut r: Vec<Container> = Vec::new();
    let mut i: usize = 0;
    while i < n
        invariant
            i <= n,
            n == cs@.len(),
            r@.len() == i,
            forall|k: int| 0 <= k < i ==> container_like(#[trigger] r@[k], cs@[k]),
        decreases n - i,
    {
        r.push(cs[i].duplicate());
        i = i + 1;
    }
    r
}

/// An exact copy of a volume list.
pub fn duplicate_volumes(vs: &Vec<Volume>) -> (r: Vec<Volume>)
    ensures
        r@ == vs@,
{
    let n = vs.len();
    let mut r: Vec<Volume> = Vec::new();
    let mut i: usize = 0;
    while i < n
        invariant
            i <= n,
            n == vs@.len(),
            r@ == vs@.subrange(0, i as int),
        decreases n - i,
    {
        r.push(vs[i].duplicate());
        proof {
            assert(r@ =~= vs@.subrange(0, i + 1));
        }
        i = i + 1;
    }
    proof {
        assert(vs@.subrange(0, n as int) =~= vs@);
    }
    r
}

} // verus!
