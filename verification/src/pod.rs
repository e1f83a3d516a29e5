//! The parts of a pod that the injection reads.
use crate::json::{json_view, JsonView};
use crate::string_map::StringMap;
use crate::text::texts;
use serde_json::Value;
use vstd::prelude::*;

verus! {

/// A container of a pod. Of the volume mounts and the environment the names are kept; a
/// list that is absent is not the same as an empty one.
#[derive(Debug)]
pub struct ContainerInfo {
    pub name: String,
    pub volume_mounts: Option<Vec<String>>,
    pub env: Option<Vec<String>>,
}

/// The specification of a pod. Of the volumes the names are kept.
#[derive(Debug)]
pub struct SpecInfo {
    pub volumes: Option<Vec<String>>,
    pub containers: Vec<ContainerInfo>,
    pub init_containers: Option<Vec<ContainerInfo>>,
}

/// The metadata of a pod.
#[derive(Debug)]
pub struct MetadataInfo {
    pub name: Option<String>,
    pub generate_name: Option<String>,
    pub annotations: Option<StringMap<String>>,
}

/// A pod.
#[derive(Debug)]
pub struct PodInfo {
    pub metadata: MetadataInfo,
    pub spec: Option<SpecInfo>,
}

pub struct ContainerView {
    pub name: Seq<char>,
    pub volume_mounts: Option<Seq<Seq<char>>>,
    pub env: Option<Seq<Seq<char>>>,
}

pub struct PodSpecView {
    pub volumes: Option<Seq<Seq<char>>>,
    pub containers: Seq<ContainerView>,
    pub init_containers: Option<Seq<ContainerView>>,
}

pub struct PodMetadataView {
    pub name: Option<Seq<char>>,
    pub generate_name: Option<Seq<char>>,
    pub annotations: Option<Map<Seq<char>, Seq<char>>>,
}

pub struct PodView {
    pub metadata: PodMetadataView,
    pub spec: Option<PodSpecView>,
}

/// What an optional text holds.
pub open spec fn optional_text(text: Option<String>) -> Option<Seq<char>> {
    match text {
        Some(text) => Some(text@),
        None => None,
    }
}

/// What an optional list of texts holds.
pub open spec fn optional_texts(items: Option<Vec<String>>) -> Option<Seq<Seq<char>>> {
    match items {
        Some(items) => Some(texts(items@)),
        None => None,
    }
}

/// What some containers hold.
pub open spec fn container_views(containers: Seq<ContainerInfo>) -> Seq<ContainerView> {
    containers.map_values(|container: ContainerInfo| container@)
}

impl View for ContainerInfo {
    type V = ContainerView;

    open spec fn view(&self) -> ContainerView {
        ContainerView {
            name: self.name@,
            volume_mounts: optional_texts(self.volume_mounts),
            env: optional_texts(self.env),
        }
    }
}

impl View for SpecInfo {
    type V = PodSpecView;

    open spec fn view(&self) -> PodSpecView {
        PodSpecView {
            volumes: optional_texts(self.volumes),
            containers: container_views(self.containers@),
            init_containers: match self.init_containers {
                Some(containers) => Some(container_views(containers@)),
                None => None,
            },
        }
    }
}

impl View for MetadataInfo {
    type V = PodMetadataView;

    open spec fn view(&self) -> PodMetadataView {
        PodMetadataView {
            name: optional_text(self.name),
            generate_name: optional_text(self.generate_name),
            annotations: match self.annotations {
                Some(annotations) => Some(annotations@.map_values(|value: String| value@)),
                None => None,
            },
        }
    }
}

impl View for PodInfo {
    type V = PodView;

    open spec fn view(&self) -> PodView {
        PodView {
            metadata: self.metadata@,
            spec: match self.spec {
                Some(spec) => Some(spec@),
                None => None,
            },
        }
    }
}

#[verifier::external_type_specification]
#[verifier::external_body]
pub struct ExPod(k8s_openapi::api::core::v1::Pod);

/// The parts of a Kubernetes pod that the library reads.
pub uninterp spec fn pod_view(pod: k8s_openapi::api::core::v1::Pod) -> PodView;

/// The text that a member holds, or another where there is none.
pub open spec fn text_member(document: JsonView, key: Seq<char>, otherwise: Seq<char>) -> Seq<char> {
    match document.member(key) {
        Some(member) => match member.text() {
            Some(text) => text,
            None => otherwise,
        },
        None => otherwise,
    }
}

/// The names of the items of a list that stands under a key.
pub open spec fn names_in(document: JsonView, key: Seq<char>) -> Option<Seq<Seq<char>>> {
    match document.member(key) {
        Some(JsonView::Array(items)) => Some(
            items.map_values(|item: JsonView| text_member(item, "name"@, ""@)),
        ),
        _ => None,
    }
}

/// The container that an object describes.
pub open spec fn container_in(document: JsonView) -> ContainerView {
    ContainerView {
        name: text_member(document, "name"@, ""@),
        volume_mounts: names_in(document, "volumeMounts"@),
        env: names_in(document, "env"@),
    }
}

/// The containers of a list that stands under a key.
pub open spec fn containers_in(document: JsonView, key: Seq<char>) -> Option<Seq<ContainerView>> {
    match document.member(key) {
        Some(JsonView::Array(items)) => Some(items.map_values(|item: JsonView| container_in(item))),
        _ => None,
    }
}

/// The specification that an object describes. Absent containers are none.
pub open spec fn spec_in(document: JsonView) -> PodSpecView {
    PodSpecView {
        volumes: names_in(document, "volumes"@),
        containers: match containers_in(document, "containers"@) {
            Some(containers) => containers,
            None => Seq::empty(),
        },
        init_containers: containers_in(document, "initContainers"@),
    }
}

/// The text of a member of the metadata.
pub open spec fn metadata_text(document: JsonView, key: Seq<char>) -> Option<Seq<char>> {
    match document.member("metadata"@) {
        Some(metadata) => match metadata.member(key) {
            Some(member) => member.text(),
            None => None,
        },
        None => None,
    }
}

/// The annotations that a document holds.
pub open spec fn annotations_in(document: JsonView) -> Option<Map<Seq<char>, Seq<char>>> {
    match document.member("metadata"@) {
        Some(metadata) => match metadata.member("annotations"@) {
            Some(JsonView::Object(annotations)) => Some(
                annotations.map_values(
                    |value: JsonView|
                        match value.text() {
                            Some(text) => text,
                            None => Seq::empty(),
                        },
                ),
            ),
            _ => None,
        },
        None => None,
    }
}

/// The pod that a document describes.
pub open spec fn pod_in(document: JsonView) -> PodView {
    PodView {
        metadata: PodMetadataView {
            name: metadata_text(document, "name"@),
            generate_name: metadata_text(document, "generateName"@),
            annotations: annotations_in(document),
        },
        spec: match document.member("spec"@) {
            Some(JsonView::Object(members)) => Some(spec_in(JsonView::Object(members))),
            _ => None,
        },
    }
}

/// Whether every item of a list that stands under a key is an object.
pub open spec fn holds_objects(document: JsonView, key: Seq<char>) -> bool {
    document.member(key) matches Some(JsonView::Array(items)) ==> forall|i: int|
        0 <= i < items.len() ==> #[trigger] items[i] is Object
}

/// Whether a document is an object in which every container is an object.
pub open spec fn pod_shaped(document: JsonView) -> bool {
    &&& document is Object
    &&& document.member("spec"@) matches Some(spec) ==> holds_objects(spec, "containers"@) && holds_objects(
        spec,
        "initContainers"@,
    )
}

/// Whether `serde_json::from_value` reads a document as a pod of `k8s_openapi`: every
/// field that this type knows is of its type, at any depth.
pub uninterp spec fn is_pod(document: JsonView) -> bool;

/// The pod that is read from a document, if it is one.
pub open spec fn pod_of_json(document: JsonView) -> Option<PodView> {
    if is_pod(document) {
        Some(pod_in(document))
    } else {
        None
    }
}

/// Calls `serde_json::from_value` for the pod type of `k8s_openapi` on a copy of the
/// value. A document that is read is an object whose containers are objects, and each
/// field holds what stands under its name. Which documents are read is not said further.
#[verifier::external_body]
fn parse_pod(value: &Value) -> (pod: Option<k8s_openapi::api::core::v1::Pod>)
    ensures
        match pod {
            Some(pod) => {
                &&& is_pod(json_view(*value))
                &&& pod_shaped(json_view(*value))
                &&& pod_view(pod) == pod_in(json_view(*value))
            },
            None => !is_pod(json_view(*value)),
        },
{
    serde_json::from_value(value.clone()).ok()
}

/// Copies the fields of `metadata` of a pod of `k8s_openapi`.
#[verifier::external_body]
fn read_metadata(pod: &k8s_openapi::api::core::v1::Pod) -> (metadata: MetadataInfo)
    ensures
        metadata@ == pod_view(*pod).metadata,
{
    let metadata = pod.metadata.clone();
    MetadataInfo {
        name: metadata.name,
        generate_name: metadata.generate_name,
        annotations: metadata.annotations.map(|map| StringMap { entries: map.into_iter().collect() }),
    }
}

/// Copies the fields of `spec` of a pod of `k8s_openapi`; of volumes, volume mounts and
/// environment variables their names.
#[verifier::external_body]
fn read_spec(pod: &k8s_openapi::api::core::v1::Pod) -> (spec: Option<SpecInfo>)
    ensures
        pod_view(*pod).spec == match spec {
            Some(spec) => Some(spec@),
            None => None,
        },
{
    let container = |c: k8s_openapi::api::core::v1::Container| ContainerInfo {
        name: c.name,
        volume_mounts: c.volume_mounts.map(|list| list.into_iter().map(|m| m.name).collect()),
        env: c.env.map(|list| list.into_iter().map(|e| e.name).collect()),
    };
    let containers = |list: Vec<k8s_openapi::api::core::v1::Container>| list.into_iter().map(container).collect();
    pod.spec.clone().map(|spec| SpecInfo {
        volumes: spec.volumes.map(|list| list.into_iter().map(|v| v.name).collect()),
        containers: containers(spec.containers),
        init_containers: spec.init_containers.map(containers),
    })
}

/// Reads a pod from a JSON value.
pub fn pod_from_value(value: &Value) -> (pod: Option<PodInfo>)
    ensures
        pod_of_json(json_view(*value)) == match pod {
            Some(pod) => Some(pod@),
            None => None,
        },
        pod is Some ==> pod_shaped(json_view(*value)),
{
    match parse_pod(value) {
        Some(pod) => Some(PodInfo { metadata: read_metadata(&pod), spec: read_spec(&pod) }),
        None => None,
    }
}

impl PodInfo {
    /// The value of an annotation.
    pub fn annotation(&self, key: &str) -> (value: Option<&String>)
        ensures
            match value {
                Some(value) => self@.annotation(key@) == Some(value@),
                None => self@.annotation(key@) is None,
            },
    {
        match &self.metadata.annotations {
            Some(annotations) => annotations.get(key),
            None => None,
        }
    }
}

impl PodView {
    /// The value of an annotation.
    pub open spec fn annotation(self, key: Seq<char>) -> Option<Seq<char>> {
        match self.metadata.annotations {
            Some(annotations) => if annotations.contains_key(key) {
                Some(annotations[key])
            } else {
                None
            },
            None => None,
        }
    }
}

} // verus!
