//! The mutating admission webhook: which patch a pod gets, and what a review is answered.
use crate::encoding::{base64_encode, base64_text};
use crate::json::{
    empty_array, json_array, json_as_str, json_bool, json_get, json_null, json_object, json_string, json_text,
    json_to_string, json_view, json_with, JsonView,
};
use crate::json_patch::{law_patch_injects, patched};
use crate::pod::{
    container_views, pod_from_value, pod_in, pod_of_json, pod_shaped, text_member, ContainerInfo, ContainerView, PodInfo,
    PodSpecView, PodView,
};
use crate::text::{concat3, decimal, decimal_text, is_item, join, join_text, list_items, split_list, texts};
use serde_json::Value;
use vstd::prelude::*;
use vstd::utf8::encode_utf8;

verus! {

/// One operation of a JSON patch. It adds `value` at `path`.
#[derive(Debug)]
pub struct PatchOp {
    pub path: String,
    pub value: Value,
}

pub struct PatchOpView {
    pub path: Seq<char>,
    pub value: JsonView,
}

impl View for PatchOp {
    type V = PatchOpView;

    open spec fn view(&self) -> PatchOpView {
        PatchOpView { path: self.path@, value: json_view(self.value) }
    }
}

/// What some operations hold.
pub open spec fn op_views(ops: Seq<PatchOp>) -> Seq<PatchOpView> {
    ops.map_values(|op: PatchOp| op@)
}

/// What is injected into a pod: the secret that holds the authority's certificate, where
/// it is mounted, and the environment variables that point to it.
#[derive(Debug)]
pub struct Injection {
    pub secret_name: String,
    pub mount_path: String,
    pub env_names: Vec<String>,
}

pub struct InjectionView {
    pub secret_name: Seq<char>,
    pub mount_path: Seq<char>,
    pub env_names: Seq<Seq<char>>,
}

impl View for Injection {
    type V = InjectionView;

    open spec fn view(&self) -> InjectionView {
        InjectionView {
            secret_name: self.secret_name@,
            mount_path: self.mount_path@,
            env_names: texts(self.env_names@),
        }
    }
}

/// The environment variables that every container gets.
pub open spec fn default_env_names() -> Seq<Seq<char>> {
    seq!["SSL_CERT_FILE"@, "REQUESTS_CA_BUNDLE"@, "NODE_EXTRA_CA_CERTS"@]
}

/// What a pod asks for: nothing unless it names a secret; the mount path is `/ssl` unless
/// it names another; the variables are the default ones and those that it lists.
pub open spec fn requested_injection(pod: PodView) -> Option<InjectionView> {
    match pod.annotation("rustjack.io/ca-secret"@) {
        Some(secret_name) => Some(
            InjectionView {
                secret_name,
                mount_path: match pod.annotation("rustjack.io/mount-path"@) {
                    Some(path) => path,
                    None => "/ssl"@,
                },
                env_names: default_env_names() + match pod.annotation("rustjack.io/extra-envs"@) {
                    Some(list) => list_items(list, ','),
                    None => Seq::empty(),
                },
            },
        ),
        None => None,
    }
}

impl InjectionView {
    /// The file that the variables point to.
    pub open spec fn ca_file(self) -> Seq<char> {
        self.mount_path + "/ca.crt"@
    }

    /// The volume that holds the secret.
    pub open spec fn volume(self) -> JsonView {
        JsonView::Object(
            map![
                "name"@ => JsonView::Text("rustjack-injected-ssl"@),
                "secret"@ => JsonView::Object(map!["secretName"@ => JsonView::Text(self.secret_name)]),
            ],
        )
    }

    /// The mount of that volume in a container.
    pub open spec fn mount(self) -> JsonView {
        JsonView::Object(
            map![
                "name"@ => JsonView::Text("rustjack-injected-ssl"@),
                "mountPath"@ => JsonView::Text(self.mount_path),
                "readOnly"@ => JsonView::Bool(true),
            ],
        )
    }

    /// An environment variable that points to the file.
    pub open spec fn env_var(self, name: Seq<char>) -> JsonView {
        JsonView::Object(map!["name"@ => JsonView::Text(name), "value"@ => JsonView::Text(self.ca_file())])
    }

    /// The environment variables that a container gets.
    pub open spec fn env_vars(self) -> Seq<JsonView> {
        Seq::new(self.env_names.len(), |i: int| self.env_var(self.env_names[i]))
    }

    /// The operations that append the first `count` variables to the list at `path`.
    pub open spec fn env_ops(self, path: Seq<char>, count: int) -> Seq<PatchOpView> {
        Seq::new(count as nat, |i: int| PatchOpView { path, value: self.env_var(self.env_names[i]) })
    }

    /// The operations on one container: a list that the container lacks is made first.
    pub open spec fn container_ops(self, path: Seq<char>, container: ContainerView) -> Seq<PatchOpView> {
        let new_mounts = if container.volume_mounts is None {
            seq![PatchOpView { path: path + "/volumeMounts"@, value: empty_array() }]
        } else {
            Seq::empty()
        };
        let new_env = if container.env is None {
            seq![PatchOpView { path: path + "/env"@, value: empty_array() }]
        } else {
            Seq::empty()
        };
        new_mounts + seq![PatchOpView { path: path + "/volumeMounts/-"@, value: self.mount() }] + new_env
            + self.env_ops(path + "/env/-"@, self.env_names.len() as int)
    }

    /// The operations on the containers of a list, one container after the other.
    pub open spec fn containers_ops(self, path: Seq<char>, containers: Seq<ContainerView>) -> Seq<PatchOpView>
        decreases containers.len(),
    {
        if containers.len() == 0 {
            Seq::empty()
        } else {
            let last = (containers.len() - 1) as nat;
            self.containers_ops(path, containers.drop_last()) + self.container_ops(
                path + "/"@ + decimal_text(last),
                containers.last(),
            )
        }
    }

    /// The variables of a container that the injection sets anew, in the order in which it
    /// sets them, each with the container's name before it.
    pub open spec fn overwritten_in(self, container: ContainerView) -> Seq<Seq<char>> {
        match container.env {
            Some(env) => self.env_names.filter(|name: Seq<char>| env.contains(name)).map_values(
                |name: Seq<char>| container.name + "/"@ + name,
            ),
            None => Seq::empty(),
        }
    }

    /// The variables that the injection sets anew in the containers of a list.
    pub open spec fn overwritten_in_all(self, containers: Seq<ContainerView>) -> Seq<Seq<char>>
        decreases containers.len(),
    {
        if containers.len() == 0 {
            Seq::empty()
        } else {
            self.overwritten_in_all(containers.drop_last()) + self.overwritten_in(containers.last())
        }
    }

    /// The operations on the specification of a pod: the list of volumes is made where the
    /// pod lacks one, then come the volume, the containers and the init containers.
    pub open spec fn spec_ops(self, spec: PodSpecView) -> Seq<PatchOpView> {
        let new_volumes = if spec.volumes is None {
            seq![PatchOpView { path: "/spec/volumes"@, value: empty_array() }]
        } else {
            Seq::empty()
        };
        new_volumes + seq![PatchOpView { path: "/spec/volumes/-"@, value: self.volume() }]
            + self.containers_ops("/spec/containers"@, spec.containers) + match spec.init_containers {
            Some(containers) => self.containers_ops("/spec/initContainers"@, containers),
            None => Seq::empty(),
        }
    }

    /// All variables of a pod that the injection sets anew.
    pub open spec fn overwritten(self, pod: PodView) -> Seq<Seq<char>> {
        match pod.spec {
            Some(spec) => self.overwritten_in_all(spec.containers) + match spec.init_containers {
                Some(containers) => self.overwritten_in_all(containers),
                None => Seq::empty(),
            },
            None => Seq::empty(),
        }
    }

    /// The patch of a pod: the operations on its specification, where it has one, and an
    /// annotation that lists the variables set anew, where there are any.
    pub open spec fn patch(self, pod: PodView) -> Seq<PatchOpView> {
        let spec_ops = match pod.spec {
            Some(spec) => self.spec_ops(spec),
            None => Seq::empty(),
        };
        let overwritten = self.overwritten(pod);
        if overwritten.len() == 0 {
            spec_ops
        } else {
            spec_ops.push(
                PatchOpView {
                    path: "/metadata/annotations/rustjack.io~1overwritten-envs"@,
                    value: JsonView::Text(join_text(overwritten, ","@)),
                },
            )
        }
    }
}

/// Appends an operation.
fn push_op(ops: &mut Vec<PatchOp>, path: String, value: Value)
    ensures
        op_views(final(ops)@) == op_views(old(ops)@).push(PatchOpView { path: path@, value: json_view(value) }),
{
    let ghost before = ops@;
    ops.push(PatchOp { path, value });
    assert(op_views(ops@) == op_views(before).push(PatchOpView { path: path@, value: json_view(value) }));
}

/// Builds the empty JSON array.
fn no_items() -> (value: Value)
    ensures
        json_view(value) == empty_array(),
{
    let items: Vec<Value> = Vec::new();
    let value = json_array(items);
    assert(json_view(value)->Array_0 == Seq::<JsonView>::empty());
    value
}

impl Injection {
    /// Builds the volume that holds the secret.
    fn volume(&self) -> (value: Value)
        ensures
            json_view(value) == self@.volume(),
    {
        let secret = json_with(json_object(), "secretName", json_string(self.secret_name.as_str()));
        json_with(
            json_with(json_object(), "name", json_string("rustjack-injected-ssl")),
            "secret",
            secret,
        )
    }

    /// Builds the mount of that volume.
    fn mount(&self) -> (value: Value)
        ensures
            json_view(value) == self@.mount(),
    {
        let name = json_with(json_object(), "name", json_string("rustjack-injected-ssl"));
        let path = json_with(name, "mountPath", json_string(self.mount_path.as_str()));
        json_with(path, "readOnly", json_bool(true))
    }

    /// Builds a variable that points to the file.
    fn env_var(&self, name: &str) -> (value: Value)
        ensures
            json_view(value) == self@.env_var(name@),
    {
        let file = concat3(self.mount_path.as_str(), "/ca.crt", "");
        proof {
            reveal_strlit("");
            assert(file@ == self@.ca_file());
        }
        json_with(
            json_with(json_object(), "name", json_string(name)),
            "value",
            json_string(file.as_str()),
        )
    }

    /// Appends the operations on the container at `path`.
    fn push_container_ops(&self, ops: &mut Vec<PatchOp>, path: &str, container: &ContainerInfo)
        ensures
            op_views(final(ops)@) == op_views(old(ops)@) + self@.container_ops(path@, container@),
    {
        let ghost before = op_views(ops@);
        if container.volume_mounts.is_none() {
            push_op(ops, path.to_owned().concat("/volumeMounts"), no_items());
        }
        push_op(ops, path.to_owned().concat("/volumeMounts/-"), self.mount());
        if container.env.is_none() {
            push_op(ops, path.to_owned().concat("/env"), no_items());
        }
        let ghost middle = op_views(ops@);
        let list = path.to_owned().concat("/env/-");
        for i in 0..self.env_names.len()
            invariant
                op_views(ops@) == middle + self@.env_ops(list@, i as int),
        {
            push_op(ops, list.clone(), self.env_var(self.env_names[i].as_str()));
            assert(op_views(ops@) == middle + self@.env_ops(list@, i + 1));
        }
        assert(op_views(ops@) == before + self@.container_ops(path@, container@));
    }

    /// Appends the variables of a container that the injection sets anew.
    fn push_overwritten(&self, overwritten: &mut Vec<String>, container: &ContainerInfo)
        ensures
            texts(final(overwritten)@) == texts(old(overwritten)@) + self@.overwritten_in(container@),
    {
        let ghost before = texts(overwritten@);
        if let Some(env) = &container.env {
            let ghost keep = |name: Seq<char>| texts(env@).contains(name);
            let ghost names = self@.env_names;
            let ghost label = |name: Seq<char>| container@.name + "/"@ + name;
            proof {
                reveal(Seq::filter);
                assert(before == before + names.take(0).filter(keep).map_values(label));
            }
            for i in 0..self.env_names.len()
                invariant
                    names == texts(self.env_names@),
                    keep == (|name: Seq<char>| texts(env@).contains(name)),
                    label == (|name: Seq<char>| container@.name + "/"@ + name),
                    texts(overwritten@) == before + names.take(i as int).filter(keep).map_values(label),
            {
                let ghost earlier = names.take(i as int).filter(keep);
                let ghost held = overwritten@;
                assert(names.take(i + 1).drop_last() == names.take(i as int));
                proof {
                    reveal(Seq::filter);
                }
                if is_item(env, &self.env_names[i]) {
                    let entry = concat3(container.name.as_str(), "/", self.env_names[i].as_str());
                    overwritten.push(entry);
                    assert(texts(overwritten@) == texts(held).push(entry@));
                    assert(names.take(i + 1).filter(keep) == earlier.push(names[i as int]));
                    assert(earlier.push(names[i as int]).map_values(label) == earlier.map_values(label).push(entry@));
                    assert(texts(overwritten@) == before + names.take(i + 1).filter(keep).map_values(label));
                } else {
                    assert(names.take(i + 1).filter(keep) == earlier);
                }
            }
            assert(names.take(names.len() as int) == names);
        }
        assert(texts(overwritten@) == before + self@.overwritten_in(container@));
    }

    /// Appends the operations on the containers of a list, and the variables of theirs that
    /// the injection sets anew.
    fn push_containers(
        &self,
        ops: &mut Vec<PatchOp>,
        overwritten: &mut Vec<String>,
        path: &str,
        containers: &Vec<ContainerInfo>,
    )
        ensures
            op_views(final(ops)@) == op_views(old(ops)@) + self@.containers_ops(
                path@,
                container_views(containers@),
            ),
            texts(final(overwritten)@) == texts(old(overwritten)@) + self@.overwritten_in_all(
                container_views(containers@),
            ),
    {
        let ghost ops_before = op_views(ops@);
        let ghost overwritten_before = texts(overwritten@);
        let ghost all = container_views(containers@);
        assert(ops_before == ops_before + self@.containers_ops(path@, all.take(0)));
        assert(overwritten_before == overwritten_before + self@.overwritten_in_all(all.take(0)));
        for i in 0..containers.len()
            invariant
                all == container_views(containers@),
                op_views(ops@) == ops_before + self@.containers_ops(path@, all.take(i as int)),
                texts(overwritten@) == overwritten_before + self@.overwritten_in_all(all.take(i as int)),
        {
            assert(all.take(i + 1).drop_last() == all.take(i as int));
            let item = concat3(path, "/", decimal(i).as_str());
            self.push_container_ops(ops, item.as_str(), &containers[i]);
            self.push_overwritten(overwritten, &containers[i]);
            assert(op_views(ops@) == ops_before + self@.containers_ops(path@, all.take(i + 1)));
            assert(texts(overwritten@) == overwritten_before + self@.overwritten_in_all(all.take(i + 1)));
        }
        assert(all.take(all.len() as int) == all);
    }

    /// Builds the patch of a pod, and the list of the variables that it sets anew.
    pub fn patch(&self, pod: &PodInfo) -> (patch: (Vec<PatchOp>, Vec<String>))
        ensures
            op_views(patch.0@) == self@.patch(pod@),
            texts(patch.1@) == self@.overwritten(pod@),
    {
        let mut ops: Vec<PatchOp> = Vec::new();
        let mut overwritten: Vec<String> = Vec::new();
        assert(op_views(ops@) == Seq::<PatchOpView>::empty());
        assert(texts(overwritten@) == Seq::<Seq<char>>::empty());
        if let Some(spec) = &pod.spec {
            if spec.volumes.is_none() {
                push_op(&mut ops, "/spec/volumes".to_owned(), no_items());
            }
            push_op(&mut ops, "/spec/volumes/-".to_owned(), self.volume());
            self.push_containers(&mut ops, &mut overwritten, "/spec/containers", &spec.containers);
            if let Some(containers) = &spec.init_containers {
                self.push_containers(&mut ops, &mut overwritten, "/spec/initContainers", containers);
            }
            assert(op_views(ops@) == self@.spec_ops(spec@));
        }
        assert(texts(overwritten@) == self@.overwritten(pod@));
        if overwritten.len() > 0 {
            let list = join(&overwritten, ",");
            push_op(
                &mut ops,
                "/metadata/annotations/rustjack.io~1overwritten-envs".to_owned(),
                json_string(list.as_str()),
            );
        }
        (ops, overwritten)
    }
}

/// Reads what a pod asks for.
pub fn injection_for(pod: &PodInfo) -> (injection: Option<Injection>)
    ensures
        requested_injection(pod@) == match injection {
            Some(injection) => Some(injection@),
            None => None,
        },
{
    let secret_name = match pod.annotation("rustjack.io/ca-secret") {
        Some(name) => name.clone(),
        None => return None,
    };
    let mount_path = match pod.annotation("rustjack.io/mount-path") {
        Some(path) => path.clone(),
        None => "/ssl".to_owned(),
    };
    let mut env_names: Vec<String> = Vec::new();
    env_names.push("SSL_CERT_FILE".to_owned());
    env_names.push("REQUESTS_CA_BUNDLE".to_owned());
    env_names.push("NODE_EXTRA_CA_CERTS".to_owned());
    let ghost defaults = env_names@;
    assert(texts(defaults) == default_env_names());
    if let Some(list) = pod.annotation("rustjack.io/extra-envs") {
        let mut extra = split_list(list.as_str(), ',');
        let ghost added = extra@;
        env_names.append(&mut extra);
        assert(texts(env_names@) == texts(defaults) + texts(added));
    }
    Some(Injection { secret_name, mount_path, env_names })
}

/// An operation in the form in which a JSON patch lists it.
pub open spec fn op_json(op: PatchOpView) -> JsonView {
    JsonView::Object(
        map!["op"@ => JsonView::Text("add"@), "path"@ => JsonView::Text(op.path), "value"@ => op.value],
    )
}

/// A JSON patch document.
pub open spec fn patch_json(ops: Seq<PatchOpView>) -> JsonView {
    JsonView::Array(ops.map_values(|op: PatchOpView| op_json(op)))
}

/// The answer to a review that holds no request.
pub open spec fn bare_response() -> JsonView {
    JsonView::Object(map!["response"@ => JsonView::Object(map!["allowed"@ => JsonView::Bool(true)])])
}

/// The answer that admits the object of a request as it is.
pub open spec fn plain_response(uid: Seq<char>) -> JsonView {
    JsonView::Object(
        map![
            "response"@ => JsonView::Object(
                map!["uid"@ => JsonView::Text(uid), "allowed"@ => JsonView::Bool(true)],
            ),
        ],
    )
}

/// The answer that admits the object of a request with a patch, which travels as base 64.
pub open spec fn patch_response(uid: Seq<char>, ops: Seq<PatchOpView>) -> JsonView {
    JsonView::Object(
        map![
            "apiVersion"@ => JsonView::Text("admission.k8s.io/v1"@),
            "kind"@ => JsonView::Text("AdmissionReview"@),
            "response"@ => JsonView::Object(
                map![
                    "uid"@ => JsonView::Text(uid),
                    "allowed"@ => JsonView::Bool(true),
                    "patch"@ => JsonView::Text(base64_text(encode_utf8(json_text(patch_json(ops))))),
                    "patchType"@ => JsonView::Text("JSONPatch"@),
                ],
            ),
        ],
    )
}

/// The answer to a request for a pod: a pod that could not be read, or that asks for
/// nothing, is admitted as it is.
pub open spec fn pod_response(uid: Seq<char>, pod: Option<PodView>) -> JsonView {
    match pod {
        Some(pod) => match requested_injection(pod) {
            Some(injection) => patch_response(uid, injection.patch(pod)),
            None => plain_response(uid),
        },
        None => plain_response(uid),
    }
}

/// The object of a request, which is null where the request has none.
pub open spec fn request_object(request: JsonView) -> JsonView {
    match request.member("object"@) {
        Some(object) => object,
        None => JsonView::Null,
    }
}

/// The answer to an admission review.
pub open spec fn review_response(review: JsonView) -> JsonView {
    match review.member("request"@) {
        Some(request) => pod_response(
            text_member(request, "uid"@, ""@),
            pod_of_json(request_object(request)),
        ),
        None => bare_response(),
    }
}

/// What the answer to a review promises: a request whose object is no JSON object is
/// admitted as it is, an object that is read as a pod has only objects for containers, and a
/// patch applies to the object of the request and injects what its pod asks for, into every
/// container.
pub open spec fn review_promise(review: JsonView) -> bool {
    review.member("request"@) matches Some(request) ==> {
        let object = request_object(request);
        &&& object !is Object ==> review_response(review) == plain_response(text_member(request, "uid"@, ""@))
        &&& pod_of_json(object) is Some ==> pod_shaped(object)
        &&& pod_of_json(object) matches Some(pod) ==> requested_injection(pod) matches Some(injection) ==> patched(
            object,
            injection.patch(pod),
        ) == Some(injection.injected_pod(object, injection.overwritten(pod)))
    }
}

/// Where a pod is, for a reader of the log: its namespace and its name, or the prefix of
/// the name that it will get.
pub open spec fn pod_place(namespace: Seq<char>, pod: PodView) -> Seq<char> {
    namespace + "/"@ + match (pod.metadata.name, pod.metadata.generate_name) {
        (Some(name), _) => name,
        (None, Some(prefix)) => prefix + "<generated>"@,
        (None, None) => "unknown-pod"@,
    }
}

/// What was decided on a review.
#[derive(Debug)]
pub enum Outcome {
    /// The review holds no request.
    NoRequest,
    /// The object of the request is no pod.
    NoPod,
    /// The pod names no secret.
    NotAnnotated,
    /// The pod gets a patch.
    Injected { secret_name: String, place: String, overwritten: Vec<String> },
}

pub enum OutcomeView {
    NoRequest,
    NoPod,
    NotAnnotated,
    Injected { secret_name: Seq<char>, place: Seq<char>, overwritten: Seq<Seq<char>> },
}

impl View for Outcome {
    type V = OutcomeView;

    open spec fn view(&self) -> OutcomeView {
        match *self {
            Outcome::NoRequest => OutcomeView::NoRequest,
            Outcome::NoPod => OutcomeView::NoPod,
            Outcome::NotAnnotated => OutcomeView::NotAnnotated,
            Outcome::Injected { secret_name, place, overwritten } => OutcomeView::Injected {
                secret_name: secret_name@,
                place: place@,
                overwritten: texts(overwritten@),
            },
        }
    }
}

/// What is decided on a request for a pod.
pub open spec fn pod_outcome(namespace: Seq<char>, pod: Option<PodView>) -> OutcomeView {
    match pod {
        Some(pod) => match requested_injection(pod) {
            Some(injection) => OutcomeView::Injected {
                secret_name: injection.secret_name,
                place: pod_place(namespace, pod),
                overwritten: injection.overwritten(pod),
            },
            None => OutcomeView::NotAnnotated,
        },
        None => OutcomeView::NoPod,
    }
}

/// What is decided on an admission review.
pub open spec fn review_outcome(review: JsonView) -> OutcomeView {
    match review.member("request"@) {
        Some(request) => pod_outcome(
            text_member(request, "namespace"@, "unknown-ns"@),
            pod_of_json(request_object(request)),
        ),
        None => OutcomeView::NoRequest,
    }
}

/// Builds an operation in the form in which a JSON patch lists it.
fn op_value(op: PatchOp) -> (value: Value)
    ensures
        json_view(value) == op_json(op@),
{
    let kind = json_with(json_object(), "op", json_string("add"));
    json_with(json_with(kind, "path", json_string(op.path.as_str())), "value", op.value)
}

/// Builds a JSON patch document.
pub fn patch_value(ops: Vec<PatchOp>) -> (value: Value)
    ensures
        json_view(value) == patch_json(op_views(ops@)),
{
    let mut items: Vec<Value> = Vec::new();
    let ghost all = op_views(ops@);
    let ghost view = |item: Value| json_view(item);
    let ghost listed = |op: PatchOpView| op_json(op);
    assert(items@.map_values(view) == all.take(0).map_values(listed));
    for op in it: ops
        invariant
            it.seq() == ops@,
            all == op_views(ops@),
            view == (|item: Value| json_view(item)),
            listed == (|op: PatchOpView| op_json(op)),
            items@.map_values(view) == all.take(it.index()).map_values(listed),
    {
        let ghost before = items@;
        let value = op_value(op);
        items.push(value);
        assert(items@.map_values(view) == before.map_values(view).push(json_view(value)));
        assert(all.take(it.index() + 1).map_values(listed) == all.take(it.index()).map_values(listed).push(
            op_json(all[it.index()]),
        ));
    }
    assert(all.take(all.len() as int) == all);
    json_array(items)
}

/// Builds the answer that admits the object of a request as it is.
fn admit_as_is(uid: &str) -> (value: Value)
    ensures
        json_view(value) == plain_response(uid@),
{
    let response = json_with(json_object(), "uid", json_string(uid));
    json_with(json_object(), "response", json_with(response, "allowed", json_bool(true)))
}

/// Builds the answer that admits the object of a request with a patch.
fn admit_with_patch(uid: &str, ops: Vec<PatchOp>) -> (value: Value)
    ensures
        json_view(value) == patch_response(uid@, op_views(ops@)),
{
    let patch = json_to_string(&patch_value(ops));
    let encoded = base64_encode(patch.as_str().as_bytes());
    let response = json_with(json_object(), "uid", json_string(uid));
    let response = json_with(response, "allowed", json_bool(true));
    let response = json_with(response, "patch", json_string(encoded.as_str()));
    let response = json_with(response, "patchType", json_string("JSONPatch"));
    let review = json_with(json_object(), "apiVersion", json_string("admission.k8s.io/v1"));
    let review = json_with(review, "kind", json_string("AdmissionReview"));
    json_with(review, "response", response)
}

/// Says where a pod is.
fn place_of(namespace: &str, pod: &PodInfo) -> (place: String)
    ensures
        place@ == pod_place(namespace@, pod@),
{
    let name = match (&pod.metadata.name, &pod.metadata.generate_name) {
        (Some(name), _) => name.clone(),
        (None, Some(prefix)) => prefix.clone().concat("<generated>"),
        (None, None) => "unknown-pod".to_owned(),
    };
    concat3(namespace, "/", name.as_str())
}

/// The answer to a review and what was decided.
#[derive(Debug)]
pub struct Review {
    pub response: Value,
    pub outcome: Outcome,
}

/// Answers a request for a pod, given the pod that its object holds, if it holds one.
pub fn review_pod(uid: &str, namespace: &str, pod: Option<&PodInfo>) -> (review: Review)
    ensures
        json_view(review.response) == pod_response(
            uid@,
            match pod {
                Some(pod) => Some(pod@),
                None => None,
            },
        ),
        review.outcome@ == pod_outcome(
            namespace@,
            match pod {
                Some(pod) => Some(pod@),
                None => None,
            },
        ),
{
    let pod = match pod {
        Some(pod) => pod,
        None => return Review { response: admit_as_is(uid), outcome: Outcome::NoPod },
    };
    match injection_for(pod) {
        Some(injection) => {
            let (ops, overwritten) = injection.patch(pod);
            let place = place_of(namespace, pod);
            Review {
                response: admit_with_patch(uid, ops),
                outcome: Outcome::Injected { secret_name: injection.secret_name, place, overwritten },
            }
        },
        None => Review { response: admit_as_is(uid), outcome: Outcome::NotAnnotated },
    }
}

/// The text that a member holds, or another where there is none.
fn text_of<'a>(value: &'a Value, key: &str, otherwise: &'a str) -> (text: &'a str)
    ensures
        text@ == text_member(json_view(*value), key@, otherwise@),
{
    match json_get(value, key) {
        Some(member) => match json_as_str(member) {
            Some(text) => text,
            None => otherwise,
        },
        None => otherwise,
    }
}

/// Answers an admission review and says what was decided.
pub fn review(body: &Value) -> (review: Review)
    ensures
        json_view(review.response) == review_response(json_view(*body)),
        review.outcome@ == review_outcome(json_view(*body)),
        review_promise(json_view(*body)),
{
    let request = match json_get(body, "request") {
        Some(request) => request,
        None => {
            let response = json_with(json_object(), "allowed", json_bool(true));
            return Review {
                response: json_with(json_object(), "response", response),
                outcome: Outcome::NoRequest,
            };
        },
    };
    let uid = text_of(request, "uid", "");
    let namespace = text_of(request, "namespace", "unknown-ns");
    let pod = match json_get(request, "object") {
        Some(object) => pod_from_value(object),
        None => pod_from_value(&json_null()),
    };
    proof {
        let object = request_object(json_view(*request));
        if pod is Some && requested_injection(pod_in(object)) is Some {
            law_patch_injects(object, requested_injection(pod_in(object))->0);
        }
    }
    review_pod(uid, namespace, pod.as_ref())
}

/// Answers an admission review.
pub fn mutate_handler(body: &Value) -> (response: Value)
    ensures
        json_view(response) == review_response(json_view(*body)),
        review_promise(json_view(*body)),
{
    review(body).response
}

/// Every review is answered that its object is allowed.
pub proof fn law_always_allowed(review: JsonView)
    ensures
        review_response(review).member("response"@) matches Some(response) && response.member("allowed"@) == Some(
            JsonView::Bool(true),
        ),
{
    lemma_response_keys();
}

/// The answer to a request carries the uid of the request.
pub proof fn law_uid_returned(review: JsonView, request: JsonView)
    requires
        review.member("request"@) == Some(request),
    ensures
        review_response(review).member("response"@) matches Some(response) && response.member("uid"@) == Some(
            JsonView::Text(text_member(request, "uid"@, ""@)),
        ),
{
    lemma_response_keys();
}

/// The answer to a request holds a patch exactly where the object is a pod that names a
/// secret.
pub proof fn law_patch_on_request(review: JsonView, request: JsonView)
    requires
        review.member("request"@) == Some(request),
    ensures
        (review_response(review).member("response"@) matches Some(response) && response.member("patch"@) is Some)
            <==> (pod_of_json(request_object(request)) matches Some(pod) && pod.annotation(
            "rustjack.io/ca-secret"@,
        ) is Some),
{
    lemma_response_keys();
}

/// The members of an answer have different names.
pub(crate) proof fn lemma_response_keys()
    ensures
        "uid"@ != "allowed"@,
        "uid"@ != "patch"@,
        "uid"@ != "patchType"@,
        "allowed"@ != "patch"@,
        "allowed"@ != "patchType"@,
        "patch"@ != "patchType"@,
        "response"@ != "kind"@,
        "response"@ != "apiVersion"@,
{
    reveal_strlit("uid");
    reveal_strlit("allowed");
    reveal_strlit("patch");
    reveal_strlit("patchType");
    reveal_strlit("response");
    reveal_strlit("kind");
    reveal_strlit("apiVersion");
    assert("uid"@.len() == 3);
    assert("allowed"@.len() == 7);
    assert("patch"@.len() == 5);
    assert("patchType"@.len() == 9);
    assert("response"@.len() == 8);
    assert("kind"@.len() == 4);
    assert("apiVersion"@.len() == 10);
}

/// The default variables are among those that an injection sets.
pub proof fn law_default_variables(pod: PodView, injection: InjectionView)
    requires
        requested_injection(pod) == Some(injection),
    ensures
        injection.env_names.contains("SSL_CERT_FILE"@),
        injection.env_names.contains("REQUESTS_CA_BUNDLE"@),
        injection.env_names.contains("NODE_EXTRA_CA_CERTS"@),
{
    assert(injection.env_names[0] == "SSL_CERT_FILE"@);
    assert(injection.env_names[1] == "REQUESTS_CA_BUNDLE"@);
    assert(injection.env_names[2] == "NODE_EXTRA_CA_CERTS"@);
}

/// Whether a container has a variable that the injection sets anew.
pub open spec fn sets_anew(injection: InjectionView, container: ContainerView, variable: int) -> bool {
    container.env matches Some(env) && env.contains(injection.env_names[variable])
}

/// Whether an entry names a container of a list and a variable of it that the injection
/// sets anew.
pub open spec fn names_overwritten(injection: InjectionView, containers: Seq<ContainerView>, entry: Seq<char>) -> bool {
    exists|i: int, j: int|
        0 <= i < containers.len() && 0 <= j < injection.env_names.len() && #[trigger] sets_anew(
            injection,
            containers[i],
            j,
        ) && entry == containers[i].name + "/"@ + injection.env_names[j]
}

proof fn lemma_overwritten_in(injection: InjectionView, container: ContainerView, entry: Seq<char>)
    ensures
        injection.overwritten_in(container).contains(entry) <==> names_overwritten(
            injection,
            seq![container],
            entry,
        ),
{
    let names = injection.env_names;
    if let Some(env) = container.env {
        let keep = |name: Seq<char>| env.contains(name);
        let label = |name: Seq<char>| container.name + "/"@ + name;
        let kept = names.filter(keep);
        broadcast use vstd::seq_lib::group_filter_ensures;

        if injection.overwritten_in(container).contains(entry) {
            let k = choose|k: int| 0 <= k < kept.len() && kept.map_values(label)[k] == entry;
            assert(kept.contains(kept[k]));
            names.lemma_filter_contains_rev(keep, kept[k]);
            let j = choose|j: int| 0 <= j < names.len() && names[j] == kept[k];
            assert(sets_anew(injection, seq![container][0], j));
        }
        if names_overwritten(injection, seq![container], entry) {
            let (i, j) = choose|i: int, j: int|
                0 <= i < 1 && 0 <= j < names.len() && #[trigger] sets_anew(injection, seq![container][i], j)
                    && entry == container.name + "/"@ + names[j];
            assert(kept.contains(names[j]));
            let k = choose|k: int| 0 <= k < kept.len() && kept[k] == names[j];
            assert(kept.map_values(label)[k] == entry);
        }
    }
}

proof fn lemma_overwritten_in_all(injection: InjectionView, containers: Seq<ContainerView>, entry: Seq<char>)
    ensures
        injection.overwritten_in_all(containers).contains(entry) <==> names_overwritten(
            injection,
            containers,
            entry,
        ),
    decreases containers.len(),
{
    if containers.len() > 0 {
        let first = containers.drop_last();
        let last = containers.last();
        lemma_overwritten_in_all(injection, first, entry);
        lemma_overwritten_in(injection, last, entry);
        let earlier = injection.overwritten_in_all(first);
        let later = injection.overwritten_in(last);
        assert((earlier + later).contains(entry) <==> earlier.contains(entry) || later.contains(entry)) by {
            if earlier.contains(entry) {
                let k = choose|k: int| 0 <= k < earlier.len() && earlier[k] == entry;
                assert((earlier + later)[k] == entry);
            }
            if later.contains(entry) {
                let k = choose|k: int| 0 <= k < later.len() && later[k] == entry;
                assert((earlier + later)[earlier.len() + k] == entry);
            }
        }
        if names_overwritten(injection, first, entry) {
            let (i, j) = choose|i: int, j: int|
                0 <= i < first.len() && 0 <= j < injection.env_names.len() && #[trigger] sets_anew(
                    injection,
                    first[i],
                    j,
                ) && entry == first[i].name + "/"@ + injection.env_names[j];
            assert(sets_anew(injection, containers[i], j));
        }
        if names_overwritten(injection, seq![last], entry) {
            let (i, j) = choose|i: int, j: int|
                0 <= i < 1 && 0 <= j < injection.env_names.len() && #[trigger] sets_anew(injection, seq![last][i], j)
                    && entry == last.name + "/"@ + injection.env_names[j];
            assert(sets_anew(injection, containers[containers.len() - 1], j));
        }
        if names_overwritten(injection, containers, entry) {
            let (i, j) = choose|i: int, j: int|
                0 <= i < containers.len() && 0 <= j < injection.env_names.len() && #[trigger] sets_anew(
                    injection,
                    containers[i],
                    j,
                ) && entry == containers[i].name + "/"@ + injection.env_names[j];
            if i < first.len() {
                assert(sets_anew(injection, first[i], j));
            } else {
                assert(sets_anew(injection, seq![last][0], j));
            }
        }
    }
}

/// The list of variables set anew holds an entry exactly where a container, be it an init
/// container, has a variable that the injection sets.
pub proof fn law_overwritten_recorded(injection: InjectionView, pod: PodView, spec: PodSpecView, entry: Seq<char>)
    requires
        pod.spec == Some(spec),
    ensures
        injection.overwritten(pod).contains(entry) <==> {
            ||| names_overwritten(injection, spec.containers, entry)
            ||| spec.init_containers matches Some(containers) && names_overwritten(injection, containers, entry)
        },
{
    lemma_overwritten_in_all(injection, spec.containers, entry);
    if let Some(containers) = spec.init_containers {
        lemma_overwritten_in_all(injection, containers, entry);
        let earlier = injection.overwritten_in_all(spec.containers);
        let later = injection.overwritten_in_all(containers);
        if earlier.contains(entry) {
            let k = choose|k: int| 0 <= k < earlier.len() && earlier[k] == entry;
            assert((earlier + later)[k] == entry);
        }
        if later.contains(entry) {
            let k = choose|k: int| 0 <= k < later.len() && later[k] == entry;
            assert((earlier + later)[earlier.len() + k] == entry);
        }
    } else {
        assert(injection.overwritten(pod) == injection.overwritten_in_all(spec.containers));
    }
}

} // verus!
