//! What the webhook is for, stated on the documents that come in and go out.
use crate::encoding::{base64_bytes, law_base64_read_back};
use crate::json::{json_text, json_view, JsonView};
use crate::json_patch::{law_every_container_injected, law_patch_injects, list_under, patched};
use crate::pod::{
    annotations_in, is_pod, pod_in, pod_of_json, pod_shaped, ContainerInfo, ContainerView, PodInfo, PodMetadataView,
    PodSpecView, PodView,
};
use crate::text::{join_text, list_items, texts};
use crate::text_laws::law_list_read_back;
use crate::webhook::{
    lemma_response_keys, op_json, op_views, patch_json, pod_place, requested_injection, review_outcome, review_response,
    Injection, InjectionView, Outcome, OutcomeView, PatchOp, PatchOpView,
};
use vstd::prelude::*;
use vstd::utf8::encode_utf8;

verus! {

/// Whether a document holds some annotations.
pub open spec fn annotated(document: JsonView, annotations: Map<Seq<char>, JsonView>) -> bool {
    &&& document is Object
    &&& document->Object_0.contains_key("metadata"@)
    &&& document->Object_0["metadata"@] is Object
    &&& document->Object_0["metadata"@]->Object_0.contains_key("annotations"@)
    &&& document->Object_0["metadata"@]->Object_0["annotations"@] == JsonView::Object(annotations)
}

/// Whether some annotations ask for a directory: they name it, or name none and it is `/ssl`.
pub open spec fn asks_for_path(annotations: Map<Seq<char>, JsonView>, path: Seq<char>) -> bool {
    if annotations.contains_key("rustjack.io/mount-path"@) {
        annotations["rustjack.io/mount-path"@] == JsonView::Text(path)
    } else {
        path == seq!['/', 's', 's', 'l']
    }
}

/// Whether some members hold a list under a key, or no list and the list is empty.
pub open spec fn lists(members: Map<Seq<char>, JsonView>, key: Seq<char>, items: Seq<JsonView>) -> bool {
    if members.contains_key(key) && members[key] is Array {
        members[key] == JsonView::Array(items)
    } else {
        items.len() == 0
    }
}

/// The member of an object under a key is what its map holds there, and no other document has
/// members.
pub proof fn law_member_found(members: Map<Seq<char>, JsonView>, other: JsonView, key: Seq<char>, value: JsonView)
    requires
        other !is Object,
    ensures
        JsonView::Object(members).member(key) == Some(value) <==> members.contains_key(key) && members[key] == value,
        JsonView::Object(members).member(key) is None <==> !members.contains_key(key),
        other.member(key) is None,
        JsonView::Text(key).text() == Some(key),
        other !is Text ==> other.text() is None,
        JsonView::Object(members).text() is None,
{
}

/// A document asks for an injection exactly where it has the annotation for the secret, and
/// for the secret that stands there. The directory is the one that its own annotation names,
/// else `/ssl`, whatever other annotations there are.
pub proof fn law_annotations_decide(
    document: JsonView,
    annotations: Map<Seq<char>, JsonView>,
    secret_name: Seq<char>,
    path: Seq<char>,
)
    requires
        annotated(document, annotations),
    ensures
        !annotations.contains_key("rustjack.io/ca-secret"@) ==> requested_injection(pod_in(document)) is None,
        annotations.contains_key("rustjack.io/ca-secret"@) && annotations["rustjack.io/ca-secret"@]
            == JsonView::Text(secret_name) ==> {
            &&& requested_injection(pod_in(document)) is Some
            &&& requested_injection(pod_in(document))->0.secret_name == secret_name
            &&& asks_for_path(annotations, path) ==> requested_injection(pod_in(document))->0.mount_path == path
        },
{
    reveal_strlit("/ssl");
    assert("/ssl"@ == seq!['/', 's', 's', 'l']);
}

/// A document without annotations asks for nothing.
pub proof fn law_nothing_without_annotations(document: JsonView)
    requires
        forall|annotations: Map<Seq<char>, JsonView>| !#[trigger] annotated(document, annotations),
    ensures
        requested_injection(pod_in(document)) is None,
{
    if let Some(found) = annotations_in(document) {
        let annotations = document.member("metadata"@)->0.member("annotations"@)->0->Object_0;
        assert(annotated(document, annotations));
    }
}

/// The variables of an injection are the three that every container gets, in their order, and
/// then those that the document lists, in the order of the list and without empty ones.
pub proof fn law_variables_of_injection(
    document: JsonView,
    annotations: Map<Seq<char>, JsonView>,
    pieces: Seq<Seq<char>>,
    injection: InjectionView,
)
    requires
        annotated(document, annotations),
        requested_injection(pod_in(document)) == Some(injection),
        pieces.len() > 0,
        forall|i: int| 0 <= i < pieces.len() ==> !(#[trigger] pieces[i]).contains(','),
    ensures
        injection.env_names.len() >= 3,
        injection.env_names[0] == "SSL_CERT_FILE"@,
        injection.env_names[1] == "REQUESTS_CA_BUNDLE"@,
        injection.env_names[2] == "NODE_EXTRA_CA_CERTS"@,
        !annotations.contains_key("rustjack.io/extra-envs"@) ==> injection.env_names.len() == 3,
        annotations.contains_key("rustjack.io/extra-envs"@) && annotations["rustjack.io/extra-envs"@] == JsonView::Text(
            join_text(pieces, seq![',']),
        ) ==> injection.env_names.skip(3) == pieces.filter(|piece: Seq<char>| piece.len() > 0),
{
    law_list_read_back(pieces, ',');
    if annotations.contains_key("rustjack.io/extra-envs"@) && annotations["rustjack.io/extra-envs"@] == JsonView::Text(
        join_text(pieces, seq![',']),
    ) {
        assert(injection.env_names.skip(3) == list_items(join_text(pieces, seq![',']), ','));
    }
}

/// Every container of the document, be it an init container, has after the patch one mount
/// more, read-only and of the injected volume, in the directory that the annotations ask for;
/// and for each variable of the injection one more that is set to that directory with
/// `/ca.crt` behind it. Everything else of the container is as it was.
pub proof fn law_variables_point_into_mount(
    document: JsonView,
    annotations: Map<Seq<char>, JsonView>,
    path: Seq<char>,
    injection: InjectionView,
    key: Seq<char>,
    items: Seq<JsonView>,
    i: int,
    mounts: Seq<JsonView>,
    env: Seq<JsonView>,
)
    requires
        pod_shaped(document),
        annotated(document, annotations),
        asks_for_path(annotations, path),
        requested_injection(pod_in(document)) == Some(injection),
        document->Object_0.contains_key("spec"@),
        document->Object_0["spec"@] is Object,
        key == "containers"@ || key == "initContainers"@,
        document->Object_0["spec"@]->Object_0.contains_key(key),
        document->Object_0["spec"@]->Object_0[key] == JsonView::Array(items),
        0 <= i < items.len(),
        items[i] is Object,
        lists(items[i]->Object_0, "volumeMounts"@, mounts),
        lists(items[i]->Object_0, "env"@, env),
    ensures
        patched(document, injection.patch(pod_in(document))) matches Some(JsonView::Object(after)) && (
        after["spec"@] matches JsonView::Object(spec) && (spec[key] matches JsonView::Array(containers)
            && containers.len() == items.len() && (containers[i] matches JsonView::Object(container) && {
            &&& container["volumeMounts"@] == JsonView::Array(
                mounts.push(
                    JsonView::Object(
                        map![
                            "name"@ => JsonView::Text("rustjack-injected-ssl"@),
                            "mountPath"@ => JsonView::Text(path),
                            "readOnly"@ => JsonView::Bool(true),
                        ],
                    ),
                ),
            )
            &&& container["env"@] matches JsonView::Array(variables) && {
                &&& variables.len() == env.len() + injection.env_names.len()
                &&& variables.take(env.len() as int) == env
                &&& forall|j: int|
                    0 <= j < injection.env_names.len() ==> variables[env.len() + j] == JsonView::Object(
                        map![
                            "name"@ => JsonView::Text(#[trigger] injection.env_names[j]),
                            "value"@ => JsonView::Text(path + seq!['/', 'c', 'a', '.', 'c', 'r', 't']),
                        ],
                    )
            }
            &&& container.dom() == items[i]->Object_0.dom().insert("volumeMounts"@).insert("env"@)
            &&& forall|other: Seq<char>|
                other != "volumeMounts"@ && other != "env"@ && #[trigger] items[i]->Object_0.contains_key(other)
                    ==> container[other] == items[i]->Object_0[other]
        }))),
{
    let spec = document->Object_0["spec"@]->Object_0;
    let pod = pod_in(document);
    let overwritten = injection.overwritten(pod);
    law_patch_injects(document, injection);
    law_every_container_injected(document, injection, overwritten, spec, key, items, i);
    law_annotations_decide(document, annotations, injection.secret_name, path);
    reveal_strlit("/ca.crt");
    reveal_strlit("/ssl");
    reveal_strlit("spec");
    reveal_strlit("metadata");
    reveal_strlit("volumes");
    reveal_strlit("containers");
    reveal_strlit("initContainers");
    reveal_strlit("volumeMounts");
    reveal_strlit("env");
    assert("/ca.crt"@ == seq!['/', 'c', 'a', '.', 'c', 'r', 't']);
    assert("/ssl"@ == seq!['/', 's', 's', 'l']);
    assert("spec"@.len() != "metadata"@.len());
    assert("volumes"@.len() != "containers"@.len());
    assert("volumes"@.len() != "initContainers"@.len());
    assert("containers"@.len() != "initContainers"@.len());
    assert("volumeMounts"@.len() != "env"@.len());
    assert(injection.mount_path == path);
    let members = items[i]->Object_0;
    let after = injection.injected_pod(document, overwritten)->Object_0;
    let injected = after["spec"@]->Object_0;
    assert(after["spec"@] == JsonView::Object(injection.injected_spec(spec)));
    let containers = injected[key]->Array_0;
    assert(injected[key] == JsonView::Array(
        items.map_values(|item: JsonView| injection.injected_container(item)),
    ));
    assert(containers[i] == injection.injected_container(items[i]));
    let container = containers[i]->Object_0;
    assert(mounts == list_under(members, "volumeMounts"@));
    assert(env == list_under(members, "env"@));
    assert(container.dom() == members.dom().insert("volumeMounts"@).insert("env"@));
    let variables = container["env"@]->Array_0;
    assert(variables == env + injection.env_vars());
    assert(variables.take(env.len() as int) == env);
}

/// After the patch the document has one volume more, which holds the secret that the
/// annotations name. Besides the volumes, the containers and the note on overwritten
/// variables, everything is as it was.
pub proof fn law_rest_untouched(
    document: JsonView,
    annotations: Map<Seq<char>, JsonView>,
    secret_name: Seq<char>,
    injection: InjectionView,
    volumes: Seq<JsonView>,
)
    requires
        pod_shaped(document),
        annotated(document, annotations),
        annotations.contains_key("rustjack.io/ca-secret"@),
        annotations["rustjack.io/ca-secret"@] == JsonView::Text(secret_name),
        requested_injection(pod_in(document)) == Some(injection),
        document->Object_0.contains_key("spec"@) && document->Object_0["spec"@] is Object ==> lists(
            document->Object_0["spec"@]->Object_0,
            "volumes"@,
            volumes,
        ),
    ensures
        patched(document, injection.patch(pod_in(document))) matches Some(JsonView::Object(after)) && {
            let before = document->Object_0;
            let note = injection.overwritten(pod_in(document));
            &&& after.dom() == before.dom()
            &&& forall|key: Seq<char>|
                key != "spec"@ && key != "metadata"@ && #[trigger] before.contains_key(key) ==> after[key] == before[key]
            &&& before.contains_key("spec"@) && before["spec"@] !is Object ==> after["spec"@] == before["spec"@]
            &&& before.contains_key("spec"@) && before["spec"@] is Object ==> (after["spec"@] matches JsonView::Object(
                spec,
            ) && {
                &&& spec.dom() == before["spec"@]->Object_0.dom().insert("volumes"@)
                &&& spec["volumes"@] == JsonView::Array(
                    volumes.push(
                        JsonView::Object(
                            map![
                                "name"@ => JsonView::Text("rustjack-injected-ssl"@),
                                "secret"@ => JsonView::Object(map!["secretName"@ => JsonView::Text(secret_name)]),
                            ],
                        ),
                    ),
                )
                &&& forall|key: Seq<char>|
                    key != "volumes"@ && key != "containers"@ && key != "initContainers"@
                        && #[trigger] before["spec"@]->Object_0.contains_key(key) ==> spec[key]
                        == before["spec"@]->Object_0[key]
            })
            &&& after["metadata"@] matches JsonView::Object(metadata) && {
                &&& metadata.dom() == before["metadata"@]->Object_0.dom()
                &&& forall|key: Seq<char>|
                    key != "annotations"@ && #[trigger] metadata.contains_key(key) ==> metadata[key]
                        == before["metadata"@]->Object_0[key]
                &&& note.len() == 0 ==> metadata["annotations"@] == JsonView::Object(annotations)
                &&& note.len() > 0 ==> metadata["annotations"@] == JsonView::Object(
                    annotations.insert("rustjack.io/overwritten-envs"@, JsonView::Text(join_text(note, seq![',']))),
                )
            }
        },
{
    law_patch_injects(document, injection);
    law_annotations_decide(document, annotations, secret_name, Seq::empty());
    reveal_strlit("spec");
    reveal_strlit("metadata");
    reveal_strlit("volumes");
    reveal_strlit("containers");
    reveal_strlit("initContainers");
    reveal_strlit(",");
    assert(","@ == seq![',']);
    assert("spec"@.len() != "metadata"@.len());
    assert("volumes"@.len() != "containers"@.len());
    assert("volumes"@.len() != "initContainers"@.len());
    assert("containers"@.len() != "initContainers"@.len());
    let pod = pod_in(document);
    let before = document->Object_0;
    let after = injection.injected_pod(document, injection.overwritten(pod))->Object_0;
    assert(after.dom() =~= before.dom());
    if before.contains_key("spec"@) && before["spec"@] is Object {
        let spec = before["spec"@]->Object_0;
        let injected = after["spec"@]->Object_0;
        assert(after["spec"@] == JsonView::Object(injection.injected_spec(spec)));
        assert(volumes == list_under(spec, "volumes"@));
        assert(injected.dom() =~= spec.dom().insert("volumes"@));
    }
    let metadata = after["metadata"@]->Object_0;
    assert(metadata.dom() =~= before["metadata"@]->Object_0.dom());
}

/// A pod with some containers and init containers.
pub open spec fn pod_with(
    metadata: PodMetadataView,
    volumes: Option<Seq<Seq<char>>>,
    containers: Seq<ContainerView>,
    init_containers: Option<Seq<ContainerView>>,
) -> PodView {
    PodView { metadata, spec: Some(PodSpecView { volumes, containers, init_containers }) }
}

proof fn lemma_overwritten_in_all_of_two(injection: InjectionView, first: Seq<ContainerView>, second: Seq<ContainerView>)
    ensures
        injection.overwritten_in_all(first + second) == injection.overwritten_in_all(first)
            + injection.overwritten_in_all(second),
    decreases second.len(),
{
    if second.len() == 0 {
        assert(first + second == first);
    } else {
        assert((first + second).drop_last() == first + second.drop_last());
        lemma_overwritten_in_all_of_two(injection, first, second.drop_last());
        assert(injection.overwritten_in_all(first + second) == injection.overwritten_in_all(first)
            + injection.overwritten_in_all(second));
    }
}

/// The variables set anew are noted container by container, the init containers last.
pub proof fn law_noted_container_by_container(
    injection: InjectionView,
    metadata: PodMetadataView,
    volumes: Option<Seq<Seq<char>>>,
    first: Seq<ContainerView>,
    second: Seq<ContainerView>,
)
    ensures
        injection.overwritten(pod_with(metadata, volumes, first + second, None)) == injection.overwritten(
            pod_with(metadata, volumes, first, None),
        ) + injection.overwritten(pod_with(metadata, volumes, second, None)),
        injection.overwritten(pod_with(metadata, volumes, first, Some(second))) == injection.overwritten(
            pod_with(metadata, volumes, first, None),
        ) + injection.overwritten(pod_with(metadata, volumes, second, None)),
        injection.overwritten(pod_with(metadata, volumes, Seq::empty(), None)).len() == 0,
        injection.overwritten(PodView { metadata, spec: None }).len() == 0,
{
    lemma_overwritten_in_all_of_two(injection, first, second);
    assert(injection.overwritten(pod_with(metadata, volumes, first + second, None)) == injection.overwritten(
        pod_with(metadata, volumes, first, None),
    ) + injection.overwritten(pod_with(metadata, volumes, second, None)));
    assert(injection.overwritten(pod_with(metadata, volumes, first, Some(second))) == injection.overwritten(
        pod_with(metadata, volumes, first, None),
    ) + injection.overwritten(pod_with(metadata, volumes, second, None)));
}

/// Within a container they are noted in the order in which the injection sets them: a
/// variable that the container has is noted with the name of the container and a slash before
/// it, and any other is not noted.
pub proof fn law_noted_in_order(
    injection: InjectionView,
    names: Seq<Seq<char>>,
    name: Seq<char>,
    metadata: PodMetadataView,
    volumes: Option<Seq<Seq<char>>>,
    container: ContainerView,
)
    ensures
        ({
            let pod = pod_with(metadata, volumes, seq![container], None);
            let shorter = InjectionView { env_names: names, ..injection };
            let longer = InjectionView { env_names: names.push(name), ..injection };
            &&& (container.env matches Some(env) && env.contains(name)) ==> longer.overwritten(pod)
                == shorter.overwritten(pod).push(container.name + seq!['/'] + name)
            &&& !(container.env matches Some(env) && env.contains(name)) ==> longer.overwritten(pod)
                == shorter.overwritten(pod)
            &&& names.len() == 0 ==> shorter.overwritten(pod).len() == 0
        }),
{
    reveal_strlit("/");
    assert("/"@ == seq!['/']);
    reveal(Seq::filter);
    let pod = pod_with(metadata, volumes, seq![container], None);
    let shorter = InjectionView { env_names: names, ..injection };
    let longer = InjectionView { env_names: names.push(name), ..injection };
    assert(seq![container].drop_last() == Seq::<ContainerView>::empty());
    reveal_with_fuel(InjectionView::overwritten_in_all, 2);
    assert(shorter.overwritten(pod) == shorter.overwritten_in(container));
    assert(longer.overwritten(pod) == longer.overwritten_in(container));
    assert(names.push(name).drop_last() == names);
    if let Some(env) = container.env {
        let keep = |name: Seq<char>| env.contains(name);
        let label = |name: Seq<char>| container.name + "/"@ + name;
        if env.contains(name) {
            assert(names.push(name).filter(keep) == names.filter(keep).push(name));
            assert(names.filter(keep).push(name).map_values(label) == names.filter(keep).map_values(label).push(
                label(name),
            ));
        } else {
            assert(names.push(name).filter(keep) == names.filter(keep));
        }
    }
}

/// Whether a review holds a request.
pub open spec fn requests(review: JsonView, request: JsonView) -> bool {
    &&& review is Object
    &&& review->Object_0.contains_key("request"@)
    &&& review->Object_0["request"@] == request
}

/// Whether a request has a text under a key, or none and the text is another one.
pub open spec fn names_text(request: JsonView, key: Seq<char>, otherwise: Seq<char>, text: Seq<char>) -> bool {
    if request is Object && request->Object_0.contains_key(key) && request->Object_0[key] is Text {
        request->Object_0[key] == JsonView::Text(text)
    } else {
        text == otherwise
    }
}

/// Whether a request is about a document, which is null where the request has none.
pub open spec fn is_about(request: JsonView, object: JsonView) -> bool {
    if request is Object && request->Object_0.contains_key("object"@) {
        request->Object_0["object"@] == object
    } else {
        object == JsonView::Null
    }
}

/// Whether a document is a pod that names a secret.
pub open spec fn names_secret(object: JsonView) -> bool {
    is_pod(object) && exists|annotations: Map<Seq<char>, JsonView>| #[trigger]
        annotated(object, annotations) && annotations.contains_key("rustjack.io/ca-secret"@)
}

proof fn lemma_names_secret(object: JsonView)
    ensures
        names_secret(object) <==> (pod_of_json(object) matches Some(pod) && requested_injection(pod) is Some),
{
    if names_secret(object) {
        let annotations = choose|annotations: Map<Seq<char>, JsonView>| #[trigger]
            annotated(object, annotations) && annotations.contains_key("rustjack.io/ca-secret"@);
        assert(annotations_in(object) is Some);
    }
    if pod_of_json(object) is Some && requested_injection(pod_in(object)) is Some {
        let annotations = object.member("metadata"@)->0.member("annotations"@)->0->Object_0;
        assert(annotated(object, annotations));
    }
}

/// A review without a request is answered that all is well, and nothing more.
pub proof fn law_answer_without_request(review: JsonView)
    requires
        forall|request: JsonView| !#[trigger] requests(review, request),
    ensures
        review_response(review) == JsonView::Object(
            map!["response"@ => JsonView::Object(map!["allowed"@ => JsonView::Bool(true)])],
        ),
        review_outcome(review) is NoRequest,
{
    if let Some(request) = review.member("request"@) {
        assert(requests(review, request));
    }
}

/// A request about anything but a pod that names a secret is answered with its uid and that
/// all is well, and nothing more.
pub proof fn law_answer_without_patch(review: JsonView, request: JsonView, uid: Seq<char>, object: JsonView)
    requires
        requests(review, request),
        names_text(request, "uid"@, Seq::empty(), uid),
        is_about(request, object),
        !names_secret(object),
    ensures
        review_response(review) == JsonView::Object(
            map![
                "response"@ => JsonView::Object(
                    map!["uid"@ => JsonView::Text(uid), "allowed"@ => JsonView::Bool(true)],
                ),
            ],
        ),
        review_outcome(review) is NoPod <==> !is_pod(object),
        review_outcome(review) is NotAnnotated <==> is_pod(object),
{
    lemma_names_secret(object);
    reveal_strlit("");
    assert(""@ == Seq::<char>::empty());
}

/// Whether a JSON patch lists operations, each as one that adds.
pub open spec fn lists_operations(list: Seq<JsonView>, ops: Seq<PatchOpView>) -> bool {
    &&& list.len() == ops.len()
    &&& forall|k: int|
        0 <= k < ops.len() ==> #[trigger] list[k] == JsonView::Object(
            map![
                "op"@ => JsonView::Text("add"@),
                "path"@ => JsonView::Text(ops[k].path),
                "value"@ => ops[k].value,
            ],
        )
}

/// A request about a pod that names a secret is answered with its uid, that all is well, and
/// a JSON patch in base 64, which a reader gets back whole: it lists the operations on that
/// pod.
pub proof fn law_answer_with_patch(review: JsonView, request: JsonView, uid: Seq<char>, object: JsonView) -> (list: Seq<
    JsonView,
>)
    requires
        requests(review, request),
        names_text(request, "uid"@, Seq::empty(), uid),
        is_about(request, object),
        names_secret(object),
    ensures
        requested_injection(pod_in(object)) is Some,
        lists_operations(list, requested_injection(pod_in(object))->0.patch(pod_in(object))),
        review_response(review) matches JsonView::Object(answer) && {
            &&& answer.dom() == set!["apiVersion"@, "kind"@, "response"@]
            &&& answer["apiVersion"@] == JsonView::Text("admission.k8s.io/v1"@)
            &&& answer["kind"@] == JsonView::Text("AdmissionReview"@)
            &&& answer["response"@] matches JsonView::Object(response) && {
                &&& response.dom() == set!["uid"@, "allowed"@, "patch"@, "patchType"@]
                &&& response["uid"@] == JsonView::Text(uid)
                &&& response["allowed"@] == JsonView::Bool(true)
                &&& response["patchType"@] == JsonView::Text("JSONPatch"@)
                &&& response["patch"@] matches JsonView::Text(text) && base64_bytes(text) == encode_utf8(
                    json_text(JsonView::Array(list)),
                )
            }
        },
{
    lemma_names_secret(object);
    lemma_response_keys();
    reveal_strlit("");
    assert(""@ == Seq::<char>::empty());
    reveal_strlit("apiVersion");
    reveal_strlit("kind");
    assert("apiVersion"@.len() != "kind"@.len());
    let ops = requested_injection(pod_in(object))->0.patch(pod_in(object));
    let list = ops.map_values(|op: PatchOpView| op_json(op));
    assert(patch_json(ops) == JsonView::Array(list));
    law_base64_read_back(encode_utf8(json_text(patch_json(ops))));
    let answer = review_response(review)->Object_0;
    assert(answer.dom() =~= set!["apiVersion"@, "kind"@, "response"@]);
    assert(answer["response"@]->Object_0.dom() =~= set!["uid"@, "allowed"@, "patch"@, "patchType"@]);
    list
}

/// What is told of a request about a pod that names a secret: that secret, the variables that
/// the patch sets anew, and where the pod is.
pub proof fn law_injection_told(
    review: JsonView,
    request: JsonView,
    namespace: Seq<char>,
    object: JsonView,
    annotations: Map<Seq<char>, JsonView>,
    secret_name: Seq<char>,
)
    requires
        requests(review, request),
        names_text(request, "namespace"@, "unknown-ns"@, namespace),
        is_about(request, object),
        is_pod(object),
        annotated(object, annotations),
        annotations.contains_key("rustjack.io/ca-secret"@),
        annotations["rustjack.io/ca-secret"@] == JsonView::Text(secret_name),
    ensures
        review_outcome(review) == (OutcomeView::Injected {
            secret_name,
            place: pod_place(namespace, pod_in(object)),
            overwritten: requested_injection(pod_in(object))->0.overwritten(pod_in(object)),
        }),
{
    law_annotations_decide(object, annotations, secret_name, Seq::empty());
}

/// A pod is in its namespace, under its name; without one under the prefix that its name will
/// have, marked as such; and without that under a stand-in.
pub proof fn law_place_told(namespace: Seq<char>, object: JsonView, metadata: Map<Seq<char>, JsonView>, name: Seq<char>)
    requires
        object is Object,
        object->Object_0.contains_key("metadata"@),
        object->Object_0["metadata"@] == JsonView::Object(metadata),
    ensures
        ({
            let named = metadata.contains_key("name"@) && metadata["name"@] is Text;
            let prefixed = metadata.contains_key("generateName"@) && metadata["generateName"@] is Text;
            let place = pod_place(namespace, pod_in(object));
            &&& named && metadata["name"@] == JsonView::Text(name) ==> place == namespace + seq!['/'] + name
            &&& !named && prefixed && metadata["generateName"@] == JsonView::Text(name) ==> place == namespace
                + seq!['/'] + name + "<generated>"@
            &&& !named && !prefixed ==> place == namespace + seq!['/'] + "unknown-pod"@
        }),
{
    reveal_strlit("/");
    assert("/"@ == seq!['/']);
    let place = pod_place(namespace, pod_in(object));
    let prefixed = metadata.contains_key("generateName"@) && metadata["generateName"@] is Text;
    if prefixed {
        assert(namespace + "/"@ + (name + "<generated>"@) == namespace + "/"@ + name + "<generated>"@);
    }
}

/// What is read from a document as a pod is the pod of the document, wherever it is one.
pub proof fn law_pod_read(document: JsonView)
    ensures
        pod_of_json(document) is Some <==> is_pod(document),
        pod_of_json(document) is Some ==> pod_of_json(document) == Some(pod_in(document)),
{
}

/// An annotation of a pod is the value under its key, and nothing where there is none.
pub proof fn law_annotation_found(pod: PodInfo, key: Seq<char>)
    ensures
        pod@.annotation(key) is Some <==> (pod.metadata.annotations matches Some(map) && map@.contains_key(key)),
        pod@.annotation(key) matches Some(value) ==> value == pod.metadata.annotations->0@[key]@,
{
}

/// Whether an optional list of strings holds some texts.
pub open spec fn holds_texts(items: Option<Vec<String>>, held: Option<Seq<Seq<char>>>) -> bool {
    &&& items is Some <==> held is Some
    &&& items matches Some(list) ==> list@.len() == held->0.len() && forall|i: int|
        0 <= i < list@.len() ==> #[trigger] list@[i]@ == held->0[i]
}

/// Whether a container holds what another one stands for.
pub open spec fn holds_container(container: ContainerInfo, held: ContainerView) -> bool {
    &&& container.name@ == held.name
    &&& holds_texts(container.volume_mounts, held.volume_mounts)
    &&& holds_texts(container.env, held.env)
}

/// Whether some containers hold what others stand for, each in its place.
pub open spec fn holds_containers(containers: Seq<ContainerInfo>, held: Seq<ContainerView>) -> bool {
    &&& containers.len() == held.len()
    &&& forall|i: int| 0 <= i < containers.len() ==> holds_container(#[trigger] containers[i], held[i])
}

/// What a pod stands for is what its fields hold.
pub proof fn law_pod_holds(pod: PodInfo)
    ensures
        pod.metadata.name is Some <==> pod@.metadata.name is Some,
        pod.metadata.name matches Some(name) ==> name@ == pod@.metadata.name->0,
        pod.metadata.generate_name is Some <==> pod@.metadata.generate_name is Some,
        pod.metadata.generate_name matches Some(name) ==> name@ == pod@.metadata.generate_name->0,
        pod.metadata.annotations is Some <==> pod@.metadata.annotations is Some,
        pod.spec is Some <==> pod@.spec is Some,
        pod.spec matches Some(spec) ==> {
            &&& holds_texts(spec.volumes, pod@.spec->0.volumes)
            &&& holds_containers(spec.containers@, pod@.spec->0.containers)
            &&& spec.init_containers is Some <==> pod@.spec->0.init_containers is Some
            &&& spec.init_containers matches Some(containers) ==> holds_containers(
                containers@,
                pod@.spec->0.init_containers->0,
            )
        },
{
}

/// What an injection, an operation and an outcome stand for is what their fields hold.
pub proof fn law_fields_hold(injection: Injection, op: PatchOp, outcome: Outcome)
    ensures
        injection@.secret_name == injection.secret_name@,
        injection@.mount_path == injection.mount_path@,
        injection@.env_names.len() == injection.env_names@.len(),
        forall|i: int|
            0 <= i < injection.env_names@.len() ==> #[trigger] injection.env_names@[i]@ == injection@.env_names[i],
        op@.path == op.path@,
        op@.value == json_view(op.value),
        outcome is NoRequest <==> outcome@ is NoRequest,
        outcome is NoPod <==> outcome@ is NoPod,
        outcome is NotAnnotated <==> outcome@ is NotAnnotated,
        outcome matches Outcome::Injected { secret_name, place, overwritten } ==> outcome@ == (OutcomeView::Injected {
            secret_name: secret_name@,
            place: place@,
            overwritten: texts(overwritten@),
        }),
{
}

/// A patch document lists as many operations as there are, each in its place, as one that adds
/// its value at its path.
pub proof fn law_patch_lists_operations(ops: Seq<PatchOp>)
    ensures
        patch_json(op_views(ops)) matches JsonView::Array(list) && list.len() == ops.len() && forall|k: int|
            0 <= k < ops.len() ==> #[trigger] list[k] == JsonView::Object(
                map![
                    "op"@ => JsonView::Text("add"@),
                    "path"@ => JsonView::Text(ops[k].path@),
                    "value"@ => json_view(ops[k].value),
                ],
            ),
{
}

} // verus!
