//! What a second review of a pod gives that was patched already: nothing is taken for done, so
//! all of it is added again, and every variable is recorded as set anew.
use crate::json::JsonView;
use crate::json_patch::list_under;
use crate::pod::{
    annotations_in, container_in, holds_objects, is_pod, names_in, pod_in, pod_of_json, pod_shaped,
    spec_in, text_member, ContainerView, PodSpecView, PodView,
};
use crate::text::{decimal_text, join_text};
use crate::webhook::{patch_response, pod_response, requested_injection, InjectionView, PatchOpView};
use vstd::prelude::*;

verus! {

/// The init containers of a specification; absent ones are none.
pub open spec fn init_containers_of(spec: PodSpecView) -> Seq<ContainerView> {
    match spec.init_containers {
        Some(containers) => containers,
        None => Seq::empty(),
    }
}

impl InjectionView {
    /// The operations on the first `count` containers of a list none of which lacks a list:
    /// each gets the mount and the variables behind what it has.
    pub open spec fn append_ops(self, path: Seq<char>, count: nat) -> Seq<PatchOpView>
        decreases count,
    {
        if count == 0 {
            Seq::empty()
        } else {
            let last = (count - 1) as nat;
            let item = path + "/"@ + decimal_text(last);
            self.append_ops(path, last) + seq![PatchOpView { path: item + "/volumeMounts/-"@, value: self.mount() }]
                + self.env_ops(item + "/env/-"@, self.env_names.len() as int)
        }
    }

    /// Every variable of the injection in every container of a list, each with the
    /// container's name before it.
    pub open spec fn all_entries(self, containers: Seq<ContainerView>) -> Seq<Seq<char>>
        decreases containers.len(),
    {
        if containers.len() == 0 {
            Seq::empty()
        } else {
            self.all_entries(containers.drop_last()) + self.env_names.map_values(
                |name: Seq<char>| containers.last().name + "/"@ + name,
            )
        }
    }

    /// Every variable of the injection in every container of a pod, then in every init
    /// container.
    pub open spec fn all_overwritten(self, pod: PodView) -> Seq<Seq<char>> {
        match pod.spec {
            Some(spec) => self.all_entries(spec.containers) + self.all_entries(init_containers_of(spec)),
            None => Seq::empty(),
        }
    }

    /// The patch of a pod that was patched before: the same volume, mounts and variables
    /// once more, and the list of all variables where the pod has containers.
    pub open spec fn repeated_patch(self, pod: PodView) -> Seq<PatchOpView> {
        let ops = match pod.spec {
            Some(spec) => seq![PatchOpView { path: "/spec/volumes/-"@, value: self.volume() }] + self.append_ops(
                "/spec/containers"@,
                spec.containers.len(),
            ) + self.append_ops("/spec/initContainers"@, init_containers_of(spec).len()),
            None => Seq::empty(),
        };
        let overwritten = self.all_overwritten(pod);
        if overwritten.len() == 0 {
            ops
        } else {
            ops.push(
                PatchOpView {
                    path: "/metadata/annotations/rustjack.io~1overwritten-envs"@,
                    value: JsonView::Text(join_text(overwritten, ","@)),
                },
            )
        }
    }
}

/// Whether a container has both lists, and every variable of the injection.
spec fn equipped(injection: InjectionView, container: ContainerView) -> bool {
    &&& container.volume_mounts is Some
    &&& container.env matches Some(env) && forall|j: int|
        0 <= j < injection.env_names.len() ==> env.contains(#[trigger] injection.env_names[j])
}

/// Whether containers are equipped that have the names of others.
spec fn all_equipped(injection: InjectionView, containers: Seq<ContainerView>, before: Seq<ContainerView>) -> bool {
    &&& containers.len() == before.len()
    &&& forall|i: int|
        0 <= i < containers.len() ==> equipped(injection, #[trigger] containers[i]) && containers[i].name
            == before[i].name
}

proof fn lemma_keys()
    ensures
        "name"@ != "volumeMounts"@,
        "name"@ != "env"@,
        "volumeMounts"@ != "env"@,
        "value"@ != "name"@,
        "volumes"@ != "containers"@,
        "volumes"@ != "initContainers"@,
        "containers"@ != "initContainers"@,
        "spec"@ != "metadata"@,
        "rustjack.io/ca-secret"@ != "rustjack.io/overwritten-envs"@,
        "rustjack.io/mount-path"@ != "rustjack.io/overwritten-envs"@,
        "rustjack.io/extra-envs"@ != "rustjack.io/overwritten-envs"@,
{
    reveal_strlit("name");
    reveal_strlit("value");
    reveal_strlit("volumeMounts");
    reveal_strlit("env");
    reveal_strlit("volumes");
    reveal_strlit("containers");
    reveal_strlit("initContainers");
    reveal_strlit("spec");
    reveal_strlit("metadata");
    reveal_strlit("rustjack.io/ca-secret");
    reveal_strlit("rustjack.io/mount-path");
    reveal_strlit("rustjack.io/extra-envs");
    reveal_strlit("rustjack.io/overwritten-envs");
    assert("name"@.len() == 4);
    assert("value"@.len() == 5);
    assert("volumeMounts"@.len() == 12);
    assert("env"@.len() == 3);
    assert("volumes"@.len() == 7);
    assert("containers"@.len() == 10);
    assert("initContainers"@.len() == 14);
    assert("metadata"@.len() == 8);
    assert("spec"@.len() == 4);
    assert("rustjack.io/ca-secret"@.len() == 21);
    assert("rustjack.io/mount-path"@.len() == 22);
    assert("rustjack.io/extra-envs"@.len() == 22);
    assert("rustjack.io/overwritten-envs"@.len() == 28);
}

proof fn lemma_injected_container(injection: InjectionView, container: JsonView)
    requires
        container is Object,
    ensures
        injection.injected_container(container) is Object,
        equipped(injection, container_in(injection.injected_container(container))),
        container_in(injection.injected_container(container)).name == container_in(container).name,
{
    lemma_keys();
    let members = container->Object_0;
    let after = injection.injected_container(container);
    let items = list_under(members, "env"@) + injection.env_vars();
    assert(after.member("env"@) == Some(JsonView::Array(items)));
    assert(after.member("name"@) == container.member("name"@));
    let env = names_in(after, "env"@)->0;
    assert forall|j: int| 0 <= j < injection.env_names.len() implies env.contains(
        #[trigger] injection.env_names[j],
    ) by {
        let k = list_under(members, "env"@).len() + j;
        assert(items[k] == injection.env_vars()[j]);
        assert(items[k].member("name"@) == Some(JsonView::Text(injection.env_names[j])));
        assert(env[k] == text_member(items[k], "name"@, ""@));
        assert(env[k] == injection.env_names[j]);
    }
}

proof fn lemma_filter_keeps_all(names: Seq<Seq<char>>, keep: spec_fn(Seq<char>) -> bool)
    requires
        forall|j: int| 0 <= j < names.len() ==> keep(#[trigger] names[j]),
    ensures
        names.filter(keep) == names,
    decreases names.len(),
{
    reveal(Seq::filter);
    if names.len() > 0 {
        let first = names.drop_last();
        assert forall|j: int| 0 <= j < first.len() implies keep(#[trigger] first[j]) by {
            assert(first[j] == names[j]);
        }
        lemma_filter_keeps_all(first, keep);
        assert(keep(names[names.len() - 1]));
        assert(names == first.push(names.last()));
    } else {
        assert(names.filter(keep) == names);
    }
}

proof fn lemma_equipped_container(injection: InjectionView, path: Seq<char>, container: ContainerView)
    requires
        equipped(injection, container),
    ensures
        injection.container_ops(path, container) == seq![
            PatchOpView { path: path + "/volumeMounts/-"@, value: injection.mount() },
        ] + injection.env_ops(path + "/env/-"@, injection.env_names.len() as int),
        injection.overwritten_in(container) == injection.env_names.map_values(
            |name: Seq<char>| container.name + "/"@ + name,
        ),
{
    let env = container.env->0;
    let keep = |name: Seq<char>| env.contains(name);
    lemma_filter_keeps_all(injection.env_names, keep);
    assert(injection.container_ops(path, container) =~= seq![
        PatchOpView { path: path + "/volumeMounts/-"@, value: injection.mount() },
    ] + injection.env_ops(path + "/env/-"@, injection.env_names.len() as int));
}

proof fn lemma_equipped_containers(
    injection: InjectionView,
    path: Seq<char>,
    containers: Seq<ContainerView>,
    before: Seq<ContainerView>,
)
    requires
        all_equipped(injection, containers, before),
    ensures
        injection.containers_ops(path, containers) == injection.append_ops(path, containers.len()),
        injection.overwritten_in_all(containers) == injection.all_entries(before),
    decreases containers.len(),
{
    if containers.len() > 0 {
        let last = (containers.len() - 1) as nat;
        assert forall|i: int| 0 <= i < last implies equipped(injection, #[trigger] containers.drop_last()[i])
            && containers.drop_last()[i].name == before.drop_last()[i].name by {
            assert(containers.drop_last()[i] == containers[i]);
        }
        lemma_equipped_containers(injection, path, containers.drop_last(), before.drop_last());
        assert(equipped(injection, containers[last as int]));
        lemma_equipped_container(injection, path + "/"@ + decimal_text(last), containers.last());
        assert(injection.containers_ops(path, containers) =~= injection.append_ops(path, containers.len()));
        assert(injection.env_names.map_values(|name: Seq<char>| containers.last().name + "/"@ + name)
            =~= injection.env_names.map_values(|name: Seq<char>| before.last().name + "/"@ + name));
    }
}

/// A list of containers after every one of them was injected.
proof fn lemma_injected_items(injection: InjectionView, items: Seq<JsonView>)
    requires
        forall|i: int| 0 <= i < items.len() ==> #[trigger] items[i] is Object,
    ensures
        ({
            let after = items.map_values(|item: JsonView| injection.injected_container(item));
            &&& forall|i: int| 0 <= i < after.len() ==> #[trigger] after[i] is Object
            &&& all_equipped(
                injection,
                after.map_values(|item: JsonView| container_in(item)),
                items.map_values(|item: JsonView| container_in(item)),
            )
        }),
{
    let after = items.map_values(|item: JsonView| injection.injected_container(item));
    assert forall|i: int| 0 <= i < after.len() implies #[trigger] after[i] is Object by {
        lemma_injected_container(injection, items[i]);
    }
    let containers = after.map_values(|item: JsonView| container_in(item));
    let before = items.map_values(|item: JsonView| container_in(item));
    assert forall|i: int| 0 <= i < containers.len() implies equipped(injection, #[trigger] containers[i])
        && containers[i].name == before[i].name by {
        lemma_injected_container(injection, items[i]);
    }
}

/// A specification after it was injected.
proof fn lemma_injected_spec(injection: InjectionView, members: Map<Seq<char>, JsonView>)
    requires
        holds_objects(JsonView::Object(members), "containers"@),
        holds_objects(JsonView::Object(members), "initContainers"@),
    ensures
        ({
            let document = JsonView::Object(members);
            let after = JsonView::Object(injection.injected_spec(members));
            &&& holds_objects(after, "containers"@)
            &&& holds_objects(after, "initContainers"@)
            &&& spec_in(after).volumes is Some
            &&& all_equipped(injection, spec_in(after).containers, spec_in(document).containers)
            &&& all_equipped(
                injection,
                init_containers_of(spec_in(after)),
                init_containers_of(spec_in(document)),
            )
            &&& spec_in(after).init_containers is Some <==> spec_in(document).init_containers is Some
        }),
{
    lemma_keys();
    let document = JsonView::Object(members);
    let after = JsonView::Object(injection.injected_spec(members));
    if let Some(JsonView::Array(items)) = document.member("containers"@) {
        lemma_injected_items(injection, items);
        assert(after.member("containers"@) == Some(
            JsonView::Array(items.map_values(|item: JsonView| injection.injected_container(item))),
        ));
    } else {
        assert(after.member("containers"@) == document.member("containers"@));
    }
    if let Some(JsonView::Array(items)) = document.member("initContainers"@) {
        lemma_injected_items(injection, items);
        assert(after.member("initContainers"@) == Some(
            JsonView::Array(items.map_values(|item: JsonView| injection.injected_container(item))),
        ));
    } else {
        assert(after.member("initContainers"@) == document.member("initContainers"@));
    }
    assert(after.member("volumes"@) == Some(
        JsonView::Array(list_under(members, "volumes"@).push(injection.volume())),
    ));
}

/// The annotations that are read stay as they are when the list of variables is recorded.
proof fn lemma_request_stays(document: JsonView, injection: InjectionView, overwritten: Seq<Seq<char>>)
    requires
        document is Object,
        requested_injection(pod_in(document)) == Some(injection),
    ensures
        requested_injection(pod_in(injection.injected_pod(document, overwritten))) == Some(injection),
        injection.injected_pod(document, overwritten).member("spec"@) == match document.member("spec"@) {
            Some(JsonView::Object(spec)) => Some(JsonView::Object(injection.injected_spec(spec))),
            other => other,
        },
{
    lemma_keys();
    let after = injection.injected_pod(document, overwritten);
    let before = annotations_in(document)->0;
    assert(annotations_in(document) is Some);
    if overwritten.len() == 0 {
        assert(after.member("metadata"@) == document.member("metadata"@));
    } else {
        let annotations = annotations_in(after)->0;
        assert(annotations =~= before.insert("rustjack.io/overwritten-envs"@, join_text(overwritten, ","@)));
    }
    assert(pod_in(after).annotation("rustjack.io/ca-secret"@) == pod_in(document).annotation(
        "rustjack.io/ca-secret"@,
    ));
    assert(pod_in(after).annotation("rustjack.io/mount-path"@) == pod_in(document).annotation(
        "rustjack.io/mount-path"@,
    ));
    assert(pod_in(after).annotation("rustjack.io/extra-envs"@) == pod_in(document).annotation(
        "rustjack.io/extra-envs"@,
    ));
}

proof fn lemma_appends_no_list(injection: InjectionView, path: Seq<char>, count: nat)
    ensures
        forall|i: int|
            0 <= i < injection.append_ops(path, count).len() ==> (#[trigger] injection.append_ops(path, count)[i]).value
                !is Array,
    decreases count,
{
    if count > 0 {
        lemma_appends_no_list(injection, path, (count - 1) as nat);
    }
}

/// A pod that was patched asks for the same injection, and its patch adds the same volume,
/// mounts and variables again, behind what the pod has: it makes no list anew, and it records
/// every variable of the injection in every container and init container.
pub proof fn law_second_review(document: JsonView, injection: InjectionView, uid: Seq<char>)
    requires
        pod_shaped(document),
        requested_injection(pod_in(document)) == Some(injection),
    ensures
        ({
            let pod = pod_in(document);
            let after = injection.injected_pod(document, injection.overwritten(pod));
            &&& pod_shaped(after)
            &&& requested_injection(pod_in(after)) == Some(injection)
            &&& injection.overwritten(pod_in(after)) == injection.all_overwritten(pod)
            &&& injection.patch(pod_in(after)) == injection.repeated_patch(pod)
            &&& forall|i: int|
                0 <= i < injection.repeated_patch(pod).len() ==> (#[trigger] injection.repeated_patch(pod)[i]).value
                    !is Array
            &&& is_pod(after) ==> pod_response(uid, pod_of_json(after)) == patch_response(
                uid,
                injection.repeated_patch(pod),
            )
        }),
{
    let pod = pod_in(document);
    let after = injection.injected_pod(document, injection.overwritten(pod));
    lemma_request_stays(document, injection, injection.overwritten(pod));
    if let Some(JsonView::Object(spec)) = document.member("spec"@) {
        lemma_injected_spec(injection, spec);
        let injected = spec_in(JsonView::Object(injection.injected_spec(spec)));
        let before = pod.spec->0;
        assert(pod_in(after).spec == Some(injected));
        lemma_equipped_containers(injection, "/spec/containers"@, injected.containers, before.containers);
        lemma_equipped_containers(
            injection,
            "/spec/initContainers"@,
            init_containers_of(injected),
            init_containers_of(before),
        );
        lemma_appends_no_list(injection, "/spec/containers"@, before.containers.len());
        lemma_appends_no_list(injection, "/spec/initContainers"@, init_containers_of(before).len());
        assert(injection.overwritten(pod_in(after)) =~= injection.all_overwritten(pod));
        assert(injection.spec_ops(injected) =~= seq![
            PatchOpView { path: "/spec/volumes/-"@, value: injection.volume() },
        ] + injection.append_ops("/spec/containers"@, before.containers.len()) + injection.append_ops(
            "/spec/initContainers"@,
            init_containers_of(before).len(),
        ));
    } else {
        assert(pod.spec is None);
        assert(pod_in(after).spec is None);
    }
}

} // verus!
