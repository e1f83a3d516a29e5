//! What a JSON patch does to a document, and that the patch of a pod applies and injects
//! what it should and nothing else.
use crate::json::{empty_array, JsonView};
use crate::pod::{
    container_in, containers_in, holds_objects, pod_in, pod_shaped, spec_in, ContainerView, PodSpecView,
};
use crate::text::{decimal_text, digit_char, join_text, split_text};
use crate::webhook::{requested_injection, InjectionView, PatchOpView};
use vstd::prelude::*;

verus! {

/// A token of a JSON pointer with its escapes undone: `~1` stands for a slash and `~0`
/// for a tilde.
pub open spec fn unescaped(token: Seq<char>) -> Seq<char>
    decreases token.len(),
{
    if token.len() == 0 {
        Seq::empty()
    } else if token.len() > 1 && token[0] == '~' && token[1] == '1' {
        seq!['/'] + unescaped(token.skip(2))
    } else if token.len() > 1 && token[0] == '~' && token[1] == '0' {
        seq!['~'] + unescaped(token.skip(2))
    } else {
        seq![token[0]] + unescaped(token.skip(1))
    }
}

/// The tokens of a JSON pointer.
pub open spec fn pointer_tokens(path: Seq<char>) -> Option<Seq<Seq<char>>> {
    if path.len() == 0 {
        Some(Seq::empty())
    } else if path[0] != '/' {
        None
    } else {
        Some(split_text(path.skip(1), '/').map_values(|token: Seq<char>| unescaped(token)))
    }
}

/// The position that a token names in an array.
pub open spec fn array_position(token: Seq<char>) -> Option<nat> {
    if exists|position: nat| #[trigger] decimal_text(position) == token {
        Some(choose|position: nat| #[trigger] decimal_text(position) == token)
    } else {
        None
    }
}

/// The document after a value was added at the place that the tokens name: as a member of
/// an object, before an item of an array, or behind the last item of one, which `-` names.
/// The object or array that takes the value must exist.
pub open spec fn with_added(document: JsonView, tokens: Seq<Seq<char>>, value: JsonView) -> Option<JsonView>
    decreases tokens.len(),
{
    if tokens.len() == 0 {
        Some(value)
    } else {
        let token = tokens[0];
        match document {
            JsonView::Object(members) => if tokens.len() == 1 {
                Some(JsonView::Object(members.insert(token, value)))
            } else if members.contains_key(token) {
                match with_added(members[token], tokens.skip(1), value) {
                    Some(member) => Some(JsonView::Object(members.insert(token, member))),
                    None => None,
                }
            } else {
                None
            },
            JsonView::Array(items) => if tokens.len() == 1 && token == "-"@ {
                Some(JsonView::Array(items.push(value)))
            } else {
                match array_position(token) {
                    Some(position) => if tokens.len() == 1 && position <= items.len() {
                        Some(JsonView::Array(items.insert(position as int, value)))
                    } else if position < items.len() {
                        match with_added(items[position as int], tokens.skip(1), value) {
                            Some(item) => Some(JsonView::Array(items.update(position as int, item))),
                            None => None,
                        }
                    } else {
                        None
                    },
                    None => None,
                }
            },
            _ => None,
        }
    }
}

/// The document after the operations of a patch, in their order, or nothing where one of
/// them does not apply.
pub open spec fn patched(document: JsonView, ops: Seq<PatchOpView>) -> Option<JsonView>
    decreases ops.len(),
{
    if ops.len() == 0 {
        Some(document)
    } else {
        match patched(document, ops.drop_last()) {
            Some(document) => match pointer_tokens(ops.last().path) {
                Some(tokens) => with_added(document, tokens, ops.last().value),
                None => None,
            },
            None => None,
        }
    }
}

/// The items of the list that stands under a key; a list that is absent has none.
pub open spec fn list_under(members: Map<Seq<char>, JsonView>, key: Seq<char>) -> Seq<JsonView> {
    match JsonView::Object(members).member(key) {
        Some(JsonView::Array(items)) => items,
        _ => Seq::empty(),
    }
}

impl InjectionView {
    /// A container with the mount behind its mounts and the variables behind its own.
    pub open spec fn injected_container(self, container: JsonView) -> JsonView {
        match container {
            JsonView::Object(members) => JsonView::Object(
                members.insert(
                    "volumeMounts"@,
                    JsonView::Array(list_under(members, "volumeMounts"@).push(self.mount())),
                ).insert("env"@, JsonView::Array(list_under(members, "env"@) + self.env_vars())),
            ),
            _ => container,
        }
    }

    /// A specification in which every container of one list is injected.
    pub open spec fn injected_list(self, members: Map<Seq<char>, JsonView>, key: Seq<char>) -> Map<
        Seq<char>,
        JsonView,
    > {
        match JsonView::Object(members).member(key) {
            Some(JsonView::Array(items)) => members.insert(
                key,
                JsonView::Array(items.map_values(|item: JsonView| self.injected_container(item))),
            ),
            _ => members,
        }
    }

    /// A specification with the volume behind its volumes and every container, the init
    /// containers too, injected.
    pub open spec fn injected_spec(self, members: Map<Seq<char>, JsonView>) -> Map<Seq<char>, JsonView> {
        let volumes = JsonView::Array(list_under(members, "volumes"@).push(self.volume()));
        self.injected_list(
            self.injected_list(members.insert("volumes"@, volumes), "containers"@),
            "initContainers"@,
        )
    }

    /// A pod with its specification injected, and with an annotation that lists the
    /// variables set anew where there are any.
    pub open spec fn injected_pod(self, document: JsonView, overwritten: Seq<Seq<char>>) -> JsonView {
        let members = document->Object_0;
        let members = match document.member("spec"@) {
            Some(JsonView::Object(spec)) => members.insert("spec"@, JsonView::Object(self.injected_spec(spec))),
            _ => members,
        };
        if overwritten.len() == 0 {
            JsonView::Object(members)
        } else {
            let metadata = members["metadata"@]->Object_0;
            let annotations = metadata["annotations"@]->Object_0.insert(
                "rustjack.io/overwritten-envs"@,
                JsonView::Text(join_text(overwritten, ","@)),
            );
            JsonView::Object(
                members.insert(
                    "metadata"@,
                    JsonView::Object(metadata.insert("annotations"@, JsonView::Object(annotations))),
                ),
            )
        }
    }
}

/// An operation whose path is taken apart.
struct Addition {
    tokens: Seq<Seq<char>>,
    value: JsonView,
}

/// The document after some additions.
spec fn with_additions(document: JsonView, additions: Seq<Addition>) -> Option<JsonView>
    decreases additions.len(),
{
    if additions.len() == 0 {
        Some(document)
    } else {
        match with_additions(document, additions.drop_last()) {
            Some(document) => with_added(document, additions.last().tokens, additions.last().value),
            None => None,
        }
    }
}

/// Whether additions are the operations of a patch with their paths taken apart.
spec fn takes_apart(ops: Seq<PatchOpView>, additions: Seq<Addition>) -> bool {
    &&& ops.len() == additions.len()
    &&& forall|i: int|
        0 <= i < ops.len() ==> pointer_tokens((#[trigger] ops[i]).path) == Some(additions[i].tokens)
            && ops[i].value == additions[i].value
}

proof fn lemma_patched(document: JsonView, ops: Seq<PatchOpView>, additions: Seq<Addition>)
    requires
        takes_apart(ops, additions),
    ensures
        patched(document, ops) == with_additions(document, additions),
    decreases ops.len(),
{
    if ops.len() > 0 {
        assert(ops.last() == ops[ops.len() - 1]);
        lemma_patched(document, ops.drop_last(), additions.drop_last());
    }
}

/// Additions one after the other.
proof fn lemma_sequence(document: JsonView, first: Seq<Addition>, second: Seq<Addition>)
    ensures
        with_additions(document, first + second) == match with_additions(document, first) {
            Some(document) => with_additions(document, second),
            None => None,
        },
    decreases second.len(),
{
    if second.len() == 0 {
        assert(first + second == first);
    } else {
        assert((first + second).drop_last() == first + second.drop_last());
        lemma_sequence(document, first, second.drop_last());
    }
}

/// Additions within what the first token names.
spec fn within(additions: Seq<Addition>) -> Seq<Addition> {
    additions.map_values(|addition: Addition| Addition { tokens: addition.tokens.skip(1), ..addition })
}

/// Whether all additions go to something within what a token names.
spec fn all_within(additions: Seq<Addition>, token: Seq<char>) -> bool {
    forall|i: int|
        0 <= i < additions.len() ==> (#[trigger] additions[i]).tokens.len() > 1 && additions[i].tokens[0] == token
}

proof fn lemma_within_member(members: Map<Seq<char>, JsonView>, key: Seq<char>, additions: Seq<Addition>)
    requires
        members.contains_key(key),
        all_within(additions, key),
    ensures
        with_additions(JsonView::Object(members), additions) == match with_additions(
            members[key],
            within(additions),
        ) {
            Some(member) => Some(JsonView::Object(members.insert(key, member))),
            None => None,
        },
    decreases additions.len(),
{
    if additions.len() == 0 {
        assert(members.insert(key, members[key]) =~= members);
    } else {
        lemma_within_member(members, key, additions.drop_last());
        assert(within(additions).drop_last() == within(additions.drop_last()));
        assert(additions.last() == additions[additions.len() - 1]);
        if let Some(member) = with_additions(members[key], within(additions.drop_last())) {
            let tokens = additions.last().tokens;
            if let Some(after) = with_added(member, tokens.skip(1), additions.last().value) {
                assert(members.insert(key, member).insert(key, after) =~= members.insert(key, after));
            }
        }
    }
}

proof fn lemma_within_item(items: Seq<JsonView>, position: nat, additions: Seq<Addition>)
    requires
        position < items.len(),
        all_within(additions, decimal_text(position)),
    ensures
        with_additions(JsonView::Array(items), additions) == match with_additions(
            items[position as int],
            within(additions),
        ) {
            Some(item) => Some(JsonView::Array(items.update(position as int, item))),
            None => None,
        },
    decreases additions.len(),
{
    if additions.len() == 0 {
        assert(items.update(position as int, items[position as int]) =~= items);
    } else {
        lemma_within_item(items, position, additions.drop_last());
        assert(within(additions).drop_last() == within(additions.drop_last()));
        assert(additions.last() == additions[additions.len() - 1]);
        lemma_array_position(position);
        if let Some(item) = with_additions(items[position as int], within(additions.drop_last())) {
            let tokens = additions.last().tokens;
            if let Some(after) = with_added(item, tokens.skip(1), additions.last().value) {
                assert(items.update(position as int, item).update(position as int, after) =~= items.update(
                    position as int,
                    after,
                ));
            }
        }
    }
}

proof fn lemma_digit_char(a: nat, b: nat)
    requires
        a < 10,
        b < 10,
    ensures
        digit_char(a) == digit_char(b) ==> a == b,
        digit_char(a) != '/',
        digit_char(a) != '~',
{
}

/// No two numbers have the same decimal text.
proof fn lemma_decimal_injective(a: nat, b: nat)
    requires
        decimal_text(a) == decimal_text(b),
    ensures
        a == b,
    decreases a,
{
    assert(decimal_text(a).last() == digit_char(a % 10));
    assert(decimal_text(b).last() == digit_char(b % 10));
    lemma_digit_char(a % 10, b % 10);
    if a >= 10 && b >= 10 {
        assert(decimal_text(a).drop_last() == decimal_text(a / 10));
        assert(decimal_text(b).drop_last() == decimal_text(b / 10));
        lemma_decimal_injective(a / 10, b / 10);
    } else {
        lemma_decimal_nonempty(a / 10);
        lemma_decimal_nonempty(b / 10);
    }
}

proof fn lemma_decimal_nonempty(number: nat)
    ensures
        decimal_text(number).len() > 0,
{
}

/// The decimal text of a position names that position.
proof fn lemma_array_position(position: nat)
    ensures
        array_position(decimal_text(position)) == Some(position),
        decimal_text(position) != "-"@,
{
    let found = choose|found: nat| #[trigger] decimal_text(found) == decimal_text(position);
    lemma_decimal_injective(found, position);
    reveal_strlit("-");
    assert(decimal_text(position).last() == digit_char(position % 10));
}

proof fn lemma_decimal_plain(number: nat)
    ensures
        !decimal_text(number).contains('/'),
        !decimal_text(number).contains('~'),
    decreases number,
{
    lemma_digit_char(number % 10, 0);
    if number >= 10 {
        lemma_decimal_plain(number / 10);
        let text = decimal_text(number);
        assert forall|i: int| 0 <= i < text.len() implies text[i] != '/' && text[i] != '~' by {
            if i < text.len() - 1 {
                assert(text[i] == decimal_text(number / 10)[i]);
            }
        }
    }
}

/// Without a tilde there is nothing to undo.
proof fn lemma_unescaped(start: Seq<char>, rest: Seq<char>)
    requires
        !start.contains('~'),
    ensures
        unescaped(start + rest) == start + unescaped(rest),
    decreases start.len(),
{
    if start.len() == 0 {
        assert(start + rest == rest);
        assert(start + unescaped(rest) == unescaped(rest));
    } else {
        assert(start[0] != '~') by {
            assert(start.contains(start[0]));
        }
        assert(!start.skip(1).contains('~')) by {
            if start.skip(1).contains('~') {
                let i = choose|i: int| 0 <= i < start.skip(1).len() && start.skip(1)[i] == '~';
                assert(start[i + 1] == '~');
            }
        }
        lemma_unescaped(start.skip(1), rest);
        assert((start + rest).skip(1) == start.skip(1) + rest);
        assert(seq![start[0]] + (start.skip(1) + unescaped(rest)) == start + unescaped(rest));
    }
}

proof fn lemma_unescaped_plain(token: Seq<char>)
    requires
        !token.contains('~'),
    ensures
        unescaped(token) == token,
{
    lemma_unescaped(token, Seq::empty());
    assert(token + Seq::<char>::empty() == token);
}

/// A text without the separator is its only piece.
pub(crate) proof fn lemma_split_single(token: Seq<char>, separator: char)
    requires
        !token.contains(separator),
    ensures
        split_text(token, separator) == seq![token],
    decreases token.len(),
{
    if token.len() > 0 {
        assert(token.contains(token.last()));
        assert(!token.drop_last().contains(separator)) by {
            if token.drop_last().contains(separator) {
                let i = choose|i: int| 0 <= i < token.drop_last().len() && token.drop_last()[i] == separator;
                assert(token[i] == separator);
            }
        }
        lemma_split_single(token.drop_last(), separator);
        assert(token.drop_last().push(token.last()) == token);
    } else {
        assert(token == Seq::<char>::empty());
    }
}

/// What stands behind the last separator is the last piece.
pub(crate) proof fn lemma_split_last(text: Seq<char>, token: Seq<char>, separator: char)
    requires
        !token.contains(separator),
    ensures
        split_text(text.push(separator) + token, separator) == split_text(text, separator).push(token),
    decreases token.len(),
{
    let whole = text.push(separator) + token;
    if token.len() == 0 {
        assert(token == Seq::<char>::empty());
        assert(whole == text.push(separator));
        assert(whole.drop_last() == text);
    } else {
        assert(token.contains(token.last()));
        assert(!token.drop_last().contains(separator)) by {
            if token.drop_last().contains(separator) {
                let i = choose|i: int| 0 <= i < token.drop_last().len() && token.drop_last()[i] == separator;
                assert(token[i] == separator);
            }
        }
        lemma_split_last(text, token.drop_last(), separator);
        assert(whole.drop_last() == text.push(separator) + token.drop_last());
        let pieces = split_text(text, separator).push(token.drop_last());
        assert(token.drop_last().push(token.last()) == token);
        assert(pieces.update(pieces.len() - 1, token) == split_text(text, separator).push(token));
    }
}

/// A path with one more token.
proof fn lemma_pointer_push(path: Seq<char>, token: Seq<char>)
    requires
        path.len() > 0,
        path[0] == '/',
        !token.contains('/'),
    ensures
        pointer_tokens(path + "/"@ + token) == Some(pointer_tokens(path)->0.push(unescaped(token))),
        (path + "/"@ + token).len() > 0,
        (path + "/"@ + token)[0] == '/',
{
    reveal_strlit("/");
    let longer = path + "/"@ + token;
    assert(longer.skip(1) == path.skip(1).push('/') + token);
    lemma_split_last(path.skip(1), token, '/');
    let unescape = |token: Seq<char>| unescaped(token);
    let pieces = split_text(path.skip(1), '/');
    assert(pieces.push(token).map_values(unescape) == pieces.map_values(unescape).push(unescaped(token)));
}

/// A path of one token.
proof fn lemma_pointer_single(path: Seq<char>, token: Seq<char>)
    requires
        path == "/"@ + token,
        !token.contains('/'),
        !token.contains('~'),
    ensures
        pointer_tokens(path) == Some(seq![token]),
        path.len() > 0,
        path[0] == '/',
{
    reveal_strlit("/");
    assert(path.skip(1) == token);
    lemma_split_single(token, '/');
    lemma_unescaped_plain(token);
    assert(split_text(token, '/').map_values(|token: Seq<char>| unescaped(token)) == seq![token]);
}

/// Whether a path names tokens, of which there is at least one.
spec fn names(path: Seq<char>, tokens: Seq<Seq<char>>) -> bool {
    path.len() > 0 && path[0] == '/' && pointer_tokens(path) == Some(tokens)
}

proof fn lemma_names_push(path: Seq<char>, tokens: Seq<Seq<char>>, token: Seq<char>)
    requires
        names(path, tokens),
        !token.contains('/'),
        !token.contains('~'),
    ensures
        names(path + "/"@ + token, tokens.push(token)),
{
    lemma_pointer_push(path, token);
    lemma_unescaped_plain(token);
}

/// Appending a list's name, and the mark for the end of the list.
proof fn lemma_names_list(path: Seq<char>, tokens: Seq<Seq<char>>, list: Seq<char>, end: Seq<char>, name: Seq<char>)
    requires
        names(path, tokens),
        !name.contains('/'),
        !name.contains('~'),
        list == "/"@ + name,
        end == "/"@ + name + "/"@ + "-"@,
    ensures
        names(path + list, tokens.push(name)),
        names(path + end, tokens.push(name).push("-"@)),
{
    assert(path + list == path + "/"@ + name);
    lemma_names_push(path, tokens, name);
    assert(path + end == path + "/"@ + name + "/"@ + "-"@);
    reveal_strlit("-");
    lemma_names_push(path + "/"@ + name, tokens.push(name), "-"@);
}

/// The operations on a container, taken apart.
spec fn container_additions(
    injection: InjectionView,
    tokens: Seq<Seq<char>>,
    container: ContainerView,
) -> Seq<Addition> {
    let new_mounts = if container.volume_mounts is None {
        seq![Addition { tokens: tokens.push("volumeMounts"@), value: empty_array() }]
    } else {
        Seq::empty()
    };
    let new_env = if container.env is None {
        seq![Addition { tokens: tokens.push("env"@), value: empty_array() }]
    } else {
        Seq::empty()
    };
    new_mounts + seq![Addition { tokens: tokens.push("volumeMounts"@).push("-"@), value: injection.mount() }] + new_env
        + env_additions(injection, tokens, injection.env_names.len() as int)
}

/// The operations that append the first variables, taken apart.
spec fn env_additions(injection: InjectionView, tokens: Seq<Seq<char>>, count: int) -> Seq<Addition> {
    Seq::new(
        count as nat,
        |i: int|
            Addition {
                tokens: tokens.push("env"@).push("-"@),
                value: injection.env_var(injection.env_names[i]),
            },
    )
}

proof fn lemma_container_ops(
    injection: InjectionView,
    path: Seq<char>,
    tokens: Seq<Seq<char>>,
    container: ContainerView,
)
    requires
        names(path, tokens),
    ensures
        takes_apart(
            injection.container_ops(path, container),
            container_additions(injection, tokens, container),
        ),
{
    reveal_strlit("/");
    reveal_strlit("-");
    reveal_strlit("volumeMounts");
    reveal_strlit("/volumeMounts");
    reveal_strlit("/volumeMounts/-");
    reveal_strlit("env");
    reveal_strlit("/env");
    reveal_strlit("/env/-");
    assert("/volumeMounts"@ == "/"@ + "volumeMounts"@);
    assert("/volumeMounts/-"@ == "/"@ + "volumeMounts"@ + "/"@ + "-"@);
    assert("/env"@ == "/"@ + "env"@);
    assert("/env/-"@ == "/"@ + "env"@ + "/"@ + "-"@);
    lemma_names_list(path, tokens, "/volumeMounts"@, "/volumeMounts/-"@, "volumeMounts"@);
    lemma_names_list(path, tokens, "/env"@, "/env/-"@, "env"@);
}

/// The operations on containers, taken apart.
spec fn containers_additions(
    injection: InjectionView,
    tokens: Seq<Seq<char>>,
    containers: Seq<ContainerView>,
) -> Seq<Addition>
    decreases containers.len(),
{
    if containers.len() == 0 {
        Seq::empty()
    } else {
        let last = (containers.len() - 1) as nat;
        containers_additions(injection, tokens, containers.drop_last()) + container_additions(
            injection,
            tokens.push(decimal_text(last)),
            containers.last(),
        )
    }
}

proof fn lemma_takes_apart_sequence(
    ops: Seq<PatchOpView>,
    additions: Seq<Addition>,
    more_ops: Seq<PatchOpView>,
    more_additions: Seq<Addition>,
)
    requires
        takes_apart(ops, additions),
        takes_apart(more_ops, more_additions),
    ensures
        takes_apart(ops + more_ops, additions + more_additions),
{
}

proof fn lemma_containers_ops(
    injection: InjectionView,
    path: Seq<char>,
    tokens: Seq<Seq<char>>,
    containers: Seq<ContainerView>,
)
    requires
        names(path, tokens),
    ensures
        takes_apart(
            injection.containers_ops(path, containers),
            containers_additions(injection, tokens, containers),
        ),
    decreases containers.len(),
{
    if containers.len() > 0 {
        let last = (containers.len() - 1) as nat;
        lemma_containers_ops(injection, path, tokens, containers.drop_last());
        lemma_decimal_plain(last);
        lemma_names_push(path, tokens, decimal_text(last));
        lemma_container_ops(
            injection,
            path + "/"@ + decimal_text(last),
            tokens.push(decimal_text(last)),
            containers.last(),
        );
        lemma_takes_apart_sequence(
            injection.containers_ops(path, containers.drop_last()),
            containers_additions(injection, tokens, containers.drop_last()),
            injection.container_ops(path + "/"@ + decimal_text(last), containers.last()),
            container_additions(injection, tokens.push(decimal_text(last)), containers.last()),
        );
    }
}

/// The operations on a specification, taken apart.
spec fn spec_additions(injection: InjectionView, tokens: Seq<Seq<char>>, spec: PodSpecView) -> Seq<Addition> {
    let new_volumes = if spec.volumes is None {
        seq![Addition { tokens: tokens.push("volumes"@), value: empty_array() }]
    } else {
        Seq::empty()
    };
    new_volumes + seq![Addition { tokens: tokens.push("volumes"@).push("-"@), value: injection.volume() }]
        + containers_additions(injection, tokens.push("containers"@), spec.containers) + match spec.init_containers {
        Some(containers) => containers_additions(injection, tokens.push("initContainers"@), containers),
        None => Seq::empty(),
    }
}

proof fn lemma_spec_ops(injection: InjectionView, spec: PodSpecView)
    ensures
        takes_apart(injection.spec_ops(spec), spec_additions(injection, seq!["spec"@], spec)),
{
    reveal_strlit("/");
    reveal_strlit("-");
    reveal_strlit("spec");
    reveal_strlit("volumes");
    reveal_strlit("containers");
    reveal_strlit("initContainers");
    reveal_strlit("/spec/volumes");
    reveal_strlit("/spec/volumes/-");
    reveal_strlit("/spec/containers");
    reveal_strlit("/spec/initContainers");
    let root = "/"@ + "spec"@;
    let tokens = seq!["spec"@];
    lemma_pointer_single(root, "spec"@);
    lemma_names_push(root, tokens, "volumes"@);
    lemma_names_push(root + "/"@ + "volumes"@, tokens.push("volumes"@), "-"@);
    lemma_names_push(root, tokens, "containers"@);
    lemma_names_push(root, tokens, "initContainers"@);
    assert("/spec/volumes"@ == root + "/"@ + "volumes"@);
    assert("/spec/volumes/-"@ == root + "/"@ + "volumes"@ + "/"@ + "-"@);
    assert("/spec/containers"@ == root + "/"@ + "containers"@);
    assert("/spec/initContainers"@ == root + "/"@ + "initContainers"@);
    lemma_containers_ops(injection, "/spec/containers"@, tokens.push("containers"@), spec.containers);
    if let Some(containers) = spec.init_containers {
        lemma_containers_ops(injection, "/spec/initContainers"@, tokens.push("initContainers"@), containers);
    }
}

/// Appending to a list of an object, which is made first where it is absent.
proof fn lemma_append(members: Map<Seq<char>, JsonView>, key: Seq<char>, absent: bool, value: JsonView)
    requires
        absent == !(JsonView::Object(members).member(key) matches Some(JsonView::Array(_))),
    ensures
        ({
            let none: Seq<Seq<char>> = Seq::empty();
            let new = if absent {
                seq![Addition { tokens: none.push(key), value: empty_array() }]
            } else {
                Seq::empty()
            };
            with_additions(
                JsonView::Object(members),
                new + seq![Addition { tokens: none.push(key).push("-"@), value }],
            ) == Some(JsonView::Object(members.insert(key, JsonView::Array(list_under(members, key).push(value)))))
        }),
{
    reveal_with_fuel(with_additions, 3);
    reveal_with_fuel(with_added, 3);
    let none: Seq<Seq<char>> = Seq::empty();
    let item = Addition { tokens: none.push(key).push("-"@), value };
    assert(item.tokens.skip(1) == none.push("-"@));
    if absent {
        let new = Addition { tokens: none.push(key), value: empty_array() };
        let both = seq![new] + seq![item];
        assert(both.drop_last() == seq![new]);
        assert(seq![new].drop_last() == Seq::<Addition>::empty());
        let made = members.insert(key, empty_array());
        assert(made.insert(key, JsonView::Array(Seq::<JsonView>::empty().push(value))) =~= members.insert(
            key,
            JsonView::Array(list_under(members, key).push(value)),
        ));
    } else {
        assert(Seq::<Addition>::empty() + seq![item] == seq![item]);
        assert(seq![item].drop_last() == Seq::<Addition>::empty());
    }
}

/// The variables, appended to a list that is there.
proof fn lemma_env_additions(injection: InjectionView, members: Map<Seq<char>, JsonView>, count: int)
    requires
        JsonView::Object(members).member("env"@) matches Some(JsonView::Array(_)),
        0 <= count <= injection.env_names.len(),
    ensures
        with_additions(JsonView::Object(members), env_additions(injection, Seq::empty(), count)) == Some(
            JsonView::Object(
                members.insert(
                    "env"@,
                    JsonView::Array(list_under(members, "env"@) + injection.env_vars().take(count)),
                ),
            ),
        ),
    decreases count,
{
    let items = list_under(members, "env"@);
    let additions = env_additions(injection, Seq::empty(), count);
    if count == 0 {
        assert(items + injection.env_vars().take(0) == items);
        assert(members.insert("env"@, JsonView::Array(items)) =~= members);
    } else {
        lemma_env_additions(injection, members, count - 1);
        assert(additions.drop_last() == env_additions(injection, Seq::empty(), count - 1));
        reveal_with_fuel(with_added, 3);
        let none: Seq<Seq<char>> = Seq::empty();
        assert(additions.last().tokens.skip(1) == none.push("-"@));
        let earlier = items + injection.env_vars().take(count - 1);
        assert(items + injection.env_vars().take(count) == earlier.push(additions.last().value));
        let before = members.insert("env"@, JsonView::Array(earlier));
        let after = JsonView::Array(items + injection.env_vars().take(count));
        assert(before.insert("env"@, after) =~= members.insert("env"@, after));
    }
}

/// The operations on a container inject it.
proof fn lemma_container(injection: InjectionView, document: JsonView)
    requires
        document is Object,
    ensures
        with_additions(document, container_additions(injection, Seq::empty(), container_in(document))) == Some(
            injection.injected_container(document),
        ),
{
    let none: Seq<Seq<char>> = Seq::empty();
    let members = document->Object_0;
    let container = container_in(document);
    let new_mounts = if container.volume_mounts is None {
        seq![Addition { tokens: none.push("volumeMounts"@), value: empty_array() }]
    } else {
        Seq::empty()
    };
    let mounts = new_mounts + seq![
        Addition { tokens: none.push("volumeMounts"@).push("-"@), value: injection.mount() },
    ];
    let new_env = if container.env is None {
        seq![Addition { tokens: none.push("env"@), value: empty_array() }]
    } else {
        Seq::empty()
    };
    let count = injection.env_names.len() as int;
    let vars = env_additions(injection, none, count);
    assert(container_additions(injection, none, container) == mounts + new_env + vars);
    lemma_append(members, "volumeMounts"@, container.volume_mounts is None, injection.mount());
    let mounted = members.insert(
        "volumeMounts"@,
        JsonView::Array(list_under(members, "volumeMounts"@).push(injection.mount())),
    );
    assert("env"@ != "volumeMounts"@) by {
        reveal_strlit("env");
        reveal_strlit("volumeMounts");
        assert("env"@.len() != "volumeMounts"@.len());
    }
    assert(list_under(mounted, "env"@) == list_under(members, "env"@));
    let listed = if container.env is None {
        mounted.insert("env"@, empty_array())
    } else {
        mounted
    };
    assert(with_additions(JsonView::Object(mounted), new_env) == Some(JsonView::Object(listed))) by {
        reveal_with_fuel(with_additions, 2);
        reveal_with_fuel(with_added, 2);
        assert(new_env.len() > 0 ==> new_env.drop_last() == Seq::<Addition>::empty());
    }
    lemma_sequence(document, mounts, new_env);
    lemma_sequence(document, mounts + new_env, vars);
    lemma_env_additions(injection, listed, count);
    assert(injection.env_vars().take(count) == injection.env_vars());
    let env = JsonView::Array(list_under(members, "env"@) + injection.env_vars());
    assert(list_under(listed, "env"@) == list_under(members, "env"@));
    assert(listed.insert("env"@, env) =~= mounted.insert("env"@, env));
}

/// The operations on a container go to what the first token names.
proof fn lemma_container_within(injection: InjectionView, tokens: Seq<Seq<char>>, container: ContainerView)
    requires
        tokens.len() > 0,
    ensures
        all_within(container_additions(injection, tokens, container), tokens[0]),
        within(container_additions(injection, tokens, container)) == container_additions(
            injection,
            tokens.skip(1),
            container,
        ),
{
    let mounts = "volumeMounts"@;
    let env = "env"@;
    assert(tokens.push(mounts).skip(1) == tokens.skip(1).push(mounts));
    assert(tokens.push(mounts).push("-"@).skip(1) == tokens.skip(1).push(mounts).push("-"@));
    assert(tokens.push(env).skip(1) == tokens.skip(1).push(env));
    assert(tokens.push(env).push("-"@).skip(1) == tokens.skip(1).push(env).push("-"@));
    assert(within(container_additions(injection, tokens, container)) =~= container_additions(
        injection,
        tokens.skip(1),
        container,
    ));
}

proof fn lemma_containers_within(
    injection: InjectionView,
    tokens: Seq<Seq<char>>,
    containers: Seq<ContainerView>,
)
    requires
        tokens.len() > 0,
    ensures
        all_within(containers_additions(injection, tokens, containers), tokens[0]),
        within(containers_additions(injection, tokens, containers)) == containers_additions(
            injection,
            tokens.skip(1),
            containers,
        ),
    decreases containers.len(),
{
    if containers.len() > 0 {
        let last = decimal_text((containers.len() - 1) as nat);
        lemma_containers_within(injection, tokens, containers.drop_last());
        lemma_container_within(injection, tokens.push(last), containers.last());
        assert(tokens.push(last).skip(1) == tokens.skip(1).push(last));
        let first = containers_additions(injection, tokens, containers.drop_last());
        let second = container_additions(injection, tokens.push(last), containers.last());
        assert(within(first + second) == within(first) + within(second));
    } else {
        assert(within(Seq::empty()) == Seq::<Addition>::empty());
    }
}

/// The first items of an array injected, the others as they are.
spec fn injected_items(injection: InjectionView, items: Seq<JsonView>, count: int) -> Seq<JsonView> {
    Seq::new(items.len(), |i: int| if i < count { injection.injected_container(items[i]) } else { items[i] })
}

/// The operations on the first items of an array inject them.
proof fn lemma_containers(injection: InjectionView, items: Seq<JsonView>, containers: Seq<ContainerView>)
    requires
        containers.len() <= items.len(),
        forall|i: int| 0 <= i < containers.len() ==> (#[trigger] items[i]) is Object && containers[i] == container_in(items[i]),
    ensures
        with_additions(JsonView::Array(items), containers_additions(injection, Seq::empty(), containers)) == Some(
            JsonView::Array(injected_items(injection, items, containers.len() as int)),
        ),
    decreases containers.len(),
{
    let count = containers.len() as int;
    if count == 0 {
        assert(injected_items(injection, items, 0) == items);
    } else {
        let none: Seq<Seq<char>> = Seq::empty();
        let last = (count - 1) as nat;
        lemma_containers(injection, items, containers.drop_last());
        let tokens = none.push(decimal_text(last));
        let first = containers_additions(injection, none, containers.drop_last());
        let second = container_additions(injection, tokens, containers.last());
        lemma_sequence(JsonView::Array(items), first, second);
        lemma_container_within(injection, tokens, containers.last());
        assert(tokens.skip(1) == none);
        let before = injected_items(injection, items, count - 1);
        lemma_within_item(before, last, second);
        assert(before[count - 1] == items[count - 1]);
        lemma_container(injection, items[count - 1]);
        assert(before.update(count - 1, injection.injected_container(items[count - 1])) == injected_items(
            injection,
            items,
            count,
        ));
    }
}

/// The operations on the containers of a list inject every item of the list.
proof fn lemma_list(injection: InjectionView, members: Map<Seq<char>, JsonView>, key: Seq<char>)
    requires
        holds_objects(JsonView::Object(members), key),
    ensures
        ({
            let none: Seq<Seq<char>> = Seq::empty();
            let containers = match containers_in(JsonView::Object(members), key) {
                Some(containers) => containers,
                None => Seq::empty(),
            };
            with_additions(
                JsonView::Object(members),
                containers_additions(injection, none.push(key), containers),
            ) == Some(JsonView::Object(injection.injected_list(members, key)))
        }),
{
    let none: Seq<Seq<char>> = Seq::empty();
    if let Some(JsonView::Array(items)) = JsonView::Object(members).member(key) {
        let containers = containers_in(JsonView::Object(members), key)->0;
        lemma_containers_within(injection, none.push(key), containers);
        assert(none.push(key).skip(1) == none);
        lemma_within_member(members, key, containers_additions(injection, none.push(key), containers));
        lemma_containers(injection, items, containers);
        assert(injected_items(injection, items, items.len() as int) == items.map_values(
            |item: JsonView| injection.injected_container(item),
        ));
    }
}

/// The operations on a specification inject it.
proof fn lemma_spec(injection: InjectionView, members: Map<Seq<char>, JsonView>)
    requires
        holds_objects(JsonView::Object(members), "containers"@),
        holds_objects(JsonView::Object(members), "initContainers"@),
    ensures
        with_additions(
            JsonView::Object(members),
            spec_additions(injection, Seq::empty(), spec_in(JsonView::Object(members))),
        ) == Some(JsonView::Object(injection.injected_spec(members))),
{
    let none: Seq<Seq<char>> = Seq::empty();
    let document = JsonView::Object(members);
    let spec = spec_in(document);
    assert("volumes"@ != "containers"@ && "volumes"@ != "initContainers"@ && "containers"@ != "initContainers"@) by {
        reveal_strlit("volumes");
        reveal_strlit("containers");
        reveal_strlit("initContainers");
        assert("volumes"@.len() != "containers"@.len());
        assert("volumes"@.len() != "initContainers"@.len());
        assert("containers"@.len() != "initContainers"@.len());
    }
    let new_volumes = if spec.volumes is None {
        seq![Addition { tokens: none.push("volumes"@), value: empty_array() }]
    } else {
        Seq::empty()
    };
    let volumes = new_volumes + seq![
        Addition { tokens: none.push("volumes"@).push("-"@), value: injection.volume() },
    ];
    lemma_append(members, "volumes"@, spec.volumes is None, injection.volume());
    let with_volume = members.insert(
        "volumes"@,
        JsonView::Array(list_under(members, "volumes"@).push(injection.volume())),
    );
    let containers = containers_additions(injection, none.push("containers"@), spec.containers);
    assert(JsonView::Object(with_volume).member("containers"@) == document.member("containers"@));
    lemma_list(injection, with_volume, "containers"@);
    let with_containers = injection.injected_list(with_volume, "containers"@);
    assert(JsonView::Object(with_containers).member("initContainers"@) == document.member("initContainers"@));
    lemma_list(injection, with_containers, "initContainers"@);
    let init_containers = match spec.init_containers {
        Some(containers) => containers_additions(injection, none.push("initContainers"@), containers),
        None => Seq::empty(),
    };
    assert(spec_additions(injection, none, spec) == volumes + containers + init_containers);
    lemma_sequence(document, volumes, containers);
    lemma_sequence(document, volumes + containers, init_containers);
}

proof fn lemma_spec_within(injection: InjectionView, tokens: Seq<Seq<char>>, spec: PodSpecView)
    requires
        tokens.len() > 0,
    ensures
        all_within(spec_additions(injection, tokens, spec), tokens[0]),
        within(spec_additions(injection, tokens, spec)) == spec_additions(injection, tokens.skip(1), spec),
{
    let volumes = "volumes"@;
    let containers = "containers"@;
    let init = "initContainers"@;
    assert(tokens.push(volumes).skip(1) == tokens.skip(1).push(volumes));
    assert(tokens.push(volumes).push("-"@).skip(1) == tokens.skip(1).push(volumes).push("-"@));
    assert(tokens.push(containers).skip(1) == tokens.skip(1).push(containers));
    assert(tokens.push(init).skip(1) == tokens.skip(1).push(init));
    lemma_containers_within(injection, tokens.push(containers), spec.containers);
    if let Some(list) = spec.init_containers {
        lemma_containers_within(injection, tokens.push(init), list);
    }
    let first = if spec.volumes is None {
        seq![Addition { tokens: tokens.push(volumes), value: empty_array() }]
    } else {
        Seq::empty()
    } + seq![Addition { tokens: tokens.push(volumes).push("-"@), value: injection.volume() }];
    let second = containers_additions(injection, tokens.push(containers), spec.containers);
    let third = match spec.init_containers {
        Some(list) => containers_additions(injection, tokens.push(init), list),
        None => Seq::empty(),
    };
    assert(spec_additions(injection, tokens, spec) == first + second + third);
    assert(within(first + second + third) == within(first) + within(second) + within(third));
    assert(within(spec_additions(injection, tokens, spec)) =~= spec_additions(injection, tokens.skip(1), spec));
}

/// The place of the annotation that lists the variables set anew.
proof fn lemma_annotation_path()
    ensures
        pointer_tokens("/metadata/annotations/rustjack.io~1overwritten-envs"@) == Some(
            seq!["metadata"@, "annotations"@, "rustjack.io/overwritten-envs"@],
        ),
{
    reveal_strlit("/");
    reveal_strlit("~1");
    reveal_strlit("metadata");
    reveal_strlit("annotations");
    reveal_strlit("rustjack.io");
    reveal_strlit("overwritten-envs");
    reveal_strlit("rustjack.io/overwritten-envs");
    reveal_strlit("/metadata/annotations/rustjack.io~1overwritten-envs");
    let root = "/"@ + "metadata"@;
    let parent = root + "/"@ + "annotations"@;
    let token = "rustjack.io"@ + "~1"@ + "overwritten-envs"@;
    lemma_pointer_single(root, "metadata"@);
    lemma_names_push(root, seq!["metadata"@], "annotations"@);
    lemma_pointer_push(parent, token);
    assert("/metadata/annotations/rustjack.io~1overwritten-envs"@ == parent + "/"@ + token);
    let escaped = "~1"@ + "overwritten-envs"@;
    assert(token == "rustjack.io"@ + escaped);
    lemma_unescaped("rustjack.io"@, escaped);
    assert(escaped.skip(2) == "overwritten-envs"@);
    lemma_unescaped_plain("overwritten-envs"@);
    assert(unescaped(token) == "rustjack.io/overwritten-envs"@);
    assert(seq!["metadata"@].push("annotations"@).push(unescaped(token)) == seq![
        "metadata"@,
        "annotations"@,
        "rustjack.io/overwritten-envs"@,
    ]);
}

/// The patch of a pod applies to the document that the pod was read from, and what comes
/// out is that document with the volume, with the mount and the variables in every
/// container, the init containers too, with the list of the variables set anew where there
/// are any, and with everything else as it was.
pub proof fn law_patch_injects(document: JsonView, injection: InjectionView)
    requires
        pod_shaped(document),
        requested_injection(pod_in(document)) == Some(injection),
    ensures
        patched(document, injection.patch(pod_in(document))) == Some(
            injection.injected_pod(document, injection.overwritten(pod_in(document))),
        ),
{
    let pod = pod_in(document);
    let members = document->Object_0;
    let overwritten = injection.overwritten(pod);
    let ops = match pod.spec {
        Some(spec) => injection.spec_ops(spec),
        None => Seq::empty(),
    };
    let injected = match document.member("spec"@) {
        Some(JsonView::Object(spec)) => members.insert("spec"@, JsonView::Object(injection.injected_spec(spec))),
        _ => members,
    };
    assert(patched(document, ops) == Some(JsonView::Object(injected))) by {
        if let Some(JsonView::Object(spec)) = document.member("spec"@) {
            let tokens = seq!["spec"@];
            let additions = spec_additions(injection, tokens, pod.spec->0);
            lemma_spec_ops(injection, pod.spec->0);
            lemma_patched(document, ops, additions);
            lemma_spec_within(injection, tokens, pod.spec->0);
            assert(tokens.skip(1) == Seq::<Seq<char>>::empty());
            lemma_within_member(members, "spec"@, additions);
            lemma_spec(injection, spec);
        }
    }
    if overwritten.len() > 0 {
        let value = JsonView::Text(join_text(overwritten, ","@));
        let patch = injection.patch(pod);
        assert(patch.drop_last() == ops);
        lemma_annotation_path();
        let tokens = seq!["metadata"@, "annotations"@, "rustjack.io/overwritten-envs"@];
        assert("spec"@ != "metadata"@) by {
            reveal_strlit("spec");
            reveal_strlit("metadata");
            assert("spec"@.len() != "metadata"@.len());
        }
        reveal_with_fuel(with_added, 4);
        assert(tokens.skip(1) == seq!["annotations"@, "rustjack.io/overwritten-envs"@]);
        assert(tokens.skip(1).skip(1) == seq!["rustjack.io/overwritten-envs"@]);
    }
}

/// In an injected pod every container of the document, be it an init container, is there in
/// its place, with the mount behind its mounts and the variables behind its own.
pub proof fn law_every_container_injected(
    document: JsonView,
    injection: InjectionView,
    overwritten: Seq<Seq<char>>,
    spec: Map<Seq<char>, JsonView>,
    key: Seq<char>,
    items: Seq<JsonView>,
    i: int,
)
    requires
        pod_shaped(document),
        document.member("spec"@) == Some(JsonView::Object(spec)),
        key == "containers"@ || key == "initContainers"@,
        JsonView::Object(spec).member(key) == Some(JsonView::Array(items)),
        0 <= i < items.len(),
    ensures
        injection.injected_pod(document, overwritten).member("spec"@) matches Some(JsonView::Object(injected)) && (
        JsonView::Object(injected).member(key) matches Some(JsonView::Array(after)) && {
            let members = items[i]->Object_0;
            &&& items[i] is Object
            &&& after.len() == items.len()
            &&& after[i].member("volumeMounts"@) == Some(
                JsonView::Array(list_under(members, "volumeMounts"@).push(injection.mount())),
            )
            &&& after[i].member("env"@) == Some(
                JsonView::Array(list_under(members, "env"@) + injection.env_vars()),
            )
        }),
{
    reveal_strlit("spec");
    reveal_strlit("metadata");
    reveal_strlit("volumes");
    reveal_strlit("containers");
    reveal_strlit("initContainers");
    reveal_strlit("volumeMounts");
    reveal_strlit("env");
    assert("spec"@.len() != "metadata"@.len());
    assert("volumes"@.len() != "containers"@.len());
    assert("volumes"@.len() != "initContainers"@.len());
    assert("containers"@.len() != "initContainers"@.len());
    assert("volumeMounts"@.len() != "env"@.len());
    let injected = injection.injected_spec(spec);
    assert(injection.injected_pod(document, overwritten).member("spec"@) == Some(JsonView::Object(injected)));
    let after = items.map_values(|item: JsonView| injection.injected_container(item));
    assert(JsonView::Object(injected).member(key) == Some(JsonView::Array(after)));
    assert(after[i] == injection.injected_container(items[i]));
    assert(items[i] is Object);
}

} // verus!
