use base64::Engine;
use rustjack::pod::{pod_from_value, ContainerInfo, MetadataInfo, PodInfo, SpecInfo};
use rustjack::string_map::StringMap;
use rustjack::webhook::{injection_for, mutate_handler, patch_value, review, review_pod, Outcome};
use serde_json::Value;

fn json(text: &str) -> Value {
    serde_json::from_str(text).unwrap()
}

fn review_of(object: &str) -> Value {
    json(&format!("{{\"request\":{{\"uid\":\"u-1\",\"namespace\":\"apps\",\"object\":{object}}}}}"))
}

fn decoded_patch(response: &Value) -> Value {
    let text = response["response"]["patch"].as_str().unwrap();
    let bytes = base64::engine::general_purpose::STANDARD.decode(text).unwrap();
    serde_json::from_slice(&bytes).unwrap()
}

/// Applies a patch that only adds.
fn applied(document: &str, patch: &Value) -> Value {
    let mut document = json(document);
    for op in patch.as_array().unwrap() {
        assert_eq!(op["op"], "add");
        let path = op["path"].as_str().unwrap();
        let (parent, last) = path.rsplit_once('/').unwrap();
        let last = last.replace("~1", "/").replace("~0", "~");
        match document.pointer_mut(parent).unwrap() {
            Value::Array(items) => {
                assert_eq!(last, "-");
                items.push(op["value"].clone());
            }
            Value::Object(members) => {
                members.insert(last, op["value"].clone());
            }
            _ => panic!("no place for {path}"),
        }
    }
    document
}

const POD: &str = r#"{
    "apiVersion": "v1", "kind": "Pod",
    "metadata": {"name": "web", "annotations": {"rustjack.io/ca-secret": "my-root-ca"}},
    "spec": {"containers": [{"name": "main-app", "image": "alpine:latest"}]}
}"#;

#[test]
fn review_without_request() {
    assert_eq!(mutate_handler(&json("{}")), json(r#"{"response": {"allowed": true}}"#));
    assert_eq!(mutate_handler(&json("[1]")), json(r#"{"response": {"allowed": true}}"#));
    assert!(matches!(review(&json("{}")).outcome, Outcome::NoRequest));
}

#[test]
fn request_without_pod() {
    let expected = json(r#"{"response": {"uid": "u-1", "allowed": true}}"#);
    for object in ["null", "7", "\"pod\"", "[]", r#"{"spec": 1}"#, r#"{"kind": "Service"}"#] {
        let body = review_of(object);
        assert_eq!(mutate_handler(&body), expected);
        assert!(matches!(review(&body).outcome, Outcome::NoPod));
    }
    assert_eq!(mutate_handler(&json(r#"{"request": {"uid": "u-1"}}"#)), expected);
}

#[test]
fn request_without_uid() {
    let expected = json(r#"{"response": {"uid": "", "allowed": true}}"#);
    assert_eq!(mutate_handler(&json(r#"{"request": {}}"#)), expected);
    assert_eq!(mutate_handler(&json(r#"{"request": {"uid": 7}}"#)), expected);
    assert_eq!(mutate_handler(&json(r#"{"request": null}"#)), expected);
}

#[test]
fn pod_without_annotation() {
    let expected = json(r#"{"response": {"uid": "u-1", "allowed": true}}"#);
    for object in [
        "{}",
        r#"{"metadata": {"annotations": null}}"#,
        r#"{"metadata": {"annotations": {"rustjack.io/mount-path": "/x"}}, "spec": {"containers": []}}"#,
    ] {
        let body = review_of(object);
        assert_eq!(mutate_handler(&body), expected);
        assert!(matches!(review(&body).outcome, Outcome::NotAnnotated));
    }
}

#[test]
fn plain_pod_gets_patch() {
    let response = mutate_handler(&review_of(POD));
    assert_eq!(response["apiVersion"], "admission.k8s.io/v1");
    assert_eq!(response["kind"], "AdmissionReview");
    assert_eq!(response["response"]["uid"], "u-1");
    assert_eq!(response["response"]["allowed"], true);
    assert_eq!(response["response"]["patchType"], "JSONPatch");
    assert_eq!(
        decoded_patch(&response),
        json(
            r#"[
            {"op": "add", "path": "/spec/volumes", "value": []},
            {"op": "add", "path": "/spec/volumes/-",
             "value": {"name": "rustjack-injected-ssl", "secret": {"secretName": "my-root-ca"}}},
            {"op": "add", "path": "/spec/containers/0/volumeMounts", "value": []},
            {"op": "add", "path": "/spec/containers/0/volumeMounts/-",
             "value": {"name": "rustjack-injected-ssl", "mountPath": "/ssl", "readOnly": true}},
            {"op": "add", "path": "/spec/containers/0/env", "value": []},
            {"op": "add", "path": "/spec/containers/0/env/-",
             "value": {"name": "SSL_CERT_FILE", "value": "/ssl/ca.crt"}},
            {"op": "add", "path": "/spec/containers/0/env/-",
             "value": {"name": "REQUESTS_CA_BUNDLE", "value": "/ssl/ca.crt"}},
            {"op": "add", "path": "/spec/containers/0/env/-",
             "value": {"name": "NODE_EXTRA_CA_CERTS", "value": "/ssl/ca.crt"}}
        ]"#
        )
    );
}

#[test]
fn patch_text_is_compact_json() {
    let response = mutate_handler(&review_of(
        r#"{"metadata": {"annotations": {"rustjack.io/ca-secret": "s"}}, "spec": {"volumes": []}}"#,
    ));
    let text = r#"[{"op":"add","path":"/spec/volumes/-","value":{"name":"rustjack-injected-ssl","secret":{"secretName":"s"}}}]"#;
    assert_eq!(
        response["response"]["patch"].as_str().unwrap(),
        base64::engine::general_purpose::STANDARD.encode(text)
    );
}

#[test]
fn pod_without_spec_gets_empty_patch() {
    let response = mutate_handler(&review_of(r#"{"metadata": {"annotations": {"rustjack.io/ca-secret": "s"}}}"#));
    assert_eq!(decoded_patch(&response), json("[]"));
    assert_eq!(response["response"]["patch"], "W10=");
}

#[test]
fn patched_pod_trusts_the_authority() {
    let pod = r#"{
        "metadata": {"generateName": "web-", "annotations": {
            "rustjack.io/ca-secret": "corp", "rustjack.io/mount-path": "/etc/ca",
            "rustjack.io/extra-envs": "CURL_CA_BUNDLE,,GIT_SSL_CAINFO"}},
        "spec": {
            "volumes": [{"name": "tmp", "emptyDir": {}}],
            "containers": [
                {"name": "a", "env": [{"name": "PATH", "value": "/bin"}]},
                {"name": "b", "volumeMounts": [{"name": "tmp", "mountPath": "/tmp"}], "env": []}
            ],
            "initContainers": [{"name": "i"}]
        }
    }"#;
    let decided = review(&review_of(pod));
    match decided.outcome {
        Outcome::Injected { secret_name, place, overwritten } => {
            assert_eq!(secret_name, "corp");
            assert_eq!(place, "apps/web-<generated>");
            assert!(overwritten.is_empty());
        }
        _ => panic!("no injection"),
    }
    let after = applied(pod, &decoded_patch(&decided.response));
    let mount = json(r#"{"name": "rustjack-injected-ssl", "mountPath": "/etc/ca", "readOnly": true}"#);
    let mut added: Vec<Value> = Vec::new();
    for name in ["SSL_CERT_FILE", "REQUESTS_CA_BUNDLE", "NODE_EXTRA_CA_CERTS", "CURL_CA_BUNDLE", "GIT_SSL_CAINFO"] {
        added.push(json(&format!("{{\"name\": \"{name}\", \"value\": \"/etc/ca/ca.crt\"}}")));
    }
    assert_eq!(
        after["spec"]["volumes"],
        json(
            r#"[{"name": "tmp", "emptyDir": {}},
                {"name": "rustjack-injected-ssl", "secret": {"secretName": "corp"}}]"#
        )
    );
    assert_eq!(after["spec"]["containers"][0]["volumeMounts"], Value::Array(vec![mount.clone()]));
    let mut env = vec![json(r#"{"name": "PATH", "value": "/bin"}"#)];
    env.extend(added.clone());
    assert_eq!(after["spec"]["containers"][0]["env"], Value::Array(env));
    assert_eq!(
        after["spec"]["containers"][1]["volumeMounts"],
        Value::Array(vec![json(r#"{"name": "tmp", "mountPath": "/tmp"}"#), mount.clone()])
    );
    assert_eq!(after["spec"]["containers"][1]["env"], Value::Array(added.clone()));
    assert_eq!(after["spec"]["initContainers"][0]["volumeMounts"], Value::Array(vec![mount]));
    assert_eq!(after["spec"]["initContainers"][0]["env"], Value::Array(added));
    assert_eq!(after["metadata"], json(pod)["metadata"]);
}

#[test]
fn overwritten_variables_are_recorded() {
    let pod = r#"{
        "metadata": {"name": "web", "annotations": {
            "rustjack.io/ca-secret": "corp", "rustjack.io/extra-envs": "MINE"}},
        "spec": {
            "containers": [
                {"name": "a", "env": [{"name": "MINE", "value": "1"}, {"name": "SSL_CERT_FILE", "value": "2"},
                                      {"name": "SSL_CERT_FILE", "value": "3"}]},
                {"name": "b", "env": [{"name": "OTHER"}]}
            ],
            "initContainers": [{"name": "i", "env": [{"name": "NODE_EXTRA_CA_CERTS"}]}]
        }
    }"#;
    let decided = review(&review_of(pod));
    let expected = "a/SSL_CERT_FILE,a/MINE,i/NODE_EXTRA_CA_CERTS";
    match &decided.outcome {
        Outcome::Injected { overwritten, .. } => assert_eq!(overwritten.join(","), expected),
        _ => panic!("no injection"),
    }
    let patch = decoded_patch(&decided.response);
    assert_eq!(
        *patch.as_array().unwrap().last().unwrap(),
        json(&format!(
            "{{\"op\": \"add\", \"path\": \"/metadata/annotations/rustjack.io~1overwritten-envs\", \"value\": \"{expected}\"}}"
        ))
    );
    let after = applied(pod, &patch);
    assert_eq!(after["metadata"]["annotations"]["rustjack.io/overwritten-envs"], expected);
    assert_eq!(after["metadata"]["annotations"]["rustjack.io/ca-secret"], "corp");
}

#[test]
fn places_of_pods() {
    let annotated = |metadata: &str| {
        format!("{{\"metadata\": {{{metadata} \"annotations\": {{\"rustjack.io/ca-secret\": \"s\"}}}}}}")
    };
    for (metadata, expected) in [
        ("\"name\": \"n\", \"generateName\": \"g-\",", "apps/n"),
        ("\"generateName\": \"g-\",", "apps/g-<generated>"),
        ("", "apps/unknown-pod"),
    ] {
        match review(&review_of(&annotated(metadata))).outcome {
            Outcome::Injected { place, .. } => assert_eq!(place, expected),
            _ => panic!("no injection"),
        }
    }
    let mut body = review_of(&annotated(""));
    body["request"].as_object_mut().unwrap().remove("namespace");
    match review(&body).outcome {
        Outcome::Injected { place, .. } => assert_eq!(place, "unknown-ns/unknown-pod"),
        _ => panic!("no injection"),
    }
}

#[test]
fn pods_are_read() {
    let pod = pod_from_value(&json(
        r#"{"metadata": {"name": "n", "annotations": {"k": "v"}},
            "spec": {"containers": [{"name": "a", "env": [{"name": "E"}]}], "volumes": [{"name": "v"}]}}"#,
    ))
    .unwrap();
    assert_eq!(pod.metadata.name, Some("n".to_string()));
    assert_eq!(pod.metadata.generate_name, None);
    assert_eq!(pod.annotation("k"), Some(&"v".to_string()));
    assert_eq!(pod.annotation("x"), None);
    let spec = pod.spec.unwrap();
    assert_eq!(spec.volumes, Some(vec!["v".to_string()]));
    assert_eq!(spec.containers[0].name, "a");
    assert_eq!(spec.containers[0].env, Some(vec!["E".to_string()]));
    assert_eq!(spec.containers[0].volume_mounts, None);
    assert!(spec.init_containers.is_none());
    assert!(pod_from_value(&json("[]")).is_none());
    assert!(pod_from_value(&json(r#"{"spec": {"containers": [null]}}"#)).is_none());
    assert!(pod_from_value(&json("{}")).unwrap().spec.is_none());
}

fn plain_pod() -> PodInfo {
    let mut annotations: StringMap<String> = StringMap::new();
    annotations.insert("rustjack.io/ca-secret".to_string(), "s".to_string());
    PodInfo {
        metadata: MetadataInfo { name: None, generate_name: None, annotations: Some(annotations) },
        spec: Some(SpecInfo {
            volumes: Some(Vec::new()),
            containers: vec![ContainerInfo {
                name: "c".to_string(),
                volume_mounts: Some(Vec::new()),
                env: Some(vec!["REQUESTS_CA_BUNDLE".to_string()]),
            }],
            init_containers: None,
        }),
    }
}

#[test]
fn patch_of_a_pod() {
    let pod = plain_pod();
    let (ops, overwritten) = injection_for(&pod).unwrap().patch(&pod);
    assert_eq!(overwritten, vec!["c/REQUESTS_CA_BUNDLE".to_string()]);
    let paths: Vec<&str> = ops.iter().map(|op| op.path.as_str()).collect();
    assert_eq!(
        paths,
        vec![
            "/spec/volumes/-",
            "/spec/containers/0/volumeMounts/-",
            "/spec/containers/0/env/-",
            "/spec/containers/0/env/-",
            "/spec/containers/0/env/-",
            "/metadata/annotations/rustjack.io~1overwritten-envs",
        ]
    );
    assert_eq!(patch_value(ops).as_array().unwrap().len(), 6);
}

#[test]
fn review_of_a_pod() {
    let pod = plain_pod();
    let decided = review_pod("id", "ns", Some(&pod));
    assert_eq!(decided.response["response"]["uid"], "id");
    assert_eq!(decoded_patch(&decided.response).as_array().unwrap().len(), 6);
    let decided = review_pod("id", "ns", None);
    assert_eq!(decided.response, json(r#"{"response": {"uid": "id", "allowed": true}}"#));
}

#[test]
fn eleven_containers_are_numbered() {
    let mut containers = String::from("{\"name\": \"c\"}");
    for _ in 0..10 {
        containers.push_str(", {\"name\": \"c\"}");
    }
    let pod = format!(
        "{{\"metadata\": {{\"annotations\": {{\"rustjack.io/ca-secret\": \"s\"}}}}, \"spec\": {{\"containers\": [{containers}]}}}}"
    );
    let after = applied(&pod, &decoded_patch(&mutate_handler(&review_of(&pod))));
    let list = after["spec"]["containers"].as_array().unwrap();
    assert_eq!(list.len(), 11);
    for container in list {
        assert_eq!(container["env"].as_array().unwrap().len(), 3);
        assert_eq!(container["volumeMounts"].as_array().unwrap().len(), 1);
    }
}

#[test]
fn second_review_adds_everything_again() {
    let pod = r#"{
        "metadata": {"name": "web", "annotations": {
            "rustjack.io/ca-secret": "corp", "rustjack.io/extra-envs": "MINE"}},
        "spec": {"containers": [{"name": "a"}, {"name": "b", "env": []}], "initContainers": [{"name": "i"}]}
    }"#;
    let first = decoded_patch(&mutate_handler(&review_of(pod)));
    let once = applied(pod, &first).to_string();
    let second = decoded_patch(&mutate_handler(&review_of(&once)));
    let appended: Vec<Value> =
        first.as_array().unwrap().iter().filter(|op| !op["value"].is_array()).cloned().collect();
    let ops = second.as_array().unwrap();
    assert_eq!(ops[..ops.len() - 1], appended[..]);
    assert_eq!(ops.last().unwrap()["path"], "/metadata/annotations/rustjack.io~1overwritten-envs");
    let mut expected: Vec<String> = Vec::new();
    for container in ["a", "b", "i"] {
        for name in ["SSL_CERT_FILE", "REQUESTS_CA_BUNDLE", "NODE_EXTRA_CA_CERTS", "MINE"] {
            expected.push(format!("{container}/{name}"));
        }
    }
    assert_eq!(ops.last().unwrap()["value"], expected.join(","));
}

#[test]
fn containers_that_are_no_objects_make_no_pod() {
    let expected = json(r#"{"response": {"uid": "u-1", "allowed": true}}"#);
    for item in ["null", "7", "\"c\"", "[]", "{\"name\": \"a\"}, null"] {
        for key in ["containers", "initContainers"] {
            let object = format!(
                "{{\"metadata\": {{\"annotations\": {{\"rustjack.io/ca-secret\": \"s\"}}}}, \"spec\": {{\"{key}\": [{item}]}}}}"
            );
            assert_eq!(mutate_handler(&review_of(&object)), expected);
        }
    }
}
