//! What the replicas keep in the cluster: the secret through which they share a certificate,
//! and the part of the webhook configuration that names it to the API server.
use crate::encoding::{base64_bytes, base64_encode, base64_text, law_base64_read_back};
use crate::json::{json_array, json_object, json_string, json_view, json_with, JsonView};
use crate::string_map::StringMap;
use crate::text::{concat3, occurs, occurs_in};
use crate::text_laws::law_occurrence;
use serde_json::Value;
use vstd::prelude::*;

verus! {

/// The certificate and the private key in the data of a secret; nothing unless both are
/// there.
pub open spec fn tls_in(data: Map<Seq<char>, Vec<u8>>) -> Option<(Seq<u8>, Seq<u8>)> {
    if data.contains_key("tls.crt"@) && data.contains_key("tls.key"@) {
        Some((data["tls.crt"@]@, data["tls.key"@]@))
    } else {
        None
    }
}

/// A pair of byte vectors, as two sequences.
pub open spec fn pair_view(pair: Option<(Vec<u8>, Vec<u8>)>) -> Option<(Seq<u8>, Seq<u8>)> {
    match pair {
        Some(pair) => Some((pair.0@, pair.1@)),
        None => None,
    }
}

/// A copy of some bytes.
pub fn copy_bytes(bytes: &Vec<u8>) -> (copy: Vec<u8>)
    ensures
        copy@ == bytes@,
{
    let copy = bytes.clone();
    assert(copy@ == bytes@);
    copy
}

/// The certificate and the private key in the data of a secret.
pub fn extract_tls_from_secret(data: &StringMap<Vec<u8>>) -> (pair: Option<(Vec<u8>, Vec<u8>)>)
    ensures
        pair_view(pair) == tls_in(data@),
{
    match (data.get("tls.crt"), data.get("tls.key")) {
        (Some(cert), Some(key)) => Some((copy_bytes(cert), copy_bytes(key))),
        _ => None,
    }
}

/// The data of a secret as a map, if it has any.
pub open spec fn data_view(data: Option<StringMap<Vec<u8>>>) -> Option<Map<Seq<char>, Vec<u8>>> {
    match data {
        Some(data) => Some(data@),
        None => None,
    }
}

/// The certificate and the private key of a secret, which may have no data at all.
pub open spec fn stored_pair(data: Option<Map<Seq<char>, Vec<u8>>>) -> Option<(Seq<u8>, Seq<u8>)> {
    match data {
        Some(data) => tls_in(data),
        None => None,
    }
}

/// The certificate and the private key of a secret, which may have no data at all.
pub fn stored_tls(data: &Option<StringMap<Vec<u8>>>) -> (pair: Option<(Vec<u8>, Vec<u8>)>)
    ensures
        pair_view(pair) == stored_pair(data_view(*data)),
{
    match data {
        Some(data) => extract_tls_from_secret(data),
        None => None,
    }
}

/// The data of a secret that holds a certificate and its private key, and nothing else.
pub fn tls_secret_data(cert: &Vec<u8>, key: &Vec<u8>) -> (data: StringMap<Vec<u8>>)
    ensures
        data@.dom() == set!["tls.crt"@, "tls.key"@],
        data@["tls.crt"@]@ == cert@,
        data@["tls.key"@]@ == key@,
        tls_in(data@) == Some((cert@, key@)),
{
    proof {
        reveal_strlit("tls.crt");
        reveal_strlit("tls.key");
        assert("tls.crt"@[4] != "tls.key"@[4]);
    }
    let mut data: StringMap<Vec<u8>> = StringMap::new();
    data.insert("tls.crt".to_owned(), copy_bytes(cert));
    data.insert("tls.key".to_owned(), copy_bytes(key));
    data
}

/// The merge patch that puts a certificate and its private key into a secret, as base 64.
pub open spec fn secret_patch_json(cert: Seq<u8>, key: Seq<u8>) -> JsonView {
    JsonView::Object(
        map![
            "data"@ => JsonView::Object(
                map![
                    "tls.crt"@ => JsonView::Text(base64_text(cert)),
                    "tls.key"@ => JsonView::Text(base64_text(key)),
                ],
            ),
        ],
    )
}

/// The merge patch that puts a certificate and its private key into a secret.
pub fn secret_patch(cert: &[u8], key: &[u8]) -> (patch: Value)
    ensures
        json_view(patch) == secret_patch_json(cert@, key@),
{
    let data = json_with(json_object(), "tls.crt", json_string(base64_encode(cert).as_str()));
    let data = json_with(data, "tls.key", json_string(base64_encode(key).as_str()));
    json_with(json_object(), "data", data)
}

/// What the patch puts into the secret are the certificate and its private key and nothing
/// else: a reader of the two texts gets both back.
pub proof fn law_patch_read_back(cert: Seq<u8>, key: Seq<u8>)
    ensures
        secret_patch_json(cert, key).member("data"@) matches Some(data) && {
            &&& data.member("tls.crt"@) matches Some(JsonView::Text(text)) && base64_bytes(text) == cert
            &&& data.member("tls.key"@) matches Some(JsonView::Text(text)) && base64_bytes(text) == key
        },
        secret_patch_json(cert, key) matches JsonView::Object(members) && members.dom() == set!["data"@] && (
        members["data"@] matches JsonView::Object(data) && {
            &&& data.dom() == set!["tls.crt"@, "tls.key"@]
            &&& data["tls.crt"@] matches JsonView::Text(text) && base64_bytes(text) == cert
            &&& data["tls.key"@] matches JsonView::Text(text) && base64_bytes(text) == key
        }),
{
    reveal_strlit("tls.crt");
    reveal_strlit("tls.key");
    assert("tls.crt"@[4] != "tls.key"@[4]);
    law_base64_read_back(cert);
    law_base64_read_back(key);
    let members = secret_patch_json(cert, key)->Object_0;
    assert(members.dom() == set!["data"@]);
    assert(members["data"@]->Object_0.dom() == set!["tls.crt"@, "tls.key"@]);
}

/// The strategic patch that publishes a certificate as the authority of a webhook. The
/// webhook of a configuration is known by the name of the configuration.
pub open spec fn webhook_patch_json(ca_pem: Seq<u8>, webhook_name: Seq<char>) -> JsonView {
    JsonView::Object(
        map![
            "webhooks"@ => JsonView::Array(
                seq![
                    JsonView::Object(
                        map![
                            "name"@ => JsonView::Text("mutate."@ + webhook_name + ".svc"@),
                            "clientConfig"@ => JsonView::Object(
                                map!["caBundle"@ => JsonView::Text(base64_text(ca_pem))],
                            ),
                        ],
                    ),
                ],
            ),
        ],
    )
}

/// The strategic patch that publishes a certificate as the authority of a webhook.
pub fn patch_webhook_config(ca_pem: &[u8], webhook_name: &str) -> (patch: Value)
    ensures
        json_view(patch) == webhook_patch_json(ca_pem@, webhook_name@),
{
    let client_config = json_with(json_object(), "caBundle", json_string(base64_encode(ca_pem).as_str()));
    let name = json_string(concat3("mutate.", webhook_name, ".svc").as_str());
    let webhook = json_with(json_with(json_object(), "name", name), "clientConfig", client_config);
    let mut webhooks: Vec<Value> = Vec::new();
    webhooks.push(webhook);
    assert(webhooks@.map_values(|item: Value| json_view(item)) == seq![json_view(webhook)]);
    json_with(json_object(), "webhooks", json_array(webhooks))
}

/// The field selector of one secret.
pub open spec fn secret_selector_text(secret_name: Seq<char>) -> Seq<char> {
    "metadata.name="@ + secret_name
}

/// The field selector of one secret.
pub fn secret_selector(secret_name: &str) -> (selector: String)
    ensures
        selector@ == secret_selector_text(secret_name@),
{
    "metadata.name=".to_owned().concat(secret_name)
}

/// Whether the message of a refused patch says that the secret is missing.
pub open spec fn tells_missing(message: Seq<char>) -> bool {
    occurs_in("NotFound"@, message) || occurs_in("404"@, message)
}

/// Whether the message of a refused patch says that the secret is missing.
pub fn secret_is_missing(message: &str) -> (missing: bool)
    ensures
        missing == tells_missing(message@),
{
    occurs("NotFound", message) || occurs("404", message)
}

/// What is published is the whole certificate: the patch names one webhook, the one of the
/// configuration, and a reader of its authority gets the certificate back, byte for byte.
pub proof fn law_bundle_read_back(ca_pem: Seq<u8>, webhook_name: Seq<char>)
    ensures
        webhook_patch_json(ca_pem, webhook_name) matches JsonView::Object(members) && members.dom()
            == set!["webhooks"@] && (members["webhooks"@] matches JsonView::Array(webhooks) && webhooks.len() == 1 && (
        webhooks[0] matches JsonView::Object(webhook) && webhook.dom() == set!["name"@, "clientConfig"@]
            && webhook["name"@] == JsonView::Text("mutate."@ + webhook_name + ".svc"@) && (
        webhook["clientConfig"@] matches JsonView::Object(config) && config.dom() == set!["caBundle"@] && (
        config["caBundle"@] matches JsonView::Text(text) && base64_bytes(text) == ca_pem)))),
{
    reveal_strlit("name");
    reveal_strlit("clientConfig");
    assert("name"@.len() != "clientConfig"@.len());
    law_base64_read_back(ca_pem);
    let members = webhook_patch_json(ca_pem, webhook_name)->Object_0;
    assert(members.dom() == set!["webhooks"@]);
    let webhook = members["webhooks"@]->Array_0[0]->Object_0;
    assert(webhook.dom() == set!["name"@, "clientConfig"@]);
    assert(webhook["clientConfig"@]->Object_0.dom() == set!["caBundle"@]);
}

/// What is read from a secret is what stands under its two keys, whatever else it holds, and
/// nothing where one of them is missing.
pub proof fn law_read_under_two_keys(data: Option<StringMap<Vec<u8>>>, pair: Option<(Vec<u8>, Vec<u8>)>)
    requires
        pair_view(pair) == stored_pair(data_view(data)),
    ensures
        pair is Some <==> (data matches Some(map) && map@.contains_key("tls.crt"@) && map@.contains_key("tls.key"@)),
        pair matches Some(found) ==> found.0@ == data->0@["tls.crt"@]@ && found.1@ == data->0@["tls.key"@]@,
{
}

/// The selector of a secret asks for its name, and two secrets have two selectors.
pub proof fn law_selector_names_secret(secret_name: Seq<char>, other: Seq<char>)
    ensures
        secret_selector_text(secret_name).len() == 14 + secret_name.len(),
        secret_selector_text(secret_name).take(14) == "metadata.name="@,
        secret_selector_text(secret_name).skip(14) == secret_name,
        secret_selector_text(secret_name) == secret_selector_text(other) ==> secret_name == other,
{
    reveal_strlit("metadata.name=");
    assert(secret_selector_text(secret_name).take(14) == "metadata.name="@);
    assert(secret_selector_text(secret_name).skip(14) == secret_name);
    assert(secret_selector_text(other).skip(14) == other);
}

/// A message says that the secret is missing if `NotFound` stands anywhere in it, and if `404`
/// does, whatever else stands there; and no other message does.
pub proof fn law_missing_is_told(before: Seq<char>, behind: Seq<char>, message: Seq<char>)
    ensures
        tells_missing(before + "NotFound"@ + behind),
        tells_missing(before + "404"@ + behind),
        tells_missing(message) ==> exists|front: Seq<char>, back: Seq<char>|
            message == #[trigger] (front + "NotFound"@ + back) || message == front + "404"@ + back,
{
    law_occurrence("NotFound"@, before + "NotFound"@ + behind);
    law_occurrence("404"@, before + "404"@ + behind);
    if tells_missing(message) {
        law_occurrence("NotFound"@, message);
        law_occurrence("404"@, message);
        if occurs_in("NotFound"@, message) {
            let (front, back) = choose|front: Seq<char>, back: Seq<char>|
                message == #[trigger] (front + "NotFound"@ + back);
            assert(message == front + "NotFound"@ + back);
        } else {
            let (front, back) = choose|front: Seq<char>, back: Seq<char>|
                message == #[trigger] (front + "404"@ + back);
            let other = front + "NotFound"@ + back;
            assert(message == front + "404"@ + back);
        }
    }
}

} // verus!
