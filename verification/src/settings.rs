//! Names under which a replica runs.
use vstd::prelude::*;

verus! {

/// The names of the service, of its namespace, of the webhook configuration and of the secret
/// with the certificate.
#[derive(Debug)]
pub struct Settings {
    pub svc_name: String,
    pub namespace: String,
    pub webhook_name: String,
    pub secret_name: String,
}

/// A name that was given, or else a default.
pub open spec fn name_or(given: Option<String>, default: Seq<char>) -> Seq<char> {
    match given {
        Some(name) => name@,
        None => default,
    }
}

/// A name that was given, or else a default.
pub fn name_or_default(given: Option<String>, default: &str) -> (name: String)
    ensures
        name@ == name_or(given, default@),
        given matches Some(text) ==> name@ == text@,
        given is None ==> name@ == default@,
{
    match given {
        Some(name) => name,
        None => default.to_owned(),
    }
}

/// The settings for the names that were given. The secret is named after the service.
pub fn settings_from(
    svc_name: Option<String>,
    namespace: Option<String>,
    webhook_name: Option<String>,
    secret_name: Option<String>,
) -> (settings: Settings)
    ensures
        settings.svc_name@ == name_or(svc_name, "rustjack"@),
        settings.namespace@ == name_or(namespace, "cert-manager"@),
        settings.webhook_name@ == name_or(webhook_name, "rustjack-webhook"@),
        settings.secret_name@ == name_or(secret_name, name_or(svc_name, "rustjack"@) + "-tls"@),
        settings.svc_name@ == match svc_name {
            Some(name) => name@,
            None => "rustjack"@,
        },
        settings.namespace@ == match namespace {
            Some(name) => name@,
            None => "cert-manager"@,
        },
        settings.webhook_name@ == match webhook_name {
            Some(name) => name@,
            None => "rustjack-webhook"@,
        },
        settings.secret_name@ == match secret_name {
            Some(name) => name@,
            None => settings.svc_name@ + "-tls"@,
        },
{
    let svc_name = name_or_default(svc_name, "rustjack");
    let secret_name = match secret_name {
        Some(name) => name,
        None => svc_name.clone().concat("-tls"),
    };
    Settings {
        svc_name,
        namespace: name_or_default(namespace, "cert-manager"),
        webhook_name: name_or_default(webhook_name, "rustjack-webhook"),
        secret_name,
    }
}

} // verus!
