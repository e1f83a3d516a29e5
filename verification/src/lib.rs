//! The decisions of a certificate-authority injector for Kubernetes pods.
pub mod cluster;
pub mod encoding;
pub mod json;
pub mod json_patch;
pub mod pod;
pub mod renewal;
pub mod repeated;
pub mod replica_laws;
pub mod settings;
pub mod startup;
pub mod string_map;
pub mod text;
pub mod text_laws;
pub mod tls;
pub mod webhook;
pub mod webhook_laws;
