//! Agent configuration.
//!
//! The helper process reads its agent configuration (control-plane URL,
//! bearer token, agent identity, optional mTLS material) from a YAML file at
//! a platform-specific path. The host does the file and YAML work and hands
//! the extracted string fields here; this module holds the validation rules
//! and the frontend-visible summary, which never includes raw PEM material.

use vstd::prelude::*;

verus! {

/// The configuration as shown to the frontend: the PEM material is reduced
/// to a flag.
#[derive(Debug, Clone)]
pub struct AgentConfig {
    pub api_url: String,
    pub token: String,
    pub agent_id: String,
    pub has_mtls: bool,
}

/// The full configuration, raw PEM material included. It never leaves the
/// host process.
#[derive(Debug, Clone)]
pub struct AgentConfigFull {
    pub api_url: String,
    pub token: String,
    pub agent_id: String,
    pub mtls_cert_pem: Option<String>,
    pub mtls_key_pem: Option<String>,
}

/// An optional PEM field counts only when present and non-empty.
pub open spec fn pem_field(o: Option<Seq<char>>) -> Option<Seq<char>> {
    match o {
        Some(s) => if s.len() > 0 {
            Some(s)
        } else {
            None
        },
        None => None,
    }
}

/// Check the fields extracted from the configuration file: the three string
/// fields are required, in this order of complaint; empty PEM fields count
/// as absent.
pub fn validate_agent_config(
    api_url: Option<String>,
    token: Option<String>,
    agent_id: Option<String>,
    mtls_cert_pem: Option<String>,
    mtls_key_pem: Option<String>,
) -> (r: Result<AgentConfigFull, String>)
    ensures
        r is Ok <==> (api_url is Some && token is Some && agent_id is Some),
        api_url is None ==> (r matches Err(e) && e@ == "Missing 'api_url' in agent config"@),
        api_url is Some && token is None ==> (r matches Err(e) && e@
            == "Missing 'token' in agent config"@),
        api_url is Some && token is Some && agent_id is None ==> (r matches Err(e) && e@
            == "Missing 'agent_id' in agent config"@),
        r matches Ok(cfg) ==> cfg.api_url@ == api_url.unwrap()@ && cfg.token@ == token.unwrap()@
            && cfg.agent_id@ == agent_id.unwrap()@ && cfg.mtls_cert_pem.deep_view() == pem_field(
            mtls_cert_pem.deep_view(),
        ) && cfg.mtls_key_pem.deep_view() == pem_field(mtls_key_pem.deep_view()),
{
    let api_url = match api_url {
        Some(u) => u,
        None => {
            return Err(String::from_str("Missing 'api_url' in agent config"));
        },
    };
    let token = match token {
        Some(t) => t,
        None => {
            return Err(String::from_str("Missing 'token' in agent config"));
        },
    };
    let agent_id = match agent_id {
        Some(a) => a,
        None => {
            return Err(String::from_str("Missing 'agent_id' in agent config"));
        },
    };
    let mtls_cert_pem = match mtls_cert_pem {
        Some(c) => if c.as_str().is_empty() {
            None
        } else {
            Some(c)
        },
        None => None,
    };
    let mtls_key_pem = match mtls_key_pem {
        Some(k) => if k.as_str().is_empty() {
            None
        } else {
            Some(k)
        },
        None => None,
    };
    Ok(AgentConfigFull { api_url, token, agent_id, mtls_cert_pem, mtls_key_pem })
}

impl AgentConfigFull {
    /// The frontend-visible summary: the same identity fields, with the PEM
    /// material reduced to whether both halves are present.
    pub fn summary(&self) -> (c: AgentConfig)
        ensures
            c.api_url@ == self.api_url@,
            c.token@ == self.token@,
            c.agent_id@ == self.agent_id@,
            c.has_mtls == (self.mtls_cert_pem is Some && self.mtls_key_pem is Some),
    {
        AgentConfig {
            api_url: self.api_url.clone(),
            token: self.token.clone(),
            agent_id: self.agent_id.clone(),
            has_mtls: self.mtls_cert_pem.is_some() && self.mtls_key_pem.is_some(),
        }
    }
}

#[verifier::external_type_specification]
#[verifier::external_body]
pub struct ExYamlValue(serde_yaml::Value);

/// Relies on serde_yaml::from_str: parses the YAML document, or reports the
/// parse error behind the helper's message.
#[verifier::external_body]
fn parse_yaml(contents: &str) -> Result<serde_yaml::Value, String> {
    serde_yaml::from_str(contents).map_err(|e| format!("Failed to parse agent config: {}", e))
}

/// Relies on serde_yaml::Value::get: the value under a mapping key, if any.
#[verifier::external_body]
fn yaml_get<'a>(doc: &'a serde_yaml::Value, key: &str) -> Option<&'a serde_yaml::Value> {
    doc.get(key)
}

/// Relies on serde_yaml::Value::as_str: the content of a string value,
/// owned; `None` for any other kind of value.
#[verifier::external_body]
fn yaml_str(value: &serde_yaml::Value) -> Option<String> {
    value.as_str().map(|s| s.to_string())
}

/// The string under `key`, if the document maps `key` to a string.
fn yaml_string_field(doc: &serde_yaml::Value, key: &str) -> Option<String> {
    match yaml_get(doc, key) {
        Some(value) => yaml_str(value),
        None => None,
    }
}

/// Parse and validate an agent configuration document. The YAML reading
/// runs through serde_yaml and is trusted; every rule on the extracted
/// fields — which are required, in which order they are reported missing,
/// and that empty PEM fields count as absent — is the verified contract of
/// [`validate_agent_config`].
pub fn load_agent_config_from_str(contents: &String) -> (r: Result<AgentConfigFull, String>)
    ensures
        r matches Ok(cfg) ==> ((cfg.mtls_cert_pem matches Some(c) ==> c@.len() > 0) && (
        cfg.mtls_key_pem matches Some(k) ==> k@.len() > 0)),
{
    let doc = match parse_yaml(contents.as_str()) {
        Ok(d) => d,
        Err(e) => {
            return Err(e);
        },
    };
    validate_agent_config(
        yaml_string_field(&doc, "api_url"),
        yaml_string_field(&doc, "token"),
        yaml_string_field(&doc, "agent_id"),
        yaml_string_field(&doc, "mtls_cert_pem"),
        yaml_string_field(&doc, "mtls_key_pem"),
    )
}

/// The PEM bundle handed to the TLS client identity: certificate, newline,
/// key.
pub fn combine_pem(cert: &String, key: &String) -> (r: String)
    ensures
        r@ == cert@ + "\n"@ + key@,
{
    let mut r = cert.clone();
    r.append("\n");
    r.append(key.as_str());
    r
}

} // verus!
