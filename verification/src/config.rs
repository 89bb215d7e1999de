//! The server configuration record.  Reading it from the environment is
//! plain I/O and lives outside the library.
use vstd::prelude::*;

verus! {

/// Everything the server is started with.
pub struct ServerConfig {
    pub port: u16,
    pub host: String,
    pub use_ssl: bool,
    pub ssl_cert_path: Option<String>,
    pub ssl_key_path: Option<String>,
    pub log_enabled: bool,
    pub log_methods: Option<String>,
    pub log_file: Option<String>,
    pub dev_mode: bool,
    pub enable_reactotron_server: bool,
    pub client_js_resource_path: Option<String>,
}

impl ServerConfig {
    /// A copy of this configuration.
    pub fn clone_config(&self) -> (r: ServerConfig)
        ensures
            r.port == self.port,
            r.host@ == self.host@,
            r.use_ssl == self.use_ssl,
            r.log_enabled == self.log_enabled,
            r.dev_mode == self.dev_mode,
            r.enable_reactotron_server == self.enable_reactotron_server,
    {
        ServerConfig {
            port: self.port,
            host: self.host.clone(),
            use_ssl: self.use_ssl,
            ssl_cert_path: match &self.ssl_cert_path {
                Some(s) => Some(s.clone()),
                None => None,
            },
            ssl_key_path: match &self.ssl_key_path {
                Some(s) => Some(s.clone()),
                None => None,
            },
            log_enabled: self.log_enabled,
            log_methods: match &self.log_methods {
                Some(s) => Some(s.clone()),
                None => None,
            },
            log_file: match &self.log_file {
                Some(s) => Some(s.clone()),
                None => None,
            },
            dev_mode: self.dev_mode,
            enable_reactotron_server: self.enable_reactotron_server,
            client_js_resource_path: match &self.client_js_resource_path {
                Some(s) => Some(s.clone()),
                None => None,
            },
        }
    }
}

impl Default for ServerConfig {
    /// The stock configuration: port 8080 on every interface, no TLS, no
    /// logging, everything optional switched off.
    fn default() -> (r: ServerConfig)
        ensures
            r.port == 8080,
            r.host@ == "0.0.0.0"@,
            !r.use_ssl,
            r.ssl_cert_path is None,
            r.ssl_key_path is None,
            !r.log_enabled,
            r.log_methods is None,
            r.log_file is None,
            !r.dev_mode,
            !r.enable_reactotron_server,
            r.client_js_resource_path is None,
    {
        ServerConfig {
            port: 8080,
            host: "0.0.0.0".to_owned(),
            use_ssl: false,
            ssl_cert_path: None,
            ssl_key_path: None,
            log_enabled: false,
            log_methods: None,
            log_file: None,
            dev_mode: false,
            enable_reactotron_server: false,
            client_js_resource_path: None,
        }
    }
}

} // verus!
