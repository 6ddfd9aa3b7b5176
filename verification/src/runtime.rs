//! Which runtime backend the system talks to, and the downward-API file
//! location a pod reads its own labels from when running under the
//! orchestrator.
use vstd::prelude::*;

verus! {

#[derive(Clone, Debug, PartialEq)]
pub enum Runtime {
    Docker,
    Kubernetes(KubernetesRuntimeConfig),
}

impl Default for Runtime {
    /// The Docker backend is assumed when no runtime is configured.
    fn default() -> (r: Runtime)
        ensures
            r is Docker,
    {
        Runtime::Docker
    }
}

#[derive(Clone, Debug, PartialEq)]
pub struct KubernetesRuntimeConfig {
    pub downward_api: KubernetesDownwardApiConfig,
}

impl KubernetesRuntimeConfig {
    pub fn new(downward_api: KubernetesDownwardApiConfig) -> (r: KubernetesRuntimeConfig)
        ensures
            r.downward_api == downward_api,
    {
        KubernetesRuntimeConfig { downward_api }
    }

    pub fn downward_api(&self) -> (r: &KubernetesDownwardApiConfig)
        ensures
            r == &self.downward_api,
    {
        &self.downward_api
    }
}

impl Default for KubernetesRuntimeConfig {
    fn default() -> (r: KubernetesRuntimeConfig)
        ensures
            r.downward_api.labels_path@ == "/run/podinfo/labels"@,
    {
        KubernetesRuntimeConfig { downward_api: KubernetesDownwardApiConfig::default() }
    }
}

#[derive(Clone, Debug, PartialEq)]
pub struct KubernetesDownwardApiConfig {
    pub labels_path: String,
}

impl KubernetesDownwardApiConfig {
    pub fn new(labels_path: String) -> (r: KubernetesDownwardApiConfig)
        ensures
            r.labels_path == labels_path,
    {
        KubernetesDownwardApiConfig { labels_path }
    }

    pub fn labels_path(&self) -> (r: &String)
        ensures
            r == &self.labels_path,
    {
        &self.labels_path
    }
}

impl Default for KubernetesDownwardApiConfig {
    /// Pods read their labels from `/run/podinfo/labels` unless configured
    /// otherwise.
    fn default() -> (r: KubernetesDownwardApiConfig)
        ensures
            r.labels_path@ == "/run/podinfo/labels"@,
    {
        KubernetesDownwardApiConfig { labels_path: String::from_str("/run/podinfo/labels") }
    }
}

} // verus!
