//! The deployable-service model: the fully resolved description of one
//! service that the payload builders turn into orchestrator objects.
use vstd::prelude::*;

verus! {

/// One environment variable of a service. The `templated` and `replicate`
/// flags are only recorded here; the builders never expand them.
#[derive(Clone, Debug, PartialEq)]
pub struct EnvironmentVariable {
    pub key: String,
    pub value: String,
    pub templated: bool,
    pub replicate: bool,
}

impl EnvironmentVariable {
    pub fn new(key: String, value: String) -> (r: EnvironmentVariable)
        ensures
            r.key == key,
            r.value == value,
            !r.templated,
            !r.replicate,
    {
        EnvironmentVariable { key, value, templated: false, replicate: false }
    }

    pub fn with_replicated(key: String, value: String) -> (r: EnvironmentVariable)
        ensures
            r.key == key,
            r.value == value,
            !r.templated,
            r.replicate,
    {
        EnvironmentVariable { key, value, templated: false, replicate: true }
    }

    pub fn key(&self) -> (r: &String)
        ensures
            r == &self.key,
    {
        &self.key
    }

    pub fn value(&self) -> (r: &String)
        ensures
            r == &self.value,
    {
        &self.value
    }
}

/// One secret file of a service: where it is mounted and what it holds.
#[derive(Clone, Debug, PartialEq)]
pub struct FileEntry {
    pub path: String,
    pub content: String,
}

/// When a new pod template must force a restart: always, never, or only
/// when the resolved image changes.
#[derive(Clone, Debug, PartialEq)]
pub enum DeploymentStrategy {
    RedeployAlways,
    RedeployNever,
    RedeployOnImageUpdate(String),
}

/// A middleware a route names: either a reference to one that already
/// exists, or an inline definition whose body (an opaque, already rendered
/// JSON value) still needs its own resource object.
#[derive(Clone, Debug, PartialEq)]
pub enum TraefikMiddleware {
    Ref(String),
    Inline { name: String, body: String },
}

impl TraefikMiddleware {
    /// The name the middleware is referenced by, whichever form it takes.
    pub open spec fn spec_name(&self) -> Seq<char> {
        match self {
            TraefikMiddleware::Ref(name) => name@,
            TraefikMiddleware::Inline { name, body } => name@,
        }
    }

    pub fn name(&self) -> (r: &String)
        ensures
            r@ == self.spec_name(),
    {
        match self {
            TraefikMiddleware::Ref(name) => name,
            TraefikMiddleware::Inline { name, body } => name,
        }
    }
}

/// One routing rule: a backend-native matcher expression, already rendered,
/// and the middlewares it runs through, in order.
#[derive(Clone, Debug, PartialEq)]
pub struct TraefikRoute {
    pub rule: String,
    pub middlewares: Vec<TraefikMiddleware>,
}

impl TraefikRoute {
    pub fn new(rule: String, middlewares: Vec<TraefikMiddleware>) -> (r: TraefikRoute)
        ensures
            r.rule == rule,
            r.middlewares == middlewares,
    {
        TraefikRoute { rule, middlewares }
    }

    pub fn rule(&self) -> (r: &String)
        ensures
            r == &self.rule,
    {
        &self.rule
    }

    pub fn middlewares(&self) -> (r: &Vec<TraefikMiddleware>)
        ensures
            r == &self.middlewares,
    {
        &self.middlewares
    }
}

/// The ordered routes that direct external traffic to a service.
#[derive(Clone, Debug, PartialEq)]
pub struct TraefikIngressRoute {
    pub routes: Vec<TraefikRoute>,
}

impl TraefikIngressRoute {
    pub fn new(routes: Vec<TraefikRoute>) -> (r: TraefikIngressRoute)
        ensures
            r.routes == routes,
    {
        TraefikIngressRoute { routes }
    }

    pub fn routes(&self) -> (r: &Vec<TraefikRoute>)
        ensures
            r == &self.routes,
    {
        &self.routes
    }
}

/// The static configuration of one service: image, port, environment and
/// secret files. The container type tells workloads of the same app apart.
#[derive(Clone, Debug, PartialEq)]
pub struct ServiceConfig {
    pub service_name: String,
    pub image: String,
    pub port: u16,
    pub container_type: String,
    pub env: Option<Vec<EnvironmentVariable>>,
    pub files: Option<Vec<FileEntry>>,
}

impl ServiceConfig {
    /// A service of container type `instance` on port 80, with no
    /// environment and no files.
    pub fn new(service_name: String, image: String) -> (r: ServiceConfig)
        ensures
            r.service_name == service_name,
            r.image == image,
            r.port == 80,
            r.container_type@ == "instance"@,
            r.env is None,
            r.files is None,
    {
        ServiceConfig {
            service_name,
            image,
            port: 80,
            container_type: String::from_str("instance"),
            env: None,
            files: None,
        }
    }

    pub fn set_port(&mut self, port: u16)
        ensures
            *final(self) == (ServiceConfig { port, ..*old(self) }),
    {
        self.port = port;
    }

    pub fn set_env(&mut self, env: Option<Vec<EnvironmentVariable>>)
        ensures
            *final(self) == (ServiceConfig { env, ..*old(self) }),
    {
        self.env = env;
    }

    pub fn set_files(&mut self, files: Option<Vec<FileEntry>>)
        ensures
            *final(self) == (ServiceConfig { files, ..*old(self) }),
    {
        self.files = files;
    }

    pub fn service_name(&self) -> (r: &String)
        ensures
            r == &self.service_name,
    {
        &self.service_name
    }

    pub fn image(&self) -> (r: &String)
        ensures
            r == &self.image,
    {
        &self.image
    }

    pub fn port(&self) -> (r: u16)
        ensures
            r == self.port,
    {
        self.port
    }

    pub fn container_type(&self) -> (r: &String)
        ensures
            r == &self.container_type,
    {
        &self.container_type
    }

    pub fn env(&self) -> (r: &Option<Vec<EnvironmentVariable>>)
        ensures
            r == &self.env,
    {
        &self.env
    }

    pub fn files(&self) -> (r: &Option<Vec<FileEntry>>)
        ensures
            r == &self.files,
    {
        &self.files
    }
}

/// A service ready to deploy: its configuration, the strategy that governs
/// restarts, and the ingress route that exposes it.
#[derive(Clone, Debug, PartialEq)]
pub struct DeployableService {
    pub config: ServiceConfig,
    pub strategy: DeploymentStrategy,
    pub ingress_route: TraefikIngressRoute,
}

impl DeployableService {
    pub fn new(
        config: ServiceConfig,
        strategy: DeploymentStrategy,
        ingress_route: TraefikIngressRoute,
    ) -> (r: DeployableService)
        ensures
            r.config == config,
            r.strategy == strategy,
            r.ingress_route == ingress_route,
    {
        DeployableService { config, strategy, ingress_route }
    }

    /// The service's files as a sequence: an absent file map reads as empty.
    pub open spec fn spec_files(&self) -> Seq<FileEntry> {
        match self.config.files {
            Some(f) => f@,
            None => Seq::empty(),
        }
    }

    /// The service's environment as a sequence: an absent list reads as
    /// empty.
    pub open spec fn spec_env(&self) -> Seq<EnvironmentVariable> {
        match self.config.env {
            Some(e) => e@,
            None => Seq::empty(),
        }
    }

    pub fn service_name(&self) -> (r: &String)
        ensures
            r == &self.config.service_name,
    {
        &self.config.service_name
    }

    pub fn image(&self) -> (r: &String)
        ensures
            r == &self.config.image,
    {
        &self.config.image
    }

    pub fn port(&self) -> (r: u16)
        ensures
            r == self.config.port,
    {
        self.config.port
    }

    pub fn container_type(&self) -> (r: &String)
        ensures
            r == &self.config.container_type,
    {
        &self.config.container_type
    }

    pub fn env(&self) -> (r: &Option<Vec<EnvironmentVariable>>)
        ensures
            r == &self.config.env,
    {
        &self.config.env
    }

    pub fn files(&self) -> (r: &Option<Vec<FileEntry>>)
        ensures
            r == &self.config.files,
    {
        &self.config.files
    }

    pub fn strategy(&self) -> (r: &DeploymentStrategy)
        ensures
            r == &self.strategy,
    {
        &self.strategy
    }

    pub fn ingress_route(&self) -> (r: &TraefikIngressRoute)
        ensures
            r == &self.ingress_route,
    {
        &self.ingress_route
    }
}

/// A reference to an already provisioned persistent volume claim: the mount
/// subpath it is attached under, and the claim's assigned name, which the
/// builders only read.
#[derive(Clone, Debug, PartialEq)]
pub struct PvcRef {
    pub subpath: String,
    pub claim_name: String,
}

/// A registry and the credentials the orchestrator must present to it.
#[derive(Clone, Debug, PartialEq)]
pub struct RegistryCredentials {
    pub registry: String,
    pub username: String,
    pub password: String,
}

} // verus!
