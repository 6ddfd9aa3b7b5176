use base64::engine::Engine;
use manifest_synthesis::SynthesisError;
use manifest_synthesis::config::ContainerConfig;
use manifest_synthesis::model::{
    DeployableService, DeploymentStrategy, EnvironmentVariable, FileEntry, PvcRef,
    RegistryCredentials, ServiceConfig, TraefikIngressRoute, TraefikMiddleware, TraefikRoute,
};
use manifest_synthesis::payloads::{
    IngressRouteSpec, TraefikRuleMiddleware, TraefikRuleSpec, TraefikRuleService, VolumePayload,
    deployment_payload, deployment_payload_with_date, deployment_replicas_payload,
    image_pull_secret_payload, ingress_route_payload, middleware_payload, namespace_payload,
    secrets_payload, service_payload,
};

fn strip_prefix_body() -> String {
    String::from("{\"stripPrefix\":{\"prefixes\":[\"/master/db/\"]}}")
}

fn sample_route() -> TraefikIngressRoute {
    TraefikIngressRoute::new(vec![TraefikRoute::new(
        String::from("PathPrefix(`/master/db/`)"),
        vec![TraefikMiddleware::Inline {
            name: String::from("master-db-middleware"),
            body: strip_prefix_body(),
        }],
    )])
}

fn sample_service(config: ServiceConfig) -> DeployableService {
    DeployableService::new(config, DeploymentStrategy::RedeployAlways, sample_route())
}

#[test]
fn should_create_deployment_payload() {
    let config = ServiceConfig::new(
        String::from("db"),
        String::from("docker.io/library/mariadb:10.3.17"),
    );
    let payload = deployment_payload(
        "master",
        &sample_service(config),
        &ContainerConfig::default(),
        false,
        &Vec::new(),
    );

    assert_eq!(payload.name, "master-db-deployment");
    assert_eq!(payload.namespace, "master");
    assert_eq!(payload.labels.app_name, "master");
    assert_eq!(payload.labels.service_name, "db");
    assert_eq!(payload.labels.container_type, "instance");
    assert_eq!(payload.image_annotation, "docker.io/library/mariadb:10.3.17");
    assert_eq!(payload.replicated_env_annotation, None);
    assert_eq!(payload.replicas, 1);
    assert_eq!(payload.selector, payload.labels);
    assert_eq!(payload.template_labels, payload.labels);
    assert_eq!(payload.template_annotations.len(), 1);
    assert_eq!(payload.template_annotations[0].0, "date");
    assert!(payload.volumes.is_empty());
    assert_eq!(payload.container.name, "db");
    assert_eq!(payload.container.image, "docker.io/library/mariadb:10.3.17");
    assert_eq!(payload.container.image_pull_policy, "Always");
    assert_eq!(payload.container.env, None);
    assert!(payload.container.volume_mounts.is_empty());
    assert_eq!(payload.container.container_port, 80);
    assert_eq!(payload.container.memory_limit, None);
    assert_eq!(payload.image_pull_secret, None);
}

#[test]
fn should_create_deployment_with_environment_variable() {
    let mut config = ServiceConfig::new(
        String::from("db"),
        String::from("docker.io/library/mariadb:10.3.17"),
    );
    config.set_env(Some(vec![EnvironmentVariable::new(
        String::from("MYSQL_ROOT_PASSWORD"),
        String::from("example"),
    )]));
    let payload = deployment_payload(
        "master",
        &sample_service(config),
        &ContainerConfig::default(),
        false,
        &Vec::new(),
    );

    assert_eq!(payload.name, "master-db-deployment");
    let env = payload.container.env.expect("environment must be rendered");
    assert_eq!(env.len(), 1);
    assert_eq!(env[0].name, "MYSQL_ROOT_PASSWORD");
    assert_eq!(env[0].value, "example");
    assert_eq!(payload.replicated_env_annotation, None);
}

#[test]
fn should_create_deployment_with_replicated_environment_variable() {
    let mut config = ServiceConfig::new(
        String::from("db"),
        String::from("docker.io/library/mariadb:10.3.17"),
    );
    config.set_env(Some(vec![EnvironmentVariable::with_replicated(
        String::from("MYSQL_ROOT_PASSWORD"),
        String::from("example"),
    )]));
    let payload = deployment_payload(
        "master",
        &sample_service(config),
        &ContainerConfig::default(),
        false,
        &Vec::new(),
    );

    let annotation = payload
        .replicated_env_annotation
        .expect("replicated environment must be serialized");
    assert_eq!(
        annotation,
        "{\"MYSQL_ROOT_PASSWORD\":{\"value\":\"example\",\"templated\":false,\"replicate\":true}}"
    );
    let parsed: serde_json::Value = serde_json::from_str(&annotation).unwrap();
    assert_eq!(parsed["MYSQL_ROOT_PASSWORD"]["value"], "example");
    assert_eq!(parsed["MYSQL_ROOT_PASSWORD"]["templated"], false);
    assert_eq!(parsed["MYSQL_ROOT_PASSWORD"]["replicate"], true);
    let env = payload.container.env.expect("environment must be rendered");
    assert_eq!(env.len(), 1);
    assert_eq!(env[0].value, "example");
}

#[test]
fn should_create_ingress_route() {
    let mut config = ServiceConfig::new(
        String::from("db"),
        String::from("docker.io/library/mariadb:10.3.17"),
    );
    config.set_port(1234);
    let service = sample_service(config);
    let payload = ingress_route_payload(&String::from("master"), &service);

    assert_eq!(payload.name, "master-db-ingress-route");
    assert_eq!(payload.namespace, "master");
    assert_eq!(payload.annotations.app_name, "master");
    assert_eq!(payload.entrypoints_annotation, "web");
    let rules = payload.route_spec.routes.expect("one rule per route");
    assert_eq!(rules.len(), 1);
    assert_eq!(rules[0].kind, "Rule");
    assert_eq!(rules[0].matcher, "PathPrefix(`/master/db/`)");
    assert_eq!(rules[0].services.len(), 1);
    assert_eq!(rules[0].services[0].kind.as_deref(), Some("Service"));
    assert_eq!(rules[0].services[0].name, "db");
    assert_eq!(rules[0].services[0].port, Some(1234));
    let middlewares = rules[0].middlewares.as_ref().unwrap();
    assert_eq!(middlewares.len(), 1);
    assert_eq!(middlewares[0].name, "master-db-middleware");
}

#[test]
fn should_create_middleware_with_default_prefix() {
    let config = ServiceConfig::new(
        String::from("db"),
        String::from("docker.io/library/mariadb:10.3.17"),
    );
    let service = sample_service(config);
    let payload = middleware_payload(&String::from("master"), &service);

    assert_eq!(payload.len(), 1);
    assert_eq!(payload[0].name, "master-db-middleware");
    assert_eq!(payload[0].namespace, "master");
    assert_eq!(payload[0].middleware_spec.0, strip_prefix_body());
    let parsed: serde_json::Value = serde_json::from_str(&payload[0].middleware_spec.0).unwrap();
    assert_eq!(parsed["stripPrefix"]["prefixes"][0], "/master/db/");
}

#[test]
fn named_middleware_references_produce_no_objects() {
    let config = ServiceConfig::new(String::from("db"), String::from("mariadb:10.3.17"));
    let route = TraefikIngressRoute::new(vec![TraefikRoute::new(
        String::from("PathPrefix(`/a/`)"),
        vec![
            TraefikMiddleware::Ref(String::from("already-there")),
            TraefikMiddleware::Inline {
                name: String::from("fresh-one"),
                body: String::from("{\"headers\":{}}"),
            },
            TraefikMiddleware::Ref(String::from("also-there")),
        ],
    )]);
    let service = DeployableService::new(config, DeploymentStrategy::RedeployNever, route);

    let objects = middleware_payload(&String::from("master"), &service);
    assert_eq!(objects.len(), 1);
    assert_eq!(objects[0].name, "fresh-one");

    let ingress = ingress_route_payload(&String::from("master"), &service);
    let rules = ingress.route_spec.routes.unwrap();
    let referenced: Vec<String> = rules[0]
        .middlewares
        .as_ref()
        .unwrap()
        .iter()
        .map(|m| m.name.clone())
        .collect();
    assert!(referenced.contains(&objects[0].name));
    assert_eq!(referenced, vec!["already-there", "fresh-one", "also-there"]);
}

#[test]
fn files_in_one_directory_share_one_volume_and_mount() {
    let mut config = ServiceConfig::new(String::from("db"), String::from("mariadb:10.3.17"));
    config.set_files(Some(vec![
        FileEntry {
            path: String::from("/opt/conf/app.properties"),
            content: String::from("a=1"),
        },
        FileEntry {
            path: String::from("/opt/conf/log4j.xml"),
            content: String::from("<xml/>"),
        },
    ]));
    let service = DeployableService::new(
        config,
        DeploymentStrategy::RedeployNever,
        TraefikIngressRoute::new(Vec::new()),
    );
    let payload = deployment_payload(
        "master",
        &service,
        &ContainerConfig::default(),
        false,
        &Vec::new(),
    );

    assert_eq!(payload.volumes.len(), 1);
    match &payload.volumes[0] {
        VolumePayload::SecretVolume { name, secret_name, items } => {
            assert_eq!(name, "opt-conf");
            assert_eq!(secret_name, "master-db-secret");
            assert_eq!(items.len(), 2);
            assert_eq!(items[0].key, "app-properties");
            assert_eq!(items[0].path, "app.properties");
            assert_eq!(items[1].key, "log4j-xml");
            assert_eq!(items[1].path, "log4j.xml");
        },
        VolumePayload::PvcVolume { .. } => panic!("expected a secret-backed volume"),
    }
    assert_eq!(payload.container.volume_mounts.len(), 1);
    assert_eq!(payload.container.volume_mounts[0].name, "opt-conf");
    assert_eq!(payload.container.volume_mounts[0].mount_path, "/opt/conf");
}

#[test]
fn pvc_mount_derives_path_and_volume_name() {
    let config = ServiceConfig::new(String::from("db"), String::from("mariadb:10.3.17"));
    let service = DeployableService::new(
        config,
        DeploymentStrategy::RedeployNever,
        TraefikIngressRoute::new(Vec::new()),
    );
    let pvcs = vec![PvcRef {
        subpath: String::from("/db"),
        claim_name: String::from("master-db-pvc"),
    }];
    let payload = deployment_payload(
        "master",
        &service,
        &ContainerConfig::default(),
        false,
        &pvcs,
    );

    assert_eq!(payload.container.volume_mounts.len(), 1);
    assert_eq!(payload.container.volume_mounts[0].name, "db-volume");
    assert_eq!(payload.container.volume_mounts[0].mount_path, "/data/master/db");
    assert_eq!(payload.volumes.len(), 1);
    match &payload.volumes[0] {
        VolumePayload::PvcVolume { name, claim_name } => {
            assert_eq!(name, "db-volume");
            assert_eq!(claim_name, "master-db-pvc");
        },
        VolumePayload::SecretVolume { .. } => panic!("expected a claim-backed volume"),
    }
}

#[test]
fn deployment_is_idempotent_without_redeploy_always() {
    let mut config = ServiceConfig::new(String::from("db"), String::from("mariadb:10.3.17"));
    config.set_env(Some(vec![EnvironmentVariable::new(
        String::from("K"),
        String::from("v"),
    )]));
    let service = DeployableService::new(
        config.clone(),
        DeploymentStrategy::RedeployNever,
        TraefikIngressRoute::new(Vec::new()),
    );
    let a = deployment_payload_with_date(
        "master",
        &service,
        &ContainerConfig::default(),
        true,
        &Vec::new(),
        "2023-01-01T00:00:00+00:00",
    );
    let b = deployment_payload_with_date(
        "master",
        &service,
        &ContainerConfig::default(),
        true,
        &Vec::new(),
        "2023-01-01T00:00:01+00:00",
    );
    assert_eq!(a, b);
    assert!(a.template_annotations.is_empty());

    let pinned = DeployableService::new(
        config,
        DeploymentStrategy::RedeployOnImageUpdate(String::from("sha256:abc")),
        TraefikIngressRoute::new(Vec::new()),
    );
    let c = deployment_payload_with_date(
        "master",
        &pinned,
        &ContainerConfig::default(),
        false,
        &Vec::new(),
        "2023-01-01T00:00:00+00:00",
    );
    let d = deployment_payload_with_date(
        "master",
        &pinned,
        &ContainerConfig::default(),
        false,
        &Vec::new(),
        "2023-01-01T00:00:01+00:00",
    );
    assert_eq!(c, d);
    assert_eq!(
        c.template_annotations,
        vec![(String::from("imageHash"), String::from("sha256:abc"))]
    );
}

#[test]
fn redeploy_always_differs_only_in_the_date_annotation() {
    let config = ServiceConfig::new(String::from("db"), String::from("mariadb:10.3.17"));
    let service = DeployableService::new(
        config,
        DeploymentStrategy::RedeployAlways,
        TraefikIngressRoute::new(Vec::new()),
    );
    let a = deployment_payload_with_date(
        "master",
        &service,
        &ContainerConfig::default(),
        false,
        &Vec::new(),
        "2023-01-01T00:00:00+00:00",
    );
    let mut b = deployment_payload_with_date(
        "master",
        &service,
        &ContainerConfig::default(),
        false,
        &Vec::new(),
        "2023-01-01T00:00:01+00:00",
    );
    assert_ne!(a, b);
    assert_eq!(
        a.template_annotations,
        vec![(
            String::from("date"),
            String::from("2023-01-01T00:00:00+00:00")
        )]
    );
    b.template_annotations = a.template_annotations.clone();
    assert_eq!(a, b);
}

#[test]
fn deployment_carries_memory_limit_and_pull_secret() {
    let config = ServiceConfig::new(String::from("db"), String::from("mariadb:10.3.17"));
    let service = DeployableService::new(
        config,
        DeploymentStrategy::RedeployNever,
        TraefikIngressRoute::new(Vec::new()),
    );
    let container_config = ContainerConfig::new(Some(10 * 1024 * 1024), String::from("1Gi"), false);
    let payload = deployment_payload(
        "master",
        &service,
        &container_config,
        true,
        &Vec::new(),
    );
    assert_eq!(payload.container.memory_limit, Some(10 * 1024 * 1024));
    assert_eq!(
        payload.image_pull_secret.as_deref(),
        Some("master-image-pull-secret")
    );
}

#[test]
fn creates_namespace_payload() {
    let payload = namespace_payload(&String::from("master"));
    assert_eq!(payload.name, "master");
}

#[test]
fn creates_service_payload() {
    let mut config = ServiceConfig::new(String::from("db"), String::from("mariadb:10.3.17"));
    config.set_port(3306);
    let payload = service_payload(&String::from("master"), &config);
    assert_eq!(payload.name, "db");
    assert_eq!(payload.namespace, "master");
    assert_eq!(payload.port_name, "db");
    assert_eq!(payload.port, 3306);
    assert_eq!(payload.target_port, 3306);
    assert_eq!(payload.selector.app_name, "master");
    assert_eq!(payload.selector.service_name, "db");
    assert_eq!(payload.selector.container_type, "instance");
}

#[test]
fn creates_replicas_patch_payload() {
    let config = ServiceConfig::new(String::from("db"), String::from("mariadb:10.3.17"));
    let payload = deployment_replicas_payload(&String::from("master"), &config, 3);
    assert_eq!(payload.name, "master-db-deployment");
    assert_eq!(payload.namespace, "master");
    assert_eq!(payload.replicas, 3);
    assert_eq!(payload.selector.service_name, "db");
}

#[test]
fn secret_data_uses_transformed_keys_and_base64_values() {
    let config = ServiceConfig::new(String::from("db"), String::from("mariadb:10.3.17"));
    let files = vec![
        FileEntry {
            path: String::from("/opt/conf/app.properties"),
            content: String::from("key=value"),
        },
        FileEntry {
            path: String::from("/opt/conf/log4j.xml"),
            content: String::from("<configuration/>"),
        },
    ];
    let payload = secrets_payload(&String::from("master"), &config, &files);
    assert_eq!(payload.name, "master-db-secret");
    assert_eq!(payload.namespace, "master");
    assert_eq!(payload.secret_type, "Opaque");
    assert_eq!(payload.data.len(), 2);
    assert_eq!(payload.data[0].0, "app-properties");
    assert_eq!(
        payload.data[0].1,
        base64::engine::general_purpose::STANDARD.encode("key=value")
    );
    assert_eq!(payload.data[1].0, "log4j-xml");
    let decoded = base64::engine::general_purpose::STANDARD
        .decode(&payload.data[1].1)
        .unwrap();
    assert_eq!(decoded, b"<configuration/>");
}

#[test]
fn image_pull_secret_is_immutable_and_decodes_to_auths() {
    let creds = vec![RegistryCredentials {
        registry: String::from("registry.example.com"),
        username: String::from("user"),
        password: String::from("pa\"ss"),
    }];
    let payload = image_pull_secret_payload("master", &creds);
    assert_eq!(payload.name, "master-image-pull-secret");
    assert_eq!(payload.namespace, "master");
    assert_eq!(payload.app_name_label, "master");
    assert!(payload.immutable);
    assert_eq!(payload.secret_type, "kubernetes.io/dockerconfigjson");
    assert_eq!(payload.data_key, ".dockerconfigjson");
    assert_eq!(
        payload.data_value,
        "{\"auths\":{\"registry.example.com\":{\"username\":\"user\",\"password\":\"pa\\\"ss\"}}}"
    );
    let parsed: serde_json::Value = serde_json::from_str(&payload.data_value).unwrap();
    let auths = parsed["auths"].as_object().unwrap();
    assert_eq!(auths.len(), 1);
    assert_eq!(auths["registry.example.com"]["username"], "user");
    assert_eq!(auths["registry.example.com"]["password"], "pa\"ss");
}

#[test]
fn image_pull_secret_holds_every_registry() {
    let creds = vec![
        RegistryCredentials {
            registry: String::from("a.example.com"),
            username: String::from("u1"),
            password: String::from("p1"),
        },
        RegistryCredentials {
            registry: String::from("b.example.com"),
            username: String::from("u2"),
            password: String::from("p2"),
        },
    ];
    let payload = image_pull_secret_payload("master", &creds);
    let parsed: serde_json::Value = serde_json::from_str(&payload.data_value).unwrap();
    let auths = parsed["auths"].as_object().unwrap();
    assert_eq!(auths.len(), 2);
    assert_eq!(auths["a.example.com"]["username"], "u1");
    assert_eq!(auths["b.example.com"]["password"], "p2");
}

#[test]
fn route_model_reads_back_from_route_spec() {
    let route_spec = IngressRouteSpec {
        entrypoints: None,
        routes: Some(vec![TraefikRuleSpec {
            kind: String::from("Rule"),
            matcher: String::from("PathPrefix(`/master/db/`)"),
            services: vec![TraefikRuleService {
                kind: Some(String::from("Service")),
                name: String::from("db"),
                port: Some(80),
            }],
            middlewares: Some(vec![TraefikRuleMiddleware {
                name: String::from("master-db-middleware"),
            }]),
        }]),
        tls: None,
    };
    let model = TraefikIngressRoute::try_from(&route_spec).unwrap();
    assert_eq!(model.routes.len(), 1);
    assert_eq!(model.routes[0].rule, "PathPrefix(`/master/db/`)");
    assert_eq!(model.routes[0].middlewares.len(), 1);
    match &model.routes[0].middlewares[0] {
        TraefikMiddleware::Ref(name) => assert_eq!(name, "master-db-middleware"),
        TraefikMiddleware::Inline { .. } => panic!("expected a named reference"),
    }
}

#[test]
fn route_spec_without_rules_is_missing_route_data() {
    let empty = IngressRouteSpec { entrypoints: None, routes: Some(Vec::new()), tls: None };
    assert_eq!(
        TraefikIngressRoute::try_from(&empty),
        Err(SynthesisError::MissingRouteData)
    );
    let absent = IngressRouteSpec { entrypoints: None, routes: None, tls: None };
    assert_eq!(
        TraefikIngressRoute::try_from(&absent),
        Err(SynthesisError::MissingRouteData)
    );
}
