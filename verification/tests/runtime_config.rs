use manifest_synthesis::runtime::{
    KubernetesDownwardApiConfig, KubernetesRuntimeConfig, Runtime,
};

#[test]
fn docker_is_the_default_runtime() {
    assert_eq!(Runtime::default(), Runtime::Docker);
}

#[test]
fn provide_default_labels_path() {
    let config = KubernetesRuntimeConfig::default();
    assert_eq!(config.downward_api().labels_path(), "/run/podinfo/labels");
}

#[test]
fn labels_path_is_kept() {
    let config = KubernetesRuntimeConfig::new(KubernetesDownwardApiConfig::new(String::from(
        "/some/path",
    )));
    assert_eq!(config.downward_api().labels_path(), "/some/path");
    assert_eq!(
        Runtime::Kubernetes(config.clone()),
        Runtime::Kubernetes(config)
    );
}
