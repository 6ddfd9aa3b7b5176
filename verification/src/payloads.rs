//! The manifest synthesizer: one builder per orchestrator resource kind.
//!
//! Every builder is a pure function from the deployable-service model to a
//! plain-value payload object that mirrors the orchestrator's resource
//! shape field by field. Serialization into the wire format is left to the
//! unverified rim around this crate.
use vstd::prelude::*;

use crate::config::ContainerConfig;
use crate::json::{spec_any_replicated, spec_docker_config_json, spec_replicated_env_json};
use crate::model::{
    DeployableService, DeploymentStrategy, EnvironmentVariable, FileEntry, PvcRef,
    RegistryCredentials, ServiceConfig, TraefikMiddleware,
};
use crate::names::{
    spec_image_pull_secret_name, spec_kind_name, spec_pvc_mount_path, spec_pvc_volume_name,
};
use crate::text::{spec_dir_volume_name, spec_base_name, spec_file_key, spec_parent};

verus! {

/// What the standard base64 engine with padding returns for the bytes of a
/// string; a function of the input alone.
pub uninterp spec fn base64_of(s: Seq<char>) -> Seq<char>;

/// Relies on base64's `Engine::encode` with the standard alphabet and
/// padding: the encoding depends on the input bytes alone, and only the
/// empty input encodes to the empty string.
#[verifier::external_body]
fn base64_encode(content: &str) -> (r: String)
    ensures
        r@ == base64_of(content@),
        content@.len() == 0 <==> r@.len() == 0,
{
    base64::engine::Engine::encode(&base64::engine::general_purpose::STANDARD, content.as_bytes())
}

/// Relies on chrono's `Utc::now().to_rfc3339()` for the wall-clock instant
/// of this call; nothing is promised of the value.
#[verifier::external_body]
fn now_rfc3339() -> String {
    chrono::Utc::now().to_rfc3339()
}

/// The three fixed labels every workload object carries.
#[derive(Clone, Debug, PartialEq)]
pub struct WorkloadLabels {
    pub app_name: String,
    pub service_name: String,
    pub container_type: String,
}

/// The label values that name one service of one application.
pub open spec fn labels_match(
    l: WorkloadLabels,
    app: Seq<char>,
    service: Seq<char>,
    container_type: Seq<char>,
) -> bool {
    l.app_name@ == app && l.service_name@ == service && l.container_type@ == container_type
}

fn build_labels(app_name: &str, service_name: &str, container_type: &str) -> (r: WorkloadLabels)
    ensures
        labels_match(r, app_name@, service_name@, container_type@),
{
    WorkloadLabels {
        app_name: String::from_str(app_name),
        service_name: String::from_str(service_name),
        container_type: String::from_str(container_type),
    }
}

/// The namespace object an application lives in.
#[derive(Clone, Debug, PartialEq)]
pub struct NamespacePayload {
    pub name: String,
}

/// Builds the namespace object: it only carries the application name.
pub fn namespace_payload(app_name: &String) -> (r: NamespacePayload)
    ensures
        r.name@ == app_name@,
{
    NamespacePayload { name: app_name.clone() }
}

/// One rendered environment entry of the container.
#[derive(Clone, Debug, PartialEq)]
pub struct EnvVarPayload {
    pub name: String,
    pub value: String,
}

/// One volume mount of the container.
#[derive(Clone, Debug, PartialEq)]
pub struct VolumeMountPayload {
    pub name: String,
    pub mount_path: String,
}

/// One projected item of a secret-backed volume.
#[derive(Clone, Debug, PartialEq)]
pub struct SecretItemPayload {
    pub key: String,
    pub path: String,
}

/// One volume of the pod: either a projection of the service's secret or a
/// reference to an already provisioned claim.
#[derive(Clone, Debug, PartialEq)]
pub enum VolumePayload {
    SecretVolume { name: String, secret_name: String, items: Vec<SecretItemPayload> },
    PvcVolume { name: String, claim_name: String },
}

/// The single container of the pod template.
#[derive(Clone, Debug, PartialEq)]
pub struct ContainerPayload {
    pub name: String,
    pub image: String,
    pub image_pull_policy: String,
    pub env: Option<Vec<EnvVarPayload>>,
    pub volume_mounts: Vec<VolumeMountPayload>,
    pub container_port: u16,
    pub memory_limit: Option<u64>,
}

/// The deployment object of one service: metadata, the fixed selector, and
/// a pod template with exactly one container.
#[derive(Clone, Debug, PartialEq)]
pub struct DeploymentPayload {
    pub name: String,
    pub namespace: String,
    pub labels: WorkloadLabels,
    pub image_annotation: String,
    pub replicated_env_annotation: Option<String>,
    pub replicas: u32,
    pub selector: WorkloadLabels,
    pub template_labels: WorkloadLabels,
    pub template_annotations: Vec<(String, String)>,
    pub volumes: Vec<VolumePayload>,
    pub container: ContainerPayload,
    pub image_pull_secret: Option<String>,
}

/// The patch object that changes the replica count of a deployment and
/// nothing else.
#[derive(Clone, Debug, PartialEq)]
pub struct DeploymentReplicasPayload {
    pub name: String,
    pub namespace: String,
    pub labels: WorkloadLabels,
    pub replicas: u32,
    pub selector: WorkloadLabels,
}

/// The opaque secret of one service.
#[derive(Clone, Debug, PartialEq)]
pub struct SecretPayload {
    pub name: String,
    pub namespace: String,
    pub labels: WorkloadLabels,
    pub secret_type: String,
    pub data: Vec<(String, String)>,
}

/// The docker-config secret the orchestrator pulls images with.
#[derive(Clone, Debug, PartialEq)]
pub struct ImagePullSecretPayload {
    pub name: String,
    pub namespace: String,
    pub app_name_label: String,
    pub immutable: bool,
    pub secret_type: String,
    pub data_key: String,
    pub data_value: String,
}

/// The service object that exposes one port.
#[derive(Clone, Debug, PartialEq)]
pub struct ServicePayload {
    pub name: String,
    pub namespace: String,
    pub labels: WorkloadLabels,
    pub selector: WorkloadLabels,
    pub port_name: String,
    pub port: u16,
    pub target_port: u16,
}

/// The annotation entries the redeploy policy puts on the pod template:
/// `imageHash` pins the resolved image, `date` forces a fresh value on
/// every synthesis, and no entry leaves the template untouched.
pub open spec fn redeploy_annotations_match(
    a: Seq<(String, String)>,
    strategy: DeploymentStrategy,
    date: Seq<char>,
) -> bool {
    match strategy {
        DeploymentStrategy::RedeployOnImageUpdate(id) => a.len() == 1 && a[0].0@ == "imageHash"@
            && a[0].1@ == id@,
        DeploymentStrategy::RedeployNever => a.len() == 0,
        DeploymentStrategy::RedeployAlways => a.len() == 1 && a[0].0@ == "date"@ && a[0].1@
            == date,
    }
}

/// Renders the redeploy strategy into the pod-template annotation entries,
/// with `date` standing in for the moment of the call.
pub fn deployment_annotations(strategy: &DeploymentStrategy, date: &str) -> (r: Vec<
    (String, String),
>)
    ensures
        redeploy_annotations_match(r@, *strategy, date@),
{
    let mut r: Vec<(String, String)> = Vec::new();
    match strategy {
        DeploymentStrategy::RedeployOnImageUpdate(id) => {
            r.push((String::from_str("imageHash"), id.clone()));
        },
        DeploymentStrategy::RedeployNever => {},
        DeploymentStrategy::RedeployAlways => {
            r.push((String::from_str("date"), String::from_str(date)));
        },
    }
    r
}

/// What the secret of one service must hold: one entry per file, in input
/// order, keyed by the file's transformed base name, valued with the
/// base64 encoding of its content.
pub open spec fn secret_data_match(data: Seq<(String, String)>, files: Seq<FileEntry>) -> bool {
    data.len() == files.len() && forall|j: int|
        0 <= j < files.len() ==> (#[trigger] data[j]).0@ == spec_file_key(files[j].path@)
            && data[j].1@ == base64_of(files[j].content@)
}

/// Builds the opaque secret that carries all of one service's files.
pub fn secrets_payload(
    app_name: &String,
    service_config: &ServiceConfig,
    files: &Vec<FileEntry>,
) -> (r: SecretPayload)
    ensures
        r.name@ == spec_kind_name(app_name@, service_config.service_name@, "secret"@),
        r.namespace@ == app_name@,
        labels_match(
            r.labels,
            app_name@,
            service_config.service_name@,
            service_config.container_type@,
        ),
        r.secret_type@ == "Opaque"@,
        secret_data_match(r.data@, files@),
{
    let mut data: Vec<(String, String)> = Vec::new();
    let n = files.len();
    let mut i: usize = 0;
    while i < n
        invariant
            i <= n,
            n == files@.len(),
            data@.len() == i,
            forall|j: int|
                0 <= j < i ==> (#[trigger] data@[j]).0@ == spec_file_key(files@[j].path@)
                    && data@[j].1@ == base64_of(files@[j].content@),
        decreases n - i,
    {
        let key = crate::text::dash_for_dot(crate::text::base_name(files[i].path.as_str()).as_str());
        let value = base64_encode(files[i].content.as_str());
        data.push((key, value));
        i += 1;
    }
    SecretPayload {
        name: crate::names::secret_name(app_name.as_str(), service_config.service_name.as_str()),
        namespace: app_name.clone(),
        labels: build_labels(
            app_name.as_str(),
            service_config.service_name.as_str(),
            service_config.container_type.as_str(),
        ),
        secret_type: String::from_str("Opaque"),
        data,
    }
}

/// Builds the immutable docker-config secret: its single data key holds the
/// credential blob as JSON bytes, one `auths` member per registry.
pub fn image_pull_secret_payload(
    app_name: &str,
    registries_and_credentials: &Vec<RegistryCredentials>,
) -> (r: ImagePullSecretPayload)
    ensures
        r.name@ == spec_image_pull_secret_name(app_name@),
        r.namespace@ == app_name@,
        r.app_name_label@ == app_name@,
        r.immutable,
        r.secret_type@ == "kubernetes.io/dockerconfigjson"@,
        r.data_key@ == ".dockerconfigjson"@,
        r.data_value@ == spec_docker_config_json(registries_and_credentials@),
{
    ImagePullSecretPayload {
        name: crate::names::image_pull_secret_name(app_name),
        namespace: String::from_str(app_name),
        app_name_label: String::from_str(app_name),
        immutable: true,
        secret_type: String::from_str("kubernetes.io/dockerconfigjson"),
        data_key: String::from_str(".dockerconfigjson"),
        data_value: crate::json::docker_config_json(registries_and_credentials),
    }
}

/// Builds the service object: named by the service alone, one port whose
/// target is the container port.
pub fn service_payload(app_name: &String, service_config: &ServiceConfig) -> (r: ServicePayload)
    ensures
        r.name@ == service_config.service_name@,
        r.namespace@ == app_name@,
        labels_match(
            r.labels,
            app_name@,
            service_config.service_name@,
            service_config.container_type@,
        ),
        labels_match(
            r.selector,
            app_name@,
            service_config.service_name@,
            service_config.container_type@,
        ),
        r.port_name@ == service_config.service_name@,
        r.port == service_config.port,
        r.target_port == service_config.port,
{
    ServicePayload {
        name: service_config.service_name.clone(),
        namespace: app_name.clone(),
        labels: build_labels(
            app_name.as_str(),
            service_config.service_name.as_str(),
            service_config.container_type.as_str(),
        ),
        selector: build_labels(
            app_name.as_str(),
            service_config.service_name.as_str(),
            service_config.container_type.as_str(),
        ),
        port_name: service_config.service_name.clone(),
        port: service_config.port,
        target_port: service_config.port,
    }
}

/// Builds the patch that sets the replica count of a service's deployment
/// and touches nothing else.
pub fn deployment_replicas_payload(
    app_name: &String,
    service_config: &ServiceConfig,
    replicas: u32,
) -> (r: DeploymentReplicasPayload)
    ensures
        r.name@ == spec_kind_name(app_name@, service_config.service_name@, "deployment"@),
        r.namespace@ == app_name@,
        labels_match(
            r.labels,
            app_name@,
            service_config.service_name@,
            service_config.container_type@,
        ),
        labels_match(
            r.selector,
            app_name@,
            service_config.service_name@,
            service_config.container_type@,
        ),
        r.replicas == replicas,
{
    DeploymentReplicasPayload {
        name: crate::names::deployment_name(
            app_name.as_str(),
            service_config.service_name.as_str(),
        ),
        namespace: app_name.clone(),
        labels: build_labels(
            app_name.as_str(),
            service_config.service_name.as_str(),
            service_config.container_type.as_str(),
        ),
        replicas,
        selector: build_labels(
            app_name.as_str(),
            service_config.service_name.as_str(),
            service_config.container_type.as_str(),
        ),
    }
}

/// The views of a list of strings.
pub open spec fn strs_view(ss: Seq<String>) -> Seq<Seq<char>> {
    ss.map_values(|s: String| s@)
}

/// The paths of the files.
pub open spec fn file_paths(files: Seq<FileEntry>) -> Seq<Seq<char>> {
    files.map_values(|f: FileEntry| f.path@)
}

/// The distinct parent directories of the paths, in first-occurrence order.
pub open spec fn spec_parents(paths: Seq<Seq<char>>) -> Seq<Seq<char>>
    decreases paths.len(),
{
    if paths.len() == 0 {
        Seq::empty()
    } else {
        let prefix = spec_parents(paths.drop_last());
        let p = spec_parent(paths.last());
        if prefix.contains(p) {
            prefix
        } else {
            prefix.push(p)
        }
    }
}

/// The files that live directly under `p`, in input order.
pub open spec fn spec_files_with_parent(files: Seq<FileEntry>, p: Seq<char>) -> Seq<FileEntry>
    decreases files.len(),
{
    if files.len() == 0 {
        Seq::empty()
    } else {
        let prefix = spec_files_with_parent(files.drop_last(), p);
        if spec_parent(files.last().path@) == p {
            prefix.push(files.last())
        } else {
            prefix
        }
    }
}

/// The grouping yields each parent directory once: no two entries of
/// [`spec_parents`] are equal, so no directory ever gets two volumes or two
/// mounts.
pub proof fn lemma_parents_distinct(paths: Seq<Seq<char>>)
    ensures
        forall|i: int, j: int|
            0 <= i < j < spec_parents(paths).len() ==> spec_parents(paths)[i] != spec_parents(
                paths,
            )[j],
    decreases paths.len(),
{
    if paths.len() > 0 {
        lemma_parents_distinct(paths.drop_last());
        let prefix = spec_parents(paths.drop_last());
        let p = spec_parent(paths.last());
        if !prefix.contains(p) {
            assert forall|i: int, j: int|
                0 <= i < j < spec_parents(paths).len() implies spec_parents(paths)[i]
                != spec_parents(paths)[j] by {
                if j == prefix.len() {
                    assert(spec_parents(paths)[i] == prefix[i]);
                    assert(!prefix.contains(p));
                }
            }
        }
    }
}

/// Files that share a parent directory share its volume and its mount: the
/// file-derived mounts point at the distinct parent directories, so no two
/// of them point at the same directory.
pub proof fn lemma_no_duplicate_directory_mounts(
    ms: Seq<VolumeMountPayload>,
    app: Seq<char>,
    files: Seq<FileEntry>,
    pvcs: Seq<PvcRef>,
)
    requires
        mounts_match(ms, app, files, pvcs),
    ensures
        forall|i: int, j: int|
            0 <= i < j < spec_parents(file_paths(files)).len() ==> (#[trigger] ms[i]).mount_path@
                != (#[trigger] ms[j]).mount_path@,
{
    lemma_parents_distinct(file_paths(files));
}

fn contains_string(haystack: &Vec<String>, needle: &String) -> (r: bool)
    ensures
        r == strs_view(haystack@).contains(needle@),
{
    let n = haystack.len();
    let mut i: usize = 0;
    while i < n
        invariant
            i <= n,
            n == haystack@.len(),
            forall|k: int| 0 <= k < i ==> strs_view(haystack@)[k] != needle@,
        decreases n - i,
    {
        if haystack[i].eq(needle) {
            proof {
                assert(strs_view(haystack@)[i as int] == needle@);
            }
            return true;
        }
        i += 1;
    }
    proof {
        if strs_view(haystack@).contains(needle@) {
            let w = choose|k: int|
                0 <= k < strs_view(haystack@).len() && strs_view(haystack@)[k] == needle@;
        }
    }
    false
}

fn collect_parents(files: &Vec<FileEntry>) -> (r: Vec<String>)
    ensures
        strs_view(r@) == spec_parents(file_paths(files@)),
{
    let mut parents: Vec<String> = Vec::new();
    let n = files.len();
    let mut i: usize = 0;
    proof {
        assert(file_paths(files@.take(0)) =~= Seq::<Seq<char>>::empty());
        assert(strs_view(parents@) =~= spec_parents(file_paths(files@.take(0))));
    }
    while i < n
        invariant
            i <= n,
            n == files@.len(),
            strs_view(parents@) == spec_parents(file_paths(files@.take(i as int))),
        decreases n - i,
    {
        let p = crate::text::parent_dir(files[i].path.as_str());
        let found = contains_string(&parents, &p);
        proof {
            assert(file_paths(files@.take(i + 1)).drop_last() =~= file_paths(
                files@.take(i as int)));
            assert(file_paths(files@.take(i + 1)).last() == files@[i as int].path@);
        }
        if !found {
            let ghost old_parents = parents@;
            parents.push(p);
            proof {
                assert(strs_view(parents@) =~= strs_view(old_parents).push(
                    spec_parent(files@[i as int].path@)));
            }
        }
        i += 1;
    }
    proof {
        assert(files@.take(n as int) =~= files@);
    }
    parents
}

/// What the volume mounts of the container must be: one mount per distinct
/// parent directory of the secret files, named like the directory's volume
/// and mounted at the directory itself, followed by one mount per attached
/// claim at its derived path.
pub open spec fn mounts_match(
    ms: Seq<VolumeMountPayload>,
    app: Seq<char>,
    files: Seq<FileEntry>,
    pvcs: Seq<PvcRef>,
) -> bool {
    let parents = spec_parents(file_paths(files));
    &&& ms.len() == parents.len() + pvcs.len()
    &&& forall|i: int|
        0 <= i < parents.len() ==> (#[trigger] ms[i]).name@ == spec_dir_volume_name(parents[i])
            && ms[i].mount_path@ == parents[i]
    &&& forall|i: int|
        0 <= i < pvcs.len() ==> (#[trigger] ms[parents.len() + i]).name@ == spec_pvc_volume_name(
            pvcs[i].subpath@,
        ) && ms[parents.len() + i].mount_path@ == spec_pvc_mount_path(app, pvcs[i].subpath@)
}

fn build_volume_mounts(app_name: &str, files: &Vec<FileEntry>, pvcs: &Vec<PvcRef>) -> (r: Vec<
    VolumeMountPayload,
>)
    ensures
        mounts_match(r@, app_name@, files@, pvcs@),
{
    let parents = collect_parents(files);
    let mut r: Vec<VolumeMountPayload> = Vec::new();
    let np = parents.len();
    let mut k: usize = 0;
    while k < np
        invariant
            k <= np,
            np == parents@.len(),
            strs_view(parents@) == spec_parents(file_paths(files@)),
            r@.len() == k,
            forall|i: int|
                0 <= i < k ==> (#[trigger] r@[i]).name@ == spec_dir_volume_name(
                    strs_view(parents@)[i],
                ) && r@[i].mount_path@ == strs_view(parents@)[i],
        decreases np - k,
    {
        r.push(
            VolumeMountPayload {
                name: crate::text::dir_volume_name(parents[k].as_str()),
                mount_path: parents[k].clone(),
            },
        );
        k += 1;
    }
    let nv = pvcs.len();
    let mut j: usize = 0;
    while j < nv
        invariant
            j <= nv,
            nv == pvcs@.len(),
            np == strs_view(parents@).len(),
            strs_view(parents@) == spec_parents(file_paths(files@)),
            r@.len() == np + j,
            forall|i: int|
                0 <= i < np ==> (#[trigger] r@[i]).name@ == spec_dir_volume_name(
                    strs_view(parents@)[i],
                ) && r@[i].mount_path@ == strs_view(parents@)[i],
            forall|i: int|
                0 <= i < j ==> (#[trigger] r@[np + i]).name@ == spec_pvc_volume_name(
                    pvcs@[i].subpath@,
                ) && r@[np + i].mount_path@ == spec_pvc_mount_path(app_name@, pvcs@[i].subpath@),
        decreases nv - j,
    {
        r.push(
            VolumeMountPayload {
                name: crate::names::pvc_volume_name(pvcs[j].subpath.as_str()),
                mount_path: crate::names::pvc_mount_path(app_name, pvcs[j].subpath.as_str()),
            },
        );
        j += 1;
    }
    r
}

/// What the items a secret-backed volume projects must be: one per file of
/// the directory, keyed like the secret's data, placed under the file's
/// base name.
pub open spec fn secret_items_match(items: Seq<SecretItemPayload>, sel: Seq<FileEntry>) -> bool {
    items.len() == sel.len() && forall|j: int|
        0 <= j < sel.len() ==> (#[trigger] items[j]).key@ == spec_file_key(sel[j].path@)
            && items[j].path@ == spec_base_name(sel[j].path@)
}

/// A secret-backed volume for the directory `p`: named after the directory,
/// drawing from the service's own secret, projecting exactly the files
/// under `p`.
pub open spec fn secret_volume_matches(
    v: VolumePayload,
    p: Seq<char>,
    secret: Seq<char>,
    files: Seq<FileEntry>,
) -> bool {
    match v {
        VolumePayload::SecretVolume { name, secret_name, items } => name@ == spec_dir_volume_name(
            p,
        ) && secret_name@ == secret && secret_items_match(items@, spec_files_with_parent(files, p)),
        _ => false,
    }
}

/// A claim-backed volume: named after the mount subpath, referencing the
/// claim's assigned name, which the builder only reads.
pub open spec fn pvc_volume_matches(v: VolumePayload, pvc: PvcRef) -> bool {
    match v {
        VolumePayload::PvcVolume { name, claim_name } => name@ == spec_pvc_volume_name(
            pvc.subpath@,
        ) && claim_name@ == pvc.claim_name@,
        _ => false,
    }
}

/// What the pod's volumes must be: one secret-backed volume per distinct
/// parent directory, then one claim-backed volume per attached claim.
pub open spec fn volumes_match(
    vols: Seq<VolumePayload>,
    app: Seq<char>,
    service_name: Seq<char>,
    files: Seq<FileEntry>,
    pvcs: Seq<PvcRef>,
) -> bool {
    let parents = spec_parents(file_paths(files));
    &&& vols.len() == parents.len() + pvcs.len()
    &&& forall|i: int|
        0 <= i < parents.len() ==> secret_volume_matches(
            #[trigger] vols[i],
            parents[i],
            spec_kind_name(app, service_name, "secret"@),
            files,
        )
    &&& forall|i: int|
        0 <= i < pvcs.len() ==> pvc_volume_matches(#[trigger] vols[parents.len() + i], pvcs[i])
}

fn build_items_for_parent(files: &Vec<FileEntry>, p: &String) -> (r: Vec<SecretItemPayload>)
    ensures
        secret_items_match(r@, spec_files_with_parent(files@, p@)),
{
    let mut r: Vec<SecretItemPayload> = Vec::new();
    let n = files.len();
    let mut i: usize = 0;
    proof {
        assert(spec_files_with_parent(files@.take(0), p@) =~= Seq::<FileEntry>::empty());
    }
    while i < n
        invariant
            i <= n,
            n == files@.len(),
            secret_items_match(r@, spec_files_with_parent(files@.take(i as int), p@)),
        decreases n - i,
    {
        proof {
            assert(files@.take(i + 1).drop_last() =~= files@.take(i as int));
            assert(files@.take(i + 1).last() == files@[i as int]);
        }
        let par = crate::text::parent_dir(files[i].path.as_str());
        if par.eq(p) {
            let base = crate::text::base_name(files[i].path.as_str());
            r.push(
                SecretItemPayload { key: crate::text::dash_for_dot(base.as_str()), path: base },
            );
        }
        i += 1;
    }
    proof {
        assert(files@.take(n as int) =~= files@);
    }
    r
}

fn build_volumes(
    app_name: &str,
    service_name: &str,
    files: &Vec<FileEntry>,
    pvcs: &Vec<PvcRef>,
) -> (r: Vec<VolumePayload>)
    ensures
        volumes_match(r@, app_name@, service_name@, files@, pvcs@),
{
    let parents = collect_parents(files);
    let mut r: Vec<VolumePayload> = Vec::new();
    let np = parents.len();
    let mut k: usize = 0;
    while k < np
        invariant
            k <= np,
            np == parents@.len(),
            strs_view(parents@) == spec_parents(file_paths(files@)),
            r@.len() == k,
            forall|i: int|
                0 <= i < k ==> secret_volume_matches(
                    #[trigger] r@[i],
                    strs_view(parents@)[i],
                    spec_kind_name(app_name@, service_name@, "secret"@),
                    files@,
                ),
        decreases np - k,
    {
        let items = build_items_for_parent(files, &parents[k]);
        r.push(
            VolumePayload::SecretVolume {
                name: crate::text::dir_volume_name(parents[k].as_str()),
                secret_name: crate::names::secret_name(app_name, service_name),
                items,
            },
        );
        k += 1;
    }
    let nv = pvcs.len();
    let mut j: usize = 0;
    while j < nv
        invariant
            j <= nv,
            nv == pvcs@.len(),
            np == strs_view(parents@).len(),
            strs_view(parents@) == spec_parents(file_paths(files@)),
            r@.len() == np + j,
            forall|i: int|
                0 <= i < np ==> secret_volume_matches(
                    #[trigger] r@[i],
                    strs_view(parents@)[i],
                    spec_kind_name(app_name@, service_name@, "secret"@),
                    files@,
                ),
            forall|i: int|
                0 <= i < j ==> pvc_volume_matches(#[trigger] r@[np + i], pvcs@[i]),
        decreases nv - j,
    {
        r.push(
            VolumePayload::PvcVolume {
                name: crate::names::pvc_volume_name(pvcs[j].subpath.as_str()),
                claim_name: pvcs[j].claim_name.clone(),
            },
        );
        j += 1;
    }
    r
}

/// What the container's rendered environment must be: absent exactly when
/// the service has none, otherwise one plain key/value entry per variable
/// in order. The replicated and templated flags are not expanded here.
pub open spec fn env_matches(
    out: Option<Vec<EnvVarPayload>>,
    env: Option<Vec<EnvironmentVariable>>,
) -> bool {
    match out {
        Some(o) => match env {
            Some(e) => o@.len() == e@.len() && forall|i: int|
                0 <= i < e@.len() ==> (#[trigger] o@[i]).name@ == e@[i].key@ && o@[i].value@
                    == e@[i].value@,
            None => false,
        },
        None => env is None,
    }
}

fn build_env(env: &Option<Vec<EnvironmentVariable>>) -> (r: Option<Vec<EnvVarPayload>>)
    ensures
        env_matches(r, *env),
{
    match env {
        None => None,
        Some(e) => {
            let mut out: Vec<EnvVarPayload> = Vec::new();
            let n = e.len();
            let mut i: usize = 0;
            while i < n
                invariant
                    i <= n,
                    n == e@.len(),
                    out@.len() == i,
                    forall|k: int|
                        0 <= k < i ==> (#[trigger] out@[k]).name@ == e@[k].key@ && out@[k].value@
                            == e@[k].value@,
                decreases n - i,
            {
                out.push(EnvVarPayload { name: e[i].key.clone(), value: e[i].value.clone() });
                i += 1;
            }
            Some(out)
        },
    }
}

/// The full contract of deployment synthesis: every field of the payload as
/// a function of the inputs, with `date` standing in for the moment of the
/// call (only the `RedeployAlways` strategy reads it).
pub open spec fn deployment_matches(
    r: DeploymentPayload,
    app: Seq<char>,
    service: DeployableService,
    config: ContainerConfig,
    use_image_pull_secret: bool,
    pvcs: Seq<PvcRef>,
    date: Seq<char>,
) -> bool {
    &&& r.name@ == spec_kind_name(app, service.config.service_name@, "deployment"@)
    &&& r.namespace@ == app
    &&& labels_match(r.labels, app, service.config.service_name@, service.config.container_type@)
    &&& r.image_annotation@ == service.config.image@
    &&& match r.replicated_env_annotation {
        Some(s) => spec_any_replicated(service.spec_env()) && s@ == spec_replicated_env_json(
            service.spec_env(),
        ),
        None => !spec_any_replicated(service.spec_env()),
    }
    &&& r.replicas == 1
    &&& labels_match(r.selector, app, service.config.service_name@, service.config.container_type@)
    &&& labels_match(
        r.template_labels,
        app,
        service.config.service_name@,
        service.config.container_type@,
    )
    &&& redeploy_annotations_match(r.template_annotations@, service.strategy, date)
    &&& volumes_match(r.volumes@, app, service.config.service_name@, service.spec_files(), pvcs)
    &&& r.container.name@ == service.config.service_name@
    &&& r.container.image@ == service.config.image@
    &&& r.container.image_pull_policy@ == "Always"@
    &&& env_matches(r.container.env, service.config.env)
    &&& mounts_match(r.container.volume_mounts@, app, service.spec_files(), pvcs)
    &&& r.container.container_port == service.config.port
    &&& r.container.memory_limit == config.memory_limit
    &&& match r.image_pull_secret {
        Some(n) => use_image_pull_secret && n@ == spec_image_pull_secret_name(app),
        None => !use_image_pull_secret,
    }
}

/// Builds the deployment object of one service, with `date` supplied by the
/// caller in place of the clock; every field is pinned by
/// [`deployment_matches`].
pub fn deployment_payload_with_date(
    app_name: &str,
    service: &DeployableService,
    container_config: &ContainerConfig,
    use_image_pull_secret: bool,
    persistent_volume_claims: &Vec<PvcRef>,
    date: &str,
) -> (r: DeploymentPayload)
    ensures
        deployment_matches(
            r,
            app_name@,
            *service,
            *container_config,
            use_image_pull_secret,
            persistent_volume_claims@,
            date@,
        ),
{
    let empty_files: Vec<FileEntry> = Vec::new();
    let files: &Vec<FileEntry> = match service.files() {
        Some(f) => f,
        None => &empty_files,
    };
    proof {
        assert(files@ =~= service.spec_files());
    }
    let replicated_env_annotation = match service.env() {
        Some(e) => crate::json::replicated_env_json(e),
        None => None,
    };
    proof {
        if service.config.env is None {
            assert(!spec_any_replicated(service.spec_env()));
        }
    }
    let labels = build_labels(
        app_name,
        service.service_name().as_str(),
        service.container_type().as_str(),
    );
    let selector = build_labels(
        app_name,
        service.service_name().as_str(),
        service.container_type().as_str(),
    );
    let template_labels = build_labels(
        app_name,
        service.service_name().as_str(),
        service.container_type().as_str(),
    );
    let template_annotations = deployment_annotations(service.strategy(), date);
    let volumes = build_volumes(
        app_name,
        service.service_name().as_str(),
        files,
        persistent_volume_claims,
    );
    let volume_mounts = build_volume_mounts(app_name, files, persistent_volume_claims);
    let env = build_env(service.env());
    let container = ContainerPayload {
        name: service.service_name().clone(),
        image: service.image().clone(),
        image_pull_policy: String::from_str("Always"),
        env,
        volume_mounts,
        container_port: service.port(),
        memory_limit: container_config.memory_limit(),
    };
    let image_pull_secret = if use_image_pull_secret {
        Some(crate::names::image_pull_secret_name(app_name))
    } else {
        None
    };
    DeploymentPayload {
        name: crate::names::deployment_name(app_name, service.service_name().as_str()),
        namespace: String::from_str(app_name),
        labels,
        image_annotation: service.image().clone(),
        replicated_env_annotation,
        replicas: 1,
        selector,
        template_labels,
        template_annotations,
        volumes,
        container,
        image_pull_secret,
    }
}

/// Builds the deployment object of one service, reading the clock for the
/// `RedeployAlways` annotation; the result satisfies the full contract for
/// the instant that was read.
pub fn deployment_payload(
    app_name: &str,
    service: &DeployableService,
    container_config: &ContainerConfig,
    use_image_pull_secret: bool,
    persistent_volume_claims: &Vec<PvcRef>,
) -> (r: DeploymentPayload)
    ensures
        exists|date: Seq<char>|
            deployment_matches(
                r,
                app_name@,
                *service,
                *container_config,
                use_image_pull_secret,
                persistent_volume_claims@,
                date,
            ),
{
    let date = now_rfc3339();
    let r = deployment_payload_with_date(
        app_name,
        service,
        container_config,
        use_image_pull_secret,
        persistent_volume_claims,
        date.as_str(),
    );
    proof {
        assert(deployment_matches(
            r,
            app_name@,
            *service,
            *container_config,
            use_image_pull_secret,
            persistent_volume_claims@,
            date@,
        ));
    }
    r
}

/// The custom-resource spec of an ingress route, as the routing proxy's
/// resource shape has it.
#[derive(Clone, Debug, PartialEq)]
pub struct IngressRouteSpec {
    pub entrypoints: Option<Vec<String>>,
    pub routes: Option<Vec<TraefikRuleSpec>>,
    pub tls: Option<TraefikTls>,
}

/// One routing rule of the custom resource.
#[derive(Clone, Debug, PartialEq)]
pub struct TraefikRuleSpec {
    pub kind: String,
    pub matcher: String,
    pub services: Vec<TraefikRuleService>,
    pub middlewares: Option<Vec<TraefikRuleMiddleware>>,
}

/// The backend service a rule forwards to.
#[derive(Clone, Debug, PartialEq)]
pub struct TraefikRuleService {
    pub kind: Option<String>,
    pub name: String,
    pub port: Option<u16>,
}

/// A middleware referenced by name from a rule.
#[derive(Clone, Debug, PartialEq)]
pub struct TraefikRuleMiddleware {
    pub name: String,
}

/// The TLS section of the custom resource.
#[derive(Clone, Debug, PartialEq)]
pub struct TraefikTls {
    pub cert_resolver: Option<String>,
}

/// The opaque body of a middleware object, passed through unchanged.
#[derive(Clone, Debug, PartialEq)]
pub struct MiddlewareSpec(pub String);

/// One middleware object to be created for an inline definition.
#[derive(Clone, Debug, PartialEq)]
pub struct MiddlewarePayload {
    pub name: String,
    pub namespace: String,
    pub middleware_spec: MiddlewareSpec,
}

/// The ingress-route object of one service.
#[derive(Clone, Debug, PartialEq)]
pub struct IngressRoutePayload {
    pub name: String,
    pub namespace: String,
    pub annotations: WorkloadLabels,
    pub entrypoints_annotation: String,
    pub route_spec: IngressRouteSpec,
}

/// One emitted rule against one modeled route: kind `Rule`, the rendered
/// matcher, a single reference to the service by name and port, and every
/// middleware of the route referenced by name, named and inline alike.
pub open spec fn rule_matches(
    rule: TraefikRuleSpec,
    route: crate::model::TraefikRoute,
    service_name: Seq<char>,
    port: u16,
) -> bool {
    &&& rule.kind@ == "Rule"@
    &&& rule.matcher@ == route.rule@
    &&& rule.services@.len() == 1
    &&& match rule.services@[0].kind {
        Some(k) => k@ == "Service"@,
        None => false,
    }
    &&& rule.services@[0].name@ == service_name
    &&& rule.services@[0].port == Some(port)
    &&& match rule.middlewares {
        Some(ms) => ms@.len() == route.middlewares@.len() && forall|k: int|
            0 <= k < route.middlewares@.len() ==> (#[trigger] ms@[k]).name@
                == route.middlewares@[k].spec_name(),
        None => false,
    }
}

/// The ingress-route object against the model: named and annotated for the
/// service, requesting the `web` entrypoint, one rule per modeled route.
pub open spec fn ingress_route_matches(
    r: IngressRoutePayload,
    app: Seq<char>,
    service: DeployableService,
) -> bool {
    &&& r.name@ == spec_kind_name(app, service.config.service_name@, "ingress-route"@)
    &&& r.namespace@ == app
    &&& labels_match(
        r.annotations,
        app,
        service.config.service_name@,
        service.config.container_type@,
    )
    &&& r.entrypoints_annotation@ == "web"@
    &&& r.route_spec.entrypoints is None
    &&& r.route_spec.tls is None
    &&& match r.route_spec.routes {
        Some(rules) => rules@.len() == service.ingress_route.routes@.len() && forall|i: int|
            0 <= i < service.ingress_route.routes@.len() ==> rule_matches(
                #[trigger] rules@[i],
                service.ingress_route.routes@[i],
                service.config.service_name@,
                service.config.port,
            ),
        None => false,
    }
}

/// Builds the ingress-route object: one rule per route of the service,
/// each referencing the service object by name and container port and
/// carrying its middleware names.
pub fn ingress_route_payload(app_name: &String, service: &DeployableService) -> (r:
    IngressRoutePayload)
    ensures
        ingress_route_matches(r, app_name@, *service),
{
    let routes = service.ingress_route().routes();
    let mut rules: Vec<TraefikRuleSpec> = Vec::new();
    let n = routes.len();
    let mut i: usize = 0;
    while i < n
        invariant
            i <= n,
            n == routes@.len(),
            rules@.len() == i,
            forall|k: int|
                0 <= k < i ==> rule_matches(
                    #[trigger] rules@[k],
                    routes@[k],
                    service.config.service_name@,
                    service.config.port,
                ),
        decreases n - i,
    {
        let ms = &routes[i].middlewares;
        let mut names: Vec<TraefikRuleMiddleware> = Vec::new();
        let nm = ms.len();
        let mut k: usize = 0;
        while k < nm
            invariant
                k <= nm,
                nm == ms@.len(),
                names@.len() == k,
                forall|j: int|
                    0 <= j < k ==> (#[trigger] names@[j]).name@ == ms@[j].spec_name(),
            decreases nm - k,
        {
            names.push(TraefikRuleMiddleware { name: ms[k].name().clone() });
            k += 1;
        }
        rules.push(
            TraefikRuleSpec {
                kind: String::from_str("Rule"),
                matcher: routes[i].rule.clone(),
                services: vec![
                    TraefikRuleService {
                        kind: Some(String::from_str("Service")),
                        name: service.service_name().clone(),
                        port: Some(service.port()),
                    },
                ],
                middlewares: Some(names),
            },
        );
        i += 1;
    }
    IngressRoutePayload {
        name: crate::names::ingress_route_name(
            app_name.as_str(),
            service.service_name().as_str(),
        ),
        namespace: app_name.clone(),
        annotations: build_labels(
            app_name.as_str(),
            service.service_name().as_str(),
            service.container_type().as_str(),
        ),
        entrypoints_annotation: String::from_str("web"),
        route_spec: IngressRouteSpec { entrypoints: None, routes: Some(rules), tls: None },
    }
}

/// The (name, body) pairs of the inline middlewares in one route's list,
/// in order; named references contribute nothing.
pub open spec fn spec_route_inline(ms: Seq<TraefikMiddleware>) -> Seq<(Seq<char>, Seq<char>)>
    decreases ms.len(),
{
    if ms.len() == 0 {
        Seq::empty()
    } else {
        let prefix = spec_route_inline(ms.drop_last());
        match ms.last() {
            TraefikMiddleware::Inline { name, body } => prefix.push((name@, body@)),
            TraefikMiddleware::Ref(_) => prefix,
        }
    }
}

/// The (name, body) pairs of all inline middlewares across the routes, in
/// route order.
pub open spec fn spec_inline_middlewares(routes: Seq<crate::model::TraefikRoute>) -> Seq<
    (Seq<char>, Seq<char>),
>
    decreases routes.len(),
{
    if routes.len() == 0 {
        Seq::empty()
    } else {
        spec_inline_middlewares(routes.drop_last()) + spec_route_inline(
            routes.last().middlewares@,
        )
    }
}

/// The emitted middleware objects against the inline pairs: one object per
/// pair, in order, in the application's namespace, the body passed through
/// unchanged.
pub open spec fn middlewares_match(
    out: Seq<MiddlewarePayload>,
    app: Seq<char>,
    routes: Seq<crate::model::TraefikRoute>,
) -> bool {
    let inline = spec_inline_middlewares(routes);
    out.len() == inline.len() && forall|i: int|
        0 <= i < inline.len() ==> (#[trigger] out[i]).name@ == inline[i].0 && out[i].namespace@
            == app && out[i].middleware_spec.0@ == inline[i].1
}

/// Builds one middleware object for every inline middleware definition
/// across the service's routes; named references produce nothing, since
/// the objects they point at must already exist.
pub fn middleware_payload(app_name: &String, service: &DeployableService) -> (r: Vec<
    MiddlewarePayload,
>)
    ensures
        middlewares_match(r@, app_name@, service.ingress_route.routes@),
{
    let routes = service.ingress_route().routes();
    let mut out: Vec<MiddlewarePayload> = Vec::new();
    let n = routes.len();
    let mut i: usize = 0;
    proof {
        assert(spec_inline_middlewares(routes@.take(0)) =~= Seq::<(Seq<char>, Seq<char>)>::empty());
    }
    while i < n
        invariant
            i <= n,
            n == routes@.len(),
            middlewares_match(out@, app_name@, routes@.take(i as int)),
        decreases n - i,
    {
        let ms = &routes[i].middlewares;
        let nm = ms.len();
        let mut k: usize = 0;
        proof {
            assert(routes@.take(i + 1).drop_last() =~= routes@.take(i as int));
            assert(routes@.take(i + 1).last() == routes@[i as int]);
            assert(spec_route_inline(ms@.take(0)) =~= Seq::<(Seq<char>, Seq<char>)>::empty());
            assert(spec_inline_middlewares(routes@.take(i as int)) + spec_route_inline(ms@.take(0))
                =~= spec_inline_middlewares(routes@.take(i as int)));
        }
        while k < nm
            invariant
                k <= nm,
                nm == ms@.len(),
                out@.len() == spec_inline_middlewares(routes@.take(i as int)).len()
                    + spec_route_inline(ms@.take(k as int)).len(),
                forall|j: int|
                    0 <= j < out@.len() ==> (#[trigger] out@[j]).name@ == (spec_inline_middlewares(
                        routes@.take(i as int),
                    ) + spec_route_inline(ms@.take(k as int)))[j].0 && out@[j].namespace@
                        == app_name@ && out@[j].middleware_spec.0@ == (spec_inline_middlewares(
                        routes@.take(i as int),
                    ) + spec_route_inline(ms@.take(k as int)))[j].1,
            decreases nm - k,
        {
            proof {
                assert(ms@.take(k + 1).drop_last() =~= ms@.take(k as int));
                assert(ms@.take(k + 1).last() == ms@[k as int]);
            }
            match &ms[k] {
                TraefikMiddleware::Ref(_) => {},
                TraefikMiddleware::Inline { name, body } => {
                    out.push(
                        MiddlewarePayload {
                            name: name.clone(),
                            namespace: app_name.clone(),
                            middleware_spec: MiddlewareSpec(body.clone()),
                        },
                    );
                    proof {
                        assert(spec_route_inline(ms@.take(k + 1)) =~= spec_route_inline(
                            ms@.take(k as int)).push((name@, body@)));
                    }
                },
            }
            k += 1;
        }
        proof {
            assert(ms@.take(nm as int) =~= ms@);
            assert(spec_inline_middlewares(routes@.take(i + 1)) =~= spec_inline_middlewares(
                routes@.take(i as int)) + spec_route_inline(ms@));
        }
        i += 1;
    }
    proof {
        assert(routes@.take(n as int) =~= routes@);
    }
    out
}

impl crate::model::TraefikIngressRoute {
    /// Reads the routing model back out of a fetched ingress-route spec.
    /// Succeeds exactly when the spec carries at least one rule; the model
    /// then holds that first rule's matcher and its middlewares as named
    /// references. A spec without rules is missing the data a route needs.
    pub fn try_from(route_spec: &IngressRouteSpec) -> (r: Result<
        crate::model::TraefikIngressRoute,
        crate::SynthesisError,
    >)
        ensures
            match r {
                Ok(t) => {
                    &&& route_spec.routes is Some
                    &&& route_spec.routes->0@.len() > 0
                    &&& t.routes@.len() == 1
                    &&& t.routes@[0].rule@ == route_spec.routes->0@[0].matcher@
                    &&& match route_spec.routes->0@[0].middlewares {
                        Some(ms) => t.routes@[0].middlewares@.len() == ms@.len() && forall|k: int|
                            0 <= k < ms@.len() ==> (#[trigger] t.routes@[0].middlewares@[k])
                                is Ref && t.routes@[0].middlewares@[k].spec_name() == ms@[k].name@,
                        None => t.routes@[0].middlewares@.len() == 0,
                    }
                },
                Err(e) => {
                    &&& (route_spec.routes is None || route_spec.routes->0@.len() == 0)
                    &&& e == crate::SynthesisError::MissingRouteData
                },
            },
    {
        let rules = match &route_spec.routes {
            None => {
                return Err(crate::SynthesisError::MissingRouteData);
            },
            Some(rules) => rules,
        };
        if rules.len() == 0 {
            return Err(crate::SynthesisError::MissingRouteData);
        }
        let first = &rules[0];
        let mut middlewares: Vec<TraefikMiddleware> = Vec::new();
        match &first.middlewares {
            None => {},
            Some(ms) => {
                let nm = ms.len();
                let mut k: usize = 0;
                while k < nm
                    invariant
                        k <= nm,
                        nm == ms@.len(),
                        middlewares@.len() == k,
                        forall|j: int|
                            0 <= j < k ==> (#[trigger] middlewares@[j]) is Ref
                                && middlewares@[j].spec_name() == ms@[j].name@,
                    decreases nm - k,
                {
                    middlewares.push(TraefikMiddleware::Ref(ms[k].name.clone()));
                    k += 1;
                }
            },
        }
        let route = crate::model::TraefikRoute { rule: first.matcher.clone(), middlewares };
        Ok(crate::model::TraefikIngressRoute { routes: vec![route] })
    }
}

/// Two label sets carrying the same values.
pub open spec fn labels_eq(a: WorkloadLabels, b: WorkloadLabels) -> bool {
    a.app_name@ == b.app_name@ && a.service_name@ == b.service_name@ && a.container_type@
        == b.container_type@
}

/// Two annotation lists carrying the same entries.
pub open spec fn annotations_eq(a: Seq<(String, String)>, b: Seq<(String, String)>) -> bool {
    a.len() == b.len() && forall|i: int|
        0 <= i < a.len() ==> (#[trigger] a[i]).0@ == b[i].0@ && a[i].1@ == b[i].1@
}

pub open spec fn opt_string_eq(a: Option<String>, b: Option<String>) -> bool {
    match a {
        Some(x) => match b {
            Some(y) => x@ == y@,
            None => false,
        },
        None => b is None,
    }
}

pub open spec fn items_eq(a: Seq<SecretItemPayload>, b: Seq<SecretItemPayload>) -> bool {
    a.len() == b.len() && forall|i: int|
        0 <= i < a.len() ==> (#[trigger] a[i]).key@ == b[i].key@ && a[i].path@ == b[i].path@
}

pub open spec fn volume_eq(a: VolumePayload, b: VolumePayload) -> bool {
    match a {
        VolumePayload::SecretVolume { name: n1, secret_name: s1, items: i1 } => match b {
            VolumePayload::SecretVolume { name: n2, secret_name: s2, items: i2 } => n1@ == n2@
                && s1@ == s2@ && items_eq(i1@, i2@),
            _ => false,
        },
        VolumePayload::PvcVolume { name: n1, claim_name: c1 } => match b {
            VolumePayload::PvcVolume { name: n2, claim_name: c2 } => n1@ == n2@ && c1@ == c2@,
            _ => false,
        },
    }
}

pub open spec fn volumes_eq(a: Seq<VolumePayload>, b: Seq<VolumePayload>) -> bool {
    a.len() == b.len() && forall|i: int| 0 <= i < a.len() ==> volume_eq(#[trigger] a[i], b[i])
}

pub open spec fn mounts_eq(a: Seq<VolumeMountPayload>, b: Seq<VolumeMountPayload>) -> bool {
    a.len() == b.len() && forall|i: int|
        0 <= i < a.len() ==> (#[trigger] a[i]).name@ == b[i].name@ && a[i].mount_path@
            == b[i].mount_path@
}

pub open spec fn env_eq(a: Option<Vec<EnvVarPayload>>, b: Option<Vec<EnvVarPayload>>) -> bool {
    match a {
        Some(x) => match b {
            Some(y) => x@.len() == y@.len() && forall|i: int|
                0 <= i < x@.len() ==> (#[trigger] x@[i]).name@ == y@[i].name@ && x@[i].value@
                    == y@[i].value@,
            None => false,
        },
        None => b is None,
    }
}

/// Two deployment payloads that agree on every field except possibly the
/// pod-template annotations.
pub open spec fn deployment_eq_but_template_annotations(
    a: DeploymentPayload,
    b: DeploymentPayload,
) -> bool {
    &&& a.name@ == b.name@
    &&& a.namespace@ == b.namespace@
    &&& labels_eq(a.labels, b.labels)
    &&& a.image_annotation@ == b.image_annotation@
    &&& opt_string_eq(a.replicated_env_annotation, b.replicated_env_annotation)
    &&& a.replicas == b.replicas
    &&& labels_eq(a.selector, b.selector)
    &&& labels_eq(a.template_labels, b.template_labels)
    &&& volumes_eq(a.volumes@, b.volumes@)
    &&& a.container.name@ == b.container.name@
    &&& a.container.image@ == b.container.image@
    &&& a.container.image_pull_policy@ == b.container.image_pull_policy@
    &&& env_eq(a.container.env, b.container.env)
    &&& mounts_eq(a.container.volume_mounts@, b.container.volume_mounts@)
    &&& a.container.container_port == b.container.container_port
    &&& a.container.memory_limit == b.container.memory_limit
    &&& opt_string_eq(a.image_pull_secret, b.image_pull_secret)
}

/// Two deployment payloads that agree on every observable field.
pub open spec fn deployment_payload_eq(a: DeploymentPayload, b: DeploymentPayload) -> bool {
    deployment_eq_but_template_annotations(a, b) && annotations_eq(
        a.template_annotations@,
        b.template_annotations@,
    )
}

proof fn lemma_pinned_fields_agree(
    a: DeploymentPayload,
    b: DeploymentPayload,
    app: Seq<char>,
    service: DeployableService,
    config: ContainerConfig,
    use_image_pull_secret: bool,
    pvcs: Seq<PvcRef>,
    d1: Seq<char>,
    d2: Seq<char>,
)
    requires
        deployment_matches(a, app, service, config, use_image_pull_secret, pvcs, d1),
        deployment_matches(b, app, service, config, use_image_pull_secret, pvcs, d2),
    ensures
        deployment_eq_but_template_annotations(a, b),
{
    let parents = spec_parents(file_paths(service.spec_files()));
    assert forall|i: int| 0 <= i < a.volumes@.len() implies volume_eq(
        #[trigger] a.volumes@[i],
        b.volumes@[i],
    ) by {
        if i < parents.len() {
            assert(secret_volume_matches(
                a.volumes@[i],
                parents[i],
                spec_kind_name(app, service.config.service_name@, "secret"@),
                service.spec_files(),
            ));
            assert(secret_volume_matches(
                b.volumes@[i],
                parents[i],
                spec_kind_name(app, service.config.service_name@, "secret"@),
                service.spec_files(),
            ));
        } else {
            let k = i - parents.len();
            assert(pvc_volume_matches(a.volumes@[parents.len() + k], pvcs[k]));
            assert(pvc_volume_matches(b.volumes@[parents.len() + k], pvcs[k]));
        }
    }
    assert forall|i: int| 0 <= i < a.container.volume_mounts@.len() implies (
    #[trigger] a.container.volume_mounts@[i]).name@ == b.container.volume_mounts@[i].name@
        && a.container.volume_mounts@[i].mount_path@
        == b.container.volume_mounts@[i].mount_path@ by {
        if i >= parents.len() {
            let k = i - parents.len();
            assert((a.container.volume_mounts@[parents.len() + k]).name@ == spec_pvc_volume_name(
                pvcs[k].subpath@,
            ));
            assert((b.container.volume_mounts@[parents.len() + k]).name@ == spec_pvc_volume_name(
                pvcs[k].subpath@,
            ));
        }
    }
}

/// Deployment synthesis is idempotent for `RedeployNever` and
/// `RedeployOnImageUpdate`: whatever instants the two calls happened at,
/// the same inputs yield payloads that agree on every observable field.
pub proof fn lemma_deployment_idempotent(
    a: DeploymentPayload,
    b: DeploymentPayload,
    app: Seq<char>,
    service: DeployableService,
    config: ContainerConfig,
    use_image_pull_secret: bool,
    pvcs: Seq<PvcRef>,
    d1: Seq<char>,
    d2: Seq<char>,
)
    requires
        deployment_matches(a, app, service, config, use_image_pull_secret, pvcs, d1),
        deployment_matches(b, app, service, config, use_image_pull_secret, pvcs, d2),
        !(service.strategy is RedeployAlways),
    ensures
        deployment_payload_eq(a, b),
{
    lemma_pinned_fields_agree(
        a,
        b,
        app,
        service,
        config,
        use_image_pull_secret,
        pvcs,
        d1,
        d2,
    );
}

/// Deployment synthesis is never idempotent for `RedeployAlways`: two
/// calls at distinct instants differ in the pod-template date annotation
/// and in nothing else.
pub proof fn lemma_redeploy_always_differs(
    a: DeploymentPayload,
    b: DeploymentPayload,
    app: Seq<char>,
    service: DeployableService,
    config: ContainerConfig,
    use_image_pull_secret: bool,
    pvcs: Seq<PvcRef>,
    d1: Seq<char>,
    d2: Seq<char>,
)
    requires
        deployment_matches(a, app, service, config, use_image_pull_secret, pvcs, d1),
        deployment_matches(b, app, service, config, use_image_pull_secret, pvcs, d2),
        service.strategy is RedeployAlways,
        d1 != d2,
    ensures
        deployment_eq_but_template_annotations(a, b),
        !annotations_eq(a.template_annotations@, b.template_annotations@),
{
    lemma_pinned_fields_agree(
        a,
        b,
        app,
        service,
        config,
        use_image_pull_secret,
        pvcs,
        d1,
        d2,
    );
    assert(a.template_annotations@[0].1@ == d1);
    assert(b.template_annotations@[0].1@ == d2);
}

proof fn lemma_route_inline_has_witness(ms: Seq<TraefikMiddleware>, j: int)
    requires
        0 <= j < spec_route_inline(ms).len(),
    ensures
        exists|k: int|
            0 <= k < ms.len() && (#[trigger] ms[k]) is Inline && ms[k].spec_name()
                == spec_route_inline(ms)[j].0,
    decreases ms.len(),
{
    let prefix = spec_route_inline(ms.drop_last());
    if j < prefix.len() {
        lemma_route_inline_has_witness(ms.drop_last(), j);
        let k = choose|k: int|
            0 <= k < ms.drop_last().len() && (#[trigger] ms.drop_last()[k]) is Inline
                && ms.drop_last()[k].spec_name() == spec_route_inline(ms.drop_last())[j].0;
        assert(ms[k] == ms.drop_last()[k]);
        assert(0 <= k < ms.len() && ms[k] is Inline && ms[k].spec_name() == spec_route_inline(
            ms,
        )[j].0);
    } else {
        assert(0 <= ms.len() - 1 < ms.len() && ms[ms.len() - 1] is Inline && ms[ms.len()
            - 1].spec_name() == spec_route_inline(ms)[j].0);
    }
}

proof fn lemma_inline_has_witness(routes: Seq<crate::model::TraefikRoute>, j: int)
    requires
        0 <= j < spec_inline_middlewares(routes).len(),
    ensures
        exists|i: int, k: int|
            0 <= i < routes.len() && 0 <= k < (#[trigger] routes[i]).middlewares@.len() && (
            #[trigger] routes[i].middlewares@[k]) is Inline && routes[i].middlewares@[k].spec_name()
                == spec_inline_middlewares(routes)[j].0,
    decreases routes.len(),
{
    let prefix = spec_inline_middlewares(routes.drop_last());
    if j < prefix.len() {
        lemma_inline_has_witness(routes.drop_last(), j);
        let (i, k) = choose|i: int, k: int|
            0 <= i < routes.drop_last().len() && 0 <= k < (#[trigger] routes.drop_last()[
            i]).middlewares@.len() && (#[trigger] routes.drop_last()[i].middlewares@[k]) is Inline
                && routes.drop_last()[i].middlewares@[k].spec_name() == spec_inline_middlewares(
                routes.drop_last(),
            )[j].0;
        assert(routes[i] == routes.drop_last()[i]);
        assert(0 <= i < routes.len() && 0 <= k < routes[i].middlewares@.len()
            && routes[i].middlewares@[k] is Inline && routes[i].middlewares@[k].spec_name()
            == spec_inline_middlewares(routes)[j].0);
    } else {
        let ms = routes.last().middlewares@;
        lemma_route_inline_has_witness(ms, j - prefix.len());
        let k = choose|k: int|
            0 <= k < ms.len() && (#[trigger] ms[k]) is Inline && ms[k].spec_name()
                == spec_route_inline(ms)[j - prefix.len()].0;
        let i = routes.len() - 1;
        assert(0 <= i < routes.len() && 0 <= k < routes[i].middlewares@.len()
            && routes[i].middlewares@[k] is Inline && routes[i].middlewares@[k].spec_name()
            == spec_inline_middlewares(routes)[j].0);
    }
}

/// Only inline middleware definitions produce middleware objects, and each
/// emitted object's name is exactly a name that the ingress route of the
/// same service references: for every emitted object there is a route and a
/// position whose middleware is inline, bears that name, and is referenced
/// under that name by the corresponding emitted rule.
pub proof fn lemma_middlewares_are_referenced(
    ir: IngressRoutePayload,
    out: Seq<MiddlewarePayload>,
    app: Seq<char>,
    service: DeployableService,
    j: int,
)
    requires
        ingress_route_matches(ir, app, service),
        middlewares_match(out, app, service.ingress_route.routes@),
        0 <= j < out.len(),
    ensures
        exists|i: int, k: int|
            {
                &&& 0 <= i < service.ingress_route.routes@.len()
                &&& 0 <= k < service.ingress_route.routes@[i].middlewares@.len()
                &&& (#[trigger] service.ingress_route.routes@[i].middlewares@[k]) is Inline
                &&& service.ingress_route.routes@[i].middlewares@[k].spec_name() == out[j].name@
                &&& ir.route_spec.routes->0@[i].middlewares is Some
                &&& ir.route_spec.routes->0@[i].middlewares->0@[k].name@ == out[j].name@
            },
{
    let routes = service.ingress_route.routes@;
    lemma_inline_has_witness(routes, j);
    let (i, k) = choose|i: int, k: int|
        0 <= i < routes.len() && 0 <= k < (#[trigger] routes[i]).middlewares@.len() && (
        #[trigger] routes[i].middlewares@[k]) is Inline && routes[i].middlewares@[k].spec_name()
            == spec_inline_middlewares(routes)[j].0;
    assert(rule_matches(
        ir.route_spec.routes->0@[i],
        routes[i],
        service.config.service_name@,
        service.config.port,
    ));
    assert(ir.route_spec.routes->0@[i].middlewares->0@[k].name@ == routes[i].middlewares@[
        k].spec_name());
    assert({
        &&& 0 <= i < service.ingress_route.routes@.len()
        &&& 0 <= k < service.ingress_route.routes@[i].middlewares@.len()
        &&& service.ingress_route.routes@[i].middlewares@[k] is Inline
        &&& service.ingress_route.routes@[i].middlewares@[k].spec_name() == out[j].name@
        &&& ir.route_spec.routes->0@[i].middlewares is Some
        &&& ir.route_spec.routes->0@[i].middlewares->0@[k].name@ == out[j].name@
    });
}

} // verus!
