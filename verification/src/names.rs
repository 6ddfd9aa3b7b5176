//! The naming and labeling scheme: deterministic derivation of resource
//! names, label keys and annotation keys from the application name, the
//! service name and the mount subpaths. Every payload builder goes through
//! these derivations, so cross-references (a mount and its volume, a secret
//! and the volume that projects it) stay consistent.
use vstd::prelude::*;

use crate::text::spec_last_slash;

verus! {

/// `"{app}-{service}-{suffix}"`.
pub open spec fn spec_kind_name(app: Seq<char>, service: Seq<char>, suffix: Seq<char>) -> Seq<
    char,
> {
    app + "-"@ + service + "-"@ + suffix
}

/// The last segment of a mount subpath, or `default` when that segment is
/// empty.
pub open spec fn spec_pvc_segment(s: Seq<char>) -> Seq<char> {
    let t = s.skip(spec_last_slash(s) + 1);
    if t.len() == 0 {
        "default"@
    } else {
        t
    }
}

/// `"{last segment or default}-volume"`: the volume name of an attached
/// persistent volume claim.
pub open spec fn spec_pvc_volume_name(s: Seq<char>) -> Seq<char> {
    spec_pvc_segment(s) + "-volume"@
}

/// `"/data/{app}{subpath}"`: where an attached claim is mounted.
pub open spec fn spec_pvc_mount_path(app: Seq<char>, subpath: Seq<char>) -> Seq<char> {
    "/data/"@ + app + subpath
}

/// `"{app}-image-pull-secret"`.
pub open spec fn spec_image_pull_secret_name(app: Seq<char>) -> Seq<char> {
    app + "-image-pull-secret"@
}

fn kind_name(app_name: &str, service_name: &str, suffix: &str) -> (r: String)
    ensures
        r@ == spec_kind_name(app_name@, service_name@, suffix@),
{
    let mut r = String::new();
    r.append(app_name);
    r.append("-");
    r.append(service_name);
    r.append("-");
    r.append(suffix);
    r
}

/// `"{app}-{service}-deployment"`.
pub fn deployment_name(app_name: &str, service_name: &str) -> (r: String)
    ensures
        r@ == spec_kind_name(app_name@, service_name@, "deployment"@),
{
    kind_name(app_name, service_name, "deployment")
}

/// `"{app}-{service}-secret"`.
pub fn secret_name(app_name: &str, service_name: &str) -> (r: String)
    ensures
        r@ == spec_kind_name(app_name@, service_name@, "secret"@),
{
    kind_name(app_name, service_name, "secret")
}

/// `"{app}-{service}-ingress-route"`.
pub fn ingress_route_name(app_name: &str, service_name: &str) -> (r: String)
    ensures
        r@ == spec_kind_name(app_name@, service_name@, "ingress-route"@),
{
    kind_name(app_name, service_name, "ingress-route")
}

/// `"{app}-image-pull-secret"`.
pub fn image_pull_secret_name(app_name: &str) -> (r: String)
    ensures
        r@ == spec_image_pull_secret_name(app_name@),
{
    let mut r = String::new();
    r.append(app_name);
    r.append("-image-pull-secret");
    r
}

/// Executable side of [`spec_pvc_volume_name`].
pub fn pvc_volume_name(subpath: &str) -> (r: String)
    ensures
        r@ == spec_pvc_volume_name(subpath@),
{
    let n = subpath.unicode_len();
    let start: usize = match crate::text::find_last_slash(subpath) {
        None => 0,
        Some(i) => i + 1,
    };
    let mut r: String;
    if start == n {
        r = String::from_str("default");
    } else {
        let piece = subpath.substring_char(start, n);
        proof {
            assert(subpath@.subrange(start as int, n as int) =~= subpath@.skip(
                spec_last_slash(subpath@) + 1));
        }
        r = String::from_str(piece);
    }
    proof {
        if start == n {
            assert(subpath@.skip(spec_last_slash(subpath@) + 1).len() == 0);
        }
    }
    r.append("-volume");
    r
}

/// Executable side of [`spec_pvc_mount_path`].
pub fn pvc_mount_path(app_name: &str, subpath: &str) -> (r: String)
    ensures
        r@ == spec_pvc_mount_path(app_name@, subpath@),
{
    let mut r = String::from_str("/data/");
    r.append(app_name);
    r.append(subpath);
    r
}

/// The label key that carries the application name on every workload object.
pub fn app_name_label() -> (r: String)
    ensures
        r@ == "com.aixigo.preview.servant.app-name"@,
{
    String::from_str("com.aixigo.preview.servant.app-name")
}

/// The label key that carries the service name on every workload object.
pub fn service_name_label() -> (r: String)
    ensures
        r@ == "com.aixigo.preview.servant.service-name"@,
{
    String::from_str("com.aixigo.preview.servant.service-name")
}

/// The label key that carries the container type on every workload object.
pub fn container_type_label() -> (r: String)
    ensures
        r@ == "com.aixigo.preview.servant.container-type"@,
{
    String::from_str("com.aixigo.preview.servant.container-type")
}

/// The annotation key that carries the image reference of a deployment.
pub fn image_label() -> (r: String)
    ensures
        r@ == "com.aixigo.preview.servant.image"@,
{
    String::from_str("com.aixigo.preview.servant.image")
}

/// The annotation key under which the replicated environment subset is
/// serialized.
pub fn replicated_env_label() -> (r: String)
    ensures
        r@ == "com.aixigo.preview.servant.replicated-env"@,
{
    String::from_str("com.aixigo.preview.servant.replicated-env")
}

/// The annotation key that requests the `web` entrypoint from the routing
/// proxy.
pub fn router_entrypoints_label() -> (r: String)
    ensures
        r@ == "traefik.ingress.kubernetes.io/router.entrypoints"@,
{
    String::from_str("traefik.ingress.kubernetes.io/router.entrypoints")
}

} // verus!
