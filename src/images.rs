//! Image resources: listing filters, build parameters, search filters, the endpoints of the
//! image calls, and the shapes of the engine's answers.

use crate::docker::registry_auth_header;
use crate::json::{json_string_array, json_string_object, string_array_to_json, string_map_to_json};
use crate::text::{bool_text, bool_to_text, i32_to_text, int_text};
use crate::utils::{
    assoc_get, assoc_set, lemma_assoc_set_get, build_params_query, filters_query_text,
    keys_unique, BuildParamSet, ClientError, FilterSet, ObjectConverter,
};
use vstd::prelude::*;
use vstd::string::*;

verus! {

/// Filters of the image listing; it is its own builder.
pub struct ListImagesFilter {
    params: FilterSet,
}

impl View for ListImagesFilter {
    type V = Seq<(Seq<char>, Seq<Seq<char>>)>;

    closed spec fn view(&self) -> Self::V {
        self.params@
    }
}

impl ObjectConverter for ListImagesFilter {}

impl ListImagesFilter {
    /// The keys are unique.
    pub open spec fn wf(&self) -> bool {
        keys_unique(self@)
    }

    /// No filter.
    pub fn new() -> (r: Self)
        ensures
            r@ == Seq::<(Seq<char>, Seq<Seq<char>>)>::empty(),
            r.wf(),
    {
        ListImagesFilter { params: FilterSet::new() }
    }

    fn set_one(&mut self, key: &str, value: String)
        requires
            old(self).wf(),
        ensures
            final(self)@ == assoc_set(old(self)@, key@, seq![value@]),
            final(self).wf(),
    {
        self.params.set_one(key, value);
    }

    /// Images created before the given image.
    pub fn before(&mut self, before: &str) -> (r: &mut Self)
        requires
            old(self).wf(),
        ensures
            (*r)@ == assoc_set(old(self)@, "before"@, seq![before@]),
            (*r).wf(),
            *final(self) == *final(r),
    {
        self.set_one("before", before.to_owned());
        self
    }

    /// Only untagged images, or only tagged ones.
    pub fn dangling(&mut self, dangling: bool) -> (r: &mut Self)
        requires
            old(self).wf(),
        ensures
            (*r)@ == assoc_set(old(self)@, "dangling"@, seq![bool_text(dangling)]),
            (*r).wf(),
            *final(self) == *final(r),
    {
        self.set_one("dangling", bool_to_text(dangling));
        self
    }

    /// Images with the given label (`key` or `key=value`).
    pub fn label(&mut self, label: &str) -> (r: &mut Self)
        requires
            old(self).wf(),
        ensures
            (*r)@ == assoc_set(old(self)@, "label"@, seq![label@]),
            (*r).wf(),
            *final(self) == *final(r),
    {
        self.set_one("label", label.to_owned());
        self
    }

    /// Images whose reference matches the pattern.
    pub fn reference(&mut self, reference: &str) -> (r: &mut Self)
        requires
            old(self).wf(),
        ensures
            (*r)@ == assoc_set(old(self)@, "reference"@, seq![reference@]),
            (*r).wf(),
            *final(self) == *final(r),
    {
        self.set_one("reference", reference.to_owned());
        self
    }

    /// Images created after the given image.
    pub fn since(&mut self, since: &str) -> (r: &mut Self)
        requires
            old(self).wf(),
        ensures
            (*r)@ == assoc_set(old(self)@, "since"@, seq![since@]),
            (*r).wf(),
            *final(self) == *final(r),
    {
        self.set_one("since", since.to_owned());
        self
    }

    /// A snapshot of the filters set so far, independent of `self`.
    pub fn build(&self) -> (r: ListImagesFilter)
        ensures
            r@ == self@,
    {
        ListImagesFilter { params: self.params.copy() }
    }

    /// The parameters set so far.
    pub fn params(&self) -> (r: &FilterSet)
        ensures
            r@ == self@,
    {
        &self.params
    }
}

/// The query options of an image build.
pub struct DockerBuildParams {
    params: BuildParamSet,
}

impl View for DockerBuildParams {
    type V = Seq<(Seq<char>, Seq<char>)>;

    closed spec fn view(&self) -> Self::V {
        self.params@
    }
}

impl ObjectConverter for DockerBuildParams {}

impl DockerBuildParams {
    /// The parameters set so far.
    pub fn params(&self) -> (r: &BuildParamSet)
        ensures
            r@ == self@,
    {
        &self.params
    }
}

/// Accumulates the query options of an image build.
pub struct DockerBuildParamsBuilder {
    params: BuildParamSet,
}

impl View for DockerBuildParamsBuilder {
    type V = Seq<(Seq<char>, Seq<char>)>;

    closed spec fn view(&self) -> Self::V {
        self.params@
    }
}

impl DockerBuildParamsBuilder {
    /// The keys are unique.
    pub open spec fn wf(&self) -> bool {
        keys_unique(self@)
    }

    /// No option.
    pub fn new() -> (r: Self)
        ensures
            r@ == Seq::<(Seq<char>, Seq<char>)>::empty(),
            r.wf(),
    {
        DockerBuildParamsBuilder { params: BuildParamSet::new() }
    }

    fn set_one(&mut self, key: &str, value: String)
        requires
            old(self).wf(),
        ensures
            final(self)@ == assoc_set(old(self)@, key@, value@),
            final(self).wf(),
    {
        self.params.set(key, value);
    }

    /// Path of the Dockerfile within the build context.
    pub fn dockerfile(&mut self, dockerfile: &str) -> (r: &mut Self)
        requires
            old(self).wf(),
        ensures
            (*r)@ == assoc_set(old(self)@, "dockerfile"@, dockerfile@),
            (*r).wf(),
            *final(self) == *final(r),
    {
        self.set_one("dockerfile", dockerfile.to_owned());
        self
    }

    /// Name and tag of the built image.
    pub fn tag(&mut self, tag: &str) -> (r: &mut Self)
        requires
            old(self).wf(),
        ensures
            (*r)@ == assoc_set(old(self)@, "t"@, tag@),
            (*r).wf(),
            *final(self) == *final(r),
    {
        self.set_one("t", tag.to_owned());
        self
    }

    /// Extra hosts added to `/etc/hosts`.
    pub fn extrahosts(&mut self, extra_hosts: &str) -> (r: &mut Self)
        requires
            old(self).wf(),
        ensures
            (*r)@ == assoc_set(old(self)@, "extrahosts"@, extra_hosts@),
            (*r).wf(),
            *final(self) == *final(r),
    {
        self.set_one("extrahosts", extra_hosts.to_owned());
        self
    }

    /// A remote build context.
    pub fn remote(&mut self, remote: &str) -> (r: &mut Self)
        requires
            old(self).wf(),
        ensures
            (*r)@ == assoc_set(old(self)@, "remote"@, remote@),
            (*r).wf(),
            *final(self) == *final(r),
    {
        self.set_one("remote", remote.to_owned());
        self
    }

    /// Whether the build output is suppressed (`q`).
    pub fn verbose(&mut self, verbose_enabled: bool) -> (r: &mut Self)
        requires
            old(self).wf(),
        ensures
            (*r)@ == assoc_set(old(self)@, "q"@, bool_text(verbose_enabled)),
            (*r).wf(),
            *final(self) == *final(r),
    {
        self.set_one("q", bool_to_text(verbose_enabled));
        self
    }

    /// Whether the build cache is bypassed.
    pub fn no_cache(&mut self, no_cache_enabled: bool) -> (r: &mut Self)
        requires
            old(self).wf(),
        ensures
            (*r)@ == assoc_set(old(self)@, "nocache"@, bool_text(no_cache_enabled)),
            (*r).wf(),
            *final(self) == *final(r),
    {
        self.set_one("nocache", bool_to_text(no_cache_enabled));
        self
    }

    /// An image used as a cache source.
    pub fn cache_from(&mut self, image: &str) -> (r: &mut Self)
        requires
            old(self).wf(),
        ensures
            (*r)@ == assoc_set(old(self)@, "cachefrom"@, image@),
            (*r).wf(),
            *final(self) == *final(r),
    {
        self.set_one("cachefrom", image.to_owned());
        self
    }

    /// Images used as cache sources, as a JSON array.
    pub fn cache_from_multiple(&mut self, images: Vec<String>) -> (r: &mut Self)
        requires
            old(self).wf(),
        ensures
            (*r)@ == assoc_set(old(self)@, "cachefrom"@, json_string_array(images.deep_view())),
            (*r).wf(),
            *final(self) == *final(r),
    {
        let json = string_array_to_json(&images);
        self.set_one("cachefrom", json);
        self
    }

    /// Whether newer base images are pulled.
    pub fn pull(&mut self, pull_enabled: bool) -> (r: &mut Self)
        requires
            old(self).wf(),
        ensures
            (*r)@ == assoc_set(old(self)@, "pull"@, bool_text(pull_enabled)),
            (*r).wf(),
            *final(self) == *final(r),
    {
        self.set_one("pull", bool_to_text(pull_enabled));
        self
    }

    /// Whether intermediate containers are removed after a successful build.
    pub fn remove_after_build(&mut self, remove_enabled: bool) -> (r: &mut Self)
        requires
            old(self).wf(),
        ensures
            (*r)@ == assoc_set(old(self)@, "rm"@, bool_text(remove_enabled)),
            (*r).wf(),
            *final(self) == *final(r),
    {
        self.set_one("rm", bool_to_text(remove_enabled));
        self
    }

    /// Whether intermediate containers are always removed.
    pub fn force_remove_after_build(&mut self, force_enabled: bool) -> (r: &mut Self)
        requires
            old(self).wf(),
        ensures
            (*r)@ == assoc_set(old(self)@, "forcerm"@, bool_text(force_enabled)),
            (*r).wf(),
            *final(self) == *final(r),
    {
        self.set_one("forcerm", bool_to_text(force_enabled));
        self
    }

    /// Memory limit of the build.
    pub fn memory_limit(&mut self, size_limit: i32) -> (r: &mut Self)
        requires
            old(self).wf(),
        ensures
            (*r)@ == assoc_set(old(self)@, "memory"@, int_text(size_limit as int)),
            (*r).wf(),
            *final(self) == *final(r),
    {
        self.set_one("memory", i32_to_text(size_limit));
        self
    }

    /// Total memory of the build, swap included.
    pub fn swap_size(&mut self, swap_size: i32) -> (r: &mut Self)
        requires
            old(self).wf(),
        ensures
            (*r)@ == assoc_set(old(self)@, "memswap"@, int_text(swap_size as int)),
            (*r).wf(),
            *final(self) == *final(r),
    {
        self.set_one("memswap", i32_to_text(swap_size));
        self
    }

    /// Relative CPU weight.
    pub fn cpu_shares(&mut self, weight: i32) -> (r: &mut Self)
        requires
            old(self).wf(),
        ensures
            (*r)@ == assoc_set(old(self)@, "cpushares"@, int_text(weight as int)),
            (*r).wf(),
            *final(self) == *final(r),
    {
        self.set_one("cpushares", i32_to_text(weight));
        self
    }

    /// CPUs the build may run on.
    pub fn set_cpus(&mut self, cpus: &str) -> (r: &mut Self)
        requires
            old(self).wf(),
        ensures
            (*r)@ == assoc_set(old(self)@, "cpusetcpus"@, cpus@),
            (*r).wf(),
            *final(self) == *final(r),
    {
        self.set_one("cpusetcpus", cpus.to_owned());
        self
    }

    /// Length of a CPU period in microseconds.
    pub fn cpu_period(&mut self, period: i32) -> (r: &mut Self)
        requires
            old(self).wf(),
        ensures
            (*r)@ == assoc_set(old(self)@, "cpuperiod"@, int_text(period as int)),
            (*r).wf(),
            *final(self) == *final(r),
    {
        self.set_one("cpuperiod", i32_to_text(period));
        self
    }

    /// CPU time per period in microseconds.
    pub fn cpu_quota(&mut self, cpu_quota: i32) -> (r: &mut Self)
        requires
            old(self).wf(),
        ensures
            (*r)@ == assoc_set(old(self)@, "cpuquota"@, int_text(cpu_quota as int)),
            (*r).wf(),
            *final(self) == *final(r),
    {
        self.set_one("cpuquota", i32_to_text(cpu_quota));
        self
    }

    /// Build-time variables, as a JSON object in the given order.
    pub fn build_args(&mut self, args: Vec<(String, String)>) -> (r: &mut Self)
        requires
            old(self).wf(),
        ensures
            (*r)@ == assoc_set(old(self)@, "buildargs"@, json_string_object(args.deep_view())),
            (*r).wf(),
            *final(self) == *final(r),
    {
        let json = string_map_to_json(&args);
        self.set_one("buildargs", json);
        self
    }

    /// Size of `/dev/shm` in bytes.
    pub fn shm_size(&mut self, size: i32) -> (r: &mut Self)
        requires
            old(self).wf(),
        ensures
            (*r)@ == assoc_set(old(self)@, "shmsize"@, int_text(size as int)),
            (*r).wf(),
            *final(self) == *final(r),
    {
        self.set_one("shmsize", i32_to_text(size));
        self
    }

    /// Whether the new layers are squashed into one.
    pub fn squash(&mut self, squashing_enabled: bool) -> (r: &mut Self)
        requires
            old(self).wf(),
        ensures
            (*r)@ == assoc_set(old(self)@, "squash"@, bool_text(squashing_enabled)),
            (*r).wf(),
            *final(self) == *final(r),
    {
        self.set_one("squash", bool_to_text(squashing_enabled));
        self
    }

    /// Labels of the built image, as a JSON array.
    pub fn labels(&mut self, labels: Vec<String>) -> (r: &mut Self)
        requires
            old(self).wf(),
        ensures
            (*r)@ == assoc_set(old(self)@, "labels"@, json_string_array(labels.deep_view())),
            (*r).wf(),
            *final(self) == *final(r),
    {
        let json = string_array_to_json(&labels);
        self.set_one("labels", json);
        self
    }

    /// Network mode of the build's containers.
    pub fn network_mode(&mut self, mode: &str) -> (r: &mut Self)
        requires
            old(self).wf(),
        ensures
            (*r)@ == assoc_set(old(self)@, "networkmode"@, mode@),
            (*r).wf(),
            *final(self) == *final(r),
    {
        self.set_one("networkmode", mode.to_owned());
        self
    }

    /// Target platform of the build.
    pub fn platform(&mut self, platform: &str) -> (r: &mut Self)
        requires
            old(self).wf(),
        ensures
            (*r)@ == assoc_set(old(self)@, "platform"@, platform@),
            (*r).wf(),
            *final(self) == *final(r),
    {
        self.set_one("platform", platform.to_owned());
        self
    }

    /// Build stage to stop at.
    pub fn target(&mut self, target: &str) -> (r: &mut Self)
        requires
            old(self).wf(),
        ensures
            (*r)@ == assoc_set(old(self)@, "target"@, target@),
            (*r).wf(),
            *final(self) == *final(r),
    {
        self.set_one("target", target.to_owned());
        self
    }

    /// Output configuration of the build.
    pub fn outputs(&mut self, outputs: &str) -> (r: &mut Self)
        requires
            old(self).wf(),
        ensures
            (*r)@ == assoc_set(old(self)@, "outputs"@, outputs@),
            (*r).wf(),
            *final(self) == *final(r),
    {
        self.set_one("outputs", outputs.to_owned());
        self
    }

    /// A snapshot of the options set so far, independent of `self`.
    pub fn build(&self) -> (r: DockerBuildParams)
        ensures
            r@ == self@,
    {
        DockerBuildParams { params: self.params.copy() }
    }

    /// The parameters set so far.
    pub fn params(&self) -> (r: &BuildParamSet)
        ensures
            r@ == self@,
    {
        &self.params
    }
}

/// Filters of an image search.
pub struct SearchImagesFilter {
    params: FilterSet,
}

impl View for SearchImagesFilter {
    type V = Seq<(Seq<char>, Seq<Seq<char>>)>;

    closed spec fn view(&self) -> Self::V {
        self.params@
    }
}

impl ObjectConverter for SearchImagesFilter {}

impl SearchImagesFilter {
    /// The parameters set so far.
    pub fn params(&self) -> (r: &FilterSet)
        ensures
            r@ == self@,
    {
        &self.params
    }
}

/// Accumulates the filters of an image search.
pub struct SearchImagesFilterBuilder {
    params: FilterSet,
}

impl View for SearchImagesFilterBuilder {
    type V = Seq<(Seq<char>, Seq<Seq<char>>)>;

    closed spec fn view(&self) -> Self::V {
        self.params@
    }
}

impl SearchImagesFilterBuilder {
    /// The keys are unique.
    pub open spec fn wf(&self) -> bool {
        keys_unique(self@)
    }

    /// No filter.
    pub fn new() -> (r: Self)
        ensures
            r@ == Seq::<(Seq<char>, Seq<Seq<char>>)>::empty(),
            r.wf(),
    {
        SearchImagesFilterBuilder { params: FilterSet::new() }
    }

    fn set_one(&mut self, key: &str, value: String)
        requires
            old(self).wf(),
        ensures
            final(self)@ == assoc_set(old(self)@, key@, seq![value@]),
            final(self).wf(),
    {
        self.params.set_one(key, value);
    }

    /// Only automated images, or only others.
    pub fn is_automated(&mut self, automated_enabled: bool) -> (r: &mut Self)
        requires
            old(self).wf(),
        ensures
            (*r)@ == assoc_set(old(self)@, "is-automated"@, seq![bool_text(automated_enabled)]),
            (*r).wf(),
            *final(self) == *final(r),
    {
        self.set_one("is-automated", bool_to_text(automated_enabled));
        self
    }

    /// Only official images, or only others.
    pub fn is_official(&mut self, official_enabled: bool) -> (r: &mut Self)
        requires
            old(self).wf(),
        ensures
            (*r)@ == assoc_set(old(self)@, "is-official"@, seq![bool_text(official_enabled)]),
            (*r).wf(),
            *final(self) == *final(r),
    {
        self.set_one("is-official", bool_to_text(official_enabled));
        self
    }

    /// Images with at least the given number of stars.
    pub fn minimum_stars(&mut self, min_stars: i32) -> (r: &mut Self)
        requires
            old(self).wf(),
        ensures
            (*r)@ == assoc_set(old(self)@, "stars"@, seq![int_text(min_stars as int)]),
            (*r).wf(),
            *final(self) == *final(r),
    {
        self.set_one("stars", i32_to_text(min_stars));
        self
    }

    /// A snapshot of the filters set so far, independent of `self`.
    pub fn build(&self) -> (r: SearchImagesFilter)
        ensures
            r@ == self@,
    {
        SearchImagesFilter { params: self.params.copy() }
    }

    /// The parameters set so far.
    pub fn params(&self) -> (r: &FilterSet)
        ensures
            r@ == self@,
    {
        &self.params
    }
}

/// A snapshot that `build` returned stays as it was when the builder is changed afterwards:
/// it keeps every value it was taken with, while the builder takes the new value of the key
/// and keeps its other values.
pub proof fn lemma_snapshot_isolation(
    builder: Seq<(Seq<char>, Seq<char>)>,
    snapshot: Seq<(Seq<char>, Seq<char>)>,
    key: Seq<char>,
    value: Seq<char>,
    other: Seq<char>,
)
    requires
        keys_unique(builder),
        snapshot == builder,
    ensures
        assoc_get(assoc_set(builder, key, value), key) == Some(value),
        assoc_get(snapshot, key) == assoc_get(builder, key),
        other != key ==> assoc_get(assoc_set(builder, key, value), other) == assoc_get(
            snapshot,
            other,
        ),
{
    lemma_assoc_set_get(builder, key, value, other);
}

/// The text of an optional argument, empty when it is absent.
pub open spec fn opt_text(o: Option<&str>) -> Seq<char> {
    match o {
        Some(s) => s@,
        None => Seq::empty(),
    }
}

/// The endpoint of the image listing, with the percent-encoded JSON filters when there are
/// some. Every filter encodes, so the result is always `Ok`.
pub fn list_images_endpoint(filter: Option<&ListImagesFilter>) -> (r: Result<String, ClientError>)
    ensures
        filter is None ==> (r matches Ok(t) && t@ == "/images/json"@),
        filter matches Some(f) ==> (r matches Ok(t) && t@ == "/images/json?filters="@
            + filters_query_text(f@)),
{
    match filter {
        None => Ok("/images/json".to_owned()),
        Some(f) => match f.url_encoded(&f.params) {
            Ok(encoded) => {
                let mut e = "/images/json?filters=".to_owned();
                e.append(encoded.as_str());
                Ok(e)
            },
            Err(err) => Err(err),
        },
    }
}

/// `/images/{name}` followed by `suffix`.
fn image_path(name: &str, suffix: &str) -> (r: String)
    ensures
        r@ == "/images/"@ + name@ + suffix@,
{
    let mut e = "/images/".to_owned();
    e.append(name);
    e.append(suffix);
    e
}

/// The endpoint that inspects an image.
pub fn inspect_image_endpoint(image_name: &str) -> (r: String)
    ensures
        r@ == "/images/"@ + image_name@ + "/json"@,
{
    image_path(image_name, "/json")
}

/// The endpoint of an image's history.
pub fn image_history_endpoint(image_name: &str) -> (r: String)
    ensures
        r@ == "/images/"@ + image_name@ + "/history"@,
{
    image_path(image_name, "/history")
}

/// The endpoint that deletes an image, with its `force` and `noprune` flags.
pub fn delete_image_endpoint(image_name: &str, forced: bool, no_prune: bool) -> (r: String)
    ensures
        r@ == "/images/"@ + image_name@ + "?force="@ + bool_text(forced) + "&noprune="@
            + bool_text(no_prune),
{
    let mut e = image_path(image_name, "?force=");
    e.append(bool_to_text(forced).as_str());
    e.append("&noprune=");
    e.append(bool_to_text(no_prune).as_str());
    e
}

/// The endpoint that tags an image; an absent repository or tag is sent empty.
pub fn tag_image_endpoint(image_name: &str, repo_name: Option<&str>, tag: Option<&str>) -> (r:
    String)
    ensures
        r@ == "/images/"@ + image_name@ + "/tag?repo="@ + opt_text(repo_name) + "&tag="@
            + opt_text(tag),
{
    let mut e = image_path(image_name, "/tag?repo=");
    match repo_name {
        Some(repo) => e.append(repo),
        None => {},
    }
    e.append("&tag=");
    match tag {
        Some(t) => e.append(t),
        None => {},
    }
    e
}

/// The endpoint that exports an image as a tarball.
pub fn export_image_endpoint(image_name: &str) -> (r: String)
    ensures
        r@ == "/images/"@ + image_name@ + "/get"@,
{
    image_path(image_name, "/get")
}

/// The endpoint that loads images from a tarball.
pub fn import_image_endpoint() -> (r: String)
    ensures
        r@ == "/images/load"@,
{
    "/images/load".to_owned()
}

/// The endpoint that pushes an image, with its tag when there is one.
pub fn push_image_endpoint(image_name: &str, tag: Option<&str>) -> (r: String)
    ensures
        r@ == "/images/"@ + image_name@ + "/push"@ + match tag {
            Some(t) => "?tag="@ + t@,
            None => Seq::empty(),
        },
{
    let mut e = image_path(image_name, "/push");
    match tag {
        Some(t) => {
            e.append("?tag=");
            e.append(t);
        },
        None => {},
    }
    e
}

/// The headers of a push: the registry credentials, given as their JSON text.
pub fn push_image_headers(auth_json: &str) -> (r: Vec<(String, String)>)
    ensures
        r@.len() == 1,
        r@[0].0@ == "X-Registry-Auth"@,
        r@[0].1@ == crate::text::base64_text(vstd::utf8::encode_utf8(auth_json@)),
{
    let mut headers: Vec<(String, String)> = Vec::new();
    headers.push(registry_auth_header(auth_json));
    headers
}

/// The endpoint that builds an image, with the flat query of the build options when there
/// are some.
pub fn build_image_endpoint(build_params: Option<&DockerBuildParams>) -> (r: String)
    ensures
        r@ == "/build"@ + match build_params {
            Some(p) => "?"@ + build_params_query(p@),
            None => Seq::empty(),
        },
{
    let mut e = "/build".to_owned();
    match build_params {
        Some(p) => {
            e.append("?");
            e.append(p.parse_params(&p.params).as_str());
        },
        None => {},
    }
    e
}

/// The headers of a build: the body is a tar archive.
pub fn build_image_headers() -> (r: Vec<(String, String)>)
    ensures
        r@.len() == 1,
        r@[0].0@ == "Content-type"@,
        r@[0].1@ == "application/x-tar"@,
{
    let mut headers: Vec<(String, String)> = Vec::new();
    headers.push(("Content-type".to_owned(), "application/x-tar".to_owned()));
    headers
}

/// The limit part of a search query: `&limit` directly followed by the number.
pub open spec fn limit_text(limit: Option<i32>) -> Seq<char> {
    match limit {
        Some(l) => "&limit"@ + int_text(l as int),
        None => Seq::empty(),
    }
}

/// The endpoint of an image search: the term, the limit when there is one, and the
/// percent-encoded JSON filters when there are some. Every filter encodes, so the result is
/// always `Ok`.
pub fn search_images_endpoint(
    term: &str,
    limit: Option<i32>,
    filters: Option<&SearchImagesFilter>,
) -> (r: Result<String, ClientError>)
    ensures
        filters is None ==> (r matches Ok(t) && t@ == "/images/search?term="@ + term@
            + limit_text(limit)),
        filters matches Some(f) ==> (r matches Ok(t) && t@ == "/images/search?term="@ + term@
            + limit_text(limit) + "&filters="@ + filters_query_text(f@)),
{
    let mut e = "/images/search?term=".to_owned();
    e.append(term);
    match limit {
        Some(l) => {
            e.append("&limit");
            e.append(i32_to_text(l).as_str());
        },
        None => {},
    }
    match filters {
        Some(f) => match f.url_encoded(&f.params) {
            Ok(encoded) => {
                e.append("&filters=");
                e.append(encoded.as_str());
                Ok(e)
            },
            Err(err) => Err(err),
        },
        None => Ok(e),
    }
}

/// An image of the listing.
#[derive(Debug)]
pub struct Image {
    pub parent_id: String,
    pub created: i128,
    pub size: i128,
    pub shared_size: i128,
    pub containers: i128,
}

/// An image's low-level description.
#[derive(Debug)]
pub struct ImageDetails {
    pub id: String,
    pub repo_tags: Vec<String>,
    pub repo_digests: Vec<String>,
    pub parent: String,
    pub comment: String,
    pub container: String,
    pub container_config: Option<ContainerConfig>,
    pub architecture: String,
    pub variant: Option<String>,
    pub os: String,
    pub os_version: Option<String>,
    pub size: i128,
    pub virtual_size: i128,
}

/// The configuration of the container an image was made from.
#[derive(Debug)]
pub struct ContainerConfig {
    pub hostname: String,
    pub domainname: String,
    pub user: String,
    pub attach_stdin: bool,
    pub attach_stdout: bool,
    pub attach_stderr: bool,
    pub tty: bool,
    pub open_stdin: bool,
    pub stdin_once: bool,
    pub env: Vec<String>,
    pub cmd: Vec<String>,
    pub health_check: Option<HealthCheck>,
    pub args_escaped: Option<bool>,
    pub working_dir: String,
    pub entrypoint: Vec<String>,
    pub network_disabled: Option<bool>,
    pub mac_address: Option<String>,
    pub on_build: Option<Vec<String>>,
    pub stop_signal: Option<String>,
}

/// How a container's health is checked.
#[derive(Debug)]
pub struct HealthCheck {
    pub test: Vec<String>,
    pub interval: i32,
    pub timeout: i32,
    pub retries: i32,
    pub start_period: i32,
}

/// One effect of an image deletion.
#[derive(Debug)]
pub struct ImageDeletionInfo {
    pub untagged: Option<String>,
    pub deleted: Option<String>,
}

/// One layer of an image's history.
#[derive(Debug)]
pub struct ImageHistory {
    pub id: String,
    pub created: i128,
    pub created_by: String,
    pub tags: Option<Vec<String>>,
    pub size: i128,
    pub comment: String,
}

/// One result of an image search.
#[derive(Debug)]
pub struct ImageSearchResult {
    pub description: String,
    pub is_official: bool,
    pub is_automated: bool,
    pub name: String,
    pub star_count: i32,
}

} // verus!
