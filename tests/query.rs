use dockerino::images::{
    list_images_endpoint, search_images_endpoint, DockerBuildParamsBuilder, ListImagesFilter,
    SearchImagesFilterBuilder,
};
use dockerino::json::string_array_to_json;
use dockerino::utils::{decode_filters, encode_build_params, encode_filters, FilterSet};

fn entries_of(f: &FilterSet) -> Vec<(String, Vec<String>)> {
    f.entries().clone()
}

#[test]
fn dangling_filter_encodes_to_percent_encoded_json() {
    let filter = ListImagesFilter::new().dangling(true).build();
    let encoded = encode_filters(filter.params()).unwrap();
    assert_eq!(encoded, "%7B%22dangling%22%3A%5B%22true%22%5D%7D");
    assert_eq!(
        list_images_endpoint(Some(&filter)).unwrap(),
        "/images/json?filters=%7B%22dangling%22%3A%5B%22true%22%5D%7D"
    );
}

#[test]
fn listing_without_filter_has_no_query() {
    assert_eq!(list_images_endpoint(None).unwrap(), "/images/json");
}

#[test]
fn empty_filter_set_encodes_empty_object() {
    let f = FilterSet::new();
    assert_eq!(encode_filters(&f).unwrap(), "%7B%7D");
    let back = decode_filters("%7B%7D").unwrap();
    assert_eq!(back.len(), 0);
}

#[test]
fn build_params_scenario() {
    let params = DockerBuildParamsBuilder::new()
        .tag("myimage:latest")
        .no_cache(true)
        .build();
    assert_eq!(encode_build_params(params.params()), "t=myimage:latest&nocache=true");
    assert_eq!(
        dockerino::images::build_image_endpoint(Some(&params)),
        "/build?t=myimage:latest&nocache=true"
    );
    assert_eq!(dockerino::images::build_image_endpoint(None), "/build");
}

#[test]
fn build_params_one_segment_per_key() {
    let params = DockerBuildParamsBuilder::new()
        .dockerfile("Dockerfile.dev")
        .tag("app:1")
        .pull(false)
        .memory_limit(-5)
        .cpu_quota(50000)
        .build();
    let q = encode_build_params(params.params());
    let segments: Vec<&str> = q.split('&').collect();
    assert_eq!(segments.len(), params.params().len());
    assert_eq!(segments, vec!["dockerfile=Dockerfile.dev", "t=app:1", "pull=false", "memory=-5", "cpuquota=50000"]);
    let mut keys: Vec<&str> = segments.iter().map(|s| s.split('=').next().unwrap()).collect();
    keys.sort();
    keys.dedup();
    assert_eq!(keys.len(), segments.len());
}

#[test]
fn build_params_value_with_ampersand_is_not_escaped() {
    let params = DockerBuildParamsBuilder::new().tag("a&b").build();
    assert_eq!(encode_build_params(params.params()), "t=a&b");
}

#[test]
fn empty_build_params_encode_to_empty_string() {
    let params = DockerBuildParamsBuilder::new().build();
    assert_eq!(encode_build_params(params.params()), "");
}

#[test]
fn setting_a_key_again_replaces_its_value_in_place() {
    let params = DockerBuildParamsBuilder::new()
        .tag("first")
        .squash(true)
        .tag("second")
        .build();
    assert_eq!(encode_build_params(params.params()), "t=second&squash=true");
    let filter = ListImagesFilter::new().label("a").since("x").label("b").build();
    assert_eq!(
        entries_of(filter.params()),
        vec![
            ("label".to_string(), vec!["b".to_string()]),
            ("since".to_string(), vec!["x".to_string()])
        ]
    );
}

#[test]
fn builder_setters_use_the_engine_keys() {
    let params = DockerBuildParamsBuilder::new()
        .extrahosts("h:1.2.3.4")
        .remote("git://x")
        .verbose(true)
        .cache_from("img")
        .remove_after_build(true)
        .force_remove_after_build(false)
        .swap_size(7)
        .cpu_shares(512)
        .set_cpus("0-3")
        .cpu_period(100000)
        .shm_size(64)
        .network_mode("host")
        .platform("linux/amd64")
        .target("build")
        .outputs("type=local")
        .build();
    assert_eq!(
        encode_build_params(params.params()),
        "extrahosts=h:1.2.3.4&remote=git://x&q=true&cachefrom=img&rm=true&forcerm=false&memswap=7&cpushares=512&cpusetcpus=0-3&cpuperiod=100000&shmsize=64&networkmode=host&platform=linux/amd64&target=build&outputs=type=local"
    );
}

#[test]
fn json_valued_build_options() {
    let params = DockerBuildParamsBuilder::new()
        .cache_from_multiple(vec!["a".to_string(), "b\"c".to_string()])
        .labels(vec![])
        .build_args(vec![("HTTP_PROXY".to_string(), "x".to_string()), ("K".to_string(), "v\\".to_string())])
        .build();
    assert_eq!(
        encode_build_params(params.params()),
        "cachefrom=[\"a\",\"b\\\"c\"]&labels=[]&buildargs={\"HTTP_PROXY\":\"x\",\"K\":\"v\\\\\"}"
    );
}

#[test]
fn json_array_escapes_like_serde_json() {
    let values = vec![
        "q\"".to_string(),
        "b\\".to_string(),
        "n\nr\rt\t".to_string(),
        "\u{1}\u{8}\u{c}\u{1f}".to_string(),
        "é/".to_string(),
    ];
    let ours = string_array_to_json(&values);
    assert_eq!(ours, serde_json::to_string(&values).unwrap());
    assert_eq!(ours, "[\"q\\\"\",\"b\\\\\",\"n\\nr\\rt\\t\",\"\\u0001\\b\\f\\u001f\",\"é/\"]");
}

#[test]
fn search_filters_and_limit() {
    let filters = SearchImagesFilterBuilder::new()
        .is_official(true)
        .is_automated(true)
        .minimum_stars(3)
        .build();
    assert_eq!(
        search_images_endpoint("mysql", Some(5), Some(&filters)).unwrap(),
        "/images/search?term=mysql&limit5&filters=%7B%22is-official%22%3A%5B%22true%22%5D%2C%22is-automated%22%3A%5B%22true%22%5D%2C%22stars%22%3A%5B%223%22%5D%7D"
    );
    assert_eq!(search_images_endpoint("redis", None, None).unwrap(), "/images/search?term=redis");
    assert_eq!(
        search_images_endpoint("redis", Some(-1), None).unwrap(),
        "/images/search?term=redis&limit-1"
    );
}

#[test]
fn filters_round_trip_through_the_query_value() {
    let mut f = FilterSet::new();
    f.set("label", vec!["a\"b".to_string(), "c\\d".to_string(), "line\nbreak\t".to_string()]);
    f.set("reference", vec!["\u{1}é€😀".to_string(), "x&y=z %41".to_string()]);
    f.set("dangling", vec![]);
    f.set("since", vec!["".to_string()]);
    let encoded = encode_filters(&f).unwrap();
    assert!(encoded.bytes().all(|b| b.is_ascii_alphanumeric() || b"-._~%".contains(&b)));
    let back = decode_filters(&encoded).unwrap();
    assert_eq!(entries_of(&back), entries_of(&f));
}

#[test]
fn round_trip_of_builder_filters() {
    let filter = ListImagesFilter::new()
        .before("img:1")
        .reference("busybox*")
        .dangling(false)
        .build();
    let encoded = encode_filters(filter.params()).unwrap();
    let back = decode_filters(&encoded).unwrap();
    assert_eq!(entries_of(&back), entries_of(filter.params()));
}

#[test]
fn decoding_accepts_escapes_serde_json_may_write() {
    let text = "{\"label\":[\"\\u00e9\\/\\u0041\",\"\\\"\"]}";
    let encoded = urlencoding::encode(text).into_owned();
    let back = decode_filters(&encoded).unwrap();
    assert_eq!(
        entries_of(&back),
        vec![("label".to_string(), vec!["é/A".to_string(), "\"".to_string()])]
    );
}

#[test]
fn decoding_keeps_the_last_array_of_a_repeated_key() {
    let back = decode_filters("{\"a\":[\"1\"],\"b\":[],\"a\":[\"2\"]}").unwrap();
    assert_eq!(
        entries_of(&back),
        vec![("a".to_string(), vec!["2".to_string()]), ("b".to_string(), vec![])]
    );
}

#[test]
fn decoding_rejects_what_is_not_a_filter_object() {
    assert!(decode_filters("").is_none());
    assert!(decode_filters("%7B").is_none());
    assert!(decode_filters("[]").is_none());
    assert!(decode_filters("{\"a\":[1]}").is_none());
    assert!(decode_filters("{\"a\":[\"x\"]} ").is_none());
    assert!(decode_filters("{\"a\":[\"\\ud800\"]}").is_none());
    assert!(decode_filters("%FF").is_none());
    assert!(decode_filters("{\"a\":[\"x\"],}").is_none());
}

#[test]
fn snapshot_is_isolated_from_later_changes() {
    let mut builder = DockerBuildParamsBuilder::new();
    builder.tag("one");
    let snapshot = builder.build();
    builder.tag("two").squash(true);
    assert_eq!(encode_build_params(snapshot.params()), "t=one");
    assert_eq!(encode_build_params(builder.params()), "t=two&squash=true");

    let mut filter = ListImagesFilter::new();
    filter.label("x");
    let taken = filter.build();
    filter.label("y");
    assert_eq!(entries_of(taken.params()), vec![("label".to_string(), vec!["x".to_string()])]);

    let mut search = SearchImagesFilterBuilder::new();
    search.minimum_stars(10);
    let s = search.build();
    search.is_official(false);
    assert_eq!(entries_of(s.params()), vec![("stars".to_string(), vec!["10".to_string()])]);
}

#[test]
fn integer_options_are_written_in_decimal() {
    let params = DockerBuildParamsBuilder::new()
        .memory_limit(i32::MIN)
        .swap_size(i32::MAX)
        .cpu_shares(0)
        .shm_size(10)
        .build();
    assert_eq!(
        encode_build_params(params.params()),
        "memory=-2147483648&memswap=2147483647&cpushares=0&shmsize=10"
    );
}
