use sidecar_proxy::deploy::{Deploy, Image, LinkerdConfig, TestNs};
use sidecar_proxy::labels::Labels;

fn image(repo: &str, tag: Option<&str>) -> Image {
    Image { repo: repo.to_string(), tag: tag.map(|t| t.to_string()) }
}

fn labels(pairs: &[(&str, &str)]) -> Labels {
    let mut labels = Labels::new();
    for (key, value) in pairs {
        labels.insert(key.to_string(), value.to_string());
    }
    labels
}

fn sorted(labels: &Labels) -> Vec<(String, String)> {
    let mut pairs = labels.entries().clone();
    pairs.sort();
    pairs
}

fn pairs(expected: &[(&str, &str)]) -> Vec<(String, String)> {
    expected.iter().map(|(k, v)| (k.to_string(), v.to_string())).collect()
}

#[test]
fn labels_insert_and_get() {
    let mut labels = Labels::new();
    assert_eq!(labels.get("app"), None);
    assert!(labels.entries().is_empty());
    labels.insert("app".to_string(), "web".to_string());
    labels.insert("tier".to_string(), "front".to_string());
    assert_eq!(labels.get("app"), Some(&"web".to_string()));
    assert_eq!(labels.get("tier"), Some(&"front".to_string()));
    assert_eq!(labels.get("ap"), None);
    assert_eq!(labels.get(""), None);
    assert_eq!(labels.entries().len(), 2);
}

#[test]
fn labels_insert_replaces() {
    let mut labels = labels(&[("app", "web"), ("tier", "front")]);
    labels.insert("app".to_string(), "api".to_string());
    assert_eq!(labels.get("app"), Some(&"api".to_string()));
    assert_eq!(labels.get("tier"), Some(&"front".to_string()));
    assert_eq!(sorted(&labels), pairs(&[("app", "api"), ("tier", "front")]));
}

#[test]
fn labels_clone_has_the_same_pairs() {
    let first = labels(&[("a", "1"), ("b", "2"), ("c", "3")]);
    let mut copy = first.clone();
    assert_eq!(sorted(&copy), sorted(&first));
    copy.insert("a".to_string(), "changed".to_string());
    assert_eq!(first.get("a"), Some(&"1".to_string()));
}

#[test]
fn image_with_tag() {
    assert_eq!(Image::from_str("ghcr.io/linkerd/proxy:v1"), image("ghcr.io/linkerd/proxy", Some("v1")));
    assert_eq!(Image::from_str("proxy:"), image("proxy", Some("")));
    assert_eq!(Image::from_str(":latest"), image("", Some("latest")));
    assert_eq!(Image::from_str(":"), image("", Some("")));
}

#[test]
fn image_without_tag() {
    assert_eq!(Image::from_str("ghcr.io/linkerd/proxy"), image("ghcr.io/linkerd/proxy", None));
    assert_eq!(Image::from_str(""), image("", None));
}

#[test]
fn image_tag_follows_the_last_colon() {
    assert_eq!(
        Image::from_str("localhost:5000/proxy:edge"),
        image("localhost:5000/proxy", Some("edge"))
    );
    assert_eq!(Image::from_str("localhost:5000/proxy"), image("localhost", Some("5000/proxy")));
    assert_eq!(Image::from_str("a::b"), image("a:", Some("b")));
}

#[test]
fn image_text_round_trips() {
    for text in ["ghcr.io/linkerd/proxy:v1", "proxy", "localhost:5000/proxy:edge", "", ":", "a:"] {
        assert_eq!(Image::from_str(text).to_string(), text);
    }
    assert_eq!(image("ghcr.io/é", Some("ü")).to_string(), "ghcr.io/é:ü");
    assert_eq!(Image::from_str("ghcr.io/é:ü"), image("ghcr.io/é", Some("ü")));
}

#[test]
fn namespace_name() {
    let ns = TestNs {
        id: "default".to_string(),
        image: image("ghcr.io/linkerd/k8s-tests", Some("latest")),
        proxy_image: image("ghcr.io/linkerd/proxy", None),
    };
    assert_eq!(ns.ns(), "linkerd-k8s-test-default");
    let empty = TestNs { id: String::new(), ..ns };
    assert_eq!(empty.ns(), "linkerd-k8s-test-");
}

#[test]
fn deploy_holds_its_parts() {
    let deploy = Deploy {
        id: "default".to_string(),
        image: "tests:latest".to_string(),
        proxy_image: "proxy:edge".to_string(),
    };
    assert_eq!(deploy.clone(), deploy);
}

#[test]
fn default_config_is_enabled_and_empty() {
    match LinkerdConfig::default() {
        LinkerdConfig::Enabled { config } => assert!(config.entries().is_empty()),
        other => panic!("unexpected default {:?}", other),
    }
}

#[test]
fn annotations_of_default_config() {
    let annotations = LinkerdConfig::default().to_annotations(&image("ghcr.io/linkerd/proxy", None));
    assert_eq!(
        sorted(&annotations),
        pairs(&[
            ("config.linkerd.io/proxy-image", "ghcr.io/linkerd/proxy"),
            ("linkerd.io/inject", "enabled"),
        ])
    );
}

#[test]
fn annotations_carry_settings_and_version() {
    let config = LinkerdConfig::Ingress {
        config: labels(&[("proxy-log-level", "debug"), ("skip-inbound-ports", "25,587")]),
    };
    let annotations = config.to_annotations(&image("ghcr.io/linkerd/proxy", Some("edge-21.4.1")));
    assert_eq!(
        sorted(&annotations),
        pairs(&[
            ("config.linkerd.io/proxy-image", "ghcr.io/linkerd/proxy"),
            ("config.linkerd.io/proxy-log-level", "debug"),
            ("config.linkerd.io/proxy-version", "edge-21.4.1"),
            ("config.linkerd.io/skip-inbound-ports", "25,587"),
            ("linkerd.io/inject", "ingress"),
        ])
    );
}

#[test]
fn image_overrides_settings_of_the_same_name() {
    let config = LinkerdConfig::Enabled {
        config: labels(&[("proxy-image", "other"), ("proxy-version", "old"), ("", "empty")]),
    };
    let tagged = config.to_annotations(&image("proxy", Some("new")));
    assert_eq!(
        sorted(&tagged),
        pairs(&[
            ("config.linkerd.io/", "empty"),
            ("config.linkerd.io/proxy-image", "proxy"),
            ("config.linkerd.io/proxy-version", "new"),
            ("linkerd.io/inject", "enabled"),
        ])
    );
    // Without a tag the version of the settings stays.
    let untagged = config.to_annotations(&image("proxy", None));
    assert_eq!(untagged.get("config.linkerd.io/proxy-version"), Some(&"old".to_string()));
    assert_eq!(untagged.get("config.linkerd.io/proxy-image"), Some(&"proxy".to_string()));
}
