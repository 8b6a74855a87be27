//! What a test deployment of the proxy is made of: images, the namespace,
//! and the annotations that configure the proxy's injection into a pod.

use crate::labels::Labels;
use vstd::prelude::*;
use vstd::string::*;

verus! {

/// A container image.
#[derive(Clone, Debug, PartialEq, Eq)]
pub struct Image {
    pub repo: String,
    pub tag: Option<String>,
}

/// A namespace for tests, and the images that run in it.
#[derive(Clone, Debug, PartialEq, Eq)]
pub struct TestNs {
    pub id: String,
    pub image: Image,
    pub proxy_image: Image,
}

/// What identifies a deployment.
#[derive(Clone, Debug, PartialEq, Eq)]
pub struct Deploy {
    pub id: String,
    pub image: String,
    pub proxy_image: String,
}

/// How the proxy is injected into a pod.
#[derive(Clone, Debug)]
pub enum LinkerdConfig {
    /// As a regular sidecar.
    Enabled { config: Labels },
    /// In ingress mode.
    Ingress { config: Labels },
}

/// Whether `text` starts with `prefix`.
pub open spec fn starts_with(text: Seq<char>, prefix: Seq<char>) -> bool {
    text.len() >= prefix.len() && text.subrange(0, prefix.len() as int) == prefix
}

/// The settings of a configuration, each under its name with `prefix` in
/// front.
pub open spec fn prefixed(prefix: Seq<char>, config: Map<Seq<char>, Seq<char>>) -> Map<
    Seq<char>,
    Seq<char>,
> {
    Map::new(
        |key: Seq<char>|
            starts_with(key, prefix) && config.contains_key(
                key.subrange(prefix.len() as int, key.len() as int),
            ),
        |key: Seq<char>| config[key.subrange(prefix.len() as int, key.len() as int)],
    )
}

/// The text of an image: the repository, and the tag after a colon where the
/// image has one.
pub open spec fn image_text(repo: Seq<char>, tag: Option<Seq<char>>) -> Seq<char> {
    match tag {
        Some(tag) => repo.push(':') + tag,
        None => repo,
    }
}

/// The text of a tag, if there is one.
pub open spec fn tag_text(tag: Option<String>) -> Option<Seq<char>> {
    match tag {
        Some(tag) => Some(tag@),
        None => None,
    }
}

/// The annotations that inject the proxy: the injection mode, the settings
/// under their prefix, and over them the proxy's image and, where the image
/// has a tag, the proxy's version.
pub open spec fn annotations_of(
    mode: Seq<char>,
    config: Map<Seq<char>, Seq<char>>,
    repo: Seq<char>,
    tag: Option<Seq<char>>,
) -> Map<Seq<char>, Seq<char>> {
    let settings = prefixed("config.linkerd.io/"@, config).insert("linkerd.io/inject"@, mode);
    let with_image = settings.insert("config.linkerd.io/proxy-image"@, repo);
    match tag {
        Some(tag) => with_image.insert("config.linkerd.io/proxy-version"@, tag),
        None => with_image,
    }
}

impl Image {
    /// Reads an image from its text. The tag is what follows the last colon;
    /// a text without colon is a repository without tag.
    pub fn from_str(text: &str) -> (image: Image)
        ensures
            match image.tag {
                Some(tag) => text@ == image.repo@.push(':') + tag@ && !tag@.contains(':'),
                None => text@ == image.repo@ && !text@.contains(':'),
            },
            image_text(image.repo@, tag_text(image.tag)) == text@,
    {
        let len = text.unicode_len();
        let mut i: usize = len;
        while i > 0
            invariant
                i <= len,
                len == text@.len(),
                forall|j: int| i <= j < len ==> text@[j] != ':',
            decreases i,
        {
            if text.get_char(i - 1) == ':' {
                let repo = String::from_str(text.substring_char(0, i - 1));
                let tag = String::from_str(text.substring_char(i, len));
                assert(text@ =~= repo@.push(':') + tag@);
                return Image { repo, tag: Some(tag) };
            }
            i -= 1;
        }
        Image { repo: String::from_str(text), tag: None }
    }

    /// The text of the image: the repository, and the tag after a colon where
    /// the image has one.
    pub fn to_string(&self) -> (text: String)
        ensures
            text@ == image_text(self.repo@, tag_text(self.tag)),
    {
        let mut text = self.repo.clone();
        match &self.tag {
            Some(tag) => {
                proof {
                    reveal_strlit(":");
                }
                text.append(":");
                text.append(tag.as_str());
                assert(text@ =~= self.repo@.push(':') + tag@);
            },
            None => {},
        }
        text
    }
}

impl TestNs {
    /// The name of the namespace.
    pub fn ns(&self) -> (name: String)
        ensures
            name@ == "linkerd-k8s-test-"@ + self.id@,
    {
        String::from_str("linkerd-k8s-test-").concat(self.id.as_str())
    }
}

impl Default for LinkerdConfig {
    fn default() -> (config: LinkerdConfig)
        ensures
            config matches LinkerdConfig::Enabled { config } && config@ == Map::<
                Seq<char>,
                Seq<char>,
            >::empty(),
    {
        LinkerdConfig::Enabled { config: Labels::new() }
    }
}

impl LinkerdConfig {
    /// The value of the injection annotation.
    pub open spec fn mode(self) -> Seq<char> {
        match self {
            LinkerdConfig::Enabled { .. } => "enabled"@,
            LinkerdConfig::Ingress { .. } => "ingress"@,
        }
    }

    /// The settings of the proxy.
    pub open spec fn config(self) -> Map<Seq<char>, Seq<char>> {
        match self {
            LinkerdConfig::Enabled { config } => config@,
            LinkerdConfig::Ingress { config } => config@,
        }
    }

    /// The annotations that inject the proxy with the given image into a
    /// pod.
    pub fn to_annotations(&self, image: &Image) -> (annotations: Labels)
        ensures
            annotations@ == annotations_of(
                self.mode(),
                self.config(),
                image.repo@,
                tag_text(image.tag),
            ),
    {
        let mut annotations = Labels::new();
        let config = match self {
            LinkerdConfig::Enabled { config } => {
                annotations.insert(String::from_str("linkerd.io/inject"), String::from_str("enabled"));
                config
            },
            LinkerdConfig::Ingress { config } => {
                annotations.insert(String::from_str("linkerd.io/inject"), String::from_str("ingress"));
                config
            },
        };
        proof {
            reveal_strlit("linkerd.io/inject");
            reveal_strlit("config.linkerd.io/");
        }
        let ghost prefix = "config.linkerd.io/"@;
        let ghost inject = "linkerd.io/inject"@;
        let ghost mode = self.mode();
        assert(inject[0] != prefix[0]);
        let entries = config.entries();
        let ghost mut seen: Set<Seq<char>> = Set::empty();
        assert(annotations@ =~= prefixed(prefix, config@.restrict(seen)).insert(inject, mode));
        let mut i: usize = 0;
        while i < entries.len()
            invariant
                i <= entries@.len(),
                prefix == "config.linkerd.io/"@,
                inject.len() > 0 && prefix.len() > 0 && inject[0] != prefix[0],
                forall|j: int|
                    0 <= j < entries@.len() ==> config@.contains_key((#[trigger] entries@[j]).0@)
                        && config@[entries@[j].0@] == entries@[j].1@,
                forall|key: Seq<char>|
                    config@.contains_key(key) ==> exists|j: int|
                        0 <= j < entries@.len() && (#[trigger] entries@[j]).0@ == key,
                forall|key: Seq<char>|
                    seen.contains(key) <==> exists|j: int|
                        0 <= j < i && (#[trigger] entries@[j]).0@ == key,
                annotations@ == prefixed(prefix, config@.restrict(seen)).insert(inject, mode),
            decreases entries@.len() - i,
        {
            let key = String::from_str("config.linkerd.io/").concat(entries[i].0.as_str());
            let value = entries[i].1.clone();
            let ghost name = entries@[i as int].0@;
            let ghost before = seen;
            annotations.insert(key, value);
            proof {
                seen = seen.insert(name);
                assert(key@.subrange(prefix.len() as int, key@.len() as int) =~= name);
                assert(key@.subrange(0, prefix.len() as int) =~= prefix);
                let expected = prefixed(prefix, config@.restrict(seen)).insert(inject, mode);
                assert forall|k: Seq<char>| annotations@.contains_key(k) <==> expected.contains_key(
                    k,
                ) by {
                    if k != inject && k != key@ && starts_with(k, prefix) {
                        let rest = k.subrange(prefix.len() as int, k.len() as int);
                        assert(k =~= prefix + rest);
                        assert(rest != name);
                    }
                }
                assert forall|k: Seq<char>| annotations@.contains_key(k) implies annotations@[k]
                    == expected[k] by {
                    if k != inject && k != key@ {
                        let rest = k.subrange(prefix.len() as int, k.len() as int);
                        assert(k =~= prefix + rest);
                        assert(rest != name);
                    }
                }
                assert(annotations@ =~= expected);
                assert forall|k: Seq<char>| seen.contains(k) implies exists|j: int|
                    0 <= j < i + 1 && (#[trigger] entries@[j]).0@ == k by {
                    if k == name {
                        assert(entries@[i as int].0@ == k);
                    } else {
                        assert(before.contains(k));
                        let j = choose|j: int| 0 <= j < i && (#[trigger] entries@[j]).0@ == k;
                        assert(entries@[j].0@ == k);
                    }
                }
            }
            i += 1;
        }
        proof {
            assert(config@.restrict(seen) =~= config@);
        }
        annotations.insert(String::from_str("config.linkerd.io/proxy-image"), image.repo.clone());
        match &image.tag {
            Some(tag) => {
                annotations.insert(String::from_str("config.linkerd.io/proxy-version"), tag.clone());
            },
            None => {},
        }
        annotations
    }
}

} // verus!
