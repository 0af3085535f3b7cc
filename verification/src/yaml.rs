//! The YAML boundary: parsing the file text into generic document trees and
//! projecting the last document onto the typed manifest.
//!
//! Generic YAML parsing is the YAML library's business; the items that call
//! into it are trusted declarations, and what they promise is stated over two
//! named results: the models of the documents a text parses into
//! (`yaml_documents`), and the model of one parsed value (`yaml_node_of`).
//! The projection of a document onto the `Kustomization` shape — which keys
//! must be present, which must be strings, which are optional — is this
//! crate's own logic, verified against the spec-level projection
//! `manifest_model_of`.

use vstd::prelude::*;

use crate::replace_tag::{ImageModel, Kustomization, KustomizationImage, ReplaceError};

verus! {

#[verifier::external_type_specification]
#[verifier::external_body]
pub struct ExYamlValue(serde_yaml::Value);

#[verifier::external_type_specification]
#[verifier::external_body]
pub struct ExYamlError(serde_yaml::Error);

/// The shape of a parsed YAML value, as far as the manifest projection reads
/// it: the YAML null, a string, a sequence of values, a mapping (of which the
/// entries under plain string keys are kept), or any other scalar. A tagged
/// value stands for the value under its tags, which is how the YAML library's
/// accessors resolve tags before looking at a value.
pub enum YamlNode {
    Null,
    Text(Seq<char>),
    Sequence(Seq<YamlNode>),
    Mapping(Map<Seq<char>, YamlNode>),
    Opaque,
}

/// What a parsed YAML value holds, as a `YamlNode`: a function of the value
/// alone.
pub uninterp spec fn yaml_node_of(v: serde_yaml::Value) -> YamlNode;

/// The models of the documents the text parses into, in stream order, or
/// `None` where the text is not valid YAML. Parsing is a function of the text
/// alone.
pub uninterp spec fn yaml_documents(text: Seq<char>) -> Option<Seq<YamlNode>>;

/// Relies on serde_yaml::Deserializer::from_str and Value::deserialize: the
/// iterator yields one deserializer per `---`-separated document, and
/// deserializing each into a generic `Value` succeeds or fails on the text
/// alone.
#[verifier::external_body]
pub(crate) fn parse_documents(text: &str) -> (r: Result<
    Vec<serde_yaml::Value>,
    serde_yaml::Error,
>)
    ensures
        r is Ok <==> yaml_documents(text@) is Some,
        r matches Ok(docs) ==> yaml_documents(text@) == Some(
            docs@.map_values(|v: serde_yaml::Value| yaml_node_of(v)),
        ),
{
    let mut docs = Vec::new();
    for de in serde_yaml::Deserializer::from_str(text) {
        match <serde_yaml::Value as serde::Deserialize>::deserialize(de) {
            Ok(v) => docs.push(v),
            Err(e) => return Err(e),
        }
    }
    Ok(docs)
}

/// Relies on serde_yaml::Value::get with a string index: resolves tags, then
/// looks the key up among the mapping's plain string keys; yields None for a
/// missing key or a non-mapping value.
#[verifier::external_body]
fn value_get<'a>(doc: &'a serde_yaml::Value, key: &str) -> (r: Option<&'a serde_yaml::Value>)
    ensures
        match yaml_node_of(*doc) {
            YamlNode::Mapping(m) => if m.contains_key(key@) {
                r matches Some(c) && yaml_node_of(*c) == m[key@]
            } else {
                r is None
            },
            _ => r is None,
        },
{
    doc.get(key)
}

/// Relies on serde_yaml::Value::as_sequence: resolves tags, then yields the
/// elements when the value is a sequence, and None otherwise.
#[verifier::external_body]
fn value_as_sequence<'a>(v: &'a serde_yaml::Value) -> (r: Option<&'a Vec<serde_yaml::Value>>)
    ensures
        match yaml_node_of(*v) {
            YamlNode::Sequence(s) => r matches Some(vec) && vec@.map_values(
                |e: serde_yaml::Value| yaml_node_of(e),
            ) == s,
            _ => r is None,
        },
{
    v.as_sequence()
}

/// Relies on serde_yaml::Value::as_str: resolves tags, then yields the string
/// (an owned copy) when the value is a string, and None otherwise.
#[verifier::external_body]
fn value_as_string(v: &serde_yaml::Value) -> (r: Option<String>)
    ensures
        match yaml_node_of(*v) {
            YamlNode::Text(s) => r matches Some(out) && out@ == s,
            _ => r is None,
        },
{
    match v.as_str() {
        Some(s) => Some(s.to_owned()),
        None => None,
    }
}

/// Relies on serde_yaml::Value::is_null: resolves tags, then true exactly for
/// the YAML null.
#[verifier::external_body]
fn value_is_null(v: &serde_yaml::Value) -> (r: bool)
    ensures
        r == (yaml_node_of(*v) is Null),
{
    v.is_null()
}

/// The string under `key` in the mapping `m`, where there is one.
pub open spec fn text_field(m: Map<Seq<char>, YamlNode>, key: Seq<char>) -> Option<Seq<char>> {
    if m.contains_key(key) {
        match m[key] {
            YamlNode::Text(s) => Some(s),
            _ => None,
        }
    } else {
        None
    }
}

/// The image entry a YAML value describes: a mapping with a string `name`, a
/// string `newTag`, and a `newName` that is a string, the YAML null, or
/// absent. Any other shape is refused.
pub open spec fn image_model_of(node: YamlNode) -> Option<ImageModel> {
    match node {
        YamlNode::Mapping(m) => match (text_field(m, "name"@), text_field(m, "newTag"@)) {
            (Some(name), Some(new_tag)) => if !m.contains_key("newName"@) {
                Some(ImageModel { name, new_name: None, new_tag })
            } else {
                match m["newName"@] {
                    YamlNode::Text(s) => Some(ImageModel { name, new_name: Some(s), new_tag }),
                    YamlNode::Null => Some(ImageModel { name, new_name: None, new_tag }),
                    _ => None,
                }
            },
            _ => None,
        },
        _ => None,
    }
}

/// The manifest a YAML document describes: a mapping whose `images` key holds
/// a sequence of well-shaped image entries. Any other shape is refused.
pub open spec fn manifest_model_of(node: YamlNode) -> Option<Seq<ImageModel>> {
    match node {
        YamlNode::Mapping(m) => if m.contains_key("images"@) {
            match m["images"@] {
                YamlNode::Sequence(entries) => if forall|i: int|
                    0 <= i < entries.len() ==> image_model_of(#[trigger] entries[i]) is Some {
                    Some(Seq::new(entries.len(), |i: int| image_model_of(entries[i])->0))
                } else {
                    None
                },
                _ => None,
            }
        } else {
            None
        },
        _ => None,
    }
}

/// The manifest the raw text describes: the projection of the last document
/// of its YAML stream. `None` where the text does not parse, the stream holds
/// no document, or the last document is not manifest-shaped.
pub open spec fn manifest_of_text(text: Seq<char>) -> Option<Seq<ImageModel>> {
    match yaml_documents(text) {
        Some(docs) => if docs.len() > 0 {
            manifest_model_of(docs.last())
        } else {
            None
        },
        None => None,
    }
}

/// Reads one entry of the `images` sequence: `name` and `newTag` must be
/// strings, `newName` may be a string, null, or absent.
fn project_image(entry: &serde_yaml::Value) -> (r: Result<KustomizationImage, ReplaceError>)
    ensures
        match image_model_of(yaml_node_of(*entry)) {
            Some(model) => r matches Ok(img) && img@ == model,
            None => r == Err::<KustomizationImage, ReplaceError>(ReplaceError::Schema),
        },
{
    let name = match value_get(entry, "name") {
        Some(v) => match value_as_string(v) {
            Some(s) => s,
            None => {
                return Err(ReplaceError::Schema);
            },
        },
        None => {
            return Err(ReplaceError::Schema);
        },
    };
    let new_tag = match value_get(entry, "newTag") {
        Some(v) => match value_as_string(v) {
            Some(s) => s,
            None => {
                return Err(ReplaceError::Schema);
            },
        },
        None => {
            return Err(ReplaceError::Schema);
        },
    };
    let new_name = match value_get(entry, "newName") {
        Some(v) => {
            if value_is_null(v) {
                None
            } else {
                match value_as_string(v) {
                    Some(s) => Some(s),
                    None => {
                        return Err(ReplaceError::Schema);
                    },
                }
            }
        },
        None => None,
    };
    Ok(KustomizationImage { name, new_name, new_tag })
}

/// Projects a parsed document onto the manifest shape: the document must be a
/// mapping with an `images` key holding a sequence of entries, each with a
/// string `name`, a string `newTag`, and an optional string `newName`. Any
/// other shape is refused as a schema failure.
pub fn project_manifest(doc: &serde_yaml::Value) -> (r: Result<Kustomization, ReplaceError>)
    ensures
        match manifest_model_of(yaml_node_of(*doc)) {
            Some(models) => r matches Ok(k) && k@ == models,
            None => r == Err::<Kustomization, ReplaceError>(ReplaceError::Schema),
        },
{
    let images_value = match value_get(doc, "images") {
        Some(v) => v,
        None => {
            return Err(ReplaceError::Schema);
        },
    };
    let entries = match value_as_sequence(images_value) {
        Some(s) => s,
        None => {
            return Err(ReplaceError::Schema);
        },
    };
    let ghost ms = entries@.map_values(|e: serde_yaml::Value| yaml_node_of(e));
    proof {
        assert(yaml_node_of(*doc) is Mapping);
        assert(yaml_node_of(*doc)->Mapping_0.contains_key("images"@));
        assert(yaml_node_of(*doc)->Mapping_0["images"@] == YamlNode::Sequence(ms));
    }
    let n = entries.len();
    let mut images: Vec<KustomizationImage> = Vec::new();
    let mut k: usize = 0;
    while k < n
        invariant
            n == entries@.len(),
            k <= n,
            ms == entries@.map_values(|e: serde_yaml::Value| yaml_node_of(e)),
            ms.len() == n,
            yaml_node_of(*doc) is Mapping,
            yaml_node_of(*doc)->Mapping_0.contains_key("images"@),
            yaml_node_of(*doc)->Mapping_0["images"@] == YamlNode::Sequence(ms),
            forall|i: int| 0 <= i < k ==> image_model_of(#[trigger] ms[i]) is Some,
            images@.len() == k,
            forall|i: int| 0 <= i < k ==> images@[i]@ == image_model_of(#[trigger] ms[i])->0,
        decreases n - k,
    {
        proof {
            assert(ms[k as int] == yaml_node_of(entries@[k as int]));
        }
        match project_image(&entries[k]) {
            Ok(img) => images.push(img),
            Err(e) => {
                proof {
                    if manifest_model_of(yaml_node_of(*doc)) is Some {
                        assert(image_model_of(ms[k as int]) is Some);
                    }
                }
                return Err(e);
            },
        }
        k += 1;
    }
    let manifest = Kustomization { images };
    proof {
        let models = Seq::new(ms.len(), |i: int| image_model_of(ms[i])->0);
        assert(manifest_model_of(yaml_node_of(*doc)) == Some(models));
        assert forall|i: int| 0 <= i < models.len() implies manifest@[i] == models[i] by {
            assert(manifest@[i] == manifest.images@[i]@);
        }
        assert(manifest@ =~= models);
    }
    Ok(manifest)
}

} // verus!
