//! Replacing the pinned tag of a named image in a kustomization manifest.
//!
//! The decision logic works on a typed snapshot of the manifest's `images`
//! list together with the raw file text. It locates the first entry whose
//! `name` equals the requested image, reports a no-op when that entry's tag
//! already equals the desired tag, refuses when a literal substitution would
//! be ambiguous, and otherwise produces the new file text by replacing every
//! literal occurrence of the current tag in the raw text.

use vstd::prelude::*;

use crate::text::{lemma_untouched_prefix, match_at, occurs, replace_chars, replaced,
    str_to_chars};
use crate::yaml::{manifest_model_of, manifest_of_text, parse_documents, project_manifest,
    yaml_documents, yaml_node_of, YamlNode};

verus! {

/// One image-override entry of a kustomization manifest: the image's stable
/// name, an optional replacement name (carried through unused), and the
/// currently pinned tag.
#[derive(Debug, Clone, PartialEq, Eq)]
pub struct KustomizationImage {
    pub name: String,
    pub new_name: Option<String>,
    pub new_tag: String,
}

/// The mathematical content of one image entry: its name, optional
/// replacement name, and pinned tag, as character sequences.
pub struct ImageModel {
    pub name: Seq<char>,
    pub new_name: Option<Seq<char>>,
    pub new_tag: Seq<char>,
}

impl View for KustomizationImage {
    type V = ImageModel;

    open spec fn view(&self) -> ImageModel {
        ImageModel {
            name: self.name@,
            new_name: match self.new_name {
                Some(s) => Some(s@),
                None => None,
            },
            new_tag: self.new_tag@,
        }
    }
}

/// The typed view of a kustomization manifest: its ordered list of image
/// overrides. It is read for the replacement decision and never serialized
/// back; the raw file text stays the source of truth for output.
#[derive(Debug, Clone, PartialEq, Eq)]
pub struct Kustomization {
    pub images: Vec<KustomizationImage>,
}

impl View for Kustomization {
    type V = Seq<ImageModel>;

    open spec fn view(&self) -> Seq<ImageModel> {
        self.images@.map_values(|img: KustomizationImage| img@)
    }
}

/// Entry `i` is the first entry of `images` whose name is `name`.
pub open spec fn is_first_index_named(images: Seq<ImageModel>, name: Seq<char>, i: int) -> bool {
    &&& 0 <= i < images.len()
    &&& images[i].name == name
    &&& forall|j: int| 0 <= j < i ==> images[j].name != name
}

/// Some entry of `images` is named `name`.
pub open spec fn has_image_named(images: Seq<ImageModel>, name: Seq<char>) -> bool {
    exists|i: int| 0 <= i < images.len() && images[i].name == name
}

/// Some entry named `target_name` repeats a tag that an earlier entry
/// already carries. A literal text substitution of that tag would then be
/// ambiguous: it could rewrite the earlier entry's occurrence as well.
pub open spec fn has_tag_collision(images: Seq<ImageModel>, target_name: Seq<char>) -> bool {
    exists|i: int, j: int|
        0 <= i < j < images.len() && images[i].new_tag == images[j].new_tag && images[j].name
            == target_name
}

impl Kustomization {
    /// Finds the first entry whose name equals `name`.
    pub fn find_image(&self, name: &String) -> (r: Option<usize>)
        ensures
            match r {
                Some(i) => is_first_index_named(self@, name@, i as int),
                None => !has_image_named(self@, name@),
            },
    {
        let n = self.images.len();
        let mut i: usize = 0;
        while i < n
            invariant
                n == self.images@.len(),
                self@.len() == n,
                i <= n,
                forall|j: int| 0 <= j < i ==> self@[j].name != name@,
            decreases n - i,
        {
            proof {
                assert(self@[i as int] == self.images@[i as int]@);
            }
            if self.images[i].name == *name {
                return Some(i);
            }
            i += 1;
        }
        None
    }

    /// Decides whether some entry named `target_name` shares its tag with an
    /// earlier entry, walking the entries in declaration order as the
    /// collision rule demands.
    pub fn has_collision(&self, target_name: &String) -> (r: bool)
        ensures
            r == has_tag_collision(self@, target_name@),
    {
        let n = self.images.len();
        let mut j: usize = 0;
        while j < n
            invariant
                n == self.images@.len(),
                self@.len() == n,
                j <= n,
                forall|x: int, y: int|
                    0 <= x < y < j ==> !(self@[x].new_tag == self@[y].new_tag && self@[y].name
                        == target_name@),
            decreases n - j,
        {
            let mut i: usize = 0;
            while i < j
                invariant
                    n == self.images@.len(),
                    self@.len() == n,
                    j < n,
                    i <= j,
                    forall|x: int|
                        0 <= x < i ==> !(self@[x].new_tag == self@[j as int].new_tag && self@[
                            j as int
                        ].name == target_name@),
                decreases j - i,
            {
                proof {
                    assert(self@[i as int] == self.images@[i as int]@);
                    assert(self@[j as int] == self.images@[j as int]@);
                }
                if self.images[i].new_tag == self.images[j].new_tag && self.images[j].name
                    == *target_name {
                    assert(0 <= i < j < self@.len() && self@[i as int].new_tag == self@[
                        j as int
                    ].new_tag && self@[j as int].name == target_name@);
                    return true;
                }
                i += 1;
            }
            j += 1;
        }
        false
    }
}

/// The decision of one invocation: either the manifest already pins the
/// desired tag and the file is to be left untouched, or the file text is to
/// be rewritten to `new_text`. Both carry what a caller reports: the image's
/// name and the tags involved.
#[derive(Debug, Clone, PartialEq, Eq)]
pub enum UpdateOutcome {
    NoChange { image: String, tag: String },
    Replace { image: String, old_tag: String, new_tag: String, new_text: Vec<char> },
}

/// Why an invocation was refused. Reading and writing the file are the
/// caller's business, so I/O failures are not represented here.
#[derive(Debug, Clone, PartialEq, Eq)]
pub enum ReplaceError {
    /// The file contents are not valid YAML.
    InvalidYaml,
    /// The YAML stream holds no document at all.
    EmptyDocumentStream,
    /// The selected document does not have the manifest's shape.
    Schema,
    /// No entry of `images` carries the requested name.
    NotFound,
    /// A literal substitution of the current tag would be ambiguous.
    AmbiguousReplacement,
}

impl ReplaceError {
    /// A human-readable description of the failure.
    pub fn message(&self) -> (r: String)
        ensures
            self is InvalidYaml ==> r@ == "failed to read the kustomization file as YAML"@,
            self is EmptyDocumentStream ==> r@ == "the YAML file holds no document"@,
            self is Schema ==> r@ == "could not read the document as a kustomization manifest"@,
            self is NotFound ==> r@ == "could not find the specified image in the file"@,
            self is AmbiguousReplacement ==> r@
                == "another image carries the same tag as the one to replace"@,
    {
        match self {
            ReplaceError::InvalidYaml => "failed to read the kustomization file as YAML".to_owned(),
            ReplaceError::EmptyDocumentStream => "the YAML file holds no document".to_owned(),
            ReplaceError::Schema => "could not read the document as a kustomization manifest".to_owned(),
            ReplaceError::NotFound => "could not find the specified image in the file".to_owned(),
            ReplaceError::AmbiguousReplacement => "another image carries the same tag as the one to replace".to_owned(),
        }
    }
}

/// The request: replace the tag pinned for `image` in the manifest file at
/// `file` by `tag`. The file's contents are read and written by the caller;
/// the decision itself works on the text alone.
#[derive(Debug, Clone)]
pub struct ReplaceTag {
    pub file: String,
    pub image: String,
    pub tag: String,
}

/// Exactly when each outcome of the replacement decision is owed, for the
/// text `text`, the manifest entries `images` and the request to pin `tag`
/// for the image named `image`:
/// - `NotFound` exactly when no entry carries the requested name;
/// - `NoChange` exactly when the first entry of that name already pins the
///   desired tag, carrying that name and tag;
/// - `AmbiguousReplacement` exactly when a change is needed but the tag
///   collision rule refuses the substitution;
/// - `Replace` otherwise, carrying the name, both tags, and the text with
///   every literal occurrence of the current tag replaced by the desired one.
pub open spec fn outcome_matches(
    text: Seq<char>,
    images: Seq<ImageModel>,
    image: Seq<char>,
    tag: Seq<char>,
    r: Result<UpdateOutcome, ReplaceError>,
) -> bool {
    match r {
        Err(ReplaceError::NotFound) => !has_image_named(images, image),
        Ok(UpdateOutcome::NoChange { image: out_image, tag: out_tag }) => {
            &&& exists|i: int| is_first_index_named(images, image, i) && images[i].new_tag == tag
            &&& out_image@ == image
            &&& out_tag@ == tag
        },
        Err(ReplaceError::AmbiguousReplacement) => {
            &&& exists|i: int| is_first_index_named(images, image, i) && images[i].new_tag != tag
            &&& has_tag_collision(images, image)
        },
        Ok(UpdateOutcome::Replace { image: out_image, old_tag, new_tag, new_text }) => {
            &&& exists|i: int|
                is_first_index_named(images, image, i) && images[i].new_tag != tag && old_tag@
                    == images[i].new_tag && new_text@ == replaced(text, images[i].new_tag, tag)
            &&& !has_tag_collision(images, image)
            &&& out_image@ == image
            &&& new_tag@ == tag
        },
        _ => false,
    }
}

impl ReplaceTag {
    /// Decides what the request does to the given raw text and manifest
    /// snapshot: a no-op, a rewritten text, or a refusal, exactly as
    /// `outcome_matches` lays the cases out.
    pub fn compute_update(&self, text: &Vec<char>, manifest: &Kustomization) -> (r: Result<
        UpdateOutcome,
        ReplaceError,
    >)
        ensures
            outcome_matches(text@, manifest@, self.image@, self.tag@, r),
    {
        let idx = match manifest.find_image(&self.image) {
            Some(i) => i,
            None => {
                return Err(ReplaceError::NotFound);
            },
        };
        let entry = &manifest.images[idx];
        proof {
            assert(manifest@[idx as int] == manifest.images@[idx as int]@);
        }
        if entry.new_tag == self.tag {
            let r = Ok(
                UpdateOutcome::NoChange { image: entry.name.clone(), tag: entry.new_tag.clone() },
            );
            proof {
                assert(is_first_index_named(manifest@, self.image@, idx as int) && manifest@[
                    idx as int
                ].new_tag == self.tag@);
            }
            return r;
        }
        if manifest.has_collision(&self.image) {
            proof {
                assert(is_first_index_named(manifest@, self.image@, idx as int) && manifest@[
                    idx as int
                ].new_tag != self.tag@);
            }
            return Err(ReplaceError::AmbiguousReplacement);
        }
        let old_chars = str_to_chars(entry.new_tag.as_str());
        let new_chars = str_to_chars(self.tag.as_str());
        let new_text = replace_chars(text, &old_chars, &new_chars);
        let r = Ok(
            UpdateOutcome::Replace {
                image: entry.name.clone(),
                old_tag: entry.new_tag.clone(),
                new_tag: self.tag.clone(),
                new_text,
            },
        );
        proof {
            assert(is_first_index_named(manifest@, self.image@, idx as int) && manifest@[
                idx as int
            ].new_tag != self.tag@);
        }
        r
    }
}

/// Two distinct indices cannot both be the first entry of a given name.
proof fn lemma_first_index_unique(images: Seq<ImageModel>, name: Seq<char>, i: int, j: int)
    requires
        is_first_index_named(images, name, i),
        is_first_index_named(images, name, j),
    ensures
        i == j,
{
    if i < j {
        assert(images[i].name != name);
    } else if j < i {
        assert(images[j].name != name);
    }
}

/// Law: no-op purity. When the first entry named `image` already pins the
/// desired tag, the decision is `NoChange`, which carries no new text: the
/// file's bytes are left exactly as they are.
pub proof fn lemma_noop_purity(
    text: Seq<char>,
    images: Seq<ImageModel>,
    image: Seq<char>,
    tag: Seq<char>,
    r: Result<UpdateOutcome, ReplaceError>,
    i: int,
)
    requires
        is_first_index_named(images, image, i),
        images[i].new_tag == tag,
        outcome_matches(text, images, image, tag, r),
    ensures
        r matches Ok(UpdateOutcome::NoChange { image: out_image, tag: out_tag }) && out_image@
            == image && out_tag@ == tag,
{
    match r {
        Ok(UpdateOutcome::NoChange { .. }) => {
        },
        Ok(UpdateOutcome::Replace { .. }) => {
            assert(exists|k: int|
                is_first_index_named(images, image, k) && images[k].new_tag != tag);
            let k = choose|k: int|
                is_first_index_named(images, image, k) && images[k].new_tag != tag;
            lemma_first_index_unique(images, image, i, k);
        },
        Err(ReplaceError::NotFound) => {
            assert(0 <= i < images.len() && images[i].name == image);
            assert(has_image_named(images, image));
        },
        Err(ReplaceError::AmbiguousReplacement) => {
            let k = choose|k: int|
                is_first_index_named(images, image, k) && images[k].new_tag != tag;
            lemma_first_index_unique(images, image, i, k);
        },
        _ => {
        },
    }
}

/// Law: idempotence. A first invocation that succeeds leaves the target
/// image pinned to the desired tag — either it reported `NoChange` and the
/// text stands as it was, or it replaced every occurrence of the old tag —
/// so a second invocation of `run` with the same request, on a text whose
/// manifest now pins `tag` for the first entry named `image`, reports
/// `NoChange` and produces no text: the file content after two invocations is
/// the content after one. That the rewritten text re-parses to a manifest
/// with the tag updated is the YAML library's act, taken here as the
/// hypothesis on `manifest_of_text(text2)` (it can fail when the old tag
/// string also occurs inside a name the substitution touches).
pub proof fn lemma_idempotent(
    cmd: ReplaceTag,
    text1: Seq<char>,
    r1: Result<UpdateOutcome, ReplaceError>,
    text2: Seq<char>,
    r2: Result<UpdateOutcome, ReplaceError>,
    j: int,
)
    requires
        run_post(cmd, text1, r1),
        r1 is Ok,
        manifest_of_text(text2) is Some,
        is_first_index_named(manifest_of_text(text2)->0, cmd.image@, j),
        manifest_of_text(text2)->0[j].new_tag == cmd.tag@,
        run_post(cmd, text2, r2),
    ensures
        r2 matches Ok(UpdateOutcome::NoChange { image: out_image, tag: out_tag }) && out_image@
            == cmd.image@ && out_tag@ == cmd.tag@,
{
    lemma_noop_purity(text2, manifest_of_text(text2)->0, cmd.image@, cmd.tag@, r2, j);
}

/// Law: format preservation at the decision level. Split the text anywhere
/// that the current tag does not occur before and no occurrence straddles —
/// after a leading comment line, after keys in their own order — and a
/// `Replace` decision rewrites only what follows the split: the leading
/// region stands byte-for-byte in the new text.
pub proof fn lemma_replace_preserves_prefix(
    text: Seq<char>,
    images: Seq<ImageModel>,
    image: Seq<char>,
    tag: Seq<char>,
    r: Result<UpdateOutcome, ReplaceError>,
    i: int,
    a: Seq<char>,
    b: Seq<char>,
)
    requires
        outcome_matches(text, images, image, tag, r),
        r matches Ok(o) && o is Replace,
        is_first_index_named(images, image, i),
        images[i].new_tag.len() > 0,
        text == a + b,
        !occurs(a, images[i].new_tag),
        forall|p: int|
            a.len() - images[i].new_tag.len() < p < a.len() ==> !match_at(
                text,
                images[i].new_tag,
                p,
            ),
    ensures
        r matches Ok(UpdateOutcome::Replace { new_text, .. }) && new_text@ == a + replaced(
            b,
            images[i].new_tag,
            tag,
        ),
{
    match r {
        Ok(UpdateOutcome::Replace { image: oi, old_tag: ot, new_tag: nt, new_text: nx }) => {
            let k = choose|k: int|
                is_first_index_named(images, image, k) && images[k].new_tag != tag && ot@
                    == images[k].new_tag && nx@ == replaced(text, images[k].new_tag, tag);
            lemma_first_index_unique(images, image, i, k);
            lemma_untouched_prefix(a, b, images[i].new_tag, tag);
        },
        _ => {
            assert(false);
        },
    }
}

/// What `ReplaceTag::run` promises of its result `r` on the raw text `text`:
/// the invalid-YAML failure exactly when the text does not parse; the
/// empty-stream failure exactly when it parses to zero documents; the schema
/// failure exactly when the stream's last document is not manifest-shaped;
/// and otherwise the decision that `outcome_matches` describes for the
/// manifest that the text's last document carries.
pub open spec fn run_post(
    cmd: ReplaceTag,
    text: Seq<char>,
    r: Result<UpdateOutcome, ReplaceError>,
) -> bool {
    &&& (r == Err::<UpdateOutcome, ReplaceError>(ReplaceError::InvalidYaml) <==> yaml_documents(
        text,
    ) is None)
    &&& (r == Err::<UpdateOutcome, ReplaceError>(ReplaceError::EmptyDocumentStream)
        <==> (yaml_documents(text) matches Some(docs) && docs.len() == 0))
    &&& (r == Err::<UpdateOutcome, ReplaceError>(ReplaceError::Schema) <==> (yaml_documents(text)
        matches Some(docs) && docs.len() > 0 && manifest_model_of(docs.last()) is None))
    &&& match manifest_of_text(text) {
        Some(images) => outcome_matches(text, images, cmd.image@, cmd.tag@, r),
        None => true,
    }
}

impl ReplaceTag {
    /// Carries the request out on the raw file text: parses the text as a
    /// stream of YAML documents, projects the last document onto the typed
    /// manifest, and decides the update. Reading the file and persisting a
    /// `Replace` outcome are left to the caller.
    pub fn run(&self, text: &str) -> (r: Result<UpdateOutcome, ReplaceError>)
        ensures
            run_post(*self, text@, r),
    {
        let mut docs = match parse_documents(text) {
            Ok(d) => d,
            Err(_) => {
                return Err(ReplaceError::InvalidYaml);
            },
        };
        let ghost all = docs@;
        let ghost models = all.map_values(|v: serde_yaml::Value| yaml_node_of(v));
        let doc = match docs.pop() {
            Some(d) => d,
            None => {
                proof {
                    assert(models.len() == 0);
                }
                return Err(ReplaceError::EmptyDocumentStream);
            },
        };
        proof {
            assert(models.len() == all.len());
            assert(doc == all.last());
            assert(models.last() == yaml_node_of(all.last()));
        }
        let manifest = match project_manifest(&doc) {
            Ok(m) => m,
            Err(e) => {
                return Err(e);
            },
        };
        let chars = str_to_chars(text);
        let r = self.compute_update(&chars, &manifest);
        proof {
            assert(outcome_matches(text@, manifest@, self.image@, self.tag@, r));
            assert(manifest_of_text(text@) == Some(manifest@));
        }
        r
    }
}

} // verus!
