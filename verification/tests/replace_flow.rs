use kustomize_tools::cli::{Cli, Commands};
use kustomize_tools::replace_tag::{
    Kustomization, KustomizationImage, ReplaceError, ReplaceTag, UpdateOutcome,
};

fn image(name: &str, new_tag: &str) -> KustomizationImage {
    KustomizationImage { name: name.to_owned(), new_name: None, new_tag: new_tag.to_owned() }
}

fn request(image: &str, tag: &str) -> ReplaceTag {
    ReplaceTag { file: "kustomization.yaml".to_owned(), image: image.to_owned(), tag: tag.to_owned() }
}

fn text_of(outcome: &UpdateOutcome) -> String {
    match outcome {
        UpdateOutcome::Replace { new_text, .. } => new_text.iter().collect(),
        UpdateOutcome::NoChange { .. } => panic!("expected a replacement"),
    }
}

#[test]
fn find_image_returns_first_match() {
    let manifest = Kustomization {
        images: vec![image("db", "2.0"), image("web", "1.0"), image("web", "9.9")],
    };
    assert_eq!(manifest.find_image(&"web".to_owned()), Some(1));
    assert_eq!(manifest.find_image(&"db".to_owned()), Some(0));
    assert_eq!(manifest.find_image(&"cache".to_owned()), None);
}

#[test]
fn collision_needs_shared_tag_and_target_name() {
    let duplicated = Kustomization { images: vec![image("app", "v1"), image("app", "v1")] };
    assert!(duplicated.has_collision(&"app".to_owned()));
    let shared_tag = Kustomization { images: vec![image("web", "v1"), image("db", "v1")] };
    assert!(shared_tag.has_collision(&"db".to_owned()));
    // The check only flags a later entry of the target's own name: a
    // different-named entry sharing the tag is not flagged.
    assert!(!shared_tag.has_collision(&"web".to_owned()));
}

#[test]
fn compute_update_replaces_tag_in_text() {
    let manifest = Kustomization { images: vec![image("web", "1.0.0"), image("db", "2.0.0")] };
    let text: Vec<char> = "images:\n- name: web\n  newTag: 1.0.0\n".chars().collect();
    let outcome = request("web", "1.1.0").compute_update(&text, &manifest).unwrap();
    match outcome {
        UpdateOutcome::Replace { image, old_tag, new_tag, new_text } => {
            assert_eq!(image, "web");
            assert_eq!(old_tag, "1.0.0");
            assert_eq!(new_tag, "1.1.0");
            let s: String = new_text.into_iter().collect();
            assert_eq!(s, "images:\n- name: web\n  newTag: 1.1.0\n");
        }
        UpdateOutcome::NoChange { .. } => panic!("expected a replacement"),
    }
}

#[test]
fn compute_update_reports_noop() {
    let manifest = Kustomization { images: vec![image("web", "1.0.0")] };
    let text: Vec<char> = "irrelevant".chars().collect();
    let outcome = request("web", "1.0.0").compute_update(&text, &manifest).unwrap();
    assert_eq!(
        outcome,
        UpdateOutcome::NoChange { image: "web".to_owned(), tag: "1.0.0".to_owned() }
    );
}

#[test]
fn compute_update_rejects_missing_image() {
    let manifest = Kustomization { images: vec![image("web", "1.0.0")] };
    let text: Vec<char> = "irrelevant".chars().collect();
    let err = request("cache", "1.1.0").compute_update(&text, &manifest).unwrap_err();
    assert_eq!(err, ReplaceError::NotFound);
}

#[test]
fn compute_update_rejects_ambiguous_duplicate() {
    let manifest = Kustomization { images: vec![image("app", "v1"), image("app", "v1")] };
    let text: Vec<char> = "irrelevant".chars().collect();
    let err = request("app", "v2").compute_update(&text, &manifest).unwrap_err();
    assert_eq!(err, ReplaceError::AmbiguousReplacement);
}

const EXAMPLE: &str = "images:\n- name: web\n  newTag: 1.0.0\n- name: db\n  newTag: 2.0.0\n";

#[test]
fn run_replaces_every_literal_occurrence() {
    let outcome = request("web", "1.1.0").run(EXAMPLE).unwrap();
    assert_eq!(text_of(&outcome), EXAMPLE.replace("1.0.0", "1.1.0"));
}

#[test]
fn run_reports_noop_without_new_text() {
    let outcome = request("web", "1.0.0").run(EXAMPLE).unwrap();
    assert_eq!(
        outcome,
        UpdateOutcome::NoChange { image: "web".to_owned(), tag: "1.0.0".to_owned() }
    );
}

#[test]
fn run_twice_gives_the_content_of_one_run() {
    let first = request("db", "3.0.0").run(EXAMPLE).unwrap();
    let rewritten = text_of(&first);
    let second = request("db", "3.0.0").run(&rewritten).unwrap();
    assert!(matches!(second, UpdateOutcome::NoChange { .. }));
}

#[test]
fn run_rejects_colliding_tags() {
    let text = "images:\n- name: app\n  newTag: v1\n- name: app\n  newTag: v1\n";
    let err = request("app", "v2").run(text).unwrap_err();
    assert_eq!(err, ReplaceError::AmbiguousReplacement);
}

#[test]
fn run_rejects_unknown_image() {
    let err = request("cache", "1.1.0").run(EXAMPLE).unwrap_err();
    assert_eq!(err, ReplaceError::NotFound);
}

#[test]
fn run_preserves_comments_and_key_order() {
    let text = "# pinned by the deploy job\nimages:\n- newTag: 1.0.0\n  name: web\n";
    let outcome = request("web", "1.1.0").run(text).unwrap();
    assert_eq!(
        text_of(&outcome),
        "# pinned by the deploy job\nimages:\n- newTag: 1.1.0\n  name: web\n"
    );
}

#[test]
fn run_substitutes_inside_comments_too() {
    let text = "# was 1.0.0 last week\nimages:\n- name: web\n  newTag: 1.0.0\n";
    let outcome = request("web", "1.1.0").run(text).unwrap();
    assert_eq!(
        text_of(&outcome),
        "# was 1.1.0 last week\nimages:\n- name: web\n  newTag: 1.1.0\n"
    );
}

#[test]
fn run_uses_the_last_document_of_the_stream() {
    let text =
        "images:\n- name: web\n  newTag: 0.1.0\n---\nimages:\n- name: web\n  newTag: 0.2.0\n";
    let outcome = request("web", "0.3.0").run(text).unwrap();
    match outcome {
        UpdateOutcome::Replace { old_tag, new_text, .. } => {
            assert_eq!(old_tag, "0.2.0");
            let s: String = new_text.into_iter().collect();
            assert_eq!(s, text.replace("0.2.0", "0.3.0"));
        }
        UpdateOutcome::NoChange { .. } => panic!("expected a replacement"),
    }
}

#[test]
fn run_rejects_invalid_yaml() {
    let err = request("web", "1.1.0").run("images: [\n").unwrap_err();
    assert_eq!(err, ReplaceError::InvalidYaml);
}

#[test]
fn run_rejects_empty_input() {
    // The YAML library reads empty input as a stream of one null document,
    // which then fails the manifest-shape check.
    let err = request("web", "1.1.0").run("").unwrap_err();
    assert_eq!(err, ReplaceError::Schema);
}

#[test]
fn run_rejects_null_document() {
    let err = request("web", "1.1.0").run("---\n").unwrap_err();
    assert_eq!(err, ReplaceError::Schema);
}

#[test]
fn run_rejects_numeric_new_tag() {
    // An unquoted numeric tag is a YAML number, not a string.
    let err = request("web", "1.1.0").run("images:\n- name: web\n  newTag: 0.5\n").unwrap_err();
    assert_eq!(err, ReplaceError::Schema);
}

#[test]
fn run_rejects_document_without_images() {
    let err = request("web", "1.1.0").run("resources:\n- a.yaml\n").unwrap_err();
    assert_eq!(err, ReplaceError::Schema);
}

#[test]
fn run_rejects_images_that_are_not_a_sequence() {
    let err = request("web", "1.1.0").run("images: 3\n").unwrap_err();
    assert_eq!(err, ReplaceError::Schema);
}

#[test]
fn run_rejects_entry_without_new_tag() {
    let err = request("web", "1.1.0").run("images:\n- name: web\n").unwrap_err();
    assert_eq!(err, ReplaceError::Schema);
}

#[test]
fn run_rejects_non_string_new_tag() {
    let err = request("web", "1.1.0").run("images:\n- name: web\n  newTag: [1]\n").unwrap_err();
    assert_eq!(err, ReplaceError::Schema);
}

#[test]
fn run_accepts_new_name_string_or_null() {
    let with_name = "images:\n- name: web\n  newName: mirror/web\n  newTag: 1.0.0\n";
    assert!(request("web", "1.1.0").run(with_name).is_ok());
    let with_null = "images:\n- name: web\n  newName: null\n  newTag: 1.0.0\n";
    assert!(request("web", "1.1.0").run(with_null).is_ok());
}

#[test]
fn cli_dispatches_to_replace_tag() {
    let cli = Cli { command: Commands::ReplaceTag(request("web", "1.1.0")) };
    let outcome = cli.run(EXAMPLE).unwrap();
    assert_eq!(text_of(&outcome), EXAMPLE.replace("1.0.0", "1.1.0"));
}

#[test]
fn error_messages_describe_each_failure() {
    assert!(ReplaceError::InvalidYaml.message().contains("YAML"));
    assert!(ReplaceError::EmptyDocumentStream.message().contains("document"));
    assert!(ReplaceError::Schema.message().contains("kustomization"));
    assert!(ReplaceError::NotFound.message().contains("image"));
    assert!(ReplaceError::AmbiguousReplacement.message().contains("tag"));
}
