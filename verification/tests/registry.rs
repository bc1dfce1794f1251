use whispertype::commands::models::{list_models, ModelInfo};
use whispertype::model_manager::is_model_downloaded;
use whispertype::transcription::get_model_registry;
use whispertype::transcription::models::find_model;

fn on_disk(name: &str) -> bool {
    std::path::Path::new("models-that-are-not-there").join(name).exists()
}

#[test]
fn test_registry_contains_models() {
    let registry = get_model_registry();
    assert!(!registry.is_empty());
    assert!(registry.iter().any(|m| m.id == "large-v3"));
    assert!(registry.iter().any(|m| m.id == "tiny"));
}

#[test]
fn test_registry_has_five_models() {
    let registry = get_model_registry();
    assert_eq!(
        registry.len(),
        5,
        "registry should contain exactly 5 models"
    );
}

#[test]
fn test_registry_ids_are_unique() {
    let registry = get_model_registry();
    let mut ids: Vec<&str> = registry.iter().map(|m| m.id.as_str()).collect();
    ids.sort();
    ids.dedup();
    assert_eq!(ids.len(), registry.len(), "all model IDs should be unique");
}

#[test]
fn test_registry_filenames_are_unique() {
    let registry = get_model_registry();
    let mut filenames: Vec<&str> = registry.iter().map(|m| m.filename.as_str()).collect();
    filenames.sort();
    filenames.dedup();
    assert_eq!(
        filenames.len(),
        registry.len(),
        "all filenames should be unique"
    );
}

#[test]
fn test_registry_all_models_have_valid_urls() {
    let registry = get_model_registry();
    for model in registry {
        assert!(
            model.url.starts_with("https://"),
            "model {} URL should start with https://",
            model.id
        );
        assert!(
            model.url.contains("huggingface.co"),
            "model {} URL should point to huggingface",
            model.id
        );
    }
}

#[test]
fn test_registry_all_models_have_nonzero_size() {
    let registry = get_model_registry();
    for model in registry {
        assert!(
            model.size_bytes > 0,
            "model {} should have nonzero size_bytes",
            model.id
        );
    }
}

#[test]
fn test_registry_all_models_have_display_names() {
    let registry = get_model_registry();
    for model in registry {
        assert!(
            !model.display_name.is_empty(),
            "model {} should have a display name",
            model.id
        );
    }
}

#[test]
fn test_registry_all_filenames_end_with_bin() {
    let registry = get_model_registry();
    for model in registry {
        assert!(
            model.filename.ends_with(".bin"),
            "model {} filename should end with .bin",
            model.id
        );
    }
}

#[test]
fn test_registry_contains_all_expected_models() {
    let registry = get_model_registry();
    let expected_ids = ["tiny", "base", "small", "medium", "large-v3"];
    for id in &expected_ids {
        assert!(
            registry.iter().any(|m| m.id == *id),
            "registry should contain model with id '{}'",
            id
        );
    }
}

#[test]
fn test_registry_model_sizes_increase() {
    let registry = get_model_registry();
    let ordered_ids = ["tiny", "base", "small", "medium", "large-v3"];
    let mut prev_size = 0u64;
    for id in &ordered_ids {
        let model = registry.iter().find(|m| m.id == *id).unwrap();
        assert!(
            model.size_bytes > prev_size,
            "model {} size ({}) should be greater than previous ({})",
            id,
            model.size_bytes,
            prev_size
        );
        prev_size = model.size_bytes;
    }
}

#[test]
fn test_registry_is_static_and_consistent() {
    let reg1 = get_model_registry();
    let reg2 = get_model_registry();
    assert_eq!(reg1.len(), reg2.len());
    for (m1, m2) in reg1.iter().zip(reg2.iter()) {
        assert_eq!(m1.id, m2.id);
        assert_eq!(m1.size_bytes, m2.size_bytes);
    }
}

#[test]
fn test_model_find_by_id() {
    let registry = get_model_registry();
    let tiny = registry.iter().find(|m| m.id == "tiny");
    assert!(tiny.is_some(), "should find 'tiny' model");
    let tiny = tiny.unwrap();
    assert_eq!(tiny.filename, "ggml-tiny.bin");
}

#[test]
fn test_model_find_nonexistent_returns_none() {
    let registry = get_model_registry();
    let result = registry.iter().find(|m| m.id == "nonexistent-model");
    assert!(result.is_none(), "nonexistent model should not be found");
}

#[test]
fn test_is_model_downloaded_returns_false_for_nonexistent_model() {
    assert!(
        !is_model_downloaded("totally-fake-model-xyz", on_disk),
        "nonexistent model should not be considered downloaded"
    );
}

#[test]
fn test_is_model_downloaded_returns_false_for_valid_model_not_on_disk() {
    let result = is_model_downloaded("tiny", on_disk);
    let _ = result;
}

#[test]
fn registry_entries_are_exact() {
    let registry = get_model_registry();
    let ids: Vec<&str> = registry.iter().map(|m| m.id.as_str()).collect();
    assert_eq!(ids, vec!["tiny", "base", "small", "medium", "large-v3"]);
    let small = &registry[2];
    assert_eq!(small.display_name, "Small (~500 MB)");
    assert_eq!(small.filename, "ggml-small.bin");
    assert_eq!(
        small.url,
        "https://huggingface.co/ggerganov/whisper.cpp/resolve/main/ggml-small.bin"
    );
    assert_eq!(small.size_bytes, 487_601_967);
    assert_eq!(small.vram_mb, 1500);
    assert_eq!(registry[4].size_bytes, 3_093_846_125);
    assert_eq!(registry[4].vram_mb, 6000);
}

#[test]
fn find_model_looks_up_by_exact_id() {
    let medium = find_model("medium").unwrap();
    assert_eq!(medium.filename, "ggml-medium.bin");
    assert_eq!(medium.size_bytes, 1_533_774_781);
    assert_eq!(find_model("large-v3").unwrap().display_name, "Large V3 (~3 GB)");
    assert!(find_model("Medium").is_none());
    assert!(find_model("").is_none());
    assert!(find_model("tiny ").is_none());
}

#[test]
fn is_model_downloaded_asks_about_the_models_file_only() {
    assert!(is_model_downloaded("base", |name: &str| name == "ggml-base.bin"));
    assert!(!is_model_downloaded("base", |name: &str| name == "ggml-tiny.bin"));
    // an unknown id is never looked up, whatever the disk would say
    assert!(!is_model_downloaded("totally-fake-model-xyz", |_name: &str| -> bool {
        panic!("nothing should be looked up for an unknown model")
    }));
}

#[test]
fn list_models_describes_every_model_in_order() {
    let list: Vec<ModelInfo> = list_models(|name: &str| name == "ggml-small.bin");
    assert_eq!(list.len(), 5);
    let registry = get_model_registry();
    for (info, model) in list.iter().zip(registry.iter()) {
        assert_eq!(info.id, model.id);
        assert_eq!(info.display_name, model.display_name);
        assert_eq!(info.filename, model.filename);
        assert_eq!(info.size_bytes, model.size_bytes);
        assert_eq!(info.vram_mb, model.vram_mb);
        assert_eq!(info.downloaded, model.id == "small");
    }
    let tiny = ModelInfo::describe(&registry[0], true);
    assert_eq!(tiny.id, "tiny");
    assert!(tiny.downloaded);
}
