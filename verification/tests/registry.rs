use std::path::Path;

use unbg::registry::{
    default_model_dir, default_model_dir_for, lockfile_path, merge_lock_models,
    model_revision_dir, resolve_model_paths, KnownModel, LockModel, ModelLock, RegistryError,
    SCHEMA_VERSION,
};

#[test]
fn merge_replaces_existing_model_entry() {
    let existing = ModelLock {
        schema_version: SCHEMA_VERSION,
        generated_at: "1".to_string(),
        models: vec![LockModel {
            model_id: "briaai/RMBG-1.4".to_string(),
            revision: "old".to_string(),
            source: "huggingface".to_string(),
            files: vec![],
        }],
    };

    let merged = merge_lock_models(
        Some(existing),
        vec![LockModel {
            model_id: "briaai/RMBG-1.4".to_string(),
            revision: "new".to_string(),
            source: "huggingface".to_string(),
            files: vec![],
        }],
        "2".to_string(),
    );

    assert_eq!(merged.models.len(), 1);
    assert_eq!(merged.models[0].revision, "new");
}

#[test]
fn merged_records_come_out_in_order_of_identifier() {
    let record = |id: &str, rev: &str| LockModel {
        model_id: id.to_string(),
        revision: rev.to_string(),
        source: "huggingface".to_string(),
        files: vec![],
    };
    let existing = ModelLock {
        schema_version: 7,
        generated_at: "1".to_string(),
        models: vec![record("briaai/RMBG-2.0", "a"), record("briaai/RMBG-1.4", "b")],
    };
    let merged = merge_lock_models(
        Some(existing),
        vec![record("zeta", "c"), record("briaai/RMBG-2.0", "d"), record("zeta", "e")],
        "9".to_string(),
    );
    assert_eq!(merged.schema_version, SCHEMA_VERSION);
    assert_eq!(merged.generated_at, "9");
    let ids: Vec<&str> = merged.models.iter().map(|m| m.model_id.as_str()).collect();
    assert_eq!(ids, vec!["briaai/RMBG-1.4", "briaai/RMBG-2.0", "zeta"]);
    let revs: Vec<&str> = merged.models.iter().map(|m| m.revision.as_str()).collect();
    assert_eq!(revs, vec!["b", "d", "e"]);
}

#[test]
fn merge_into_nothing_and_of_nothing() {
    let merged = merge_lock_models(None, vec![], "0".to_string());
    assert_eq!(merged.schema_version, 1);
    assert!(merged.models.is_empty());
    let merged = merge_lock_models(
        None,
        vec![LockModel {
            model_id: "b".to_string(),
            revision: "main".to_string(),
            source: "huggingface".to_string(),
            files: vec![],
        }],
        "3".to_string(),
    );
    assert_eq!(merged.models.len(), 1);
    assert_eq!(merged.models[0].model_id, "b");
}

#[test]
fn merging_recorded_models_again_changes_nothing_but_the_stamp() {
    let file = |p: &str| unbg::registry::LockFileEntry {
        path: p.to_string(),
        size: 3,
        sha256: "ab".to_string(),
    };
    let updates = || {
        vec![
            LockModel {
                model_id: "briaai/RMBG-2.0".to_string(),
                revision: "main".to_string(),
                source: "huggingface".to_string(),
                files: vec![file("onnx/model.onnx")],
            },
            LockModel {
                model_id: "briaai/RMBG-1.4".to_string(),
                revision: "main".to_string(),
                source: "huggingface".to_string(),
                files: vec![file("config.json"), file("onnx/model_fp16.onnx")],
            },
        ]
    };
    let first = merge_lock_models(None, updates(), "1".to_string());
    let shape = |lock: &ModelLock| -> Vec<(String, String, Vec<(String, u64, String)>)> {
        lock.models
            .iter()
            .map(|m| {
                (
                    m.model_id.clone(),
                    m.revision.clone(),
                    m.files.iter().map(|f| (f.path.clone(), f.size, f.sha256.clone())).collect(),
                )
            })
            .collect()
    };
    let before = shape(&first);
    let second = merge_lock_models(Some(first), updates(), "2".to_string());
    assert_eq!(shape(&second), before);
    assert_eq!(second.generated_at, "2");
}

#[test]
fn known_models_and_their_names() {
    assert_eq!(KnownModel::Rmbg14.model_id(), "briaai/RMBG-1.4");
    assert_eq!(KnownModel::Rmbg20.model_id(), "briaai/RMBG-2.0");
    assert_eq!(KnownModel::Rmbg14.cache_key(), "briaai__RMBG-1.4");
    assert_eq!(KnownModel::Rmbg20.cache_key(), "briaai__RMBG-2.0");
    assert_eq!(KnownModel::all(), [KnownModel::Rmbg14, KnownModel::Rmbg20]);
    assert_eq!(KnownModel::from_model_id("briaai/RMBG-1.4"), Some(KnownModel::Rmbg14));
    assert_eq!(KnownModel::from_model_id("briaai/RMBG-2.0"), Some(KnownModel::Rmbg20));
    assert_eq!(KnownModel::from_model_id("briaai/rmbg-2.0"), None);
    assert_eq!(KnownModel::from_model_id(""), None);
    for model in KnownModel::all() {
        assert_eq!(KnownModel::from_model_id(model.model_id()), Some(model));
    }
}

#[test]
fn built_in_manifest_entries() {
    let manifest = unbg::registry::built_in_manifest();
    assert_eq!(manifest.len(), 2);
    assert_eq!(manifest[0].model_id, "briaai/RMBG-1.4");
    assert_eq!(manifest[0].default_revision, "main");
    assert!(!manifest[0].gated);
    assert_eq!(manifest[1].model_id, "briaai/RMBG-2.0");
    assert_eq!(manifest[1].default_revision, "main");
    assert!(manifest[1].gated);
}

#[test]
fn layout_under_a_given_root() {
    let paths = resolve_model_paths(Some("/data/unbg")).expect("a given root always resolves");
    assert_eq!(paths.root, "/data/unbg");
    assert_eq!(Path::new(&paths.manifests_dir), Path::new("/data/unbg").join("manifests"));
    assert_eq!(Path::new(&paths.models_dir), Path::new("/data/unbg").join("models"));
    assert_eq!(
        Path::new(&paths.cache_downloads_dir),
        Path::new("/data/unbg").join("cache").join("downloads")
    );
    assert_ne!(paths.manifests_dir, paths.root);
    let rev = model_revision_dir(&paths, KnownModel::Rmbg20, "v2");
    assert_eq!(
        Path::new(&rev),
        Path::new("/data/unbg").join("models").join("briaai__RMBG-2.0").join("v2")
    );
    let lock = lockfile_path(&paths);
    assert_eq!(
        Path::new(&lock),
        Path::new("/data/unbg").join("manifests").join("unbg-model-lock.json")
    );
}

#[test]
fn default_root_is_under_the_home_directory() {
    let dir = default_model_dir_for(Some("/home/u")).unwrap();
    assert_eq!(Path::new(&dir), Path::new("/home/u").join(".unbg").join("models"));
    let err = default_model_dir_for(None).unwrap_err();
    assert!(matches!(err, RegistryError::NoDefaultModelDir));
    assert_eq!(err.message(), "could not determine a default model directory");
    match default_model_dir() {
        Ok(dir) => {
            assert!(Path::new(&dir).ends_with(Path::new(".unbg").join("models")));
            let paths = resolve_model_paths(None).unwrap();
            assert_eq!(paths.root, dir);
        }
        Err(e) => assert!(matches!(e, RegistryError::NoDefaultModelDir)),
    }
    assert_eq!(RegistryError::Io("denied".to_string()).message(), "io error: denied");
    assert_eq!(RegistryError::Json("eof".to_string()).message(), "json error: eof");
}
