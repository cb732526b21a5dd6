use std::path::Path;

use unbg::inference::OnnxVariant::{Auto, Fp16, Fp32, Quantized};
use unbg::inference::{CoreError, ModelKind, OnnxVariant};
use unbg::registry::{merge_lock_models, resolve_model_paths, LockModel, ModelLock, RegistryError};
use unbg::weights::{
    find_preferred_onnx_file, is_onnx_extension, locked_revision, preferred_index,
    registry_failure, resolve_model_onnx_file, variant_rank, LockedRevision,
};

fn strings(items: &[&str]) -> Vec<String> {
    items.iter().map(|s| s.to_string()).collect()
}

#[test]
fn ranks_for_each_variant() {
    let half = "/m/onnx/model_fp16.onnx";
    let full = "/m/onnx/model.onnx";
    let quant = "/m/onnx/model_quantized.onnx";
    let q8 = "/m/onnx/weights_q8.onnx";
    let other = "/m/onnx/weights.onnx";
    for v in [Fp16, Auto] {
        assert_eq!(variant_rank(half, v), 0);
        assert_eq!(variant_rank(full, v), 1);
        assert_eq!(variant_rank(quant, v), 2);
        assert_eq!(variant_rank(q8, v), 2);
        assert_eq!(variant_rank(other, v), 3);
    }
    assert_eq!(variant_rank(full, Fp32), 0);
    assert_eq!(variant_rank(half, Fp32), 1);
    assert_eq!(variant_rank(quant, Fp32), 2);
    assert_eq!(variant_rank(other, Fp32), 3);
    assert_eq!(variant_rank("/m/fp16/model.onnx", Fp32), 3);
    assert_eq!(variant_rank("/quantized/model.onnx", Fp32), 2);
    assert_eq!(variant_rank(quant, Quantized), 0);
    assert_eq!(variant_rank(q8, Quantized), 0);
    assert_eq!(variant_rank(full, Quantized), 1);
    assert_eq!(variant_rank(half, Quantized), 2);
    assert_eq!(variant_rank(other, Quantized), 3);
}

#[test]
fn exact_extension_only() {
    assert!(is_onnx_extension(Some("onnx")));
    assert!(!is_onnx_extension(Some("ONNX")));
    assert!(!is_onnx_extension(Some("onn")));
    assert!(!is_onnx_extension(None));
}

#[test]
fn preferred_file_among_a_listing() {
    let files = strings(&[
        "/m/config.json",
        "/m/onnx/model_quantized.onnx",
        "/m/onnx/model.onnx",
        "/m/onnx/MODEL_FP16.onnx",
        "/m/onnx/model_fp16.onnx",
        "/m/onnx/model.ONNX",
    ]);
    assert_eq!(preferred_index(&files, OnnxVariant::Fp16), Some(3));
    assert_eq!(find_preferred_onnx_file(&files, OnnxVariant::Fp16).as_deref(), Some("/m/onnx/MODEL_FP16.onnx"));
    assert_eq!(find_preferred_onnx_file(&files, OnnxVariant::Auto).as_deref(), Some("/m/onnx/MODEL_FP16.onnx"));
    assert_eq!(find_preferred_onnx_file(&files, OnnxVariant::Fp32).as_deref(), Some("/m/onnx/model.onnx"));
    assert_eq!(
        find_preferred_onnx_file(&files, OnnxVariant::Quantized).as_deref(),
        Some("/m/onnx/model_quantized.onnx")
    );
}

#[test]
fn preferred_file_falls_back_to_what_is_there() {
    let files = strings(&["/m/a.txt", "/m/z.onnx", "/m/b.onnx"]);
    assert_eq!(find_preferred_onnx_file(&files, OnnxVariant::Fp16).as_deref(), Some("/m/z.onnx"));
    let files = strings(&["/m/z.onnx", "/m/model.onnx"]);
    assert_eq!(find_preferred_onnx_file(&files, OnnxVariant::Quantized).as_deref(), Some("/m/model.onnx"));
    let files = strings(&["/m/onnx/model_fp16.onnx", "/m/onnx/model.onnx"]);
    assert_eq!(
        find_preferred_onnx_file(&files, OnnxVariant::Quantized).as_deref(),
        Some("/m/onnx/model.onnx")
    );
    assert_eq!(
        find_preferred_onnx_file(&files, OnnxVariant::Fp16).as_deref(),
        Some("/m/onnx/model_fp16.onnx")
    );
    let files = strings(&["/m/config.json", "/m/model.ONNX", "/m/.onnx"]);
    assert_eq!(find_preferred_onnx_file(&files, OnnxVariant::Fp16), None);
    assert_eq!(preferred_index(&vec![], OnnxVariant::Fp16), None);
}

fn lock(records: &[(&str, &str)]) -> ModelLock {
    ModelLock {
        schema_version: 1,
        generated_at: "t".to_string(),
        models: records
            .iter()
            .map(|(id, rev)| LockModel {
                model_id: id.to_string(),
                revision: rev.to_string(),
                source: "huggingface".to_string(),
                files: vec![],
            })
            .collect(),
    }
}

fn backend_text(e: CoreError) -> String {
    match e {
        CoreError::Backend(text) => text,
        _ => panic!("expected a backend error"),
    }
}

#[test]
fn revision_recorded_for_a_model() {
    let paths = resolve_model_paths(Some("/r")).unwrap();
    let lock = lock(&[("briaai/RMBG-2.0", "v2"), ("briaai/RMBG-1.4", "main"), ("briaai/RMBG-1.4", "old")]);
    let found = locked_revision(&paths, &lock, ModelKind::Rmbg14).unwrap();
    assert_eq!(found.model_id, "briaai/RMBG-1.4");
    assert_eq!(found.revision, "main");
    assert_eq!(Path::new(&found.dir), Path::new("/r").join("models").join("briaai__RMBG-1.4").join("main"));
    let found = locked_revision(&paths, &lock, ModelKind::Rmbg20).unwrap();
    assert_eq!(found.revision, "v2");
    assert_eq!(Path::new(&found.dir), Path::new("/r").join("models").join("briaai__RMBG-2.0").join("v2"));
}

#[test]
fn model_without_record_is_not_installed() {
    let paths = resolve_model_paths(Some("/r")).unwrap();
    let only_small = lock(&[("briaai/RMBG-1.4", "main")]);
    assert_eq!(
        backend_text(locked_revision(&paths, &only_small, ModelKind::Rmbg20).unwrap_err()),
        "model not found in lockfile: briaai/RMBG-2.0"
    );
    assert_eq!(
        backend_text(locked_revision(&paths, &only_small, ModelKind::Auto).unwrap_err()),
        "auto model cannot resolve onnx directly"
    );
    let merged = merge_lock_models(None, vec![], "t".to_string());
    assert!(locked_revision(&paths, &merged, ModelKind::Rmbg14).is_err());
}

#[test]
fn weights_file_of_a_revision() {
    let found = LockedRevision {
        model_id: "briaai/RMBG-1.4".to_string(),
        revision: "main".to_string(),
        dir: "/r/models/briaai__RMBG-1.4/main".to_string(),
    };
    let files = strings(&["/r/models/briaai__RMBG-1.4/main/onnx/model.onnx"]);
    assert_eq!(
        resolve_model_onnx_file(&found, &files, OnnxVariant::Fp16).unwrap(),
        "/r/models/briaai__RMBG-1.4/main/onnx/model.onnx"
    );
    assert_eq!(
        backend_text(resolve_model_onnx_file(&found, &vec![], OnnxVariant::Fp16).unwrap_err()),
        "no .onnx file found for briaai/RMBG-1.4 revision main in /r/models/briaai__RMBG-1.4/main"
    );
}

#[test]
fn registry_failures_become_backend_errors() {
    assert_eq!(
        backend_text(registry_failure(&RegistryError::NoDefaultModelDir)),
        "could not determine a default model directory"
    );
    assert_eq!(backend_text(registry_failure(&RegistryError::Io("gone".to_string()))), "io error: gone");
}
