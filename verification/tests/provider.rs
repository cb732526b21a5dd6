use std::path::Path;

use unbg::cache::{ProviderCache, SessionTable};
use unbg::inference::{
    CoreError, ExecutionProvider, GpuBackendPreference, InferenceRequest, ModelKind, OnnxVariant,
};
use unbg::inference::ExecutionProvider as E;
use unbg::inference::GpuBackendPreference as G;
use unbg::provider::ProviderChoice as P;
use unbg::provider::{
    backend_error, candidate_providers, cuda_probe_paths, dedup_providers, gpu_candidates,
    has_provider, host_os,
    parse_provider_choice, provider_cache_file, provider_cache_key, provider_label,
    require_candidates, selected_labels, session_cache_key, HostOs, ProviderChoice,
};

fn request(mode: ExecutionProvider, gpu: GpuBackendPreference) -> InferenceRequest {
    InferenceRequest {
        requested_model: ModelKind::Auto,
        onnx_variant: OnnxVariant::Quantized,
        execution_provider: mode,
        gpu_backend: gpu,
        benchmark_provider: false,
        emit_mask_png: true,
        input_path: None,
        input_bytes: Some(vec![]),
        model_dir: None,
        width: 1,
        height: 1,
    }
}

const ALL: [ProviderChoice; 4] =
    [ProviderChoice::Cpu, ProviderChoice::DirectML, ProviderChoice::Cuda, ProviderChoice::CoreML];

#[test]
fn provider_names_read_back() {
    assert_eq!(provider_label(ProviderChoice::Cpu), "cpu");
    assert_eq!(provider_label(ProviderChoice::DirectML), "directml");
    assert_eq!(provider_label(ProviderChoice::Cuda), "cuda");
    assert_eq!(provider_label(ProviderChoice::CoreML), "coreml");
    for p in ALL {
        assert_eq!(parse_provider_choice(provider_label(p)), Some(p));
    }
    assert_eq!(parse_provider_choice("CPU"), None);
    assert_eq!(parse_provider_choice("gpu"), None);
    assert_eq!(parse_provider_choice(""), None);
}

#[test]
fn labels_of_the_path_that_ran() {
    assert_eq!(selected_labels(ProviderChoice::Cpu), ("cpu".to_string(), None));
    assert_eq!(selected_labels(ProviderChoice::Cuda), ("gpu".to_string(), Some("cuda".to_string())));
    assert_eq!(selected_labels(ProviderChoice::DirectML), ("gpu".to_string(), Some("directml".to_string())));
    assert_eq!(selected_labels(ProviderChoice::CoreML), ("gpu".to_string(), Some("coreml".to_string())));
}

#[test]
fn operating_system_families() {
    assert_eq!(host_os("windows"), HostOs::Windows);
    assert_eq!(host_os("linux"), HostOs::Linux);
    assert_eq!(host_os("macos"), HostOs::Apple);
    assert_eq!(host_os("ios"), HostOs::Apple);
    assert_eq!(host_os("freebsd"), HostOs::Other);
    assert_eq!(host_os("Linux"), HostOs::Other);
}

#[test]
fn accelerator_candidates() {
    for os in [HostOs::Windows, HostOs::Linux, HostOs::Apple, HostOs::Other] {
        for cuda in [false, true] {
            assert_eq!(gpu_candidates(G::DirectML, os, cuda), vec![P::DirectML]);
            assert_eq!(gpu_candidates(G::Cuda, os, cuda), vec![P::Cuda]);
            assert_eq!(gpu_candidates(G::CoreML, os, cuda), vec![P::CoreML]);
            assert_eq!(gpu_candidates(G::Metal, os, cuda), vec![P::CoreML]);
        }
    }
    assert_eq!(gpu_candidates(G::Auto, HostOs::Windows, true), vec![P::Cuda, P::DirectML]);
    assert_eq!(gpu_candidates(G::Auto, HostOs::Windows, false), vec![P::DirectML]);
    assert_eq!(gpu_candidates(G::Auto, HostOs::Linux, true), vec![P::Cuda]);
    assert_eq!(gpu_candidates(G::Auto, HostOs::Linux, false), vec![]);
    assert_eq!(gpu_candidates(G::Auto, HostOs::Apple, true), vec![P::CoreML]);
    assert_eq!(gpu_candidates(G::Auto, HostOs::Other, true), vec![]);
}

#[test]
fn candidates_end_with_the_processor() {
    assert_eq!(candidate_providers(&request(E::Cpu, G::Cuda), HostOs::Windows, true), vec![P::Cpu]);
    assert_eq!(candidate_providers(&request(E::Gpu, G::Cuda), HostOs::Linux, false), vec![P::Cuda, P::Cpu]);
    assert_eq!(
        candidate_providers(&request(E::Auto, G::Auto), HostOs::Windows, true),
        vec![P::Cuda, P::DirectML, P::Cpu]
    );
    assert_eq!(candidate_providers(&request(E::Auto, G::Auto), HostOs::Linux, false), vec![P::Cpu]);
    assert_eq!(candidate_providers(&request(E::Gpu, G::Metal), HostOs::Apple, false), vec![P::CoreML, P::Cpu]);
    for mode in [E::Auto, E::Gpu, E::Cpu] {
        for gpu in [G::Auto, G::DirectML, G::Cuda, G::CoreML, G::Metal] {
            for os in [HostOs::Windows, HostOs::Linux, HostOs::Apple, HostOs::Other] {
                for cuda in [false, true] {
                    let list = candidate_providers(&request(mode, gpu), os, cuda);
                    assert_eq!(list.last(), Some(&P::Cpu));
                    let mut seen = Vec::new();
                    for p in &list {
                        assert!(!seen.contains(p));
                        seen.push(*p);
                    }
                    assert!(require_candidates(&list).is_ok());
                }
            }
        }
    }
}

#[test]
fn repetitions_are_dropped_in_place() {
    assert_eq!(dedup_providers(vec![P::Cuda, P::Cpu, P::Cuda, P::DirectML, P::Cpu]), vec![P::Cuda, P::Cpu, P::DirectML]);
    assert_eq!(dedup_providers(vec![]), vec![]);
    assert_eq!(dedup_providers(vec![P::Cpu, P::Cpu]), vec![P::Cpu]);
}

#[test]
fn empty_candidate_list_is_an_error() {
    match require_candidates(&vec![]) {
        Err(CoreError::Backend(text)) => assert_eq!(text, "no execution providers available"),
        _ => panic!("expected a backend error"),
    }
}

#[test]
fn backend_errors_carry_their_kind() {
    match backend_error("provider-exhausted", "all providers failed: x".to_string()) {
        CoreError::Backend(text) => assert_eq!(text, "provider-exhausted: all providers failed: x"),
        _ => panic!("expected a backend error"),
    }
}

#[test]
fn cache_keys() {
    let req = request(ExecutionProvider::Auto, GpuBackendPreference::Auto);
    assert_eq!(
        provider_cache_key(ModelKind::Rmbg14, &req, "linux", "x86_64", "/opt/ort/libonnxruntime.so"),
        "rmbg14|quantized|linux|x86_64|/opt/ort/libonnxruntime.so"
    );
    let mut req = req;
    req.onnx_variant = OnnxVariant::Fp16;
    assert_eq!(provider_cache_key(ModelKind::Rmbg20, &req, "windows", "aarch64", ""), "rmbg20|fp16|windows|aarch64|");
    req.onnx_variant = OnnxVariant::Fp32;
    assert_eq!(provider_cache_key(ModelKind::Auto, &req, "macos", "aarch64", "x"), "auto|fp32|macos|aarch64|x");
    req.onnx_variant = OnnxVariant::Auto;
    assert_eq!(provider_cache_key(ModelKind::Auto, &req, "o", "a", "l"), "auto|auto|o|a|l");
    assert_eq!(
        session_cache_key("/m/model.onnx", ProviderChoice::DirectML, "C:/ort.dll"),
        "/m/model.onnx|directml|C:/ort.dll"
    );
}

#[test]
fn cache_file_is_under_the_model_root() {
    let file = provider_cache_file(Some("/data/unbg")).unwrap();
    assert_eq!(Path::new(&file), Path::new("/data/unbg").join("cache").join("provider-selection.json"));
}

fn pairs(items: &[(&str, &str)]) -> Vec<(String, String)> {
    items.iter().map(|(k, v)| (k.to_string(), v.to_string())).collect()
}

#[test]
fn cache_remembers_what_the_file_holds() {
    let mut cache = ProviderCache::new();
    let persisted = pairs(&[("k1", "cuda"), ("k2", "tpu"), ("k1", "cpu")]);
    assert_eq!(cache.load_cached_provider("k0", Some(&persisted)), None);
    assert_eq!(cache.load_cached_provider("k2", Some(&persisted)), None);
    assert_eq!(cache.load_cached_provider("k1", None), None);
    assert_eq!(cache.load_cached_provider("k1", Some(&persisted)), Some(ProviderChoice::Cuda));
    // memory is authoritative from now on
    assert_eq!(cache.load_cached_provider("k1", None), Some(ProviderChoice::Cuda));
    let other = pairs(&[("k1", "directml")]);
    assert_eq!(cache.load_cached_provider("k1", Some(&other)), Some(ProviderChoice::Cuda));
}

#[test]
fn persisted_winner_is_read_back() {
    let mut cache = ProviderCache::new();
    let updated = cache.persist_cached_provider("key", ProviderChoice::DirectML, None);
    assert_eq!(updated, pairs(&[("key", "directml")]));
    assert_eq!(cache.load_cached_provider("key", None), Some(ProviderChoice::DirectML));

    let updated = cache.persist_cached_provider(
        "key",
        ProviderChoice::Cpu,
        Some(pairs(&[("a", "cuda"), ("key", "directml"), ("b", "junk")])),
    );
    assert_eq!(updated, pairs(&[("a", "cuda"), ("key", "cpu"), ("b", "junk")]));
    assert_eq!(cache.load_cached_provider("key", None), Some(ProviderChoice::Cpu));

    // another process starts from the file alone
    let mut fresh = ProviderCache::new();
    assert_eq!(fresh.load_cached_provider("key", Some(&updated)), Some(ProviderChoice::Cpu));
    assert_eq!(fresh.load_cached_provider("a", Some(&updated)), Some(ProviderChoice::Cuda));
    assert_eq!(fresh.load_cached_provider("b", Some(&updated)), None);
}

#[test]
fn warm_sessions_are_kept_by_key() {
    let mut table: SessionTable<u32> = SessionTable::new();
    assert!(!table.is_warm("/m/model.onnx|cpu|"));
    assert_eq!(table.take("/m/model.onnx|cpu|"), None);
    table.keep("/m/model.onnx|cpu|", 1);
    table.keep("/m/model.onnx|cuda|", 2);
    assert!(table.is_warm("/m/model.onnx|cpu|"));
    assert!(table.is_warm("/m/model.onnx|cuda|"));
    assert!(!table.is_warm("/m/model.onnx|coreml|"));
    table.keep("/m/model.onnx|cpu|", 3);
    assert_eq!(table.take("/m/model.onnx|cpu|"), Some(3));
    assert!(!table.is_warm("/m/model.onnx|cpu|"));
    assert_eq!(table.take("/m/model.onnx|cpu|"), None);
    assert_eq!(table.take("/m/model.onnx|cuda|"), Some(2));
}

#[test]
fn where_the_cuda_library_is_looked_for() {
    let dirs = vec!["C:/bin".to_string(), "D:/tools".to_string()];
    let probes = cuda_probe_paths(HostOs::Windows, Some("C:/Windows"), &dirs);
    assert_eq!(probes.len(), 3);
    assert_eq!(Path::new(&probes[0]), Path::new("C:/Windows").join("System32").join("nvcuda.dll"));
    assert_eq!(Path::new(&probes[1]), Path::new("C:/bin").join("nvcuda.dll"));
    assert_eq!(Path::new(&probes[2]), Path::new("D:/tools").join("nvcuda.dll"));
    let probes = cuda_probe_paths(HostOs::Windows, None, &dirs);
    assert_eq!(probes.len(), 2);
    assert_eq!(
        cuda_probe_paths(HostOs::Linux, Some("x"), &dirs),
        vec![
            "/usr/lib/x86_64-linux-gnu/libcuda.so.1",
            "/usr/lib64/libcuda.so.1",
            "/usr/lib/wsl/lib/libcuda.so.1"
        ]
    );
    assert!(cuda_probe_paths(HostOs::Apple, Some("x"), &dirs).is_empty());
    assert!(cuda_probe_paths(HostOs::Other, None, &vec![]).is_empty());
    assert!(has_provider(&vec![P::Cuda, P::Cpu], P::Cpu));
    assert!(!has_provider(&vec![P::Cuda, P::Cpu], P::CoreML));
}
