//! Hardware execution paths: their names, the ordered candidates for a
//! request, and the cache of the path that was chosen for a context.

use vstd::prelude::*;
use crate::inference::{
    CoreError, ExecutionProvider, GpuBackendPreference, InferenceRequest, ModelKind, OnnxVariant,
};
use crate::paths::{join_path, path_join};
use crate::registry::resolve_model_paths;
use crate::text::text_eq;

verus! {

/// One hardware execution path.
#[derive(Debug, Clone, Copy, PartialEq, Eq, Structural, Hash)]
pub enum ProviderChoice {
    Cpu,
    DirectML,
    Cuda,
    CoreML,
}

impl ProviderChoice {
    /// The name under which a path is cached and reported.
    pub open spec fn label_text(self) -> Seq<char> {
        match self {
            ProviderChoice::Cpu => "cpu"@,
            ProviderChoice::DirectML => "directml"@,
            ProviderChoice::Cuda => "cuda"@,
            ProviderChoice::CoreML => "coreml"@,
        }
    }

    /// The path that a name stands for, if it stands for one.
    pub open spec fn named_by(label: Seq<char>) -> Option<ProviderChoice> {
        if label == "cpu"@ {
            Some(ProviderChoice::Cpu)
        } else if label == "directml"@ {
            Some(ProviderChoice::DirectML)
        } else if label == "cuda"@ {
            Some(ProviderChoice::Cuda)
        } else if label == "coreml"@ {
            Some(ProviderChoice::CoreML)
        } else {
            None
        }
    }
}

pub fn provider_label(provider: ProviderChoice) -> (label: &'static str)
    ensures
        label@ == provider.label_text(),
{
    match provider {
        ProviderChoice::Cpu => "cpu",
        ProviderChoice::DirectML => "directml",
        ProviderChoice::Cuda => "cuda",
        ProviderChoice::CoreML => "coreml",
    }
}

pub fn parse_provider_choice(value: &str) -> (r: Option<ProviderChoice>)
    ensures
        r == ProviderChoice::named_by(value@),
{
    if text_eq(value, "cpu") {
        Some(ProviderChoice::Cpu)
    } else if text_eq(value, "directml") {
        Some(ProviderChoice::DirectML)
    } else if text_eq(value, "cuda") {
        Some(ProviderChoice::Cuda)
    } else if text_eq(value, "coreml") {
        Some(ProviderChoice::CoreML)
    } else {
        None
    }
}

/// The names of the paths differ, so a name read back gives the path it was
/// written for.
pub proof fn lemma_label_round_trip(provider: ProviderChoice)
    ensures
        ProviderChoice::named_by(provider.label_text()) == Some(provider),
{
    reveal_strlit("cpu");
    reveal_strlit("directml");
    reveal_strlit("cuda");
    reveal_strlit("coreml");
    assert("cpu"@.len() == 3 && "directml"@.len() == 8 && "cuda"@.len() == 4 && "coreml"@.len()
        == 6);
}

/// How a result reports the path that ran: the processor as `cpu` with no
/// accelerator, any other path as `gpu` with the accelerator's name.
pub fn selected_labels(provider: ProviderChoice) -> (labels: (String, Option<String>))
    ensures
        match provider {
            ProviderChoice::Cpu => labels.0@ == "cpu"@ && labels.1 is None,
            _ => labels.0@ == "gpu"@ && labels.1 is Some && labels.1->0@ == provider.label_text(),
        },
{
    match provider {
        ProviderChoice::Cpu => ("cpu".to_string(), None),
        _ => ("gpu".to_string(), Some(provider_label(provider).to_string())),
    }
}

/// The operating-system families that differ in the accelerators on offer.
#[derive(Debug, Clone, Copy, PartialEq, Eq, Structural)]
pub enum HostOs {
    Windows,
    Linux,
    Apple,
    Other,
}

/// The family of an operating system by its name.
pub fn host_os(name: &str) -> (os: HostOs)
    ensures
        os == if name@ == "windows"@ {
            HostOs::Windows
        } else if name@ == "linux"@ {
            HostOs::Linux
        } else if name@ == "macos"@ || name@ == "ios"@ {
            HostOs::Apple
        } else {
            HostOs::Other
        },
{
    if text_eq(name, "windows") {
        HostOs::Windows
    } else if text_eq(name, "linux") {
        HostOs::Linux
    } else if text_eq(name, "macos") || text_eq(name, "ios") {
        HostOs::Apple
    } else {
        HostOs::Other
    }
}

/// The accelerator candidates for a preference, in order of priority. A
/// named accelerator is the one candidate. Left to `Auto`, the host decides:
/// Windows offers CUDA where its library was found and DirectML in any case,
/// Linux offers CUDA where its library was found, Apple systems offer
/// CoreML.
pub open spec fn gpu_candidate_list(
    preference: GpuBackendPreference,
    os: HostOs,
    cuda_found: bool,
) -> Seq<ProviderChoice> {
    match preference {
        GpuBackendPreference::DirectML => seq![ProviderChoice::DirectML],
        GpuBackendPreference::Cuda => seq![ProviderChoice::Cuda],
        GpuBackendPreference::CoreML => seq![ProviderChoice::CoreML],
        GpuBackendPreference::Metal => seq![ProviderChoice::CoreML],
        GpuBackendPreference::Auto => match os {
            HostOs::Windows => if cuda_found {
                seq![ProviderChoice::Cuda, ProviderChoice::DirectML]
            } else {
                seq![ProviderChoice::DirectML]
            },
            HostOs::Linux => if cuda_found {
                seq![ProviderChoice::Cuda]
            } else {
                Seq::empty()
            },
            HostOs::Apple => seq![ProviderChoice::CoreML],
            HostOs::Other => Seq::empty(),
        },
    }
}

pub fn gpu_candidates(preference: GpuBackendPreference, os: HostOs, cuda_found: bool) -> (providers:
    Vec<ProviderChoice>)
    ensures
        providers@ == gpu_candidate_list(preference, os, cuda_found),
{
    let mut providers: Vec<ProviderChoice> = Vec::new();
    match preference {
        GpuBackendPreference::DirectML => providers.push(ProviderChoice::DirectML),
        GpuBackendPreference::Cuda => providers.push(ProviderChoice::Cuda),
        GpuBackendPreference::CoreML => providers.push(ProviderChoice::CoreML),
        GpuBackendPreference::Metal => providers.push(ProviderChoice::CoreML),
        GpuBackendPreference::Auto => {
            match os {
                HostOs::Windows => {
                    if cuda_found {
                        providers.push(ProviderChoice::Cuda);
                    }
                    providers.push(ProviderChoice::DirectML);
                },
                HostOs::Linux => {
                    if cuda_found {
                        providers.push(ProviderChoice::Cuda);
                    }
                },
                HostOs::Apple => providers.push(ProviderChoice::CoreML),
                HostOs::Other => {},
            }
        },
    }
    assert(providers@ =~= gpu_candidate_list(preference, os, cuda_found));
    providers
}

/// A list without its repetitions: each path once, where it came first.
pub open spec fn deduped(list: Seq<ProviderChoice>) -> Seq<ProviderChoice>
    decreases list.len(),
{
    if list.len() == 0 {
        Seq::empty()
    } else {
        let front = deduped(list.drop_last());
        if front.contains(list.last()) {
            front
        } else {
            front.push(list.last())
        }
    }
}

/// `deduped` keeps every path of the list, adds none, and repeats none.
pub proof fn lemma_deduped(list: Seq<ProviderChoice>)
    ensures
        deduped(list).no_duplicates(),
        forall|p: ProviderChoice| deduped(list).contains(p) <==> list.contains(p),
    decreases list.len(),
{
    if list.len() > 0 {
        let front = list.drop_last();
        let last = list.last();
        lemma_deduped(front);
        let d = deduped(front);
        assert forall|p: ProviderChoice| deduped(list).contains(p) <==> list.contains(p) by {
            if list.contains(p) {
                let i = choose|i: int| 0 <= i < list.len() && list[i] == p;
                if i < front.len() {
                    assert(front[i] == p);
                    assert(front.contains(p));
                    assert(d.contains(p));
                    let j = choose|j: int| 0 <= j < d.len() && d[j] == p;
                    assert(deduped(list)[j] == p);
                } else {
                    if !d.contains(last) {
                        assert(deduped(list)[d.len() as int] == p);
                    }
                }
            }
            if deduped(list).contains(p) {
                let j = choose|j: int| 0 <= j < deduped(list).len() && deduped(list)[j] == p;
                if j < d.len() {
                    assert(d[j] == p);
                    assert(front.contains(p));
                    let i = choose|i: int| 0 <= i < front.len() && front[i] == p;
                    assert(list[i] == p);
                } else {
                    assert(list[list.len() - 1] == p);
                }
            }
        }
    }
}

/// Whether a path is in a list.
pub fn has_provider(list: &Vec<ProviderChoice>, provider: ProviderChoice) -> (r: bool)
    ensures
        r == list@.contains(provider),
{
    let mut i: usize = 0;
    while i < list.len()
        invariant
            i <= list.len(),
            forall|k: int| 0 <= k < i ==> list@[k] != provider,
        decreases list.len() - i,
    {
        if list[i] == provider {
            return true;
        }
        i = i + 1;
    }
    false
}

pub fn dedup_providers(list: Vec<ProviderChoice>) -> (out: Vec<ProviderChoice>)
    ensures
        out@ == deduped(list@),
        out@.no_duplicates(),
        forall|p: ProviderChoice| out@.contains(p) <==> list@.contains(p),
{
    let mut out: Vec<ProviderChoice> = Vec::new();
    let mut i: usize = 0;
    assert(out@ =~= deduped(list@.take(0)));
    while i < list.len()
        invariant
            i <= list.len(),
            out@ == deduped(list@.take(i as int)),
        decreases list.len() - i,
    {
        proof {
            let grown = list@.take(i + 1);
            assert(grown.drop_last() =~= list@.take(i as int));
            assert(grown.last() == list@[i as int]);
        }
        if !has_provider(&out, list[i]) {
            out.push(list[i]);
        }
        i = i + 1;
    }
    assert(list@.take(i as int) =~= list@);
    proof {
        lemma_deduped(list@);
    }
    out
}

/// The candidates for a request, in the order in which they are to be
/// tried: the processor alone where it alone is asked for, else the
/// accelerator candidates with the processor last.
pub open spec fn candidate_list(
    mode: ExecutionProvider,
    preference: GpuBackendPreference,
    os: HostOs,
    cuda_found: bool,
) -> Seq<ProviderChoice> {
    match mode {
        ExecutionProvider::Cpu => seq![ProviderChoice::Cpu],
        _ => gpu_candidate_list(preference, os, cuda_found).push(ProviderChoice::Cpu),
    }
}

proof fn lemma_candidates_have_no_repetition(
    mode: ExecutionProvider,
    preference: GpuBackendPreference,
    os: HostOs,
    cuda_found: bool,
)
    ensures
        deduped(candidate_list(mode, preference, os, cuda_found)) == candidate_list(
            mode,
            preference,
            os,
            cuda_found,
        ),
{
    let list = candidate_list(mode, preference, os, cuda_found);
    reveal_with_fuel(deduped, 4);
    if list.len() == 1 {
        assert(list.drop_last() =~= Seq::empty());
        assert(deduped(list) =~= list);
    } else if list.len() == 2 {
        let a = list.drop_last();
        assert(a.drop_last() =~= Seq::empty());
        assert(deduped(a) =~= a);
        assert(a[0] != list.last());
        assert(deduped(list) =~= list);
    } else {
        let b = list.drop_last();
        let a = b.drop_last();
        assert(a.drop_last() =~= Seq::empty());
        assert(deduped(a) =~= a);
        assert(a[0] != b.last());
        assert(deduped(b) =~= b);
        assert(b[0] != list.last() && b[1] != list.last());
        assert(deduped(list) =~= list);
    }
}

/// The candidates for a request on a host. The list is never empty, repeats
/// no path, and ends with the processor, the fallback for every request.
pub fn candidate_providers(request: &InferenceRequest, os: HostOs, cuda_found: bool) -> (out: Vec<
    ProviderChoice,
>)
    ensures
        out@ == candidate_list(request.execution_provider, request.gpu_backend, os, cuda_found),
        out.len() > 0,
        out@.last() == ProviderChoice::Cpu,
        out@.no_duplicates(),
{
    let mut out: Vec<ProviderChoice> = Vec::new();
    match request.execution_provider {
        ExecutionProvider::Cpu => out.push(ProviderChoice::Cpu),
        _ => {
            out = gpu_candidates(request.gpu_backend, os, cuda_found);
            out.push(ProviderChoice::Cpu);
        },
    }
    assert(out@ =~= candidate_list(
        request.execution_provider,
        request.gpu_backend,
        os,
        cuda_found,
    ));
    proof {
        lemma_candidates_have_no_repetition(
            request.execution_provider,
            request.gpu_backend,
            os,
            cuda_found,
        );
    }
    dedup_providers(out)
}

/// Refuses an empty candidate list.
pub fn require_candidates(candidates: &Vec<ProviderChoice>) -> (r: Result<(), CoreError>)
    ensures
        match r {
            Ok(_) => candidates.len() > 0,
            Err(e) => candidates.len() == 0 && e is Backend && e->Backend_0@
                == "no execution providers available"@,
        },
{
    if candidates.len() == 0 {
        Err(CoreError::Backend("no execution providers available".to_string()))
    } else {
        Ok(())
    }
}

/// A backend error: its kind, a colon, and what happened.
pub fn backend_error(kind: &str, message: String) -> (e: CoreError)
    ensures
        e is Backend,
        e->Backend_0@ == kind@ + ": "@ + message@,
{
    let mut text: String = kind.to_string();
    text.append(": ");
    text.append(message.as_str());
    CoreError::Backend(text)
}

/// The short name of a model in a cache key.
pub open spec fn model_key_text(model: ModelKind) -> Seq<char> {
    match model {
        ModelKind::Rmbg14 => "rmbg14"@,
        ModelKind::Rmbg20 => "rmbg20"@,
        ModelKind::Auto => "auto"@,
    }
}

/// The short name of a variant in a cache key.
pub open spec fn variant_key_text(variant: OnnxVariant) -> Seq<char> {
    match variant {
        OnnxVariant::Fp16 => "fp16"@,
        OnnxVariant::Fp32 => "fp32"@,
        OnnxVariant::Quantized => "quantized"@,
        OnnxVariant::Auto => "auto"@,
    }
}

/// The key under which the chosen path of a context is cached: model,
/// variant, operating system, processor architecture and the path of the
/// accelerator library in use, separated by bars.
pub open spec fn cache_key_text(
    model: ModelKind,
    variant: OnnxVariant,
    os: Seq<char>,
    arch: Seq<char>,
    library: Seq<char>,
) -> Seq<char> {
    model_key_text(model) + "|"@ + variant_key_text(variant) + "|"@ + os + "|"@ + arch + "|"@
        + library
}

pub fn provider_cache_key(
    selected_model: ModelKind,
    request: &InferenceRequest,
    os: &str,
    arch: &str,
    library: &str,
) -> (key: String)
    ensures
        key@ == cache_key_text(selected_model, request.onnx_variant, os@, arch@, library@),
{
    let mut key: String = match selected_model {
        ModelKind::Rmbg14 => "rmbg14".to_string(),
        ModelKind::Rmbg20 => "rmbg20".to_string(),
        ModelKind::Auto => "auto".to_string(),
    };
    key.append("|");
    match request.onnx_variant {
        OnnxVariant::Fp16 => key.append("fp16"),
        OnnxVariant::Fp32 => key.append("fp32"),
        OnnxVariant::Quantized => key.append("quantized"),
        OnnxVariant::Auto => key.append("auto"),
    }
    key.append("|");
    key.append(os);
    key.append("|");
    key.append(arch);
    key.append("|");
    key.append(library);
    key
}

/// The key of a warm session: the weights file, the path it runs on, and
/// the accelerator library in use.
pub fn session_cache_key(model_file: &str, provider: ProviderChoice, library: &str) -> (key: String)
    ensures
        key@ == model_file@ + "|"@ + provider.label_text() + "|"@ + library@,
{
    let mut key: String = model_file.to_string();
    key.append("|");
    key.append(provider_label(provider));
    key.append("|");
    key.append(library);
    key
}

/// Where the chosen paths are kept between runs: under the model root, or
/// nowhere where there is no model root.
pub fn provider_cache_file(model_dir: Option<&str>) -> (file: Option<String>)
    ensures
        match model_dir {
            Some(dir) => file is Some && file->0@ == path_join(
                path_join(dir@, "cache"@),
                "provider-selection.json"@,
            ),
            None => file is Some ==> exists|root: Seq<char>|
                file->0@ == path_join(path_join(root, "cache"@), "provider-selection.json"@),
        },
{
    match resolve_model_paths(model_dir) {
        Ok(paths) => {
            let cache: String = join_path(paths.root.as_str(), "cache");
            Some(join_path(cache.as_str(), "provider-selection.json"))
        },
        Err(_) => None,
    }
}

/// The name of the CUDA driver library on Windows.
pub const WINDOWS_CUDA_LIBRARY: &'static str = "nvcuda.dll";

/// Where the CUDA driver library is looked for on a host: on Windows in the
/// system directory, where the Windows directory is known, and then in each
/// directory of the search path; on Linux at three fixed places; nowhere on
/// any other host. The library counts as found where one of these files
/// exists.
pub open spec fn cuda_probe_list(
    os: HostOs,
    windows_dir: Option<Seq<char>>,
    search_dirs: Seq<Seq<char>>,
) -> Seq<Seq<char>> {
    match os {
        HostOs::Windows => (match windows_dir {
            Some(dir) => seq![path_join(path_join(dir, "System32"@), WINDOWS_CUDA_LIBRARY@)],
            None => Seq::empty(),
        }) + Seq::new(search_dirs.len(), |i: int| path_join(search_dirs[i], WINDOWS_CUDA_LIBRARY@)),
        HostOs::Linux => seq![
            "/usr/lib/x86_64-linux-gnu/libcuda.so.1"@,
            "/usr/lib64/libcuda.so.1"@,
            "/usr/lib/wsl/lib/libcuda.so.1"@,
        ],
        _ => Seq::empty(),
    }
}

pub fn cuda_probe_paths(os: HostOs, windows_dir: Option<&str>, search_dirs: &Vec<String>) -> (paths:
    Vec<String>)
    ensures
        crate::installer::text_views(paths@) == cuda_probe_list(
            os,
            match windows_dir {
                Some(dir) => Some(dir@),
                None => None,
            },
            crate::installer::text_views(search_dirs@),
        ),
{
    let mut paths: Vec<String> = Vec::new();
    match os {
        HostOs::Windows => {
            if let Some(dir) = windows_dir {
                let system: String = join_path(dir, "System32");
                paths.push(join_path(system.as_str(), WINDOWS_CUDA_LIBRARY));
            }
            let ghost head = crate::installer::text_views(paths@);
            assert(head =~= match windows_dir {
                Some(dir) => seq![path_join(path_join(dir@, "System32"@), WINDOWS_CUDA_LIBRARY@)],
                None => Seq::empty(),
            });
            let mut i: usize = 0;
            while i < search_dirs.len()
                invariant
                    i <= search_dirs.len(),
                    paths.len() == head.len() + i,
                    forall|k: int| 0 <= k < head.len() ==> paths[k]@ == head[k],
                    forall|k: int|
                        0 <= k < i ==> paths[head.len() + k]@ == path_join(
                            search_dirs[k]@,
                            WINDOWS_CUDA_LIBRARY@,
                        ),
                decreases search_dirs.len() - i,
            {
                paths.push(join_path(search_dirs[i].as_str(), WINDOWS_CUDA_LIBRARY));
                i = i + 1;
            }
            assert(crate::installer::text_views(paths@) =~= head + Seq::new(
                search_dirs.len() as nat,
                |k: int| path_join(crate::installer::text_views(search_dirs@)[k], WINDOWS_CUDA_LIBRARY@),
            ));
        },
        HostOs::Linux => {
            paths.push("/usr/lib/x86_64-linux-gnu/libcuda.so.1".to_string());
            paths.push("/usr/lib64/libcuda.so.1".to_string());
            paths.push("/usr/lib/wsl/lib/libcuda.so.1".to_string());
        },
        _ => {},
    }
    assert(crate::installer::text_views(paths@) =~= cuda_probe_list(
        os,
        match windows_dir {
            Some(dir) => Some(dir@),
            None => None,
        },
        crate::installer::text_views(search_dirs@),
    ));
    paths
}

} // verus!
