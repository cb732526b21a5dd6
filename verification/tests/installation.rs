use unbg::digest::digest_of;
use unbg::inference::OnnxVariant;
use unbg::installation::{InstallStep, Installation};
use unbg::installer::{ErrorClass, InstallRequest};
use unbg::registry::{resolve_model_paths, KnownModel, LockFileEntry, ModelLock};
use unbg::verify::verify_models;

fn request(install_all: bool, models: Vec<KnownModel>, verify_only: bool) -> InstallRequest {
    InstallRequest {
        model_dir: Some("/root-dir".to_string()),
        install_all,
        models,
        hf_token_env: "HF_TOKEN".to_string(),
        revision_rmbg14: "main".to_string(),
        revision_rmbg20: "v2".to_string(),
        verify_only,
        onnx_variant: OnnxVariant::Fp16,
    }
}

fn file(path: &str, content: &[u8]) -> LockFileEntry {
    LockFileEntry { path: path.to_string(), size: content.len() as u64, sha256: digest_of(content) }
}

/// A disk that holds the revision directories of some models.
struct Disk {
    dirs: Vec<(KnownModel, Vec<LockFileEntry>)>,
    fetched: Vec<KnownModel>,
    removed: Vec<KnownModel>,
}

impl Disk {
    fn files(&self, model: KnownModel) -> Option<Vec<LockFileEntry>> {
        self.dirs.iter().find(|(m, _)| *m == model).map(|(_, f)| f.clone())
    }

    fn put(&mut self, model: KnownModel, files: Vec<LockFileEntry>) {
        self.dirs.retain(|(m, _)| *m != model);
        self.dirs.push((model, files));
    }
}

/// Runs an install against the disk; what is fetched for a model is its
/// weights file and its configuration.
fn run(disk: &mut Disk, request: &InstallRequest, existing: Option<ModelLock>, stamp: &str) -> unbg::installer::Conclusion {
    let mut install = Installation::begin(request, Some("hf_token")).expect("admitted");
    let mut order = Vec::new();
    loop {
        match install.step() {
            InstallStep::Observe(model) => {
                assert_eq!(install.revision(model), if model == KnownModel::Rmbg14 { "main" } else { "v2" });
                let seen = disk.files(model);
                let listing: Vec<String> =
                    seen.iter().flatten().map(|f| f.path.clone()).collect();
                install.observed(seen.is_some(), &listing);
            }
            InstallStep::Rehash(model) => {
                install.recorded(disk.files(model).expect("observed before"));
                order.push(model);
            }
            step @ (InstallStep::Refetch(model) | InstallStep::Fetch(model)) => {
                if matches!(step, InstallStep::Refetch(_)) {
                    disk.removed.push(model);
                }
                let files = vec![
                    file("onnx/model_fp16.onnx", model.cache_key().as_bytes()),
                    file("config.json", b"{}"),
                ];
                disk.put(model, files.clone());
                disk.fetched.push(model);
                install.recorded(files);
                order.push(model);
            }
            InstallStep::Conclude => break,
        }
    }
    let listings: Vec<Vec<String>> = order
        .iter()
        .map(|m| disk.files(*m).unwrap().iter().map(|f| f.path.clone()).collect())
        .collect();
    install
        .conclude(resolve_model_paths(Some("/root-dir")).unwrap(), &listings, existing, stamp.to_string())
        .expect("concluded")
}

fn observed_for(disk: &Disk, lock: &ModelLock) -> Vec<Vec<LockFileEntry>> {
    lock.models
        .iter()
        .map(|m| KnownModel::from_model_id(&m.model_id).and_then(|k| disk.files(k)).unwrap_or_default())
        .collect()
}

fn shape(lock: &ModelLock) -> Vec<(String, String, String, Vec<(String, u64, String)>)> {
    lock.models
        .iter()
        .map(|m| {
            (
                m.model_id.clone(),
                m.revision.clone(),
                m.source.clone(),
                m.files.iter().map(|f| (f.path.clone(), f.size, f.sha256.clone())).collect(),
            )
        })
        .collect()
}

#[test]
fn first_install_of_all_models() {
    let mut disk = Disk { dirs: vec![], fetched: vec![], removed: vec![] };
    let done = run(&mut disk, &request(true, vec![], false), None, "100");
    assert_eq!(done.report.model_dir, "/root-dir");
    assert_eq!(done.report.installed, vec!["briaai/RMBG-1.4", "briaai/RMBG-2.0"]);
    assert!(done.report.skipped.is_empty());
    assert!(done.report.lockfile_written);
    assert_eq!(disk.fetched, vec![KnownModel::Rmbg14, KnownModel::Rmbg20]);
    let lock = done.lock.unwrap();
    assert_eq!(lock.generated_at, "100");
    assert_eq!(shape(&lock)[0].1, "main");
    assert_eq!(shape(&lock)[1].1, "v2");
    assert!(verify_models(&lock, &observed_for(&disk, &lock)).is_ok());
}

#[test]
fn install_twice_skips_and_leaves_the_lockfile() {
    let mut disk = Disk { dirs: vec![], fetched: vec![], removed: vec![] };
    let req = request(true, vec![], false);
    let first = run(&mut disk, &req, None, "100");
    assert_eq!(first.report.installed, vec!["briaai/RMBG-1.4", "briaai/RMBG-2.0"]);
    let first_lock = first.lock.unwrap();
    let before = shape(&first_lock);
    let schema = first_lock.schema_version;
    let second = run(&mut disk, &req, Some(first_lock), "200");
    assert!(second.report.installed.is_empty());
    assert_eq!(second.report.skipped, vec!["briaai/RMBG-1.4", "briaai/RMBG-2.0"]);
    assert!(second.report.lockfile_written);
    assert_eq!(disk.fetched.len(), 2);
    let lock = second.lock.unwrap();
    assert_eq!(lock.generated_at, "200");
    assert_eq!(lock.schema_version, schema);
    assert_eq!(shape(&lock), before);
    assert!(verify_models(&lock, &observed_for(&disk, &lock)).is_ok());
}

#[test]
fn fetched_and_found_files_are_recorded_alike() {
    let mut disk = Disk { dirs: vec![], fetched: vec![], removed: vec![] };
    let req = request(false, vec![KnownModel::Rmbg14], false);
    let fresh = run(&mut disk, &req, None, "1").lock.unwrap();
    let fetched: Vec<String> = fresh.models[0].files.iter().map(|f| f.path.clone()).collect();
    assert_eq!(fetched, vec!["config.json", "onnx/model_fp16.onnx"]);
    disk.dirs[0].1.reverse();
    let again = run(&mut disk, &req, Some(fresh), "2").lock.unwrap();
    let found: Vec<String> = again.models[0].files.iter().map(|f| f.path.clone()).collect();
    assert_eq!(found, fetched);
    assert!(verify_models(&again, &observed_for(&disk, &again)).is_ok());
}

#[test]
fn leftover_directory_is_removed_and_fetched_again() {
    let mut disk = Disk {
        dirs: vec![(KnownModel::Rmbg14, vec![file("config.json", b"{}")])],
        fetched: vec![],
        removed: vec![],
    };
    let done = run(&mut disk, &request(false, vec![KnownModel::Rmbg14], false), None, "1");
    assert_eq!(done.report.installed, vec!["briaai/RMBG-1.4"]);
    assert!(done.report.skipped.is_empty());
    assert_eq!(disk.removed, vec![KnownModel::Rmbg14]);
    assert_eq!(disk.fetched, vec![KnownModel::Rmbg14]);
}

#[test]
fn verify_only_install_reports_without_a_lockfile() {
    let mut disk = Disk {
        dirs: vec![(KnownModel::Rmbg20, vec![file("onnx/model.onnx", b"w")])],
        fetched: vec![],
        removed: vec![],
    };
    let done = run(&mut disk, &request(false, vec![], true), None, "1");
    assert_eq!(done.report.installed, vec!["briaai/RMBG-1.4"]);
    assert_eq!(done.report.skipped, vec!["briaai/RMBG-2.0"]);
    assert!(!done.report.lockfile_written);
    assert!(done.lock.is_none());
}

#[test]
fn gated_install_is_refused_before_the_first_step() {
    let err = Installation::begin(&request(true, vec![], false), None).unwrap_err();
    assert_eq!(err.class(), ErrorClass::Configuration);
    assert_eq!(err.message(), "missing HF_TOKEN for gated model briaai/RMBG-2.0");
    let mut install = Installation::begin(&request(false, vec![KnownModel::Rmbg14], false), None).unwrap();
    assert_eq!(install.step(), InstallStep::Observe(KnownModel::Rmbg14));
    install.observed(true, &vec!["onnx/model.onnx".to_string()]);
    assert_eq!(install.step(), InstallStep::Rehash(KnownModel::Rmbg14));
    install.recorded(vec![file("onnx/model.onnx", b"w")]);
    assert_eq!(install.step(), InstallStep::Conclude);
}
