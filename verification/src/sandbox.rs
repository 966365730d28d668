//! Where a run keeps its files: the run folder, its workspace and temp
//! directories, and the copy of the manifest it used.

use vstd::prelude::*;
use crate::paths::{file_name, join, join_path, path_file_name};
use crate::text::concat2;

verus! {

/// The folders of one run.
pub struct Sandbox {
    pub run_root: String,
    pub work_dir: String,
    pub temp_dir: String,
}

/// The name the manifest copy gets: `manifest-used-` and the manifest's file
/// name, or `manifest.yaml` when the path has none.
pub open spec fn manifest_copy_name(manifest_path: Seq<char>) -> Seq<char> {
    "manifest-used-"@ + match file_name(manifest_path) {
        Some(n) => n,
        None => "manifest.yaml"@,
    }
}

impl Sandbox {
    /// The folders of run `run_id` under `runs_base`: `<runs_base>/<run_id>`,
    /// with `workspace` and `tmp` inside it. The caller makes the directories.
    pub fn create(runs_base: &str, run_id: &str) -> (s: Sandbox)
        ensures
            s.run_root@ == join(runs_base@, run_id@),
            s.work_dir@ == join(s.run_root@, "workspace"@),
            s.temp_dir@ == join(s.run_root@, "tmp"@),
    {
        let run_root = join_path(runs_base, run_id);
        let work_dir = join_path(run_root.as_str(), "workspace");
        let temp_dir = join_path(run_root.as_str(), "tmp");
        Sandbox { run_root, work_dir, temp_dir }
    }

    /// Where the copy of the manifest at `manifest_path` goes: the run folder,
    /// `manifest-used-` and the manifest's file name. The caller copies the file.
    pub fn copy_manifest(&self, manifest_path: &str) -> (r: String)
        ensures
            r@ == join(self.run_root@, manifest_copy_name(manifest_path@)),
    {
        let name = match path_file_name(manifest_path) {
            Some(n) => concat2("manifest-used-", n.as_str()),
            None => concat2("manifest-used-", "manifest.yaml"),
        };
        join_path(self.run_root.as_str(), name.as_str())
    }
}

} // verus!
