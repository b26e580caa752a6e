//! Installed plugins: install outcomes and progress reporting.
use vstd::prelude::*;

verus! {

/// A plugin as the registry records it.
#[derive(Debug, Clone, PartialEq, Eq)]
pub struct PluginRegistryEntry {
    pub name: String,
    pub display_name: Option<String>,
    pub version: String,
    pub enabled: bool,
    pub installed_path: String,
    pub entry: String,
    pub source: String,
}

/// Outcome of a successful plugin install.
#[derive(Debug, Clone, PartialEq, Eq)]
pub struct PluginInstallResult {
    pub entry: PluginRegistryEntry,
    pub messages: Vec<String>,
}

/// Outcome of removing an installed plugin from disk.
#[derive(Debug, Clone, PartialEq, Eq)]
pub struct PluginRemoveResult {
    pub name: String,
    pub messages: Vec<String>,
}

/// Progress update emitted during a long-running plugin install.
#[derive(Debug, Clone, PartialEq, Eq)]
pub struct InstallProgressUpdate {
    pub message: String,
    pub step: u32,
    pub total: u32,
}

/// How a plugin is installed.
#[derive(Debug, Clone, Copy, PartialEq, Eq, Structural)]
pub enum PluginInstallKind {
    Cargo,
    Artifact,
    Copy,
}

/// The work an install plan asks for, by count.
#[derive(Debug, Clone, PartialEq, Eq)]
pub struct InstallPlanShape {
    pub kind: PluginInstallKind,
    /// Binaries of the main package.
    pub binaries: usize,
    /// Binaries of each extra package, in order.
    pub extra_package_binaries: Vec<usize>,
    /// Files copied.
    pub files: usize,
}

/// Sum of `1 + b` over the extra packages.
pub open spec fn extra_steps(bins: Seq<usize>) -> nat
    decreases bins.len(),
{
    if bins.len() == 0 {
        0
    } else {
        (extra_steps(bins.drop_last()) + 1 + bins.last()) as nat
    }
}

/// Steps of an install: preparing, then per kind the build and staging
/// of a cargo package with its binaries and extra packages, the staging of
/// an artifact with its binaries, or one step per copied file.
pub open spec fn spec_install_steps(plan: InstallPlanShape) -> nat {
    let steps: nat = 1 + match plan.kind {
        PluginInstallKind::Cargo => (2 + plan.binaries + extra_steps(plan.extra_package_binaries@)) as nat,
        PluginInstallKind::Artifact => (1 + plan.binaries) as nat,
        PluginInstallKind::Copy => plan.files as nat,
    };
    steps
}

proof fn lemma_extra_steps_grow(bins: Seq<usize>, i: int)
    requires
        0 <= i <= bins.len(),
    ensures
        extra_steps(bins.take(i)) <= extra_steps(bins),
    decreases bins.len() - i,
{
    if i < bins.len() {
        assert(bins.drop_last().take(i) =~= bins.take(i));
        lemma_extra_steps_grow(bins.drop_last(), i);
    } else {
        assert(bins.take(i) =~= bins);
    }
}

/// Number of progress steps an install will report.
pub fn estimate_install_steps(plan: &InstallPlanShape) -> (r: u32)
    requires
        spec_install_steps(*plan) <= u32::MAX,
    ensures
        r == spec_install_steps(*plan),
{
    let mut steps: u32 = 1;
    match plan.kind {
        PluginInstallKind::Cargo => {
            let bins = &plan.extra_package_binaries;
            proof {
                lemma_extra_steps_grow(bins@, bins@.len() as int);
            }
            steps = steps + 2 + plan.binaries as u32;
            let mut i: usize = 0;
            while i < bins.len()
                invariant
                    i <= bins@.len(),
                    bins@ == plan.extra_package_binaries@,
                    plan.kind == PluginInstallKind::Cargo,
                    spec_install_steps(*plan) <= u32::MAX,
                    steps == 3 + plan.binaries + extra_steps(bins@.take(i as int)),
                decreases bins.len() - i,
            {
                proof {
                    assert(bins@.take(i + 1).drop_last() =~= bins@.take(i as int));
                    lemma_extra_steps_grow(bins@, i + 1);
                }
                steps = steps + 1 + bins[i] as u32;
                i = i + 1;
            }
            assert(bins@.take(i as int) =~= bins@);
        },
        PluginInstallKind::Artifact => {
            steps = steps + 1 + plan.binaries as u32;
        },
        PluginInstallKind::Copy => {
            steps = steps + plan.files as u32;
        },
    }
    steps
}

/// Counts progress steps of an install, never past the total.
#[derive(Debug, Clone, PartialEq, Eq)]
pub struct InstallReporter {
    pub step: u32,
    pub total: u32,
}

impl InstallReporter {
    /// A reporter for `total` steps (at least one).
    pub fn new(total: u32) -> (r: Self)
        ensures
            r.step == 0,
            r.total == if total == 0 { 1 } else { total },
    {
        InstallReporter { step: 0, total: if total == 0 { 1 } else { total } }
    }

    /// Advances one step, staying at the total once it is reached, and
    /// gives the update to show.
    pub fn report(&mut self, message: String) -> (r: InstallProgressUpdate)
        requires
            old(self).step <= old(self).total,
        ensures
            final(self).total == old(self).total,
            final(self).step == if old(self).step < old(self).total { old(self).step + 1 } else { old(self).total as int },
            r.message == message,
            r.step == final(self).step,
            r.total == final(self).total,
    {
        self.step = if self.step < self.total { self.step + 1 } else { self.total };
        InstallProgressUpdate { message, step: self.step, total: self.total }
    }
}

} // verus!
