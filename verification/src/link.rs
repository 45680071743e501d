//! The steps that put a category's link and `PATH` entries in place, or take
//! them away. Each procedure is a small state machine: the library says which
//! operation to carry out in each phase and where to go from its outcome; the
//! caller carries out the operations on the file system and the `PATH`.

use vstd::prelude::*;

use crate::model::{Config, ConfigView, ErrorView, VmError};
use crate::paths::{bin_subdir, category_dir, joined_path};

verus! {

/// An operation on the file system or on the user's `PATH`, which the caller carries out.
#[derive(Debug)]
pub enum FsOp {
    /// Report whether something exists at this path (following links).
    CheckExists(String),
    /// Report whether an entry of any kind, a link included, stands at this path.
    CheckEntry(String),
    /// Create this directory and its parents.
    CreateDirAll(String),
    /// Remove the link at this path, where there is one.
    RemoveLink(String),
    /// Create a link at the second path that points at the first.
    CreateLink(String, String),
    /// Add this directory to the user's `PATH`.
    AddToUserPath(String),
    /// Remove this directory from the user's `PATH`.
    RemoveFromUserPath(String),
}

/// An operation, by the characters of its paths.
pub enum FsOpView {
    CheckExists(Seq<char>),
    CheckEntry(Seq<char>),
    CreateDirAll(Seq<char>),
    RemoveLink(Seq<char>),
    CreateLink(Seq<char>, Seq<char>),
    AddToUserPath(Seq<char>),
    RemoveFromUserPath(Seq<char>),
}

impl View for FsOp {
    type V = FsOpView;

    open spec fn view(&self) -> FsOpView {
        match self {
            FsOp::CheckExists(p) => FsOpView::CheckExists(p@),
            FsOp::CheckEntry(p) => FsOpView::CheckEntry(p@),
            FsOp::CreateDirAll(p) => FsOpView::CreateDirAll(p@),
            FsOp::RemoveLink(p) => FsOpView::RemoveLink(p@),
            FsOp::CreateLink(t, l) => FsOpView::CreateLink(t@, l@),
            FsOp::AddToUserPath(p) => FsOpView::AddToUserPath(p@),
            FsOp::RemoveFromUserPath(p) => FsOpView::RemoveFromUserPath(p@),
        }
    }
}

/// Where a procedure goes after an operation.
#[derive(Debug)]
pub enum Step<P> {
    /// On to this phase.
    Next(P),
    /// The procedure is complete.
    Done,
    /// The procedure fails with this error.
    Fail(VmError),
    /// The procedure fails with the error that the last operation reported.
    Abort,
}

/// A step, with its error by the characters of its fields.
pub enum StepView<P> {
    Next(P),
    Done,
    Fail(ErrorView),
    Abort,
}

impl<P: Copy> View for Step<P> {
    type V = StepView<P>;

    open spec fn view(&self) -> StepView<P> {
        match self {
            Step::Next(p) => StepView::Next(*p),
            Step::Done => StepView::Done,
            Step::Fail(e) => StepView::Fail(e@),
            Step::Abort => StepView::Abort,
        }
    }
}

/// Pointing a category's link at the root of its active version.
pub struct Activation {
    /// The root of the active version.
    pub target: String,
    /// The category's link in the configuration directory.
    pub link: String,
    /// `bin` under the link.
    pub link_bin: String,
}

pub struct ActivationView {
    pub target: Seq<char>,
    pub link: Seq<char>,
    pub link_bin: Seq<char>,
}

impl View for Activation {
    type V = ActivationView;

    open spec fn view(&self) -> ActivationView {
        ActivationView { target: self.target@, link: self.link@, link_bin: self.link_bin@ }
    }
}

/// The phases of an activation, in order.
#[derive(Clone, Copy, Debug, PartialEq, Eq)]
pub enum ActivationPhase {
    /// Check that the version's root exists.
    CheckTarget,
    /// Remove the old link.
    RemoveLink,
    /// The old link would not go: remove a `bin` link left inside it by an older layout.
    RemoveInnerLink,
    /// Remove the old link again; this time a failure ends the procedure.
    RetryRemoveLink,
    /// Create the new link.
    CreateLink,
    /// Put the link on the `PATH`.
    AddLinkToPath,
    /// Put `bin` under the link on the `PATH`.
    AddBinToPath,
}

/// What the root of a category's active version is: the error where the
/// category, its active version, or that version's entry is missing.
pub open spec fn spec_active_target(c: ConfigView, cat: Seq<char>) -> Result<Seq<char>, ErrorView> {
    if !c.contains_key(cat) {
        Err(ErrorView::CategoryNotFound(cat))
    } else if c[cat].active is None {
        Err(ErrorView::NoActiveVersion(cat))
    } else if !c[cat].versions.contains_key(c[cat].active->0) {
        Err(ErrorView::VersionNotFound(c[cat].active->0, cat))
    } else {
        Ok(c[cat].versions[c[cat].active->0].path)
    }
}

/// The operation of each phase of an activation.
pub open spec fn spec_activation_op(job: ActivationView, phase: ActivationPhase) -> FsOpView {
    match phase {
        ActivationPhase::CheckTarget => FsOpView::CheckExists(job.target),
        ActivationPhase::RemoveLink => FsOpView::RemoveLink(job.link),
        ActivationPhase::RemoveInnerLink => FsOpView::RemoveLink(job.link_bin),
        ActivationPhase::RetryRemoveLink => FsOpView::RemoveLink(job.link),
        ActivationPhase::CreateLink => FsOpView::CreateLink(job.target, job.link),
        ActivationPhase::AddLinkToPath => FsOpView::AddToUserPath(job.link),
        ActivationPhase::AddBinToPath => FsOpView::AddToUserPath(job.link_bin),
    }
}

/// Where an activation goes once the operation of `phase` succeeded (for a
/// check: answered yes) or not.
pub open spec fn spec_activation_advance(job: ActivationView, phase: ActivationPhase, ok: bool) -> StepView<ActivationPhase> {
    match phase {
        ActivationPhase::CheckTarget => if ok {
            StepView::Next(ActivationPhase::RemoveLink)
        } else {
            StepView::Fail(ErrorView::BinDirMissing(job.target))
        },
        ActivationPhase::RemoveLink => if ok {
            StepView::Next(ActivationPhase::CreateLink)
        } else {
            StepView::Next(ActivationPhase::RemoveInnerLink)
        },
        ActivationPhase::RemoveInnerLink => StepView::Next(ActivationPhase::RetryRemoveLink),
        ActivationPhase::RetryRemoveLink => if ok {
            StepView::Next(ActivationPhase::CreateLink)
        } else {
            StepView::Abort
        },
        ActivationPhase::CreateLink => if ok {
            StepView::Next(ActivationPhase::AddLinkToPath)
        } else {
            StepView::Abort
        },
        ActivationPhase::AddLinkToPath => if ok {
            StepView::Next(ActivationPhase::AddBinToPath)
        } else {
            StepView::Abort
        },
        ActivationPhase::AddBinToPath => if ok {
            StepView::Done
        } else {
            StepView::Abort
        },
    }
}

/// Prepares the rebuilding of a category's link so that it points at the
/// root of the active version (the step that makes `vm use` take effect).
/// It fails where the category, its active version, or that version's
/// entry is missing; the procedure starts at `ActivationPhase::CheckTarget`.
pub fn link_active_bin(cfg: &Config, config_dir: &str, category: &str) -> (r: Result<Activation, VmError>)
    ensures
        r is Ok <==> spec_active_target(cfg@, category@) is Ok,
        r matches Ok(job) ==> job@ == (ActivationView {
            target: spec_active_target(cfg@, category@)->Ok_0,
            link: joined_path(config_dir@, category@),
            link_bin: joined_path(joined_path(config_dir@, category@), "bin"@),
        }),
        r matches Err(e) ==> spec_active_target(cfg@, category@) == Err::<Seq<char>, ErrorView>(e@),
{
    let cat = match cfg.categories.get(category) {
        None => return Err(VmError::CategoryNotFound(category.to_owned())),
        Some(c) => c,
    };
    let active = match &cat.active {
        None => return Err(VmError::NoActiveVersion(category.to_owned())),
        Some(a) => a,
    };
    let entry = match cat.versions.get(active.as_str()) {
        None => return Err(VmError::VersionNotFound(active.clone(), category.to_owned())),
        Some(e) => e,
    };
    let link = category_dir(config_dir, category);
    let link_bin = bin_subdir(link.as_str());
    Ok(Activation { target: entry.path.clone(), link, link_bin })
}

impl Activation {
    /// The operation to carry out in `phase`.
    pub fn op(&self, phase: ActivationPhase) -> (r: FsOp)
        ensures
            r@ == spec_activation_op(self@, phase),
    {
        match phase {
            ActivationPhase::CheckTarget => FsOp::CheckExists(self.target.clone()),
            ActivationPhase::RemoveLink => FsOp::RemoveLink(self.link.clone()),
            ActivationPhase::RemoveInnerLink => FsOp::RemoveLink(self.link_bin.clone()),
            ActivationPhase::RetryRemoveLink => FsOp::RemoveLink(self.link.clone()),
            ActivationPhase::CreateLink => FsOp::CreateLink(self.target.clone(), self.link.clone()),
            ActivationPhase::AddLinkToPath => FsOp::AddToUserPath(self.link.clone()),
            ActivationPhase::AddBinToPath => FsOp::AddToUserPath(self.link_bin.clone()),
        }
    }

    /// Where to go once the operation of `phase` succeeded (for a check:
    /// answered yes) or not.
    pub fn advance(&self, phase: ActivationPhase, ok: bool) -> (r: Step<ActivationPhase>)
        ensures
            r@ == spec_activation_advance(self@, phase, ok),
    {
        match phase {
            ActivationPhase::CheckTarget => if ok {
                Step::Next(ActivationPhase::RemoveLink)
            } else {
                Step::Fail(VmError::BinDirMissing(self.target.clone()))
            },
            ActivationPhase::RemoveLink => if ok {
                Step::Next(ActivationPhase::CreateLink)
            } else {
                Step::Next(ActivationPhase::RemoveInnerLink)
            },
            ActivationPhase::RemoveInnerLink => Step::Next(ActivationPhase::RetryRemoveLink),
            ActivationPhase::RetryRemoveLink => if ok {
                Step::Next(ActivationPhase::CreateLink)
            } else {
                Step::Abort
            },
            ActivationPhase::CreateLink => if ok {
                Step::Next(ActivationPhase::AddLinkToPath)
            } else {
                Step::Abort
            },
            ActivationPhase::AddLinkToPath => if ok {
                Step::Next(ActivationPhase::AddBinToPath)
            } else {
                Step::Abort
            },
            ActivationPhase::AddBinToPath => if ok {
                Step::Done
            } else {
                Step::Abort
            },
        }
    }
}

/// Taking a category's link and `PATH` entries away, once the category is removed.
pub struct Cleanup {
    /// The category's directory (its link) in the configuration directory.
    pub dir: String,
    /// `bin` under it.
    pub dir_bin: String,
}

pub struct CleanupView {
    pub dir: Seq<char>,
    pub dir_bin: Seq<char>,
}

impl View for Cleanup {
    type V = CleanupView;

    open spec fn view(&self) -> CleanupView {
        CleanupView { dir: self.dir@, dir_bin: self.dir_bin@ }
    }
}

/// The phases of a cleanup, in order.
#[derive(Clone, Copy, Debug, PartialEq, Eq)]
pub enum CleanupPhase {
    /// Remove the category's link (never the installation it points at).
    RemoveDir,
    /// The link would not go: remove a `bin` link left inside it by an older layout.
    RemoveInnerLink,
    /// Remove the link again; this time a failure ends the procedure.
    RetryRemoveDir,
    /// Take `bin` under the directory off the `PATH`.
    RemoveBinFromPath,
    /// Take the directory off the `PATH`.
    RemoveDirFromPath,
}

/// The operation of each phase of a cleanup.
pub open spec fn spec_cleanup_op(job: CleanupView, phase: CleanupPhase) -> FsOpView {
    match phase {
        CleanupPhase::RemoveDir => FsOpView::RemoveLink(job.dir),
        CleanupPhase::RemoveInnerLink => FsOpView::RemoveLink(job.dir_bin),
        CleanupPhase::RetryRemoveDir => FsOpView::RemoveLink(job.dir),
        CleanupPhase::RemoveBinFromPath => FsOpView::RemoveFromUserPath(job.dir_bin),
        CleanupPhase::RemoveDirFromPath => FsOpView::RemoveFromUserPath(job.dir),
    }
}

/// Where a cleanup goes once the operation of `phase` succeeded or not.
pub open spec fn spec_cleanup_advance(phase: CleanupPhase, ok: bool) -> StepView<CleanupPhase> {
    match phase {
        CleanupPhase::RemoveDir => if ok {
            StepView::Next(CleanupPhase::RemoveBinFromPath)
        } else {
            StepView::Next(CleanupPhase::RemoveInnerLink)
        },
        CleanupPhase::RemoveInnerLink => StepView::Next(CleanupPhase::RetryRemoveDir),
        CleanupPhase::RetryRemoveDir => if ok {
            StepView::Next(CleanupPhase::RemoveBinFromPath)
        } else {
            StepView::Abort
        },
        CleanupPhase::RemoveBinFromPath => if ok {
            StepView::Next(CleanupPhase::RemoveDirFromPath)
        } else {
            StepView::Abort
        },
        CleanupPhase::RemoveDirFromPath => if ok {
            StepView::Done
        } else {
            StepView::Abort
        },
    }
}

/// Prepares the cleanup of a removed category's directory and `PATH`
/// entries; the procedure starts at `CleanupPhase::RemoveDir`.
pub fn cleanup_category_dir(config_dir: &str, name: &str) -> (r: Cleanup)
    ensures
        r@ == (CleanupView {
            dir: joined_path(config_dir@, name@),
            dir_bin: joined_path(joined_path(config_dir@, name@), "bin"@),
        }),
{
    let dir = category_dir(config_dir, name);
    let dir_bin = bin_subdir(dir.as_str());
    Cleanup { dir, dir_bin }
}

impl Cleanup {
    /// The operation to carry out in `phase`.
    pub fn op(&self, phase: CleanupPhase) -> (r: FsOp)
        ensures
            r@ == spec_cleanup_op(self@, phase),
    {
        match phase {
            CleanupPhase::RemoveDir => FsOp::RemoveLink(self.dir.clone()),
            CleanupPhase::RemoveInnerLink => FsOp::RemoveLink(self.dir_bin.clone()),
            CleanupPhase::RetryRemoveDir => FsOp::RemoveLink(self.dir.clone()),
            CleanupPhase::RemoveBinFromPath => FsOp::RemoveFromUserPath(self.dir_bin.clone()),
            CleanupPhase::RemoveDirFromPath => FsOp::RemoveFromUserPath(self.dir.clone()),
        }
    }

    /// Where to go once the operation of `phase` succeeded or not.
    pub fn advance(&self, phase: CleanupPhase, ok: bool) -> (r: Step<CleanupPhase>)
        ensures
            r@ == spec_cleanup_advance(phase, ok),
    {
        match phase {
            CleanupPhase::RemoveDir => if ok {
                Step::Next(CleanupPhase::RemoveBinFromPath)
            } else {
                Step::Next(CleanupPhase::RemoveInnerLink)
            },
            CleanupPhase::RemoveInnerLink => Step::Next(CleanupPhase::RetryRemoveDir),
            CleanupPhase::RetryRemoveDir => if ok {
                Step::Next(CleanupPhase::RemoveBinFromPath)
            } else {
                Step::Abort
            },
            CleanupPhase::RemoveBinFromPath => if ok {
                Step::Next(CleanupPhase::RemoveDirFromPath)
            } else {
                Step::Abort
            },
            CleanupPhase::RemoveDirFromPath => if ok {
                Step::Done
            } else {
                Step::Abort
            },
        }
    }
}

/// Setting up a new category's directory and `PATH` entries. Both the
/// directory and `bin` under it go on the `PATH`, so that executables are
/// found whether they sit at a version's root or in its `bin`. Running it
/// again changes nothing: the directory is found and not created again, and
/// `env::lemma_setup_twice_changes_nothing` shows the `PATH` stays as it was.
pub struct Setup {
    /// The category's directory in the configuration directory.
    pub dir: String,
    /// `bin` under it.
    pub dir_bin: String,
}

pub struct SetupView {
    pub dir: Seq<char>,
    pub dir_bin: Seq<char>,
}

impl View for Setup {
    type V = SetupView;

    open spec fn view(&self) -> SetupView {
        SetupView { dir: self.dir@, dir_bin: self.dir_bin@ }
    }
}

/// The phases of a setup, in order.
#[derive(Clone, Copy, Debug, PartialEq, Eq)]
pub enum SetupPhase {
    /// Check whether anything stands at the directory's place already.
    CheckDir,
    /// Nothing does: create the directory.
    CreateDir,
    /// Put the directory on the `PATH`.
    AddDirToPath,
    /// Put `bin` under it on the `PATH`.
    AddBinToPath,
}

/// The operation of each phase of a setup.
pub open spec fn spec_setup_op(job: SetupView, phase: SetupPhase) -> FsOpView {
    match phase {
        SetupPhase::CheckDir => FsOpView::CheckEntry(job.dir),
        SetupPhase::CreateDir => FsOpView::CreateDirAll(job.dir),
        SetupPhase::AddDirToPath => FsOpView::AddToUserPath(job.dir),
        SetupPhase::AddBinToPath => FsOpView::AddToUserPath(job.dir_bin),
    }
}

/// Where a setup goes once the operation of `phase` succeeded (for the
/// check: found an entry) or not.
pub open spec fn spec_setup_advance(phase: SetupPhase, ok: bool) -> StepView<SetupPhase> {
    match phase {
        SetupPhase::CheckDir => if ok {
            StepView::Next(SetupPhase::AddDirToPath)
        } else {
            StepView::Next(SetupPhase::CreateDir)
        },
        SetupPhase::CreateDir => if ok {
            StepView::Next(SetupPhase::AddDirToPath)
        } else {
            StepView::Abort
        },
        SetupPhase::AddDirToPath => if ok {
            StepView::Next(SetupPhase::AddBinToPath)
        } else {
            StepView::Abort
        },
        SetupPhase::AddBinToPath => if ok {
            StepView::Done
        } else {
            StepView::Abort
        },
    }
}

/// Prepares the setup of a new category's directory and `PATH` entries;
/// the procedure starts at `SetupPhase::CheckDir`, and on completion the
/// category's directory is `dir`.
pub fn init_category_dir(config_dir: &str, name: &str) -> (r: Setup)
    ensures
        r@ == (SetupView {
            dir: joined_path(config_dir@, name@),
            dir_bin: joined_path(joined_path(config_dir@, name@), "bin"@),
        }),
{
    let dir = category_dir(config_dir, name);
    let dir_bin = bin_subdir(dir.as_str());
    Setup { dir, dir_bin }
}

impl Setup {
    /// The operation to carry out in `phase`.
    pub fn op(&self, phase: SetupPhase) -> (r: FsOp)
        ensures
            r@ == spec_setup_op(self@, phase),
            phase == SetupPhase::AddDirToPath ==> r@ == FsOpView::AddToUserPath(self@.dir),
            phase == SetupPhase::AddBinToPath ==> r@ == FsOpView::AddToUserPath(self@.dir_bin),
    {
        match phase {
            SetupPhase::CheckDir => FsOp::CheckEntry(self.dir.clone()),
            SetupPhase::CreateDir => FsOp::CreateDirAll(self.dir.clone()),
            SetupPhase::AddDirToPath => FsOp::AddToUserPath(self.dir.clone()),
            SetupPhase::AddBinToPath => FsOp::AddToUserPath(self.dir_bin.clone()),
        }
    }

    /// Where to go once the operation of `phase` succeeded (for the check:
    /// found an entry) or not.
    pub fn advance(&self, phase: SetupPhase, ok: bool) -> (r: Step<SetupPhase>)
        ensures
            r@ == spec_setup_advance(phase, ok),
    {
        match phase {
            SetupPhase::CheckDir => if ok {
                Step::Next(SetupPhase::AddDirToPath)
            } else {
                Step::Next(SetupPhase::CreateDir)
            },
            SetupPhase::CreateDir => if ok {
                Step::Next(SetupPhase::AddDirToPath)
            } else {
                Step::Abort
            },
            SetupPhase::AddDirToPath => if ok {
                Step::Next(SetupPhase::AddBinToPath)
            } else {
                Step::Abort
            },
            SetupPhase::AddBinToPath => if ok {
                Step::Done
            } else {
                Step::Abort
            },
        }
    }
}

/// The operations a procedure carries out from `phase`, given the outcome
/// of each in turn, and where it stands when the outcomes run out or it ends.
pub open spec fn spec_run<P>(
    op: spec_fn(P) -> FsOpView,
    advance: spec_fn(P, bool) -> StepView<P>,
    phase: P,
    outcomes: Seq<bool>,
) -> (Seq<FsOpView>, StepView<P>)
    decreases outcomes.len(),
{
    if outcomes.len() == 0 {
        (Seq::<FsOpView>::empty(), StepView::Next(phase))
    } else {
        match advance(phase, outcomes[0]) {
            StepView::Next(p) => {
                let rest = spec_run(op, advance, p, outcomes.drop_first());
                (seq![op(phase)] + rest.0, rest.1)
            },
            end => (seq![op(phase)], end),
        }
    }
}

/// A run of an activation.
pub open spec fn activation_run(job: ActivationView, outcomes: Seq<bool>) -> (Seq<FsOpView>, StepView<ActivationPhase>) {
    spec_run(
        |p: ActivationPhase| spec_activation_op(job, p),
        |p: ActivationPhase, ok: bool| spec_activation_advance(job, p, ok),
        ActivationPhase::CheckTarget,
        outcomes,
    )
}

/// A run of a cleanup.
pub open spec fn cleanup_run(job: CleanupView, outcomes: Seq<bool>) -> (Seq<FsOpView>, StepView<CleanupPhase>) {
    spec_run(
        |p: CleanupPhase| spec_cleanup_op(job, p),
        |p: CleanupPhase, ok: bool| spec_cleanup_advance(p, ok),
        CleanupPhase::RemoveDir,
        outcomes,
    )
}

/// A run of a setup.
pub open spec fn setup_run(job: SetupView, outcomes: Seq<bool>) -> (Seq<FsOpView>, StepView<SetupPhase>) {
    spec_run(
        |p: SetupPhase| spec_setup_op(job, p),
        |p: SetupPhase, ok: bool| spec_setup_advance(p, ok),
        SetupPhase::CheckDir,
        outcomes,
    )
}

/// An activation whose target exists checks it, replaces the link so that
/// it points at the target, and puts the link and `bin` under it on the
/// `PATH`, then ends. Where the old link will not go, a `bin` link inside
/// it is removed (whatever comes of that) and the link removed again.
/// Where the target is missing, it fails naming the target, having done
/// nothing else; where creating the link fails, it stops there.
pub proof fn lemma_activation_runs(job: ActivationView, inner: bool)
    ensures
        activation_run(job, seq![true, true, true, true, true]).0 == seq![
            FsOpView::CheckExists(job.target),
            FsOpView::RemoveLink(job.link),
            FsOpView::CreateLink(job.target, job.link),
            FsOpView::AddToUserPath(job.link),
            FsOpView::AddToUserPath(job.link_bin),
        ],
        activation_run(job, seq![true, true, true, true, true]).1 == StepView::<ActivationPhase>::Done,
        activation_run(job, seq![true, false, inner, true, true, true, true]).0 == seq![
            FsOpView::CheckExists(job.target),
            FsOpView::RemoveLink(job.link),
            FsOpView::RemoveLink(job.link_bin),
            FsOpView::RemoveLink(job.link),
            FsOpView::CreateLink(job.target, job.link),
            FsOpView::AddToUserPath(job.link),
            FsOpView::AddToUserPath(job.link_bin),
        ],
        activation_run(job, seq![true, false, inner, true, true, true, true]).1
            == StepView::<ActivationPhase>::Done,
        activation_run(job, seq![false]).0 == seq![FsOpView::CheckExists(job.target)],
        activation_run(job, seq![false]).1 == StepView::<ActivationPhase>::Fail(
            ErrorView::BinDirMissing(job.target),
        ),
        activation_run(job, seq![true, true, false]).1 == StepView::<ActivationPhase>::Abort,
{
    reveal_with_fuel(spec_run, 8);
    let a = seq![true, true, true, true, true];
    assert(a.drop_first() =~= seq![true, true, true, true]);
    assert(a.drop_first().drop_first() =~= seq![true, true, true]);
    assert(a.drop_first().drop_first().drop_first() =~= seq![true, true]);
    assert(a.drop_first().drop_first().drop_first().drop_first() =~= seq![true]);
    assert(a.drop_first().drop_first().drop_first().drop_first().drop_first() =~= Seq::<bool>::empty());
    let b = seq![true, false, inner, true, true, true, true];
    assert(b.drop_first() =~= seq![false, inner, true, true, true, true]);
    assert(b.drop_first().drop_first() =~= seq![inner, true, true, true, true]);
    assert(b.drop_first().drop_first().drop_first() =~= seq![true, true, true, true]);
    let c = seq![true, true, false];
    assert(c.drop_first() =~= seq![true, false]);
    assert(c.drop_first().drop_first() =~= seq![false]);
    assert(seq![false].drop_first() =~= Seq::<bool>::empty());
    assert(activation_run(job, a).0 =~= seq![
        FsOpView::CheckExists(job.target),
        FsOpView::RemoveLink(job.link),
        FsOpView::CreateLink(job.target, job.link),
        FsOpView::AddToUserPath(job.link),
        FsOpView::AddToUserPath(job.link_bin),
    ]);
    assert(activation_run(job, b).0 =~= seq![
        FsOpView::CheckExists(job.target),
        FsOpView::RemoveLink(job.link),
        FsOpView::RemoveLink(job.link_bin),
        FsOpView::RemoveLink(job.link),
        FsOpView::CreateLink(job.target, job.link),
        FsOpView::AddToUserPath(job.link),
        FsOpView::AddToUserPath(job.link_bin),
    ]);
}

/// A cleanup removes the category's link and takes `bin` under it and the
/// directory itself off the `PATH`, then ends. Where the link will not go,
/// a `bin` link inside it is removed (whatever comes of that) and the link
/// removed again; where that fails too, it stops there.
pub proof fn lemma_cleanup_runs(job: CleanupView, inner: bool)
    ensures
        cleanup_run(job, seq![true, true, true]).0 == seq![
            FsOpView::RemoveLink(job.dir),
            FsOpView::RemoveFromUserPath(job.dir_bin),
            FsOpView::RemoveFromUserPath(job.dir),
        ],
        cleanup_run(job, seq![true, true, true]).1 == StepView::<CleanupPhase>::Done,
        cleanup_run(job, seq![false, inner, true, true, true]).0 == seq![
            FsOpView::RemoveLink(job.dir),
            FsOpView::RemoveLink(job.dir_bin),
            FsOpView::RemoveLink(job.dir),
            FsOpView::RemoveFromUserPath(job.dir_bin),
            FsOpView::RemoveFromUserPath(job.dir),
        ],
        cleanup_run(job, seq![false, inner, true, true, true]).1 == StepView::<CleanupPhase>::Done,
        cleanup_run(job, seq![false, inner, false]).1 == StepView::<CleanupPhase>::Abort,
{
    reveal_with_fuel(spec_run, 6);
    let a = seq![true, true, true];
    assert(a.drop_first() =~= seq![true, true]);
    assert(a.drop_first().drop_first() =~= seq![true]);
    assert(seq![true].drop_first() =~= Seq::<bool>::empty());
    let b = seq![false, inner, true, true, true];
    assert(b.drop_first() =~= seq![inner, true, true, true]);
    assert(b.drop_first().drop_first() =~= seq![true, true, true]);
    let c = seq![false, inner, false];
    assert(c.drop_first() =~= seq![inner, false]);
    assert(c.drop_first().drop_first() =~= seq![false]);
    assert(cleanup_run(job, a).0 =~= seq![
        FsOpView::RemoveLink(job.dir),
        FsOpView::RemoveFromUserPath(job.dir_bin),
        FsOpView::RemoveFromUserPath(job.dir),
    ]);
    assert(cleanup_run(job, b).0 =~= seq![
        FsOpView::RemoveLink(job.dir),
        FsOpView::RemoveLink(job.dir_bin),
        FsOpView::RemoveLink(job.dir),
        FsOpView::RemoveFromUserPath(job.dir_bin),
        FsOpView::RemoveFromUserPath(job.dir),
    ]);
}

/// A setup puts both the category's directory and `bin` under it on the
/// `PATH`, then ends; it creates the directory only where nothing stood at
/// its place, and stops where creating it fails.
pub proof fn lemma_setup_runs(job: SetupView)
    ensures
        setup_run(job, seq![true, true, true]).0 == seq![
            FsOpView::CheckEntry(job.dir),
            FsOpView::AddToUserPath(job.dir),
            FsOpView::AddToUserPath(job.dir_bin),
        ],
        setup_run(job, seq![true, true, true]).1 == StepView::<SetupPhase>::Done,
        setup_run(job, seq![false, true, true, true]).0 == seq![
            FsOpView::CheckEntry(job.dir),
            FsOpView::CreateDirAll(job.dir),
            FsOpView::AddToUserPath(job.dir),
            FsOpView::AddToUserPath(job.dir_bin),
        ],
        setup_run(job, seq![false, true, true, true]).1 == StepView::<SetupPhase>::Done,
        setup_run(job, seq![false, false]).1 == StepView::<SetupPhase>::Abort,
{
    reveal_with_fuel(spec_run, 5);
    let a = seq![true, true, true];
    assert(a.drop_first() =~= seq![true, true]);
    assert(a.drop_first().drop_first() =~= seq![true]);
    assert(seq![true].drop_first() =~= Seq::<bool>::empty());
    let b = seq![false, true, true, true];
    assert(b.drop_first() =~= seq![true, true, true]);
    assert(seq![false, false].drop_first() =~= seq![false]);
    assert(seq![false].drop_first() =~= Seq::<bool>::empty());
    assert(setup_run(job, a).0 =~= seq![
        FsOpView::CheckEntry(job.dir),
        FsOpView::AddToUserPath(job.dir),
        FsOpView::AddToUserPath(job.dir_bin),
    ]);
    assert(setup_run(job, b).0 =~= seq![
        FsOpView::CheckEntry(job.dir),
        FsOpView::CreateDirAll(job.dir),
        FsOpView::AddToUserPath(job.dir),
        FsOpView::AddToUserPath(job.dir_bin),
    ]);
}

} // verus!
