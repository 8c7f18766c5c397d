use vstd::prelude::*;
use vstd::string::*;
use crate::entry::FsError;
use crate::entry::IoPhase;
use crate::path::file_name;
use crate::path::join;
use crate::path::parent;
use crate::path::path_file_name;
use crate::path::path_joined;
use crate::path::path_parent;

verus! {

/// The decimal digits of `n`, most significant first, with no leading zero.
pub open spec fn decimal(n: nat) -> Seq<char>
    decreases n,
{
    if n < 10 {
        seq![(('0' as nat) + n) as char]
    } else {
        decimal(n / 10).push((('0' as nat) + (n % 10)) as char)
    }
}

/// Relies on the `Display` of `u128`: a number is written in decimal digits.
#[verifier::external_body]
fn decimal_string(n: u128) -> (r: String)
    ensures
        r@ == decimal(n as nat),
{
    n.to_string()
}

/// The name of the temporary sibling that a save of `name` writes first: a
/// reserved marker, the name, a dot and the time of the save in nanoseconds.
/// The marker's leading dot hides it from the file browser.
pub open spec fn temp_file_name(name: Seq<char>, nanos: nat) -> Seq<char> {
    ".~"@ + name + "."@ + decimal(nanos)
}

/// Where a save of `target` at time `nanos` puts its bytes first, and where
/// the parent directory that it makes sure of is.
pub struct PersistPlan {
    pub target: String,
    pub parent: String,
    pub temp: String,
}

/// The name of the temporary file for a save of `name` at time `nanos`.
pub fn temp_name(name: &str, nanos: u128) -> (r: String)
    ensures
        r@ == temp_file_name(name@, nanos as nat),
{
    let mut s = ".~".to_string();
    s.append(name);
    s.append(".");
    let digits = decimal_string(nanos);
    s.append(digits.as_str());
    s
}

/// Plans a save of `target` at time `nanos`: a path with no parent or no file
/// name gives `InvalidPath`; else the temporary file is a sibling of the
/// target named by `temp_file_name`.
pub fn plan_persist(target: &str, nanos: u128) -> (r: Result<PersistPlan, FsError>)
    ensures
        match (path_parent(target@), path_file_name(target@)) {
            (Some(dir), Some(name)) => r matches Ok(plan) && plan.target@ == target@
                && plan.parent@ == dir && plan.temp@ == path_joined(
                dir,
                temp_file_name(name, nanos as nat),
            ),
            _ => r == Err::<PersistPlan, FsError>(FsError::InvalidPath),
        },
{
    let dir = match parent(target) {
        Some(d) => d,
        None => return Err(FsError::InvalidPath),
    };
    let name = match file_name(target) {
        Some(n) => n,
        None => return Err(FsError::InvalidPath),
    };
    let tname = temp_name(name.as_str(), nanos);
    let temp = join(dir.as_str(), tname.as_str());
    Ok(PersistPlan { target: target.to_string(), parent: dir, temp })
}

/// The next thing a save does. Each step but the two final ones is one
/// filesystem call, whose success or failure picks the step after it.
#[derive(Clone, Copy, Debug, PartialEq, Eq, Structural)]
pub enum PersistStep {
    /// Create the parent directory and its ancestors where missing.
    EnsureParent,
    /// Create the temporary file.
    CreateTemp,
    /// Write all the bytes to it.
    WriteTemp,
    /// Flush it to stable storage.
    SyncTemp,
    /// Rename it over the target in one step.
    Replace,
    /// Where that rename failed: remove the existing target.
    RemoveTarget,
    /// Rename the temporary file to the target once more.
    RetryReplace,
    /// Delete the temporary file, best effort, then fail at this phase.
    Discard(IoPhase),
    Done,
    Failed(FsError),
}

/// The save has ended.
pub open spec fn is_final(s: PersistStep) -> bool {
    s is Done || s is Failed
}

/// The step changes what the target path holds.
pub open spec fn touches_target(s: PersistStep) -> bool {
    s is Replace || s is RemoveTarget || s is RetryReplace
}

/// The step after `s`, given whether its call succeeded.
pub open spec fn step_after(s: PersistStep, ok: bool) -> PersistStep {
    match s {
        PersistStep::EnsureParent => if ok {
            PersistStep::CreateTemp
        } else {
            PersistStep::Failed(FsError::IoFailure(IoPhase::Create))
        },
        PersistStep::CreateTemp => if ok {
            PersistStep::WriteTemp
        } else {
            PersistStep::Discard(IoPhase::Create)
        },
        PersistStep::WriteTemp => if ok {
            PersistStep::SyncTemp
        } else {
            PersistStep::Discard(IoPhase::Write)
        },
        PersistStep::SyncTemp => if ok {
            PersistStep::Replace
        } else {
            PersistStep::Discard(IoPhase::Sync)
        },
        PersistStep::Replace => if ok {
            PersistStep::Done
        } else {
            PersistStep::RemoveTarget
        },
        PersistStep::RemoveTarget => PersistStep::RetryReplace,
        PersistStep::RetryReplace => if ok {
            PersistStep::Done
        } else {
            PersistStep::Failed(FsError::IoFailure(IoPhase::Rename))
        },
        PersistStep::Discard(p) => PersistStep::Failed(FsError::IoFailure(p)),
        PersistStep::Done => s,
        PersistStep::Failed(_) => s,
    }
}

/// Where a save that starts at `s` ends when its calls turn out as `outs`.
pub open spec fn run_end(s: PersistStep, outs: Seq<bool>) -> PersistStep
    decreases outs.len(),
{
    if is_final(s) || outs.len() == 0 {
        s
    } else {
        run_end(step_after(s, outs[0]), outs.drop_first())
    }
}

/// Whether a save that starts at `s` reaches, with calls that turn out as
/// `outs`, a step that changes the target.
pub open spec fn run_touches(s: PersistStep, outs: Seq<bool>) -> bool
    decreases outs.len(),
{
    touches_target(s) || (!is_final(s) && outs.len() > 0 && run_touches(
        step_after(s, outs[0]),
        outs.drop_first(),
    ))
}

/// The first step of every save.
pub fn first_step() -> (r: PersistStep)
    ensures
        r == PersistStep::EnsureParent,
{
    PersistStep::EnsureParent
}

/// The step after `s`, given whether its filesystem call succeeded.
pub fn next_step(s: PersistStep, ok: bool) -> (r: PersistStep)
    requires
        !is_final(s),
    ensures
        r == step_after(s, ok),
{
    match s {
        PersistStep::EnsureParent => if ok {
            PersistStep::CreateTemp
        } else {
            PersistStep::Failed(FsError::IoFailure(IoPhase::Create))
        },
        PersistStep::CreateTemp => if ok {
            PersistStep::WriteTemp
        } else {
            PersistStep::Discard(IoPhase::Create)
        },
        PersistStep::WriteTemp => if ok {
            PersistStep::SyncTemp
        } else {
            PersistStep::Discard(IoPhase::Write)
        },
        PersistStep::SyncTemp => if ok {
            PersistStep::Replace
        } else {
            PersistStep::Discard(IoPhase::Sync)
        },
        PersistStep::Replace => if ok {
            PersistStep::Done
        } else {
            PersistStep::RemoveTarget
        },
        PersistStep::RemoveTarget => PersistStep::RetryReplace,
        PersistStep::RetryReplace => if ok {
            PersistStep::Done
        } else {
            PersistStep::Failed(FsError::IoFailure(IoPhase::Rename))
        },
        PersistStep::Discard(p) => PersistStep::Failed(FsError::IoFailure(p)),
        PersistStep::Done => s,
        PersistStep::Failed(_) => s,
    }
}

/// A save whose temporary file cannot be created, written or flushed never
/// changes the target, whatever happens after, and fails at that phase once
/// the cleanup has run.
pub proof fn failed_write_keeps_target(failing: PersistStep, outs: Seq<bool>)
    requires
        failing == PersistStep::CreateTemp || failing == PersistStep::WriteTemp || failing
            == PersistStep::SyncTemp,
    ensures
        !run_touches(failing, seq![false] + outs),
        outs.len() > 0 ==> run_end(failing, seq![false] + outs) == PersistStep::Failed(
            FsError::IoFailure(
                match failing {
                    PersistStep::CreateTemp => IoPhase::Create,
                    PersistStep::WriteTemp => IoPhase::Write,
                    _ => IoPhase::Sync,
                },
            ),
        ),
{
    let all = seq![false] + outs;
    assert(all[0] == false);
    assert(all.drop_first() =~= outs);
    let d = step_after(failing, false);
    assert(d is Discard);
    assert(run_touches(failing, all) == run_touches(d, outs));
    assert(run_end(failing, all) == run_end(d, outs));
    if outs.len() > 0 {
        let f = step_after(d, outs[0]);
        assert(is_final(f));
        assert(!run_touches(f, outs.drop_first()));
        assert(run_end(f, outs.drop_first()) == f);
        assert(run_touches(d, outs) == run_touches(f, outs.drop_first()));
        assert(run_end(d, outs) == run_end(f, outs.drop_first()));
    } else {
        assert(!run_touches(d, outs));
    }
}

/// A save whose calls all succeed replaces the target and ends in `Done`.
pub proof fn clean_save_replaces_target()
    ensures
        run_end(PersistStep::EnsureParent, seq![true, true, true, true, true]) == PersistStep::Done,
        run_touches(PersistStep::EnsureParent, seq![true, true, true, true, true]),
{
    let outs = seq![true, true, true, true, true];
    assert(outs.drop_first() =~= seq![true, true, true, true]);
    assert(outs.drop_first().drop_first() =~= seq![true, true, true]);
    assert(outs.drop_first().drop_first().drop_first() =~= seq![true, true]);
    assert(outs.drop_first().drop_first().drop_first().drop_first() =~= seq![true]);
    assert(outs.drop_first().drop_first().drop_first().drop_first().drop_first() =~= Seq::<
        bool,
    >::empty());
    reveal_with_fuel(run_end, 6);
    reveal_with_fuel(run_touches, 6);
}

} // verus!
