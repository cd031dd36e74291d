//! What is done to one admitted file: the passes in order, then the steps
//! that remove its entry.

use vstd::prelude::*;
use crate::overwrite::FillMode;

verus! {

/// The fill modes of the passes: `passes` random ones, then one zero pass
/// when `zero` is set.
pub open spec fn plan_of(passes: nat, zero: bool) -> Seq<FillMode> {
    Seq::new(passes, |_i: int| FillMode::Random) + if zero {
        seq![FillMode::Zero]
    } else {
        Seq::<FillMode>::empty()
    }
}

/// The passes to run over a file, in order.
pub fn pass_plan(passes: u32, zero: bool) -> (r: Vec<FillMode>)
    ensures
        r@ == plan_of(passes as nat, zero),
{
    let mut plan: Vec<FillMode> = Vec::new();
    let mut k: u32 = 0;
    while k < passes
        invariant
            k <= passes,
            plan@ == Seq::new(k as nat, |_i: int| FillMode::Random),
        decreases passes - k,
    {
        plan.push(FillMode::Random);
        k = k + 1;
        assert(plan@ =~= Seq::new(k as nat, |_i: int| FillMode::Random));
    }
    if zero {
        plan.push(FillMode::Zero);
    }
    assert(plan@ =~= plan_of(passes as nat, zero));
    plan
}

/// How a file's entry is removed once its passes are done.
#[derive(Clone, Copy, Debug, PartialEq, Eq, Structural)]
pub enum RemoveMethod {
    /// Remove the entry as it is.
    Unlink,
    /// Rename to a random name, then remove.
    Wipe,
    /// Rename to a random name, flush the directory, then remove.
    Wipesync,
}

/// One file-system operation of the removal.
#[derive(Clone, Copy, Debug, PartialEq, Eq, Structural)]
pub enum RemovalStep {
    /// Rename the file, in its directory, to its obscured name.
    RenameToObscured,
    /// Flush the directory that holds the file.
    SyncDirectory,
    /// Remove the entry under its obscured name.
    RemoveObscured,
    /// Remove the entry under its own name.
    RemoveOriginal,
}

pub open spec fn steps_of(method: RemoveMethod) -> Seq<RemovalStep> {
    match method {
        RemoveMethod::Unlink => seq![RemovalStep::RemoveOriginal],
        RemoveMethod::Wipe => seq![RemovalStep::RenameToObscured, RemovalStep::RemoveObscured],
        RemoveMethod::Wipesync => seq![
            RemovalStep::RenameToObscured,
            RemovalStep::SyncDirectory,
            RemovalStep::RemoveObscured,
        ],
    }
}

/// The operations of a removal, in the order they are to be made; each
/// waits for the one before to succeed.
pub fn removal_steps(method: RemoveMethod) -> (r: Vec<RemovalStep>)
    ensures
        r@ == steps_of(method),
{
    match method {
        RemoveMethod::Unlink => vec![RemovalStep::RemoveOriginal],
        RemoveMethod::Wipe => vec![RemovalStep::RenameToObscured, RemovalStep::RemoveObscured],
        RemoveMethod::Wipesync => vec![
            RemovalStep::RenameToObscured,
            RemovalStep::SyncDirectory,
            RemovalStep::RemoveObscured,
        ],
    }
}

/// Whether the method renames the file before removing it.
pub fn obscures(method: RemoveMethod) -> (r: bool)
    ensures
        r == (method != RemoveMethod::Unlink),
{
    !matches!(method, RemoveMethod::Unlink)
}

/// The names in a directory after one step, where the file is called
/// `original` and its obscured name is `obscured`.
pub open spec fn after_step(
    names: Set<Seq<char>>,
    step: RemovalStep,
    original: Seq<char>,
    obscured: Seq<char>,
) -> Set<Seq<char>> {
    match step {
        RemovalStep::RenameToObscured => names.remove(original).insert(obscured),
        RemovalStep::SyncDirectory => names,
        RemovalStep::RemoveObscured => names.remove(obscured),
        RemovalStep::RemoveOriginal => names.remove(original),
    }
}

/// The names in a directory after the steps, made in order.
pub open spec fn after_steps(
    names: Set<Seq<char>>,
    steps: Seq<RemovalStep>,
    original: Seq<char>,
    obscured: Seq<char>,
) -> Set<Seq<char>>
    decreases steps.len(),
{
    if steps.len() == 0 {
        names
    } else {
        after_steps(
            after_step(names, steps[0], original, obscured),
            steps.drop_first(),
            original,
            obscured,
        )
    }
}

/// Once every step of a removal has succeeded, the directory holds no entry
/// under the file's name and, where it was renamed, none under its obscured
/// name; every other entry is as it was.
pub proof fn lemma_removal_leaves_no_entry(
    names: Set<Seq<char>>,
    method: RemoveMethod,
    original: Seq<char>,
    obscured: Seq<char>,
)
    ensures
        !after_steps(names, steps_of(method), original, obscured).contains(original),
        method != RemoveMethod::Unlink ==> !after_steps(
            names,
            steps_of(method),
            original,
            obscured,
        ).contains(obscured),
        forall|n: Seq<char>|
            n != original && n != obscured ==> (after_steps(
                names,
                steps_of(method),
                original,
                obscured,
            ).contains(n) <==> names.contains(n)),
{
    let steps = steps_of(method);
    reveal_with_fuel(after_steps, 4);
    match method {
        RemoveMethod::Unlink => {
            assert(steps.drop_first() =~= Seq::<RemovalStep>::empty());
        },
        RemoveMethod::Wipe => {
            assert(steps.drop_first() =~= seq![RemovalStep::RemoveObscured]);
            assert(steps.drop_first().drop_first() =~= Seq::<RemovalStep>::empty());
        },
        RemoveMethod::Wipesync => {
            assert(steps.drop_first() =~= seq![
                RemovalStep::SyncDirectory,
                RemovalStep::RemoveObscured,
            ]);
            assert(steps.drop_first().drop_first() =~= seq![RemovalStep::RemoveObscured]);
            assert(steps.drop_first().drop_first().drop_first()
                =~= Seq::<RemovalStep>::empty());
        },
    }
}

} // verus!
