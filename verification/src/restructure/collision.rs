//! Finding a free destination: a taken path gives way to the same name with
//! `-1`, `-2`, ... set before its extension.

use vstd::prelude::*;
use crate::paths::{ext_start, ext_start_of, lemma_path_parts};
use crate::text::{chars_of, string_of, slice_of, push_all, push_decimal, decimal, lemma_decimal_nonempty};

verus! {

/// How many numbered names are tried.
pub const MAX_ATTEMPTS: u32 = 100;

/// The name tried at `attempt`: the target itself at 0, else the target with
/// `-{attempt}` before its extension.
pub open spec fn candidate(target: Seq<char>, attempt: nat) -> Seq<char> {
    if attempt == 0 {
        target
    } else {
        target.take(ext_start(target)) + seq!['-'] + decimal(attempt) + target.skip(
            ext_start(target),
        )
    }
}

/// The first attempt from `from` on, up to the last, whose name is not among `taken`.
pub open spec fn first_free(target: Seq<char>, taken: Set<Seq<char>>, from: nat) -> Option<nat>
    decreases MAX_ATTEMPTS + 1 - from,
{
    if from > MAX_ATTEMPTS {
        None
    } else if !taken.contains(candidate(target, from)) {
        Some(from)
    } else {
        first_free(target, taken, from + 1)
    }
}

/// The destination that stands for `target` when the paths of `taken` exist:
/// the target where it is free, else the first free numbered name, else, with
/// all of them taken, the target after all.
pub open spec fn resolved(target: Seq<char>, taken: Set<Seq<char>>) -> Seq<char> {
    match first_free(target, taken, 0) {
        Some(attempt) => candidate(target, attempt),
        None => target,
    }
}

/// What follows a probe.
#[derive(Debug)]
pub enum Resolution {
    /// The destination is decided.
    Settled(String),
    /// Whether `path` exists is to be found out next.
    Probe { path: String, attempt: u32 },
}

/// A `Resolution` with its paths as character sequences.
pub enum ResolutionView {
    Settled(Seq<char>),
    Probe { path: Seq<char>, attempt: nat },
}

impl View for Resolution {
    type V = ResolutionView;

    open spec fn view(&self) -> ResolutionView {
        match *self {
            Resolution::Settled(path) => ResolutionView::Settled(path@),
            Resolution::Probe { path, attempt } => ResolutionView::Probe {
                path: path@,
                attempt: attempt as nat,
            },
        }
    }
}

/// What follows when the name tried at `attempt` was found to exist or not:
/// a free name is taken; after the last attempt the target stands; else the
/// next name is tried.
pub open spec fn resolve_step(target: Seq<char>, attempt: nat, exists: bool) -> ResolutionView {
    if attempt > MAX_ATTEMPTS {
        ResolutionView::Settled(target)
    } else if !exists {
        ResolutionView::Settled(candidate(target, attempt))
    } else if attempt == MAX_ATTEMPTS {
        ResolutionView::Settled(target)
    } else {
        ResolutionView::Probe { path: candidate(target, attempt + 1), attempt: attempt + 1 }
    }
}

/// Where the steps end that begin with the probe of `attempt`, when the paths
/// of `taken` exist.
pub open spec fn resolve_from(target: Seq<char>, taken: Set<Seq<char>>, attempt: nat) -> Seq<char>
    decreases MAX_ATTEMPTS + 1 - attempt,
{
    match resolve_step(target, attempt, taken.contains(candidate(target, attempt))) {
        ResolutionView::Settled(path) => path,
        ResolutionView::Probe { path, attempt: next } => if attempt < MAX_ATTEMPTS {
            resolve_from(target, taken, attempt + 1)
        } else {
            target
        },
    }
}

/// The name tried at `attempt`.
pub fn candidate_path(target: &str, attempt: u32) -> (out: String)
    ensures
        out@ == candidate(target@, attempt as nat),
{
    if attempt == 0 {
        return string_of(&chars_of(target));
    }
    let t = chars_of(target);
    let e = ext_start_of(&t);
    let mut out = slice_of(&t, 0, e);
    out.push('-');
    push_decimal(&mut out, attempt as u64);
    push_all(&mut out, &slice_of(&t, e, t.len()));
    assert(out@ =~= candidate(target@, attempt as nat));
    string_of(&out)
}

/// One step of finding a free destination for `target_path`: told whether the
/// name tried at `attempt` exists, says what the destination is or what to
/// probe next. The first probe, attempt 0, is that of the target itself.
pub fn resolve_collision(target_path: &str, attempt: u32, exists: bool) -> (r: Resolution)
    ensures
        r@ == resolve_step(target_path@, attempt as nat, exists),
{
    if attempt > MAX_ATTEMPTS {
        Resolution::Settled(string_of(&chars_of(target_path)))
    } else if !exists {
        Resolution::Settled(candidate_path(target_path, attempt))
    } else if attempt == MAX_ATTEMPTS {
        Resolution::Settled(string_of(&chars_of(target_path)))
    } else {
        Resolution::Probe { path: candidate_path(target_path, attempt + 1), attempt: attempt + 1 }
    }
}

/// Followed from the probe of `attempt`, the steps end at the first free name
/// from there on, or at the target where none is free.
pub proof fn lemma_steps_find_first_free(target: Seq<char>, taken: Set<Seq<char>>, attempt: nat)
    requires
        attempt <= MAX_ATTEMPTS,
    ensures
        resolve_from(target, taken, attempt) == match first_free(target, taken, attempt) {
            Some(free) => candidate(target, free),
            None => target,
        },
    decreases MAX_ATTEMPTS - attempt,
{
    if taken.contains(candidate(target, attempt)) {
        if attempt < MAX_ATTEMPTS {
            lemma_steps_find_first_free(target, taken, attempt + 1);
        } else {
            assert(first_free(target, taken, attempt + 1) is None);
        }
    }
}

/// Followed from the probe of the target itself, the steps end at the
/// destination that `resolved` names.
pub proof fn lemma_steps_resolve(target: Seq<char>, taken: Set<Seq<char>>)
    ensures
        resolve_from(target, taken, 0) == resolved(target, taken),
{
    lemma_steps_find_first_free(target, taken, 0);
}

/// What `first_free` finds is free, and every name tried before it is taken.
pub proof fn lemma_first_free(target: Seq<char>, taken: Set<Seq<char>>, from: nat)
    ensures
        match first_free(target, taken, from) {
            Some(free) => from <= free <= MAX_ATTEMPTS && !taken.contains(candidate(target, free))
                && forall|k: nat| from <= k < free ==> taken.contains(#[trigger] candidate(target, k)),
            None => forall|k: nat|
                from <= k <= MAX_ATTEMPTS ==> taken.contains(#[trigger] candidate(target, k)),
        },
    decreases MAX_ATTEMPTS + 1 - from,
{
    if from <= MAX_ATTEMPTS && taken.contains(candidate(target, from)) {
        lemma_first_free(target, taken, from + 1);
    }
}

/// A target that exists is never the destination while one of its numbered
/// names is free: the destination is then the first free one, `-1` before
/// `-2`, and it does not exist.
pub proof fn lemma_taken_target_is_avoided(target: Seq<char>, taken: Set<Seq<char>>, free: nat)
    requires
        taken.contains(target),
        1 <= free <= MAX_ATTEMPTS,
        !taken.contains(candidate(target, free)),
    ensures
        resolved(target, taken) != target,
        !taken.contains(resolved(target, taken)),
        !taken.contains(candidate(target, 1)) ==> resolved(target, taken) == candidate(target, 1),
        taken.contains(candidate(target, 1)) && !taken.contains(candidate(target, 2)) ==> resolved(
            target,
            taken,
        ) == candidate(target, 2),
{
    lemma_first_free(target, taken, 0);
    let found = first_free(target, taken, 0);
    assert(found is Some) by {
        if found is None {
            assert(taken.contains(candidate(target, free)));
        }
    }
    let k = found->0;
    assert(k != 0);
    if !taken.contains(candidate(target, 1)) {
        if k > 1 {
            assert(taken.contains(candidate(target, 1)));
        }
    } else if !taken.contains(candidate(target, 2)) {
        if k > 2 {
            assert(taken.contains(candidate(target, 2)));
        }
        if k == 1 {
        }
    }
}

/// A numbered name is longer than the target, and so differs from it.
pub proof fn lemma_candidate_shape(target: Seq<char>, attempt: nat)
    requires
        attempt >= 1,
    ensures
        candidate(target, attempt).len() > target.len(),
        candidate(target, attempt) != target,
{
    lemma_path_parts(target);
    lemma_decimal_nonempty(attempt);
}

} // verus!
