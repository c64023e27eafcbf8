//! Reading the user's reply to a presented plan.
//!
//! A reply is read without regard to the white space around it or to the case
//! of its letters. `cancel` calls the plan off; `apply` and `apply all` select
//! every operation; `apply` followed by group numbers selects those groups.
//! Anything else is not understood.

use vstd::prelude::*;
use crate::text::{chars_of, string_of, same_text, begins_with, slice_of, decimal, push_str, push_decimal};
use crate::words::{lowered, trimmed, words, rows, numeral_value, lower_of, trim_of, words_of, parse_numeral};
use crate::restructure::operations::{MoveOperation, MoveOperationView, RestructurePlan, op_views, group_of, group_count, videos_among, copy_operations, lemma_videos_among_monotonic};

verus! {

/// Why a reply selected nothing.
#[derive(Debug)]
pub enum ReplyError {
    /// The user called the plan off.
    Cancelled,
    /// A word after `apply` is no number.
    InvalidIndexToken(String),
    /// A number after `apply` names no group of the plan.
    IndexOutOfRange { index: u64, max: u64 },
    /// No operation was selected.
    EmptySelection,
    /// The reply has none of the accepted forms.
    UnrecognizedReply,
}

/// A `ReplyError` with its text as a character sequence.
pub enum ReplyErrorView {
    Cancelled,
    InvalidIndexToken(Seq<char>),
    IndexOutOfRange { index: nat, max: nat },
    EmptySelection,
    UnrecognizedReply,
}

impl View for ReplyError {
    type V = ReplyErrorView;

    open spec fn view(&self) -> ReplyErrorView {
        match *self {
            ReplyError::Cancelled => ReplyErrorView::Cancelled,
            ReplyError::InvalidIndexToken(word) => ReplyErrorView::InvalidIndexToken(word@),
            ReplyError::IndexOutOfRange { index, max } => ReplyErrorView::IndexOutOfRange {
                index: index as nat,
                max: max as nat,
            },
            ReplyError::EmptySelection => ReplyErrorView::EmptySelection,
            ReplyError::UnrecognizedReply => ReplyErrorView::UnrecognizedReply,
        }
    }
}

impl ReplyErrorView {
    /// The words shown to the user.
    pub open spec fn message_text(self) -> Seq<char> {
        match self {
            ReplyErrorView::Cancelled => "Restructure cancelled"@,
            ReplyErrorView::InvalidIndexToken(word) => "Invalid number: "@ + word,
            ReplyErrorView::IndexOutOfRange { index, max } => "Index "@ + decimal(index)
                + " out of range (1-"@ + decimal(max) + seq![')'],
            ReplyErrorView::EmptySelection => "No valid operations selected"@,
            ReplyErrorView::UnrecognizedReply =>
                "Invalid reply. Use 'apply all', 'apply 1 2 5', or 'cancel'"@,
        }
    }
}

impl ReplyError {
    /// The words shown to the user.
    pub fn message(&self) -> (out: String)
        ensures
            out@ == self@.message_text(),
    {
        let mut out: Vec<char> = Vec::new();
        match self {
            ReplyError::Cancelled => {
                push_str(&mut out, "Restructure cancelled");
            },
            ReplyError::InvalidIndexToken(word) => {
                push_str(&mut out, "Invalid number: ");
                push_str(&mut out, word.as_str());
            },
            ReplyError::IndexOutOfRange { index, max } => {
                push_str(&mut out, "Index ");
                push_decimal(&mut out, *index);
                push_str(&mut out, " out of range (1-");
                push_decimal(&mut out, *max);
                out.push(')');
            },
            ReplyError::EmptySelection => {
                push_str(&mut out, "No valid operations selected");
            },
            ReplyError::UnrecognizedReply => {
                push_str(&mut out, "Invalid reply. Use 'apply all', 'apply 1 2 5', or 'cancel'");
            },
        }
        assert(out@ =~= self@.message_text());
        string_of(&out)
    }
}

/// The first of `tokens` that is no number, if there is one.
pub open spec fn first_invalid(tokens: Seq<Seq<char>>) -> Option<Seq<char>>
    decreases tokens.len(),
{
    if tokens.len() == 0 {
        None
    } else {
        match first_invalid(tokens.drop_last()) {
            Some(word) => Some(word),
            None => if numeral_value(tokens.last()) is None {
                Some(tokens.last())
            } else {
                None
            },
        }
    }
}

/// The numbers that `tokens` write, one for one.
pub open spec fn requested(tokens: Seq<Seq<char>>) -> Seq<nat> {
    tokens.map_values(|word: Seq<char>| numeral_value(word)->0 as nat)
}

/// The numbers of a list, as naturals.
pub open spec fn naturals(indices: Seq<u64>) -> Seq<nat> {
    indices.map_values(|index: u64| index as nat)
}

/// A number that names no group of a plan of `max` groups.
pub open spec fn out_of_range(index: nat, max: nat) -> bool {
    index == 0 || index > max
}

/// The least of `indices` that is out of range, if there is one.
pub open spec fn least_out_of_range(indices: Seq<nat>, max: nat) -> Option<nat>
    decreases indices.len(),
{
    if indices.len() == 0 {
        None
    } else {
        let rest = least_out_of_range(indices.drop_last(), max);
        let last = indices.last();
        if !out_of_range(last, max) {
            rest
        } else if rest is Some && rest->0 <= last {
            rest
        } else {
            Some(last)
        }
    }
}

/// Those of the first `n` operations whose group number is among `indices`,
/// in plan order.
pub open spec fn selection(ops: Seq<MoveOperationView>, indices: Seq<nat>, n: int) -> Seq<
    MoveOperationView,
>
    decreases n,
{
    if n <= 0 {
        Seq::empty()
    } else if indices.contains(group_of(ops, n - 1)) {
        selection(ops, indices, n - 1).push(ops[n - 1])
    } else {
        selection(ops, indices, n - 1)
    }
}

/// What a list of requested group numbers selects from a plan: the
/// operations of those groups, once each and in plan order. It selects nothing
/// where a number is out of range, and says which: the least such number.
pub open spec fn select_groups(indices: Seq<nat>, ops: Seq<MoveOperationView>) -> Result<
    Seq<MoveOperationView>,
    ReplyErrorView,
> {
    match least_out_of_range(indices, group_count(ops)) {
        Some(index) => Err(ReplyErrorView::IndexOutOfRange { index, max: group_count(ops) }),
        None => if selection(ops, indices, ops.len() as int).len() == 0 {
            Err(ReplyErrorView::EmptySelection)
        } else {
            Ok(selection(ops, indices, ops.len() as int))
        },
    }
}

/// What the words after `apply` select from a plan.
pub open spec fn select_by_words(tokens: Seq<Seq<char>>, ops: Seq<MoveOperationView>) -> Result<
    Seq<MoveOperationView>,
    ReplyErrorView,
> {
    match first_invalid(tokens) {
        Some(word) => Err(ReplyErrorView::InvalidIndexToken(word)),
        None => select_groups(requested(tokens), ops),
    }
}

/// A reply as it is read: trimmed, then in lower case.
pub open spec fn normalized(reply: Seq<char>) -> Seq<char> {
    lowered(trimmed(reply))
}

/// What a reply means for a plan with the operations `ops`.
pub open spec fn reply_outcome(reply: Seq<char>, ops: Seq<MoveOperationView>) -> Result<
    Seq<MoveOperationView>,
    ReplyErrorView,
> {
    let r = normalized(reply);
    if r == "cancel"@ {
        Err(ReplyErrorView::Cancelled)
    } else if r == "apply all"@ || r == "apply"@ {
        Ok(ops)
    } else if "apply "@.is_prefix_of(r) {
        select_by_words(words(r.skip("apply "@.len() as int)), ops)
    } else {
        Err(ReplyErrorView::UnrecognizedReply)
    }
}

/// The number of groups of a plan.
pub fn count_groups(ops: &Vec<MoveOperation>) -> (n: usize)
    ensures
        n as nat == group_count(op_views(ops@)),
        n <= ops.len(),
{
    let mut n: usize = 0;
    let mut i: usize = 0;
    while i < ops.len()
        invariant
            i <= ops.len(),
            n as nat == videos_among(op_views(ops@), i as int),
            n <= i,
        decreases ops.len() - i,
    {
        if !ops[i].is_subtitle {
            n += 1;
        }
        i += 1;
    }
    n
}

fn holds(indices: &Vec<u64>, x: u64) -> (r: bool)
    ensures
        r == naturals(indices@).contains(x as nat),
{
    let mut i: usize = 0;
    while i < indices.len()
        invariant
            i <= indices.len(),
            forall|j: int| 0 <= j < i ==> naturals(indices@)[j] != x as nat,
        decreases indices.len() - i,
    {
        if indices[i] == x {
            assert(naturals(indices@)[i as int] == x as nat);
            return true;
        }
        i += 1;
    }
    false
}

fn least_bad(indices: &Vec<u64>, max: usize) -> (r: Option<u64>)
    ensures
        match least_out_of_range(naturals(indices@), max as nat) {
            Some(index) => r == Some(index as u64) && index <= u64::MAX,
            None => r is None,
        },
{
    let mut found: Option<u64> = None;
    let mut i: usize = 0;
    while i < indices.len()
        invariant
            i <= indices.len(),
            match least_out_of_range(naturals(indices@).take(i as int), max as nat) {
                Some(index) => found == Some(index as u64) && index <= u64::MAX,
                None => found is None,
            },
        decreases indices.len() - i,
    {
        assert(naturals(indices@).take(i + 1).drop_last() =~= naturals(indices@).take(i as int));
        assert(naturals(indices@).take(i + 1).last() == indices@[i as int] as nat);
        let x = indices[i];
        if x == 0 || x > max as u64 {
            found = match found {
                Some(m) => if m <= x {
                    Some(m)
                } else {
                    Some(x)
                },
                None => Some(x),
            };
        }
        i += 1;
    }
    assert(naturals(indices@).take(indices@.len() as int) =~= naturals(indices@));
    found
}

/// Selects the operations of the groups that `indices` name. Every group is
/// taken once, however often it is named, and the operations keep plan order.
pub fn select_operations(indices: &Vec<u64>, ops: &Vec<MoveOperation>) -> (r: Result<
    Vec<MoveOperation>,
    ReplyError,
>)
    ensures
        match select_groups(naturals(indices@), op_views(ops@)) {
            Ok(chosen) => r is Ok && op_views(r->Ok_0@) == chosen,
            Err(e) => r is Err && r->Err_0@ == e,
        },
{
    let max = count_groups(ops);
    match least_bad(indices, max) {
        Some(index) => {
            return Err(ReplyError::IndexOutOfRange { index, max: max as u64 });
        },
        None => {},
    }
    let ghost views = op_views(ops@);
    let mut chosen: Vec<MoveOperation> = Vec::new();
    let mut group: usize = 0;
    let mut i: usize = 0;
    assert(op_views(chosen@) =~= selection(views, naturals(indices@), 0));
    while i < ops.len()
        invariant
            i <= ops.len(),
            views == op_views(ops@),
            group as nat == videos_among(views, i as int),
            group <= i,
            op_views(chosen@) == selection(views, naturals(indices@), i as int),
        decreases ops.len() - i,
    {
        if !ops[i].is_subtitle {
            group += 1;
        }
        if holds(indices, group as u64) {
            let ghost before = op_views(chosen@);
            chosen.push(ops[i].clone());
            assert(op_views(chosen@) =~= before.push(views[i as int]));
        }
        i += 1;
    }
    if chosen.len() == 0 {
        Err(ReplyError::EmptySelection)
    } else {
        Ok(chosen)
    }
}

/// Reads the user's reply to the plan: the selected operations, or why there are none.
pub fn interpret_reply(reply_text: &str, plan: &RestructurePlan) -> (r: Result<
    Vec<MoveOperation>,
    ReplyError,
>)
    ensures
        match reply_outcome(reply_text@, plan@.operations) {
            Ok(chosen) => r is Ok && op_views(r->Ok_0@) == chosen,
            Err(e) => r is Err && r->Err_0@ == e,
        },
{
    let reply = lower_of(&trim_of(&chars_of(reply_text)));
    if same_text(&reply, &chars_of("cancel")) {
        return Err(ReplyError::Cancelled);
    }
    if same_text(&reply, &chars_of("apply all")) || same_text(&reply, &chars_of("apply")) {
        return Ok(copy_operations(&plan.operations));
    }
    let prefix = chars_of("apply ");
    if !begins_with(&reply, &prefix) {
        return Err(ReplyError::UnrecognizedReply);
    }
    let rest = slice_of(&reply, prefix.len(), reply.len());
    assert(rest@ =~= reply@.skip("apply "@.len() as int));
    let tokens = words_of(&rest);
    let mut indices: Vec<u64> = Vec::new();
    let mut i: usize = 0;
    assert(naturals(indices@) =~= requested(rows(tokens@).take(0)));
    assert(reply_outcome(reply_text@, plan@.operations) == select_by_words(
        rows(tokens@),
        plan@.operations,
    ));
    while i < tokens.len()
        invariant
            i <= tokens.len(),
            reply_outcome(reply_text@, plan@.operations) == select_by_words(
                rows(tokens@),
                plan@.operations,
            ),
            first_invalid(rows(tokens@).take(i as int)) is None,
            naturals(indices@) == requested(rows(tokens@).take(i as int)),
        decreases tokens.len() - i,
    {
        let ghost seen = rows(tokens@).take(i as int);
        let ghost now = rows(tokens@).take(i + 1);
        assert(now.drop_last() =~= seen);
        assert(now.last() == tokens@[i as int]@);
        match parse_numeral(&tokens[i]) {
            Some(index) => {
                let ghost before = indices@;
                indices.push(index);
                assert(naturals(indices@) =~= naturals(before).push(index as nat));
                assert(requested(now) =~= requested(seen).push(index as nat));
            },
            None => {
                proof {
                    assert(first_invalid(now) == Some(now.last()));
                    lemma_first_invalid_stays(rows(tokens@), i + 1);
                }
                return Err(ReplyError::InvalidIndexToken(string_of(&tokens[i])));
            },
        }
        i += 1;
    }
    assert(rows(tokens@).take(tokens@.len() as int) =~= rows(tokens@));
    select_operations(&indices, &plan.operations)
}

proof fn lemma_first_invalid_stays(tokens: Seq<Seq<char>>, n: int)
    requires
        0 <= n <= tokens.len(),
        first_invalid(tokens.take(n)) is Some,
    ensures
        first_invalid(tokens) == first_invalid(tokens.take(n)),
    decreases tokens.len() - n,
{
    if n < tokens.len() {
        assert(tokens.take(n + 1).drop_last() =~= tokens.take(n));
        lemma_first_invalid_stays(tokens, n + 1);
    } else {
        assert(tokens.take(n) =~= tokens);
    }
}

/// Reads the user's reply to the plan. The error is the message for the user.
pub fn parse_restructure_reply(reply_text: &str, plan: &RestructurePlan) -> (r: Result<
    Vec<MoveOperation>,
    String,
>)
    ensures
        match reply_outcome(reply_text@, plan@.operations) {
            Ok(chosen) => r is Ok && op_views(r->Ok_0@) == chosen,
            Err(e) => r is Err && r->Err_0@ == e.message_text(),
        },
{
    match interpret_reply(reply_text, plan) {
        Ok(chosen) => Ok(chosen),
        Err(e) => Err(e.message()),
    }
}

/// What `least_out_of_range` finds is requested and out of range, and no
/// requested number out of range is less.
pub proof fn lemma_least_out_of_range(indices: Seq<nat>, max: nat)
    ensures
        match least_out_of_range(indices, max) {
            Some(least) => indices.contains(least) && out_of_range(least, max) && forall|x: nat|
                indices.contains(x) && out_of_range(x, max) ==> least <= x,
            None => forall|x: nat| indices.contains(x) ==> !out_of_range(x, max),
        },
    decreases indices.len(),
{
    if indices.len() > 0 {
        let rest = indices.drop_last();
        lemma_least_out_of_range(rest, max);
        assert forall|x: nat| indices.contains(x) implies rest.contains(x) || x
            == indices.last() by {
            let j = choose|j: int| 0 <= j < indices.len() && indices[j] == x;
            if j < indices.len() - 1 {
                assert(rest[j] == x);
            }
        }
        assert forall|x: nat| rest.contains(x) implies indices.contains(x) by {
            let j = choose|j: int| 0 <= j < rest.len() && rest[j] == x;
            assert(indices[j] == x);
        }
        assert(indices.contains(indices.last())) by {
            assert(indices[indices.len() - 1] == indices.last());
        }
    }
}

proof fn lemma_selection_by_set(ops: Seq<MoveOperationView>, a: Seq<nat>, b: Seq<nat>, n: int)
    requires
        a.to_set() == b.to_set(),
    ensures
        selection(ops, a, n) == selection(ops, b, n),
    decreases n,
{
    if n > 0 {
        lemma_selection_by_set(ops, a, b, n - 1);
        let g = group_of(ops, n - 1);
        assert(a.contains(g) == a.to_set().contains(g));
        assert(b.contains(g) == b.to_set().contains(g));
    }
}

/// Naming a group twice is naming it once, and the order of the numbers is
/// of no account: lists that name the same groups select the same.
pub proof fn lemma_duplicates_collapse(a: Seq<nat>, b: Seq<nat>, ops: Seq<MoveOperationView>)
    requires
        a.to_set() == b.to_set(),
    ensures
        select_groups(a, ops) == select_groups(b, ops),
{
    let max = group_count(ops);
    lemma_least_out_of_range(a, max);
    lemma_least_out_of_range(b, max);
    assert forall|x: nat| a.contains(x) == b.contains(x) by {
        assert(a.contains(x) == a.to_set().contains(x));
        assert(b.contains(x) == b.to_set().contains(x));
    }
    lemma_selection_by_set(ops, a, b, ops.len() as int);
}

/// The number 0 names no group: a list that holds it selects nothing.
pub proof fn lemma_zero_is_out_of_range(indices: Seq<nat>, ops: Seq<MoveOperationView>)
    requires
        indices.contains(0),
    ensures
        select_groups(indices, ops) == Err::<Seq<MoveOperationView>, ReplyErrorView>(
            ReplyErrorView::IndexOutOfRange { index: 0, max: group_count(ops) },
        ),
{
    lemma_least_out_of_range(indices, group_count(ops));
}

proof fn lemma_group_exists(ops: Seq<MoveOperationView>, g: nat, n: int)
    requires
        0 <= n <= ops.len(),
        1 <= g <= videos_among(ops, n),
    ensures
        exists|i: int| 0 <= i < n && !ops[i].is_subtitle && #[trigger] group_of(ops, i) == g,
    decreases n,
{
    if n > 0 {
        if !ops[n - 1].is_subtitle && videos_among(ops, n) == g {
            assert(group_of(ops, n - 1) == g);
        } else {
            lemma_group_exists(ops, g, n - 1);
        }
    }
}

proof fn lemma_selection_holds(ops: Seq<MoveOperationView>, indices: Seq<nat>, i: int, n: int)
    requires
        0 <= i < n,
        indices.contains(group_of(ops, i)),
    ensures
        selection(ops, indices, n).len() > 0,
        selection(ops, indices, n).contains(ops[i]),
    decreases n,
{
    let chosen = selection(ops, indices, n);
    if i == n - 1 {
        assert(chosen[chosen.len() - 1] == ops[i]);
    } else {
        lemma_selection_holds(ops, indices, i, n - 1);
        let before = selection(ops, indices, n - 1);
        let j = choose|j: int| 0 <= j < before.len() && before[j] == ops[i];
        assert(chosen[j] == ops[i]);
    }
}

/// Numbers that are all in range select something: once the range is
/// checked, a list of at least one number never comes out empty.
pub proof fn lemma_selection_is_not_empty(indices: Seq<nat>, ops: Seq<MoveOperationView>)
    requires
        indices.len() > 0,
        least_out_of_range(indices, group_count(ops)) is None,
    ensures
        select_groups(indices, ops) is Ok,
{
    lemma_least_out_of_range(indices, group_count(ops));
    let g = indices[0];
    assert(indices.contains(g));
    lemma_group_exists(ops, g, ops.len() as int);
    let i = choose|i: int| 0 <= i < ops.len() && !ops[i].is_subtitle && #[trigger] group_of(ops, i)
        == g;
    lemma_selection_holds(ops, indices, i, ops.len() as int);
}

/// The number shown before a video in the listing is the number that selects
/// it: the group that a number names begins with the video of that number.
pub proof fn lemma_number_selects_its_video(ops: Seq<MoveOperationView>, i: int)
    requires
        0 <= i < ops.len(),
        !ops[i].is_subtitle,
    ensures
        select_groups(seq![group_of(ops, i)], ops) is Ok,
        select_groups(seq![group_of(ops, i)], ops)->Ok_0.first() == ops[i],
{
    let g = group_of(ops, i);
    let only = seq![g];
    assert(only[0] == g);
    lemma_videos_among_monotonic(ops, i + 1, ops.len() as int);
    assert(least_out_of_range(only.drop_last(), group_count(ops)) is None);
    lemma_selection_is_not_empty(only, ops);
    lemma_selection_starts(ops, i, ops.len() as int);
}

proof fn lemma_selection_starts(ops: Seq<MoveOperationView>, i: int, n: int)
    requires
        0 <= i < ops.len(),
        !ops[i].is_subtitle,
        0 <= n <= ops.len(),
    ensures
        n <= i ==> selection(ops, seq![group_of(ops, i)], n).len() == 0,
        n > i ==> selection(ops, seq![group_of(ops, i)], n).len() > 0 && selection(
            ops,
            seq![group_of(ops, i)],
            n,
        ).first() == ops[i],
    decreases n,
{
    let g = group_of(ops, i);
    let only = seq![g];
    if n > 0 {
        lemma_selection_starts(ops, i, n - 1);
        if n - 1 < i {
            lemma_videos_among_monotonic(ops, n, i);
            assert(group_of(ops, n - 1) < g);
            assert forall|j: int| 0 <= j < only.len() implies only[j] != group_of(ops, n - 1) by {}
        } else if n - 1 == i {
            assert(only[0] == g);
        }
    }
}

} // verus!
