//! The listing of a plan that the user is asked to confirm.
//!
//! Each video is numbered with the number of its group, and its subtitles
//! stand indented below it: the numbers shown are the numbers that a reply
//! may name.

use vstd::prelude::*;
use crate::paths::{file_name, last_two_components, name_start_of, tail_start_of};
use crate::text::{chars_of, string_of, slice_of, decimal, push_str, push_all, push_decimal};
use crate::transmission::Media;
use crate::restructure::operations::{MoveOperation, MoveOperationView, PlanView, RestructurePlan, op_views, texts, group_of, videos_among};

verus! {

/// How many groups a listing shows.
pub const SHOWN_GROUPS: usize = 50;

/// How many unparseable files a listing names.
pub const SHOWN_UNPARSEABLE: usize = 20;

/// The heading of a listing.
pub open spec fn plan_heading(media: Media) -> Seq<char> {
    match media {
        Media::TV => "📺 Restructure Plan:\n\n"@,
        Media::Movie => "🎬 Restructure Plan:\n\n"@,
    }
}

/// What operation `i` adds to the listing. A video of one of the first 50
/// groups adds its number, its name and the last two components of its target;
/// a subtitle of such a group adds its name, indented. The first video beyond
/// them adds the count of the operations left out, itself included. Every
/// other operation adds nothing.
pub open spec fn operation_lines(ops: Seq<MoveOperationView>, i: int) -> Seq<char> {
    let group = group_of(ops, i);
    if ops[i].is_subtitle {
        if 1 <= group <= SHOWN_GROUPS {
            "      + "@ + ops[i].display_name + seq!['\n']
        } else {
            Seq::empty()
        }
    } else if group <= SHOWN_GROUPS {
        decimal(group) + ". "@ + ops[i].display_name + "\n   → "@ + last_two_components(
            ops[i].target_path,
        ) + seq!['\n']
    } else if group == SHOWN_GROUPS + 1 {
        "\n... and "@ + decimal((ops.len() - i) as nat) + " more operations (showing first 50)\n"@
    } else {
        Seq::empty()
    }
}

/// What the first `n` operations add to the listing.
pub open spec fn listing(ops: Seq<MoveOperationView>, n: int) -> Seq<char>
    decreases n,
{
    if n <= 0 {
        Seq::empty()
    } else {
        listing(ops, n - 1) + operation_lines(ops, n - 1)
    }
}

/// The lines that name the first `n` unparseable files, by file name.
pub open spec fn unparseable_lines(files: Seq<Seq<char>>, n: int) -> Seq<char>
    decreases n,
{
    if n <= 0 {
        Seq::empty()
    } else {
        unparseable_lines(files, n - 1) + "  • "@ + file_name(files[n - 1]) + seq!['\n']
    }
}

/// The part of a listing on the files that could not be planned: at most 20
/// of them by name, and the count of the others.
pub open spec fn unparseable_section(files: Seq<Seq<char>>) -> Seq<char> {
    if files.len() == 0 {
        Seq::empty()
    } else if files.len() <= SHOWN_UNPARSEABLE {
        "\n⚠️ Unparseable files (will be skipped):\n"@ + unparseable_lines(files, files.len() as int)
    } else {
        "\n⚠️ Unparseable files (will be skipped):\n"@ + unparseable_lines(
            files,
            SHOWN_UNPARSEABLE as int,
        ) + "  ... and "@ + decimal((files.len() - SHOWN_UNPARSEABLE) as nat) + " more\n"@
    }
}

/// The closing lines of a listing: the replies that are understood.
pub open spec fn reply_instructions() -> Seq<char> {
    "\nReply with:\n"@ + "• \"apply all\" - Execute all operations\n"@
        + "• \"apply 1 2 5\" - Execute specific operations\n"@
        + "• \"cancel\" - Cancel restructure\n"@
}

/// The listing of a plan.
pub open spec fn rendered(plan: PlanView) -> Seq<char> {
    if plan.operations.len() == 0 && plan.unparseable_files.len() == 0 {
        "✅ Nothing to restructure"@
    } else {
        plan_heading(plan.media_type) + listing(plan.operations, plan.operations.len() as int)
            + unparseable_section(plan.unparseable_files) + reply_instructions()
    }
}

fn push_listing(out: &mut Vec<char>, ops: &Vec<MoveOperation>)
    ensures
        final(out)@ == old(out)@ + listing(op_views(ops@), ops@.len() as int),
{
    let ghost views = op_views(ops@);
    let mut group: usize = 0;
    let mut i: usize = 0;
    assert(out@ =~= old(out)@ + listing(views, 0));
    while i < ops.len()
        invariant
            i <= ops.len(),
            views == op_views(ops@),
            group as nat == videos_among(views, i as int),
            group <= i,
            out@ == old(out)@ + listing(views, i as int),
        decreases ops.len() - i,
    {
        let ghost before = out@;
        let op = &ops[i];
        assert(views[i as int] == op@);
        if !op.is_subtitle {
            group += 1;
            if group <= SHOWN_GROUPS {
                push_decimal(out, group as u64);
                push_str(out, ". ");
                push_str(out, op.display_name.as_str());
                push_str(out, "\n   → ");
                let target = chars_of(op.target_path.as_str());
                let start = tail_start_of(&target);
                push_all(out, &slice_of(&target, start, target.len()));
                out.push('\n');
            } else if group == SHOWN_GROUPS + 1 {
                push_str(out, "\n... and ");
                push_decimal(out, (ops.len() - i) as u64);
                push_str(out, " more operations (showing first 50)\n");
            }
        } else if 1 <= group && group <= SHOWN_GROUPS {
            push_str(out, "      + ");
            push_str(out, op.display_name.as_str());
            out.push('\n');
        }
        assert(out@ =~= before + operation_lines(views, i as int));
        assert(out@ =~= old(out)@ + listing(views, i + 1));
        i += 1;
    }
}

fn push_unparseable(out: &mut Vec<char>, files: &Vec<String>)
    ensures
        final(out)@ == old(out)@ + unparseable_section(texts(files@)),
{
    if files.len() == 0 {
        assert(out@ =~= old(out)@ + unparseable_section(texts(files@)));
        return ;
    }
    push_str(out, "\n⚠️ Unparseable files (will be skipped):\n");
    let ghost start = out@;
    let shown: usize = if files.len() <= SHOWN_UNPARSEABLE {
        files.len()
    } else {
        SHOWN_UNPARSEABLE
    };
    let mut i: usize = 0;
    assert(out@ =~= start + unparseable_lines(texts(files@), 0));
    while i < shown
        invariant
            i <= shown <= files.len(),
            out@ == start + unparseable_lines(texts(files@), i as int),
        decreases shown - i,
    {
        let ghost before = out@;
        let path = chars_of(files[i].as_str());
        let n = name_start_of(&path);
        push_str(out, "  • ");
        push_all(out, &slice_of(&path, n, path.len()));
        out.push('\n');
        assert(texts(files@)[i as int] == path@);
        assert(out@ =~= start + unparseable_lines(texts(files@), i + 1));
        i += 1;
    }
    if files.len() > SHOWN_UNPARSEABLE {
        push_str(out, "  ... and ");
        push_decimal(out, (files.len() - SHOWN_UNPARSEABLE) as u64);
        push_str(out, " more\n");
    }
    assert(out@ =~= old(out)@ + unparseable_section(texts(files@)));
}

/// Renders the plan as the numbered listing that the user confirms.
pub fn format_restructure_plan(plan: &RestructurePlan) -> (out: String)
    ensures
        out@ == rendered(plan@),
{
    if plan.operations.len() == 0 && plan.unparseable_files.len() == 0 {
        return string_of(&chars_of("✅ Nothing to restructure"));
    }
    let mut out: Vec<char> = Vec::new();
    match plan.media_type {
        Media::TV => {
            push_str(&mut out, "📺 Restructure Plan:\n\n");
        },
        Media::Movie => {
            push_str(&mut out, "🎬 Restructure Plan:\n\n");
        },
    }
    push_listing(&mut out, &plan.operations);
    push_unparseable(&mut out, &plan.unparseable_files);
    push_str(&mut out, "\nReply with:\n");
    push_str(&mut out, "• \"apply all\" - Execute all operations\n");
    push_str(&mut out, "• \"apply 1 2 5\" - Execute specific operations\n");
    push_str(&mut out, "• \"cancel\" - Cancel restructure\n");
    assert(out@ =~= rendered(plan@));
    string_of(&out)
}

} // verus!
