//! The text of a reading plan.

use vstd::prelude::*;
use crate::model::entity::opt_view;
use crate::numfmt::{decimal, decimal_int, i64_to_string, usize_to_string};
use crate::text::{owned, push_char, push_str};

verus! {

/// One entry of a reading plan, as printed; its score is already written
/// with three decimals.
#[derive(Debug, Clone, PartialEq, Eq)]
pub struct PlanLine {
    pub name: String,
    pub kind: String,
    pub path: Option<String>,
    pub line_start: Option<i64>,
    pub short_summary: String,
    pub score_text: String,
    pub reasons: Vec<String>,
    pub is_context: bool,
    pub context_via: Option<String>,
}

/// `s` right-aligned in `width` columns with spaces.
pub open spec fn pad_left(s: Seq<char>, width: nat) -> Seq<char> {
    if s.len() >= width {
        s
    } else {
        Seq::new((width - s.len()) as nat, |i: int| ' ') + s
    }
}

/// Strings joined by `, `.
pub open spec fn join_comma(items: Seq<Seq<char>>) -> Seq<char>
    decreases items.len(),
{
    if items.len() == 0 {
        Seq::empty()
    } else if items.len() == 1 {
        items[0]
    } else {
        join_comma(items.drop_last()) + ", "@ + items.last()
    }
}

/// Where an entry is: `path:line`, `path`, or nothing.
pub open spec fn location_text(path: Option<Seq<char>>, line: Option<i64>) -> Seq<char> {
    match path {
        Some(p) => match line {
            Some(l) => p + ":"@ + decimal_int(l as int),
            None => p,
        },
        None => Seq::empty(),
    }
}

/// The rank of entry `i` (counted from 0) right-aligned in four columns,
/// or the context marker.
pub open spec fn rank_text(i: nat, is_context: bool) -> Seq<char> {
    if is_context {
        "     ctx"@
    } else {
        pad_left(decimal(i + 1), 4)
    }
}

/// An indented line with the text, when the text is not empty.
pub open spec fn detail_line(label: Seq<char>, text: Seq<char>) -> Seq<char> {
    if text.len() > 0 {
        "      "@ + label + text + "\n"@
    } else {
        Seq::empty()
    }
}

/// The reasons line, when there are reasons.
pub open spec fn reasons_line(reasons: Seq<Seq<char>>) -> Seq<char> {
    if reasons.len() > 0 {
        "      reasons: "@ + join_comma(reasons) + "\n"@
    } else {
        Seq::empty()
    }
}

/// The context line, when the entry was reached from a seed.
pub open spec fn via_line(via: Option<Seq<char>>) -> Seq<char> {
    match via {
        Some(v) => "      context via: "@ + v + "\n"@,
        None => Seq::empty(),
    }
}

/// The lines of entry `i` (counted from 0): rank or context marker, kind,
/// name and score; then location, summary, reasons and context, each when
/// there is one; then an empty line.
pub open spec fn plan_item_text(i: nat, it: PlanLine) -> Seq<char> {
    rank_text(i, it.is_context) + ". ["@ + it.kind@ + "] "@ + it.name@ + " (score: "@ + it.score_text@ + ")\n"@
        + detail_line(Seq::empty(), location_text(opt_view(it.path), it.line_start)) + detail_line(
        Seq::empty(),
        it.short_summary@,
    ) + reasons_line(it.reasons@.map_values(|r: String| r@)) + via_line(opt_view(it.context_via)) + "\n"@
}

/// The entries' text, in order.
pub open spec fn plan_items_text(items: Seq<PlanLine>) -> Seq<char>
    decreases items.len(),
{
    if items.len() == 0 {
        Seq::empty()
    } else {
        plan_items_text(items.drop_last()) + plan_item_text((items.len() - 1) as nat, items.last())
    }
}

/// The text of a reading plan: the query, its category, how many
/// candidates were considered and whether vector search was used, the
/// number of results, then each entry.
pub open spec fn plan_text(
    query: Seq<char>,
    category: Seq<char>,
    candidates: usize,
    used_vector_search: bool,
    items: Seq<PlanLine>,
) -> Seq<char> {
    "Reading plan for: \""@ + query + "\"\n"@ + "Category: "@ + category + "\n"@ + "Candidates considered: "@
        + decimal(candidates as nat) + " | Vector search: "@ + (if used_vector_search {
        "yes"@
    } else {
        "no"@
    }) + "\n"@ + "Results: "@ + decimal(items.len()) + "\n"@ + "\n"@ + plan_items_text(items)
}

fn push_rank(out: &mut String, i: usize, is_context: bool)
    requires
        i < usize::MAX,
    ensures
        final(out)@ == old(out)@ + rank_text(i as nat, is_context),
{
    if is_context {
        push_str(out, "     ctx");
    } else {
        let n = usize_to_string(i + 1);
        let len = crate::text::chars_of(n.as_str()).len();
        let ghost base = out@;
        if len < 4 {
            let mut k: usize = 0;
            while k < 4 - len
                invariant
                    len < 4,
                    k <= 4 - len,
                    out@ == base + Seq::new(k as nat, |j: int| ' '),
                decreases 4 - len - k,
            {
                push_char(out, ' ');
                k += 1;
                assert(out@ == base + Seq::new(k as nat, |j: int| ' '));
            }
        }
        let ghost mid = out@;
        push_str(out, n.as_str());
        proof {
            if len >= 4 {
                assert(mid == base);
                assert(out@ == base + decimal((i + 1) as nat));
            } else {
                assert(out@ == base + (Seq::new((4 - len) as nat, |j: int| ' ') + decimal((i + 1) as nat)));
            }
        }
    }
}

fn push_detail(out: &mut String, text: &str)
    ensures
        final(out)@ == old(out)@ + detail_line(Seq::empty(), text@),
{
    proof {
        reveal_strlit("      ");
    }
    if crate::text::chars_of(text).len() > 0 {
        push_str(out, "      ");
        push_str(out, text);
        push_str(out, "\n");
        assert(out@ == old(out)@ + ("      "@ + Seq::<char>::empty() + text@ + "\n"@));
    } else {
        assert(out@ == old(out)@ + Seq::<char>::empty());
    }
}

fn location_of(path: &Option<String>, line: Option<i64>) -> (res: String)
    ensures
        res@ == location_text(opt_view(*path), line),
{
    match path {
        Some(p) => match line {
            Some(l) => {
                let mut s = owned(p.as_str());
                push_str(&mut s, ":");
                let ls = i64_to_string(l);
                push_str(&mut s, ls.as_str());
                s
            },
            None => owned(p.as_str()),
        },
        None => String::new(),
    }
}

fn push_reasons(out: &mut String, reasons: &Vec<String>)
    ensures
        final(out)@ == old(out)@ + reasons_line(reasons@.map_values(|r: String| r@)),
{
    let ghost rs = reasons@.map_values(|r: String| r@);
    if reasons.len() == 0 {
        assert(out@ == old(out)@ + Seq::<char>::empty());
        return;
    }
    push_str(out, "      reasons: ");
    let ghost base = out@;
    let mut k: usize = 0;
    assert(rs.take(0) == Seq::<Seq<char>>::empty());
    while k < reasons.len()
        invariant
            k <= reasons@.len(),
            rs == reasons@.map_values(|r: String| r@),
            out@ == base + join_comma(rs.take(k as int)),
        decreases reasons.len() - k,
    {
        assert(rs.take(k + 1).drop_last() == rs.take(k as int));
        assert(rs.take(k + 1).last() == reasons@[k as int]@);
        if k > 0 {
            push_str(out, ", ");
        }
        push_str(out, reasons[k].as_str());
        k += 1;
        proof {
            if k == 1 {
                assert(rs.take(1).len() == 1);
                assert(join_comma(rs.take(1)) == rs.take(1)[0]);
            }
        }
    }
    assert(rs.take(reasons@.len() as int) == rs);
    push_str(out, "\n");
}

#[verifier::rlimit(60)]
fn push_item(out: &mut String, i: usize, it: &PlanLine)
    requires
        i < usize::MAX,
    ensures
        final(out)@ == old(out)@ + plan_item_text(i as nat, *it),
{
    push_rank(out, i, it.is_context);
    push_str(out, ". [");
    push_str(out, it.kind.as_str());
    push_str(out, "] ");
    push_str(out, it.name.as_str());
    push_str(out, " (score: ");
    push_str(out, it.score_text.as_str());
    push_str(out, ")\n");
    let loc = location_of(&it.path, it.line_start);
    push_detail(out, loc.as_str());
    push_detail(out, it.short_summary.as_str());
    push_reasons(out, &it.reasons);
    match &it.context_via {
        Some(v) => {
            push_str(out, "      context via: ");
            push_str(out, v.as_str());
            push_str(out, "\n");
        },
        None => {},
    }
    push_str(out, "\n");
    assert(out@ =~= old(out)@ + plan_item_text(i as nat, *it));
}

/// The text of a reading plan (see `plan_text`).
pub fn render_plan(
    query: &str,
    category: &str,
    candidates_considered: usize,
    used_vector_search: bool,
    items: &Vec<PlanLine>,
) -> (res: String)
    ensures
        res@ == plan_text(query@, category@, candidates_considered, used_vector_search, items@),
{
    let mut out = owned("Reading plan for: \"");
    push_str(&mut out, query);
    push_str(&mut out, "\"\n");
    push_str(&mut out, "Category: ");
    push_str(&mut out, category);
    push_str(&mut out, "\n");
    push_str(&mut out, "Candidates considered: ");
    let c = usize_to_string(candidates_considered);
    push_str(&mut out, c.as_str());
    push_str(&mut out, " | Vector search: ");
    if used_vector_search {
        push_str(&mut out, "yes");
    } else {
        push_str(&mut out, "no");
    }
    push_str(&mut out, "\n");
    push_str(&mut out, "Results: ");
    let n = usize_to_string(items.len());
    push_str(&mut out, n.as_str());
    push_str(&mut out, "\n");
    push_str(&mut out, "\n");
    let ghost header = out@;
    let mut i: usize = 0;
    assert(items@.take(0) == Seq::<PlanLine>::empty());
    while i < items.len()
        invariant
            i <= items@.len(),
            out@ == header + plan_items_text(items@.take(i as int)),
        decreases items.len() - i,
    {
        assert(items@.take(i + 1).drop_last() == items@.take(i as int));
        assert(items@.take(i + 1).last() == items@[i as int]);
        push_item(&mut out, i, &items[i]);
        i += 1;
    }
    assert(items@.take(items@.len() as int) == items@);
    out
}

} // verus!
