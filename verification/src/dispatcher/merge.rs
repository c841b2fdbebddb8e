//! Several picked elements in one result.

use crate::capture::PickedElement;
use crate::dispatcher::{ErrorView, ExtractError};
use crate::json::{a_member_is_the_first_with_its_key, list_view, Json, JsonNumber, JsonView};
use crate::output::{CaptureResult, CaptureView};
use crate::text::{
    begins, copy_of, copy_of_opt, decimal, decimal_reads_back, decimal_text, html_escape, html_text,
    join, joined, occurs, occurs_in_first, occurs_in_second, opt_view, part_occurs, texts,
};
use vstd::prelude::*;

verus! {

/// What was extracted for the picked element at `place`.
#[derive(Debug)]
pub struct Extracted {
    pub place: usize,
    pub result: CaptureResult,
}

/// What the elements of a selection came to.
#[derive(Debug)]
pub enum Gathered {
    /// One result, or none at all.
    Settled(Result<CaptureResult, ExtractError>),
    /// Several results to merge, with what went wrong for the others.
    Several { items: Vec<Extracted>, errors: Vec<String> },
}

/// A relaunch is asked for: the rest of the selection is not tried.
pub open spec fn asks_relaunch(r: Result<CaptureResult, ExtractError>) -> bool {
    r matches Err(ExtractError::ElectronNeedsRelaunch { .. })
}

/// Does the outcome end the run over a selection?
pub fn stops_run(r: &Result<CaptureResult, ExtractError>) -> (b: bool)
    ensures
        b == asks_relaunch(*r),
{
    match r {
        Err(ExtractError::ElectronNeedsRelaunch { .. }) => true,
        _ => false,
    }
}

/// The folder of the `i`th of several elements, so that their screenshots do not
/// collide. A single element needs none.
pub fn element_dir(count: usize, i: usize) -> (r: Option<String>)
    ensures
        opt_view(r) == (if count <= 1 {
            None
        } else {
            Some("elem-"@ + decimal(i as nat))
        }),
{
    if count <= 1 {
        return None;
    }
    let mut out = copy_of("elem-");
    out.push_str(decimal_text(i as u64).as_str());
    Some(out)
}

/// The results that succeeded, each with its place.
pub open spec fn successes(outcomes: Seq<Result<CaptureResult, ExtractError>>) -> Seq<
    (int, CaptureView),
>
    decreases outcomes.len(),
{
    if outcomes.len() == 0 {
        Seq::empty()
    } else {
        let head = successes(outcomes.drop_last());
        match outcomes.last() {
            Ok(c) => head.push((outcomes.len() - 1, c@)),
            Err(_) => head,
        }
    }
}

/// What went wrong, each with the place of its element.
pub open spec fn failures(outcomes: Seq<Result<CaptureResult, ExtractError>>) -> Seq<Seq<char>>
    decreases outcomes.len(),
{
    if outcomes.len() == 0 {
        Seq::empty()
    } else {
        let head = failures(outcomes.drop_last());
        match outcomes.last() {
            Ok(_) => head,
            Err(e) => head.push(
                "element "@ + decimal((outcomes.len() - 1) as nat) + ": "@ + e@.words(),
            ),
        }
    }
}

/// What the items hold.
pub open spec fn item_views(items: Seq<Extracted>) -> Seq<(int, CaptureView)> {
    items.map_values(|x: Extracted| (x.place as int, x.result@))
}

/// Gather the outcomes of a selection of `count` elements, in order. The run may have
/// ended early on a request to relaunch, which must come through unchanged.
pub fn gather(count: usize, outcomes: Vec<Result<CaptureResult, ExtractError>>) -> (r: Gathered)
    requires
        outcomes@.len() == count || (0 < outcomes@.len() <= count && asks_relaunch(
            outcomes@.last(),
        )),
        forall|i: int| 0 <= i < outcomes@.len() - 1 ==> !asks_relaunch(#[trigger] outcomes@[i]),
    ensures
        if count == 0 {
            r matches Gathered::Settled(Err(e)) && e@ == ErrorView::AllStrategiesFailed(
                "no elements selected"@,
            )
        } else if count == 1 {
            r matches Gathered::Settled(o) && o == outcomes@[0]
        } else if asks_relaunch(outcomes@.last()) {
            r matches Gathered::Settled(o) && o == outcomes@.last()
        } else if successes(outcomes@).len() == 0 {
            r matches Gathered::Settled(Err(e)) && e@ == ErrorView::AllStrategiesFailed(
                joined(failures(outcomes@), "; "@),
            )
        } else {
            r matches Gathered::Several { items, errors } && item_views(items@) == successes(
                outcomes@,
            ) && texts(errors@) == failures(outcomes@)
        },
{
    if count == 0 {
        return Gathered::Settled(
            Err(ExtractError::AllStrategiesFailed(copy_of("no elements selected"))),
        );
    }
    let mut outcomes = outcomes;
    let ghost all = outcomes@;
    if count == 1 || stops_run(&outcomes[outcomes.len() - 1]) {
        let last = outcomes.pop();
        match last {
            Some(o) => {
                return Gathered::Settled(o);
            },
            None => {
                return Gathered::Settled(
                    Err(ExtractError::AllStrategiesFailed(copy_of("no elements selected"))),
                );
            },
        }
    }
    let mut items: Vec<Extracted> = Vec::new();
    let mut errors: Vec<String> = Vec::new();
    let mut place: usize = 0;
    assert(item_views(items@) =~= successes(all.take(0)));
    assert(texts(errors@) =~= failures(all.take(0)));
    for o in it: outcomes
        invariant
            it.seq() == all,
            all.len() == count,
            place == it.index(),
            item_views(items@) == successes(all.take(it.index())),
            texts(errors@) == failures(all.take(it.index())),
    {
        let ghost i = it.index();
        assert(all.take(i + 1).drop_last() =~= all.take(i));
        match o {
            Ok(result) => {
                let ghost before = items@;
                items.push(Extracted { place, result });
                assert(item_views(items@) =~= item_views(before).push((i, result@)));
            },
            Err(e) => {
                let ghost before = errors@;
                let mut line = copy_of("element ");
                line.push_str(decimal_text(place as u64).as_str());
                line.push_str(": ");
                line.push_str(e.message().as_str());
                errors.push(line);
                assert(texts(errors@) =~= texts(before).push(line@));
            },
        }
        place = place + 1;
    }
    assert(all.take(all.len() as int) =~= all);
    if items.len() == 0 {
        assert(item_views(items@).len() == 0);
        return Gathered::Settled(
            Err(ExtractError::AllStrategiesFailed(join(&errors, "; "))),
        );
    }
    assert(item_views(items@).len() > 0);
    Gathered::Several { items, errors }
}

/// A section up to its index.
pub const SECTION_INDEX: &'static str = "<section class=\"ve-elem\" data-idx=\"";

/// Between a section's index and its number.
pub const SECTION_NUMBER: &'static str = "\">
  <header class=\"ve-elem-header\">
    <strong>Element ";

/// Between a section's number and the count.
pub const SECTION_OF: &'static str = " of ";

/// Between the count and the role.
pub const SECTION_ROLE: &'static str = "</strong>
    <span class=\"ve-elem-role\">";

/// Between the role and the name.
pub const SECTION_NAME: &'static str = "</span>
    <span class=\"ve-elem-name\">";

/// Between the name and the framed page.
pub const SECTION_FRAME: &'static str = "</span>
  </header>
  <iframe class=\"ve-elem-frame\" srcdoc=\"";

/// The end of a section.
pub const SECTION_END: &'static str = "\" sandbox=\"allow-scripts allow-same-origin\"></iframe>
</section>";

/// The merged page up to the count in its title.
pub const MULTI_TITLE: &'static str = "<!DOCTYPE html>
<html>
<head>
  <meta charset=\"UTF-8\">
  <title>VibeExtract — Multi-element Capture (";

/// Between the count in the title and the one in the header.
pub const MULTI_STYLE: &'static str = " elements)</title>
  <style>
    html, body { margin: 0; padding: 0; font-family: -apple-system, BlinkMacSystemFont, sans-serif; background: #f0f0f3; }
    .ve-multi-header { position: sticky; top: 0; z-index: 10; padding: 14px 24px; background: #1a1a2e; color: #f5f3ff; font-size: 14px; font-weight: 600; border-bottom: 1px solid rgba(255,255,255,0.08); }
    .ve-elem { margin: 20px; background: #fff; border-radius: 12px; box-shadow: 0 4px 16px rgba(0,0,0,0.08); overflow: hidden; }
    .ve-elem-header { display: flex; gap: 12px; padding: 12px 18px; background: #fafafa; border-bottom: 1px solid #e0e0e0; font-size: 13px; align-items: center; }
    .ve-elem-role { color: #6366f1; font-family: ui-monospace, Menlo, monospace; font-size: 11px; padding: 3px 8px; background: rgba(99,102,241,0.08); border-radius: 4px; }
    .ve-elem-name { color: #555; flex: 1; font-style: italic; }
    .ve-elem-frame { display: block; width: 100%; height: 600px; border: 0; background: white; }
  </style>
</head>
<body>
  <div class=\"ve-multi-header\">VibeExtract — ";

/// Between the count in the header and the sections.
pub const MULTI_BODY: &'static str = " elements captured</div>
  ";

/// The end of the merged page.
pub const MULTI_END: &'static str = "
</body>
</html>";

/// The items speak of picked elements.
pub open spec fn placed(picked: Seq<PickedElement>, items: Seq<Extracted>) -> bool {
    forall|i: int| 0 <= i < items.len() ==> (#[trigger] items[i]).place < picked.len()
}

/// The TOON of each item under a heading, the first `items` of `total`.
pub open spec fn toon_sections(picked: Seq<PickedElement>, items: Seq<Extracted>, total: nat) -> Seq<
    char,
>
    decreases items.len(),
{
    if items.len() == 0 {
        Seq::empty()
    } else {
        let p = picked[items.last().place as int];
        toon_sections(picked, items.drop_last(), total) + ("## Element "@ + decimal(items.len())
            + " of "@ + decimal(total) + " — "@ + p.role@ + " \""@ + p.name@ + "\"\n\n"@
            + items.last().result.toon@ + "\n\n---\n\n"@)
    }
}

/// The TOON of several elements.
pub open spec fn merged_toon(picked: Seq<PickedElement>, items: Seq<Extracted>) -> Seq<char> {
    "# VibeExtract — multi-element capture ("@ + decimal(items.len()) + " elements)\n\n"@
        + toon_sections(picked, items, items.len())
}

/// The TOON of several elements.
pub fn merge_toon(picked: &Vec<PickedElement>, items: &Vec<Extracted>) -> (r: String)
    requires
        placed(picked@, items@),
    ensures
        r@ == merged_toon(picked@, items@),
{
    let total = decimal_text(items.len() as u64);
    let mut s = copy_of("# VibeExtract — multi-element capture (");
    s.push_str(total.as_str());
    s.push_str(" elements)\n\n");
    let ghost head = s@;
    assert(head =~= head + toon_sections(picked@, items@.take(0), items@.len()));
    for i in 0..items.len()
        invariant
            placed(picked@, items@),
            total@ == decimal(items@.len()),
            s@ == head + toon_sections(picked@, items@.take(i as int), items@.len()),
    {
        assert(items@.take(i + 1).drop_last() =~= items@.take(i as int));
        let p = &picked[items[i].place];
        let mut part = copy_of("## Element ");
        part.push_str(decimal_text(i as u64 + 1).as_str());
        part.push_str(" of ");
        part.push_str(total.as_str());
        part.push_str(" — ");
        part.push_str(p.role.as_str());
        part.push_str(" \"");
        part.push_str(p.name.as_str());
        part.push_str("\"\n\n");
        part.push_str(items[i].result.toon.as_str());
        part.push_str("\n\n---\n\n");
        s.push_str(part.as_str());
        assert(s@ =~= head + toon_sections(picked@, items@.take(i + 1), items@.len()));
    }
    assert(items@.take(items@.len() as int) =~= items@);
    s
}

/// The page of each item in a frame of its own, which keeps its styles and scripts
/// apart from the others.
pub open spec fn html_sections(picked: Seq<PickedElement>, items: Seq<Extracted>, total: nat) -> Seq<
    char,
>
    decreases items.len(),
{
    if items.len() == 0 {
        Seq::empty()
    } else {
        let p = picked[items.last().place as int];
        html_sections(picked, items.drop_last(), total) + (SECTION_INDEX@ + decimal(
            (items.len() - 1) as nat,
        ) + SECTION_NUMBER@ + decimal(items.len()) + SECTION_OF@ + decimal(total) + SECTION_ROLE@
            + html_text(p.role@) + SECTION_NAME@ + html_text(p.name@) + SECTION_FRAME@ + html_text(
            items.last().result.html@,
        ) + SECTION_END@)
    }
}

/// The page of several elements.
pub open spec fn merged_html(picked: Seq<PickedElement>, items: Seq<Extracted>) -> Seq<char> {
    MULTI_TITLE@ + decimal(items.len()) + MULTI_STYLE@ + decimal(items.len()) + MULTI_BODY@
        + html_sections(picked, items, items.len()) + MULTI_END@
}

/// The page of several elements.
pub fn merge_html(picked: &Vec<PickedElement>, items: &Vec<Extracted>) -> (r: String)
    requires
        placed(picked@, items@),
    ensures
        r@ == merged_html(picked@, items@),
{
    let total = decimal_text(items.len() as u64);
    let mut sections = String::new();
    for i in 0..items.len()
        invariant
            placed(picked@, items@),
            total@ == decimal(items@.len()),
            sections@ == html_sections(picked@, items@.take(i as int), items@.len()),
    {
        assert(items@.take(i + 1).drop_last() =~= items@.take(i as int));
        let p = &picked[items[i].place];
        let mut part = copy_of(SECTION_INDEX);
        part.push_str(decimal_text(i as u64).as_str());
        part.push_str(SECTION_NUMBER);
        part.push_str(decimal_text(i as u64 + 1).as_str());
        part.push_str(SECTION_OF);
        part.push_str(total.as_str());
        part.push_str(SECTION_ROLE);
        part.push_str(html_escape(p.role.as_str()).as_str());
        part.push_str(SECTION_NAME);
        part.push_str(html_escape(p.name.as_str()).as_str());
        part.push_str(SECTION_FRAME);
        part.push_str(html_escape(items[i].result.html.as_str()).as_str());
        part.push_str(SECTION_END);
        sections.push_str(part.as_str());
    }
    assert(items@.take(items@.len() as int) =~= items@);
    let mut out = copy_of(MULTI_TITLE);
    out.push_str(total.as_str());
    out.push_str(MULTI_STYLE);
    out.push_str(total.as_str());
    out.push_str(MULTI_BODY);
    out.push_str(sections.as_str());
    out.push_str(MULTI_END);
    out
}

/// The tree of the `i`th item with the element it belongs to; null where it has none.
pub open spec fn tree_entry(p: PickedElement, number: nat, tree: Option<Json>) -> JsonView {
    JsonView::Object(
        seq![
            ("element"@, JsonView::Number(JsonNumber::Whole(number as u64))),
            ("role"@, JsonView::Text(p.role@)),
            ("name"@, JsonView::Text(p.name@)),
            (
                "ax_tree"@,
                match tree {
                    Some(t) => t@,
                    None => JsonView::Null,
                },
            ),
        ],
    )
}

/// The entries of all items, in order.
pub open spec fn tree_entries(
    picked: Seq<PickedElement>,
    items: Seq<Extracted>,
    trees: Seq<Option<Json>>,
) -> Seq<JsonView> {
    items.map(|i: int, x: Extracted| tree_entry(picked[x.place as int], (i + 1) as nat, trees[i]))
}

/// One of the items has a tree.
pub open spec fn has_tree(items: Seq<Extracted>) -> bool {
    exists|i: int| 0 <= i < items.len() && (#[trigger] items[i]).result.ax_tree is Some
}

/// Combine each picked element's AX tree into one list, so a multi-element capture
/// stays a single structured spec. `trees` holds the parsed tree of each item.
/// `None` when no element had an AX tree (and no made-up empty list).
pub fn merge_ax_tree(
    picked: &Vec<PickedElement>,
    items: &Vec<Extracted>,
    trees: &Vec<Option<Json>>,
) -> (r: Option<Json>)
    requires
        placed(picked@, items@),
        trees@.len() == items@.len(),
    ensures
        match r {
            Some(j) => has_tree(items@) && j@ == JsonView::List(
                tree_entries(picked@, items@, trees@),
            ),
            None => !has_tree(items@),
        },
{
    let mut any = false;
    for i in 0..items.len()
        invariant
            any == exists|k: int| 0 <= k < i && (#[trigger] items@[k]).result.ax_tree is Some,
    {
        if items[i].result.ax_tree.is_some() {
            any = true;
        }
    }
    if !any {
        return None;
    }
    let mut list: Vec<Json> = Vec::new();
    for i in 0..items.len()
        invariant
            placed(picked@, items@),
            trees@.len() == items@.len(),
            list_view(list@) == tree_entries(picked@, items@, trees@).take(i as int),
    {
        let p = &picked[items[i].place];
        let tree = match &trees[i] {
            Some(t) => t.clone(),
            None => Json::Null,
        };
        let mut members: Vec<(String, Json)> = Vec::new();
        members.push((copy_of("element"), Json::Number(JsonNumber::Whole(i as u64 + 1))));
        members.push((copy_of("role"), Json::Text(copy_of(p.role.as_str()))));
        members.push((copy_of("name"), Json::Text(copy_of(p.name.as_str()))));
        members.push((copy_of("ax_tree"), tree));
        let ghost entry = tree_entry(*p, (i + 1) as nat, trees@[i as int]);
        proof {
            crate::json::members_view_pointwise(members@);
            assert(crate::json::members_view(members@) =~= entry->Object_0);
        }
        let ghost before = list@;
        list.push(Json::Object(members));
        proof {
            assert(list@.drop_last() =~= before);
            assert(list@.last()@ == JsonView::Object(crate::json::members_view(members@)));
            assert(list@.last()@ == entry);
            assert(list_view(list@) == list_view(before).push(entry));
            assert(tree_entries(picked@, items@, trees@).take(i + 1) =~= tree_entries(
                picked@,
                items@,
                trees@,
            ).take(i as int).push(entry));
        }
    }
    assert(tree_entries(picked@, items@, trees@).take(items@.len() as int) =~= tree_entries(
        picked@,
        items@,
        trees@,
    ));
    Some(Json::List(list))
}

/// The diagnostics of each item under a heading.
pub open spec fn item_diagnostics(picked: Seq<PickedElement>, items: Seq<Extracted>) -> Seq<
    Seq<char>,
>
    decreases items.len(),
{
    if items.len() == 0 {
        Seq::empty()
    } else {
        item_diagnostics(picked, items.drop_last()).push(
            "--- element "@ + decimal(items.len()) + " ("@ + picked[items.last().place as int].role@
                + ") ---"@,
        ) + texts(items.last().result.diagnostics@)
    }
}

/// The result of several elements: the first names strategy, fidelity and
/// screenshot, and what went wrong for others stands at the end of the diagnostics.
pub open spec fn merged_view(
    picked: Seq<PickedElement>,
    items: Seq<Extracted>,
    errors: Seq<Seq<char>>,
    ax_tree: Option<Seq<char>>,
) -> CaptureView {
    CaptureView {
        strategy: items[0].result.strategy@ + " (×"@ + decimal(items.len()) + ")"@,
        fidelity: items[0].result.fidelity@,
        toon: merged_toon(picked, items),
        html: merged_html(picked, items),
        screenshot_png_b64: opt_view(items[0].result.screenshot_png_b64),
        diagnostics: item_diagnostics(picked, items) + errors,
        ax_tree,
    }
}

fn append_texts(out: &mut Vec<String>, more: &Vec<String>)
    ensures
        texts(final(out)@) == texts(old(out)@) + texts(more@),
{
    let ghost before = out@;
    for i in 0..more.len()
        invariant
            out@.len() == before.len() + i,
            forall|k: int| 0 <= k < before.len() ==> #[trigger] out@[k]@ == before[k]@,
            forall|k: int|
                before.len() <= k < before.len() + i ==> #[trigger] out@[k]@ == more@[k
                    - before.len()]@,
    {
        out.push(copy_of(more[i].as_str()));
    }
    assert(texts(out@) =~= texts(before) + texts(more@));
}

/// The result of several elements. `ax_tree` is the merged tree as JSON text.
pub fn merge_results(
    picked: &Vec<PickedElement>,
    items: &Vec<Extracted>,
    errors: &Vec<String>,
    ax_tree: Option<String>,
) -> (r: CaptureResult)
    requires
        placed(picked@, items@),
        items@.len() > 0,
    ensures
        r@ == merged_view(picked@, items@, texts(errors@), opt_view(ax_tree)),
{
    let mut diagnostics: Vec<String> = Vec::new();
    assert(texts(diagnostics@) =~= item_diagnostics(picked@, items@.take(0)));
    for i in 0..items.len()
        invariant
            placed(picked@, items@),
            texts(diagnostics@) == item_diagnostics(picked@, items@.take(i as int)),
    {
        assert(items@.take(i + 1).drop_last() =~= items@.take(i as int));
        let ghost before = diagnostics@;
        let mut line = copy_of("--- element ");
        line.push_str(decimal_text(i as u64 + 1).as_str());
        line.push_str(" (");
        line.push_str(picked[items[i].place].role.as_str());
        line.push_str(") ---");
        diagnostics.push(line);
        assert(texts(diagnostics@) =~= texts(before).push(line@));
        append_texts(&mut diagnostics, &items[i].result.diagnostics);
    }
    assert(items@.take(items@.len() as int) =~= items@);
    append_texts(&mut diagnostics, errors);
    let first = &items[0].result;
    let mut strategy = copy_of(first.strategy.as_str());
    strategy.push_str(" (×");
    strategy.push_str(decimal_text(items.len() as u64).as_str());
    strategy.push_str(")");
    let r = CaptureResult {
        strategy,
        fidelity: copy_of(first.fidelity.as_str()),
        toon: merge_toon(picked, items),
        html: merge_html(picked, items),
        screenshot_png_b64: copy_of_opt(&first.screenshot_png_b64),
        diagnostics,
        ax_tree,
    };
    assert(r@ =~= merged_view(picked@, items@, texts(errors@), opt_view(ax_tree)));
    r
}

// ---------------------------------------------------------------------------
// What several elements come to
// ---------------------------------------------------------------------------

/// Every element that was extracted is among the results, with its own place and what was
/// extracted for it; every other is among the errors, with its place and its own error.
/// Both are in the order of the selection.
pub proof fn every_outcome_is_accounted_for(
    outcomes: Seq<Result<CaptureResult, ExtractError>>,
    i: int,
)
    requires
        0 <= i < outcomes.len(),
    ensures
        successes(outcomes).len() + failures(outcomes).len() == outcomes.len(),
        outcomes[i] matches Ok(c) ==> successes(outcomes).contains((i, c@)),
        outcomes[i] matches Err(e) ==> failures(outcomes).contains(
            "element "@ + decimal(i as nat) + ": "@ + e@.words(),
        ),
        forall|k: int|
            0 <= k < successes(outcomes).len() ==> {
                let (place, c) = #[trigger] successes(outcomes)[k];
                0 <= place < outcomes.len() && (outcomes[place] matches Ok(r) && r@ == c)
            },
        forall|j: int, k: int|
            0 <= j < k < successes(outcomes).len() ==> (#[trigger] successes(outcomes)[j]).0 < (
            #[trigger] successes(outcomes)[k]).0,
    decreases outcomes.len(),
{
    let short = outcomes.drop_last();
    let last = outcomes.last();
    let (head, all) = (successes(short), successes(outcomes));
    assert(successes(Seq::<Result<CaptureResult, ExtractError>>::empty()).len() == 0);
    assert(failures(Seq::<Result<CaptureResult, ExtractError>>::empty()).len() == 0);
    if short.len() == 0 {
        assert(short =~= Seq::empty());
    }
    if short.len() > 0 {
        every_outcome_is_accounted_for(
            short,
            if i < short.len() {
                i
            } else {
                0
            },
        );
    }
    assert forall|k: int| 0 <= k < all.len() implies {
        let (place, c) = #[trigger] all[k];
        0 <= place < outcomes.len() && (outcomes[place] matches Ok(r) && r@ == c)
    } by {
        if k < head.len() {
            assert(all[k] == head[k]);
            assert(short[head[k].0] == outcomes[head[k].0]);
        }
    }
    assert forall|j: int, k: int| 0 <= j < k < all.len() implies (#[trigger] all[j]).0 < (
    #[trigger] all[k]).0 by {
        assert(all[j] == head[j]);
        if k < head.len() {
            assert(all[k] == head[k]);
        }
    }
    match last {
        Ok(c) => {
            assert(all.last() == (outcomes.len() - 1, c@));
        },
        Err(e) => {
            assert(failures(outcomes).last() == "element "@ + decimal((outcomes.len() - 1) as nat)
                + ": "@ + e@.words());
        },
    }
    if i < short.len() {
        match outcomes[i] {
            Ok(c) => {
                let k = choose|k: int| 0 <= k < head.len() && head[k] == (i, c@);
                assert(all[k] == (i, c@));
            },
            Err(e) => {
                let words = "element "@ + decimal(i as nat) + ": "@ + e@.words();
                let bad = failures(short);
                let k = choose|k: int| 0 <= k < bad.len() && bad[k] == words;
                assert(failures(outcomes)[k] == words);
            },
        }
    }
}

/// The heading of an element: its number, how many there are, its role and its name.
pub open spec fn element_heading(p: PickedElement, number: nat, total: nat) -> Seq<char> {
    "## Element "@ + decimal(number) + " of "@ + decimal(total) + " — "@ + p.role@ + " \""@ + p.name@
        + "\"\n\n"@
}

proof fn toon_sections_hold_each(
    picked: Seq<PickedElement>,
    items: Seq<Extracted>,
    total: nat,
    i: int,
)
    requires
        0 <= i < items.len(),
    ensures
        occurs(
            toon_sections(picked, items, total),
            element_heading(picked[items[i].place as int], (i + 1) as nat, total)
                + items[i].result.toon@,
        ),
    decreases items.len(),
{
    broadcast use crate::text::group_parts;

    let head = toon_sections(picked, items.drop_last(), total);
    let p = picked[items[i].place as int];
    let section = element_heading(p, (i + 1) as nat, total) + items[i].result.toon@;
    if i == items.len() - 1 {
        assert(occurs(section + "\n\n---\n\n"@, section));
        assert(toon_sections(picked, items, total) == head + (section + "\n\n---\n\n"@));
    } else {
        toon_sections_hold_each(picked, items.drop_last(), total, i);
    }
}

proof fn html_sections_hold_each(
    picked: Seq<PickedElement>,
    items: Seq<Extracted>,
    total: nat,
    i: int,
)
    requires
        0 <= i < items.len(),
    ensures
        occurs(
            html_sections(picked, items, total),
            html_text(picked[items[i].place as int].role@) + SECTION_NAME@ + html_text(
                picked[items[i].place as int].name@,
            ) + SECTION_FRAME@ + html_text(items[i].result.html@) + "\""@,
        ),
    decreases items.len(),
{
    let head = html_sections(picked, items.drop_last(), total);
    if i == items.len() - 1 {
        let p = picked[items[i].place as int];
        let before = SECTION_INDEX@ + decimal((items.len() - 1) as nat) + SECTION_NUMBER@ + decimal(
            items.len(),
        ) + SECTION_OF@ + decimal(total) + SECTION_ROLE@;
        let (role, name) = (html_text(p.role@), html_text(p.name@));
        let page = html_text(items[i].result.html@);
        frame_stands(before, role, SECTION_NAME@, name, SECTION_FRAME@, page, SECTION_END@);
        let section = before + role + SECTION_NAME@ + name + SECTION_FRAME@ + page + SECTION_END@;
        occurs_in_second(
            head,
            section,
            role + SECTION_NAME@ + name + SECTION_FRAME@ + page + "\""@,
        );
    } else {
        html_sections_hold_each(picked, items.drop_last(), total, i);
        let p = picked[items.last().place as int];
        let section = SECTION_INDEX@ + decimal((items.len() - 1) as nat) + SECTION_NUMBER@ + decimal(
            items.len(),
        ) + SECTION_OF@ + decimal(total) + SECTION_ROLE@ + html_text(p.role@) + SECTION_NAME@
            + html_text(p.name@) + SECTION_FRAME@ + html_text(items.last().result.html@)
            + SECTION_END@;
        let q = picked[items[i].place as int];
        occurs_in_first(
            head,
            section,
            html_text(q.role@) + SECTION_NAME@ + html_text(q.name@) + SECTION_FRAME@ + html_text(
                items[i].result.html@,
            ) + "\""@,
        );
    }
}

proof fn frame_stands(
    z: Seq<char>,
    a: Seq<char>,
    b: Seq<char>,
    c: Seq<char>,
    d: Seq<char>,
    e: Seq<char>,
    f: Seq<char>,
)
    requires
        f == SECTION_END@,
    ensures
        occurs(z + a + b + c + d + e + f, a + b + c + d + e + "\""@),
{
    reveal_strlit("\" sandbox=\"allow-scripts allow-same-origin\"></iframe>\n</section>");
    reveal_strlit("\"");
    let run = a + b + c + d + e + "\""@;
    assert(f[0] == '"');
    assert(f =~= "\""@ + f.skip(1));
    assert(z + a + b + c + d + e + f =~= z + run + f.skip(1));
    part_occurs(z, run, f.skip(1));
}

/// A merged capture holds the TOON of every element under a heading of its own, with the
/// role and the name of the element it belongs to, and the page of every element in a
/// frame of its own, escaped so that it cannot leave it.
pub proof fn every_element_is_in_the_merged_capture(
    picked: Seq<PickedElement>,
    items: Seq<Extracted>,
    i: int,
)
    requires
        0 <= i < items.len(),
    ensures
        occurs(
            merged_toon(picked, items),
            element_heading(picked[items[i].place as int], (i + 1) as nat, items.len())
                + items[i].result.toon@,
        ),
        occurs(
            merged_html(picked, items),
            html_text(picked[items[i].place as int].role@) + SECTION_NAME@ + html_text(
                picked[items[i].place as int].name@,
            ) + SECTION_FRAME@ + html_text(items[i].result.html@) + "\""@,
        ),
{
    toon_sections_hold_each(picked, items, items.len(), i);
    html_sections_hold_each(picked, items, items.len(), i);
    let toon = toon_sections(picked, items, items.len());
    let html = html_sections(picked, items, items.len());
    let a = element_heading(picked[items[i].place as int], (i + 1) as nat, items.len())
        + items[i].result.toon@;
    let b = html_text(picked[items[i].place as int].role@) + SECTION_NAME@ + html_text(
        picked[items[i].place as int].name@,
    ) + SECTION_FRAME@ + html_text(items[i].result.html@) + "\""@;
    let top = "# VibeExtract — multi-element capture ("@ + decimal(items.len())
        + " elements)\n\n"@;
    occurs_in_second(top, toon, a);
    let head = MULTI_TITLE@ + decimal(items.len()) + MULTI_STYLE@ + decimal(items.len())
        + MULTI_BODY@;
    occurs_in_second(head, html, b);
    occurs_in_first(head + html, MULTI_END@, b);
}

proof fn tree_keys_differ()
    ensures
        "element"@ != "role"@,
        "element"@ != "name"@,
        "role"@ != "name"@,
        "element"@ != "ax_tree"@,
        "role"@ != "ax_tree"@,
        "name"@ != "ax_tree"@,
{
    reveal_strlit("element");
    reveal_strlit("role");
    reveal_strlit("name");
    reveal_strlit("ax_tree");
    assert("element"@[0] == 'e' && "role"@[0] == 'r' && "name"@[0] == 'n' && "ax_tree"@[0] == 'a');
}

/// The merged tree has one entry for each element, numbered from one, with the role and
/// the name of the element it belongs to, and that element's own tree, or null.
pub proof fn every_tree_is_its_elements(
    picked: Seq<PickedElement>,
    items: Seq<Extracted>,
    trees: Seq<Option<Json>>,
    i: int,
)
    requires
        0 <= i < items.len() == trees.len(),
        i < u64::MAX,
    ensures
        tree_entries(picked, items, trees).len() == items.len(),
        ({
            let e = tree_entries(picked, items, trees)[i];
            let p = picked[items[i].place as int];
            &&& e.member("element"@) == Some(JsonView::Number(JsonNumber::Whole((i + 1) as u64)))
            &&& e.member("role"@) == Some(JsonView::Text(p.role@))
            &&& e.member("name"@) == Some(JsonView::Text(p.name@))
            &&& trees[i] matches Some(t) ==> e.member("ax_tree"@) == Some(t@)
            &&& trees[i] is None ==> e.member("ax_tree"@) == Some(JsonView::Null)
        }),
{
    tree_keys_differ();
    let members = tree_entries(picked, items, trees)[i]->Object_0;
    a_member_is_the_first_with_its_key(members, "element"@, 0);
    a_member_is_the_first_with_its_key(members, "role"@, 1);
    a_member_is_the_first_with_its_key(members, "name"@, 2);
    a_member_is_the_first_with_its_key(members, "ax_tree"@, 3);
}

/// Nothing that any element reported is lost: the diagnostics of every element are among
/// those of the merged capture, and the errors are the last of them. The first element
/// gives the strategy, the fidelity and the screenshot.
pub proof fn nothing_reported_is_lost(
    picked: Seq<PickedElement>,
    items: Seq<Extracted>,
    errors: Seq<Seq<char>>,
    ax_tree: Option<Seq<char>>,
    i: int,
    k: int,
)
    requires
        0 <= i < items.len(),
    ensures
        ({
            let r = merged_view(picked, items, errors, ax_tree);
            &&& 0 <= k < items[i].result.diagnostics@.len() ==> r.diagnostics.contains(
                items[i].result.diagnostics@[k]@,
            )
            &&& r.diagnostics.len() >= errors.len()
            &&& r.diagnostics.skip(r.diagnostics.len() - errors.len()) == errors
            &&& begins(r.strategy, items[0].result.strategy@)
            &&& occurs(r.strategy, "(×"@ + decimal(items.len()) + ")"@)
            &&& r.fidelity == items[0].result.fidelity@
            &&& r.screenshot_png_b64 == opt_view(items[0].result.screenshot_png_b64)
            &&& r.ax_tree == ax_tree
        }),
{
    broadcast use crate::text::group_parts;

    let all = item_diagnostics(picked, items);
    let r = merged_view(picked, items, errors, ax_tree);
    assert(r.diagnostics.skip(r.diagnostics.len() - errors.len()) =~= errors);
    if 0 <= k < items[i].result.diagnostics@.len() {
        diagnostics_hold_each(picked, items, i, k);
        let text = items[i].result.diagnostics@[k]@;
        let j = choose|j: int| 0 <= j < all.len() && all[j] == text;
        assert(r.diagnostics[j] == text);
    }
    reveal_strlit(" (×");
    reveal_strlit("(×");
    let n = decimal(items.len());
    let first = items[0].result.strategy@;
    assert(first + " (×"@ + n + ")"@ =~= first + seq![' '] + ("(×"@ + n + ")"@));
}

proof fn diagnostics_hold_each(picked: Seq<PickedElement>, items: Seq<Extracted>, i: int, k: int)
    requires
        0 <= i < items.len(),
        0 <= k < items[i].result.diagnostics@.len(),
    ensures
        item_diagnostics(picked, items).contains(items[i].result.diagnostics@[k]@),
    decreases items.len(),
{
    let head = item_diagnostics(picked, items.drop_last());
    let all = item_diagnostics(picked, items);
    let last = texts(items.last().result.diagnostics@);
    let text = items[i].result.diagnostics@[k]@;
    if i == items.len() - 1 {
        assert(last[k] == text);
        assert(all[head.len() + 1 + k] == text);
    } else {
        diagnostics_hold_each(picked, items.drop_last(), i, k);
        let j = choose|j: int| 0 <= j < head.len() && head[j] == text;
        assert(all[j] == text);
    }
}

/// The folders of two elements of one selection differ.
pub proof fn element_folders_differ(i: nat, j: nat)
    requires
        "elem-"@ + decimal(i) == "elem-"@ + decimal(j),
    ensures
        i == j,
{
    let n = "elem-"@.len() as int;
    assert(("elem-"@ + decimal(i)).skip(n) =~= decimal(i));
    assert(("elem-"@ + decimal(j)).skip(n) =~= decimal(j));
    decimal_reads_back(i);
    decimal_reads_back(j);
}

/// Only the request to relaunch an app ends the run; neither a result nor another error
/// does.
pub proof fn only_a_relaunch_ends_the_run(r: Result<CaptureResult, ExtractError>)
    ensures
        r is Ok ==> !asks_relaunch(r),
        r matches Err(e) ==> (asks_relaunch(r) <==> e is ElectronNeedsRelaunch),
{
}

/// The merged capture has a tree exactly where one of the elements has.
pub proof fn one_tree_makes_a_tree(items: Seq<Extracted>, i: int)
    requires
        0 <= i < items.len(),
    ensures
        items[i].result.ax_tree is Some ==> has_tree(items),
        (forall|j: int| 0 <= j < items.len() ==> (#[trigger] items[j]).result.ax_tree is None)
            ==> !has_tree(items),
{
}

} // verus!
