//! Cycle breaking is stable: run again on a file that it has accepted, it
//! finds the same candidate cycles and changes no field.

use vstd::prelude::*;
use crate::cycles::{
    Breaking, PlanView, boxing_of, break_plans, break_range, break_ranges, component_ranges,
    cycle_plans, field_ranges, is_real_cycle, lemma_box_within_boxes, lemma_break_plans,
    lemma_break_ranges, paths_of, plan_of, reference_graph, refers,
};
use crate::graph::{components, lemma_components_hold_nodes};
use crate::lifetime::lemma_forest_holds_subtrees;
use crate::model::{DescView, FieldView, Frequency, MessageView, OneOfView};
use crate::passes::{
    PassView, refers_within, rewrite_field, rewrite_fields, rewrite_message, rewrite_messages,
    rewrite_oneof,
};
use crate::tree::{forest, lemma_subtree_unfold, subtree};

verus! {

/// Whether a pass leaves every field of the message `x` as it is.
pub open spec fn leaves_fields(pass: PassView, x: MessageView) -> bool {
    forall|j: int|
        0 <= j < x.all_fields().len() ==> rewrite_field(
            pass,
            x.owner(),
            #[trigger] x.all_fields()[j],
        ) == x.all_fields()[j]
}

/// What is in one of the lists is in the flattened list.
pub proof fn lemma_flatten_holds<A>(lists: Seq<Seq<A>>, o: int, j: int)
    requires
        0 <= o < lists.len(),
        0 <= j < lists[o].len(),
    ensures
        lists.flatten().contains(lists[o][j]),
    decreases lists.len(),
{
    let front = lists.drop_last();
    let last = lists.last();
    assert(lists =~= front.push(last));
    front.lemma_flatten_push(last);
    let whole = front.flatten() + last;
    if o == lists.len() - 1 {
        assert(whole[front.flatten().len() + j] == lists[o][j]);
    } else {
        lemma_flatten_holds(front, o, j);
        let at = choose|at: int| 0 <= at < front.flatten().len() && front.flatten()[at] == front[o][j];
        assert(whole[at] == lists[o][j]);
    }
}

/// A pass that leaves every field of a message, and of the messages
/// nested in it, as it is leaves the message as it is.
pub proof fn lemma_unchanged_message(pass: PassView, m: MessageView)
    requires
        forall|x: MessageView| subtree(m).contains(x) ==> leaves_fields(pass, x),
    ensures
        rewrite_message(pass, m) == m,
    decreases m,
{
    lemma_subtree_unfold(m);
    assert(subtree(m)[0] == m);
    assert(leaves_fields(pass, m));
    let all = m.all_fields();
    let lists = m.oneofs.map_values(|o: OneOfView| o.fields);
    assert forall|j: int| 0 <= j < m.fields.len() implies rewrite_field(
        pass,
        m.owner(),
        #[trigger] m.fields[j],
    ) == m.fields[j] by {
        assert(all[j] == m.fields[j]);
    }
    assert(rewrite_fields(pass, m.owner(), m.fields) =~= m.fields);
    assert forall|o: int| 0 <= o < m.oneofs.len() implies rewrite_oneof(
        pass,
        m.owner(),
        #[trigger] m.oneofs[o],
    ) == m.oneofs[o] by {
        let fields = m.oneofs[o].fields;
        assert forall|j: int| 0 <= j < fields.len() implies rewrite_field(
            pass,
            m.owner(),
            #[trigger] fields[j],
        ) == fields[j] by {
            lemma_flatten_holds(lists, o, j);
            let at = choose|at: int|
                0 <= at < lists.flatten().len() && lists.flatten()[at] == lists[o][j];
            assert(all[m.fields.len() + at] == fields[j]);
        }
        assert(rewrite_fields(pass, m.owner(), fields) =~= fields);
    }
    assert(m.oneofs.map_values(|o: OneOfView| rewrite_oneof(pass, m.owner(), o)) =~= m.oneofs);
    assert forall|i: int| 0 <= i < m.messages.len() implies rewrite_message(
        pass,
        #[trigger] m.messages[i],
    ) == m.messages[i] by {
        assert forall|x: MessageView| subtree(m.messages[i]).contains(x) implies leaves_fields(
            pass,
            x,
        ) by {
            lemma_forest_holds_subtrees(m.messages, i, m.messages.len() as int, x);
            assert(m.messages.take(m.messages.len() as int) =~= m.messages);
            let at = choose|at: int|
                0 <= at < forest(m.messages).len() && forest(m.messages)[at] == x;
            assert(subtree(m)[at + 1] == x);
        }
        lemma_unchanged_message(pass, m.messages[i]);
    }
    assert(rewrite_message(pass, m).messages =~= m.messages);
}

/// A pass that leaves every field of every message of a file as it is
/// leaves the messages as they are.
pub proof fn lemma_unchanged_messages(pass: PassView, messages: Seq<MessageView>)
    requires
        forall|k: int|
            0 <= k < forest(messages).len() ==> leaves_fields(pass, #[trigger] forest(messages)[k]),
    ensures
        rewrite_messages(pass, messages) == messages,
{
    assert forall|i: int| 0 <= i < messages.len() implies rewrite_message(
        pass,
        #[trigger] messages[i],
    ) == messages[i] by {
        assert forall|x: MessageView| subtree(messages[i]).contains(x) implies leaves_fields(
            pass,
            x,
        ) by {
            lemma_forest_holds_subtrees(messages, i, messages.len() as int, x);
            assert(messages.take(messages.len() as int) =~= messages);
            let at = choose|at: int| 0 <= at < forest(messages).len() && forest(messages)[at] == x;
            assert(leaves_fields(pass, forest(messages)[at]));
        }
        lemma_unchanged_message(pass, messages[i]);
    }
    assert(rewrite_messages(pass, messages) =~= messages);
}

/// Whether a candidate cycle needs no more work: every optional field by
/// which its messages refer to each other is boxed, and if a reference
/// that is not boxed is left, cycles are not refused and no required field
/// refers from one of its messages to another.
pub open spec fn is_settled(all: Seq<MessageView>, cycle: Seq<Seq<usize>>, error_cycle: bool) -> bool {
    &&& forall|k: int, j: int|
        0 <= k < all.len() && 0 <= j < all[k].all_fields().len() && refers_within(
            all[k].owner(),
            #[trigger] all[k].all_fields()[j],
            cycle,
        ) && all[k].all_fields()[j].frequency == Frequency::Optional
            ==> all[k].all_fields()[j].boxed
    &&& is_real_cycle(all, cycle) ==> !error_cycle && forall|k: int, j: int|
        0 <= k < all.len() && 0 <= j < all[k].all_fields().len() && refers_within(
            all[k].owner(),
            #[trigger] all[k].all_fields()[j],
            cycle,
        ) ==> all[k].all_fields()[j].frequency != Frequency::Required
}

/// A candidate cycle that was broken and not refused is settled.
pub proof fn lemma_range_settles(messages: Seq<MessageView>, cycle: Seq<Seq<usize>>, error_cycle: bool)
    requires
        break_range(messages, cycle, error_cycle).cycle is None,
    ensures
        is_settled(forest(break_range(messages, cycle, error_cycle).messages), cycle, error_cycle),
{
    let first = PassView::BoxWithin(cycle, Frequency::Optional);
    let second = PassView::BoxWithin(cycle, Frequency::Required);
    let all = forest(messages);
    let boxed = rewrite_messages(first, messages);
    let mid = forest(boxed);
    lemma_box_within_boxes(messages, cycle, Frequency::Optional);
    assert forall|k: int, j: int|
        0 <= k < mid.len() && 0 <= j < mid[k].all_fields().len() && refers_within(
            mid[k].owner(),
            #[trigger] mid[k].all_fields()[j],
            cycle,
        ) && mid[k].all_fields()[j].frequency == Frequency::Optional implies mid[k].all_fields()[j].boxed by {
        let f = all[k].all_fields()[j];
        assert(mid[k].owner() == all[k].owner());
        assert(mid[k].all_fields()[j] == rewrite_field(first, all[k].owner(), f));
    }
    if is_real_cycle(mid, cycle) {
        let end = forest(rewrite_messages(second, boxed));
        lemma_box_within_boxes(boxed, cycle, Frequency::Required);
        assert forall|k: int, j: int|
            0 <= k < end.len() && 0 <= j < end[k].all_fields().len() && refers_within(
                end[k].owner(),
                #[trigger] end[k].all_fields()[j],
                cycle,
            ) implies end[k].all_fields()[j].frequency != Frequency::Required && (
        end[k].all_fields()[j].frequency == Frequency::Optional ==> end[k].all_fields()[j].boxed) by {
            let g = mid[k].all_fields()[j];
            assert(end[k].owner() == mid[k].owner());
            assert(end[k].all_fields()[j] == rewrite_field(second, mid[k].owner(), g));
            assert(refers_within(mid[k].owner(), g, cycle));
        }
    }
}

/// A settled candidate cycle stays settled when more fields become boxed.
pub proof fn lemma_settled_stays(
    before: Seq<MessageView>,
    after: Seq<MessageView>,
    cycle: Seq<Seq<usize>>,
    error_cycle: bool,
)
    requires
        boxing_of(before, after),
        is_settled(before, cycle, error_cycle),
    ensures
        is_settled(after, cycle, error_cycle),
{
    assert forall|k: int, j: int|
        0 <= k < after.len() && 0 <= j < after[k].all_fields().len() && refers_within(
            after[k].owner(),
            #[trigger] after[k].all_fields()[j],
            cycle,
        ) && after[k].all_fields()[j].frequency == Frequency::Optional implies after[k].all_fields()[j].boxed by {
        let f = before[k].all_fields()[j];
        assert(after[k].owner() == before[k].owner());
        assert(refers_within(before[k].owner(), f, cycle));
    }
    if is_real_cycle(after, cycle) {
        let (k, j) = choose|k: int, j: int|
            0 <= k < after.len() && 0 <= j < after[k].all_fields().len() && refers_within(
                after[k].owner(),
                #[trigger] after[k].all_fields()[j],
                cycle,
            ) && !after[k].all_fields()[j].boxed;
        let f = before[k].all_fields()[j];
        assert(after[k].owner() == before[k].owner());
        assert(refers_within(before[k].owner(), f, cycle) && !f.boxed);
        assert(is_real_cycle(before, cycle));
        assert forall|k: int, j: int|
            0 <= k < after.len() && 0 <= j < after[k].all_fields().len() && refers_within(
                after[k].owner(),
                #[trigger] after[k].all_fields()[j],
                cycle,
            ) implies after[k].all_fields()[j].frequency != Frequency::Required by {
            let f = before[k].all_fields()[j];
            assert(after[k].owner() == before[k].owner());
            assert(refers_within(before[k].owner(), f, cycle));
        }
    }
}

/// Breaking a settled candidate cycle changes nothing and refuses nothing.
pub proof fn lemma_settled_range_is_kept(
    messages: Seq<MessageView>,
    cycle: Seq<Seq<usize>>,
    error_cycle: bool,
)
    requires
        is_settled(forest(messages), cycle, error_cycle),
    ensures
        break_range(messages, cycle, error_cycle).messages == messages,
        break_range(messages, cycle, error_cycle).cycle is None,
{
    let first = PassView::BoxWithin(cycle, Frequency::Optional);
    let second = PassView::BoxWithin(cycle, Frequency::Required);
    let all = forest(messages);
    assert forall|k: int| 0 <= k < all.len() implies leaves_fields(first, #[trigger] all[k]) by {
        assert forall|j: int| 0 <= j < all[k].all_fields().len() implies rewrite_field(
            first,
            all[k].owner(),
            #[trigger] all[k].all_fields()[j],
        ) == all[k].all_fields()[j] by {}
    }
    lemma_unchanged_messages(first, messages);
    if is_real_cycle(all, cycle) {
        assert forall|k: int| 0 <= k < all.len() implies leaves_fields(second, #[trigger] all[k]) by {
            assert forall|j: int| 0 <= j < all[k].all_fields().len() implies rewrite_field(
                second,
                all[k].owner(),
                #[trigger] all[k].all_fields()[j],
            ) == all[k].all_fields()[j] by {}
        }
        lemma_unchanged_messages(second, messages);
    }
}

/// Whether every one of the candidate cycles of a component is settled.
pub open spec fn ranges_settled(
    all: Seq<MessageView>,
    paths: Seq<Seq<usize>>,
    ranges: Seq<(int, int)>,
    error_cycle: bool,
) -> bool {
    forall|x: int|
        0 <= x < ranges.len() ==> is_settled(
            all,
            paths.subrange((#[trigger] ranges[x]).0, ranges[x].1),
            error_cycle,
        )
}

/// Whether every candidate cycle of every component is settled.
pub open spec fn plans_settled(all: Seq<MessageView>, plans: Seq<PlanView>, error_cycle: bool) -> bool {
    forall|p: int|
        0 <= p < plans.len() ==> ranges_settled(
            all,
            (#[trigger] plans[p]).paths,
            plans[p].ranges,
            error_cycle,
        )
}

/// Where none of the candidate cycles of a component is refused, each is
/// settled once all are broken.
pub proof fn lemma_ranges_settle(
    messages: Seq<MessageView>,
    paths: Seq<Seq<usize>>,
    ranges: Seq<(int, int)>,
    error_cycle: bool,
)
    requires
        break_ranges(messages, paths, ranges, error_cycle).cycle is None,
    ensures
        ranges_settled(
            forest(break_ranges(messages, paths, ranges, error_cycle).messages),
            paths,
            ranges,
            error_cycle,
        ),
    decreases ranges.len(),
{
    if ranges.len() > 0 {
        let cycle = paths.subrange(ranges[0].0, ranges[0].1);
        let first = break_range(messages, cycle, error_cycle);
        let rest = ranges.skip(1);
        let out = break_ranges(first.messages, paths, rest, error_cycle);
        lemma_range_settles(messages, cycle, error_cycle);
        lemma_ranges_settle(first.messages, paths, rest, error_cycle);
        lemma_break_ranges(first.messages, paths, rest, error_cycle);
        lemma_settled_stays(forest(first.messages), forest(out.messages), cycle, error_cycle);
        assert forall|x: int| 0 <= x < ranges.len() implies is_settled(
            forest(out.messages),
            paths.subrange((#[trigger] ranges[x]).0, ranges[x].1),
            error_cycle,
        ) by {
            if x > 0 {
                assert(ranges[x] == rest[x - 1]);
            }
        }
    }
}

/// Where no candidate cycle is refused, each is settled once all are broken.
pub proof fn lemma_plans_settle(messages: Seq<MessageView>, plans: Seq<PlanView>, error_cycle: bool)
    requires
        break_plans(messages, plans, error_cycle).cycle is None,
    ensures
        plans_settled(forest(break_plans(messages, plans, error_cycle).messages), plans, error_cycle),
    decreases plans.len(),
{
    if plans.len() > 0 {
        let first = break_ranges(messages, plans[0].paths, plans[0].ranges, error_cycle);
        let rest = plans.skip(1);
        let out = break_plans(first.messages, rest, error_cycle);
        lemma_ranges_settle(messages, plans[0].paths, plans[0].ranges, error_cycle);
        lemma_plans_settle(first.messages, rest, error_cycle);
        lemma_break_plans(first.messages, rest, error_cycle);
        assert forall|p: int| 0 <= p < plans.len() implies ranges_settled(
            forest(out.messages),
            (#[trigger] plans[p]).paths,
            plans[p].ranges,
            error_cycle,
        ) by {
            if p == 0 {
                assert forall|x: int| 0 <= x < plans[0].ranges.len() implies is_settled(
                    forest(out.messages),
                    plans[0].paths.subrange((#[trigger] plans[0].ranges[x]).0, plans[0].ranges[x].1),
                    error_cycle,
                ) by {
                    lemma_settled_stays(
                        forest(first.messages),
                        forest(out.messages),
                        plans[0].paths.subrange(plans[0].ranges[x].0, plans[0].ranges[x].1),
                        error_cycle,
                    );
                }
            } else {
                assert(plans[p] == rest[p - 1]);
            }
        }
    }
}

/// Breaking the settled candidate cycles of a component changes nothing.
pub proof fn lemma_settled_ranges_are_kept(
    messages: Seq<MessageView>,
    paths: Seq<Seq<usize>>,
    ranges: Seq<(int, int)>,
    error_cycle: bool,
)
    requires
        ranges_settled(forest(messages), paths, ranges, error_cycle),
    ensures
        break_ranges(messages, paths, ranges, error_cycle).messages == messages,
        break_ranges(messages, paths, ranges, error_cycle).cycle is None,
    decreases ranges.len(),
{
    if ranges.len() > 0 {
        let cycle = paths.subrange(ranges[0].0, ranges[0].1);
        let rest = ranges.skip(1);
        lemma_settled_range_is_kept(messages, cycle, error_cycle);
        assert forall|x: int| 0 <= x < rest.len() implies is_settled(
            forest(messages),
            paths.subrange((#[trigger] rest[x]).0, rest[x].1),
            error_cycle,
        ) by {
            assert(rest[x] == ranges[x + 1]);
        }
        lemma_settled_ranges_are_kept(messages, paths, rest, error_cycle);
    }
}

/// Breaking settled candidate cycles changes nothing.
pub proof fn lemma_settled_plans_are_kept(
    messages: Seq<MessageView>,
    plans: Seq<PlanView>,
    error_cycle: bool,
)
    requires
        plans_settled(forest(messages), plans, error_cycle),
    ensures
        break_plans(messages, plans, error_cycle).messages == messages,
        break_plans(messages, plans, error_cycle).cycle is None,
    decreases plans.len(),
{
    if plans.len() > 0 {
        let rest = plans.skip(1);
        lemma_settled_ranges_are_kept(messages, plans[0].paths, plans[0].ranges, error_cycle);
        assert forall|p: int| 0 <= p < rest.len() implies ranges_settled(
            forest(messages),
            (#[trigger] rest[p]).paths,
            rest[p].ranges,
            error_cycle,
        ) by {
            assert(rest[p] == plans[p + 1]);
        }
        lemma_settled_plans_are_kept(messages, rest, error_cycle);
    }
}

/// Fields of the same types ask for the same ranges.
pub proof fn lemma_field_ranges_by_type(
    before: Seq<FieldView>,
    after: Seq<FieldView>,
    paths: Seq<Seq<usize>>,
    at: int,
)
    requires
        before.len() == after.len(),
        forall|j: int| 0 <= j < before.len() ==> (#[trigger] after[j]).typ == before[j].typ,
    ensures
        field_ranges(after, paths, at) == field_ranges(before, paths, at),
    decreases before.len(),
{
    if before.len() > 0 {
        assert forall|j: int| 0 <= j < before.drop_last().len() implies (
        #[trigger] after.drop_last()[j]).typ == before.drop_last()[j].typ by {
            assert(after.drop_last()[j] == after[j]);
        }
        lemma_field_ranges_by_type(before.drop_last(), after.drop_last(), paths, at);
        assert(after.last() == after[after.len() - 1]);
    }
}

/// Boxing fields leaves the ranges of a component as they are.
pub proof fn lemma_component_ranges_kept(
    before: Seq<MessageView>,
    after: Seq<MessageView>,
    nodes: Seq<int>,
    paths: Seq<Seq<usize>>,
    upto: int,
)
    requires
        boxing_of(before, after),
        forall|i: int| 0 <= i < nodes.len() ==> 0 <= #[trigger] nodes[i] < before.len(),
    ensures
        component_ranges(after, nodes, paths, upto) == component_ranges(before, nodes, paths, upto),
    decreases upto,
{
    if 0 < upto <= nodes.len() {
        lemma_component_ranges_kept(before, after, nodes, paths, upto - 1);
        let k = nodes[upto - 1];
        assert(after[k].owner() == before[k].owner());
        assert forall|j: int| 0 <= j < before[k].all_fields().len() implies (
        #[trigger] after[k].all_fields()[j]).typ == before[k].all_fields()[j].typ by {}
        lemma_field_ranges_by_type(before[k].all_fields(), after[k].all_fields(), paths, upto - 1);
    }
}

/// Boxing fields leaves the candidate cycles of a file as they are.
pub proof fn lemma_plans_kept(before: Seq<MessageView>, after: Seq<MessageView>)
    requires
        boxing_of(before, after),
    ensures
        cycle_plans(after) == cycle_plans(before),
{
    let g = reference_graph(before);
    let h = reference_graph(after);
    assert forall|a: int, b: int| 0 <= a < before.len() && 0 <= b < before.len() implies refers(
        after,
        a,
        b,
    ) == refers(before, a, b) by {
        assert(after[a].owner() == before[a].owner());
        assert(after[b].owner() == before[b].owner());
        if refers(before, a, b) {
            let j = choose|j: int|
                0 <= j < before[a].all_fields().len() && (#[trigger] before[a].all_fields()[j]).typ
                    == crate::model::TypeView::Message(before[b].index);
            assert(after[a].all_fields()[j].typ == before[a].all_fields()[j].typ);
        }
        if refers(after, a, b) {
            let j = choose|j: int|
                0 <= j < after[a].all_fields().len() && (#[trigger] after[a].all_fields()[j]).typ
                    == crate::model::TypeView::Message(after[b].index);
            assert(after[a].all_fields()[j].typ == before[a].all_fields()[j].typ);
        }
    }
    assert forall|a: int| 0 <= a < g.len() implies #[trigger] h[a] =~= g[a] by {
        assert forall|b: int| 0 <= b < g[a].len() implies h[a][b] == g[a][b] by {}
    }
    assert(h =~= g);
    lemma_components_hold_nodes(g);
    assert forall|c: int| 0 <= c < components(g).len() implies plan_of(
        after,
        #[trigger] components(g)[c],
    ) == plan_of(before, components(g)[c]) by {
        let nodes = components(g)[c];
        assert forall|i: int| 0 <= i < nodes.len() implies (#[trigger] after[nodes[i]]).index
            == before[nodes[i]].index by {
            assert(after[nodes[i]].owner() == before[nodes[i]].owner());
        }
        assert(paths_of(after, nodes) =~= paths_of(before, nodes));
        lemma_component_ranges_kept(
            before,
            after,
            nodes,
            paths_of(before, nodes),
            nodes.len() as int,
        );
    }
    assert(cycle_plans(after) =~= cycle_plans(before));
}

/// A second run of cycle breaking changes nothing: on a file that cycle
/// breaking has accepted, breaking the cycles again refuses none and
/// leaves every message as it is.
pub proof fn lemma_breaking_again_changes_nothing(d: DescView, error_cycle: bool)
    requires
        d.break_cycles(error_cycle).cycle is None,
    ensures
        (DescView { messages: d.break_cycles(error_cycle).messages, ..d }).break_cycles(
            error_cycle,
        ).messages == d.break_cycles(error_cycle).messages,
        (DescView { messages: d.break_cycles(error_cycle).messages, ..d }).break_cycles(
            error_cycle,
        ).cycle is None,
{
    let plans = cycle_plans(forest(d.messages));
    let once = d.break_cycles(error_cycle);
    lemma_break_plans(d.messages, plans, error_cycle);
    lemma_plans_kept(forest(d.messages), forest(once.messages));
    lemma_plans_settle(d.messages, plans, error_cycle);
    lemma_settled_plans_are_kept(once.messages, plans, error_cycle);
}

} // verus!
