//! Cycle breaking: messages that refer to each other in a cycle get boxed
//! fields, so that every message has a finite size in memory.

use vstd::prelude::*;
use crate::errors::Error;
use crate::graph::{
    class_upto, components, components_upto, is_root, is_square, lemma_component_has_root,
    lemma_components_hold_nodes, lemma_link_reaches, lemma_reaches_transitive, linked, lists_view,
    mutual, nodes_view, reaches, rows_view, strong_components,
};
use crate::model::{
    DescView, Field, FieldType, FieldView, FileDescriptor, Frequency, Message, MessageIndex,
    MessageView, TypeView,
};
use crate::passes::{
    FieldPass, PassView, lemma_rewrite_all_fields, lemma_rewrite_forest, paths_view, refers_within,
    rewrite_all_messages, rewrite_field, rewrite_fields, rewrite_messages,
};
use crate::symbols::strings_view;
use crate::tree::{field_refs_view, forest, message_refs_view};

verus! {

/// Whether message `a` of the list has a field whose type is message `b` of
/// the list. Map fields do not count: their type is the map.
pub open spec fn refers(all: Seq<MessageView>, a: int, b: int) -> bool {
    &&& 0 <= a < all.len()
    &&& 0 <= b < all.len()
    &&& exists|j: int|
        0 <= j < all[a].all_fields().len() && (#[trigger] all[a].all_fields()[j]).typ
            == TypeView::Message(all[b].index)
}

/// The reference graph of a list of messages: a link for every reference.
pub open spec fn reference_graph(all: Seq<MessageView>) -> Seq<Seq<bool>> {
    Seq::new(all.len(), |a: int| Seq::new(all.len(), |b: int| refers(all, a, b)))
}

/// The identities that the messages at `nodes` carry.
pub open spec fn paths_of(all: Seq<MessageView>, nodes: Seq<int>) -> Seq<Seq<usize>> {
    nodes.map_values(|k: int| all[k].index)
}

/// The first position at or after `from` at which `paths` holds `target`.
pub open spec fn first_from(paths: Seq<Seq<usize>>, target: Seq<usize>, from: int) -> Option<int>
    decreases paths.len() - from,
{
    if from < 0 || from >= paths.len() {
        None
    } else if paths[from] == target {
        Some(from)
    } else {
        first_from(paths, target, from + 1)
    }
}

/// The ranges of a component that the fields of its member at position `at`
/// ask to be examined: for every field that refers to a member at or after
/// `at`, the range from `at` to the first such member, in field order.
pub open spec fn field_ranges(fields: Seq<FieldView>, paths: Seq<Seq<usize>>, at: int) -> Seq<
    (int, int),
>
    decreases fields.len(),
{
    if fields.len() == 0 {
        Seq::empty()
    } else {
        field_ranges(fields.drop_last(), paths, at) + match fields.last().typ {
            TypeView::Message(t) => match first_from(paths, t, at) {
                Some(j) => seq![(at, j + 1)],
                None => Seq::empty(),
            },
            _ => Seq::empty(),
        }
    }
}

/// The ranges that the first `upto` members of a component ask to be examined.
pub open spec fn component_ranges(
    all: Seq<MessageView>,
    nodes: Seq<int>,
    paths: Seq<Seq<usize>>,
    upto: int,
) -> Seq<(int, int)>
    decreases upto,
{
    if upto <= 0 || upto > nodes.len() {
        Seq::empty()
    } else {
        component_ranges(all, nodes, paths, upto - 1) + field_ranges(
            all[nodes[upto - 1]].all_fields(),
            paths,
            upto - 1,
        )
    }
}

/// What is to be examined of one strongly connected component: the
/// identities of its members and the ranges of them that may form cycles.
pub struct PlanView {
    pub paths: Seq<Seq<usize>>,
    pub ranges: Seq<(int, int)>,
}

/// The plan for the component that holds the messages at `nodes`.
pub open spec fn plan_of(all: Seq<MessageView>, nodes: Seq<int>) -> PlanView {
    PlanView {
        paths: paths_of(all, nodes),
        ranges: component_ranges(all, nodes, paths_of(all, nodes), nodes.len() as int),
    }
}

/// The plans for all strongly connected components of the reference graph.
pub open spec fn cycle_plans(all: Seq<MessageView>) -> Seq<PlanView> {
    components(reference_graph(all)).map_values(|nodes: Seq<int>| plan_of(all, nodes))
}

/// Whether a message of `cycle` still refers to a message of `cycle` through
/// a field that is not boxed.
pub open spec fn is_real_cycle(all: Seq<MessageView>, cycle: Seq<Seq<usize>>) -> bool {
    exists|k: int, j: int|
        0 <= k < all.len() && 0 <= j < all[k].all_fields().len() && refers_within(
            all[k].owner(),
            #[trigger] all[k].all_fields()[j],
            cycle,
        ) && !all[k].all_fields()[j].boxed
}

/// The name of the first message that carries the identity `path`.
pub open spec fn name_of(all: Seq<MessageView>, path: Seq<usize>) -> Seq<char>
    decreases all.len(),
{
    if all.len() == 0 {
        Seq::empty()
    } else if all[0].index == path {
        all[0].name
    } else {
        name_of(all.skip(1), path)
    }
}

/// The names of the messages of a cycle, in the order of the cycle.
pub open spec fn names_of(all: Seq<MessageView>, cycle: Seq<Seq<usize>>) -> Seq<Seq<char>> {
    cycle.map_values(|p: Seq<usize>| name_of(all, p))
}

/// How cycle breaking ended: the messages as they are then, the names of
/// the cycle that it was refused to break, if it came to that, and the
/// names of the cycles that were repaired by making required fields
/// optional, in the order of the repairs.
pub struct Breaking {
    pub messages: Seq<MessageView>,
    pub cycle: Option<Seq<Seq<char>>>,
    pub repaired: Seq<Seq<Seq<char>>>,
}

/// Views of a list of lists of names, in order.
pub open spec fn name_lists_view(lists: Seq<Vec<String>>) -> Seq<Seq<Seq<char>>> {
    lists.map_values(|l: Vec<String>| strings_view(l@))
}

/// Breaks one candidate cycle: the optional fields by which its messages
/// refer to each other become boxed. If a reference that is not boxed is
/// left then, either the cycle is refused or the required fields by which
/// its messages refer to each other become optional and boxed.
pub open spec fn break_range(messages: Seq<MessageView>, cycle: Seq<Seq<usize>>, error_cycle: bool) -> Breaking {
    let boxed = rewrite_messages(PassView::BoxWithin(cycle, Frequency::Optional), messages);
    if is_real_cycle(forest(boxed), cycle) {
        if error_cycle {
            Breaking {
                messages: boxed,
                cycle: Some(names_of(forest(boxed), cycle)),
                repaired: Seq::empty(),
            }
        } else {
            Breaking {
                messages: rewrite_messages(
                    PassView::BoxWithin(cycle, Frequency::Required),
                    boxed,
                ),
                cycle: None,
                repaired: seq![names_of(forest(boxed), cycle)],
            }
        }
    } else {
        Breaking { messages: boxed, cycle: None, repaired: Seq::empty() }
    }
}

/// Breaks the candidate cycles of one component in order, up to the first
/// that is refused.
pub open spec fn break_ranges(
    messages: Seq<MessageView>,
    paths: Seq<Seq<usize>>,
    ranges: Seq<(int, int)>,
    error_cycle: bool,
) -> Breaking
    decreases ranges.len(),
{
    if ranges.len() == 0 {
        Breaking { messages, cycle: None, repaired: Seq::empty() }
    } else {
        let first = break_range(messages, paths.subrange(ranges[0].0, ranges[0].1), error_cycle);
        if first.cycle is Some {
            first
        } else {
            let rest = break_ranges(first.messages, paths, ranges.skip(1), error_cycle);
            Breaking { repaired: first.repaired + rest.repaired, ..rest }
        }
    }
}

/// Breaks the candidate cycles of all components in order, up to the first
/// that is refused.
pub open spec fn break_plans(messages: Seq<MessageView>, plans: Seq<PlanView>, error_cycle: bool) -> Breaking
    decreases plans.len(),
{
    if plans.len() == 0 {
        Breaking { messages, cycle: None, repaired: Seq::empty() }
    } else {
        let first = break_ranges(messages, plans[0].paths, plans[0].ranges, error_cycle);
        if first.cycle is Some {
            first
        } else {
            let rest = break_plans(first.messages, plans.skip(1), error_cycle);
            Breaking { repaired: first.repaired + rest.repaired, ..rest }
        }
    }
}

impl DescView {
    /// How cycle breaking ends on this file.
    pub open spec fn break_cycles(self, error_cycle: bool) -> Breaking {
        break_plans(self.messages, cycle_plans(forest(self.messages)), error_cycle)
    }
}

/// What is to be examined of one strongly connected component.
#[derive(Debug)]
pub struct CyclePlan {
    pub paths: Vec<MessageIndex>,
    pub ranges: Vec<(usize, usize)>,
}

/// Ranges as pairs of numbers.
pub open spec fn ranges_view(ranges: Seq<(usize, usize)>) -> Seq<(int, int)> {
    ranges.map_values(|r: (usize, usize)| (r.0 as int, r.1 as int))
}

impl View for CyclePlan {
    type V = PlanView;

    open spec fn view(&self) -> PlanView {
        PlanView { paths: paths_view(self.paths@), ranges: ranges_view(self.ranges@) }
    }
}

impl CyclePlan {
    /// Every range lies within the component.
    pub open spec fn well_formed(&self) -> bool {
        forall|x: int|
            0 <= x < self.ranges@.len() ==> (#[trigger] self.ranges@[x]).0 <= self.ranges@[x].1
                <= self.paths@.len()
    }
}

/// Views of a list of plans, in order.
pub open spec fn plans_view(plans: Seq<CyclePlan>) -> Seq<PlanView> {
    plans.map_values(|p: CyclePlan| p@)
}

/// Whether one of `fields` has the message at `target` as its type.
pub fn has_reference_to(fields: &Vec<&Field>, target: &MessageIndex) -> (r: bool)
    ensures
        r <==> exists|j: int|
            0 <= j < fields@.len() && (#[trigger] field_refs_view(fields@)[j]).typ
                == TypeView::Message(target@),
{
    let n = fields.len();
    let mut j: usize = 0;
    while j < n
        invariant
            j <= n,
            n == fields@.len(),
            forall|x: int|
                0 <= x < j ==> (#[trigger] field_refs_view(fields@)[x]).typ != TypeView::Message(
                    target@,
                ),
        decreases n - j,
    {
        assert(field_refs_view(fields@)[j as int] == fields@[j as int]@);
        let hit = match &fields[j].typ {
            FieldType::Message(m) => m.same(target),
            _ => false,
        };
        if hit {
            return true;
        }
        j += 1;
    }
    false
}

/// The reference graph of a list of messages.
pub fn reference_links(all: &Vec<&Message>) -> (r: Vec<Vec<bool>>)
    ensures
        rows_view(r@) == reference_graph(message_refs_view(all@)),
        is_square(rows_view(r@)),
{
    let ghost flat = message_refs_view(all@);
    let n = all.len();
    let mut out: Vec<Vec<bool>> = Vec::new();
    let mut a: usize = 0;
    while a < n
        invariant
            a <= n,
            n == all@.len(),
            flat == message_refs_view(all@),
            out@.len() == a,
            forall|x: int| 0 <= x < a ==> (#[trigger] out@[x])@.len() == n,
            forall|x: int, y: int|
                0 <= x < a && 0 <= y < n ==> (#[trigger] out@[x]@[y] <==> refers(flat, x, y)),
        decreases n - a,
    {
        let fields = all[a].all_fields();
        assert(flat[a as int] == all@[a as int]@);
        let mut row: Vec<bool> = Vec::new();
        let mut b: usize = 0;
        while b < n
            invariant
                b <= n,
                a < n,
                n == all@.len(),
                flat == message_refs_view(all@),
                field_refs_view(fields@) == flat[a as int].all_fields(),
                row@.len() == b,
                forall|y: int| 0 <= y < b ==> (#[trigger] row@[y] <==> refers(flat, a as int, y)),
            decreases n - b,
        {
            assert(flat[b as int] == all@[b as int]@);
            assert(field_refs_view(fields@).len() == fields@.len());
            let hit = has_reference_to(&fields, &all[b].index);
            row.push(hit);
            b += 1;
        }
        out.push(row);
        a += 1;
    }
    proof {
        assert(rows_view(out@) =~= reference_graph(flat)) by {
            assert forall|x: int| 0 <= x < n implies rows_view(out@)[x] =~= reference_graph(
                flat,
            )[x] by {
                assert(rows_view(out@)[x] == out@[x]@);
            }
        }
        assert forall|x: int| 0 <= x < rows_view(out@).len() implies (#[trigger] rows_view(
            out@,
        )[x]).len() == rows_view(out@).len() by {
            assert(rows_view(out@)[x] == out@[x]@);
        }
    }
    out
}

/// The first position at or after `from` at which `paths` holds `target`.
pub fn find_from(paths: &Vec<MessageIndex>, target: &MessageIndex, from: usize) -> (r: Option<usize>)
    ensures
        r is Some <==> first_from(paths_view(paths@), target@, from as int) is Some,
        r is Some ==> r->0 as int == first_from(paths_view(paths@), target@, from as int)->0,
        r is Some ==> from <= r->0 < paths@.len(),
{
    let ghost p = paths_view(paths@);
    let n = paths.len();
    let mut j: usize = from;
    while j < n
        invariant
            from <= j,
            n == paths@.len(),
            p == paths_view(paths@),
            j <= n ==> first_from(p, target@, j as int) == first_from(p, target@, from as int),
            j > n ==> first_from(p, target@, from as int) is None,
        decreases n - j,
    {
        assert(p[j as int] == paths@[j as int]@);
        if paths[j].same(target) {
            return Some(j);
        }
        j += 1;
    }
    None
}

/// The plan for the component that holds the messages at `nodes`.
pub fn plan_component(all: &Vec<&Message>, nodes: &Vec<usize>) -> (r: CyclePlan)
    requires
        forall|i: int| 0 <= i < nodes@.len() ==> (#[trigger] nodes@[i]) < all@.len(),
    ensures
        r@ == plan_of(message_refs_view(all@), nodes_view(nodes@)),
        r.well_formed(),
{
    let ghost flat = message_refs_view(all@);
    let ghost numbers = nodes_view(nodes@);
    let n = nodes.len();
    let mut paths: Vec<MessageIndex> = Vec::new();
    let mut i: usize = 0;
    while i < n
        invariant
            i <= n,
            n == nodes@.len(),
            flat == message_refs_view(all@),
            forall|i: int| 0 <= i < nodes@.len() ==> (#[trigger] nodes@[i]) < all@.len(),
            paths@.len() == i,
            forall|x: int| 0 <= x < i ==> (#[trigger] paths@[x])@ == flat[nodes@[x] as int].index,
        decreases n - i,
    {
        let m: &Message = all[nodes[i]];
        assert(flat[nodes@[i as int] as int] == m@);
        paths.push(m.index.duplicate());
        i += 1;
    }
    let ghost p = paths_of(flat, numbers);
    assert(paths_view(paths@) =~= p);
    let mut ranges: Vec<(usize, usize)> = Vec::new();
    let mut at: usize = 0;
    assert(ranges_view(ranges@) =~= component_ranges(flat, numbers, p, 0));
    while at < n
        invariant
            at <= n,
            n == nodes@.len(),
            n == paths@.len(),
            flat == message_refs_view(all@),
            numbers == nodes_view(nodes@),
            p == paths_view(paths@),
            forall|i: int| 0 <= i < nodes@.len() ==> (#[trigger] nodes@[i]) < all@.len(),
            ranges_view(ranges@) == component_ranges(flat, numbers, p, at as int),
            forall|x: int|
                0 <= x < ranges@.len() ==> (#[trigger] ranges@[x]).0 <= ranges@[x].1 <= n,
        decreases n - at,
    {
        let m: &Message = all[nodes[at]];
        assert(flat[numbers[at as int]] == m@);
        let fields = m.all_fields();
        let ghost fv = m@.all_fields();
        let ghost before = ranges_view(ranges@);
        let k = fields.len();
        let mut j: usize = 0;
        assert(fv.take(0) =~= Seq::<FieldView>::empty());
        assert(fv.len() == k);
        assert(ranges_view(ranges@) =~= before + field_ranges(fv.take(0), p, at as int));
        while j < k
            invariant
                j <= k,
                at < n,
                n == paths@.len(),
                k == fields@.len(),
                k == fv.len(),
                p == paths_view(paths@),
                field_refs_view(fields@) == fv,
                ranges_view(ranges@) == before + field_ranges(fv.take(j as int), p, at as int),
                forall|x: int|
                    0 <= x < ranges@.len() ==> (#[trigger] ranges@[x]).0 <= ranges@[x].1 <= n,
            decreases k - j,
        {
            let ghost prev = ranges_view(ranges@);
            proof {
                assert(fv[j as int] == fields@[j as int]@);
                assert(fv.take(j as int + 1).drop_last() =~= fv.take(j as int));
                assert(fv.take(j as int + 1).last() == fv[j as int]);
            }
            match &fields[j].typ {
                FieldType::Message(t) => {
                    match find_from(&paths, t, at) {
                        Some(found) => {
                            ranges.push((at, found + 1));
                            assert(ranges_view(ranges@) =~= prev.push((at as int, found + 1)));
                        },
                        None => {},
                    }
                },
                _ => {},
            }
            proof {
                assert(ranges_view(ranges@) =~= before + field_ranges(
                    fv.take(j as int + 1),
                    p,
                    at as int,
                ));
            }
            j += 1;
        }
        proof {
            assert(fv.take(k as int) =~= fv);
        }
        at += 1;
    }
    CyclePlan { paths, ranges }
}

/// Whether a message of `cycle[lo..hi]` still refers to one of these
/// messages through a field that is not boxed.
pub fn is_cycle(all: &Vec<&Message>, cycle: &Vec<MessageIndex>, lo: usize, hi: usize) -> (r: bool)
    requires
        lo <= hi <= cycle@.len(),
    ensures
        r == is_real_cycle(
            message_refs_view(all@),
            paths_view(cycle@).subrange(lo as int, hi as int),
        ),
{
    let ghost flat = message_refs_view(all@);
    let ghost range = paths_view(cycle@).subrange(lo as int, hi as int);
    let n = all.len();
    let mut k: usize = 0;
    while k < n
        invariant
            k <= n,
            n == all@.len(),
            lo <= hi <= cycle@.len(),
            flat == message_refs_view(all@),
            range == paths_view(cycle@).subrange(lo as int, hi as int),
            forall|x: int, j: int|
                0 <= x < k && 0 <= j < flat[x].all_fields().len() ==> !(refers_within(
                    flat[x].owner(),
                    #[trigger] flat[x].all_fields()[j],
                    range,
                ) && !flat[x].all_fields()[j].boxed),
        decreases n - k,
    {
        let m: &Message = all[k];
        assert(flat[k as int] == m@);
        if m.index.is_within(cycle, lo, hi) {
            let fields = m.all_fields();
            let len = fields.len();
            let mut j: usize = 0;
            assert(field_refs_view(fields@).len() == len);
            while j < len
                invariant
                    j <= len,
                    len == fields@.len(),
                    lo <= hi <= cycle@.len(),
                    k < n,
                    n == flat.len(),
                    flat[k as int] == m@,
                    flat == message_refs_view(all@),
                    range == paths_view(cycle@).subrange(lo as int, hi as int),
                    range.contains(m@.index),
                    field_refs_view(fields@) == m@.all_fields(),
                    forall|x: int|
                        0 <= x < j ==> !(refers_within(
                            m@.owner(),
                            #[trigger] m@.all_fields()[x],
                            range,
                        ) && !m@.all_fields()[x].boxed),
                decreases len - j,
            {
                assert(m@.all_fields()[j as int] == fields@[j as int]@);
                let f: &Field = fields[j];
                if !f.boxed {
                    let hit = match &f.typ {
                        FieldType::Message(t) => t.is_within(cycle, lo, hi),
                        _ => false,
                    };
                    if hit {
                        proof {
                            let field = flat[k as int].all_fields()[j as int];
                            assert(refers_within(flat[k as int].owner(), field, range));
                            assert(!field.boxed);
                        }
                        return true;
                    }
                }
                j += 1;
            }
        }
        k += 1;
    }
    false
}

/// The name of the first message that carries the identity `path`.
pub fn find_name(all: &Vec<&Message>, path: &MessageIndex) -> (r: String)
    ensures
        r@ == name_of(message_refs_view(all@), path@),
{
    let ghost flat = message_refs_view(all@);
    let n = all.len();
    let mut k: usize = 0;
    assert(flat.skip(0) =~= flat);
    while k < n
        invariant
            k <= n,
            n == all@.len(),
            flat == message_refs_view(all@),
            name_of(flat.skip(k as int), path@) == name_of(flat, path@),
        decreases n - k,
    {
        proof {
            assert(flat.skip(k as int)[0] == all@[k as int]@);
            assert(flat.skip(k as int).skip(1) =~= flat.skip(k as int + 1));
        }
        if all[k].index.same(path) {
            return all[k].name.clone();
        }
        k += 1;
    }
    assert(flat.skip(n as int).len() == 0);
    String::new()
}

/// The names of the messages `cycle[lo..hi]`.
pub fn cycle_names(all: &Vec<&Message>, cycle: &Vec<MessageIndex>, lo: usize, hi: usize) -> (r: Vec<
    String,
>)
    requires
        lo <= hi <= cycle@.len(),
    ensures
        strings_view(r@) == names_of(
            message_refs_view(all@),
            paths_view(cycle@).subrange(lo as int, hi as int),
        ),
{
    let ghost flat = message_refs_view(all@);
    let ghost range = paths_view(cycle@).subrange(lo as int, hi as int);
    let mut out: Vec<String> = Vec::new();
    let mut i: usize = lo;
    while i < hi
        invariant
            lo <= i <= hi <= cycle@.len(),
            flat == message_refs_view(all@),
            range == paths_view(cycle@).subrange(lo as int, hi as int),
            out@.len() == i - lo,
            forall|x: int| 0 <= x < i - lo ==> (#[trigger] out@[x])@ == name_of(flat, range[x]),
        decreases hi - i,
    {
        assert(range[i - lo] == cycle@[i as int]@);
        out.push(find_name(all, &cycle[i]));
        i += 1;
    }
    assert(strings_view(out@) =~= names_of(flat, range));
    out
}

impl FileDescriptor {
    /// The reference graph's strongly connected components and, for each,
    /// the ranges of it that may form cycles.
    pub fn cycle_plans(&self) -> (r: Vec<CyclePlan>)
        ensures
            plans_view(r@) == cycle_plans(forest(self@.messages)),
            forall|p: int| 0 <= p < r@.len() ==> (#[trigger] r@[p]).well_formed(),
    {
        let all = self.all_messages();
        let ghost flat = forest(self@.messages);
        let links = reference_links(&all);
        let parts = strong_components(&links);
        proof {
            lemma_components_hold_nodes(reference_graph(flat));
            assert(reference_graph(flat).len() == all@.len());
        }
        let ghost comps = components(reference_graph(flat));
        let n = parts.len();
        let mut out: Vec<CyclePlan> = Vec::new();
        let mut c: usize = 0;
        while c < n
            invariant
                c <= n,
                n == parts@.len(),
                flat == message_refs_view(all@),
                comps == lists_view(parts@),
                comps == components(reference_graph(flat)),
                reference_graph(flat).len() == all@.len(),
                forall|c: int, i: int|
                    0 <= c < comps.len() && 0 <= i < comps[c].len() ==> 0 <= (#[trigger] comps[c][i])
                        < all@.len(),
                out@.len() == c,
                forall|x: int| 0 <= x < c ==> (#[trigger] out@[x])@ == plan_of(flat, comps[x]),
                forall|x: int| 0 <= x < c ==> (#[trigger] out@[x]).well_formed(),
            decreases n - c,
        {
            proof {
                assert(comps[c as int] == nodes_view(parts@[c as int]@));
                assert forall|i: int| 0 <= i < parts@[c as int]@.len() implies (
                #[trigger] parts@[c as int]@[i]) < all@.len() by {
                    assert(comps[c as int][i] == parts@[c as int]@[i] as int);
                }
            }
            let plan = plan_component(&all, &parts[c]);
            out.push(plan);
            c += 1;
        }
        assert(plans_view(out@) =~= cycle_plans(flat));
        out
    }

    /// The strongly connected components of the reference graph, each as the
    /// identities of its messages.
    pub fn sccs(&self) -> (r: Vec<Vec<MessageIndex>>)
        ensures
            r@.len() == cycle_plans(forest(self@.messages)).len(),
            forall|c: int|
                0 <= c < r@.len() ==> paths_view((#[trigger] r@[c])@) == cycle_plans(
                    forest(self@.messages),
                )[c].paths,
    {
        let mut plans = self.cycle_plans();
        let ghost all = plans_view(plans@);
        let mut out: Vec<Vec<MessageIndex>> = Vec::new();
        let n = plans.len();
        let mut c: usize = 0;
        while c < n
            invariant
                c <= n,
                n == plans@.len(),
                all.len() == n,
                out@.len() == c,
                forall|x: int| c <= x < n ==> (#[trigger] plans@[x])@ == all[x],
                forall|x: int| 0 <= x < c ==> paths_view((#[trigger] out@[x])@) == all[x].paths,
            decreases n - c,
        {
            let mut taken: Vec<MessageIndex> = Vec::new();
            std::mem::swap(&mut taken, &mut plans[c].paths);
            out.push(taken);
            c += 1;
        }
        out
    }

    /// Breaks one candidate cycle, the messages `cycle[lo..hi]`, and adds
    /// their names to `repaired` if required fields had to become optional.
    pub fn break_range(
        &mut self,
        cycle: &Vec<MessageIndex>,
        lo: usize,
        hi: usize,
        error_cycle: bool,
        repaired: &mut Vec<Vec<String>>,
    ) -> (r: Result<(), Error>)
        requires
            lo <= hi <= cycle@.len(),
        ensures
            final(self)@ == (DescView {
                messages: break_range(
                    old(self)@.messages,
                    paths_view(cycle@).subrange(lo as int, hi as int),
                    error_cycle,
                ).messages,
                ..old(self)@
            }),
            r is Ok <==> break_range(
                old(self)@.messages,
                paths_view(cycle@).subrange(lo as int, hi as int),
                error_cycle,
            ).cycle is None,
            r is Err ==> r->Err_0 is Cycle && Some(strings_view(r->Err_0->Cycle_0@)) == break_range(
                old(self)@.messages,
                paths_view(cycle@).subrange(lo as int, hi as int),
                error_cycle,
            ).cycle,
            name_lists_view(final(repaired)@) == name_lists_view(old(repaired)@) + break_range(
                old(self)@.messages,
                paths_view(cycle@).subrange(lo as int, hi as int),
                error_cycle,
            ).repaired,
    {
        let ghost before = name_lists_view(repaired@);
        rewrite_all_messages(
            &mut self.messages,
            &FieldPass::BoxWithin(cycle, lo, hi, Frequency::Optional),
        );
        let names: Vec<String> = {
            let all = self.all_messages();
            if is_cycle(&all, cycle, lo, hi) {
                cycle_names(&all, cycle, lo, hi)
            } else {
                assert(before + Seq::<Seq<Seq<char>>>::empty() =~= before);
                return Ok(());
            }
        };
        if error_cycle {
            assert(before + Seq::<Seq<Seq<char>>>::empty() =~= before);
            Err(Error::Cycle(names))
        } else {
            rewrite_all_messages(
                &mut self.messages,
                &FieldPass::BoxWithin(cycle, lo, hi, Frequency::Required),
            );
            let ghost list = strings_view(names@);
            repaired.push(names);
            assert(name_lists_view(repaired@) =~= before + seq![list]);
            Ok(())
        }
    }

    /// Breaks the candidate cycles of one component, in order, and adds to
    /// `repaired` the names of those in which required fields had to become
    /// optional.
    pub fn break_component(
        &mut self,
        plan: &CyclePlan,
        error_cycle: bool,
        repaired: &mut Vec<Vec<String>>,
    ) -> (r: Result<(), Error>)
        requires
            plan.well_formed(),
        ensures
            final(self)@ == (DescView {
                messages: break_ranges(
                    old(self)@.messages,
                    plan@.paths,
                    plan@.ranges,
                    error_cycle,
                ).messages,
                ..old(self)@
            }),
            r is Ok <==> break_ranges(
                old(self)@.messages,
                plan@.paths,
                plan@.ranges,
                error_cycle,
            ).cycle is None,
            r is Err ==> r->Err_0 is Cycle && Some(strings_view(r->Err_0->Cycle_0@))
                == break_ranges(old(self)@.messages, plan@.paths, plan@.ranges, error_cycle).cycle,
            r is Ok ==> name_lists_view(final(repaired)@) == name_lists_view(old(repaired)@)
                + break_ranges(
                old(self)@.messages,
                plan@.paths,
                plan@.ranges,
                error_cycle,
            ).repaired,
    {
        let ghost ranges = plan@.ranges;
        let ghost paths = plan@.paths;
        let ghost start = name_lists_view(repaired@);
        let ghost whole = break_ranges(old(self)@.messages, paths, ranges, error_cycle);
        let n = plan.ranges.len();
        let mut x: usize = 0;
        assert(ranges.skip(0) =~= ranges);
        while x < n
            invariant
                x <= n,
                n == plan.ranges@.len(),
                n == ranges.len(),
                plan.well_formed(),
                ranges == plan@.ranges,
                paths == plan@.paths,
                whole == break_ranges(old(self)@.messages, paths, ranges, error_cycle),
                self@ == (DescView { messages: self@.messages, ..old(self)@ }),
                break_ranges(self@.messages, paths, ranges.skip(x as int), error_cycle).messages
                    == whole.messages,
                break_ranges(self@.messages, paths, ranges.skip(x as int), error_cycle).cycle
                    == whole.cycle,
                name_lists_view(repaired@) + break_ranges(
                    self@.messages,
                    paths,
                    ranges.skip(x as int),
                    error_cycle,
                ).repaired == start + whole.repaired,
            decreases n - x,
        {
            let (lo, hi) = plan.ranges[x];
            let ghost so_far = name_lists_view(repaired@);
            let ghost here = break_ranges(self@.messages, paths, ranges.skip(x as int), error_cycle);
            let ghost first = break_range(
                self@.messages,
                paths.subrange(lo as int, hi as int),
                error_cycle,
            );
            proof {
                assert(ranges.skip(x as int)[0] == (lo as int, hi as int));
                assert(ranges.skip(x as int).skip(1) =~= ranges.skip(x as int + 1));
            }
            match self.break_range(&plan.paths, lo, hi, error_cycle, repaired) {
                Ok(_) => {
                    proof {
                        let rest = break_ranges(
                            self@.messages,
                            paths,
                            ranges.skip(x as int + 1),
                            error_cycle,
                        );
                        assert(here.repaired == first.repaired + rest.repaired);
                        assert((so_far + first.repaired) + rest.repaired =~= so_far + (
                        first.repaired + rest.repaired));
                    }
                },
                Err(e) => {
                    return Err(e);
                },
            }
            x += 1;
        }
        proof {
            assert(name_lists_view(repaired@) + Seq::<Seq<Seq<char>>>::empty() =~= name_lists_view(
                repaired@,
            ));
        }
        Ok(())
    }
}

/// A field that makes the size of its message depend on the size of the
/// message it refers to: neither boxed nor repeated.
pub open spec fn is_solid(f: FieldView) -> bool {
    !f.boxed && f.frequency != Frequency::Repeated
}

/// Whether message `a` of the list holds message `b` of the list in place.
pub open spec fn solid_link(all: Seq<MessageView>, a: int, b: int) -> bool {
    &&& 0 <= a < all.len()
    &&& 0 <= b < all.len()
    &&& exists|j: int|
        0 <= j < all[a].all_fields().len() && (#[trigger] all[a].all_fields()[j]).typ
            == TypeView::Message(all[b].index) && is_solid(all[a].all_fields()[j])
}

/// Whether `w` is a chain of messages, each holding the next in place, that
/// ends at the message it started from.
pub open spec fn solid_cycle(all: Seq<MessageView>, w: Seq<int>) -> bool {
    &&& w.len() >= 2
    &&& w.first() == w.last()
    &&& forall|i: int| 0 <= i < w.len() - 1 ==> solid_link(all, #[trigger] w[i], w[i + 1])
}

impl DescView {
    /// Every message of the file has a finite size in memory: no message
    /// holds itself in place, directly or through other messages.
    pub open spec fn has_finite_layout(self) -> bool {
        forall|w: Seq<int>| !solid_cycle(forest(self.messages), w)
    }
}

/// A field made boxed: it is optional then, and all else stays.
pub open spec fn boxed_form(f: FieldView) -> FieldView {
    FieldView { boxed: true, frequency: Frequency::Optional, ..f }
}

/// Whether the field `g` is the field `f` as it was or made boxed; only a
/// field that refers to a message and is not repeated is ever made boxed.
pub open spec fn same_or_boxed(f: FieldView, g: FieldView) -> bool {
    g == f || (f.typ is Message && f.frequency != Frequency::Repeated && g == boxed_form(f))
}

/// Whether `after` is `before` with nothing changed but fields that became
/// boxed: the same messages with the same fields of the same types, and
/// every field either as it was or made boxed.
pub open spec fn boxing_of(before: Seq<MessageView>, after: Seq<MessageView>) -> bool {
    &&& before.len() == after.len()
    &&& forall|k: int|
        0 <= k < before.len() ==> (#[trigger] after[k]).owner() == before[k].owner()
            && after[k].all_fields().len() == before[k].all_fields().len()
    &&& forall|k: int, j: int|
        0 <= k < before.len() && 0 <= j < before[k].all_fields().len() ==> {
            let f = before[k].all_fields()[j];
            let g = #[trigger] after[k].all_fields()[j];
            g.typ == f.typ && same_or_boxed(f, g)
        }
}

/// Whether no message of `cycle` holds a message of `cycle` in place.
pub open spec fn range_clean(all: Seq<MessageView>, cycle: Seq<Seq<usize>>) -> bool {
    forall|k: int, j: int|
        0 <= k < all.len() && 0 <= j < all[k].all_fields().len() && refers_within(
            all[k].owner(),
            #[trigger] all[k].all_fields()[j],
            cycle,
        ) ==> !is_solid(all[k].all_fields()[j])
}

/// Boxing within a cycle changes nothing but fields that become boxed.
pub proof fn lemma_box_within_boxes(messages: Seq<MessageView>, cycle: Seq<Seq<usize>>, frequency: Frequency)
    requires
        frequency != Frequency::Repeated,
    ensures
        boxing_of(
            forest(messages),
            forest(rewrite_messages(PassView::BoxWithin(cycle, frequency), messages)),
        ),
        forall|k: int, j: int|
            0 <= k < forest(messages).len() && 0 <= j < forest(messages)[k].all_fields().len()
                ==> (#[trigger] forest(
                rewrite_messages(PassView::BoxWithin(cycle, frequency), messages),
            )[k].all_fields()[j]) == rewrite_field(
                PassView::BoxWithin(cycle, frequency),
                forest(messages)[k].owner(),
                forest(messages)[k].all_fields()[j],
            ),
{
    let pass = PassView::BoxWithin(cycle, frequency);
    let before = forest(messages);
    let after = forest(rewrite_messages(pass, messages));
    lemma_rewrite_forest(pass, messages);
    assert forall|k: int| 0 <= k < before.len() implies (#[trigger] after[k]).owner()
        == before[k].owner() && after[k].all_fields().len() == before[k].all_fields().len()
        && after[k].all_fields() == rewrite_fields(
        pass,
        before[k].owner(),
        before[k].all_fields(),
    ) by {
        lemma_rewrite_all_fields(pass, before[k]);
    }
}

/// What came of a message by boxing twice came of it by boxing.
pub proof fn lemma_boxing_transitive(a: Seq<MessageView>, b: Seq<MessageView>, c: Seq<MessageView>)
    requires
        boxing_of(a, b),
        boxing_of(b, c),
    ensures
        boxing_of(a, c),
{
    assert forall|k: int, j: int|
        0 <= k < a.len() && 0 <= j < a[k].all_fields().len() implies {
        let f = a[k].all_fields()[j];
        let g = #[trigger] c[k].all_fields()[j];
        g.typ == f.typ && same_or_boxed(f, g)
    } by {
        let mid = b[k].all_fields()[j];
        assert(b[k].owner() == a[k].owner());
    }
    assert forall|k: int| 0 <= k < a.len() implies (#[trigger] c[k]).owner() == a[k].owner()
        && c[k].all_fields().len() == a[k].all_fields().len() by {
        assert(b[k].owner() == a[k].owner());
    }
}

/// A cycle in which no message holds another in place stays so when more
/// fields become boxed.
pub proof fn lemma_clean_stays(before: Seq<MessageView>, after: Seq<MessageView>, cycle: Seq<Seq<usize>>)
    requires
        boxing_of(before, after),
        range_clean(before, cycle),
    ensures
        range_clean(after, cycle),
{
    assert forall|k: int, j: int|
        0 <= k < after.len() && 0 <= j < after[k].all_fields().len() && refers_within(
            after[k].owner(),
            #[trigger] after[k].all_fields()[j],
            cycle,
        ) implies !is_solid(after[k].all_fields()[j]) by {
        let f = before[k].all_fields()[j];
        assert(after[k].owner() == before[k].owner());
        assert(refers_within(before[k].owner(), f, cycle));
    }
}

/// Breaking a candidate cycle changes nothing but fields that become boxed,
/// and where it is not refused, no message of the cycle holds a message of
/// the cycle in place afterwards.
pub proof fn lemma_break_range(messages: Seq<MessageView>, cycle: Seq<Seq<usize>>, error_cycle: bool)
    ensures
        boxing_of(forest(messages), forest(break_range(messages, cycle, error_cycle).messages)),
        break_range(messages, cycle, error_cycle).cycle is None ==> range_clean(
            forest(break_range(messages, cycle, error_cycle).messages),
            cycle,
        ),
        !error_cycle ==> break_range(messages, cycle, error_cycle).cycle is None,
{
    let first = PassView::BoxWithin(cycle, Frequency::Optional);
    let second = PassView::BoxWithin(cycle, Frequency::Required);
    let start = forest(messages);
    let boxed = rewrite_messages(first, messages);
    let mid = forest(boxed);
    lemma_box_within_boxes(messages, cycle, Frequency::Optional);
    if is_real_cycle(mid, cycle) {
        if !error_cycle {
            let last = forest(rewrite_messages(second, boxed));
            lemma_box_within_boxes(boxed, cycle, Frequency::Required);
            lemma_boxing_transitive(start, mid, last);
            assert forall|k: int, j: int|
                0 <= k < last.len() && 0 <= j < last[k].all_fields().len() && refers_within(
                    last[k].owner(),
                    #[trigger] last[k].all_fields()[j],
                    cycle,
                ) implies !is_solid(last[k].all_fields()[j]) by {
                let f0 = start[k].all_fields()[j];
                let f1 = mid[k].all_fields()[j];
                let f2 = last[k].all_fields()[j];
                assert(mid[k].owner() == start[k].owner());
                assert(last[k].owner() == mid[k].owner());
                assert(f1 == rewrite_field(first, start[k].owner(), f0));
                assert(f2 == rewrite_field(second, mid[k].owner(), f1));
            }
        }
    } else {
        assert forall|k: int, j: int|
            0 <= k < mid.len() && 0 <= j < mid[k].all_fields().len() && refers_within(
                mid[k].owner(),
                #[trigger] mid[k].all_fields()[j],
                cycle,
            ) implies !is_solid(mid[k].all_fields()[j]) by {
            if !mid[k].all_fields()[j].boxed {
                assert(is_real_cycle(mid, cycle));
            }
        }
    }
}

/// Breaking the candidate cycles of a component changes nothing but fields
/// that become boxed, and where none is refused, each of them is clean
/// afterwards.
pub proof fn lemma_break_ranges(
    messages: Seq<MessageView>,
    paths: Seq<Seq<usize>>,
    ranges: Seq<(int, int)>,
    error_cycle: bool,
)
    ensures
        boxing_of(
            forest(messages),
            forest(break_ranges(messages, paths, ranges, error_cycle).messages),
        ),
        break_ranges(messages, paths, ranges, error_cycle).cycle is None ==> forall|x: int|
            0 <= x < ranges.len() ==> range_clean(
                forest(break_ranges(messages, paths, ranges, error_cycle).messages),
                paths.subrange((#[trigger] ranges[x]).0, ranges[x].1),
            ),
        !error_cycle ==> break_ranges(messages, paths, ranges, error_cycle).cycle is None,
    decreases ranges.len(),
{
    if ranges.len() > 0 {
        let cycle = paths.subrange(ranges[0].0, ranges[0].1);
        let first = break_range(messages, cycle, error_cycle);
        lemma_break_range(messages, cycle, error_cycle);
        if first.cycle is None {
            let rest = ranges.skip(1);
            let out = break_ranges(first.messages, paths, rest, error_cycle);
            lemma_break_ranges(first.messages, paths, rest, error_cycle);
            lemma_boxing_transitive(forest(messages), forest(first.messages), forest(out.messages));
            if out.cycle is None {
                lemma_clean_stays(forest(first.messages), forest(out.messages), cycle);
                assert forall|x: int| 0 <= x < ranges.len() implies range_clean(
                    forest(out.messages),
                    paths.subrange((#[trigger] ranges[x]).0, ranges[x].1),
                ) by {
                    if x > 0 {
                        assert(ranges[x] == rest[x - 1]);
                    }
                }
            }
        }
    }
}

/// Breaking the candidate cycles of all components changes nothing but
/// fields that become boxed, and where none is refused, each of them is
/// clean afterwards.
pub proof fn lemma_break_plans(messages: Seq<MessageView>, plans: Seq<PlanView>, error_cycle: bool)
    ensures
        boxing_of(forest(messages), forest(break_plans(messages, plans, error_cycle).messages)),
        break_plans(messages, plans, error_cycle).cycle is None ==> forall|p: int, x: int|
            0 <= p < plans.len() && 0 <= x < plans[p].ranges.len() ==> range_clean(
                forest(break_plans(messages, plans, error_cycle).messages),
                plans[p].paths.subrange((#[trigger] plans[p].ranges[x]).0, plans[p].ranges[x].1),
            ),
        !error_cycle ==> break_plans(messages, plans, error_cycle).cycle is None,
    decreases plans.len(),
{
    if plans.len() > 0 {
        let first = break_ranges(messages, plans[0].paths, plans[0].ranges, error_cycle);
        lemma_break_ranges(messages, plans[0].paths, plans[0].ranges, error_cycle);
        if first.cycle is None {
            let rest = plans.skip(1);
            let out = break_plans(first.messages, rest, error_cycle);
            lemma_break_plans(first.messages, rest, error_cycle);
            lemma_boxing_transitive(forest(messages), forest(first.messages), forest(out.messages));
            if out.cycle is None {
                assert forall|p: int, x: int|
                    0 <= p < plans.len() && 0 <= x < plans[p].ranges.len() implies range_clean(
                    forest(out.messages),
                    plans[p].paths.subrange(
                        (#[trigger] plans[p].ranges[x]).0,
                        plans[p].ranges[x].1,
                    ),
                ) by {
                    if p == 0 {
                        lemma_clean_stays(
                            forest(first.messages),
                            forest(out.messages),
                            plans[0].paths.subrange(plans[0].ranges[x].0, plans[0].ranges[x].1),
                        );
                    } else {
                        assert(plans[p] == rest[p - 1]);
                    }
                }
            }
        }
    }
}

/// Where `paths` holds `target` at or after `from`, the first such position
/// is found, and it is not after any other.
pub proof fn lemma_first_from(paths: Seq<Seq<usize>>, target: Seq<usize>, from: int, at: int)
    requires
        0 <= from <= at < paths.len(),
        paths[at] == target,
    ensures
        first_from(paths, target, from) is Some,
        from <= first_from(paths, target, from)->0 <= at,
        paths[first_from(paths, target, from)->0] == target,
    decreases at - from,
{
    if paths[from] != target {
        lemma_first_from(paths, target, from + 1, at);
    }
}

/// The ranges asked for by a list of fields hold the range of each field
/// that refers to a member at or after `at`.
pub proof fn lemma_field_ranges_cover(fields: Seq<FieldView>, paths: Seq<Seq<usize>>, at: int, k: int)
    requires
        0 <= k < fields.len(),
        fields[k].typ is Message,
        first_from(paths, fields[k].typ->Message_0, at) is Some,
    ensures
        exists|x: int|
            0 <= x < field_ranges(fields, paths, at).len() && #[trigger] field_ranges(
                fields,
                paths,
                at,
            )[x] == (at, first_from(paths, fields[k].typ->Message_0, at)->0 + 1),
    decreases fields.len(),
{
    let all = field_ranges(fields, paths, at);
    let front = field_ranges(fields.drop_last(), paths, at);
    let wanted = (at, first_from(paths, fields[k].typ->Message_0, at)->0 + 1);
    if k == fields.len() - 1 {
        assert(all[front.len() as int] == wanted);
    } else {
        lemma_field_ranges_cover(fields.drop_last(), paths, at, k);
        let x = choose|x: int| 0 <= x < front.len() && #[trigger] front[x] == wanted;
        assert(all[x] == wanted);
    }
}

/// The ranges asked for by the members of a component hold those asked
/// for by each member.
pub proof fn lemma_component_ranges_cover(
    all: Seq<MessageView>,
    nodes: Seq<int>,
    paths: Seq<Seq<usize>>,
    upto: int,
    at: int,
    range: (int, int),
)
    requires
        0 <= at < upto <= nodes.len(),
        field_ranges(all[nodes[at]].all_fields(), paths, at).contains(range),
    ensures
        component_ranges(all, nodes, paths, upto).contains(range),
    decreases upto,
{
    let now = component_ranges(all, nodes, paths, upto);
    let front = component_ranges(all, nodes, paths, upto - 1);
    let last = field_ranges(all[nodes[upto - 1]].all_fields(), paths, upto - 1);
    if at == upto - 1 {
        let x = choose|x: int| 0 <= x < last.len() && last[x] == range;
        assert(now[front.len() + x] == range);
    } else {
        lemma_component_ranges_cover(all, nodes, paths, upto - 1, at, range);
        let x = choose|x: int| 0 <= x < front.len() && front[x] == range;
        assert(now[x] == range);
    }
}

/// Along a chain of numbers that falls at every step, the number at
/// position `i` is at least `i` below the first.
pub proof fn lemma_descent(w: Seq<int>, i: int)
    requires
        0 <= i < w.len(),
        forall|k: int| 0 <= k < w.len() - 1 ==> w[k + 1] < #[trigger] w[k],
    ensures
        w[i] <= w[0] - i,
    decreases i,
{
    if i > 0 {
        lemma_descent(w, i - 1);
    }
}

/// Cycle termination: once the cycles of a file are broken and none was
/// refused, no message holds itself in place, directly or through other
/// messages, so every message has a finite size in memory.
pub proof fn lemma_cycles_are_broken(d: DescView, error_cycle: bool)
    requires
        d.break_cycles(error_cycle).cycle is None,
    ensures
        (DescView { messages: d.break_cycles(error_cycle).messages, ..d }).has_finite_layout(),
{
    let start = forest(d.messages);
    let out = d.break_cycles(error_cycle);
    let end = forest(out.messages);
    let g = reference_graph(start);
    let plans = cycle_plans(start);
    lemma_break_plans(d.messages, plans, error_cycle);
    assert forall|w: Seq<int>| !solid_cycle(end, w) by {
        if solid_cycle(end, w) {
            assert forall|i: int| 0 <= i < w.len() - 1 implies crate::graph::linked(
                g,
                #[trigger] w[i],
                w[i + 1],
            ) by {
                let a = w[i];
                let b = w[i + 1];
                assert(solid_link(end, a, b));
                let j = choose|j: int|
                    0 <= j < end[a].all_fields().len() && (#[trigger] end[a].all_fields()[j]).typ
                        == TypeView::Message(end[b].index) && is_solid(end[a].all_fields()[j]);
                assert(end[b].owner() == start[b].owner());
                assert(end[a].owner() == start[a].owner());
                assert(start[a].all_fields()[j].typ == TypeView::Message(start[b].index));
                assert(refers(start, a, b));
            }
            assert(crate::graph::is_walk(g, w));
            assert forall|i: int| 0 <= i < w.len() - 1 implies w[i + 1] < #[trigger] w[i] by {
                let a = w[i];
                let b = w[i + 1];
                if a <= b {
                    assert(crate::graph::linked(g, a, b));
                    crate::graph::lemma_closed_walk_mutual(g, w, i);
                    crate::graph::lemma_connected_share_component(g, a, b);
                    let (c, pi, pj) = choose|c: int, pi: int, pj: int|
                        0 <= c < components(g).len() && 0 <= pi <= pj < components(g)[c].len() && (
                        #[trigger] components(g)[c][pi]) == a && (#[trigger] components(
                            g,
                        )[c][pj]) == b;
                    let nodes = components(g)[c];
                    let plan = plans[c];
                    assert(plan == plan_of(start, nodes));
                    let paths = plan.paths;
                    assert(solid_link(end, a, b));
                    let j = choose|j: int|
                        0 <= j < end[a].all_fields().len() && (
                        #[trigger] end[a].all_fields()[j]).typ == TypeView::Message(end[b].index)
                            && is_solid(end[a].all_fields()[j]);
                    assert(end[b].owner() == start[b].owner());
                    assert(end[a].owner() == start[a].owner());
                    let t = start[b].index;
                    let f0 = start[a].all_fields()[j];
                    assert(f0.typ == TypeView::Message(t));
                    assert(paths[pj] == t);
                    assert(paths[pi] == start[a].index);
                    lemma_first_from(paths, t, pi, pj);
                    let found = first_from(paths, t, pi)->0;
                    lemma_field_ranges_cover(start[a].all_fields(), paths, pi, j);
                    let range = (pi, found + 1);
                    assert(field_ranges(start[nodes[pi]].all_fields(), paths, pi).contains(range));
                    lemma_component_ranges_cover(start, nodes, paths, nodes.len() as int, pi, range);
                    let x = choose|x: int|
                        0 <= x < plan.ranges.len() && plan.ranges[x] == range;
                    let cycle = paths.subrange(pi, found + 1);
                    assert(plans[c].ranges[x] == range);
                    assert(range_clean(end, cycle));
                    assert(cycle[0] == paths[pi]);
                    assert(cycle[found - pi] == t);
                    assert(refers_within(end[a].owner(), end[a].all_fields()[j], cycle));
                    assert(false);
                }
            }
            lemma_descent(w, w.len() - 1);
        }
    }
}

/// Breaking cycles changes nothing but fields that become boxed: the
/// messages, their fields and the types of the fields stay, and every
/// field is as it was or, if it refers to a message and is not repeated,
/// boxed and optional with all else as it was.
pub proof fn lemma_breaking_only_boxes(d: DescView, error_cycle: bool)
    ensures
        boxing_of(forest(d.messages), forest(d.break_cycles(error_cycle).messages)),
        !error_cycle ==> d.break_cycles(error_cycle).cycle is None,
{
    lemma_break_plans(d.messages, cycle_plans(forest(d.messages)), error_cycle);
}

/// Whether no message of the list refers back to itself, directly or
/// through other messages, by fields of any kind but maps.
pub open spec fn is_acyclic(all: Seq<MessageView>) -> bool {
    forall|a: int| !reaches(reference_graph(all), a, a)
}

/// In a graph without cycles the component of a node is the node alone.
pub proof fn lemma_acyclic_class(g: Seq<Seq<bool>>, r: int, upto: int)
    requires
        0 <= r < upto,
        forall|a: int| !reaches(g, a, a),
    ensures
        class_upto(g, r, upto) == seq![r],
    decreases upto - r,
{
    if upto > r + 1 {
        lemma_acyclic_class(g, r, upto - 1);
        if mutual(g, r, upto - 1) {
            lemma_reaches_transitive(g, r, upto - 1, r);
        }
    }
}

/// Fields that refer to no member of a component at or after `at` ask for
/// no range to be examined.
pub proof fn lemma_no_field_ranges(fields: Seq<FieldView>, paths: Seq<Seq<usize>>, at: int)
    requires
        forall|j: int|
            0 <= j < fields.len() && (#[trigger] fields[j]).typ is Message ==> first_from(
                paths,
                fields[j].typ->Message_0,
                at,
            ) is None,
    ensures
        field_ranges(fields, paths, at) == Seq::<(int, int)>::empty(),
    decreases fields.len(),
{
    if fields.len() > 0 {
        let front = fields.drop_last();
        assert forall|j: int| 0 <= j < front.len() && (#[trigger] front[j]).typ is Message implies first_from(
            paths,
            front[j].typ->Message_0,
            at,
        ) is None by {
            assert(front[j] == fields[j]);
        }
        lemma_no_field_ranges(front, paths, at);
        assert(fields.last() == fields[fields.len() - 1]);
        assert(field_ranges(fields, paths, at) =~= Seq::<(int, int)>::empty());
    }
}

/// With no range to examine in any component, breaking cycles changes
/// nothing.
pub proof fn lemma_break_plans_without_ranges(
    messages: Seq<MessageView>,
    plans: Seq<PlanView>,
    error_cycle: bool,
)
    requires
        forall|c: int| 0 <= c < plans.len() ==> (#[trigger] plans[c]).ranges.len() == 0,
    ensures
        break_plans(messages, plans, error_cycle) == (Breaking {
            messages,
            cycle: None,
            repaired: Seq::empty(),
        }),
    decreases plans.len(),
{
    if plans.len() > 0 {
        let rest = plans.skip(1);
        assert forall|c: int| 0 <= c < rest.len() implies (#[trigger] rest[c]).ranges.len() == 0 by {
            assert(rest[c] == plans[c + 1]);
        }
        lemma_break_plans_without_ranges(messages, rest, error_cycle);
        assert(plans[0].ranges.len() == 0);
        assert(break_ranges(messages, plans[0].paths, plans[0].ranges, error_cycle) == (Breaking {
            messages,
            cycle: None,
            repaired: Seq::empty(),
        }));
        assert(Seq::<Seq<Seq<char>>>::empty() + Seq::<Seq<Seq<char>>>::empty() =~= Seq::<
            Seq<Seq<char>>,
        >::empty());
    }
}

/// Breaking cycles leaves a file without reference cycles as it is: no
/// field changes, no cycle is refused and none is repaired.
pub proof fn lemma_acyclic_file_stays(d: DescView, error_cycle: bool)
    requires
        is_acyclic(forest(d.messages)),
    ensures
        d.break_cycles(error_cycle) == (Breaking {
            messages: d.messages,
            cycle: None,
            repaired: Seq::empty(),
        }),
{
    let all = forest(d.messages);
    let g = reference_graph(all);
    let plans = cycle_plans(all);
    assert forall|c: int| 0 <= c < plans.len() implies (#[trigger] plans[c]).ranges.len() == 0 by {
        lemma_component_has_root(g, g.len() as int, c);
        let r = choose|r: int|
            0 <= r < g.len() && is_root(g, r) && components_upto(g, g.len() as int)[c]
                == #[trigger] class_upto(g, r, g.len() as int);
        lemma_acyclic_class(g, r, g.len() as int);
        let nodes = components(g)[c];
        assert(nodes == seq![r]);
        let paths = paths_of(all, nodes);
        assert(paths.len() == 1 && paths[0] == all[r].index);
        let fields = all[r].all_fields();
        assert forall|j: int| 0 <= j < fields.len() && (#[trigger] fields[j]).typ is Message implies first_from(
            paths,
            fields[j].typ->Message_0,
            0,
        ) is None by {
            let t = fields[j].typ->Message_0;
            if paths[0] == t {
                assert(fields[j].typ == TypeView::Message(all[r].index));
                assert(refers(all, r, r));
                assert(linked(g, r, r));
                lemma_link_reaches(g, r, r);
            }
            assert(first_from(paths, t, 1) is None);
        }
        lemma_no_field_ranges(fields, paths, 0);
        assert(component_ranges(all, nodes, paths, 0) =~= Seq::<(int, int)>::empty());
        assert(component_ranges(all, nodes, paths, 1) =~= component_ranges(all, nodes, paths, 0)
            + field_ranges(all[nodes[0]].all_fields(), paths, 0));
        assert(plans[c] == plan_of(all, nodes));
    }
    lemma_break_plans_without_ranges(d.messages, plans, error_cycle);
}

/// Whether a pass leaves the references between messages as they are: a
/// field that refers to a message after the pass did so before, and if it
/// holds it in place after the pass, it did so before.
pub open spec fn keeps_references(pass: PassView) -> bool {
    forall|owner: crate::passes::Owner, f: FieldView|
        (#[trigger] rewrite_field(pass, owner, f)).typ is Message ==> f.typ == rewrite_field(
            pass,
            owner,
            f,
        ).typ && (is_solid(rewrite_field(pass, owner, f)) ==> is_solid(f))
}

/// A pass that leaves the references between messages as they are leaves a
/// file in which every message has a finite size in memory so.
pub proof fn lemma_layout_kept(d: DescView, pass: PassView)
    requires
        d.has_finite_layout(),
        keeps_references(pass),
    ensures
        (DescView { messages: rewrite_messages(pass, d.messages), ..d }).has_finite_layout(),
{
    let before = forest(d.messages);
    let after = forest(rewrite_messages(pass, d.messages));
    lemma_rewrite_forest(pass, d.messages);
    assert forall|k: int| 0 <= k < before.len() implies (#[trigger] after[k]).owner()
        == before[k].owner() && after[k].all_fields() == rewrite_fields(
        pass,
        before[k].owner(),
        before[k].all_fields(),
    ) by {
        lemma_rewrite_all_fields(pass, before[k]);
    }
    assert forall|w: Seq<int>| !solid_cycle(after, w) by {
        if solid_cycle(after, w) {
            assert forall|i: int| 0 <= i < w.len() - 1 implies solid_link(
                before,
                #[trigger] w[i],
                w[i + 1],
            ) by {
                let a = w[i];
                let b = w[i + 1];
                assert(solid_link(after, a, b));
                let j = choose|j: int|
                    0 <= j < after[a].all_fields().len() && (
                    #[trigger] after[a].all_fields()[j]).typ == TypeView::Message(after[b].index)
                        && is_solid(after[a].all_fields()[j]);
                lemma_rewrite_all_fields(pass, before[a]);
                lemma_rewrite_all_fields(pass, before[b]);
                assert(after[b].index == before[b].index);
                if after[a] == before[a] {
                } else {
                    let f = before[a].all_fields()[j];
                    assert(after[a].all_fields()[j] == rewrite_field(pass, before[a].owner(), f));
                }
                assert(before[a].all_fields()[j].typ == TypeView::Message(before[b].index));
                assert(is_solid(before[a].all_fields()[j]));
            }
            assert(solid_cycle(before, w));
        }
    }
}

/// Boxing determinism: cycle breaking ends the same way on two files of the
/// same value, with the same fields boxed and the same cycle refused.
pub proof fn lemma_breaking_is_deterministic(a: FileDescriptor, b: FileDescriptor, error_cycle: bool)
    requires
        a@ == b@,
    ensures
        a@.break_cycles(error_cycle) == b@.break_cycles(error_cycle),
{
}

impl FileDescriptor {
    /// Breaks the reference cycles of the file by boxing fields. With
    /// `error_cycle`, a cycle that boxing the optional fields does not break
    /// is refused; without, its required fields become optional and boxed,
    /// and the call succeeds. The result holds, for each cycle that was
    /// repaired so, the names of its messages.
    pub fn break_cycles(&mut self, error_cycle: bool) -> (r: Result<Vec<Vec<String>>, Error>)
        ensures
            final(self)@ == (DescView {
                messages: old(self)@.break_cycles(error_cycle).messages,
                ..old(self)@
            }),
            r is Ok <==> old(self)@.break_cycles(error_cycle).cycle is None,
            r is Ok ==> name_lists_view(r->Ok_0@) == old(self)@.break_cycles(error_cycle).repaired,
            r is Err ==> r->Err_0 is Cycle && Some(strings_view(r->Err_0->Cycle_0@)) == old(
                self,
            )@.break_cycles(error_cycle).cycle,
            r is Ok ==> final(self)@.has_finite_layout(),
            !error_cycle ==> r is Ok,
            boxing_of(forest(old(self)@.messages), forest(final(self)@.messages)),
    {
        let plans = self.cycle_plans();
        let ghost all = plans_view(plans@);
        let ghost whole = break_plans(old(self)@.messages, all, error_cycle);
        let mut repaired: Vec<Vec<String>> = Vec::new();
        let n = plans.len();
        let mut c: usize = 0;
        proof {
            assert(all.skip(0) =~= all);
            assert(name_lists_view(repaired@) =~= Seq::<Seq<Seq<char>>>::empty());
            assert(name_lists_view(repaired@) + whole.repaired =~= whole.repaired);
        }
        while c < n
            invariant
                c <= n,
                n == plans@.len(),
                all == plans_view(plans@),
                all == cycle_plans(forest(old(self)@.messages)),
                whole == break_plans(old(self)@.messages, all, error_cycle),
                forall|p: int| 0 <= p < plans@.len() ==> (#[trigger] plans@[p]).well_formed(),
                self@ == (DescView { messages: self@.messages, ..old(self)@ }),
                break_plans(self@.messages, all.skip(c as int), error_cycle).messages
                    == whole.messages,
                break_plans(self@.messages, all.skip(c as int), error_cycle).cycle == whole.cycle,
                name_lists_view(repaired@) + break_plans(
                    self@.messages,
                    all.skip(c as int),
                    error_cycle,
                ).repaired == whole.repaired,
            decreases n - c,
        {
            let ghost so_far = name_lists_view(repaired@);
            let ghost here = break_plans(self@.messages, all.skip(c as int), error_cycle);
            let ghost first = break_ranges(
                self@.messages,
                plans@[c as int]@.paths,
                plans@[c as int]@.ranges,
                error_cycle,
            );
            proof {
                assert(all.skip(c as int)[0] == plans@[c as int]@);
                assert(all.skip(c as int).skip(1) =~= all.skip(c as int + 1));
            }
            match self.break_component(&plans[c], error_cycle, &mut repaired) {
                Ok(_) => {
                    proof {
                        let rest = break_plans(self@.messages, all.skip(c as int + 1), error_cycle);
                        assert(here.repaired == first.repaired + rest.repaired);
                        assert((so_far + first.repaired) + rest.repaired =~= so_far + (
                        first.repaired + rest.repaired));
                    }
                },
                Err(e) => {
                    proof {
                        lemma_breaking_only_boxes(old(self)@, error_cycle);
                    }
                    return Err(e);
                },
            }
            c += 1;
        }
        proof {
            lemma_breaking_only_boxes(old(self)@, error_cycle);
            lemma_cycles_are_broken(old(self)@, error_cycle);
            assert(name_lists_view(repaired@) + Seq::<Seq<Seq<char>>>::empty() =~= name_lists_view(
                repaired@,
            ));
        }
        Ok(repaired)
    }
}

} // verus!
