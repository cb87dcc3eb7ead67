//! What can be relied on of the tool calls of an answer: that they are put together from their
//! pieces as they came, and that a model and its tools know each other by name.
use vstd::prelude::*;

use crate::buffers::{
    completed_call, completed_calls, in_order, law_tool_calls_stay_in_order, slots_after,
    slots_with, CallView, SlotView,
};
use crate::catalog::{api_name, full_name, underscored, ToolName, ToolboxCatalog};
use crate::stream::DeltaView;

verus! {

/// The tool call at an index, as far as it has come.
pub open spec fn call_at(slots: Seq<SlotView>, index: usize) -> CallView
    decreases slots.len(),
{
    if slots.len() == 0 {
        CallView { provider_call_id: Seq::empty(), name: Seq::empty(), arguments: Seq::empty() }
    } else if slots[0].index == index {
        slots[0].call
    } else {
        call_at(slots.skip(1), index)
    }
}

/// A text that there may be, or else none of it.
pub open spec fn or_nothing(text: Option<Seq<char>>) -> Seq<char> {
    match text {
        Some(found) => found,
        None => Seq::empty(),
    }
}

proof fn lemma_rest_in_order(slots: Seq<SlotView>)
    requires
        in_order(slots),
        slots.len() > 0,
    ensures
        in_order(slots.skip(1)),
{
    let rest = slots.skip(1);
    assert forall|i: int, j: int| 0 <= i < j < rest.len() implies (#[trigger] rest[i]).index < (
    #[trigger] rest[j]).index by {
        assert(slots[i + 1].index < slots[j + 1].index);
    }
}

proof fn lemma_not_there(slots: Seq<SlotView>, index: usize)
    requires
        forall|i: int| 0 <= i < slots.len() ==> (#[trigger] slots[i]).index != index,
    ensures
        call_at(slots, index).provider_call_id.len() == 0,
        call_at(slots, index).name.len() == 0,
        call_at(slots, index).arguments.len() == 0,
    decreases slots.len(),
{
    if slots.len() > 0 {
        let rest = slots.skip(1);
        assert forall|i: int| 0 <= i < rest.len() implies (#[trigger] rest[i]).index != index by {
            assert(slots[i + 1].index != index);
        }
        lemma_not_there(rest, index);
    }
}

/// A piece of a tool call adds to the call at its index and to no other: what it brings of the name
/// and of the arguments stands behind what was there, and an identity that it brings takes the place
/// of the one before.
pub proof fn law_pieces_add_to_their_call(slots: Seq<SlotView>, delta: DeltaView, index: usize)
    requires
        in_order(slots),
    ensures
        ({
            let before = call_at(slots, index);
            let after = call_at(slots_with(slots, delta), index);
            if index == delta.index {
                &&& after.name == before.name + or_nothing(delta.name)
                &&& after.arguments == before.arguments + or_nothing(delta.arguments)
                &&& delta.id matches Some(id) ==> after.provider_call_id == id
                &&& delta.id is None ==> after.provider_call_id == before.provider_call_id
            } else {
                after == before
            }
        }),
    decreases slots.len(),
{
    let after = slots_with(slots, delta);
    if slots.len() == 0 || delta.index < slots[0].index {
        assert(after.skip(1) =~= slots);
        assert(after[0].index == delta.index);
        if index == delta.index {
            assert forall|i: int| 0 <= i < slots.len() implies (#[trigger] slots[i]).index
                != index by {
                if i > 0 {
                    assert(slots[0].index < slots[i].index);
                }
            }
            lemma_not_there(slots, index);
            let before = call_at(slots, index);
            assert(before.name + or_nothing(delta.name) =~= or_nothing(delta.name));
            assert(before.arguments + or_nothing(delta.arguments) =~= or_nothing(delta.arguments));
            assert(after[0].call.name =~= or_nothing(delta.name));
            assert(after[0].call.arguments =~= or_nothing(delta.arguments));
            assert(before.provider_call_id =~= Seq::<char>::empty());
        }
    } else if slots[0].index == delta.index {
        assert(after.skip(1) =~= slots.skip(1));
        let call = slots[0].call;
        assert(call.name + Seq::<char>::empty() =~= call.name);
        assert(call.arguments + Seq::<char>::empty() =~= call.arguments);
    } else {
        lemma_rest_in_order(slots);
        law_pieces_add_to_their_call(slots.skip(1), delta, index);
        assert(after[0] == slots[0]);
        assert(after.skip(1) =~= slots_with(slots.skip(1), delta));
    }
}

/// What the first pieces bring of the arguments of a call, in a row.
pub open spec fn arguments_brought(deltas: Seq<DeltaView>, count: int, index: usize) -> Seq<char>
    decreases count,
{
    if count <= 0 {
        Seq::empty()
    } else if deltas[count - 1].index == index {
        arguments_brought(deltas, count - 1, index) + or_nothing(deltas[count - 1].arguments)
    } else {
        arguments_brought(deltas, count - 1, index)
    }
}

/// The arguments of a call are what its pieces bring of them, in their order and nothing else, and
/// the calls stay in the order of their indices.
pub proof fn law_arguments_are_put_together(
    slots: Seq<SlotView>,
    deltas: Seq<DeltaView>,
    count: int,
    index: usize,
)
    requires
        in_order(slots),
        0 <= count <= deltas.len(),
    ensures
        in_order(slots_after(slots, deltas, count)),
        call_at(slots_after(slots, deltas, count), index).arguments == call_at(
            slots,
            index,
        ).arguments + arguments_brought(deltas, count, index),
    decreases count,
{
    if count > 0 {
        law_arguments_are_put_together(slots, deltas, count - 1, index);
        let before = slots_after(slots, deltas, count - 1);
        law_pieces_add_to_their_call(before, deltas[count - 1], index);
        law_tool_calls_stay_in_order(before, deltas[count - 1]);
        let start = call_at(slots, index).arguments;
        let brought = arguments_brought(deltas, count - 1, index);
        let more = or_nothing(deltas[count - 1].arguments);
        assert(start + brought + more =~= start + (brought + more));
    } else {
        assert(call_at(slots, index).arguments + arguments_brought(deltas, count, index)
            =~= call_at(slots, index).arguments);
    }
}

/// A call is done if and only if it has an identity, a name of a tool that is known, and arguments;
/// it keeps its identity and its arguments, and goes by the full name of its tool.
pub proof fn law_calls_are_done_as_they_came(call: CallView, catalog: &ToolboxCatalog)
    ensures
        completed_call(call, catalog) is Ok <==> call.provider_call_id.len() > 0 && call.name.len()
            > 0 && call.arguments.len() > 0 && catalog.resolved(call.name) is Some,
        completed_call(call, catalog) matches Ok(done) ==> done.provider_call_id
            == call.provider_call_id && done.arguments == call.arguments && Some(done.name)
            == catalog.resolved(call.name),
{
}

/// All calls of an answer are done, in their order, or none is.
pub proof fn law_all_calls_are_done(
    slots: Seq<SlotView>,
    catalog: &ToolboxCatalog,
    count: int,
    place: int,
)
    requires
        0 <= place < count <= slots.len(),
        completed_calls(slots, catalog, count) is Ok,
    ensures
        completed_calls(slots, catalog, count)->Ok_0.len() == count,
        completed_call(slots[place].call, catalog) == Ok::<CallView, Seq<char>>(
            completed_calls(slots, catalog, count)->Ok_0[place],
        ),
    decreases count,
{
    lemma_done_len(slots, catalog, count);
    lemma_done_len(slots, catalog, count - 1);
    if place < count - 1 {
        law_all_calls_are_done(slots, catalog, count - 1, place);
        assert(completed_calls(slots, catalog, count)->Ok_0[place] == completed_calls(
            slots,
            catalog,
            count - 1,
        )->Ok_0[place]);
    }
}

proof fn lemma_done_len(slots: Seq<SlotView>, catalog: &ToolboxCatalog, count: int)
    requires
        0 <= count <= slots.len(),
        completed_calls(slots, catalog, count) is Ok,
    ensures
        completed_calls(slots, catalog, count)->Ok_0.len() == count,
    decreases count,
{
    if count > 0 {
        lemma_done_len(slots, catalog, count - 1);
    }
}

/// An answer is refused for one bad call.
pub proof fn law_bad_calls_are_refused(
    slots: Seq<SlotView>,
    catalog: &ToolboxCatalog,
    count: int,
    place: int,
)
    requires
        0 <= place < count <= slots.len(),
        completed_call(slots[place].call, catalog) is Err,
    ensures
        completed_calls(slots, catalog, count) is Err,
    decreases count,
{
    if place < count - 1 {
        law_bad_calls_are_refused(slots, catalog, count - 1, place);
    }
}

proof fn lemma_full_name(tools: Seq<ToolName>, place: int)
    requires
        0 <= place < tools.len(),
        forall|i: int|
            0 <= i < tools.len() && i != place ==> (#[trigger] tools[i]).api@ != tools[place].api@,
    ensures
        full_name(tools, tools[place].api@) == Some(tools[place].full@),
    decreases place,
{
    if place > 0 {
        assert(tools[0].api@ != tools[place].api@);
        let rest = tools.skip(1);
        assert(rest[place - 1] == tools[place]);
        assert forall|i: int| 0 <= i < rest.len() && i != place - 1 implies (
        #[trigger] rest[i]).api@ != rest[place - 1].api@ by {
            assert(tools[i + 1].api@ != tools[place].api@);
        }
        lemma_full_name(rest, place - 1);
    }
}

proof fn lemma_api_name(tools: Seq<ToolName>, place: int)
    requires
        0 <= place < tools.len(),
        forall|i: int|
            0 <= i < tools.len() && i != place ==> (#[trigger] tools[i]).full@
                != tools[place].full@,
    ensures
        api_name(tools, tools[place].full@) == Some(tools[place].api@),
    decreases place,
{
    if place > 0 {
        assert(tools[0].full@ != tools[place].full@);
        let rest = tools.skip(1);
        assert(rest[place - 1] == tools[place]);
        assert forall|i: int| 0 <= i < rest.len() && i != place - 1 implies (
        #[trigger] rest[i]).full@ != rest[place - 1].full@ by {
            assert(tools[i + 1].full@ != tools[place].full@);
        }
        lemma_api_name(rest, place - 1);
    }
}

proof fn lemma_no_full_name(tools: Seq<ToolName>, api: Seq<char>)
    requires
        forall|i: int| 0 <= i < tools.len() ==> (#[trigger] tools[i]).api@ != api,
    ensures
        full_name(tools, api) is None,
    decreases tools.len(),
{
    if tools.len() > 0 {
        let rest = tools.skip(1);
        assert forall|i: int| 0 <= i < rest.len() implies (#[trigger] rest[i]).api@ != api by {
            assert(tools[i + 1].api@ != api);
        }
        lemma_no_full_name(rest, api);
    }
}

/// A tool that is offered is called by the name that it is offered under, and a call by that name
/// is a call of that tool, where no other tool has the names; a call by a name that none has is a
/// call of none.
pub proof fn law_tools_are_called_by_their_names(catalog: &ToolboxCatalog, place: int, api: Seq<char>)
    requires
        0 <= place < catalog.tools@.len(),
        forall|i: int|
            0 <= i < catalog.tools@.len() && i != place ==> (#[trigger] catalog.tools@[i]).api@
                != catalog.tools@[place].api@ && catalog.tools@[i].full@
                != catalog.tools@[place].full@,
        forall|i: int|
            0 <= i < catalog.disabled@.len() ==> (#[trigger] catalog.disabled@[i]).api@
                != catalog.tools@[place].api@,
    ensures
        catalog.called(catalog.tools@[place].full@) == catalog.tools@[place].api@,
        catalog.resolved(catalog.called(catalog.tools@[place].full@)) == Some(
            catalog.tools@[place].full@,
        ),
        (forall|i: int| 0 <= i < catalog.tools@.len() ==> (#[trigger] catalog.tools@[i]).api@ != api)
            && (forall|i: int|
            0 <= i < catalog.disabled@.len() ==> (#[trigger] catalog.disabled@[i]).api@ != api)
            ==> catalog.resolved(api) is None,
{
    lemma_full_name(catalog.tools@, place);
    lemma_api_name(catalog.tools@, place);
    lemma_no_full_name(catalog.disabled@, catalog.tools@[place].api@);
    if (forall|i: int| 0 <= i < catalog.tools@.len() ==> (#[trigger] catalog.tools@[i]).api@ != api)
        && (forall|i: int|
        0 <= i < catalog.disabled@.len() ==> (#[trigger] catalog.disabled@[i]).api@ != api) {
        lemma_no_full_name(catalog.tools@, api);
        lemma_no_full_name(catalog.disabled@, api);
    }
}

/// A tool of the past is shown by its full name, with underscores in the places of its dots.
pub proof fn law_tools_of_the_past_are_shown(full: Seq<char>)
    ensures
        underscored(full).len() == full.len(),
        forall|i: int|
            0 <= i < full.len() ==> #[trigger] underscored(full)[i] == (if full[i] == '.' {
                '_'
            } else {
                full[i]
            }),
{
}

} // verus!
