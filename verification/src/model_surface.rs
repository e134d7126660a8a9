//! How a model reaches a tool: directly, through the gateway, or not at all.
use vstd::prelude::*;

use crate::json::JsonValue;
use crate::text::same_text;
use crate::tool_definition;
use crate::tool_definition::{
    adaptive_runtime_direct_tool_definitions, ToolCatalog, ToolDefinition, ToolVisibility,
};

verus! {

/// The tool through which a model calls the tools that it does not call directly.
pub const ADAPTIVE_RUNTIME_GATEWAY_TOOL_NAME: &'static str = "call_runtime_tool";

/// A model calls the tool directly.
pub const TOOL_SURFACE_AVAILABILITY_DIRECT: &'static str = "direct";

/// A model calls the tool through the gateway.
pub const TOOL_SURFACE_AVAILABILITY_GATEWAY: &'static str = "gateway";

/// A model does not reach the tool.
pub const TOOL_SURFACE_AVAILABILITY_UNAVAILABLE: &'static str = "unavailable";

/// What the gateway does with a target.
#[derive(Debug, Clone, Copy, PartialEq, Eq, Structural)]
pub enum AdaptiveRuntimeGatewayTargetRoute {
    Gateway,
    Direct,
    Recursive,
    Unknown,
}

/// A tool as it is registered.
#[derive(Debug)]
pub struct ToolSpec {
    pub name: String,
    pub description: String,
    pub input_schema: JsonValue,
}

/// The ways to a tool.
pub enum Way {
    Direct,
    Gateway,
    Unavailable,
}

/// The way to a tool. A protocol that has let a hidden extension in reaches it
/// through the gateway; nothing else reaches a tool that a model does not see.
pub open spec fn way_to(
    definitions: Seq<ToolDefinition>,
    name: Seq<char>,
    operator_extension_admitted: bool,
) -> Way {
    if operator_extension_admitted {
        Way::Gateway
    } else if !tool_definition::model_visible(definitions, name) {
        Way::Unavailable
    } else if tool_definition::directly_called(definitions, name) {
        Way::Direct
    } else {
        Way::Gateway
    }
}

/// Whether a pair of texts names a way: the availability, and the tool to call
/// in the target's place where there is one.
pub open spec fn names_way(named: (&'static str, Option<&'static str>), way: Way) -> bool {
    match way {
        Way::Direct => named.0@ == "direct"@ && named.1 is None,
        Way::Gateway => named.0@ == "gateway"@ && (named.1 matches Some(tool) && tool@
            == "call_runtime_tool"@),
        Way::Unavailable => named.0@ == "unavailable"@ && named.1 is None,
    }
}

/// The way to a tool that no protocol has let in.
pub fn adaptive_runtime_tool_invocation_route(catalog: &ToolCatalog, tool_name: &str) -> (named: (
    &'static str,
    Option<&'static str>,
))
    ensures
        names_way(named, way_to(catalog.definitions@, tool_name@, false)),
{
    adaptive_runtime_tool_invocation_route_with_operator_extension(catalog, tool_name, false)
}

fn find_way(catalog: &ToolCatalog, tool_name: &str, operator_extension_admitted: bool) -> (way: Way)
    ensures
        way == way_to(catalog.definitions@, tool_name@, operator_extension_admitted),
{
    if operator_extension_admitted {
        return Way::Gateway;
    }
    if !catalog.is_model_visible_tool_name(tool_name) {
        return Way::Unavailable;
    }
    if catalog.is_adaptive_runtime_direct_tool(tool_name) {
        Way::Direct
    } else {
        Way::Gateway
    }
}

/// The way to a tool. Whether a protocol has let it in is known to the Server
/// and is no authority of the caller.
pub fn adaptive_runtime_tool_invocation_route_with_operator_extension(
    catalog: &ToolCatalog,
    tool_name: &str,
    operator_extension_admitted: bool,
) -> (named: (&'static str, Option<&'static str>))
    ensures
        names_way(
            named,
            way_to(catalog.definitions@, tool_name@, operator_extension_admitted),
        ),
{
    match find_way(catalog, tool_name, operator_extension_admitted) {
        Way::Direct => (TOOL_SURFACE_AVAILABILITY_DIRECT, None),
        Way::Gateway => (
            TOOL_SURFACE_AVAILABILITY_GATEWAY,
            Some(ADAPTIVE_RUNTIME_GATEWAY_TOOL_NAME),
        ),
        Way::Unavailable => (TOOL_SURFACE_AVAILABILITY_UNAVAILABLE, None),
    }
}

/// What the gateway does with a target.
pub open spec fn target_route(
    definitions: Seq<ToolDefinition>,
    target: Seq<char>,
) -> AdaptiveRuntimeGatewayTargetRoute {
    if target == "call_runtime_tool"@ {
        AdaptiveRuntimeGatewayTargetRoute::Recursive
    } else {
        match way_to(definitions, target, false) {
            Way::Direct => AdaptiveRuntimeGatewayTargetRoute::Direct,
            Way::Gateway => AdaptiveRuntimeGatewayTargetRoute::Gateway,
            Way::Unavailable => AdaptiveRuntimeGatewayTargetRoute::Unknown,
        }
    }
}

/// What the gateway does with a target.
pub fn adaptive_runtime_gateway_target_route(catalog: &ToolCatalog, target: &str) -> (route:
    AdaptiveRuntimeGatewayTargetRoute)
    ensures
        route == target_route(catalog.definitions@, target@),
{
    if same_text(target, ADAPTIVE_RUNTIME_GATEWAY_TOOL_NAME) {
        return AdaptiveRuntimeGatewayTargetRoute::Recursive;
    }
    match find_way(catalog, target, false) {
        Way::Direct => AdaptiveRuntimeGatewayTargetRoute::Direct,
        Way::Gateway => AdaptiveRuntimeGatewayTargetRoute::Gateway,
        Way::Unavailable => AdaptiveRuntimeGatewayTargetRoute::Unknown,
    }
}

/// Whether the listing of tools is shortened: it is, unless the operator has
/// chosen otherwise.
pub fn effective_mcp_compact_schemas(configured_override: Option<bool>) -> (compact: bool)
    ensures
        compact == (configured_override != Some(false)),
{
    match configured_override {
        Some(chosen) => chosen,
        None => true,
    }
}

// ---- The registered forms of the directly called tools -----------------

/// The index of the last registration under this name, where there is one.
pub open spec fn registered_at(registered: Seq<ToolSpec>, name: Seq<char>) -> Option<nat>
    decreases registered.len(),
{
    if registered.len() == 0 {
        None
    } else if registered.last().name@ == name {
        Some((registered.len() - 1) as nat)
    } else {
        registered_at(registered.drop_last(), name)
    }
}

/// Whether every directly called tool is registered, and no two of them have
/// the same name.
pub open spec fn all_registered(direct: Seq<ToolDefinition>, registered: Seq<ToolSpec>) -> bool {
    &&& forall|i: int|
        0 <= i < direct.len() ==> #[trigger] registered_at(registered, direct[i].name@) is Some
    &&& tool_definition::distinct_names(direct)
}

proof fn lemma_registered_at(registered: Seq<ToolSpec>, name: Seq<char>)
    ensures
        registered_at(registered, name) matches Some(at) ==> at < registered.len()
            && registered[at as int].name@ == name,
    decreases registered.len(),
{
    if registered.len() > 0 {
        lemma_registered_at(registered.drop_last(), name);
    }
}

fn find_registered(registered: &Vec<ToolSpec>, name: &str) -> (at: Option<usize>)
    ensures
        match at {
            Some(at) => registered_at(registered@, name@) == Some(at as nat),
            None => registered_at(registered@, name@) is None,
        },
{
    let mut left: usize = registered.len();
    assert(registered@.take(left as int) =~= registered@);
    while left > 0
        invariant
            left <= registered@.len(),
            registered_at(registered@, name@) == registered_at(
                registered@.take(left as int),
                name@,
            ),
        decreases left,
    {
        let ghost front = registered@.take(left as int);
        assert(front.last() == registered@[left - 1]);
        if same_text(registered[left - 1].name.as_str(), name) {
            return Some(left - 1);
        }
        assert(front.drop_last() =~= registered@.take(left - 1));
        left = left - 1;
    }
    None
}

/// The registered forms of the directly called tools, by rank.
pub fn adaptive_runtime_direct_tool_specs<'a>(
    catalog: &ToolCatalog,
    registered: &'a Vec<ToolSpec>,
) -> (specs: Vec<&'a ToolSpec>)
    requires
        all_registered(
            tool_definition::direct_definitions(catalog.definitions@),
            registered@,
        ),
    ensures
        specs@.len() == tool_definition::direct_definitions(catalog.definitions@).len(),
        forall|i: int|
            0 <= i < specs@.len() ==> *(#[trigger] specs@[i]) == registered@[registered_at(
                registered@,
                tool_definition::direct_definitions(catalog.definitions@)[i].name@,
            )->Some_0 as int],
{
    let direct = adaptive_runtime_direct_tool_definitions(catalog);
    let mut specs: Vec<&'a ToolSpec> = Vec::new();
    let mut i: usize = 0;
    while i < direct.len()
        invariant
            i <= direct@.len(),
            all_registered(direct@, registered@),
            specs@.len() == i,
            forall|j: int|
                0 <= j < i ==> *(#[trigger] specs@[j]) == registered@[registered_at(
                    registered@,
                    direct@[j].name@,
                )->Some_0 as int],
        decreases direct@.len() - i,
    {
        assert(registered_at(registered@, direct@[i as int].name@) is Some);
        proof {
            lemma_registered_at(registered@, direct@[i as int].name@);
        }
        match find_registered(registered, direct[i].name) {
            Some(at) => {
                specs.push(&registered[at]);
            },
            None => {
                vstd::pervasive::unreached()
            },
        }
        i = i + 1;
    }
    specs
}

// ---- What always holds -------------------------------------------------

/// Whether no two tools have the same name and a model sees every tool that it
/// calls directly.
pub open spec fn sound_catalog(definitions: Seq<ToolDefinition>) -> bool {
    &&& tool_definition::distinct_names(definitions)
    &&& forall|i: int|
        0 <= i < definitions.len() && (#[trigger] definitions[i]).direct_rank is Some
            ==> definitions[i].visibility == ToolVisibility::ModelVisible
}

/// The listed direct tools are those that a model sees and calls directly.
pub proof fn law_direct_tools_are_visible(definitions: Seq<ToolDefinition>, i: int)
    requires
        sound_catalog(definitions),
        definitions.len() <= usize::MAX,
        0 <= i < tool_definition::direct_definitions(definitions).len(),
    ensures
        tool_definition::model_visible(
            definitions,
            tool_definition::direct_definitions(definitions)[i].name@,
        ),
        way_to(
            definitions,
            tool_definition::direct_definitions(definitions)[i].name@,
            false,
        ) is Direct,
{
    let order = tool_definition::direct_order(definitions, definitions.len());
    tool_definition::law_direct_order_is_by_rank(definitions, definitions.len());
    assert(order.contains(order[i]));
    tool_definition::lemma_found_under_its_name(definitions, order[i] as int);
}

/// A registered form that is listed carries the name of its definition.
pub proof fn law_listed_forms_carry_their_names(
    definitions: Seq<ToolDefinition>,
    registered: Seq<ToolSpec>,
    i: int,
)
    requires
        all_registered(tool_definition::direct_definitions(definitions), registered),
        0 <= i < tool_definition::direct_definitions(definitions).len(),
    ensures
        registered[registered_at(
            registered,
            tool_definition::direct_definitions(definitions)[i].name@,
        )->Some_0 as int].name@ == tool_definition::direct_definitions(definitions)[i].name@,
{
    let name = tool_definition::direct_definitions(definitions)[i].name@;
    lemma_registered_at(registered, name);
    assert(registered_at(registered, name) is Some);
}

/// A tool that a model sees is always reached, and one that it does not see
/// never is unless a protocol has let it in.
pub proof fn law_hidden_tools_fail_closed(
    definitions: Seq<ToolDefinition>,
    name: Seq<char>,
    operator_extension_admitted: bool,
)
    ensures
        way_to(definitions, name, operator_extension_admitted) is Unavailable <==> (
        !operator_extension_admitted && !tool_definition::model_visible(definitions, name)),
        way_to(definitions, name, operator_extension_admitted) is Direct ==> (
        !operator_extension_admitted && tool_definition::model_visible(definitions, name)),
{
}

/// The gateway refuses itself as a target, whatever is declared of it, and
/// nothing else for that reason.
pub proof fn law_gateway_is_not_recursive(definitions: Seq<ToolDefinition>, target: Seq<char>)
    ensures
        target_route(definitions, target) == AdaptiveRuntimeGatewayTargetRoute::Recursive
            <==> target == "call_runtime_tool"@,
{
}

/// How a tool is reached. One that an operator's extension has let in goes through
/// the gateway, whatever is declared of it; one that a model does not see is not
/// reached; and of those it sees the ones with a rank are called directly and the
/// others go through the gateway.
pub proof fn law_visible_tools_are_called_by_rank(
    definitions: Seq<ToolDefinition>,
    i: int,
)
    requires
        tool_definition::distinct_names(definitions),
        0 <= i < definitions.len(),
    ensures
        ({
            let tool = definitions[i];
            let name = tool.name@;
            &&& way_to(definitions, name, true) is Gateway
            &&& tool.visibility != ToolVisibility::ModelVisible ==> way_to(definitions, name, false)
                is Unavailable
            &&& tool.visibility == ToolVisibility::ModelVisible && tool.direct_rank is Some
                ==> way_to(definitions, name, false) is Direct
            &&& tool.visibility == ToolVisibility::ModelVisible && tool.direct_rank is None
                ==> way_to(definitions, name, false) is Gateway
        }),
{
    tool_definition::lemma_found_under_its_name(definitions, i);
}

/// A name that nothing is declared of is not reached, and is unknown to the gateway.
pub proof fn law_undeclared_tools_are_not_reached(
    definitions: Seq<ToolDefinition>,
    name: Seq<char>,
)
    requires
        forall|i: int| 0 <= i < definitions.len() ==> (#[trigger] definitions[i]).name@ != name,
    ensures
        way_to(definitions, name, false) is Unavailable,
        name != "call_runtime_tool"@ ==> target_route(definitions, name)
            == AdaptiveRuntimeGatewayTargetRoute::Unknown,
{
    tool_definition::law_undeclared_names_are_not_found(definitions, name);
}

/// The gateway tells a target that is called directly from one that it calls
/// itself, and both from one that it does not know.
pub proof fn law_gateway_routes_as_tools_are_reached(
    definitions: Seq<ToolDefinition>,
    target: Seq<char>,
)
    requires
        target != "call_runtime_tool"@,
    ensures
        target_route(definitions, target) == AdaptiveRuntimeGatewayTargetRoute::Direct <==> way_to(
            definitions,
            target,
            false,
        ) is Direct,
        target_route(definitions, target) == AdaptiveRuntimeGatewayTargetRoute::Gateway <==> way_to(
            definitions,
            target,
            false,
        ) is Gateway,
        target_route(definitions, target) == AdaptiveRuntimeGatewayTargetRoute::Unknown <==> way_to(
            definitions,
            target,
            false,
        ) is Unavailable,
{
}

/// A way is named by what it is, and only the gateway's names the tool to call.
pub proof fn law_ways_are_named(named: (&'static str, Option<&'static str>))
    ensures
        names_way(named, Way::Direct) ==> named.0@ == "direct"@ && named.1 is None,
        names_way(named, Way::Gateway) ==> named.0@ == "gateway"@ && (named.1 matches Some(tool)
            && tool@ == "call_runtime_tool"@),
        names_way(named, Way::Unavailable) ==> named.0@ == "unavailable"@ && named.1 is None,
{
}

/// A tool is registered under its name, and under the last one where several have
/// it; a name that none has is not registered.
pub proof fn law_registered_under_its_name(registered: Seq<ToolSpec>, name: Seq<char>, i: int)
    ensures
        0 <= i < registered.len() && registered[i].name@ == name && (forall|j: int|
            i < j < registered.len() ==> (#[trigger] registered[j]).name@ != name)
            ==> registered_at(registered, name) == Some(i as nat),
        (forall|j: int| 0 <= j < registered.len() ==> (#[trigger] registered[j]).name@ != name)
            ==> registered_at(registered, name) is None,
    decreases registered.len(),
{
    if registered.len() > 0 {
        let front = registered.drop_last();
        law_registered_under_its_name(front, name, i);
        if 0 <= i < registered.len() - 1 && registered[i].name@ == name && (forall|j: int|
            i < j < registered.len() ==> (#[trigger] registered[j]).name@ != name) {
            assert(registered[registered.len() - 1].name@ != name);
            assert forall|j: int| i < j < front.len() implies (#[trigger] front[j]).name@
                != name by {
                assert(front[j] == registered[j]);
            }
            assert(front[i] == registered[i]);
        }
        if forall|j: int| 0 <= j < registered.len() ==> (#[trigger] registered[j]).name@ != name {
            assert(registered[registered.len() - 1].name@ != name);
            assert forall|j: int| 0 <= j < front.len() implies (#[trigger] front[j]).name@
                != name by {
                assert(front[j] == registered[j]);
            }
        }
    }
}

/// Schemas are compact unless that was switched off.
pub proof fn law_schemas_are_compact_by_default(configured_override: Option<bool>, compact: bool)
    requires
        call_ensures(effective_mcp_compact_schemas, (configured_override,), compact),
    ensures
        configured_override is None ==> compact,
        configured_override matches Some(chosen) ==> compact == chosen,
{
}

} // verus!
