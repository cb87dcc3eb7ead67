//! What can be relied on of what an agent is told: who it is, where it works, which tools it has, and
//! which prompt it answers next.
use vstd::prelude::*;

use crate::agent::{
    divides, ended_badly, estimate_owed, has_answer, is_called, next_unanswered, offered_tools,
    orchestrator_exists, says_to, unanswered, AnyAgent, CatalogChoice, MainAgent, ToolSet,
};
use crate::event::{AgentKind, ApiState, CompactKind, Event, EventBody, EventId};
use crate::json::{json_written, JsonView};
use crate::limits::{desired_limit, limit_warning};
use crate::profile::MainAgentProfile;
use crate::prompts::{
    as_data, base_prompt, first_text, listed, proxy_text, routes_text, surroundings, system_prompt,
    tool_prompt, PartsView, ProcessEnvironmentSnapshot, AGENT_OPERATING_PROMPT, BASE_SYSTEM_PROMPT,
    CONTEXT_PROTOCOL_PROMPT, ENVIRONMENT_HEAD, ENVIRONMENT_TAIL, MANAGER_BASE_SYSTEM_PROMPT,
    MANAGER_INSTRUCTIONS_TO_THE_WORKER_PROMPT, MANAGER_NON_DELEGABLE_RESPONSIBILITY_PROMPT,
    MANAGER_PRACTICES_TO_AVOID_PROMPT, MANAGER_ROLE_PROMPT, MANAGER_TOOL_BOUNDARY_PROMPT,
    MANAGER_TOOL_BOUNDARY_REMINDER, MANAGER_WORKMAP_AND_FINAL_DELIVERY_PROMPT,
    PARENT_AGENT_CONTEXT_PROTOCOL_PROMPT, SAFETY_POLICY_PROMPT, SUB_AGENT_SYSTEM_PROMPT,
    WORKER_APPLYING_ACTIONS_PROMPT, WORKER_BASE_SYSTEM_PROMPT, WORKER_CONTEXT_PROTOCOL_PROMPT,
    WORKER_EXECUTION_BOUNDARIES_PROMPT, WORKER_REPORTING_PROMPT, WORKER_ROLE_PROMPT,
    WORKER_TOOL_BOUNDARY_REMINDER,
};
use crate::support::prompt_names;
use crate::text::decimal;
use crate::transfer::joined;

verus! {

/// Whether a text has another in it.
pub open spec fn mentions(text: Seq<char>, part: Seq<char>) -> bool {
    exists|start: int| mentions_at(text, part, start)
}

/// Whether a text has another in it from a place on.
pub open spec fn mentions_at(text: Seq<char>, part: Seq<char>, start: int) -> bool {
    &&& 0 <= start
    &&& start + part.len() <= text.len()
    &&& text.subrange(start, start + part.len()) == part
}

/// What a text has in it stays in it when something is put behind it.
pub proof fn lemma_mentioned_before(text: Seq<char>, part: Seq<char>, more: Seq<char>)
    requires
        mentions(text, part),
    ensures
        mentions(text + more, part),
{
    let start = choose|start: int| mentions_at(text, part, start);
    assert((text + more).subrange(start, start + part.len()) =~= part);
    assert(mentions_at(text + more, part, start));
}

/// A text has in it what it was put together of.
pub proof fn lemma_mentioned(before: Seq<char>, part: Seq<char>)
    ensures
        mentions(before + part, part),
{
    let start = before.len() as int;
    assert((before + part).subrange(start, start + part.len()) =~= part);
    assert(mentions_at(before + part, part, start));
}

/// An agent is told who it is before all else, how agents work and where it works. Two places of
/// work are never told alike.
pub proof fn law_agent_is_told_who_it_is(
    profile: MainAgentProfile,
    kind: AgentKind,
    title: Seq<char>,
    environment: Seq<char>,
    elsewhere: Seq<char>,
)
    ensures
        profile == MainAgentProfile::Manager ==> MANAGER_BASE_SYSTEM_PROMPT@.is_prefix_of(
            base_prompt(profile, kind, title, environment),
        ),
        profile == MainAgentProfile::Worker ==> WORKER_BASE_SYSTEM_PROMPT@.is_prefix_of(
            base_prompt(profile, kind, title, environment),
        ),
        profile == MainAgentProfile::Standard && kind == AgentKind::SubAgent
            ==> SUB_AGENT_SYSTEM_PROMPT@.is_prefix_of(
            base_prompt(profile, kind, title, environment),
        ),
        profile == MainAgentProfile::Standard && kind != AgentKind::SubAgent
            ==> BASE_SYSTEM_PROMPT@.is_prefix_of(base_prompt(profile, kind, title, environment)),
        mentions(base_prompt(profile, kind, title, environment), AGENT_OPERATING_PROMPT@),
        mentions(base_prompt(profile, kind, title, environment), environment),
        base_prompt(profile, kind, title, environment) == base_prompt(
            profile,
            kind,
            title,
            elsewhere,
        ) ==> environment == elsewhere,
{
    let text = base_prompt(profile, kind, title, environment);
    let role = crate::prompts::role_prompt(profile, kind);
    let head = role + "\n\n"@;
    let told = head + AGENT_OPERATING_PROMPT@;
    let front = told + "\n\n"@;
    let placed = front + environment;
    let protocol = crate::prompts::protocol_prompt(profile, kind);
    let base = placed + "\n\n"@ + protocol;
    lemma_mentioned(head, AGENT_OPERATING_PROMPT@);
    lemma_mentioned_before(told, AGENT_OPERATING_PROMPT@, "\n\n"@);
    lemma_mentioned_before(front, AGENT_OPERATING_PROMPT@, environment);
    lemma_mentioned_before(placed, AGENT_OPERATING_PROMPT@, "\n\n"@);
    lemma_mentioned_before(placed + "\n\n"@, AGENT_OPERATING_PROMPT@, protocol);
    lemma_mentioned(front, environment);
    lemma_mentioned_before(placed, environment, "\n\n"@);
    lemma_mentioned_before(placed + "\n\n"@, environment, protocol);
    lemma_mentioned_before(base, AGENT_OPERATING_PROMPT@, "\n\n"@);
    lemma_mentioned_before(base + "\n\n"@, AGENT_OPERATING_PROMPT@, title);
    lemma_mentioned_before(base, environment, "\n\n"@);
    lemma_mentioned_before(base + "\n\n"@, environment, title);
    assert(text.subrange(0, role.len() as int) =~= role);
    let other = base_prompt(profile, kind, title, elsewhere);
    if text == other {
        assert(text.len() == other.len());
        assert(environment.len() == elsewhere.len());
        let start = front.len() as int;
        assert(text.subrange(start, start + environment.len()) =~= environment);
        assert(other.subrange(start, start + elsewhere.len()) =~= elsewhere);
    }
}

/// Managers and main agents are told at the end how to name a conversation, workers and sub-agents
/// are not.
pub proof fn law_agents_of_the_user_name_conversations(
    profile: MainAgentProfile,
    kind: AgentKind,
    title: Seq<char>,
    other_title: Seq<char>,
    environment: Seq<char>,
)
    ensures
        profile == MainAgentProfile::Manager || (profile == MainAgentProfile::Standard && kind
            != AgentKind::SubAgent) ==> title.is_suffix_of(
            base_prompt(profile, kind, title, environment),
        ) && (title != other_title ==> base_prompt(profile, kind, title, environment)
            != base_prompt(profile, kind, other_title, environment)),
        profile == MainAgentProfile::Worker || (profile == MainAgentProfile::Standard && kind
            == AgentKind::SubAgent) ==> base_prompt(profile, kind, title, environment)
            == base_prompt(profile, kind, other_title, environment),
{
    let text = base_prompt(profile, kind, title, environment);
    let other = base_prompt(profile, kind, other_title, environment);
    if profile == MainAgentProfile::Manager || (profile == MainAgentProfile::Standard && kind
        != AgentKind::SubAgent) {
        let start = text.len() - title.len();
        assert(text.subrange(start, text.len() as int) =~= title);
        if text == other {
            assert(text.len() - title.len() == other.len() - other_title.len());
            assert(other.subrange(start, other.len() as int) =~= other_title);
        }
    }
}

/// The description of the tools is put before every agent as it is. A manager and a worker are
/// reminded at its end of what they may not do; other agents read nothing else.
pub proof fn law_tools_are_described(profile: MainAgentProfile, toolbox: Seq<char>)
    ensures
        toolbox.is_prefix_of(tool_prompt(profile, toolbox)),
        profile == MainAgentProfile::Manager ==> MANAGER_TOOL_BOUNDARY_REMINDER@.is_suffix_of(
            tool_prompt(profile, toolbox),
        ),
        profile == MainAgentProfile::Worker ==> WORKER_TOOL_BOUNDARY_REMINDER@.is_suffix_of(
            tool_prompt(profile, toolbox),
        ),
        profile == MainAgentProfile::Standard ==> tool_prompt(profile, toolbox) == toolbox,
{
    let text = tool_prompt(profile, toolbox);
    assert(text.subrange(0, toolbox.len() as int) =~= toolbox);
    assert(toolbox =~= text.take(toolbox.len() as int));
    match profile {
        MainAgentProfile::Manager => {
            let start = text.len() - MANAGER_TOOL_BOUNDARY_REMINDER@.len();
            assert(text.subrange(start, text.len() as int) =~= MANAGER_TOOL_BOUNDARY_REMINDER@);
        },
        MainAgentProfile::Worker => {
            let start = text.len() - WORKER_TOOL_BOUNDARY_REMINDER@.len();
            assert(text.subrange(start, text.len() as int) =~= WORKER_TOOL_BOUNDARY_REMINDER@);
        },
        MainAgentProfile::Standard => {},
    }
}

/// The names of the prompts are six.
proof fn lemma_prompt_names_differ()
    ensures
        "base"@ != "policy"@,
        "base"@ != "tool"@,
        "base"@ != "parent-agent"@,
        "base"@ != "manager"@,
        "base"@ != "worker"@,
        "policy"@ != "tool"@,
        "policy"@ != "parent-agent"@,
        "policy"@ != "manager"@,
        "policy"@ != "worker"@,
        "tool"@ != "parent-agent"@,
        "tool"@ != "manager"@,
        "tool"@ != "worker"@,
        "parent-agent"@ != "manager"@,
        "parent-agent"@ != "worker"@,
        "manager"@ != "worker"@,
{
    reveal_strlit("base");
    reveal_strlit("policy");
    reveal_strlit("tool");
    reveal_strlit("parent-agent");
    reveal_strlit("manager");
    reveal_strlit("worker");
    assert("base"@[0] != "tool"@[0]);
    assert("policy"@[0] != "worker"@[0]);
    assert("policy"@.len() == 6 && "manager"@.len() == 7 && "parent-agent"@.len() == 12);
}

/// Every prompt with which the log of an agent begins can be written, and each is what its name
/// says: the description of the tools, the safety policy, what the parent agent wrote.
pub proof fn law_prompts_go_by_their_names(
    parts: PartsView,
    kind: AgentKind,
    profile: MainAgentProfile,
)
    ensures
        forall|i: int|
            0 <= i < prompt_names(profile, parts.parent_system_prompt is Some).len()
                ==> system_prompt(
                #[trigger] prompt_names(profile, parts.parent_system_prompt is Some)[i],
                parts,
                kind,
                profile,
            ) is Ok,
        system_prompt("policy"@, parts, kind, profile) == Ok::<Seq<char>, Seq<char>>(
            SAFETY_POLICY_PROMPT@,
        ),
        system_prompt("base"@, parts, kind, profile) matches Ok(text) && mentions(
            text,
            parts.environment_prompt,
        ) && mentions(text, AGENT_OPERATING_PROMPT@),
        system_prompt("tool"@, parts, kind, profile) matches Ok(text) && mentions(
            text,
            parts.toolbox_prompt,
        ),
        parts.parent_system_prompt matches Some(prompt) ==> system_prompt(
            "parent-agent"@,
            parts,
            kind,
            profile,
        ) == Ok::<Seq<char>, Seq<char>>(prompt),
        parts.parent_system_prompt is None ==> system_prompt(
            "parent-agent"@,
            parts,
            kind,
            profile,
        ) is Err,
        system_prompt("manager"@, parts, kind, profile) is Ok <==> profile
            == MainAgentProfile::Manager,
        system_prompt("worker"@, parts, kind, profile) is Ok <==> profile
            == MainAgentProfile::Worker,
{
    lemma_prompt_names_differ();
    law_agent_is_told_who_it_is(
        profile,
        kind,
        parts.title_prompt,
        parts.environment_prompt,
        parts.environment_prompt,
    );
    let text = tool_prompt(profile, parts.toolbox_prompt);
    assert(text.subrange(0, parts.toolbox_prompt.len() as int) =~= parts.toolbox_prompt);
    assert(mentions_at(text, parts.toolbox_prompt, 0));
}

/// Every agent is told how messages reach it: a worker from its manager, a sub-agent from its parent
/// agent, and others from the user.
pub proof fn law_agents_are_told_who_speaks_to_them(
    profile: MainAgentProfile,
    kind: AgentKind,
    title: Seq<char>,
    environment: Seq<char>,
)
    ensures
        profile == MainAgentProfile::Manager || (profile == MainAgentProfile::Standard && kind
            != AgentKind::SubAgent) ==> mentions(
            base_prompt(profile, kind, title, environment),
            CONTEXT_PROTOCOL_PROMPT@,
        ),
        profile == MainAgentProfile::Worker ==> mentions(
            base_prompt(profile, kind, title, environment),
            WORKER_CONTEXT_PROTOCOL_PROMPT@,
        ),
        profile == MainAgentProfile::Standard && kind == AgentKind::SubAgent ==> mentions(
            base_prompt(profile, kind, title, environment),
            PARENT_AGENT_CONTEXT_PROTOCOL_PROMPT@,
        ),
{
    let protocol = crate::prompts::protocol_prompt(profile, kind);
    let front = crate::prompts::role_prompt(profile, kind) + "\n\n"@ + AGENT_OPERATING_PROMPT@
        + "\n\n"@ + environment + "\n\n"@;
    let base = front + protocol;
    lemma_mentioned(front, protocol);
    lemma_mentioned_before(base, protocol, "\n\n"@);
    lemma_mentioned_before(base + "\n\n"@, protocol, title);
}

/// A manager is told its role, what it cannot hand on, which tools it has, how it speaks to its worker,
/// what to avoid, and how to deliver.
pub proof fn law_managers_are_told_how_they_work(parts: PartsView, kind: AgentKind)
    ensures
        system_prompt("manager"@, parts, kind, MainAgentProfile::Manager) matches Ok(text) && {
            &&& MANAGER_ROLE_PROMPT@.is_prefix_of(text)
            &&& mentions(text, MANAGER_NON_DELEGABLE_RESPONSIBILITY_PROMPT@)
            &&& mentions(text, MANAGER_TOOL_BOUNDARY_PROMPT@)
            &&& mentions(text, MANAGER_INSTRUCTIONS_TO_THE_WORKER_PROMPT@)
            &&& mentions(text, MANAGER_PRACTICES_TO_AVOID_PROMPT@)
            &&& mentions(text, MANAGER_WORKMAP_AND_FINAL_DELIVERY_PROMPT@)
        },
{
    lemma_prompt_names_differ();
    let part1 = MANAGER_ROLE_PROMPT@;
    let part2 = MANAGER_NON_DELEGABLE_RESPONSIBILITY_PROMPT@;
    let part3 = MANAGER_TOOL_BOUNDARY_PROMPT@;
    let part4 = MANAGER_INSTRUCTIONS_TO_THE_WORKER_PROMPT@;
    let part5 = MANAGER_PRACTICES_TO_AVOID_PROMPT@;
    let part6 = MANAGER_WORKMAP_AND_FINAL_DELIVERY_PROMPT@;
    let text2 = part1 + part2;
    let text3 = text2 + part3;
    let text4 = text3 + part4;
    let text5 = text4 + part5;
    let text6 = text5 + part6;
    assert(text6 == crate::prompts::manager_prompt());
    assert(text6.take(part1.len() as int) =~= part1);
    lemma_mentioned(part1, part2);
    lemma_mentioned_before(text2, part2, part3);
    lemma_mentioned_before(text3, part2, part4);
    lemma_mentioned_before(text4, part2, part5);
    lemma_mentioned_before(text5, part2, part6);
    lemma_mentioned(text2, part3);
    lemma_mentioned_before(text3, part3, part4);
    lemma_mentioned_before(text4, part3, part5);
    lemma_mentioned_before(text5, part3, part6);
    lemma_mentioned(text3, part4);
    lemma_mentioned_before(text4, part4, part5);
    lemma_mentioned_before(text5, part4, part6);
    lemma_mentioned(text4, part5);
    lemma_mentioned_before(text5, part5, part6);
    lemma_mentioned(text5, part6);
}

/// A worker is told its role, its boundaries, how to act and how to report.
pub proof fn law_workers_are_told_how_they_work(parts: PartsView, kind: AgentKind)
    ensures
        system_prompt("worker"@, parts, kind, MainAgentProfile::Worker) matches Ok(text) && {
            &&& WORKER_ROLE_PROMPT@.is_prefix_of(text)
            &&& mentions(text, WORKER_EXECUTION_BOUNDARIES_PROMPT@)
            &&& mentions(text, WORKER_APPLYING_ACTIONS_PROMPT@)
            &&& mentions(text, WORKER_REPORTING_PROMPT@)
        },
{
    lemma_prompt_names_differ();
    let part1 = WORKER_ROLE_PROMPT@;
    let part2 = WORKER_EXECUTION_BOUNDARIES_PROMPT@;
    let part3 = WORKER_APPLYING_ACTIONS_PROMPT@;
    let part4 = WORKER_REPORTING_PROMPT@;
    let text2 = part1 + part2;
    let text3 = text2 + part3;
    let text4 = text3 + part4;
    assert(text4 == crate::prompts::worker_prompt());
    assert(text4.take(part1.len() as int) =~= part1);
    lemma_mentioned(part1, part2);
    lemma_mentioned_before(text2, part2, part3);
    lemma_mentioned_before(text3, part2, part4);
    lemma_mentioned(text2, part3);
    lemma_mentioned_before(text3, part3, part4);
    lemma_mentioned(text3, part4);
}

/// A log begins with who the agent is and what it may do, and with its tools last. A manager and a
/// worker are told in between how they work, and another agent what its parent wrote, if it did.
pub proof fn law_prompts_of_a_log(profile: MainAgentProfile, has_parent_prompt: bool)
    ensures
        prompt_names(profile, has_parent_prompt)[0] == "base"@,
        prompt_names(profile, has_parent_prompt)[1] == "policy"@,
        prompt_names(profile, has_parent_prompt).last() == "tool"@,
        prompt_names(profile, has_parent_prompt).contains("manager"@) <==> profile
            == MainAgentProfile::Manager,
        prompt_names(profile, has_parent_prompt).contains("worker"@) <==> profile
            == MainAgentProfile::Worker,
        prompt_names(profile, has_parent_prompt).contains("parent-agent"@) <==> profile
            == MainAgentProfile::Standard && has_parent_prompt,
        prompt_names(profile, has_parent_prompt).no_duplicates(),
{
    lemma_prompt_names_differ();
    let names = prompt_names(profile, has_parent_prompt);
    if profile == MainAgentProfile::Standard && !has_parent_prompt {
        assert(names.len() == 3);
    } else {
        assert(names.len() == 4);
        match profile {
            MainAgentProfile::Manager => {
                assert(names[2] == "manager"@);
            },
            MainAgentProfile::Worker => {
                assert(names[2] == "worker"@);
            },
            MainAgentProfile::Standard => {
                assert(names[2] == "parent-agent"@);
            },
        }
    }
}

/// An agent has no prompt of any other name.
pub proof fn law_there_are_no_other_prompts(
    name: Seq<char>,
    parts: PartsView,
    kind: AgentKind,
    profile: MainAgentProfile,
)
    requires
        name != "base"@,
        name != "policy"@,
        name != "tool"@,
        name != "parent-agent"@,
        name != "manager"@,
        name != "worker"@,
    ensures
        system_prompt(name, parts, kind, profile) is Err,
{
}

/// Whether a text is there and says something.
pub open spec fn is_set(text: Option<String>) -> bool {
    text matches Some(found) && found@.len() > 0
}

/// The locale is the first that is set, and there is none only if none is.
pub proof fn law_first_text_that_is_set_counts(texts: Seq<Option<String>>)
    ensures
        first_text(texts) is None <==> (forall|i: int|
            0 <= i < texts.len() ==> !is_set(#[trigger] texts[i])),
        first_text(texts) matches Some(found) ==> exists|i: int|
            {
                &&& 0 <= i < texts.len()
                &&& is_set(#[trigger] texts[i])
                &&& texts[i] matches Some(text)
                &&& text@ == found
                &&& forall|j: int| 0 <= j < i ==> !is_set(#[trigger] texts[j])
            },
    decreases texts.len(),
{
    if texts.len() > 0 {
        let rest = texts.skip(1);
        law_first_text_that_is_set_counts(rest);
        assert(forall|i: int| 0 <= i < rest.len() ==> #[trigger] rest[i] == texts[i + 1]);
        assert(forall|i: int| 1 <= i < texts.len() ==> #[trigger] texts[i] == rest[i - 1]);
        if is_set(texts[0]) {
        } else if first_text(rest) is Some {
            let found = first_text(rest)->0;
            let i = choose|i: int|
                {
                    &&& 0 <= i < rest.len()
                    &&& is_set(#[trigger] rest[i])
                    &&& rest[i] matches Some(text)
                    &&& text@ == found
                    &&& forall|j: int| 0 <= j < i ==> !is_set(#[trigger] rest[j])
                };
            assert(is_set(texts[i + 1]));
            assert(forall|j: int| 0 <= j < i + 1 ==> !is_set(#[trigger] texts[j]));
        } else {
            assert forall|i: int| 0 <= i < texts.len() implies !is_set(#[trigger] texts[i]) by {
                if i > 0 {
                    assert(!is_set(rest[i - 1]));
                }
            }
        }
    }
}

/// A list names each of its texts.
proof fn lemma_listed(texts: Seq<String>, place: int)
    requires
        0 <= place < texts.len(),
    ensures
        mentions(listed(texts), texts[place]@),
    decreases texts.len(),
{
    if texts.len() == 1 {
        assert(texts[0]@.subrange(0, texts[0]@.len() as int) =~= texts[0]@);
        assert(mentions_at(listed(texts), texts[0]@, 0));
    } else {
        let before = listed(texts.drop_last());
        if place == texts.len() - 1 {
            lemma_mentioned(before + ", "@, texts[place]@);
        } else {
            lemma_listed(texts.drop_last(), place);
            lemma_mentioned_before(before, texts[place]@, ", "@);
            lemma_mentioned_before(before + ", "@, texts[place]@, texts.last()@);
        }
    }
}

/// What comes behind a text has in it what it had.
proof fn lemma_mentioned_behind(before: Seq<char>, text: Seq<char>, part: Seq<char>)
    requires
        mentions(text, part),
    ensures
        mentions(before + text, part),
{
    let start = choose|start: int| mentions_at(text, part, start);
    let place = before.len() + start;
    assert((before + text).subrange(place, place + part.len()) =~= text.subrange(
        start,
        start + part.len(),
    ));
    assert(mentions_at(before + text, part, place));
}

/// An agent is told of every variable that is set for a proxy, and that there is none only if there
/// is none.
pub proof fn law_proxies_are_told(proxies: Seq<String>, place: int)
    ensures
        0 <= place < proxies.len() ==> mentions(proxy_text(proxies), proxies[place]@),
        proxies.len() > 0 ==> "configured through "@.is_prefix_of(proxy_text(proxies)),
        proxies.len() == 0 ==> proxy_text(proxies) == "not configured in the process environment"@,
{
    if 0 <= place < proxies.len() {
        lemma_listed(proxies, place);
        lemma_mentioned_behind("configured through "@, listed(proxies), proxies[place]@);
        lemma_mentioned_before(
            "configured through "@ + listed(proxies),
            proxies[place]@,
            " (values intentionally omitted)"@,
        );
    }
    if proxies.len() > 0 {
        assert(proxy_text(proxies).take("configured through "@.len() as int)
            =~= "configured through "@);
    }
}

/// An agent is told of each route that was found, as what it is, and of no other.
pub proof fn law_routes_are_told(ipv4: Option<String>, ipv6: Option<String>)
    ensures
        ipv4 matches Some(four) ==> mentions(routes_text(ipv4, ipv6), "preferred IPv4 "@ + four@),
        ipv6 matches Some(six) ==> mentions(routes_text(ipv4, ipv6), "preferred IPv6 "@ + six@),
        ipv4 is None && ipv6 is None ==> routes_text(ipv4, ipv6)
            == "no preferred outbound route detected"@,
        ipv6 is None ==> (ipv4 matches Some(four) ==> routes_text(ipv4, ipv6) == "preferred IPv4 "@
            + four@),
        ipv4 is None ==> (ipv6 matches Some(six) ==> routes_text(ipv4, ipv6) == "preferred IPv6 "@
            + six@),
{
    reveal_strlit("");
    reveal_strlit(", preferred IPv6 ");
    reveal_strlit("preferred IPv6 ");
    let text = routes_text(ipv4, ipv6);
    if ipv4 is Some {
        let part = "preferred IPv4 "@ + ipv4->0@;
        assert(text.subrange(0, part.len() as int) =~= part);
        assert(mentions_at(text, part, 0));
    }
    if ipv6 is Some {
        let part = "preferred IPv6 "@ + ipv6->0@;
        let start = text.len() - part.len();
        assert(", preferred IPv6 "@ =~= ", "@ + "preferred IPv6 "@) by {
            reveal_strlit(", ");
        }
        assert(text.subrange(start, text.len() as int) =~= part);
        assert(mentions_at(text, part, start));
    }
    if ipv4 is Some && ipv6 is None {
        assert(text =~= "preferred IPv4 "@ + ipv4->0@);
    }
    if ipv6 is Some && ipv4 is None {
        assert(text =~= "preferred IPv6 "@ + ipv6->0@);
    }
}

/// Labels a value in the description of the machine.
pub open spec fn labelled(label: Seq<char>, value: Seq<char>) -> Seq<char> {
    label + json_written(JsonView::Text(value))
}

/// A text that ends with a label and its value has both in it.
proof fn lemma_labelled(before: Seq<char>, label: Seq<char>, value: Seq<char>)
    ensures
        mentions(before + label + value, label + value),
{
    let text = before + label + value;
    let part = label + value;
    let start = before.len() as int;
    assert(text.subrange(start, start + part.len()) =~= part);
    assert(mentions_at(text, part, start));
}

/// What a text has in it stays in it when a label and its value are put behind it.
proof fn lemma_still_mentioned(
    text: Seq<char>,
    part: Seq<char>,
    label: Seq<char>,
    value: Seq<char>,
)
    requires
        mentions(text, part),
    ensures
        mentions(text + label + value, part),
{
    lemma_mentioned_before(text, part, label);
    lemma_mentioned_before(text + label, part, value);
}

/// An agent is told each fact of the machine under its own name, and a directory of its own below
/// its workspace.
pub proof fn law_machine_is_described(
    environment: ProcessEnvironmentSnapshot,
    workspace: Seq<char>,
    temporary_root: Seq<char>,
    agent_id: Seq<char>,
)
    ensures
        mentions(
            surroundings(environment, workspace, temporary_root, agent_id),
            labelled("\n- Architecture: "@, environment.architecture@),
        ),
        mentions(
            surroundings(environment, workspace, temporary_root, agent_id),
            labelled("\n- Workspace: "@, workspace),
        ),
        mentions(
            surroundings(environment, workspace, temporary_root, agent_id),
            labelled("\n- Terminal shell backend: "@, environment.shell@),
        ),
        mentions(
            surroundings(environment, workspace, temporary_root, agent_id),
            labelled("\n- Locale: "@, environment.locale@),
        ),
        mentions(
            surroundings(environment, workspace, temporary_root, agent_id),
            labelled("\n- Time zone: "@, environment.timezone@),
        ),
        mentions(
            surroundings(environment, workspace, temporary_root, agent_id),
            "\n- Network routes: "@ + environment.routes@,
        ),
        mentions(
            surroundings(environment, workspace, temporary_root, agent_id),
            "; external connectivity was not preflighted\n- Proxy environment: "@
                + environment.proxy@,
        ),
        mentions(
            surroundings(environment, workspace, temporary_root, agent_id),
            labelled(
                "\n\n# Temporary workspace\n\n- Writable path: "@,
                joined(joined(workspace, temporary_root), agent_id),
            ),
        ),
{
    let label1 = "\n- Architecture: "@;
    let label2 = "\n- Workspace: "@;
    let label3 = "\n- Terminal shell backend: "@;
    let label4 = "\n- Locale: "@;
    let label5 = "\n- Time zone: "@;
    let label6 = "\n- Network routes: "@;
    let label7 = "; external connectivity was not preflighted\n- Proxy environment: "@;
    let label8 = "\n\n# Temporary workspace\n\n- Writable path: "@;
    let value1 = as_data(environment.architecture@);
    let value2 = as_data(workspace);
    let value3 = as_data(environment.shell@);
    let value4 = as_data(environment.locale@);
    let value5 = as_data(environment.timezone@);
    let value6 = environment.routes@;
    let value7 = environment.proxy@;
    let value8 = as_data(joined(joined(workspace, temporary_root), agent_id));
    let text0 = ENVIRONMENT_HEAD@ + as_data(environment.os@);
    let text1 = text0 + label1 + value1;
    let text2 = text1 + label2 + value2;
    let text3 = text2 + label3 + value3;
    let text4 = text3 + label4 + value4;
    let text5 = text4 + label5 + value5;
    let text6 = text5 + label6 + value6;
    let text7 = text6 + label7 + value7;
    let text8 = text7 + label8 + value8;
    let text = text8 + ENVIRONMENT_TAIL@;
    assert(text == surroundings(environment, workspace, temporary_root, agent_id));
    lemma_labelled(text0, label1, value1);
    lemma_still_mentioned(text1, label1 + value1, label2, value2);
    lemma_still_mentioned(text2, label1 + value1, label3, value3);
    lemma_still_mentioned(text3, label1 + value1, label4, value4);
    lemma_still_mentioned(text4, label1 + value1, label5, value5);
    lemma_still_mentioned(text5, label1 + value1, label6, value6);
    lemma_still_mentioned(text6, label1 + value1, label7, value7);
    lemma_still_mentioned(text7, label1 + value1, label8, value8);
    lemma_mentioned_before(text8, label1 + value1, ENVIRONMENT_TAIL@);
    lemma_labelled(text1, label2, value2);
    lemma_still_mentioned(text2, label2 + value2, label3, value3);
    lemma_still_mentioned(text3, label2 + value2, label4, value4);
    lemma_still_mentioned(text4, label2 + value2, label5, value5);
    lemma_still_mentioned(text5, label2 + value2, label6, value6);
    lemma_still_mentioned(text6, label2 + value2, label7, value7);
    lemma_still_mentioned(text7, label2 + value2, label8, value8);
    lemma_mentioned_before(text8, label2 + value2, ENVIRONMENT_TAIL@);
    lemma_labelled(text2, label3, value3);
    lemma_still_mentioned(text3, label3 + value3, label4, value4);
    lemma_still_mentioned(text4, label3 + value3, label5, value5);
    lemma_still_mentioned(text5, label3 + value3, label6, value6);
    lemma_still_mentioned(text6, label3 + value3, label7, value7);
    lemma_still_mentioned(text7, label3 + value3, label8, value8);
    lemma_mentioned_before(text8, label3 + value3, ENVIRONMENT_TAIL@);
    lemma_labelled(text3, label4, value4);
    lemma_still_mentioned(text4, label4 + value4, label5, value5);
    lemma_still_mentioned(text5, label4 + value4, label6, value6);
    lemma_still_mentioned(text6, label4 + value4, label7, value7);
    lemma_still_mentioned(text7, label4 + value4, label8, value8);
    lemma_mentioned_before(text8, label4 + value4, ENVIRONMENT_TAIL@);
    lemma_labelled(text4, label5, value5);
    lemma_still_mentioned(text5, label5 + value5, label6, value6);
    lemma_still_mentioned(text6, label5 + value5, label7, value7);
    lemma_still_mentioned(text7, label5 + value5, label8, value8);
    lemma_mentioned_before(text8, label5 + value5, ENVIRONMENT_TAIL@);
    lemma_labelled(text5, label6, value6);
    lemma_still_mentioned(text6, label6 + value6, label7, value7);
    lemma_still_mentioned(text7, label6 + value6, label8, value8);
    lemma_mentioned_before(text8, label6 + value6, ENVIRONMENT_TAIL@);
    lemma_labelled(text6, label7, value7);
    lemma_still_mentioned(text7, label7 + value7, label8, value8);
    lemma_mentioned_before(text8, label7 + value7, ENVIRONMENT_TAIL@);
    lemma_labelled(text7, label8, value8);
    lemma_mentioned_before(text8, label8 + value8, ENVIRONMENT_TAIL@);
}

/// The operating system is told where the description of the machine begins.
pub proof fn law_system_is_told_first(
    environment: ProcessEnvironmentSnapshot,
    workspace: Seq<char>,
    temporary_root: Seq<char>,
    agent_id: Seq<char>,
)
    ensures
        labelled(ENVIRONMENT_HEAD@, environment.os@).is_prefix_of(
            surroundings(environment, workspace, temporary_root, agent_id),
        ),
{
    let front = labelled(ENVIRONMENT_HEAD@, environment.os@);
    let text = surroundings(environment, workspace, temporary_root, agent_id);
    assert(text.len() >= front.len());
    assert(text.take(front.len() as int) =~= front);
}

/// A worker and a sub-agent cannot have agents of their own nor name the conversation, and a worker
/// cannot make images. The user's own agent is offered everything.
pub proof fn law_tools_are_offered(choice: CatalogChoice, profile: MainAgentProfile, kind: AgentKind)
    requires
        offered_tools(choice, profile, kind),
    ensures
        profile == MainAgentProfile::Manager <==> choice is ManagerView,
        choice matches CatalogChoice::Without(sets) ==> {
            &&& sets@.contains(ToolSet::Agent) <==> profile == MainAgentProfile::Worker || kind
                == AgentKind::SubAgent
            &&& sets@.contains(ToolSet::Title) <==> profile == MainAgentProfile::Worker || kind
                == AgentKind::SubAgent
            &&& sets@.contains(ToolSet::Image) <==> profile == MainAgentProfile::Worker
        },
{
    if let CatalogChoice::Without(sets) = choice {
        if profile == MainAgentProfile::Worker {
            assert(sets@[0] == ToolSet::Agent && sets@[1] == ToolSet::Image && sets@[2]
                == ToolSet::Title);
        } else if kind == AgentKind::SubAgent {
            assert(sets@[0] == ToolSet::Agent && sets@[1] == ToolSet::Title);
        }
    }
}

/// The tokens that are still to be divided are those of the latest request that was charged, unless
/// an estimate of the log divides them.
pub proof fn law_tokens_are_divided_once(events: Seq<Event>, boundary: Option<EventId>, event: EventId)
    ensures
        estimate_owed(events, boundary) == Some(event) <==> boundary == Some(event) && (forall|i: int|
            0 <= i < events.len() ==> !(#[trigger] events[i].body matches EventBody::ContextUsageEstimate(
                estimate,
            ) && estimate.api_state_event_id == event)),
        estimate_owed(events, None) is None,
{
    if exists|i: int|
        0 <= i < events.len() && (#[trigger] events[i].body matches EventBody::ContextUsageEstimate(
            estimate,
        ) && estimate.api_state_event_id == event) {
        let i = choose|i: int|
            0 <= i < events.len() && (#[trigger] events[i].body matches EventBody::ContextUsageEstimate(
                estimate,
            ) && estimate.api_state_event_id == event);
        assert(divides(events[i], event));
    }
}

/// Whether an event asks an agent to begin a turn and no part of an answer to it is there.
pub open spec fn waits(events: Seq<Event>, place: int) -> bool {
    &&& events[place].body is UserPrompt || events[place].body is ManagerPrompt || events[place].body
        is ParentAgentPrompt
    &&& forall|i: int|
        0 <= i < events.len() ==> !(#[trigger] events[i].body matches EventBody::AssistResponse(
            response,
        ) && response.prompt_id == events[place].id)
}

/// A prompt that waits is one that nobody has begun to answer.
proof fn lemma_waits(events: Seq<Event>, place: int)
    ensures
        waits(events, place) == unanswered(events, place),
{
    let prompt = events[place].id;
    if has_answer(events, prompt) {
        let i = choose|i: int| 0 <= i < events.len() && says_to(#[trigger] events[i], prompt);
        assert(events[i].body is AssistResponse);
    }
    if !waits(events, place) && events[place].root_prompt() {
        let i = choose|i: int|
            0 <= i < events.len() && (#[trigger] events[i].body matches EventBody::AssistResponse(
                response,
            ) && response.prompt_id == prompt);
        assert(says_to(events[i], prompt));
    }
}

/// An agent answers the first prompt that waits, from where it left off; it answers none only if
/// none waits.
pub proof fn law_prompts_are_answered_in_order(events: Seq<Event>, from: int)
    requires
        0 <= from,
    ensures
        next_unanswered(events, from) matches Some(place) ==> {
            &&& from <= place < events.len()
            &&& waits(events, place)
            &&& forall|i: int| from <= i < place ==> !#[trigger] waits(events, i)
        },
        next_unanswered(events, from) is None ==> forall|i: int|
            from <= i < events.len() ==> !#[trigger] waits(events, i),
    decreases events.len() - from,
{
    if from < events.len() {
        lemma_waits(events, from);
        law_prompts_are_answered_in_order(events, from + 1);
    }
}

/// Whether a turn went wrong is decided by the last word on it: by the state of a request, or by
/// the user who ended it. A turn of which nothing is said went wrong.
pub proof fn law_last_word_decides(events: Seq<Event>, event: Event, prompt: EventId)
    ensures
        ended_badly(Seq::empty(), prompt),
        event.body matches EventBody::ApiStateUpdate(update) ==> (update.prompt_id == prompt
            ==> ended_badly(events.push(event), prompt) == (update.state == ApiState::Error
            || update.state == ApiState::Interrupted)),
        event.body matches EventBody::UserTurnAborted(aborted) ==> (aborted.prompt_id == prompt
            ==> ended_badly(events.push(event), prompt)),
        !(event.body matches EventBody::ApiStateUpdate(update) && update.prompt_id == prompt) && !(
        event.body matches EventBody::UserTurnAborted(aborted) && aborted.prompt_id == prompt)
            ==> ended_badly(events.push(event), prompt) == ended_badly(events, prompt),
{
    assert(events.push(event).drop_last() =~= events);
}

/// The sub-agents of a manager's family are workers and its other agents managers; elsewhere an
/// agent stays what it was made as.
pub proof fn law_managers_have_workers(agent: MainAgent, kind: AgentKind)
    ensures
        agent.manager_family ==> (agent.profile_for(kind) == MainAgentProfile::Worker <==> kind
            == AgentKind::SubAgent),
        agent.manager_family ==> (agent.profile_for(kind) == MainAgentProfile::Manager <==> kind
            != AgentKind::SubAgent),
        !agent.manager_family ==> agent.profile_for(kind) == agent.profile,
{
}

/// The orchestrators are four. Every part that an agent can play has one of its own, under whose
/// name it is made.
pub proof fn law_orchestrators_make_their_agents(
    agent: AnyAgent,
    profile: MainAgentProfile,
    effort: Option<String>,
    environment: ProcessEnvironmentSnapshot,
    temporary_root: Seq<char>,
)
    ensures
        orchestrator_exists(profile.orchestrator()),
        is_called(agent, profile.orchestrator(), effort, environment, temporary_root) ==> (
        agent matches AnyAgent::Main(main) && main.profile == profile && main.cursor == 0
            && main.workspace@ == "."@ && main.compact_kind == profile.compaction()
            && main.manager_family == (profile != MainAgentProfile::Standard)),
        is_called(agent, "chatbot"@, effort, environment, temporary_root) ==> agent is Chat,
        orchestrator_exists("chatbot"@),
        !orchestrator_exists(""@),
{
    reveal_strlit("main-agent");
    reveal_strlit("manager-agent");
    reveal_strlit("worker-agent");
    reveal_strlit("chatbot");
    reveal_strlit("");
    assert("main-agent"@.len() == 10 && "manager-agent"@.len() == 13 && "worker-agent"@.len() == 12
        && "chatbot"@.len() == 7 && ""@.len() == 0);
}

/// A new agent works for the user in the surroundings that were found, takes the effort that was asked
/// for or none, and nothing waits for it.
pub proof fn law_new_agents_have_done_nothing(
    agent: MainAgent,
    effort: Option<String>,
    environment: ProcessEnvironmentSnapshot,
    temporary_root: Seq<char>,
    profile: MainAgentProfile,
    manager_family: bool,
)
    requires
        agent.is_new(effort, environment, temporary_root, profile, manager_family),
    ensures
        agent.input_queue.pending@.len() == 0,
        agent.input_queue.abort_target == u64::MAX,
        !agent.api_activity.active,
        agent.definition.kind == AgentKind::Interactive,
        agent.definition.parent_agent_id is None,
        agent.parent_system_prompt is None,
        effort matches Some(asked) ==> (agent.effort matches Some(taken) && taken@ == asked@),
        effort is None ==> (agent.effort matches Some(taken) && taken@ == "unset"@),
        mentions(
            agent.environment_prompt@,
            labelled("\n- Locale: "@, environment.locale@),
        ),
        mentions(
            agent.environment_prompt@,
            labelled(
                "\n\n# Temporary workspace\n\n- Writable path: "@,
                joined(joined("."@, temporary_root), "main"@),
            ),
        ),
{
    law_machine_is_described(environment, "."@, temporary_root, "main"@);
}

/// The conversations of managers and main agents are compacted over all their turns, those of
/// workers over one.
pub proof fn law_profiles_compact_differently(profile: MainAgentProfile, other: MainAgentProfile)
    ensures
        profile.compaction() == other.compaction() ==> profile == other,
        profile.orchestrator() == other.orchestrator() ==> profile == other,
        profile == MainAgentProfile::Worker <==> profile.compaction()
            == CompactKind::WorkerSingleTurn,
        profile == MainAgentProfile::Manager <==> profile.compaction()
            == CompactKind::ManagerMultiTurn,
{
    reveal_strlit("main-agent");
    reveal_strlit("manager-agent");
    reveal_strlit("worker-agent");
    assert("main-agent"@.len() == 10 && "manager-agent"@.len() == 13 && "worker-agent"@.len()
        == 12);
}

/// The limit on open files is never lowered. It is raised to 65,536, or as far as the hard limit
/// goes, and no further.
pub proof fn law_limit_is_raised_as_far_as_it_goes(soft: u64, hard: u64)
    ensures
        desired_limit(soft, hard) >= soft,
        soft <= hard ==> desired_limit(soft, hard) <= hard,
        hard >= 65_536 ==> desired_limit(soft, hard) >= 65_536,
        hard <= 65_536 ==> desired_limit(soft, hard) >= hard,
        soft >= 65_536 ==> desired_limit(soft, hard) == soft,
        soft < 65_536 ==> desired_limit(soft, hard) <= 65_536,
{
}

/// The user is warned exactly if the limit stays below 65,536 or could not be raised, and reads what
/// it is, or why.
pub proof fn law_low_limits_are_told(actual: u64, error: Seq<char>)
    ensures
        limit_warning(Ok(actual)) is None <==> actual >= 65_536,
        limit_warning(Ok(actual)) matches Some(text) ==> mentions(text, decimal(actual as nat)),
        limit_warning(Err(error)) matches Some(text) && mentions(text, error),
{
    let head = "warning: file descriptor soft limit is "@;
    lemma_mentioned(head, decimal(actual as nat));
    let told = head + decimal(actual as nat);
    lemma_mentioned_before(told, decimal(actual as nat), "; requested "@);
    lemma_mentioned_before(
        told + "; requested "@,
        decimal(actual as nat),
        decimal(crate::limits::TARGET_NOFILE as nat),
    );
    lemma_mentioned_before(
        told + "; requested "@ + decimal(crate::limits::TARGET_NOFILE as nat),
        decimal(actual as nat),
        ", limited by the hard limit"@,
    );
    let front = "warning: unable to raise file descriptor soft limit to "@ + decimal(
        crate::limits::TARGET_NOFILE as nat,
    ) + ": "@;
    lemma_mentioned(front, error);
    lemma_mentioned_before(front + error, error, ""@);
}

} // verus!
