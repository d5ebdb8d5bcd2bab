//! The decisions of agent construction: the system preamble and the API key.
//! Building the agent and the client around them happens in the caller.

use vstd::prelude::*;

use crate::text::{ends_with, starts_with};

verus! {

/// `Some(x)`'s text behind `prefix`, or nothing.
pub open spec fn optional_part(prefix: Seq<char>, x: Option<Seq<char>>) -> Seq<char> {
    match x {
        Some(t) => prefix + t,
        None => Seq::empty(),
    }
}

/// The preamble of an agent: the system prompt, a newline, the to-do tool
/// prompt, then (when present) the project's agent instructions, the current
/// prompt file after a rule, and the working directory.
pub open spec fn preamble_text(
    system: Seq<char>,
    todo_tools: Seq<char>,
    agents: Option<Seq<char>>,
    current_prompt: Option<Seq<char>>,
    cwd: Option<Seq<char>>,
) -> Seq<char> {
    system + "\n"@ + todo_tools + optional_part("\n\n"@, agents) + optional_part(
        "\n\n---\n\n"@,
        current_prompt,
    ) + optional_part("\n\nCurrent working directory: "@, cwd)
}

/// The view of an optional string slice.
pub open spec fn opt_view(x: Option<&str>) -> Option<Seq<char>> {
    match x {
        Some(s) => Some(s@),
        None => None,
    }
}

/// Build the agent's preamble.
pub fn build_preamble(
    system: &str,
    todo_tools: &str,
    agents: Option<&str>,
    current_prompt: Option<&str>,
    cwd: Option<&str>,
) -> (r: String)
    ensures
        r@ == preamble_text(system@, todo_tools@, opt_view(agents), opt_view(current_prompt), opt_view(cwd)),
{
    let mut preamble = String::from_str(system);
    preamble.append("\n");
    preamble.append(todo_tools);
    let ghost base = preamble@;
    if let Some(a) = agents {
        preamble.append("\n\n");
        preamble.append(a);
    }
    assert(preamble@ =~= base + optional_part("\n\n"@, opt_view(agents)));
    let ghost with_agents = preamble@;
    if let Some(p) = current_prompt {
        preamble.append("\n\n---\n\n");
        preamble.append(p);
    }
    assert(preamble@ =~= with_agents + optional_part("\n\n---\n\n"@, opt_view(current_prompt)));
    let ghost with_prompt = preamble@;
    if let Some(c) = cwd {
        preamble.append("\n\nCurrent working directory: ");
        preamble.append(c);
    }
    assert(preamble@ =~= with_prompt + optional_part("\n\nCurrent working directory: "@, opt_view(cwd)));
    preamble
}

/// How each part of the preamble shows, whatever the other parts are: the
/// system prompt and the to-do prompt on lines of their own start it; a
/// working directory, when known, is the last thing in it; a prompt file
/// follows a rule after everything but the working directory; and agent
/// instructions follow the to-do prompt after a blank line.
pub proof fn law_preamble_parts(
    system: Seq<char>,
    todo_tools: Seq<char>,
    agents: Option<Seq<char>>,
    current_prompt: Option<Seq<char>>,
    cwd: Seq<char>,
    prompt: Seq<char>,
    instructions: Seq<char>,
)
    ensures
        preamble_text(system, todo_tools, agents, current_prompt, Some(cwd)) == preamble_text(
            system,
            todo_tools,
            agents,
            current_prompt,
            None,
        ) + "\n\nCurrent working directory: "@ + cwd,
        preamble_text(system, todo_tools, agents, Some(prompt), None) == preamble_text(
            system,
            todo_tools,
            agents,
            None,
            None,
        ) + "\n\n---\n\n"@ + prompt,
        preamble_text(system, todo_tools, Some(instructions), None, None) == preamble_text(
            system,
            todo_tools,
            None,
            None,
            None,
        ) + "\n\n"@ + instructions,
        preamble_text(system, todo_tools, None, None, None) == system + "\n"@ + todo_tools,
        starts_with(preamble_text(system, todo_tools, agents, current_prompt, Some(cwd)), system + "\n"@ + todo_tools),
        ends_with(
            preamble_text(system, todo_tools, agents, current_prompt, Some(cwd)),
            "\n\nCurrent working directory: "@ + cwd,
        ),
{
    let base = system + "\n"@ + todo_tools;
    let full = preamble_text(system, todo_tools, agents, current_prompt, Some(cwd));
    let tail = "\n\nCurrent working directory: "@ + cwd;
    assert(preamble_text(system, todo_tools, None, None, None) =~= base);
    assert(preamble_text(system, todo_tools, agents, current_prompt, Some(cwd)) =~= preamble_text(
        system,
        todo_tools,
        agents,
        current_prompt,
        None,
    ) + tail);
    assert(preamble_text(system, todo_tools, agents, Some(prompt), None) =~= preamble_text(
        system,
        todo_tools,
        agents,
        None,
        None,
    ) + "\n\n---\n\n"@ + prompt);
    assert(preamble_text(system, todo_tools, Some(instructions), None, None) =~= base + "\n\n"@ + instructions);
    let rest = optional_part("\n\n"@, agents) + optional_part("\n\n---\n\n"@, current_prompt) + tail;
    assert(full =~= base + rest);
    assert(full.subrange(0, base.len() as int) =~= base);
    assert(full.subrange(full.len() - tail.len(), full.len() as int) =~= tail);
}

/// The message when no API key was given.
pub open spec fn missing_key_text() -> Seq<char> {
    "No API key found. Set OPENROUTER_API_KEY environment variable or pass --api-key."@
}

/// The API key to use: the one given explicitly, else the one from the
/// environment; refused when there is neither.
pub fn select_api_key(api_key: Option<&str>, from_env: Option<String>) -> (r: Result<String, String>)
    ensures
        match api_key {
            Some(k) => r matches Ok(s) && s@ == k@,
            None => match from_env {
                Some(e) => r == Ok::<String, String>(e),
                None => r matches Err(m) && m@ == missing_key_text(),
            },
        },
{
    match api_key {
        Some(k) => Ok(String::from_str(k)),
        None => match from_env {
            Some(e) => Ok(e),
            None => Err(String::from_str(
                "No API key found. Set OPENROUTER_API_KEY environment variable or pass --api-key.",
            )),
        },
    }
}

} // verus!
