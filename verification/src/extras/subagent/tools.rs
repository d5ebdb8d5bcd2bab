//! Agent lifecycle tools for the lead agent: spawn, stop and status.

use vstd::prelude::*;
use vstd::string::StringSliceAdditionalSpecFns;
use vstd::utf8::{
    decode_utf8, decode_utf8_encode_utf8, decode_utf8_split, encode_utf8, encode_utf8_decode_utf8,
    encode_utf8_valid_utf8, is_char_boundary, valid_utf8_split,
};

use super::handle::SubagentHandle;
use super::{SubagentId, SubagentRegistry};
use crate::agent::tools::ToolError;
use crate::text::{dec_text, join, lemma_join_push, push_decimal, push_part, starts_with};

verus! {

/// Arguments of `agent_spawn`.
pub struct AgentSpawnArgs {
    pub name: String,
    pub prompt: String,
    pub readonly: bool,
    pub no_tools: bool,
}

/// Arguments of `agent_stop`.
pub struct AgentStopArgs {
    pub name: String,
}

/// Arguments of `agent_status`.
pub struct AgentStatusArgs {}

/// The flag that selects the spawned agent's tools.
pub open spec fn preset_flag(no_tools: bool, readonly: bool) -> Seq<char> {
    if no_tools {
        " --no-tools"@
    } else if readonly {
        " --readonly"@
    } else {
        ""@
    }
}

/// The tool preset a spawn command carries, for every request: turning the
/// tools off always shows as `--no-tools`, whether or not read-only is also
/// asked; read-only alone shows as `--readonly`; asking for neither adds no
/// flag. The three presets are told apart by their flags.
pub proof fn law_preset_flag_follows_the_request(no_tools: bool, readonly: bool)
    ensures
        no_tools ==> preset_flag(no_tools, readonly) == " --no-tools"@,
        !no_tools && readonly ==> preset_flag(no_tools, readonly) == " --readonly"@,
        !no_tools && !readonly ==> preset_flag(no_tools, readonly).len() == 0,
        preset_flag(true, readonly) != preset_flag(false, true),
        preset_flag(true, readonly) != preset_flag(false, false),
        preset_flag(false, true) != preset_flag(false, false),
{
    reveal_strlit(" --no-tools");
    reveal_strlit(" --readonly");
    reveal_strlit("");
    assert(" --no-tools"@[3] != " --readonly"@[3]);
    assert(""@.len() == 0);
    assert(" --no-tools"@.len() != ""@.len());
    assert(" --readonly"@.len() != ""@.len());
}

/// The refusal for a subagent name that is taken.
pub open spec fn name_taken_text(name: Seq<char>) -> Seq<char> {
    "subagent '"@ + name + "' already exists. Choose a different name."@
}

/// The flag that selects the spawned agent's tools.
pub fn flag_str(no_tools: bool, readonly: bool) -> (r: &'static str)
    ensures
        r@ == preset_flag(no_tools, readonly),
{
    if no_tools {
        " --no-tools"
    } else if readonly {
        " --readonly"
    } else {
        ""
    }
}

/// The refusal for a subagent name that is taken.
pub fn name_taken(name: &str) -> (e: ToolError)
    ensures
        e.text() == name_taken_text(name@),
{
    let mut s = String::from_str("subagent '");
    s.append(name);
    s.append("' already exists. Choose a different name.");
    ToolError::Msg(s)
}

/// Lead-only tool: check that a subagent name is free and answer with the
/// slash command that spawns it. Spawning itself needs the UI loop's full
/// builder context, so the lead issues that command.
pub fn agent_spawn(agents: &SubagentRegistry, args: AgentSpawnArgs) -> (r: Result<String, ToolError>)
    requires
        agents.wf(),
    ensures
        agents.spec_names().dom().contains(args.name@) ==> (r matches Err(e) && e.text()
            == name_taken_text(args.name@)),
        !agents.spec_names().dom().contains(args.name@) ==> (r matches Ok(s) && s@
            == "To spawn subagent '"@ + args.name@ + "': use `/agent spawn "@ + args.name@
            + preset_flag(args.no_tools, args.readonly) + " "@ + args.prompt@ + "`"@),
{
    if agents.id_by_name(args.name.as_str()).is_some() {
        return Err(name_taken(args.name.as_str()));
    }
    let flag = flag_str(args.no_tools, args.readonly);
    let mut s = String::from_str("To spawn subagent '");
    s.append(args.name.as_str());
    s.append("': use `/agent spawn ");
    s.append(args.name.as_str());
    s.append(flag);
    s.append(" ");
    s.append(args.prompt.as_str());
    s.append("`");
    Ok(s)
}

/// Lead-only tool: stop a named subagent. The name stays taken, so stopping
/// it again reports it stopped again.
pub fn agent_stop(agents: &mut SubagentRegistry, args: AgentStopArgs) -> (r: Result<String, ToolError>)
    requires
        old(agents).wf(),
    ensures
        final(agents).wf(),
        final(agents).spec_next_id() == old(agents).spec_next_id(),
        !old(agents).spec_names().dom().contains(args.name@) ==> {
            &&& r matches Err(e) && e.text() == "subagent '"@ + args.name@ + "' not found"@
            &&& final(agents).spec_agents() == old(agents).spec_agents()
            &&& final(agents).spec_names() == old(agents).spec_names()
        },
        old(agents).spec_names().dom().contains(args.name@) ==> {
            let id = old(agents).spec_names()[args.name@];
            &&& r matches Ok(s) && s@ == "stopped subagent '"@ + args.name@ + "'"@
            &&& final(agents).spec_agents() == old(agents).spec_agents().remove(id.0)
            &&& final(agents).spec_names() == old(agents).spec_names()
        },
{
    let id = match agents.id_by_name(args.name.as_str()) {
        Some(id) => id,
        None => {
            let mut s = String::from_str("subagent '");
            s.append(args.name.as_str());
            s.append("' not found");
            return Err(ToolError::Msg(s));
        },
    };
    match agents.stop(id) {
        Ok(()) => {
            let mut s = String::from_str("stopped subagent '");
            s.append(args.name.as_str());
            s.append("'");
            Ok(s)
        },
        Err(e) => Err(ToolError::Msg(e.message())),
    }
}

/// How many bytes of a final response the status shows.
pub open spec fn shown_bytes(r: Seq<char>) -> int {
    let n = encode_utf8(r).len() as usize;
    if n < 60 {
        n as int
    } else {
        60
    }
}

/// The shown part of a final response: its first 60 bytes (all of it when
/// shorter).
pub open spec fn response_excerpt(r: Seq<char>) -> Seq<char> {
    decode_utf8(encode_utf8(r).take(shown_bytes(r)))
}

/// The status shows a final response whole when it has at most 60 bytes;
/// otherwise (when byte 60 starts a character) it shows the response's
/// first 60 bytes, which begin the response.
pub proof fn law_excerpt_is_the_start_of_the_response(r: Seq<char>)
    ensures
        encode_utf8(r).len() <= 60 ==> response_excerpt(r) == r,
        is_char_boundary(encode_utf8(r), shown_bytes(r)) ==> {
            &&& starts_with(r, response_excerpt(r))
            &&& encode_utf8(response_excerpt(r)) == encode_utf8(r).take(shown_bytes(r))
            &&& encode_utf8(response_excerpt(r)).len() <= 60
        },
{
    let b = encode_utf8(r);
    let k = shown_bytes(r);
    encode_utf8_decode_utf8(r);
    encode_utf8_valid_utf8(r);
    if b.len() <= 60 {
        assert(b.take(k) =~= b);
    }
    if is_char_boundary(b, k) {
        valid_utf8_split(b, k);
        decode_utf8_split(b, k);
        assert(b.take(k) =~= b.subrange(0, k));
        decode_utf8_encode_utf8(b.subrange(0, k));
        let e = response_excerpt(r);
        assert(r == e + decode_utf8(b.subrange(k, b.len() as int)));
        assert(r.subrange(0, e.len() as int) =~= e);
    }
}

/// The excerpt can be cut at a character boundary.
pub open spec fn excerpt_cuttable(final_response: Option<String>) -> bool {
    final_response matches Some(r) ==> is_char_boundary(encode_utf8(r@), shown_bytes(r@))
}

/// The status line of one subagent.
pub open spec fn agent_line(h: SubagentHandle) -> Seq<char> {
    "  ["@ + dec_text(h.id.0 as nat) + "] "@ + h.name@ + " — "@ + h.state.status.text() + match h.state.final_response {
        Some(r) => "  last: "@ + response_excerpt(r@),
        None => Seq::empty(),
    }
}

/// The answer of `agent_status` for subagents registered as `hs`.
pub open spec fn agent_status_text(hs: Seq<SubagentHandle>) -> Seq<char> {
    if hs.len() == 0 {
        "no subagents"@
    } else {
        dec_text(hs.len()) + " subagent(s):\n"@ + join(Seq::new(hs.len(), |i: int| agent_line(hs[i])), "\n"@)
    }
}

/// Lead-only tool: list all subagents with their id, name, status and the
/// start of their last response.
pub fn agent_status(agents: &SubagentRegistry, args: AgentStatusArgs) -> (r: Result<String, ToolError>)
    requires
        agents.wf(),
        forall|i: int|
            0 <= i < agents.spec_handles().len() ==> excerpt_cuttable(
                #[trigger] agents.spec_handles()[i].state.final_response,
            ),
    ensures
        r matches Ok(s) && s@ == agent_status_text(agents.spec_handles()),
{
    let list = agents.list();
    let ghost hs = agents.spec_handles();
    if list.len() == 0 {
        return Ok(String::from_str("no subagents"));
    }
    let ghost lines = Seq::new(hs.len(), |i: int| agent_line(hs[i]));
    let mut joined = String::new();
    let mut i: usize = 0;
    while i < list.len()
        invariant
            hs == agents.spec_handles(),
            list@.len() == hs.len(),
            forall|j: int| #![trigger list@[j]] 0 <= j < list@.len() ==> {
                &&& list@[j].id == hs[j].id
                &&& list@[j].name@ == hs[j].name@
                &&& list@[j].status == hs[j].state.status
                &&& list@[j].final_response == hs[j].state.final_response
            },
            forall|j: int| 0 <= j < hs.len() ==> excerpt_cuttable(#[trigger] hs[j].state.final_response),
            lines == Seq::new(hs.len(), |i: int| agent_line(hs[i])),
            i <= hs.len(),
            joined@ == join(lines.take(i as int), "\n"@),
        decreases hs.len() - i,
    {
        let snap = &list[i];
        let mut line = String::from_str("  [");
        push_decimal(&mut line, snap.id.0 as u64);
        line.append("] ");
        line.append(snap.name.as_str());
        line.append(" — ");
        let st = snap.status.to_string();
        line.append(st.as_str());
        let ghost h = hs[i as int];
        proof {
            assert(list@[i as int].id == h.id);
            assert(line@ =~= "  ["@ + dec_text(h.id.0 as nat) + "] "@ + h.name@ + " — "@ + h.state.status.text());
        }
        match &snap.final_response {
            Some(resp) => {
                let text = resp.as_str();
                let n = text.len();
                let m = if n < 60 { n } else { 60 };
                proof {
                    assert(text.spec_bytes() == encode_utf8(resp@));
                    assert(list@[i as int].final_response == hs[i as int].state.final_response);
                }
                let (head, _) = text.split_at(m);
                proof {
                    encode_utf8_decode_utf8(head@);
                    assert(head.spec_bytes() =~= encode_utf8(resp@).take(shown_bytes(resp@)));
                }
                proof {
                    assert(head@ == response_excerpt(resp@));
                }
                let ghost before_tail = line@;
                line.append("  last: ");
                line.append(head);
                proof {
                    assert(line@ =~= before_tail + ("  last: "@ + response_excerpt(resp@)));
                    assert(h.state.final_response == Some(*resp));
                    assert(line@ =~= agent_line(h));
                }
            },
            None => {
                proof {
                    assert(h.state.final_response is None);
                    assert(line@ =~= agent_line(h));
                }
            },
        }
        proof {
            assert(line@ =~= agent_line(hs[i as int]));
            assert(lines.take(i + 1) =~= lines.take(i as int).push(lines[i as int]));
            lemma_join_push(lines.take(i as int), "\n"@, lines[i as int]);
        }
        push_part(&mut joined, i, "\n", line.as_str());
        i += 1;
    }
    assert(lines.take(hs.len() as int) =~= lines);
    let mut s = String::new();
    push_decimal(&mut s, list.len() as u64);
    s.append(" subagent(s):\n");
    s.append(joined.as_str());
    Ok(s)
}

} // verus!
