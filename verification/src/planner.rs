//! The planner: one completion request is built out of the instruction,
//! the serialized memory history and page snapshots, and a fixed one-shot
//! example; the reply is split strictly into a checklist and a fenced job
//! list, and the job list is parsed by the crate's own reader. The
//! completion round trip itself is made by the caller.

use vstd::prelude::*;

use crate::codec::{jobs_of, ser_str};
use crate::jobs::BrowserJob;
use crate::strutil::{dec_spec, emit_usize, find_from, trim_spec};
use crate::types::{BrowserError, InteractiveElement, TextElement};

verus! {

/// A parsed plan: the checklist text and the jobs to run.
#[derive(Debug)]
pub struct AgentPlan {
    pub markdown_todo: String,
    pub jobs: Vec<BrowserJob>,
}

/// The strict two-part split of a planner reply: everything before the
/// first fenced job block is the checklist; the block's content runs to
/// the next closing fence, or to the end if none follows.
pub open spec fn split_plan_spec(s: Seq<char>) -> Option<(Seq<char>, Seq<char>)> {
    match find_from(s, "```json"@, 0) {
        None => None,
        Some(i) => {
            let rest = s.subrange(i + "```json"@.len(), s.len() as int);
            let block = match find_from(rest, "```\n"@, 0) {
                Some(j) => rest.subrange(0, j),
                None => rest,
            };
            Some((trim_spec(s.subrange(0, i)), trim_spec(block)))
        },
    }
}

/// Splits a planner reply into checklist text and job-block text. A reply
/// with no fenced job block is a MissingJobBlockError; nothing is retried
/// here.
pub fn split_plan_response(response: &str) -> (r: Result<(String, String), BrowserError>)
    ensures
        match split_plan_spec(response@) {
            Some((m, b)) => r matches Ok(p) && p.0@ == m && p.1@ == b,
            None => r == Err::<(String, String), BrowserError>(BrowserError::MissingJobBlockError),
        },
{
    proof {
        reveal_strlit("```json");
        assert("```json"@.len() == 7);
    }
    let chars = crate::strutil::str_to_chars(response);
    let i = match crate::strutil::find_sub(&chars, "```json") {
        Some(i) => i,
        None => {
            return Err(BrowserError::MissingJobBlockError);
        },
    };
    let markdown_chars = crate::strutil::trim_chars(&crate::strutil::subvec(&chars, 0, i));
    let len = chars.len();
    let rest = crate::strutil::subvec(&chars, i + 7, len);
    let block = match crate::strutil::find_sub(&rest, "```\n") {
        Some(j) => crate::strutil::subvec(&rest, 0, j),
        None => rest,
    };
    let block_chars = crate::strutil::trim_chars(&block);
    Ok(
        (
            crate::strutil::chars_to_string(&markdown_chars),
            crate::strutil::chars_to_string(&block_chars),
        ),
    )
}

/// Parses the fenced block's content as a job list. A block outside the
/// job grammar is a JobParseError carrying the block text.
pub fn parse_plan_jobs(block: &str) -> (r: Result<Vec<BrowserJob>, BrowserError>)
    ensures
        match jobs_of(block@) {
            Some(js) => r matches Ok(v) && v@.map_values(|j: BrowserJob| j@) == js,
            None => r matches Err(e) && e matches BrowserError::JobParseError(m) && m@ == block@,
        },
{
    let chars = crate::strutil::str_to_chars(block);
    match crate::codec::parse_jobs(&chars) {
        Some(v) => Ok(v),
        None => Err(BrowserError::JobParseError(String::from_str(block))),
    }
}

/// Splits a planner reply and parses its job block into a plan.
pub fn plan_from_response(response: &str) -> (r: Result<AgentPlan, BrowserError>)
    ensures
        match split_plan_spec(response@) {
            None => r == Err::<AgentPlan, BrowserError>(BrowserError::MissingJobBlockError),
            Some((m, b)) => match jobs_of(b) {
                Some(js) => r matches Ok(p) && p.markdown_todo@ == m && p.jobs@.map_values(
                    |j: BrowserJob| j@,
                ) == js,
                None => r matches Err(e) && e matches BrowserError::JobParseError(t) && t@ == b,
            },
        },
{
    let (markdown_todo, block) = match split_plan_response(response) {
        Ok(p) => p,
        Err(e) => {
            return Err(e);
        },
    };
    match parse_plan_jobs(block.as_str()) {
        Ok(jobs) => Ok(AgentPlan { markdown_todo, jobs }),
        Err(e) => Err(e),
    }
}

/// The written form of one flat interactive-element record.
pub open spec fn ser_element(e: InteractiveElement) -> Seq<char> {
    seq!['{'] + ser_str("selector"@) + seq![':'] + ser_str(e.selector@) + seq![','] + ser_str(
        "tag"@,
    ) + seq![':'] + ser_str(e.tag@) + seq![','] + ser_str("text"@) + seq![':'] + ser_str(e.text@)
        + seq![','] + ser_str("type"@) + seq![':'] + ser_str(e.type_attr@) + seq![','] + ser_str(
        "placeholder"@,
    ) + seq![':'] + ser_str(e.placeholder@) + seq!['}']
}

/// The written form of the first `i` records of an element list.
pub open spec fn ser_elements_to(es: Seq<InteractiveElement>, i: int) -> Seq<char>
    decreases i,
{
    if i <= 0 {
        Seq::empty()
    } else if i == 1 {
        ser_element(es[0])
    } else {
        ser_elements_to(es, i - 1) + seq![','] + ser_element(es[i - 1])
    }
}

/// Serializes the interactive-element snapshot for a prompt.
#[verifier::rlimit(100)]
#[verifier::spinoff_prover]
pub fn elements_json(elements: &Vec<InteractiveElement>) -> (r: String)
    ensures
        r@ == seq!['['] + ser_elements_to(elements@, elements@.len() as int) + seq![']'],
{
    let mut out: Vec<char> = Vec::new();
    out.push('[');
    let n: usize = elements.len();
    let mut i: usize = 0;
    while i < n
        invariant
            i <= n,
            n == elements@.len(),
            out@ == seq!['['] + ser_elements_to(elements@, i as int),
        decreases n - i,
    {
        if i > 0 {
            out.push(',');
        }
        out.push('{');
        crate::codec::emit_str(&mut out, "selector");
        out.push(':');
        crate::codec::emit_str(&mut out, elements[i].selector.as_str());
        out.push(',');
        crate::codec::emit_str(&mut out, "tag");
        out.push(':');
        crate::codec::emit_str(&mut out, elements[i].tag.as_str());
        out.push(',');
        crate::codec::emit_str(&mut out, "text");
        out.push(':');
        crate::codec::emit_str(&mut out, elements[i].text.as_str());
        out.push(',');
        crate::codec::emit_str(&mut out, "type");
        out.push(':');
        crate::codec::emit_str(&mut out, elements[i].type_attr.as_str());
        out.push(',');
        crate::codec::emit_str(&mut out, "placeholder");
        out.push(':');
        crate::codec::emit_str(&mut out, elements[i].placeholder.as_str());
        out.push('}');
        proof {
            assert(out@ =~= seq!['['] + ser_elements_to(elements@, i + 1));
        }
        i = i + 1;
    }
    out.push(']');
    crate::strutil::chars_to_string(&out)
}

/// The written form of one text-block record.
pub open spec fn ser_text_element(e: TextElement) -> Seq<char> {
    seq!['{'] + ser_str("selector"@) + seq![':'] + ser_str(e.selector@) + seq![','] + ser_str(
        "text"@,
    ) + seq![':'] + ser_str(e.text@) + seq![','] + ser_str("index"@) + seq![':'] + dec_spec(
        e.index as nat,
    ) + seq!['}']
}

/// The written form of the first `i` records of a text-block list.
pub open spec fn ser_texts_to(es: Seq<TextElement>, i: int) -> Seq<char>
    decreases i,
{
    if i <= 0 {
        Seq::empty()
    } else if i == 1 {
        ser_text_element(es[0])
    } else {
        ser_texts_to(es, i - 1) + seq![','] + ser_text_element(es[i - 1])
    }
}

/// Serializes the text snapshot for a prompt.
#[verifier::rlimit(100)]
#[verifier::spinoff_prover]
pub fn texts_json(texts: &Vec<TextElement>) -> (r: String)
    ensures
        r@ == seq!['['] + ser_texts_to(texts@, texts@.len() as int) + seq![']'],
{
    let mut out: Vec<char> = Vec::new();
    out.push('[');
    let n: usize = texts.len();
    let mut i: usize = 0;
    while i < n
        invariant
            i <= n,
            n == texts@.len(),
            out@ == seq!['['] + ser_texts_to(texts@, i as int),
        decreases n - i,
    {
        if i > 0 {
            out.push(',');
        }
        out.push('{');
        crate::codec::emit_str(&mut out, "selector");
        out.push(':');
        crate::codec::emit_str(&mut out, texts[i].selector.as_str());
        out.push(',');
        crate::codec::emit_str(&mut out, "text");
        out.push(':');
        crate::codec::emit_str(&mut out, texts[i].text.as_str());
        out.push(',');
        crate::codec::emit_str(&mut out, "index");
        out.push(':');
        emit_usize(&mut out, texts[i].index);
        out.push('}');
        proof {
            assert(out@ =~= seq!['['] + ser_texts_to(texts@, i + 1));
        }
        i = i + 1;
    }
    out.push(']');
    crate::strutil::chars_to_string(&out)
}

} // verus!

verus! {

/// The one completion request of a planning round: the instruction, the
/// serialized history and snapshots, and a fixed one-shot example in the
/// exact serialization the reader expects.
pub open spec fn plan_prompt_spec(
    user_prompt: Seq<char>,
    current_url: Seq<char>,
    history_json: Seq<char>,
    interactive_json: Seq<char>,
    text_json: Seq<char>,
) -> Seq<char> {
    "Step 1: You are a senior web automation engineer. Analyze this user task:\n> "@ + user_prompt
        + "\n\nStep 2: Reason step-by-step using the context below and determine how to solve it.\n\nStep 3: You are now a markdown expert. Write a checklist of the required browser actions in markdown.\n\nStep 4: You are now a JSON expert. Output a list of BrowserJobs that complete the task using this format:\n```json\n[{ \"Navigate\": \"url\" }, { \"Type\": { \"selector\": \"selector\", \"text\": \"value\" } }, { \"Click\": \"selector\" }]\n```\n\nContext:\nURL: "@
        + current_url + "\nMemory: "@ + history_json + "\nInteractive Elements: "@
        + interactive_json + "\nText Elements: "@ + text_json
        + "\n\nExample:\nTask: Search for 'Rust async book' and open the first result\nChecklist:\n- [x] Navigate to https://duckduckgo.com\n- [x] Type 'Rust async book' in the search input\n- [x] Click the first result link\n\nJobs:\n```json\n[\n  {\"Navigate\": \"https://duckduckgo.com\"},\n  {\"Type\": {\"selector\": \"input[name=q]\", \"text\": \"Rust async book\"}},\n  {\"Click\": \".result__a\"}\n]\n```"@
}

/// Builds the planning prompt from the instruction, the current URL, and
/// the serialized history and snapshots.
pub fn build_plan_prompt(
    user_prompt: &str,
    current_url: &str,
    history_json: &str,
    interactive_json: &str,
    text_json: &str,
) -> (r: String)
    ensures
        r@ == plan_prompt_spec(
            user_prompt@,
            current_url@,
            history_json@,
            interactive_json@,
            text_json@,
        ),
{
    let mut out: Vec<char> = Vec::new();
    crate::strutil::push_str_chars(
        &mut out,
        "Step 1: You are a senior web automation engineer. Analyze this user task:\n> ",
    );
    crate::strutil::push_str_chars(&mut out, user_prompt);
    crate::strutil::push_str_chars(
        &mut out,
        "\n\nStep 2: Reason step-by-step using the context below and determine how to solve it.\n\nStep 3: You are now a markdown expert. Write a checklist of the required browser actions in markdown.\n\nStep 4: You are now a JSON expert. Output a list of BrowserJobs that complete the task using this format:\n```json\n[{ \"Navigate\": \"url\" }, { \"Type\": { \"selector\": \"selector\", \"text\": \"value\" } }, { \"Click\": \"selector\" }]\n```\n\nContext:\nURL: ",
    );
    crate::strutil::push_str_chars(&mut out, current_url);
    crate::strutil::push_str_chars(&mut out, "\nMemory: ");
    crate::strutil::push_str_chars(&mut out, history_json);
    crate::strutil::push_str_chars(&mut out, "\nInteractive Elements: ");
    crate::strutil::push_str_chars(&mut out, interactive_json);
    crate::strutil::push_str_chars(&mut out, "\nText Elements: ");
    crate::strutil::push_str_chars(&mut out, text_json);
    crate::strutil::push_str_chars(
        &mut out,
        "\n\nExample:\nTask: Search for 'Rust async book' and open the first result\nChecklist:\n- [x] Navigate to https://duckduckgo.com\n- [x] Type 'Rust async book' in the search input\n- [x] Click the first result link\n\nJobs:\n```json\n[\n  {\"Navigate\": \"https://duckduckgo.com\"},\n  {\"Type\": {\"selector\": \"input[name=q]\", \"text\": \"Rust async book\"}},\n  {\"Click\": \".result__a\"}\n]\n```",
    );
    crate::strutil::chars_to_string(&out)
}

/// The prompt asking the completion service to judge whether the executed
/// actions followed the instruction.
pub open spec fn judge_prompt_spec(instruction: Seq<char>, executed_summary: Seq<char>) -> Seq<
    char,
> {
    "Instruction: "@ + instruction + "\nExecuted: "@ + executed_summary
        + "\n\nDid these actions follow the instruction? Explain briefly."@
}

/// Builds the judging prompt.
pub fn build_judge_prompt(instruction: &str, executed_summary: &str) -> (r: String)
    ensures
        r@ == judge_prompt_spec(instruction@, executed_summary@),
{
    let mut out: Vec<char> = Vec::new();
    crate::strutil::push_str_chars(&mut out, "Instruction: ");
    crate::strutil::push_str_chars(&mut out, instruction);
    crate::strutil::push_str_chars(&mut out, "\nExecuted: ");
    crate::strutil::push_str_chars(&mut out, executed_summary);
    crate::strutil::push_str_chars(
        &mut out,
        "\n\nDid these actions follow the instruction? Explain briefly.",
    );
    crate::strutil::chars_to_string(&out)
}

} // verus!
