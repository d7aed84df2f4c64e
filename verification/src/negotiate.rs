//! The label negotiator: the bounded retry protocol that forces a
//! completion-service reply into a label of the current candidate set. The
//! menu, the prompts, the strict membership check and the whole bounded run
//! are verified; the service round trips are made by the caller between
//! steps.

use vstd::prelude::*;

use crate::dom::{ElemView, InteractiveElement};
use crate::strutil::trim_spec;
use crate::types::BrowserError;

verus! {

/// The labels of the addressable candidates, in order: one per candidate
/// that carries a label.
pub open spec fn labels_spec(cs: Seq<InteractiveElement>) -> Seq<Seq<char>> {
    cs.map_values(|e: InteractiveElement| e@).filter(|m: ElemView| m.label is Some).map_values(
        |m: ElemView| m.label->Some_0,
    )
}

/// A reply hits when its trimmed text is one of the labels.
pub open spec fn is_hit(labels: Seq<Seq<char>>, response: Seq<char>) -> bool {
    labels.contains(trim_spec(response))
}

/// Collects the labels of the candidates, in order.
pub fn candidate_labels(candidates: &Vec<InteractiveElement>) -> (r: Vec<String>)
    ensures
        r@.map_values(|s: String| s@) == labels_spec(candidates@),
{
    let n: usize = candidates.len();
    let mut r: Vec<String> = Vec::new();
    let mut i: usize = 0;
    while i < n
        invariant
            i <= n,
            n == candidates@.len(),
            r@.map_values(|s: String| s@) == labels_spec(candidates@.subrange(0, i as int)),
        decreases n - i,
    {
        let ghost r0 = r@;
        match &candidates[i].label {
            Some(l) => {
                let dup = l.clone();
                r.push(dup);
                proof {
                    reveal(Seq::filter);
                    let pre = candidates@.subrange(0, i as int).map_values(
                        |e: InteractiveElement| e@,
                    );
                    let cur = candidates@.subrange(0, i + 1).map_values(
                        |e: InteractiveElement| e@,
                    );
                    assert(cur.drop_last() =~= pre);
                    assert(cur.last() == candidates@[i as int]@);
                    assert(cur.last().label is Some);
                    let fpre = pre.filter(|m: ElemView| m.label is Some);
                    let fcur = cur.filter(|m: ElemView| m.label is Some);
                    assert(fcur =~= fpre.push(cur.last()));
                    let lhs = r@.map_values(|s: String| s@);
                    let prevm = r0.map_values(|s: String| s@);
                    let rhs = fcur.map_values(|m: ElemView| m.label->Some_0);
                    let rhsp = fpre.map_values(|m: ElemView| m.label->Some_0);
                    assert(prevm == rhsp);
                    assert(prevm.len() == r0.len());
                    assert(rhsp.len() == fpre.len());
                    assert(lhs.len() == r@.len());
                    assert(rhs.len() == fcur.len());
                    assert(lhs.len() == rhs.len());
                    assert forall|k: int| 0 <= k < lhs.len() implies lhs[k] == rhs[k] by {
                        assert(lhs[k] == r@[k]@);
                        assert(rhs[k] == fcur[k].label->Some_0);
                        if k < lhs.len() - 1 {
                            assert(r@[k] == r0[k]);
                            assert(prevm[k] == r0[k]@);
                            assert(fcur[k] == fpre[k]);
                            assert(rhsp[k] == fpre[k].label->Some_0);
                        } else {
                            assert(fcur[k] == cur.last());
                        }
                    }
                    assert(lhs =~= rhs);
                    assert(r@.map_values(|s: String| s@) == labels_spec(
                        candidates@.subrange(0, i + 1),
                    ));
                }
            },
            None => {
                proof {
                    reveal(Seq::filter);
                    let pre = candidates@.subrange(0, i as int).map_values(
                        |e: InteractiveElement| e@,
                    );
                    let cur = candidates@.subrange(0, i + 1).map_values(
                        |e: InteractiveElement| e@,
                    );
                    assert(cur.drop_last() =~= pre);
                    assert(cur.last() == candidates@[i as int]@);
                    assert(cur.last().label is None);
                    assert(cur.filter(|m: ElemView| m.label is Some) =~= pre.filter(
                        |m: ElemView| m.label is Some,
                    ));
                    assert(r@.map_values(|s: String| s@) =~= labels_spec(
                        candidates@.subrange(0, i + 1),
                    ));
                }
            },
        }
        i = i + 1;
    }
    proof {
        assert(candidates@.subrange(0, n as int) =~= candidates@);
    }
    r
}

/// One menu line per labeled candidate:
/// `[label] <tag> - text: "…", selector: …`.
pub open spec fn menu_line_spec(m: ElemView) -> Seq<char> {
    "["@ + m.label->Some_0 + "] <"@ + m.tag + "> - text: \""@ + (match m.text {
        Some(t) => t,
        None => Seq::empty(),
    }) + "\", selector: "@ + m.selector + "\n"@
}

/// The menu over the first `i` candidates.
pub open spec fn menu_to(cs: Seq<InteractiveElement>, i: int) -> Seq<char>
    decreases i,
{
    if i <= 0 {
        Seq::empty()
    } else {
        menu_to(cs, i - 1) + (if cs[i - 1]@.label is Some {
            menu_line_spec(cs[i - 1]@)
        } else {
            Seq::empty()
        })
    }
}

/// Builds the textual candidate menu, one line per labeled candidate.
pub fn build_menu(candidates: &Vec<InteractiveElement>) -> (r: String)
    ensures
        r@ == menu_to(candidates@, candidates@.len() as int),
{
    let n: usize = candidates.len();
    let mut out: Vec<char> = Vec::new();
    let mut i: usize = 0;
    while i < n
        invariant
            i <= n,
            n == candidates@.len(),
            out@ == menu_to(candidates@, i as int),
        decreases n - i,
    {
        match &candidates[i].label {
            Some(l) => {
                crate::strutil::push_str_chars(&mut out, "[");
                crate::strutil::push_str_chars(&mut out, l.as_str());
                crate::strutil::push_str_chars(&mut out, "] <");
                crate::strutil::push_str_chars(&mut out, candidates[i].tag.as_str());
                crate::strutil::push_str_chars(&mut out, "> - text: \"");
                match &candidates[i].text {
                    Some(t) => {
                        crate::strutil::push_str_chars(&mut out, t.as_str());
                    },
                    None => {},
                }
                crate::strutil::push_str_chars(&mut out, "\", selector: ");
                crate::strutil::push_str_chars(&mut out, candidates[i].selector.as_str());
                crate::strutil::push_str_chars(&mut out, "\n");
                proof {
                    assert(out@ =~= menu_to(candidates@, i + 1));
                }
            },
            None => {
                proof {
                    assert(out@ =~= menu_to(candidates@, i + 1));
                }
            },
        }
        i = i + 1;
    }
    crate::strutil::chars_to_string(&out)
}

/// The first prompt of a negotiation: full menu, instruction, and the
/// demand for exactly one label token.
pub open spec fn initial_prompt_spec(instruction: Seq<char>, menu: Seq<char>) -> Seq<char> {
    "You must pick one element for this instruction.\nElements:\n"@ + menu
        + "Instruction: "@ + instruction
        + "\nAnswer with exactly one label token from the list, and nothing else."@
}

/// Builds the first prompt from the instruction and the candidate menu.
pub fn initial_prompt(instruction: &str, menu: &str) -> (r: String)
    ensures
        r@ == initial_prompt_spec(instruction@, menu@),
{
    let mut out: Vec<char> = Vec::new();
    crate::strutil::push_str_chars(
        &mut out,
        "You must pick one element for this instruction.\nElements:\n",
    );
    crate::strutil::push_str_chars(&mut out, menu);
    crate::strutil::push_str_chars(&mut out, "Instruction: ");
    crate::strutil::push_str_chars(&mut out, instruction);
    crate::strutil::push_str_chars(
        &mut out,
        "\nAnswer with exactly one label token from the list, and nothing else.",
    );
    crate::strutil::chars_to_string(&out)
}

/// The comma-joined first `i` labels.
pub open spec fn joined_to(ls: Seq<Seq<char>>, i: int) -> Seq<char>
    decreases i,
{
    if i <= 0 {
        Seq::empty()
    } else if i == 1 {
        ls[0]
    } else {
        joined_to(ls, i - 1) + ", "@ + ls[i - 1]
    }
}

/// The narrowed prompt of every later attempt: no menu, just the valid
/// label set and the instruction.
pub open spec fn retry_prompt_spec(instruction: Seq<char>, labels: Seq<Seq<char>>) -> Seq<char> {
    "Your previous answer was invalid. Valid labels are: "@ + joined_to(
        labels,
        labels.len() as int,
    ) + ". Answer with exactly one label.\nInstruction: "@ + instruction
}

/// Builds the narrowed retry prompt.
pub fn retry_prompt(instruction: &str, labels: &Vec<String>) -> (r: String)
    ensures
        r@ == retry_prompt_spec(instruction@, labels@.map_values(|s: String| s@)),
{
    let mut out: Vec<char> = Vec::new();
    crate::strutil::push_str_chars(&mut out, "Your previous answer was invalid. Valid labels are: ");
    let n: usize = labels.len();
    let mut i: usize = 0;
    while i < n
        invariant
            i <= n,
            n == labels@.len(),
            out@ == "Your previous answer was invalid. Valid labels are: "@ + joined_to(
                labels@.map_values(|s: String| s@),
                i as int,
            ),
        decreases n - i,
    {
        if i > 0 {
            crate::strutil::push_str_chars(&mut out, ", ");
        }
        crate::strutil::push_str_chars(&mut out, labels[i].as_str());
        proof {
            assert(out@ =~= "Your previous answer was invalid. Valid labels are: "@ + joined_to(
                labels@.map_values(|s: String| s@),
                i + 1,
            ));
        }
        i = i + 1;
    }
    crate::strutil::push_str_chars(&mut out, ". Answer with exactly one label.\nInstruction: ");
    crate::strutil::push_str_chars(&mut out, instruction);
    proof {
        assert(labels@.map_values(|s: String| s@).len() == labels@.len());
    }
    crate::strutil::chars_to_string(&out)
}

/// Trims a reply and checks exact membership in the label set: the
/// resolved label on a hit, nothing on a miss. No fuzzy matching.
pub fn check_response(labels: &Vec<String>, response: &str) -> (r: Option<String>)
    ensures
        match r {
            Some(l) => l@ == trim_spec(response@) && labels@.map_values(|s: String| s@).contains(
                l@,
            ),
            None => !is_hit(labels@.map_values(|s: String| s@), response@),
        },
{
    let chars = crate::strutil::str_to_chars(response);
    let trimmed = crate::strutil::trim_chars(&chars);
    let n: usize = labels.len();
    let mut i: usize = 0;
    while i < n
        invariant
            i <= n,
            n == labels@.len(),
            trimmed@ == trim_spec(response@),
            forall|j: int| 0 <= j < i ==> (#[trigger] labels@[j])@ != trimmed@,
        decreases n - i,
    {
        if crate::strutil::chars_eq_str(&trimmed, labels[i].as_str()) {
            let l = crate::strutil::chars_to_string(&trimmed);
            proof {
                assert(labels@.map_values(|s: String| s@)[i as int] == trimmed@);
            }
            return Some(l);
        }
        i = i + 1;
    }
    proof {
        let ghost ls = labels@.map_values(|s: String| s@);
        if ls.contains(trim_spec(response@)) {
            let j = choose|j: int| 0 <= j < ls.len() && ls[j] == trim_spec(response@);
            assert(ls[j] == labels@[j]@);
            assert(labels@[j]@ != trimmed@);
        }
    }
    None
}

/// A full negotiation run against a fixed sequence of replies, one per
/// completion call: the verified model of the bounded retry protocol, as
/// the driving loop performs it. The returned count is the number of
/// completion calls made.
///
/// The returned label is always a member of the candidate label set; an
/// empty candidate set fails before any call; an exhausted attempt budget
/// fails with the attempt count, never guessing a default.
pub fn resolve_with_responses(
    candidates: &Vec<InteractiveElement>,
    max_attempts: usize,
    responses: &Vec<String>,
) -> (r: (Result<String, BrowserError>, usize))
    requires
        responses@.len() >= max_attempts,
    ensures
        ({
            let labels = labels_spec(candidates@);
            &&& r.1 <= max_attempts
            &&& (labels.len() == 0 ==> r.0 == Err::<String, BrowserError>(
                BrowserError::LabelResolutionError(0),
            ) && r.1 == 0)
            &&& (labels.len() > 0 ==> match r.0 {
                Ok(l) => 1 <= r.1 && labels.contains(l@) && l@ == trim_spec(
                    responses@[r.1 - 1]@,
                ) && (forall|j: int|
                    0 <= j < r.1 - 1 ==> !labels.contains(trim_spec(#[trigger] responses@[j]@))),
                Err(e) => e == BrowserError::LabelResolutionError(max_attempts) && r.1
                    == max_attempts && (forall|j: int|
                    0 <= j < max_attempts ==> !labels.contains(
                        trim_spec(#[trigger] responses@[j]@),
                    )),
            })
        }),
{
    let labels = candidate_labels(candidates);
    if labels.len() == 0 {
        return (Err(BrowserError::LabelResolutionError(0)), 0);
    }
    let mut attempt: usize = 0;
    while attempt < max_attempts
        invariant
            attempt <= max_attempts,
            responses@.len() >= max_attempts,
            labels@.map_values(|s: String| s@) == labels_spec(candidates@),
            forall|j: int|
                0 <= j < attempt ==> !labels_spec(candidates@).contains(
                    trim_spec(#[trigger] responses@[j]@),
                ),
        decreases max_attempts - attempt,
    {
        match check_response(&labels, responses[attempt].as_str()) {
            Some(l) => {
                return (Ok(l), attempt + 1);
            },
            None => {},
        }
        attempt = attempt + 1;
    }
    (Err(BrowserError::LabelResolutionError(max_attempts)), max_attempts)
}

} // verus!
