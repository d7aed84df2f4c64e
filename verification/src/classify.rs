//! The action classifier: one completion-service round trip turns a
//! free-text instruction into an action category. The prompt construction
//! and the strict response check are verified; the round trip itself is
//! made by the caller.

use vstd::prelude::*;

use crate::dom::{ElementType, InteractiveElement};
use crate::strutil::trim_spec;
use crate::types::BrowserError;

verus! {

/// The classifier prompt for an instruction: it constrains the reply to
/// one lowercase token out of `click` and `type`.
pub open spec fn classify_prompt_spec(instruction: Seq<char>) -> Seq<char> {
    "Classify the following browser instruction into exactly one category.\nAnswer with exactly one lowercase word: click or type. No explanation.\nInstruction: "@
        + instruction + "\nAnswer: "@
}

/// Builds the classifier prompt.
pub fn classify_prompt(instruction: &str) -> (r: String)
    ensures
        r@ == classify_prompt_spec(instruction@),
{
    let mut out: Vec<char> = Vec::new();
    crate::strutil::push_str_chars(
        &mut out,
        "Classify the following browser instruction into exactly one category.\nAnswer with exactly one lowercase word: click or type. No explanation.\nInstruction: ",
    );
    crate::strutil::push_str_chars(&mut out, instruction);
    crate::strutil::push_str_chars(&mut out, "\nAnswer: ");
    crate::strutil::chars_to_string(&out)
}

/// Checks one completion reply: after trimming whitespace it must be
/// exactly `click` or `type`; anything else is an InvalidActionError
/// carrying the raw reply. No retry happens at this layer.
pub fn parse_action_response(response: &str) -> (r: Result<ElementType, BrowserError>)
    ensures
        trim_spec(response@) == "click"@ ==> r == Ok::<ElementType, BrowserError>(
            ElementType::Clickable,
        ),
        trim_spec(response@) == "type"@ ==> r == Ok::<ElementType, BrowserError>(
            ElementType::Typable,
        ),
        trim_spec(response@) != "click"@ && trim_spec(response@) != "type"@ ==> (r matches Err(e)
            && e matches BrowserError::InvalidActionError(m) && m@ == response@),
{
    proof {
        reveal_strlit("click");
        reveal_strlit("type");
        assert("click"@.len() == 5);
        assert("type"@.len() == 4);
        assert("click"@ != "type"@);
    }
    let chars = crate::strutil::str_to_chars(response);
    let trimmed = crate::strutil::trim_chars(&chars);
    if crate::strutil::chars_eq_str(&trimmed, "click") {
        Ok(ElementType::Clickable)
    } else if crate::strutil::chars_eq_str(&trimmed, "type") {
        Ok(ElementType::Typable)
    } else {
        Err(BrowserError::InvalidActionError(String::from_str(response)))
    }
}

/// Keeps exactly the descriptors of the given category, in order.
pub fn filter_by_category(elements: &Vec<InteractiveElement>, category: ElementType) -> (out: Vec<
    InteractiveElement,
>)
    ensures
        out@.map_values(|e: InteractiveElement| e@) == elements@.map_values(
            |e: InteractiveElement| e@,
        ).filter(|m: crate::dom::ElemView| m.element_type == category),
{
    let n: usize = elements.len();
    let mut out: Vec<InteractiveElement> = Vec::new();
    let mut i: usize = 0;
    while i < n
        invariant
            i <= n,
            n == elements@.len(),
            out@.map_values(|e: InteractiveElement| e@) == elements@.subrange(
                0,
                i as int,
            ).map_values(|e: InteractiveElement| e@).filter(
                |m: crate::dom::ElemView| m.element_type == category,
            ),
        decreases n - i,
    {
        let ghost pre = elements@.subrange(0, i as int).map_values(|e: InteractiveElement| e@);
        let ghost cur = elements@.subrange(0, i + 1).map_values(|e: InteractiveElement| e@);
        proof {
            reveal(Seq::filter);
            assert(cur.drop_last() =~= pre);
            assert(cur.last() == elements@[i as int]@);
        }
        if elements[i].element_type == category {
            out.push(elements[i].duplicate());
            proof {
                assert(out@.map_values(|e: InteractiveElement| e@) =~= cur.filter(
                    |m: crate::dom::ElemView| m.element_type == category,
                ));
            }
        } else {
            proof {
                assert(out@.map_values(|e: InteractiveElement| e@) =~= cur.filter(
                    |m: crate::dom::ElemView| m.element_type == category,
                ));
            }
        }
        i = i + 1;
    }
    proof {
        assert(elements@.subrange(0, n as int) =~= elements@);
    }
    out
}

} // verus!
