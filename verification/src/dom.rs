//! Element snapshot logic: the selection predicate for interactive page
//! elements and the stable base-26 labeling assigned in enumeration order.
//! The page-side enumeration runs in the browser and hands back plain
//! records; everything decided about them is verified here.

use vstd::prelude::*;

use crate::strutil::str_eq;

verus! {

/// The category of an interactive element.
#[derive(Debug, Clone, Copy, PartialEq, Eq, Structural)]
pub enum ElementType {
    Clickable,
    Typable,
}

/// A labeled interactive-element descriptor, fresh per snapshot.
#[derive(Debug, Clone)]
pub struct InteractiveElement {
    pub tag: String,
    pub element_type: ElementType,
    pub selector: String,
    pub text: Option<String>,
    pub attributes: Option<Vec<(String, String)>>,
    pub label: Option<String>,
}

/// Mathematical model of a labeled descriptor.
pub struct ElemView {
    pub tag: Seq<char>,
    pub element_type: ElementType,
    pub selector: Seq<char>,
    pub text: Option<Seq<char>>,
    pub attributes: Option<Seq<(Seq<char>, Seq<char>)>>,
    pub label: Option<Seq<char>>,
}

impl View for InteractiveElement {
    type V = ElemView;

    open spec fn view(&self) -> ElemView {
        ElemView {
            tag: self.tag@,
            element_type: self.element_type,
            selector: self.selector@,
            text: self.text.deep_view(),
            attributes: self.attributes.deep_view(),
            label: self.label.deep_view(),
        }
    }
}

impl InteractiveElement {
    /// A structural copy, equal to the original in the model.
    pub fn duplicate(&self) -> (r: Self)
        ensures
            r@ == self@,
    {
        InteractiveElement {
            tag: self.tag.clone(),
            element_type: self.element_type,
            selector: self.selector.clone(),
            text: crate::strutil::clone_opt_string(&self.text),
            attributes: clone_attrs(&self.attributes),
            label: crate::strutil::clone_opt_string(&self.label),
        }
    }
}

/// One candidate element as the page-side enumeration reports it: the tag,
/// the `type` attribute, the rendered-visibility verdict, the click-handler
/// and focus attributes, and the already-built selector, text preview and
/// attribute map.
#[derive(Debug, Clone)]
pub struct RawElement {
    pub tag: String,
    pub type_attr: String,
    pub visible: bool,
    pub has_onclick: bool,
    pub role_button: bool,
    pub has_tabindex: bool,
    pub selector: String,
    pub text: Option<String>,
    pub attributes: Option<Vec<(String, String)>>,
}

/// The selection predicate: visible, and of an interactive tag, a
/// non-hidden input, or carrying a click handler, a button role or an
/// explicit tab-focus attribute.
pub open spec fn is_interactive(e: RawElement) -> bool {
    e.visible && (e.tag@ == "a"@ || e.tag@ == "button"@ || e.tag@ == "textarea"@ || e.tag@
        == "select"@ || (e.tag@ == "input"@ && e.type_attr@ != "hidden"@) || e.has_onclick
        || e.role_button || e.has_tabindex)
}

/// Typable elements are those one can type into; everything else
/// interactive is clickable.
pub open spec fn category_of(e: RawElement) -> ElementType {
    if e.tag@ == "input"@ || e.tag@ == "textarea"@ || e.tag@ == "select"@ {
        ElementType::Typable
    } else {
        ElementType::Clickable
    }
}

/// The hard cap on a descriptor's text preview.
pub open spec fn preview_cap() -> nat {
    1000
}

/// A text preview: text up to the cap verbatim, longer text cut at the cap
/// with a trailing ellipsis marker.
pub open spec fn preview_spec(t: Option<Seq<char>>) -> Option<Seq<char>> {
    match t {
        None => None,
        Some(s) => if s.len() <= preview_cap() {
            Some(s)
        } else {
            Some(s.subrange(0, preview_cap() as int) + "..."@)
        },
    }
}

/// Builds the truncated text preview of a raw text.
fn truncate_preview(t: &Option<String>) -> (r: Option<String>)
    ensures
        r.deep_view() == preview_spec(t.deep_view()),
{
    match t {
        None => None,
        Some(s) => {
            let n: usize = s.unicode_len();
            if n <= 1000 {
                Some(s.clone())
            } else {
                let mut out: Vec<char> = Vec::new();
                let mut i: usize = 0;
                while i < 1000
                    invariant
                        i <= 1000,
                        1000 <= s@.len(),
                        out@ == s@.subrange(0, i as int),
                    decreases 1000 - i,
                {
                    out.push(s.get_char(i));
                    proof {
                        assert(out@ =~= s@.subrange(0, i + 1));
                    }
                    i = i + 1;
                }
                crate::strutil::push_str_chars(&mut out, "...");
                Some(crate::strutil::chars_to_string(&out))
            }
        },
    }
}

/// The letter for one base-26 digit.
pub open spec fn label_char(d: nat) -> char {
    if d == 0 {
        'A'
    } else if d == 1 {
        'B'
    } else if d == 2 {
        'C'
    } else if d == 3 {
        'D'
    } else if d == 4 {
        'E'
    } else if d == 5 {
        'F'
    } else if d == 6 {
        'G'
    } else if d == 7 {
        'H'
    } else if d == 8 {
        'I'
    } else if d == 9 {
        'J'
    } else if d == 10 {
        'K'
    } else if d == 11 {
        'L'
    } else if d == 12 {
        'M'
    } else if d == 13 {
        'N'
    } else if d == 14 {
        'O'
    } else if d == 15 {
        'P'
    } else if d == 16 {
        'Q'
    } else if d == 17 {
        'R'
    } else if d == 18 {
        'S'
    } else if d == 19 {
        'T'
    } else if d == 20 {
        'U'
    } else if d == 21 {
        'V'
    } else if d == 22 {
        'W'
    } else if d == 23 {
        'X'
    } else if d == 24 {
        'Y'
    } else {
        'Z'
    }
}

/// The base-26 letter label of enumeration index `i`: A…Z, then AA…
pub open spec fn label_spec(i: nat) -> Seq<char>
    decreases i,
{
    if i < 26 {
        seq![label_char(i)]
    } else {
        label_spec((i / 26 - 1) as nat) + seq![label_char(i % 26)]
    }
}

/// Labels are never empty.
pub proof fn lemma_label_spec_len(i: nat)
    ensures
        label_spec(i).len() >= 1,
    decreases i,
{
    if i >= 26 {
        lemma_label_spec_len((i / 26 - 1) as nat);
    }
}

/// The letter of a digit below 26 determines the digit.
proof fn lemma_label_char_injective(d1: nat, d2: nat)
    requires
        d1 < 26,
        d2 < 26,
        d1 != d2,
    ensures
        label_char(d1) != label_char(d2),
{
}

/// Law: distinct enumeration indexes receive distinct labels, so the
/// labels of one snapshot are unique.
pub proof fn lemma_label_spec_injective(i: nat, j: nat)
    requires
        i != j,
    ensures
        label_spec(i) != label_spec(j),
    decreases i + j,
{
    if i < 26 && j < 26 {
        lemma_label_char_injective(i, j);
        assert(label_spec(i)[0] != label_spec(j)[0]);
    } else if i < 26 && j >= 26 {
        lemma_label_spec_len((j / 26 - 1) as nat);
        assert(label_spec(i).len() == 1 && label_spec(j).len() >= 2);
    } else if i >= 26 && j < 26 {
        lemma_label_spec_len((i / 26 - 1) as nat);
        assert(label_spec(i).len() >= 2 && label_spec(j).len() == 1);
    } else {
        let a = label_spec((i / 26 - 1) as nat);
        let b = label_spec((j / 26 - 1) as nat);
        if i % 26 != j % 26 {
            lemma_label_char_injective((i % 26) as nat, (j % 26) as nat);
            assert(label_spec(i).last() != label_spec(j).last());
        } else {
            assert(i / 26 != j / 26) by {
                if i / 26 == j / 26 {
                    assert(i == 26 * (i / 26) + i % 26) by (nonlinear_arith);
                    assert(j == 26 * (j / 26) + j % 26) by (nonlinear_arith);
                }
            }
            lemma_label_spec_injective((i / 26 - 1) as nat, (j / 26 - 1) as nat);
            if a.len() == b.len() {
                if label_spec(i) == label_spec(j) {
                    assert forall|k: int| 0 <= k < a.len() implies a[k] == b[k] by {
                        assert(label_spec(i)[k] == a[k]);
                        assert(label_spec(j)[k] == b[k]);
                    }
                    assert(a =~= b);
                }
            } else {
                assert(label_spec(i).len() != label_spec(j).len());
            }
        }
    }
}

/// Appends the label of index `i` to `out`.
fn label_chars(i: usize, out: &mut Vec<char>)
    ensures
        final(out)@ == old(out)@ + label_spec(i as nat),
    decreases i,
{
    if i >= 26 {
        label_chars(i / 26 - 1, out);
    }
    let d = i % 26;
    let c: char = if d == 0 {
        'A'
    } else if d == 1 {
        'B'
    } else if d == 2 {
        'C'
    } else if d == 3 {
        'D'
    } else if d == 4 {
        'E'
    } else if d == 5 {
        'F'
    } else if d == 6 {
        'G'
    } else if d == 7 {
        'H'
    } else if d == 8 {
        'I'
    } else if d == 9 {
        'J'
    } else if d == 10 {
        'K'
    } else if d == 11 {
        'L'
    } else if d == 12 {
        'M'
    } else if d == 13 {
        'N'
    } else if d == 14 {
        'O'
    } else if d == 15 {
        'P'
    } else if d == 16 {
        'Q'
    } else if d == 17 {
        'R'
    } else if d == 18 {
        'S'
    } else if d == 19 {
        'T'
    } else if d == 20 {
        'U'
    } else if d == 21 {
        'V'
    } else if d == 22 {
        'W'
    } else if d == 23 {
        'X'
    } else if d == 24 {
        'Y'
    } else {
        'Z'
    };
    out.push(c);
    proof {
        if i < 26 {
            assert(out@ =~= old(out)@ + label_spec(i as nat));
        } else {
            assert(out@ =~= old(out)@ + label_spec(i as nat));
        }
    }
}

/// The base-26 letter label of enumeration index `i`.
pub fn label_for_index(i: usize) -> (r: String)
    ensures
        r@ == label_spec(i as nat),
{
    let mut out: Vec<char> = Vec::new();
    label_chars(i, &mut out);
    crate::strutil::chars_to_string(&out)
}

/// Whether a raw candidate passes the selection predicate.
pub fn is_interactive_elem(e: &RawElement) -> (r: bool)
    ensures
        r == is_interactive(*e),
{
    e.visible && (str_eq(e.tag.as_str(), "a") || str_eq(e.tag.as_str(), "button") || str_eq(
        e.tag.as_str(),
        "textarea",
    ) || str_eq(e.tag.as_str(), "select") || (str_eq(e.tag.as_str(), "input") && !str_eq(
        e.type_attr.as_str(),
        "hidden",
    )) || e.has_onclick || e.role_button || e.has_tabindex)
}

fn clone_attrs(o: &Option<Vec<(String, String)>>) -> (r: Option<Vec<(String, String)>>)
    ensures
        r.deep_view() == o.deep_view(),
{
    match o {
        Some(v) => {
            let mut out: Vec<(String, String)> = Vec::new();
            let n: usize = v.len();
            let mut i: usize = 0;
            while i < n
                invariant
                    i <= n,
                    n == v@.len(),
                    out@.len() == i,
                    forall|k: int|
                        0 <= k < i ==> (#[trigger] out@[k]).deep_view() == v@[k].deep_view(),
                decreases n - i,
            {
                out.push((v[i].0.clone(), v[i].1.clone()));
                i = i + 1;
            }
            proof {
                assert(out.deep_view() =~= v.deep_view());
            }
            Some(out)
        },
        None => None,
    }
}

/// Builds the labeled snapshot from the page-side enumeration's raw
/// records: keeps exactly the elements passing the selection predicate, in
/// enumeration order, and assigns each the label of its position. Labels
/// within the result are unique, and the count equals the number of
/// matching candidates.
pub fn extract_interactive_elements(raw: &Vec<RawElement>) -> (out: Vec<InteractiveElement>)
    ensures
        out@.len() == raw@.filter(|e: RawElement| is_interactive(e)).len(),
        forall|k: int|
            0 <= k < out@.len() ==> {
                let kept = raw@.filter(|e: RawElement| is_interactive(e));
                &&& (#[trigger] out@[k]).tag@ == kept[k].tag@
                &&& out@[k].selector@ == kept[k].selector@
                &&& out@[k].text.deep_view() == preview_spec(kept[k].text.deep_view())
                &&& out@[k].attributes.deep_view() == kept[k].attributes.deep_view()
                &&& out@[k].element_type == category_of(kept[k])
                &&& out@[k].label matches Some(l) && l@ == label_spec(k as nat)
            },
        forall|k1: int, k2: int|
            0 <= k1 < k2 < out@.len() ==> (#[trigger] out@[k1]).label != (#[trigger] out@[k2]).label,
{
    let n: usize = raw.len();
    let mut out: Vec<InteractiveElement> = Vec::new();
    let mut i: usize = 0;
    while i < n
        invariant
            i <= n,
            n == raw@.len(),
            out@.len() == raw@.subrange(0, i as int).filter(|e: RawElement| is_interactive(e)).len(),
            forall|k: int|
                0 <= k < out@.len() ==> {
                    let kept = raw@.subrange(0, i as int).filter(
                        |e: RawElement| is_interactive(e),
                    );
                    &&& (#[trigger] out@[k]).tag@ == kept[k].tag@
                    &&& out@[k].selector@ == kept[k].selector@
                    &&& out@[k].text.deep_view() == preview_spec(kept[k].text.deep_view())
                    &&& out@[k].attributes.deep_view() == kept[k].attributes.deep_view()
                    &&& out@[k].element_type == category_of(kept[k])
                    &&& out@[k].label matches Some(l) && l@ == label_spec(k as nat)
                },
        decreases n - i,
    {
        let ghost pre = raw@.subrange(0, i as int);
        let ghost cur = raw@.subrange(0, i + 1);
        proof {
            reveal(Seq::filter);
            assert(cur.drop_last() =~= pre);
            assert(cur.last() == raw@[i as int]);
            if is_interactive(raw@[i as int]) {
                assert(cur.filter(|e: RawElement| is_interactive(e)) =~= pre.filter(
                    |e: RawElement| is_interactive(e),
                ).push(raw@[i as int]));
            } else {
                assert(cur.filter(|e: RawElement| is_interactive(e)) =~= pre.filter(
                    |e: RawElement| is_interactive(e),
                ));
            }
        }
        let e = &raw[i];
        if is_interactive_elem(e) {
            let typable = str_eq(e.tag.as_str(), "input") || str_eq(e.tag.as_str(), "textarea")
                || str_eq(e.tag.as_str(), "select");
            let elem = InteractiveElement {
                tag: e.tag.clone(),
                element_type: if typable {
                    ElementType::Typable
                } else {
                    ElementType::Clickable
                },
                selector: e.selector.clone(),
                text: truncate_preview(&e.text),
                attributes: clone_attrs(&e.attributes),
                label: Some(label_for_index(out.len())),
            };
            out.push(elem);
        }
        i = i + 1;
    }
    proof {
        assert(raw@.subrange(0, n as int) =~= raw@);
        let kept = raw@.filter(|e: RawElement| is_interactive(e));
        assert forall|k1: int, k2: int|
            0 <= k1 < k2 < out@.len() implies (#[trigger] out@[k1]).label != (
        #[trigger] out@[k2]).label by {
            lemma_label_spec_injective(k1 as nat, k2 as nat);
            let l1 = out@[k1].label->Some_0;
            let l2 = out@[k2].label->Some_0;
            assert(l1@ != l2@);
        }
    }
    out
}

} // verus!
