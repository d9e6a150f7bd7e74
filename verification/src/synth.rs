//! The tuple synthesizer: the per-position slots substituted into the
//! template at each arity.
//!
//! For position `i` and prefix `p` the generated name is `p` followed by
//! the decimal digits of `i`, which makes the names unique across
//! positions and deterministic across runs.  A collapsed-display
//! directive uses the bare, unnumbered prefixes at arity one, so that
//! documentation tooling can display them as representative names.

use vstd::prelude::*;
use vstd::string::*;

use crate::directive::DirectiveView;
use crate::directive::GenerationRequest;
use crate::text::append_dec;
use crate::text::dec_rep;
use crate::text::join_strings;
use crate::text::join_with;
use crate::views::lemma_vec_deep_view;
use crate::views::lemma_views_of_seq_push;
use crate::views::views_of_seq;

verus! {

/// One slot: the synthesized names for one tuple position and, in the
/// enumerated shape, the position itself.
#[derive(Debug, PartialEq, Eq)]
pub struct Slot {
    /// The zero-based position, carried in the enumerated shape only.
    pub position: Option<usize>,
    /// One generated name per configured prefix.
    pub names: Vec<String>,
}

/// The mathematical value of a [`Slot`].
#[verifier::ext_equal]
pub struct SlotView {
    pub position: Option<int>,
    pub names: Seq<Seq<char>>,
}

impl View for Slot {
    type V = SlotView;

    open spec fn view(&self) -> SlotView {
        SlotView {
            position: match self.position {
                Some(p) => Some(p as int),
                None => None,
            },
            names: self.names.deep_view(),
        }
    }
}

impl DeepView for Slot {
    type V = SlotView;

    open spec fn deep_view(&self) -> SlotView {
        self.view()
    }
}

/// The name for one prefix at one position: the prefix with the decimal
/// position appended.
pub open spec fn slot_name_view(prefix: Seq<char>, pos: nat) -> Seq<char> {
    prefix + dec_rep(pos)
}

/// The numbered slot at one position: one generated name per prefix,
/// and the position itself in the enumerated shape.
pub open spec fn numbered_slot_view(prefixes: Seq<Seq<char>>, pos: nat, enumerated: bool) -> SlotView {
    SlotView {
        position: if enumerated {
            Some(pos as int)
        } else {
            None
        },
        names: Seq::new(prefixes.len(), |k: int| slot_name_view(prefixes[k], pos)),
    }
}

/// The bare slot: the unnumbered prefixes themselves, standing in for
/// every arity in collapsed documentation.
pub open spec fn bare_slot_view(prefixes: Seq<Seq<char>>, enumerated: bool) -> SlotView {
    SlotView {
        position: if enumerated {
            Some(0)
        } else {
            None
        },
        names: prefixes,
    }
}

/// The slot row for one arity: the numbered slots for positions below
/// the arity, except that a collapsed-display directive uses the single
/// bare slot at arity one.
pub open spec fn slots_view(d: DirectiveView, arity: nat, enumerated: bool) -> Seq<SlotView> {
    if d.collapse_display && arity == 1 {
        seq![bare_slot_view(d.slot_prefixes, enumerated)]
    } else {
        Seq::new(arity, |p: int| numbered_slot_view(d.slot_prefixes, p as nat, enumerated))
    }
}

/// Builds the name for one prefix at one position.
pub fn make_name(prefix: &String, pos: usize) -> (r: String)
    ensures
        r@ == slot_name_view(prefix@, pos as nat),
{
    let mut s = prefix.clone();
    append_dec(&mut s, pos);
    s
}

/// Builds the numbered slot at one position.
pub fn numbered_slot(prefixes: &Vec<String>, pos: usize, enumerated: bool) -> (r: Slot)
    ensures
        r@ == numbered_slot_view(prefixes.deep_view(), pos as nat, enumerated),
{
    let ghost pviews = prefixes.deep_view();
    let mut names: Vec<String> = Vec::new();
    let mut k: usize = 0;
    proof {
        lemma_vec_deep_view(names);
        assert(names.deep_view() =~= pviews.take(0).map_values(
            |q: Seq<char>| slot_name_view(q, pos as nat),
        ));
    }
    #[verifier::loop_isolation(false)]
    while k < prefixes.len()
        invariant
            k <= prefixes.len(),
            names.deep_view() == pviews.take(k as int).map_values(
                |q: Seq<char>| slot_name_view(q, pos as nat),
            ),
        decreases prefixes.len() - k,
    {
        let nm = make_name(&prefixes[k], pos);
        let ghost prev = names@;
        proof {
            assert(pviews[k as int] == prefixes@[k as int]@);
        }
        names.push(nm);
        proof {
            lemma_views_of_seq_push(prev, nm);
            lemma_vec_deep_view(names);
            assert(views_of_seq(prev) =~= pviews.take(k as int).map_values(
                |q: Seq<char>| slot_name_view(q, pos as nat),
            ));
            assert(names.deep_view() =~= pviews.take(k + 1).map_values(
                |q: Seq<char>| slot_name_view(q, pos as nat),
            ));
        }
        k += 1;
    }
    let r = Slot {
        position: if enumerated {
            Some(pos)
        } else {
            None
        },
        names,
    };
    proof {
        assert(pviews.take(prefixes.len() as int) =~= pviews);
        assert(r@.names =~= numbered_slot_view(pviews, pos as nat, enumerated).names);
        assert(r@ =~= numbered_slot_view(pviews, pos as nat, enumerated));
    }
    r
}

/// Builds the bare slot from the prefixes themselves.
pub fn bare_slot(prefixes: &Vec<String>, enumerated: bool) -> (r: Slot)
    ensures
        r@ == bare_slot_view(prefixes.deep_view(), enumerated),
{
    let ghost pviews = prefixes.deep_view();
    let mut names: Vec<String> = Vec::new();
    let mut k: usize = 0;
    #[verifier::loop_isolation(false)]
    while k < prefixes.len()
        invariant
            k <= prefixes.len(),
            names.deep_view() == pviews.take(k as int),
        decreases prefixes.len() - k,
    {
        let nm = prefixes[k].clone();
        let ghost prev = names@;
        proof {
            assert(pviews[k as int] == prefixes@[k as int]@);
        }
        names.push(nm);
        proof {
            lemma_views_of_seq_push(prev, nm);
            lemma_vec_deep_view(names);
            assert(views_of_seq(prev) =~= pviews.take(k as int));
            assert(names.deep_view() =~= pviews.take(k + 1));
        }
        k += 1;
    }
    let r = Slot {
        position: if enumerated {
            Some(0)
        } else {
            None
        },
        names,
    };
    proof {
        assert(pviews.take(prefixes.len() as int) =~= pviews);
        assert(r@ =~= bare_slot_view(pviews, enumerated));
    }
    r
}

/// The rendered argument for one slot: the names joined with commas,
/// wrapped in parentheses when the position is carried or more than one
/// name is present, with the position as the first element of the group.
pub open spec fn render_slot_view(s: SlotView) -> Seq<char> {
    let parts = match s.position {
        Some(p) => seq![dec_rep(p as nat)] + s.names,
        None => s.names,
    };
    if (s.position is Some) || s.names.len() >= 2 {
        "("@ + join_with(parts, ", "@) + ")"@
    } else {
        join_with(parts, ", "@)
    }
}

/// Renders one slot as the argument text substituted into the template.
pub fn render_slot(s: &Slot) -> (r: String)
    ensures
        r@ == render_slot_view(s@),
{
    let ghost want_parts: Seq<Seq<char>> = match s@.position {
        Some(p) => seq![dec_rep(p as nat)] + s@.names,
        None => s@.names,
    };
    let ghost b: int = if s@.position is Some {
        1
    } else {
        0
    };
    let mut parts: Vec<String> = Vec::new();
    let grouped: bool;
    match s.position {
        Some(p) => {
            grouped = true;
            let mut ds = String::new();
            append_dec(&mut ds, p);
            proof {
                assert(ds@ =~= dec_rep(p as nat));
            }
            parts.push(ds);
        },
        None => {
            grouped = s.names.len() >= 2;
        },
    }
    proof {
        lemma_vec_deep_view(parts);
        assert(parts.deep_view() =~= want_parts.take(b));
        assert(parts@.len() == b);
    }
    let mut k: usize = 0;
    #[verifier::loop_isolation(false)]
    while k < s.names.len()
        invariant
            k <= s.names.len(),
            parts@.len() == b + k,
            parts.deep_view() == want_parts.take(b + k),
        decreases s.names.len() - k,
    {
        let nm = s.names[k].clone();
        let ghost prev = parts@;
        proof {
            assert(s@.names[k as int] == s.names@[k as int]@);
            assert(want_parts[b + k] == s@.names[k as int]);
        }
        parts.push(nm);
        proof {
            lemma_views_of_seq_push(prev, nm);
            lemma_vec_deep_view(parts);
            assert(views_of_seq(prev) == want_parts.take(b + k));
            assert(parts.deep_view() =~= want_parts.take(b + k + 1));
        }
        k += 1;
    }
    proof {
        assert(want_parts.take(b + s.names@.len()) =~= want_parts);
    }
    let inner = join_strings(&parts, ", ");
    if grouped {
        let mut out = "(".to_owned();
        out.append(inner.as_str());
        out.append(")");
        proof {
            assert(out@ =~= render_slot_view(s@));
        }
        out
    } else {
        proof {
            assert(inner@ =~= render_slot_view(s@));
        }
        inner
    }
}

/// Builds the slot row for one arity of a request.
pub fn arity_slots(req: &GenerationRequest, arity: usize, enumerated: bool) -> (r: Vec<Slot>)
    ensures
        r.deep_view() == slots_view(req@, arity as nat, enumerated),
{
    let mut out: Vec<Slot> = Vec::new();
    if req.collapse_display && arity == 1 {
        out.push(bare_slot(&req.slot_prefixes, enumerated));
        proof {
            lemma_vec_deep_view(out);
            assert(out.deep_view() =~= slots_view(req@, arity as nat, enumerated));
        }
        return out;
    }
    let ghost want = slots_view(req@, arity as nat, enumerated);
    let mut p: usize = 0;
    #[verifier::loop_isolation(false)]
    while p < arity
        invariant
            p <= arity,
            !(req.collapse_display && arity == 1),
            want == slots_view(req@, arity as nat, enumerated),
            out.deep_view() == want.take(p as int),
        decreases arity - p,
    {
        let s = numbered_slot(&req.slot_prefixes, p, enumerated);
        let ghost prev = out@;
        out.push(s);
        proof {
            lemma_views_of_seq_push(prev, s);
            lemma_vec_deep_view(out);
            assert(views_of_seq(prev) == want.take(p as int));
            assert(want[p as int] == numbered_slot_view(req@.slot_prefixes, p as nat, enumerated));
            assert(out.deep_view() =~= want.take(p + 1));
        }
        p += 1;
    }
    proof {
        assert(want.take(arity as int) =~= want);
    }
    out
}

} // verus!
