//! Properties of the generator, stated and proved over its models.

use vstd::prelude::*;

use crate::directive::leading_marker_count;
use crate::directive::marker_flag;
use crate::directive::parse_request;
use crate::directive::parse_view;
use crate::directive::DirectiveView;
use crate::directive::TokenView;
use crate::emit::annotation_view;
use crate::emit::emission_view;
use crate::emit::emissions_view;
use crate::emit::note_view;
use crate::emit::span_view;
use crate::emit::AnnotationView;
use crate::emit::Mode;
use crate::synth::bare_slot_view;
use crate::synth::numbered_slot_view;
use crate::synth::render_slot_view;
use crate::synth::slots_view;
use crate::text::join_with;

verus! {

/// Arity coverage: a directive's emissions hold one entry per arity in
/// the inclusive range, in ascending order, and none at all when the
/// range is degenerate.
pub proof fn lemma_arity_coverage(d: DirectiveView, mode: Mode)
    ensures
        d.start > d.end ==> emissions_view(d, mode).len() == 0,
        d.start <= d.end ==> emissions_view(d, mode).len() == d.end - d.start + 1,
        forall|k: int|
            0 <= k < emissions_view(d, mode).len() ==> #[trigger] emissions_view(d, mode)[k]
                == emission_view(d, (d.start + k) as nat, mode),
{
}

/// Zero arity: the arity-zero emission has an empty slot row and no
/// annotation, in every mode, with or without the collapse marker.
pub proof fn lemma_zero_arity(d: DirectiveView, mode: Mode)
    ensures
        emission_view(d, 0, mode).slots.len() == 0,
        emission_view(d, 0, mode).annotation is Unmarked,
{
}

/// Enumeration: in the enumerated shape every slot carries exactly its
/// zero-based position, at every arity, the collapsed arity-one row
/// included.
pub proof fn lemma_enumeration_positions(d: DirectiveView, arity: nat)
    ensures
        forall|j: int|
            0 <= j < slots_view(d, arity, true).len() ==> (#[trigger] slots_view(
                d,
                arity,
                true,
            )[j]).position == Some(j),
{
}

/// Whether a rendered slot is a parenthesized group.
pub open spec fn is_grouped(t: Seq<char>) -> bool {
    &&& t.len() >= 2
    &&& t[0] == '('
    &&& t.last() == ')'
}

/// Grouping: with a single prefix and no enumeration a slot renders as
/// the bare generated name; with several prefixes, or under enumeration,
/// it renders as a parenthesized group.
pub proof fn lemma_grouping(d: DirectiveView, arity: nat, enumerated: bool, j: int)
    requires
        d.slot_prefixes.len() >= 1,
        0 <= j < slots_view(d, arity, enumerated).len(),
    ensures
        ({
            let s = slots_view(d, arity, enumerated)[j];
            &&& (!enumerated && d.slot_prefixes.len() == 1 ==> s.position is None && s.names.len()
                == 1 && render_slot_view(s) == s.names[0])
            &&& (enumerated || d.slot_prefixes.len() >= 2 ==> is_grouped(render_slot_view(s)))
        }),
{
    let s = slots_view(d, arity, enumerated)[j];
    assert(s.names.len() == d.slot_prefixes.len());
    if !enumerated && d.slot_prefixes.len() == 1 {
        assert(render_slot_view(s) == join_with(s.names, ", "@));
    }
    if enumerated || d.slot_prefixes.len() >= 2 {
        reveal_strlit("(");
        reveal_strlit(")");
        let parts = match s.position {
            Some(p) => seq![crate::text::dec_rep(p as nat)] + s.names,
            None => s.names,
        };
        let t = render_slot_view(s);
        assert(t == "("@ + join_with(parts, ", "@) + ")"@);
        assert(t[0] == '(');
        assert(t.last() == ')');
    }
}

/// Collapse placement: with the collapse marker, arity zero stays
/// unannotated, arity one carries the collapse annotation with its
/// note, every higher arity is hidden, and the arity-one slot row is
/// the single slot of bare, unnumbered prefixes.
pub proof fn lemma_collapse_placement(d: DirectiveView, mode: Mode, arity: nat)
    requires
        d.collapse_display,
    ensures
        arity == 0 ==> annotation_view(d, arity) is Unmarked,
        arity == 1 ==> annotation_view(d, arity) == AnnotationView::Collapse(
            note_view(span_view(d)),
        ),
        arity >= 2 ==> annotation_view(d, arity) is Hidden,
        slots_view(d, 1, mode is Enumerated) == seq![
            bare_slot_view(d.slot_prefixes, mode is Enumerated),
        ],
        bare_slot_view(d.slot_prefixes, mode is Enumerated).names == d.slot_prefixes,
{
}

/// Without the collapse marker no emission carries an annotation, and
/// the numbered slot table is used uniformly, arity one included.
pub proof fn lemma_no_collapse_unannotated(d: DirectiveView, arity: nat, enumerated: bool)
    requires
        !d.collapse_display,
    ensures
        annotation_view(d, arity) is Unmarked,
        slots_view(d, arity, enumerated) == Seq::new(
            arity,
            |p: int| numbered_slot_view(d.slot_prefixes, p as nat, enumerated),
        ),
{
}

/// Naming: for one prefix the generated names are distinct across
/// positions, so the slot names of one emission never clash.
pub proof fn lemma_naming_unique(prefix: Seq<char>, i: nat, j: nat)
    requires
        i != j,
    ensures
        crate::synth::slot_name_view(prefix, i) != crate::synth::slot_name_view(prefix, j),
{
    if crate::synth::slot_name_view(prefix, i) == crate::synth::slot_name_view(prefix, j) {
        assert(crate::text::dec_rep(i) =~= (prefix + crate::text::dec_rep(i)).skip(
            prefix.len() as int,
        ));
        assert(crate::text::dec_rep(j) =~= (prefix + crate::text::dec_rep(j)).skip(
            prefix.len() as int,
        ));
        crate::text::lemma_dec_rep_injective(i, j);
    }
}

/// The collapse gate: a token sequence that parses successfully with the
/// collapse marker always has a range start of at most one.
pub proof fn lemma_collapse_gate(toks: Seq<TokenView>)
    ensures
        parse_view(toks) matches Ok(d) ==> (d.collapse_display ==> d.start <= 1),
{
    match marker_flag(toks) {
        Ok(collapse) => {
            let rest = toks.skip(leading_marker_count(toks) as int);
            assert(parse_request(rest, collapse) matches Ok(d) ==> (d.collapse_display
                ==> d.start <= 1));
        },
        Err(_) => {},
    }
}

} // verus!
