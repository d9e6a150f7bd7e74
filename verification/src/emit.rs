//! The invocation emitter: one template invocation per arity in the
//! requested range, with the annotation policy of the collapsed-display
//! mode, rendered as plain text.

use vstd::prelude::*;
use vstd::string::*;

use crate::directive::parse_directive;
use crate::directive::parse_view;
use crate::directive::DirectiveError;
use crate::directive::DirectiveView;
use crate::directive::GenerationRequest;
use crate::directive::Token;
use crate::synth::arity_slots;
use crate::synth::render_slot;
use crate::synth::render_slot_view;
use crate::synth::slots_view;
use crate::text::append_dec;
use crate::text::dec_rep;
use crate::text::join_strings;
use crate::text::join_with;
use crate::views::lemma_vec_deep_view;
use crate::views::lemma_views_of_seq_push;
use crate::views::views_of_seq;

verus! {

/// Which argument shape a directive asks for.
#[derive(Clone, Copy, Debug, PartialEq, Eq, Structural)]
pub enum Mode {
    /// One slot per position and nothing else.
    Plain,
    /// Every slot carries its position as the first element of a group.
    Enumerated,
    /// The arity itself leads the argument list.
    WithSize,
}

/// The annotation attached to one emitted invocation.
#[derive(Debug, PartialEq, Eq)]
pub enum Annotation {
    /// No annotation.
    Unmarked,
    /// Collapse the documentation onto this invocation, showing the note.
    Collapse(String),
    /// Hide this invocation from rendered documentation.
    Hidden,
}

/// The mathematical value of an [`Annotation`].
#[verifier::ext_equal]
pub enum AnnotationView {
    Unmarked,
    Collapse(Seq<char>),
    Hidden,
}

impl View for Annotation {
    type V = AnnotationView;

    open spec fn view(&self) -> AnnotationView {
        match self {
            Annotation::Unmarked => AnnotationView::Unmarked,
            Annotation::Collapse(note) => AnnotationView::Collapse(note@),
            Annotation::Hidden => AnnotationView::Hidden,
        }
    }
}

impl DeepView for Annotation {
    type V = AnnotationView;

    open spec fn deep_view(&self) -> AnnotationView {
        self.view()
    }
}

/// One emitted invocation of the template.
#[derive(Debug, PartialEq, Eq)]
pub struct Emission {
    /// The annotation attached inside the invocation, if any.
    pub annotation: Annotation,
    /// The leading arity argument, in the size-carrying shape only.
    pub size: Option<usize>,
    /// The slot row substituted into the template.
    pub slots: Vec<crate::synth::Slot>,
}

/// The mathematical value of an [`Emission`].
#[verifier::ext_equal]
pub struct EmissionView {
    pub annotation: AnnotationView,
    pub size: Option<int>,
    pub slots: Seq<crate::synth::SlotView>,
}

impl View for Emission {
    type V = EmissionView;

    open spec fn view(&self) -> EmissionView {
        EmissionView {
            annotation: self.annotation@,
            size: match self.size {
                Some(v) => Some(v as int),
                None => None,
            },
            slots: self.slots.deep_view(),
        }
    }
}

impl DeepView for Emission {
    type V = EmissionView;

    open spec fn deep_view(&self) -> EmissionView {
        self.view()
    }
}

/// How many arities the range holds: zero when the range is degenerate.
pub open spec fn span_view(d: DirectiveView) -> nat {
    if d.start > d.end {
        0
    } else {
        (d.end - d.start + 1) as nat
    }
}

/// The note attached to the collapsed arity-one emission.
pub open spec fn note_view(len: nat) -> Seq<char> {
    "This trait is implemented for tuples up to "@ + dec_rep(len) + " items long."@
}

/// The annotation for one arity.  Without the collapse marker nothing is
/// attached; with it, arity zero stays unannotated, arity one carries
/// the collapse note, and every higher arity is hidden.
pub open spec fn annotation_view(d: DirectiveView, arity: nat) -> AnnotationView {
    if !d.collapse_display || arity == 0 {
        AnnotationView::Unmarked
    } else if arity == 1 {
        AnnotationView::Collapse(note_view(span_view(d)))
    } else {
        AnnotationView::Hidden
    }
}

/// One emission: the annotation, the leading size in the size-carrying
/// shape, and the slot row.
pub open spec fn emission_view(d: DirectiveView, arity: nat, mode: Mode) -> EmissionView {
    EmissionView {
        annotation: annotation_view(d, arity),
        size: if mode is WithSize {
            Some(arity as int)
        } else {
            None
        },
        slots: slots_view(d, arity, mode is Enumerated),
    }
}

/// Every emission of a directive, one per arity, in ascending order.
pub open spec fn emissions_view(d: DirectiveView, mode: Mode) -> Seq<EmissionView> {
    Seq::new(span_view(d), |k: int| emission_view(d, (d.start + k) as nat, mode))
}

/// Builds the collapse note for a range of `len` arities.
fn make_note(len: usize) -> (r: String)
    ensures
        r@ == note_view(len as nat),
{
    let mut s = "This trait is implemented for tuples up to ".to_owned();
    append_dec(&mut s, len);
    s.append(" items long.");
    proof {
        assert(s@ =~= note_view(len as nat));
    }
    s
}

/// Builds the annotation for one arity of a request.
fn make_annotation(req: &GenerationRequest, arity: usize) -> (r: Annotation)
    requires
        req.start <= req.end < usize::MAX,
    ensures
        r@ == annotation_view(req@, arity as nat),
{
    if !req.collapse_display || arity == 0 {
        Annotation::Unmarked
    } else if arity == 1 {
        Annotation::Collapse(make_note(req.end - req.start + 1))
    } else {
        Annotation::Hidden
    }
}

/// Expands one parsed request into its emissions, one per arity in the
/// inclusive range, in ascending order; a degenerate range gives none.
pub fn expand(req: &GenerationRequest, mode: Mode) -> (out: Vec<Emission>)
    requires
        req.end < usize::MAX,
    ensures
        out.deep_view() == emissions_view(req@, mode),
{
    let ghost want = emissions_view(req@, mode);
    let mut out: Vec<Emission> = Vec::new();
    if req.start > req.end {
        proof {
            lemma_vec_deep_view(out);
            assert(out.deep_view() =~= want);
        }
        return out;
    }
    let enumerated = match mode {
        Mode::Enumerated => true,
        _ => false,
    };
    let mut a = req.start;
    proof {
        lemma_vec_deep_view(out);
        assert(out.deep_view() =~= want.take(0));
    }
    #[verifier::loop_isolation(false)]
    while a <= req.end
        invariant
            req.start <= a <= req.end + 1,
            out.deep_view() == want.take(a - req.start),
        decreases req.end + 1 - a,
    {
        let slots = arity_slots(req, a, enumerated);
        let annotation = make_annotation(req, a);
        let size = match mode {
            Mode::WithSize => Some(a),
            _ => None,
        };
        let em = Emission { annotation, size, slots };
        let ghost prev = out@;
        proof {
            assert(em@ =~= emission_view(req@, a as nat, mode));
            assert(want[a - req.start] == emission_view(req@, a as nat, mode));
        }
        out.push(em);
        proof {
            lemma_views_of_seq_push(prev, em);
            lemma_vec_deep_view(out);
            assert(views_of_seq(prev) == want.take(a - req.start));
            assert(out.deep_view() =~= want.take(a + 1 - req.start));
        }
        a += 1;
    }
    proof {
        assert(want.take(span_view(req@) as int) =~= want);
    }
    out
}

/// The rendered annotation: the attribute text placed inside the
/// invocation, and nothing for an unmarked emission.
pub open spec fn render_annotation_view(a: AnnotationView) -> Seq<char> {
    match a {
        AnnotationView::Unmarked => Seq::empty(),
        AnnotationView::Collapse(note) => "#[cfg_attr(any(docsrs, docsrs_dep), doc(fake_variadic))] #[cfg_attr(any(docsrs, docsrs_dep), doc = \""@
            + note + "\")]"@,
        AnnotationView::Hidden => "#[cfg_attr(any(docsrs, docsrs_dep), doc(hidden))]"@,
    }
}

/// The pieces inside one invocation's parentheses: the leading size with
/// its comma, the annotation, and the comma-joined slot row, each only
/// when present.
pub open spec fn emission_pieces_view(e: EmissionView) -> Seq<Seq<char>> {
    let sz: Seq<Seq<char>> = match e.size {
        Some(v) => seq![dec_rep(v as nat) + ","@],
        None => Seq::empty(),
    };
    let an: Seq<Seq<char>> = if e.annotation is Unmarked {
        Seq::empty()
    } else {
        seq![render_annotation_view(e.annotation)]
    };
    let ar: Seq<Seq<char>> = if e.slots.len() == 0 {
        Seq::empty()
    } else {
        seq![
            join_with(
                Seq::new(e.slots.len(), |i: int| render_slot_view(e.slots[i])),
                ", "@,
            ),
        ]
    };
    sz + an + ar
}

/// One rendered invocation of the template.
pub open spec fn render_emission_view(name: Seq<char>, e: EmissionView) -> Seq<char> {
    name + "!("@ + join_with(emission_pieces_view(e), " "@) + ");"@
}

/// The rendered output of a directive: every invocation on its own line.
pub open spec fn render_view(name: Seq<char>, emissions: Seq<EmissionView>) -> Seq<char> {
    join_with(
        Seq::new(emissions.len(), |i: int| render_emission_view(name, emissions[i])),
        "\n"@,
    )
}

/// Renders an annotation as attribute text.
pub fn render_annotation(a: &Annotation) -> (r: String)
    ensures
        r@ == render_annotation_view(a@),
{
    match a {
        Annotation::Unmarked => {
            let r = String::new();
            proof {
                assert(r@ =~= render_annotation_view(a@));
            }
            r
        },
        Annotation::Collapse(note) => {
            let mut s =
                "#[cfg_attr(any(docsrs, docsrs_dep), doc(fake_variadic))] #[cfg_attr(any(docsrs, docsrs_dep), doc = \"".to_owned();
            s.append(note.as_str());
            s.append("\")]");
            proof {
                assert(s@ =~= render_annotation_view(a@));
            }
            s
        },
        Annotation::Hidden => "#[cfg_attr(any(docsrs, docsrs_dep), doc(hidden))]".to_owned(),
    }
}

/// Renders one emission as one invocation of the template.
pub fn render_emission(name: &String, e: &Emission) -> (r: String)
    ensures
        r@ == render_emission_view(name@, e@),
{
    let ghost want = emission_pieces_view(e@);
    let mut pieces: Vec<String> = Vec::new();
    match e.size {
        Some(v) => {
            let mut ds = String::new();
            append_dec(&mut ds, v);
            ds.append(",");
            proof {
                assert(ds@ =~= dec_rep(v as nat) + ","@);
            }
            pieces.push(ds);
        },
        None => {},
    }
    match &e.annotation {
        Annotation::Unmarked => {},
        _ => {
            let rendered = render_annotation(&e.annotation);
            pieces.push(rendered);
        },
    }
    if e.slots.len() > 0 {
        let ghost rows = Seq::new(e.slots.deep_view().len(), |i: int| render_slot_view(
            e.slots.deep_view()[i],
        ));
        let mut rendered_rows: Vec<String> = Vec::new();
        let mut i: usize = 0;
        proof {
            lemma_vec_deep_view(rendered_rows);
            assert(rendered_rows.deep_view() =~= rows.take(0));
        }
        #[verifier::loop_isolation(false)]
        while i < e.slots.len()
            invariant
                i <= e.slots.len(),
                rendered_rows.deep_view() == rows.take(i as int),
            decreases e.slots.len() - i,
        {
            let row = render_slot(&e.slots[i]);
            let ghost prev = rendered_rows@;
            proof {
                assert(e.slots.deep_view()[i as int] == e.slots@[i as int]@);
            }
            rendered_rows.push(row);
            proof {
                lemma_views_of_seq_push(prev, row);
                lemma_vec_deep_view(rendered_rows);
                assert(views_of_seq(prev) == rows.take(i as int));
                assert(rendered_rows.deep_view() =~= rows.take(i + 1));
            }
            i += 1;
        }
        proof {
            assert(rows.take(e.slots@.len() as int) =~= rows);
        }
        let joined = join_strings(&rendered_rows, ", ");
        pieces.push(joined);
    }
    proof {
        lemma_vec_deep_view(pieces);
        assert(pieces.deep_view() =~= want);
    }
    let inner = join_strings(&pieces, " ");
    let mut out = name.clone();
    out.append("!(");
    out.append(inner.as_str());
    out.append(");");
    proof {
        assert(out@ =~= render_emission_view(name@, e@));
    }
    out
}

/// Renders every emission, one invocation per line.
pub fn render_invocations(name: &String, emissions: &Vec<Emission>) -> (r: String)
    ensures
        r@ == render_view(name@, emissions.deep_view()),
{
    let ghost lines_want = Seq::new(emissions.deep_view().len(), |i: int| render_emission_view(
        name@,
        emissions.deep_view()[i],
    ));
    let mut lines: Vec<String> = Vec::new();
    let mut i: usize = 0;
    proof {
        lemma_vec_deep_view(lines);
        assert(lines.deep_view() =~= lines_want.take(0));
    }
    #[verifier::loop_isolation(false)]
    while i < emissions.len()
        invariant
            i <= emissions.len(),
            lines.deep_view() == lines_want.take(i as int),
        decreases emissions.len() - i,
    {
        let line = render_emission(name, &emissions[i]);
        let ghost prev = lines@;
        proof {
            assert(emissions.deep_view()[i as int] == emissions@[i as int]@);
        }
        lines.push(line);
        proof {
            lemma_views_of_seq_push(prev, line);
            lemma_vec_deep_view(lines);
            assert(views_of_seq(prev) == lines_want.take(i as int));
            assert(lines.deep_view() =~= lines_want.take(i + 1));
        }
        i += 1;
    }
    proof {
        assert(lines_want.take(emissions@.len() as int) =~= lines_want);
    }
    join_strings(&lines, "\n")
}

/// Parses a directive and renders its plain-generation output: one call
/// of the template per arity in range, with the slot row as arguments.
pub fn all_tuples(tokens: &Vec<Token>) -> (r: Result<String, DirectiveError>)
    requires
        parse_view(tokens.deep_view()) matches Ok(d) ==> d.end < usize::MAX as int,
    ensures
        match r {
            Ok(s) => parse_view(tokens.deep_view()) matches Ok(d) && s@ == render_view(
                d.template_name,
                emissions_view(d, Mode::Plain),
            ),
            Err(e) => parse_view(tokens.deep_view()) == Err::<DirectiveView, DirectiveError>(e),
        },
{
    match parse_directive(tokens) {
        Err(e) => Err(e),
        Ok(req) => {
            let out = expand(&req, Mode::Plain);
            Ok(render_invocations(&req.template_name, &out))
        },
    }
}

/// Parses a directive and renders its enumerated output: every slot is
/// grouped with its zero-based position as the first element.
pub fn all_tuples_enumerated(tokens: &Vec<Token>) -> (r: Result<String, DirectiveError>)
    requires
        parse_view(tokens.deep_view()) matches Ok(d) ==> d.end < usize::MAX as int,
    ensures
        match r {
            Ok(s) => parse_view(tokens.deep_view()) matches Ok(d) && s@ == render_view(
                d.template_name,
                emissions_view(d, Mode::Enumerated),
            ),
            Err(e) => parse_view(tokens.deep_view()) == Err::<DirectiveView, DirectiveError>(e),
        },
{
    match parse_directive(tokens) {
        Err(e) => Err(e),
        Ok(req) => {
            let out = expand(&req, Mode::Enumerated);
            Ok(render_invocations(&req.template_name, &out))
        },
    }
}

/// Parses a directive and renders its size-carrying output: every call
/// leads with the literal arity as its first argument.
pub fn all_tuples_with_size(tokens: &Vec<Token>) -> (r: Result<String, DirectiveError>)
    requires
        parse_view(tokens.deep_view()) matches Ok(d) ==> d.end < usize::MAX as int,
    ensures
        match r {
            Ok(s) => parse_view(tokens.deep_view()) matches Ok(d) && s@ == render_view(
                d.template_name,
                emissions_view(d, Mode::WithSize),
            ),
            Err(e) => parse_view(tokens.deep_view()) == Err::<DirectiveView, DirectiveError>(e),
        },
{
    match parse_directive(tokens) {
        Err(e) => Err(e),
        Ok(req) => {
            let out = expand(&req, Mode::WithSize);
            Ok(render_invocations(&req.template_name, &out))
        },
    }
}

} // verus!
