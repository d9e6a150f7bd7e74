//! The directive parser: decodes one generation request from a token
//! sequence, or rejects it.
//!
//! The grammar, in order: an optional single annotation marker (only the
//! documentation-collapse marker `doc(fake_variadic)` is recognized); the
//! template identifier; a comma; the inclusive range start; a comma; the
//! inclusive range end; a comma; one or more identifiers separated by
//! commas.  A collapse marker with a range start above one is rejected:
//! collapsed documentation needs the arity-one case to attach to.

use vstd::prelude::*;
use vstd::string::*;

use crate::text::dec_rep;
use crate::text::dec_val;
use crate::text::parse_count;
use crate::text::valid_count;
use crate::text::append_dec;

verus! {

/// One input token of a directive, as plain values.
#[derive(Debug, PartialEq, Eq)]
pub enum Token {
    /// An annotation marker `#[path(arg)]`; `arg` is the argument when it
    /// is a single identifier, and absent otherwise.
    Marker { path: String, arg: Option<String> },
    /// An identifier.
    Ident(String),
    /// A non-negative integer literal, as its decimal digits.
    Integer(String),
    /// A comma separator.
    Comma,
}

/// The mathematical value of a [`Token`].
#[verifier::ext_equal]
pub enum TokenView {
    Marker { path: Seq<char>, arg: Option<Seq<char>> },
    Ident(Seq<char>),
    Integer(Seq<char>),
    Comma,
}

impl View for Token {
    type V = TokenView;

    open spec fn view(&self) -> TokenView {
        match self {
            Token::Marker { path, arg } => TokenView::Marker {
                path: path@,
                arg: arg.deep_view(),
            },
            Token::Ident(s) => TokenView::Ident(s@),
            Token::Integer(s) => TokenView::Integer(s@),
            Token::Comma => TokenView::Comma,
        }
    }
}

impl DeepView for Token {
    type V = TokenView;

    open spec fn deep_view(&self) -> TokenView {
        self.view()
    }
}

/// One parsed generation request.
#[derive(Debug, PartialEq, Eq)]
pub struct GenerationRequest {
    /// Whether the emissions carry documentation-collapsing annotations.
    pub collapse_display: bool,
    /// The template invoked once per arity.
    pub template_name: String,
    /// The inclusive lower end of the arity range.
    pub start: usize,
    /// The inclusive upper end of the arity range.
    pub end: usize,
    /// One name prefix per parameter position of a slot.
    pub slot_prefixes: Vec<String>,
}

/// The mathematical value of a [`GenerationRequest`].
#[verifier::ext_equal]
pub struct DirectiveView {
    pub collapse_display: bool,
    pub template_name: Seq<char>,
    pub start: int,
    pub end: int,
    pub slot_prefixes: Seq<Seq<char>>,
}

impl View for GenerationRequest {
    type V = DirectiveView;

    open spec fn view(&self) -> DirectiveView {
        DirectiveView {
            collapse_display: self.collapse_display,
            template_name: self.template_name@,
            start: self.start as int,
            end: self.end as int,
            slot_prefixes: self.slot_prefixes.deep_view(),
        }
    }
}

impl DeepView for GenerationRequest {
    type V = DirectiveView;

    open spec fn deep_view(&self) -> DirectiveView {
        self.view()
    }
}

impl DirectiveView {
    /// What holds of every directive the parser accepts.
    pub open spec fn wf(self) -> bool {
        &&& 0 <= self.start <= usize::MAX as int
        &&& 0 <= self.end <= usize::MAX as int
        &&& self.slot_prefixes.len() >= 1
        &&& (self.collapse_display ==> self.start <= 1)
    }
}

/// Why a directive was rejected.
#[derive(Clone, Copy, Debug, PartialEq, Eq, Structural)]
pub enum DirectiveError {
    /// The tokens do not match the directive grammar.
    MalformedDirective,
    /// The collapse marker is present but the range start is above one.
    InvalidCollapseRange,
    /// A single annotation other than the collapse marker.
    UnrecognizedAnnotation,
    /// More than one annotation, with the count seen.
    TooManyAnnotations(usize),
}

impl DirectiveError {
    /// The explanatory message for this error.
    pub open spec fn message_view(self) -> Seq<char> {
        match self {
            DirectiveError::MalformedDirective => "expected `template, start, end, ident [, ident]*`"@,
            DirectiveError::InvalidCollapseRange => "#[doc(fake_variadic)] only works when the tuple with length one is included"@,
            DirectiveError::UnrecognizedAnnotation => "Unexpected attribute"@,
            DirectiveError::TooManyAnnotations(n) => "Expected exactly one attribute, got "@
                + dec_rep(n as nat),
        }
    }

    /// Renders the explanatory message.
    pub fn message(&self) -> (r: String)
        ensures
            r@ == self.message_view(),
    {
        match self {
            DirectiveError::MalformedDirective => "expected `template, start, end, ident [, ident]*`".to_owned(),
            DirectiveError::InvalidCollapseRange => "#[doc(fake_variadic)] only works when the tuple with length one is included".to_owned(),
            DirectiveError::UnrecognizedAnnotation => "Unexpected attribute".to_owned(),
            DirectiveError::TooManyAnnotations(n) => {
                let mut s = "Expected exactly one attribute, got ".to_owned();
                append_dec(&mut s, *n);
                s
            },
        }
    }
}

/// How many annotation markers stand at the head of the tokens.
pub open spec fn leading_marker_count(toks: Seq<TokenView>) -> nat
    decreases toks.len(),
{
    if toks.len() > 0 && (toks[0] is Marker) {
        1 + leading_marker_count(toks.drop_first())
    } else {
        0
    }
}

/// Reads the optional leading annotation: no marker, the recognized
/// collapse marker, or an error.
pub open spec fn marker_flag(toks: Seq<TokenView>) -> Result<bool, DirectiveError> {
    let n = leading_marker_count(toks);
    if n == 0 {
        Ok(false)
    } else if n >= 2 {
        Err(DirectiveError::TooManyAnnotations(n as usize))
    } else {
        match toks[0] {
            TokenView::Marker { path, arg } => {
                if path == "doc"@ {
                    match arg {
                        Some(a) => if a == "fake_variadic"@ {
                            Ok(true)
                        } else {
                            Err(DirectiveError::UnrecognizedAnnotation)
                        },
                        None => Err(DirectiveError::MalformedDirective),
                    }
                } else {
                    Err(DirectiveError::UnrecognizedAnnotation)
                }
            },
            _ => Err(DirectiveError::MalformedDirective),
        }
    }
}

/// Reads the identifiers that follow the first prefix: a possibly empty
/// repetition of a comma and an identifier, reaching the end exactly.
pub open spec fn ident_list(toks: Seq<TokenView>) -> Result<Seq<Seq<char>>, DirectiveError>
    decreases toks.len(),
{
    if toks.len() == 0 {
        Ok(Seq::empty())
    } else if toks.len() >= 2 {
        match (toks[0], toks[1]) {
            (TokenView::Comma, TokenView::Ident(nm)) => match ident_list(toks.skip(2)) {
                Ok(rest) => Ok(seq![nm] + rest),
                Err(e) => Err(e),
            },
            _ => Err(DirectiveError::MalformedDirective),
        }
    } else {
        Err(DirectiveError::MalformedDirective)
    }
}

/// Reads the body of a directive, after any annotation: the template
/// identifier, the range, and the prefixes, then applies the collapse
/// range gate.
pub open spec fn parse_request(toks: Seq<TokenView>, collapse: bool) -> Result<
    DirectiveView,
    DirectiveError,
> {
    if toks.len() < 7 {
        Err(DirectiveError::MalformedDirective)
    } else {
        match (toks[0], toks[1], toks[2], toks[3], toks[4], toks[5], toks[6]) {
            (
                TokenView::Ident(tname),
                TokenView::Comma,
                TokenView::Integer(sv),
                TokenView::Comma,
                TokenView::Integer(ev),
                TokenView::Comma,
                TokenView::Ident(first),
            ) => {
                if !valid_count(sv) || !valid_count(ev) {
                    Err(DirectiveError::MalformedDirective)
                } else {
                    match ident_list(toks.skip(7)) {
                        Err(e) => Err(e),
                        Ok(more) => {
                            if collapse && dec_val(sv) > 1 {
                                Err(DirectiveError::InvalidCollapseRange)
                            } else {
                                Ok(
                                    DirectiveView {
                                        collapse_display: collapse,
                                        template_name: tname,
                                        start: dec_val(sv) as int,
                                        end: dec_val(ev) as int,
                                        slot_prefixes: seq![first] + more,
                                    },
                                )
                            }
                        },
                    }
                }
            },
            _ => Err(DirectiveError::MalformedDirective),
        }
    }
}

/// What a token sequence parses to: a directive, or the error reported.
pub open spec fn parse_view(toks: Seq<TokenView>) -> Result<DirectiveView, DirectiveError> {
    match marker_flag(toks) {
        Err(e) => Err(e),
        Ok(collapse) => parse_request(toks.skip(leading_marker_count(toks) as int), collapse),
    }
}

/// The views of a sequence of strings.
pub open spec fn string_views(s: Seq<String>) -> Seq<Seq<char>> {
    Seq::new(s.len(), |i: int| s[i]@)
}

/// Pushing a string onto a sequence pushes its view onto the views.
pub proof fn lemma_string_views_push(s: Seq<String>, x: String)
    ensures
        string_views(s.push(x)) =~= string_views(s).push(x@),
{
}

/// Whether this token is an annotation marker.
fn is_marker(t: &Token) -> (r: bool)
    ensures
        r == (t@ is Marker),
{
    match t {
        Token::Marker { .. } => true,
        _ => false,
    }
}

/// Parses one directive from its tokens, exactly as [`parse_view`] reads
/// them.
pub fn parse_directive(tokens: &Vec<Token>) -> (r: Result<GenerationRequest, DirectiveError>)
    ensures
        match r {
            Ok(g) => parse_view(tokens.deep_view()) == Ok::<DirectiveView, DirectiveError>(g@)
                && g@.wf(),
            Err(e) => parse_view(tokens.deep_view()) == Err::<DirectiveView, DirectiveError>(e),
        },
{
    let ghost toks = tokens.deep_view();
    let n = tokens.len();
    proof {
        assert(toks.len() == n);
        assert(toks.skip(0) =~= toks);
    }
    // Count the annotation markers at the head.
    let mut i: usize = 0;
    loop
        invariant
            i <= n,
            n == tokens.len(),
            toks == tokens.deep_view(),
            toks.len() == n,
            leading_marker_count(toks) == i + leading_marker_count(toks.skip(i as int)),
        ensures
            i <= n,
            leading_marker_count(toks) == i,
        decreases n - i,
    {
        if i >= n {
            proof {
                assert(toks.skip(i as int).len() == 0);
            }
            break ;
        }
        if !is_marker(&tokens[i]) {
            proof {
                assert(toks.skip(i as int)[0] == toks[i as int]);
            }
            break ;
        }
        proof {
            assert(toks.skip(i as int)[0] == toks[i as int]);
            assert(toks.skip(i as int).drop_first() =~= toks.skip(i as int + 1));
        }
        i += 1;
    }
    // Classify the annotation.
    let collapse: bool;
    if i == 0 {
        collapse = false;
    } else if i >= 2 {
        return Err(DirectiveError::TooManyAnnotations(i));
    } else {
        match &tokens[0] {
            Token::Marker { path, arg } => {
                let doc = "doc".to_owned();
                if *path == doc {
                    match arg {
                        Some(a) => {
                            let fake = "fake_variadic".to_owned();
                            if *a == fake {
                                collapse = true;
                            } else {
                                return Err(DirectiveError::UnrecognizedAnnotation);
                            }
                        },
                        None => {
                            return Err(DirectiveError::MalformedDirective);
                        },
                    }
                } else {
                    return Err(DirectiveError::UnrecognizedAnnotation);
                }
            },
            _ => {
                proof {
                    assert(toks[0] is Marker);
                }
                return Err(DirectiveError::MalformedDirective);
            },
        }
    }
    assert(marker_flag(toks) == Ok::<bool, DirectiveError>(collapse));
    let ghost body = toks.skip(i as int);
    proof {
        assert(parse_view(toks) == parse_request(body, collapse));
        assert(forall|k: int| 0 <= k < body.len() ==> body[k] == toks[i + k]);
    }
    // The fixed head of the body: template, range, first prefix.
    if n - i < 7 {
        return Err(DirectiveError::MalformedDirective);
    }
    let template_name = match &tokens[i] {
        Token::Ident(s) => s.clone(),
        _ => {
            return Err(DirectiveError::MalformedDirective);
        },
    };
    match &tokens[i + 1] {
        Token::Comma => {},
        _ => {
            return Err(DirectiveError::MalformedDirective);
        },
    }
    let sv = match &tokens[i + 2] {
        Token::Integer(s) => s,
        _ => {
            return Err(DirectiveError::MalformedDirective);
        },
    };
    match &tokens[i + 3] {
        Token::Comma => {},
        _ => {
            return Err(DirectiveError::MalformedDirective);
        },
    }
    let ev = match &tokens[i + 4] {
        Token::Integer(s) => s,
        _ => {
            return Err(DirectiveError::MalformedDirective);
        },
    };
    match &tokens[i + 5] {
        Token::Comma => {},
        _ => {
            return Err(DirectiveError::MalformedDirective);
        },
    }
    let first = match &tokens[i + 6] {
        Token::Ident(s) => s.clone(),
        _ => {
            return Err(DirectiveError::MalformedDirective);
        },
    };
    let start = match parse_count(sv) {
        Some(v) => v,
        None => {
            return Err(DirectiveError::MalformedDirective);
        },
    };
    let end = match parse_count(ev) {
        Some(v) => v,
        None => {
            return Err(DirectiveError::MalformedDirective);
        },
    };
    // The remaining prefixes: a comma and an identifier, repeated.
    let mut slot_prefixes: Vec<String> = Vec::new();
    slot_prefixes.push(first);
    let ghost firstv = body[6]->Ident_0;
    let ghost tail0 = body.skip(7);
    let ghost mut built: Seq<Seq<char>> = Seq::empty();
    proof {
        assert(toks.skip(i as int + 7) =~= tail0);
        assert(string_views(slot_prefixes@) =~= seq![firstv] + built);
    }
    let mut j = i + 7;
    #[verifier::loop_isolation(false)]
    loop
        invariant
            i + 7 <= j <= n,
            string_views(slot_prefixes@) == seq![firstv] + built,
            ident_list(tail0) == match ident_list(toks.skip(j as int)) {
                Ok(r) => Ok::<Seq<Seq<char>>, DirectiveError>(built + r),
                Err(e) => Err::<Seq<Seq<char>>, DirectiveError>(e),
            },
        decreases n - j,
    {
        if j >= n {
            break ;
        }
        match &tokens[j] {
            Token::Comma => {},
            _ => {
                proof {
                    assert(toks.skip(j as int)[0] == toks[j as int]);
                    assert(ident_list(toks.skip(j as int)) == Err::<
                        Seq<Seq<char>>,
                        DirectiveError,
                    >(DirectiveError::MalformedDirective));
                }
                return Err(DirectiveError::MalformedDirective);
            },
        }
        if j + 1 >= n {
            proof {
                assert(toks.skip(j as int).len() == 1);
            }
            return Err(DirectiveError::MalformedDirective);
        }
        let nm = match &tokens[j + 1] {
            Token::Ident(s) => s.clone(),
            _ => {
                proof {
                    assert(toks.skip(j as int)[0] == toks[j as int]);
                    assert(toks.skip(j as int)[1] == toks[j as int + 1]);
                }
                return Err(DirectiveError::MalformedDirective);
            },
        };
        let ghost nmv = nm@;
        let ghost prev = slot_prefixes@;
        proof {
            assert(toks.skip(j as int)[0] == toks[j as int]);
            assert(toks.skip(j as int)[1] == toks[j as int + 1]);
            assert(toks[j as int + 1]->Ident_0 == nmv);
            assert(toks.skip(j as int).skip(2) =~= toks.skip(j as int + 2));
            assert(ident_list(toks.skip(j as int)) == match ident_list(toks.skip(j as int + 2)) {
                Ok(rest) => Ok::<Seq<Seq<char>>, DirectiveError>(seq![nmv] + rest),
                Err(e) => Err::<Seq<Seq<char>>, DirectiveError>(e),
            });
        }
        slot_prefixes.push(nm);
        proof {
            let prev_built = built;
            built = built.push(nmv);
            lemma_string_views_push(prev, nm);
            assert(string_views(slot_prefixes@) =~= seq![firstv] + built);
            match ident_list(toks.skip(j as int + 2)) {
                Ok(rest) => {
                    assert(prev_built + (seq![nmv] + rest) =~= built + rest);
                },
                Err(e) => {},
            }
        }
        j += 2;
    }
    proof {
        assert(toks.skip(n as int).len() == 0);
        assert(ident_list(toks.skip(n as int)) == Ok::<Seq<Seq<char>>, DirectiveError>(
            Seq::empty(),
        ));
        assert(built + Seq::<Seq<char>>::empty() =~= built);
        assert(ident_list(tail0) == Ok::<Seq<Seq<char>>, DirectiveError>(built));
    }
    // The collapse range gate.
    if collapse && start > 1 {
        return Err(DirectiveError::InvalidCollapseRange);
    }
    let result = GenerationRequest { collapse_display: collapse, template_name, start, end, slot_prefixes };
    proof {
        assert(result.slot_prefixes.deep_view() =~= string_views(result.slot_prefixes@));
        let spec_req = parse_request(body, collapse);
        assert(body[0] == toks[i as int]);
        assert(body[1] == toks[i as int + 1]);
        assert(body[2] == toks[i as int + 2]);
        assert(body[3] == toks[i as int + 3]);
        assert(body[4] == toks[i as int + 4]);
        assert(body[5] == toks[i as int + 5]);
        assert(body[6] == toks[i as int + 6]);
        assert(spec_req is Ok);
        assert(result@ =~= spec_req->Ok_0);
    }
    Ok(result)
}

} // verus!
