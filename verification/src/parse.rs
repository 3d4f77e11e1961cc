//! The executable parser for extended structure definitions.
//!
//! Every function here is proved to return exactly what the corresponding
//! spec function of [`crate::grammar`] yields on the token images — the
//! parsed definition on success, and on failure the position of the first
//! token at which the grammar's scan fails: the grammar module is the
//! contract, this module is the computation.

use vstd::prelude::*;

use crate::grammar::angle_end;
use crate::grammar::attrs_end;
use crate::grammar::expr_scan;
use crate::grammar::ident_at;
use crate::grammar::is_grp;
use crate::grammar::is_kw;
use crate::grammar::is_p;
use crate::grammar::is_pj;
use crate::grammar::lw_end;
use crate::grammar::merge_where;
use crate::grammar::parse_body;
use crate::grammar::parse_def;
use crate::grammar::parse_field;
use crate::grammar::parse_fields;
use crate::grammar::parse_tuple_body;
use crate::grammar::tuple_tail;
use crate::grammar::type_end;
use crate::grammar::vis_end;
use crate::grammar::where_end;
use crate::grammar::DefS;
use crate::grammar::EMode;
use crate::grammar::FieldS;
use crate::grammar::ShapeS;
use crate::tokens::deep_seq;
use crate::tokens::dup_tok;
use crate::tokens::Delim;
use crate::tokens::Tok;
use crate::tokens::TokS;
use vstd::string::StringExecFns;

verus! {

broadcast use crate::tokens::lemma_deep_seq_len, crate::tokens::lemma_deep_seq_index, vstd::std_specs::vec::group_vec_axioms;

/// A syntax error: a message, the offending token's position in the
/// input sequence, and, when the offence lies inside the field-list
/// group, the position within that group's body.
#[derive(Debug)]
pub struct ParseError {
    /// What was expected or found.
    pub msg: String,
    /// Index of the first offending token in the input sequence; for an
    /// error inside the field list, the index of the group holding it.
    pub at: usize,
    /// Index of the first offending token within the field-list group's
    /// body, when the offence lies there.
    pub inner: Option<usize>,
}

/// The image of an error position.
pub open spec fn opt_pos(o: Option<usize>) -> Option<int> {
    match o {
        Some(k) => Some(k as int),
        None => None,
    }
}

/// A parsed field, carrying its component token runs verbatim.
pub struct ParsedField {
    /// The field's outer attributes.
    pub attrs: Vec<Tok>,
    /// The field's visibility modifier.
    pub vis: Vec<Tok>,
    /// The field's name, for named fields.
    pub name: Option<String>,
    /// The field's type.
    pub ty: Vec<Tok>,
    /// The field's default expression, when one was given.
    pub dflt: Option<Vec<Tok>>,
}

impl ParsedField {
    /// The mathematical image of this field.
    pub open spec fn deep(self) -> FieldS {
        FieldS {
            attrs: deep_seq(self.attrs@),
            vis: deep_seq(self.vis@),
            name: match self.name {
                Some(n) => Some(n@),
                None => None,
            },
            ty: deep_seq(self.ty@),
            dflt: match self.dflt {
                Some(e) => Some(deep_seq(e@)),
                None => None,
            },
        }
    }
}

/// The image of an optional token run.
pub open spec fn opt_deep(w: Option<Vec<Tok>>) -> Option<Seq<TokS>> {
    match w {
        Some(p) => Some(deep_seq(p@)),
        None => None,
    }
}

/// The images of a field sequence, element by element.
pub open spec fn fields_deep(fs: Seq<ParsedField>) -> Seq<FieldS> {
    Seq::new(fs.len(), |i: int| fs[i].deep())
}

/// The three shapes of a field list; the flag records a trailing comma.
pub enum FieldShape {
    /// Braced fields with names.
    Named(Vec<ParsedField>, bool),
    /// Parenthesized positional fields.
    Unnamed(Vec<ParsedField>, bool),
    /// No field list at all.
    Unit,
}

impl FieldShape {
    /// The mathematical image of this shape.
    pub open spec fn deep(self) -> ShapeS {
        match self {
            FieldShape::Named(fs, tr) => ShapeS::Named(fields_deep(fs@), tr),
            FieldShape::Unnamed(fs, tr) => ShapeS::Unnamed(fields_deep(fs@), tr),
            FieldShape::Unit => ShapeS::Unit,
        }
    }
}

/// A parsed definition, carrying its component token runs verbatim.
pub struct ParsedDef {
    /// The definition's outer attributes.
    pub attrs: Vec<Tok>,
    /// The definition's visibility modifier.
    pub vis: Vec<Tok>,
    /// The structure's name.
    pub name: String,
    /// The generic-parameter run `< ... >`, brackets included; empty when
    /// absent.
    pub generics: Vec<Tok>,
    /// The where-clause predicates, without the `where` keyword.
    pub wher: Option<Vec<Tok>>,
    /// The field list.
    pub shape: FieldShape,
}

impl ParsedDef {
    /// The mathematical image of this definition.
    pub open spec fn deep(self) -> DefS {
        DefS {
            attrs: deep_seq(self.attrs@),
            vis: deep_seq(self.vis@),
            name: self.name@,
            generics: deep_seq(self.generics@),
            wher: opt_deep(self.wher),
            shape: self.shape.deep(),
        }
    }
}

/// Is `t` the punctuation character `c`?
pub fn tok_is_p(t: &Tok, c: char) -> (b: bool)
    ensures
        b == is_p(t.deep(), c),
{
    match t {
        Tok::Punct(c2, _) => *c2 == c,
        _ => false,
    }
}

/// Is `t` the punctuation character `c`, glued to what follows?
fn tok_is_pj(t: &Tok, c: char) -> (b: bool)
    ensures
        b == is_pj(t.deep(), c),
{
    match t {
        Tok::Punct(c2, j) => *c2 == c && *j,
        _ => false,
    }
}

/// Is `t` the identifier or keyword `w`?
pub fn tok_is_kw(t: &Tok, w: &str) -> (b: bool)
    ensures
        b == is_kw(t.deep(), w@),
{
    match t {
        Tok::Ident(s) => {
            let ws = String::from_str(w);
            *s == ws
        },
        _ => false,
    }
}

/// Is `t` a group with delimiter `d`?
fn tok_is_grp(t: &Tok, d: Delim) -> (b: bool)
    ensures
        b == is_grp(t.deep(), d),
{
    match t {
        Tok::Group(d2, _) => *d2 == d,
        _ => false,
    }
}

/// Does the `>` at position `i` close an `->` arrow?
pub fn arrow_gt_x(s: &Vec<Tok>, i: usize) -> (b: bool)
    requires
        i < s@.len(),
    ensures
        b == crate::grammar::arrow_gt(deep_seq(s@), i as int),
{
    i > 0 && tok_is_p(&s[i], '>') && tok_is_pj(&s[i - 1], '-')
}

/// End of the attribute run starting at `i`.
fn attrs_end_x(s: &Vec<Tok>, i: usize) -> (r: usize)
    requires
        i <= s@.len(),
    ensures
        r as int == attrs_end(deep_seq(s@), i as int),
        i <= r <= s@.len(),
    decreases s@.len() - i,
{
    if i < s.len() && i + 1 < s.len() && tok_is_p(&s[i], '#') && tok_is_grp(
        &s[i + 1],
        Delim::Bracket,
    ) {
        attrs_end_x(s, i + 2)
    } else {
        i
    }
}

/// End of the visibility modifier starting at `i`.
fn vis_end_x(s: &Vec<Tok>, i: usize) -> (r: usize)
    requires
        i <= s@.len(),
    ensures
        r as int == vis_end(deep_seq(s@), i as int),
        i <= r <= s@.len(),
{
    if i < s.len() && tok_is_kw(&s[i], "pub") {
        if i + 1 < s.len() && tok_is_grp(&s[i + 1], Delim::Paren) {
            i + 2
        } else {
            i + 1
        }
    } else {
        i
    }
}

/// Position just past the `>` closing an angle-bracket run.
fn angle_end_x(s: &Vec<Tok>, i: usize, depth: usize) -> (r: Option<usize>)
    requires
        i <= s@.len(),
        depth <= i,
    ensures
        match r {
            Some(k) => angle_end(deep_seq(s@), i as int, depth as nat) == Some(k as int) && i <= k
                <= s@.len(),
            None => angle_end(deep_seq(s@), i as int, depth as nat) is None,
        },
    decreases s@.len() - i,
{
    if depth == 0 {
        Some(i)
    } else if i >= s.len() {
        None
    } else if tok_is_p(&s[i], '<') {
        angle_end_x(s, i + 1, depth + 1)
    } else if tok_is_p(&s[i], '>') && !arrow_gt_x(s, i) {
        angle_end_x(s, i + 1, depth - 1)
    } else {
        angle_end_x(s, i + 1, depth)
    }
}

/// Extent of a type starting at `i`.
fn type_end_x(s: &Vec<Tok>, i: usize, depth: usize) -> (r: Option<usize>)
    requires
        i <= s@.len(),
        depth <= i,
    ensures
        match r {
            Some(k) => type_end(deep_seq(s@), i as int, depth as nat) == Some(k as int) && i <= k
                <= s@.len(),
            None => type_end(deep_seq(s@), i as int, depth as nat) is None,
        },
    decreases s@.len() - i,
{
    if i >= s.len() {
        if depth == 0 {
            Some(i)
        } else {
            None
        }
    } else if depth == 0 && (tok_is_p(&s[i], ',') || tok_is_p(&s[i], '=')) {
        Some(i)
    } else if tok_is_p(&s[i], '<') {
        type_end_x(s, i + 1, depth + 1)
    } else if tok_is_p(&s[i], '>') && !arrow_gt_x(s, i) {
        if depth == 0 {
            None
        } else {
            type_end_x(s, i + 1, depth - 1)
        }
    } else {
        type_end_x(s, i + 1, depth)
    }
}

/// Extent of a trailing where-clause's predicates starting at `i`.
fn where_end_x(s: &Vec<Tok>, i: usize) -> (r: usize)
    requires
        i <= s@.len(),
    ensures
        r as int == where_end(deep_seq(s@), i as int),
        i <= r <= s@.len(),
    decreases s@.len() - i,
{
    if i >= s.len() {
        i
    } else if tok_is_p(&s[i], ';') {
        i
    } else {
        where_end_x(s, i + 1)
    }
}

/// Does the tail of a parenthesized field list start at `j`?
fn tuple_tail_x(s: &Vec<Tok>, j: usize) -> (b: bool)
    requires
        j <= s@.len(),
    ensures
        b == tuple_tail(deep_seq(s@), j as int),
{
    if j < s.len() && tok_is_p(&s[j], ';') && j + 1 == s.len() {
        true
    } else if j < s.len() && tok_is_kw(&s[j], "where") {
        let w = where_end_x(s, j + 1);
        w < s.len() && tok_is_p(&s[w], ';') && w + 1 == s.len()
    } else {
        false
    }
}

/// Extent of a leading where-clause's predicates starting at `i`.
fn lw_end_x(s: &Vec<Tok>, i: usize) -> (r: usize)
    requires
        i <= s@.len(),
    ensures
        r as int == lw_end(deep_seq(s@), i as int),
        i <= r <= s@.len(),
    decreases s@.len() - i,
{
    if i >= s.len() {
        i
    } else if tok_is_p(&s[i], ';') {
        i
    } else if tok_is_grp(&s[i], Delim::Brace) {
        i
    } else if tok_is_grp(&s[i], Delim::Paren) && tuple_tail_x(s, i + 1) {
        i
    } else {
        lw_end_x(s, i + 1)
    }
}

/// Is the token at `i` an identifier?
fn ident_at_x(s: &Vec<Tok>, i: usize) -> (b: bool)
    requires
        i <= s@.len(),
    ensures
        b == ident_at(deep_seq(s@), i as int),
{
    i < s.len() && match &s[i] {
        Tok::Ident(_) => true,
        _ => false,
    }
}

/// Is the token at `i` an identifier or a literal?
fn ident_or_lit_at_x(s: &Vec<Tok>, i: usize) -> (b: bool)
    requires
        i <= s@.len(),
    ensures
        b == crate::grammar::ident_or_lit_at(deep_seq(s@), i as int),
{
    i < s.len() && match &s[i] {
        Tok::Ident(_) => true,
        Tok::Lit(_) => true,
        _ => false,
    }
}

/// Is the token at `i` a group?
fn group_at_x(s: &Vec<Tok>, i: usize) -> (b: bool)
    requires
        i <= s@.len(),
    ensures
        b == crate::grammar::group_at(deep_seq(s@), i as int),
{
    i < s.len() && match &s[i] {
        Tok::Group(_, _) => true,
        _ => false,
    }
}

/// Is there a two-character operator at position `i`?
fn op2_at_x(s: &Vec<Tok>, i: usize) -> (b: bool)
    requires
        i <= s@.len(),
    ensures
        b == crate::grammar::op2_at(deep_seq(s@), i as int),
{
    if i < s.len() && i + 1 < s.len() {
        match (&s[i], &s[i + 1]) {
            (Tok::Punct(c1, j1), Tok::Punct(c2, _)) => *j1 && ((*c1 == '=' && *c2 == '=') || (*c1
                == '!' && *c2 == '=') || (*c1 == '<' && *c2 == '=') || (*c1 == '>' && *c2 == '=')
                || (*c1 == '<' && *c2 == '<') || (*c1 == '>' && *c2 == '>') || (*c1 == '&' && *c2
                == '&') || (*c1 == '|' && *c2 == '|') || (*c1 == '.' && *c2 == '.')),
            _ => false,
        }
    } else {
        false
    }
}

/// Is there a one-character binary operator at position `i`?
fn op1_at_x(s: &Vec<Tok>, i: usize) -> (b: bool)
    requires
        i <= s@.len(),
    ensures
        b == crate::grammar::op1_at(deep_seq(s@), i as int),
{
    i < s.len() && match &s[i] {
        Tok::Punct(c, _) => *c == '+' || *c == '-' || *c == '*' || *c == '/' || *c == '%' || *c
            == '^' || *c == '&' || *c == '|' || *c == '<' || *c == '>',
        _ => false,
    }
}

/// Extent of one expression starting at `i`, in any state but
/// [`EMode::After`], which [`expr_after_x`] handles.
#[verifier::rlimit(100)]
#[verifier::spinoff_prover]
fn expr_scan_x(s: &Vec<Tok>, i: usize, m: EMode, depth: usize) -> (r: Option<usize>)
    requires
        i <= s@.len(),
        depth <= i,
        !(m is After),
    ensures
        match r {
            Some(k) => expr_scan(deep_seq(s@), i as int, m, depth as nat) == Some(k as int) && i
                <= k <= s@.len(),
            None => expr_scan(deep_seq(s@), i as int, m, depth as nat) is None,
        },
    decreases s@.len() - i, crate::grammar::mode_rank(m),
{
    match m {
        EMode::Unit => {
            if i >= s.len() {
                None
            } else {
                match &s[i] {
                    Tok::Punct(c, _) => {
                        if *c == '-' || *c == '!' || *c == '&' || *c == '*' {
                            expr_scan_x(s, i + 1, EMode::Unit, 0)
                        } else if *c == '|' {
                            expr_scan_x(s, i + 1, EMode::Lambda, 0)
                        } else {
                            None
                        }
                    },
                    Tok::Ident(_) => {
                        if tok_is_kw(&s[i], "if") || tok_is_kw(&s[i], "match") {
                            expr_scan_x(s, i + 1, EMode::Cond, 0)
                        } else if tok_is_kw(&s[i], "loop") || tok_is_kw(&s[i], "unsafe")
                            || tok_is_kw(&s[i], "move") {
                            expr_scan_x(s, i + 1, EMode::Unit, 0)
                        } else {
                            expr_after_x(s, i + 1)
                        }
                    },
                    _ => expr_after_x(s, i + 1),
                }
            }
        },
        EMode::Lambda => {
            if i >= s.len() {
                None
            } else if tok_is_p(&s[i], '|') {
                expr_scan_x(s, i + 1, EMode::Unit, 0)
            } else {
                expr_scan_x(s, i + 1, EMode::Lambda, 0)
            }
        },
        EMode::Cond => {
            if i >= s.len() {
                None
            } else if tok_is_grp(&s[i], Delim::Brace) {
                expr_after_x(s, i + 1)
            } else {
                expr_scan_x(s, i + 1, EMode::Cond, 0)
            }
        },
        EMode::Fish => {
            if i >= s.len() {
                None
            } else if tok_is_p(&s[i], '<') {
                expr_scan_x(s, i + 1, EMode::Fish, depth + 1)
            } else if tok_is_p(&s[i], '>') && !arrow_gt_x(s, i) {
                if depth <= 1 {
                    expr_after_x(s, i + 1)
                } else {
                    expr_scan_x(s, i + 1, EMode::Fish, depth - 1)
                }
            } else {
                expr_scan_x(s, i + 1, EMode::Fish, depth)
            }
        },
        EMode::Cast => {
            if i >= s.len() {
                None
            } else {
                match &s[i] {
                    Tok::Punct(c, _) => {
                        if *c == '&' || *c == '*' {
                            expr_scan_x(s, i + 1, EMode::Cast, 0)
                        } else if *c == '\'' {
                            expr_scan_x(s, i + 1, EMode::CastLife, 0)
                        } else {
                            None
                        }
                    },
                    Tok::Ident(_) => {
                        if tok_is_kw(&s[i], "const") || tok_is_kw(&s[i], "mut") || tok_is_kw(
                            &s[i],
                            "dyn",
                        ) {
                            expr_scan_x(s, i + 1, EMode::Cast, 0)
                        } else {
                            expr_scan_x(s, i + 1, EMode::CastPath, 0)
                        }
                    },
                    Tok::Group(_, _) => expr_after_x(s, i + 1),
                    Tok::Lit(_) => None,
                }
            }
        },
        EMode::CastLife => {
            if i >= s.len() {
                None
            } else if ident_at_x(s, i) {
                expr_scan_x(s, i + 1, EMode::Cast, 0)
            } else {
                None
            }
        },
        EMode::CastPath => {
            if i >= s.len() {
                Some(s.len())
            } else if tok_is_pj(&s[i], ':') && i + 1 < s.len() && tok_is_p(&s[i + 1], ':') && i + 2
                < s.len() && ident_at_x(s, i + 2) {
                expr_scan_x(s, i + 3, EMode::CastPath, 0)
            } else if tok_is_p(&s[i], '<') {
                expr_scan_x(s, i + 1, EMode::CastAngle, 1)
            } else {
                expr_after_x(s, i)
            }
        },
        EMode::CastAngle => {
            if i >= s.len() {
                None
            } else if tok_is_p(&s[i], '<') {
                expr_scan_x(s, i + 1, EMode::CastAngle, depth + 1)
            } else if tok_is_p(&s[i], '>') && !arrow_gt_x(s, i) {
                if depth <= 1 {
                    expr_scan_x(s, i + 1, EMode::CastPath, 0)
                } else {
                    expr_scan_x(s, i + 1, EMode::CastAngle, depth - 1)
                }
            } else {
                expr_scan_x(s, i + 1, EMode::CastAngle, depth)
            }
        },
        EMode::After => {
            // never reached: the scan enters this state through
            // `expr_after_x` alone
            None
        },
    }
}

/// Extent of one expression starting at `i` when an operand is already
/// complete: postfixes, operators, casts, `else` chains, or the end.
#[verifier::rlimit(50)]
fn expr_after_x(s: &Vec<Tok>, i: usize) -> (r: Option<usize>)
    requires
        i <= s@.len(),
    ensures
        match r {
            Some(k) => expr_scan(deep_seq(s@), i as int, EMode::After, 0) == Some(k as int) && i
                <= k <= s@.len(),
            None => expr_scan(deep_seq(s@), i as int, EMode::After, 0) is None,
        },
    decreases s@.len() - i, 0nat,
{
    if i >= s.len() {
        Some(s.len())
    } else if tok_is_p(&s[i], '.') && !op2_at_x(s, i) && ident_or_lit_at_x(s, i + 1) {
        expr_after_x(s, i + 2)
    } else if tok_is_p(&s[i], '?') {
        expr_after_x(s, i + 1)
    } else if group_at_x(s, i) {
        expr_after_x(s, i + 1)
    } else if tok_is_p(&s[i], '!') && !op2_at_x(s, i) && group_at_x(s, i + 1) {
        expr_after_x(s, i + 2)
    } else if tok_is_pj(&s[i], ':') && i + 1 < s.len() && tok_is_p(&s[i + 1], ':') {
        if i + 2 < s.len() && ident_at_x(s, i + 2) {
            expr_after_x(s, i + 3)
        } else if i + 2 < s.len() && tok_is_p(&s[i + 2], '<') {
            expr_scan_x(s, i + 3, EMode::Fish, 1)
        } else {
            None
        }
    } else if tok_is_kw(&s[i], "as") {
        expr_scan_x(s, i + 1, EMode::Cast, 0)
    } else if tok_is_kw(&s[i], "else") {
        if i + 1 < s.len() && tok_is_grp(&s[i + 1], Delim::Brace) {
            expr_after_x(s, i + 2)
        } else if i + 1 < s.len() && tok_is_kw(&s[i + 1], "if") {
            expr_scan_x(s, i + 2, EMode::Cond, 0)
        } else {
            Some(i)
        }
    } else if op2_at_x(s, i) {
        if tok_is_pj(&s[i], '.') && tok_is_pj(&s[i + 1], '.') && i + 2 < s.len()
            && tok_is_p(&s[i + 2], '=') {
            expr_scan_x(s, i + 3, EMode::Unit, 0)
        } else {
            expr_scan_x(s, i + 2, EMode::Unit, 0)
        }
    } else if op1_at_x(s, i) {
        expr_scan_x(s, i + 1, EMode::Unit, 0)
    } else {
        Some(i)
    }
}

/// A verbatim copy of the tokens from `i` (inclusive) to `j` (exclusive).
#[verifier::loop_isolation(false)]
pub fn copy_range(s: &Vec<Tok>, i: usize, j: usize) -> (r: Vec<Tok>)
    requires
        i <= j <= s@.len(),
    ensures
        deep_seq(r@) == deep_seq(s@).subrange(i as int, j as int),
{
    let mut out: Vec<Tok> = Vec::new();
    let mut k: usize = i;
    while k < j
        invariant
            i <= k <= j,
            out@.len() == k - i,
            forall|m: int| 0 <= m < out@.len() ==> #[trigger] out@[m].deep() == s@[i + m].deep(),
        decreases j - k,
    {
        let c = dup_tok(&s[k]);
        out.push(c);
        k = k + 1;
    }
    proof {
        assert(deep_seq(out@) =~= deep_seq(s@).subrange(i as int, j as int));
    }
    out
}

/// An error at position `at` of the current nesting level.
fn err_at(at: usize, m: &str) -> (r: (usize, String))
    ensures
        r.0 == at,
{
    (at, String::from_str(m))
}

/// One field, parsed from position `i` exactly as
/// [`crate::grammar::parse_field`] describes, the error position
/// included.
fn parse_field_x(s: &Vec<Tok>, i: usize, named: bool) -> (r: Result<
    (ParsedField, usize),
    (usize, String),
>)
    requires
        i <= s@.len(),
    ensures
        (r matches Ok((f, j)) ==> parse_field(deep_seq(s@), i as int, named) == Ok::<
            (FieldS, int),
            int,
        >((f.deep(), j as int)) && i < j <= s@.len()),
        (r matches Err(e) ==> parse_field(deep_seq(s@), i as int, named) == Err::<
            (FieldS, int),
            int,
        >(e.0 as int)),
{
    let a = attrs_end_x(s, i);
    let v = vis_end_x(s, a);
    let (t0, name): (usize, Option<String>) = if named {
        if v < s.len() && v + 1 < s.len() && tok_is_p(&s[v + 1], ':') {
            match &s[v] {
                Tok::Ident(n) => (v + 2, Some(n.clone())),
                _ => {
                    return Err(err_at(v, "expected a field name"));
                },
            }
        } else {
            return Err(err_at(v, "expected a field name followed by `:`"));
        }
    } else {
        (v, None)
    };
    match type_end_x(s, t0, 0) {
        None => Err(err_at(t0, "unbalanced angle brackets in a field type")),
        Some(t1) => {
            if t1 == t0 {
                return Err(err_at(t0, "expected a field type"));
            }
            let attrs = copy_range(s, i, a);
            let vis = copy_range(s, a, v);
            let ty = copy_range(s, t0, t1);
            if t1 < s.len() && tok_is_p(&s[t1], '=') {
                match expr_scan_x(s, t1 + 1, EMode::Unit, 0) {
                    None => Err(err_at(t1 + 1, "expected an expression after `=`")),
                    Some(e) => {
                        let dflt = copy_range(s, t1 + 1, e);
                        let f = ParsedField { attrs, vis, name, ty, dflt: Some(dflt) };
                        proof {
                            assert(parse_field(deep_seq(s@), i as int, named) == Ok::<
                                (FieldS, int),
                                int,
                            >((f.deep(), e as int)));
                        }
                        Ok((f, e))
                    },
                }
            } else {
                let f = ParsedField { attrs, vis, name, ty, dflt: None };
                proof {
                    assert(parse_field(deep_seq(s@), i as int, named) == Ok::<(FieldS, int), int>(
                        (f.deep(), t1 as int),
                    ));
                }
                Ok((f, t1))
            }
        },
    }
}

/// A whole comma-separated field list from `i` on, exactly as
/// [`crate::grammar::parse_fields`] describes, the error position
/// included.
fn parse_fields_x(s: &Vec<Tok>, i: usize, named: bool) -> (r: Result<
    (Vec<ParsedField>, bool),
    (usize, String),
>)
    requires
        i <= s@.len(),
    ensures
        (r matches Ok((fs, tr)) ==> parse_fields(deep_seq(s@), i as int, named) == Ok::<
            (Seq<FieldS>, bool),
            int,
        >((fields_deep(fs@), tr))),
        (r matches Err(e) ==> parse_fields(deep_seq(s@), i as int, named) == Err::<
            (Seq<FieldS>, bool),
            int,
        >(e.0 as int)),
    decreases s@.len() - i,
{
    if i == s.len() {
        let fs: Vec<ParsedField> = Vec::new();
        proof {
            assert(fields_deep(fs@) =~= Seq::<FieldS>::empty());
        }
        return Ok((fs, false));
    }
    match parse_field_x(s, i, named) {
        Err(e) => Err(e),
        Ok((f, j)) => {
            if j == s.len() {
                let ghost fd = f.deep();
                let mut fs: Vec<ParsedField> = Vec::new();
                fs.push(f);
                proof {
                    assert(fields_deep(fs@) =~= seq![fd]);
                }
                Ok((fs, false))
            } else if tok_is_p(&s[j], ',') {
                if j + 1 == s.len() {
                    let ghost fd = f.deep();
                    let mut fs: Vec<ParsedField> = Vec::new();
                    fs.push(f);
                    proof {
                        assert(fields_deep(fs@) =~= seq![fd]);
                    }
                    Ok((fs, true))
                } else {
                    match parse_fields_x(s, j + 1, named) {
                        Err(e) => Err(e),
                        Ok((mut fs, tr)) => {
                            let ghost fd = f.deep();
                            let ghost rest = fields_deep(fs@);
                            fs.insert(0, f);
                            proof {
                                assert(fields_deep(fs@) =~= seq![fd] + rest);
                            }
                            Ok((fs, tr))
                        },
                    }
                }
            } else {
                Err(err_at(j, "expected `,` or the end of the field list"))
            }
        },
    }
}

/// The merge of a leading and a trailing where-clause into one predicate
/// run, as [`crate::grammar::merge_where`] describes.
fn merge_where_x(w1: Option<Vec<Tok>>, w2: Vec<Tok>) -> (r: Vec<Tok>)
    ensures
        merge_where(opt_deep(w1), Some(deep_seq(w2@))) == Some(deep_seq(r@)),
{
    match w1 {
        None => w2,
        Some(mut p1) => {
            let ghost p1d = deep_seq(p1@);
            let n = p1.len();
            if n > 0 && !tok_is_p(&p1[n - 1], ',') {
                p1.push(Tok::Punct(',', false));
                proof {
                    assert(p1d.last() == p1d[n - 1]);
                    assert(deep_seq(p1@) =~= p1d + seq![TokS::Punct(',', false)]);
                }
            } else {
                proof {
                    if n > 0 {
                        assert(p1d.last() == p1d[n - 1]);
                    }
                }
            }
            let mut w2m = w2;
            let ghost w2d = deep_seq(w2m@);
            let ghost p1x = deep_seq(p1@);
            p1.append(&mut w2m);
            proof {
                assert(deep_seq(p1@) =~= p1x + w2d);
            }
            p1
        },
    }
}

/// One whole extended definition, exactly as
/// [`crate::grammar::parse_def`] describes: on success the parsed
/// definition; on failure a syntax error whose message names what was
/// expected and whose position is the first token at which the grammar's
/// scan fails.
pub fn parse_definition(s: &Vec<Tok>) -> (r: Result<ParsedDef, ParseError>)
    ensures
        (r matches Ok(d) ==> parse_def(deep_seq(s@)) == Ok::<DefS, (int, Option<int>)>(d.deep())),
        (r matches Err(e) ==> parse_def(deep_seq(s@)) == Err::<DefS, (int, Option<int>)>(
            (e.at as int, opt_pos(e.inner)),
        )),
{
    let a = attrs_end_x(s, 0);
    let v = vis_end_x(s, a);
    if !(v < s.len() && v + 1 < s.len() && tok_is_kw(&s[v], "struct") && ident_at_x(s, v + 1)) {
        return Err(
            ParseError {
                msg: String::from_str("expected `struct` followed by a name"),
                at: v,
                inner: None,
            },
        );
    }
    let name: String = match &s[v + 1] {
        Tok::Ident(n) => n.clone(),
        _ => {
            return Err(
                ParseError { msg: String::from_str("expected a name"), at: v, inner: None },
            );
        },
    };
    let g0 = v + 2;
    let (generics, b): (Vec<Tok>, usize) = if g0 < s.len() && tok_is_p(&s[g0], '<') {
        match angle_end_x(s, g0 + 1, 1) {
            None => {
                return Err(
                    ParseError {
                        msg: String::from_str("unclosed generic-parameter list"),
                        at: g0,
                        inner: None,
                    },
                );
            },
            Some(g1) => (copy_range(s, g0, g1), g1),
        }
    } else {
        (Vec::new(), g0)
    };
    proof {
        assert(deep_seq(Seq::<Tok>::empty()) =~= Seq::<TokS>::empty());
    }
    let attrs = copy_range(s, 0, a);
    let vis = copy_range(s, a, v);
    parse_body_x(s, a, v, attrs, vis, name, generics, b)
}

/// The body of a definition from position `b` on, exactly as
/// [`crate::grammar::parse_body`] describes, the error position
/// included.
fn parse_body_x(
    s: &Vec<Tok>,
    a: usize,
    v: usize,
    attrs: Vec<Tok>,
    vis: Vec<Tok>,
    name: String,
    generics: Vec<Tok>,
    b: usize,
) -> (r: Result<ParsedDef, ParseError>)
    requires
        a <= v <= b <= s@.len(),
        deep_seq(attrs@) == deep_seq(s@).subrange(0, a as int),
        deep_seq(vis@) == deep_seq(s@).subrange(a as int, v as int),
    ensures
        (r matches Ok(d) ==> parse_body(
            deep_seq(s@),
            a as int,
            v as int,
            name@,
            deep_seq(generics@),
            b as int,
        ) == Ok::<DefS, (int, Option<int>)>(d.deep())),
        (r matches Err(e) ==> parse_body(
            deep_seq(s@),
            a as int,
            v as int,
            name@,
            deep_seq(generics@),
            b as int,
        ) == Err::<DefS, (int, Option<int>)>((e.at as int, opt_pos(e.inner)))),
{
    if b < s.len() && tok_is_kw(&s[b], "where") {
        let w = lw_end_x(s, b + 1);
        if w < s.len() && tok_is_grp(&s[w], Delim::Brace) {
            if w + 1 != s.len() {
                return Err(
                    ParseError {
                        msg: String::from_str("unexpected token after the struct body"),
                        at: w + 1,
                        inner: None,
                    },
                );
            }
            let wher = copy_range(s, b + 1, w);
            match &s[w] {
                Tok::Group(_, body) => {
                    match parse_fields_x(body, 0, true) {
                        Err((at, msg)) => Err(ParseError { msg, at: w, inner: Some(at) }),
                        Ok((fs, tr)) => Ok(
                            ParsedDef {
                                attrs,
                                vis,
                                name,
                                generics,
                                wher: Some(wher),
                                shape: FieldShape::Named(fs, tr),
                            },
                        ),
                    }
                },
                _ => Err(
                    ParseError {
                        msg: String::from_str("expected a struct body"),
                        at: w,
                        inner: None,
                    },
                ),
            }
        } else if w < s.len() && tok_is_p(&s[w], ';') {
            if w + 1 != s.len() {
                return Err(
                    ParseError {
                        msg: String::from_str("unexpected token after `;`"),
                        at: w + 1,
                        inner: None,
                    },
                );
            }
            Ok(
                ParsedDef {
                    attrs,
                    vis,
                    name,
                    generics,
                    wher: Some(copy_range(s, b + 1, w)),
                    shape: FieldShape::Unit,
                },
            )
        } else if w < s.len() && tok_is_grp(&s[w], Delim::Paren) {
            let wher = copy_range(s, b + 1, w);
            parse_tuple_body_x(s, a, v, attrs, vis, name, generics, Some(wher), w)
        } else {
            Err(
                ParseError {
                    msg: String::from_str("expected a struct body or `;` after the where-clause"),
                    at: w,
                    inner: None,
                },
            )
        }
    } else if b < s.len() && tok_is_grp(&s[b], Delim::Brace) {
        if b + 1 != s.len() {
            return Err(
                ParseError {
                    msg: String::from_str("unexpected token after the struct body"),
                    at: b + 1,
                    inner: None,
                },
            );
        }
        match &s[b] {
            Tok::Group(_, body) => {
                match parse_fields_x(body, 0, true) {
                    Err((at, msg)) => Err(ParseError { msg, at: b, inner: Some(at) }),
                    Ok((fs, tr)) => Ok(
                        ParsedDef {
                            attrs,
                            vis,
                            name,
                            generics,
                            wher: None,
                            shape: FieldShape::Named(fs, tr),
                        },
                    ),
                }
            },
            _ => Err(
                ParseError { msg: String::from_str("expected a struct body"), at: b, inner: None },
            ),
        }
    } else if b < s.len() && tok_is_grp(&s[b], Delim::Paren) {
        parse_tuple_body_x(s, a, v, attrs, vis, name, generics, None, b)
    } else if b < s.len() && tok_is_p(&s[b], ';') {
        if b + 1 != s.len() {
            return Err(
                ParseError {
                    msg: String::from_str("unexpected token after `;`"),
                    at: b + 1,
                    inner: None,
                },
            );
        }
        Ok(ParsedDef { attrs, vis, name, generics, wher: None, shape: FieldShape::Unit })
    } else {
        Err(
            ParseError {
                msg: String::from_str("expected a where-clause, a struct body, or `;`"),
                at: b,
                inner: None,
            },
        )
    }
}

/// The tail of a parenthesized field list at `q`, exactly as
/// [`crate::grammar::parse_tuple_body`] describes, the error position
/// included.
fn parse_tuple_body_x(
    s: &Vec<Tok>,
    a: usize,
    v: usize,
    attrs: Vec<Tok>,
    vis: Vec<Tok>,
    name: String,
    generics: Vec<Tok>,
    lead: Option<Vec<Tok>>,
    q: usize,
) -> (r: Result<ParsedDef, ParseError>)
    requires
        q < s@.len(),
        is_grp(deep_seq(s@)[q as int], Delim::Paren),
        deep_seq(attrs@) == deep_seq(s@).subrange(0, a as int),
        deep_seq(vis@) == deep_seq(s@).subrange(a as int, v as int),
    ensures
        (r matches Ok(d) ==> parse_tuple_body(
            deep_seq(s@),
            a as int,
            v as int,
            name@,
            deep_seq(generics@),
            opt_deep(lead),
            q as int,
        ) == Ok::<DefS, (int, Option<int>)>(d.deep())),
        (r matches Err(e) ==> parse_tuple_body(
            deep_seq(s@),
            a as int,
            v as int,
            name@,
            deep_seq(generics@),
            opt_deep(lead),
            q as int,
        ) == Err::<DefS, (int, Option<int>)>((e.at as int, opt_pos(e.inner)))),
{
    let n = s.len();
    proof {
        assert(q < n);
    }
    let (fs, tr): (Vec<ParsedField>, bool) = match &s[q] {
        Tok::Group(_, body) => {
            match parse_fields_x(body, 0, false) {
                Err((at, msg)) => {
                    return Err(ParseError { msg, at: q, inner: Some(at) });
                },
                Ok(p) => p,
            }
        },
        _ => {
            return Err(
                ParseError { msg: String::from_str("expected a struct body"), at: q, inner: None },
            );
        },
    };
    if q + 1 < s.len() && tok_is_kw(&s[q + 1], "where") {
        let w = where_end_x(s, q + 2);
        if w < s.len() && tok_is_p(&s[w], ';') {
            if w + 1 == s.len() {
                let trail = copy_range(s, q + 2, w);
                let wher = merge_where_x(lead, trail);
                Ok(
                    ParsedDef {
                        attrs,
                        vis,
                        name,
                        generics,
                        wher: Some(wher),
                        shape: FieldShape::Unnamed(fs, tr),
                    },
                )
            } else {
                Err(
                    ParseError {
                        msg: String::from_str("unexpected token after `;`"),
                        at: w + 1,
                        inner: None,
                    },
                )
            }
        } else {
            Err(
                ParseError {
                    msg: String::from_str("expected `;` after the where-clause"),
                    at: w,
                    inner: None,
                },
            )
        }
    } else if q + 1 < s.len() && tok_is_p(&s[q + 1], ';') {
        if q + 2 == s.len() {
            Ok(
                ParsedDef {
                    attrs,
                    vis,
                    name,
                    generics,
                    wher: lead,
                    shape: FieldShape::Unnamed(fs, tr),
                },
            )
        } else {
            Err(
                ParseError {
                    msg: String::from_str("unexpected token after `;`"),
                    at: q + 2,
                    inner: None,
                },
            )
        }
    } else {
        Err(
            ParseError {
                msg: String::from_str("expected `;` after the parenthesized fields"),
                at: q + 1,
                inner: None,
            },
        )
    }
}

} // verus!
