//! The extended structure-definition grammar, written as mathematical
//! functions over token images.
//!
//! These spec functions are the single definition of what the parser
//! accepts, what it yields, and where it reports a failure: the
//! executable parser is proved to return exactly what [`parse_def`]
//! returns, error position included.  The grammar is the standard
//! structure grammar — attributes, visibility, `struct`, a name, generic
//! parameters, a named, positional or unit field list, a where-clause
//! before a braced body or terminating `;` or on either side of a
//! parenthesized field list — extended with one optional `= expression`
//! suffix per field.
//!
//! Extent scanners work on the flat token sequence of one nesting level;
//! a delimited group is a single token, so `(`, `[`, `{` never need
//! matching here.  Only `<`/`>` pairs are tracked, since generic-argument
//! lists are not grouped; a `>` preceded by a glued `-` closes an `->`
//! arrow and is never counted as an angle bracket.
//!
//! A parse failure carries the position of the first token at which the
//! scan can no longer continue, at the nesting level where it stands.

use vstd::prelude::*;

use crate::tokens::Delim;
use crate::tokens::TokS;

verus! {

/// Is `t` the punctuation character `c` (glued or not)?
pub open spec fn is_p(t: TokS, c: char) -> bool {
    match t {
        TokS::Punct(c2, _) => c2 == c,
        _ => false,
    }
}

/// Is `t` the punctuation character `c`, glued to the next punctuation?
pub open spec fn is_pj(t: TokS, c: char) -> bool {
    match t {
        TokS::Punct(c2, j) => c2 == c && j,
        _ => false,
    }
}

/// Is `t` the identifier or keyword `w`?
pub open spec fn is_kw(t: TokS, w: Seq<char>) -> bool {
    match t {
        TokS::Ident(s) => s == w,
        _ => false,
    }
}

/// Is `t` a group with delimiter `d`?
pub open spec fn is_grp(t: TokS, d: Delim) -> bool {
    match t {
        TokS::Group(d2, _) => d2 == d,
        _ => false,
    }
}

/// The body of a group token; the empty sequence for any other token.
pub open spec fn grp_body(t: TokS) -> Seq<TokS> {
    match t {
        TokS::Group(_, ts) => ts,
        _ => Seq::empty(),
    }
}

/// The text of an identifier token; the empty text for any other token.
pub open spec fn ident_text(t: TokS) -> Seq<char> {
    match t {
        TokS::Ident(s) => s,
        _ => Seq::empty(),
    }
}

/// Does the `>` at position `i` close an `->` arrow rather than an
/// angle-bracket pair?
pub open spec fn arrow_gt(s: Seq<TokS>, i: int) -> bool {
    0 < i < s.len() && is_p(s[i], '>') && is_pj(s[i - 1], '-')
}

/// End of the run of outer attributes (`#[...]`, repeated) starting at `i`.
pub open spec fn attrs_end(s: Seq<TokS>, i: int) -> int
    decreases s.len() - i,
{
    if 0 <= i && i + 1 < s.len() && is_p(s[i], '#') && is_grp(s[i + 1], Delim::Bracket) {
        attrs_end(s, i + 2)
    } else {
        i
    }
}

/// End of the visibility modifier (`pub`, optionally `pub ( ... )`)
/// starting at `i`.
pub open spec fn vis_end(s: Seq<TokS>, i: int) -> int {
    if i < s.len() && is_kw(s[i], "pub"@) {
        if i + 1 < s.len() && is_grp(s[i + 1], Delim::Paren) {
            i + 2
        } else {
            i + 1
        }
    } else {
        i
    }
}

/// Position just past the `>` that closes an angle-bracket run, scanning
/// from `i` with `depth` brackets already open.
pub open spec fn angle_end(s: Seq<TokS>, i: int, depth: nat) -> Option<int>
    decreases s.len() - i,
{
    if depth == 0 {
        Some(i)
    } else if !(0 <= i < s.len()) {
        None
    } else if is_p(s[i], '<') {
        angle_end(s, i + 1, depth + 1)
    } else if is_p(s[i], '>') && !arrow_gt(s, i) {
        angle_end(s, i + 1, (depth - 1) as nat)
    } else {
        angle_end(s, i + 1, depth)
    }
}

/// Extent of a type starting at `i`: the position of the first `,` or `=`
/// outside angle brackets, or the end of the sequence.  `None` on
/// unbalanced angle brackets.
pub open spec fn type_end(s: Seq<TokS>, i: int, depth: nat) -> Option<int>
    decreases s.len() - i,
{
    if !(0 <= i < s.len()) {
        if depth == 0 {
            Some(s.len() as int)
        } else {
            None
        }
    } else if depth == 0 && (is_p(s[i], ',') || is_p(s[i], '=')) {
        Some(i)
    } else if is_p(s[i], '<') {
        type_end(s, i + 1, depth + 1)
    } else if is_p(s[i], '>') && !arrow_gt(s, i) {
        if depth == 0 {
            None
        } else {
            type_end(s, i + 1, (depth - 1) as nat)
        }
    } else {
        type_end(s, i + 1, depth)
    }
}

/// Extent of a trailing where-clause's predicates starting at `i`: the
/// position of the first `;`, or the end of the sequence.
pub open spec fn where_end(s: Seq<TokS>, i: int) -> int
    decreases s.len() - i,
{
    if !(0 <= i < s.len()) {
        s.len() as int
    } else if is_p(s[i], ';') {
        i
    } else {
        where_end(s, i + 1)
    }
}

/// From position `j`, does the rest of the sequence read like the tail
/// of a parenthesized field list: a terminating `;` at the end, or a
/// where-clause followed by a terminating `;` at the end?
pub open spec fn tuple_tail(s: Seq<TokS>, j: int) -> bool {
    (j < s.len() && is_p(s[j], ';') && j + 1 == s.len()) || (j < s.len() && is_kw(s[j], "where"@)
        && {
        let w = where_end(s, j + 1);
        w < s.len() && is_p(s[w], ';') && w + 1 == s.len()
    })
}

/// Extent of a leading where-clause's predicates starting at `i`: the
/// position of the first `;`, brace group, or paren group that a
/// parenthesized field list's tail follows, or the end of the sequence.
/// A paren group with any other tail — an `Fn(...)` bound's argument
/// list — stays part of the predicates.
pub open spec fn lw_end(s: Seq<TokS>, i: int) -> int
    decreases s.len() - i,
{
    if !(0 <= i < s.len()) {
        s.len() as int
    } else if is_p(s[i], ';') {
        i
    } else if is_grp(s[i], Delim::Brace) {
        i
    } else if is_grp(s[i], Delim::Paren) && tuple_tail(s, i + 1) {
        i
    } else {
        lw_end(s, i + 1)
    }
}

/// Is there a two-character operator (`==`, `!=`, `<=`, `>=`, `<<`, `>>`,
/// `&&`, `||`, `..`) at position `i`?
pub open spec fn op2_at(s: Seq<TokS>, i: int) -> bool {
    0 <= i && i + 1 < s.len() && match (s[i], s[i + 1]) {
        (TokS::Punct(c1, j1), TokS::Punct(c2, _)) => j1 && ((c1 == '=' && c2 == '=') || (c1 == '!'
            && c2 == '=') || (c1 == '<' && c2 == '=') || (c1 == '>' && c2 == '=') || (c1 == '<'
            && c2 == '<') || (c1 == '>' && c2 == '>') || (c1 == '&' && c2 == '&') || (c1 == '|'
            && c2 == '|') || (c1 == '.' && c2 == '.')),
        _ => false,
    }
}

/// Is there a one-character binary operator at position `i`?
pub open spec fn op1_at(s: Seq<TokS>, i: int) -> bool {
    0 <= i < s.len() && match s[i] {
        TokS::Punct(c, _) => c == '+' || c == '-' || c == '*' || c == '/' || c == '%' || c == '^'
            || c == '&' || c == '|' || c == '<' || c == '>',
        _ => false,
    }
}

/// Is the token at `i` an identifier or a literal?
pub open spec fn ident_or_lit_at(s: Seq<TokS>, i: int) -> bool {
    0 <= i < s.len() && match s[i] {
        TokS::Ident(_) => true,
        TokS::Lit(_) => true,
        _ => false,
    }
}

/// Is the token at `i` an identifier?
pub open spec fn ident_at(s: Seq<TokS>, i: int) -> bool {
    0 <= i < s.len() && match s[i] {
        TokS::Ident(_) => true,
        _ => false,
    }
}

/// Is the token at `i` a group?
pub open spec fn group_at(s: Seq<TokS>, i: int) -> bool {
    0 <= i < s.len() && match s[i] {
        TokS::Group(_, _) => true,
        _ => false,
    }
}

/// The states of the expression scan.
#[derive(Clone, Copy, Debug)]
pub enum EMode {
    /// An operand is expected.
    Unit,
    /// An operand is complete; a postfix, an operator, or the end may
    /// follow.
    After,
    /// Inside a turbofish argument list.
    Fish,
    /// Inside the head of an `if` or `match`, up to its brace group.
    Cond,
    /// Inside a closure's parameter head, up to the closing `|`.
    Lambda,
    /// Just after `as`: a cast type is expected.
    Cast,
    /// After a lifetime quote in a cast type.
    CastLife,
    /// Inside a cast type's path.
    CastPath,
    /// Inside a cast type's angle-bracket run.
    CastAngle,
}

/// Orders the scan states so that the one step that stays in place —
/// a finished cast type handing over to [`EMode::After`] — decreases.
pub open spec fn mode_rank(m: EMode) -> nat {
    match m {
        EMode::After => 0,
        _ => 1,
    }
}

/// Extent of one expression, by a lookahead-driven scan.
///
/// The scan accepts literals, identifier paths with `::` segments and
/// turbofish arguments, calls, macro invocations, indexing, field and
/// method access, `?`, delimited groups, struct literals, unary
/// `- ! & *`, the binary operators and ranges, `as` casts to a
/// path-shaped type, closures (`|...| body`, with `move`), and the
/// keyword-led forms `if`/`match` (head up to the brace group, `else`
/// chains included), `loop` and `unsafe` blocks.  The result is the
/// first position that cannot extend the expression — the caller decides
/// whether the token there is legal — or `None` when no operand is
/// found where one is required.
pub open spec fn expr_scan(s: Seq<TokS>, i: int, m: EMode, depth: nat) -> Option<int>
    decreases s.len() - i, mode_rank(m),
{
    match m {
        EMode::Unit => if !(0 <= i < s.len()) {
            None
        } else {
            match s[i] {
                TokS::Punct(c, _) => if c == '-' || c == '!' || c == '&' || c == '*' {
                    expr_scan(s, i + 1, EMode::Unit, 0)
                } else if c == '|' {
                    expr_scan(s, i + 1, EMode::Lambda, 0)
                } else {
                    None
                },
                TokS::Ident(w) => if w == "if"@ || w == "match"@ {
                    expr_scan(s, i + 1, EMode::Cond, 0)
                } else if w == "loop"@ || w == "unsafe"@ || w == "move"@ {
                    expr_scan(s, i + 1, EMode::Unit, 0)
                } else {
                    expr_scan(s, i + 1, EMode::After, 0)
                },
                _ => expr_scan(s, i + 1, EMode::After, 0),
            }
        },
        EMode::Lambda => if !(0 <= i < s.len()) {
            None
        } else if is_p(s[i], '|') {
            expr_scan(s, i + 1, EMode::Unit, 0)
        } else {
            expr_scan(s, i + 1, EMode::Lambda, 0)
        },
        EMode::Cond => if !(0 <= i < s.len()) {
            None
        } else if is_grp(s[i], Delim::Brace) {
            expr_scan(s, i + 1, EMode::After, 0)
        } else {
            expr_scan(s, i + 1, EMode::Cond, 0)
        },
        EMode::Fish => if !(0 <= i < s.len()) {
            None
        } else if is_p(s[i], '<') {
            expr_scan(s, i + 1, EMode::Fish, depth + 1)
        } else if is_p(s[i], '>') && !arrow_gt(s, i) {
            if depth <= 1 {
                expr_scan(s, i + 1, EMode::After, 0)
            } else {
                expr_scan(s, i + 1, EMode::Fish, (depth - 1) as nat)
            }
        } else {
            expr_scan(s, i + 1, EMode::Fish, depth)
        },
        EMode::Cast => if !(0 <= i < s.len()) {
            None
        } else {
            match s[i] {
                TokS::Punct(c, _) => if c == '&' || c == '*' {
                    expr_scan(s, i + 1, EMode::Cast, 0)
                } else if c == '\'' {
                    expr_scan(s, i + 1, EMode::CastLife, 0)
                } else {
                    None
                },
                TokS::Ident(w) => if w == "const"@ || w == "mut"@ || w == "dyn"@ {
                    expr_scan(s, i + 1, EMode::Cast, 0)
                } else {
                    expr_scan(s, i + 1, EMode::CastPath, 0)
                },
                TokS::Group(_, _) => expr_scan(s, i + 1, EMode::After, 0),
                TokS::Lit(_) => None,
            }
        },
        EMode::CastLife => if !(0 <= i < s.len()) {
            None
        } else if ident_at(s, i) {
            expr_scan(s, i + 1, EMode::Cast, 0)
        } else {
            None
        },
        EMode::CastPath => if !(0 <= i < s.len()) {
            Some(s.len() as int)
        } else if is_pj(s[i], ':') && i + 1 < s.len() && is_p(s[i + 1], ':') && i + 2 < s.len()
            && ident_at(s, i + 2) {
            expr_scan(s, i + 3, EMode::CastPath, 0)
        } else if is_p(s[i], '<') {
            expr_scan(s, i + 1, EMode::CastAngle, 1)
        } else {
            expr_scan(s, i, EMode::After, 0)
        },
        EMode::CastAngle => if !(0 <= i < s.len()) {
            None
        } else if is_p(s[i], '<') {
            expr_scan(s, i + 1, EMode::CastAngle, depth + 1)
        } else if is_p(s[i], '>') && !arrow_gt(s, i) {
            if depth <= 1 {
                expr_scan(s, i + 1, EMode::CastPath, 0)
            } else {
                expr_scan(s, i + 1, EMode::CastAngle, (depth - 1) as nat)
            }
        } else {
            expr_scan(s, i + 1, EMode::CastAngle, depth)
        },
        EMode::After => if !(0 <= i < s.len()) {
            Some(s.len() as int)
        } else if is_p(s[i], '.') && !op2_at(s, i) && ident_or_lit_at(s, i + 1) {
            expr_scan(s, i + 2, EMode::After, 0)
        } else if is_p(s[i], '?') {
            expr_scan(s, i + 1, EMode::After, 0)
        } else if group_at(s, i) {
            expr_scan(s, i + 1, EMode::After, 0)
        } else if is_p(s[i], '!') && !op2_at(s, i) && group_at(s, i + 1) {
            expr_scan(s, i + 2, EMode::After, 0)
        } else if is_pj(s[i], ':') && i + 1 < s.len() && is_p(s[i + 1], ':') {
            if i + 2 < s.len() && ident_at(s, i + 2) {
                expr_scan(s, i + 3, EMode::After, 0)
            } else if i + 2 < s.len() && is_p(s[i + 2], '<') {
                expr_scan(s, i + 3, EMode::Fish, 1)
            } else {
                None
            }
        } else if is_kw(s[i], "as"@) {
            expr_scan(s, i + 1, EMode::Cast, 0)
        } else if is_kw(s[i], "else"@) {
            if i + 1 < s.len() && is_grp(s[i + 1], Delim::Brace) {
                expr_scan(s, i + 2, EMode::After, 0)
            } else if i + 1 < s.len() && is_kw(s[i + 1], "if"@) {
                expr_scan(s, i + 2, EMode::Cond, 0)
            } else {
                Some(i)
            }
        } else if op2_at(s, i) {
            if is_pj(s[i], '.') && is_pj(s[i + 1], '.') && i + 2 < s.len() && is_p(s[i + 2], '=') {
                expr_scan(s, i + 3, EMode::Unit, 0)
            } else {
                expr_scan(s, i + 2, EMode::Unit, 0)
            }
        } else if op1_at(s, i) {
            expr_scan(s, i + 1, EMode::Unit, 0)
        } else {
            Some(i)
        },
    }
}

/// A parsed field: its attribute and visibility runs, its name for named
/// fields, its type, and its optional default expression, all as verbatim
/// token runs of the input.
pub struct FieldS {
    /// The field's outer attributes, verbatim.
    pub attrs: Seq<TokS>,
    /// The field's visibility modifier, verbatim.
    pub vis: Seq<TokS>,
    /// The field's name, for named fields.
    pub name: Option<Seq<char>>,
    /// The field's type, verbatim.
    pub ty: Seq<TokS>,
    /// The field's default expression, verbatim, when one was given.
    pub dflt: Option<Seq<TokS>>,
}

/// The three shapes a field list can take; the flag records a trailing
/// comma.
pub enum ShapeS {
    /// Braced fields with names.
    Named(Seq<FieldS>, bool),
    /// Parenthesized positional fields.
    Unnamed(Seq<FieldS>, bool),
    /// No field list at all.
    Unit,
}

/// A parsed definition: everything the synthesizer needs, as verbatim
/// token runs of the input plus the field structure.
pub struct DefS {
    /// The definition's outer attributes, verbatim.
    pub attrs: Seq<TokS>,
    /// The definition's visibility modifier, verbatim.
    pub vis: Seq<TokS>,
    /// The structure's name.
    pub name: Seq<char>,
    /// The generic-parameter run `< ... >`, brackets included; empty when
    /// absent.
    pub generics: Seq<TokS>,
    /// The where-clause predicates, without the `where` keyword; `None`
    /// when absent.
    pub wher: Option<Seq<TokS>>,
    /// The field list.
    pub shape: ShapeS,
}

/// At most one where-clause survives parsing: two clauses found on the
/// two sides of a parenthesized field list are merged into one predicate
/// run, a comma between them when the first does not already end in one.
pub open spec fn merge_where(w1: Option<Seq<TokS>>, w2: Option<Seq<TokS>>) -> Option<Seq<TokS>> {
    match (w1, w2) {
        (None, b) => b,
        (Some(p1), None) => Some(p1),
        (Some(p1), Some(p2)) => Some(
            if p1.len() > 0 && !is_p(p1.last(), ',') {
                p1 + seq![TokS::Punct(',', false)] + p2
            } else {
                p1 + p2
            },
        ),
    }
}

/// One field, parsed from position `i`: the standard field syntax first,
/// then, unless a `,` or the end of the list follows, a mandatory
/// `= expression` suffix.  Yields the field and the position after it,
/// or the position of the first offending token.
pub open spec fn parse_field(s: Seq<TokS>, i: int, named: bool) -> Result<(FieldS, int), int> {
    let a = attrs_end(s, i);
    let v = vis_end(s, a);
    if named {
        if v + 1 < s.len() && ident_at(s, v) && is_p(s[v + 1], ':') {
            parse_field_at(s, i, a, v, v + 2, Some(ident_text(s[v])))
        } else {
            Err(v)
        }
    } else {
        parse_field_at(s, i, a, v, v, None)
    }
}

/// The type-and-default tail of one field: `a` and `v` are the ends of the
/// attribute and visibility runs that started at `i`, the type starts at
/// `t0`.
pub open spec fn parse_field_at(
    s: Seq<TokS>,
    i: int,
    a: int,
    v: int,
    t0: int,
    name: Option<Seq<char>>,
) -> Result<(FieldS, int), int> {
    match type_end(s, t0, 0) {
        None => Err(t0),
        Some(t1) => if t1 == t0 {
            Err(t0)
        } else {
            let f = FieldS {
                attrs: s.subrange(i, a),
                vis: s.subrange(a, v),
                name: name,
                ty: s.subrange(t0, t1),
                dflt: None,
            };
            if t1 < s.len() && is_p(s[t1], '=') {
                match expr_scan(s, t1 + 1, EMode::Unit, 0) {
                    None => Err(t1 + 1),
                    Some(e) => Ok((FieldS { dflt: Some(s.subrange(t1 + 1, e)), ..f }, e)),
                }
            } else {
                Ok((f, t1))
            }
        },
    }
}

/// A comma-separated field list filling a whole group body from `i` on.
/// Yields the fields in declaration order and whether a trailing comma
/// stood at the end, or the position of the first offending token within
/// the group.
pub open spec fn parse_fields(s: Seq<TokS>, i: int, named: bool) -> Result<(Seq<FieldS>, bool), int>
    decreases s.len() - i,
    when 0 <= i <= s.len()
    via parse_fields_dec
{
    if i == s.len() {
        Ok((Seq::empty(), false))
    } else {
        match parse_field(s, i, named) {
            Err(e) => Err(e),
            Ok((f, j)) => if j == s.len() {
                Ok((seq![f], false))
            } else if is_p(s[j], ',') {
                if j + 1 == s.len() {
                    Ok((seq![f], true))
                } else {
                    match parse_fields(s, j + 1, named) {
                        Err(e) => Err(e),
                        Ok((fs, tr)) => Ok((seq![f] + fs, tr)),
                    }
                }
            } else {
                Err(j)
            },
        }
    }
}

/// A whole extended definition: attributes, visibility, `struct`, the
/// name, an optional generic-parameter run, then the body in one of the
/// three shapes.  The where-clause may stand before a braced body or a
/// terminating `;`, and on either side of a parenthesized field list.
/// Nothing may follow the definition.  A failure carries the first
/// offending token's position, paired with its position inside the
/// field-list group when the offence lies there.
pub open spec fn parse_def(s: Seq<TokS>) -> Result<DefS, (int, Option<int>)> {
    let a = attrs_end(s, 0);
    let v = vis_end(s, a);
    if v + 1 < s.len() && is_kw(s[v], "struct"@) && ident_at(s, v + 1) {
        let name = ident_text(s[v + 1]);
        let g0 = v + 2;
        if g0 < s.len() && is_p(s[g0], '<') {
            match angle_end(s, g0 + 1, 1) {
                None => Err((g0, None)),
                Some(g1) => parse_body(s, a, v, name, s.subrange(g0, g1), g1),
            }
        } else {
            parse_body(s, a, v, name, Seq::empty(), g0)
        }
    } else {
        Err((v, None))
    }
}

/// Does the definition place a where-clause before a parenthesized field
/// list?  That position is accepted, but the clause then moves to its
/// standard place after the field list in the emitted definition.
pub open spec fn leading_where_tuple(s: Seq<TokS>) -> bool {
    let a = attrs_end(s, 0);
    let v = vis_end(s, a);
    v + 1 < s.len() && is_kw(s[v], "struct"@) && ident_at(s, v + 1) && {
        let g0 = v + 2;
        let ob: Option<int> = if g0 < s.len() && is_p(s[g0], '<') {
            angle_end(s, g0 + 1, 1)
        } else {
            Some(g0)
        };
        match ob {
            None => false,
            Some(b) => b < s.len() && is_kw(s[b], "where"@) && {
                let w = lw_end(s, b + 1);
                w < s.len() && is_grp(s[w], Delim::Paren)
            },
        }
    }
}

/// The body of a definition, from position `b` on: an optional leading
/// where-clause, then braces, parentheses with an optional trailing
/// where-clause and a `;`, or a bare `;`.
pub open spec fn parse_body(
    s: Seq<TokS>,
    a: int,
    v: int,
    name: Seq<char>,
    generics: Seq<TokS>,
    b: int,
) -> Result<DefS, (int, Option<int>)> {
    if b < s.len() && is_kw(s[b], "where"@) {
        let w = lw_end(s, b + 1);
        if w < s.len() && is_grp(s[w], Delim::Brace) {
            if w + 1 == s.len() {
                match parse_fields(grp_body(s[w]), 0, true) {
                    Err(e) => Err((w, Some(e))),
                    Ok((fs, tr)) => Ok(
                        DefS {
                            attrs: s.subrange(0, a),
                            vis: s.subrange(a, v),
                            name: name,
                            generics: generics,
                            wher: Some(s.subrange(b + 1, w)),
                            shape: ShapeS::Named(fs, tr),
                        },
                    ),
                }
            } else {
                Err((w + 1, None))
            }
        } else if w < s.len() && is_p(s[w], ';') {
            if w + 1 == s.len() {
                Ok(
                    DefS {
                        attrs: s.subrange(0, a),
                        vis: s.subrange(a, v),
                        name: name,
                        generics: generics,
                        wher: Some(s.subrange(b + 1, w)),
                        shape: ShapeS::Unit,
                    },
                )
            } else {
                Err((w + 1, None))
            }
        } else if w < s.len() && is_grp(s[w], Delim::Paren) {
            parse_tuple_body(s, a, v, name, generics, Some(s.subrange(b + 1, w)), w)
        } else {
            Err((w, None))
        }
    } else if b < s.len() && is_grp(s[b], Delim::Brace) {
        if b + 1 == s.len() {
            match parse_fields(grp_body(s[b]), 0, true) {
                Err(e) => Err((b, Some(e))),
                Ok((fs, tr)) => Ok(
                    DefS {
                        attrs: s.subrange(0, a),
                        vis: s.subrange(a, v),
                        name: name,
                        generics: generics,
                        wher: None,
                        shape: ShapeS::Named(fs, tr),
                    },
                ),
            }
        } else {
            Err((b + 1, None))
        }
    } else if b < s.len() && is_grp(s[b], Delim::Paren) {
        parse_tuple_body(s, a, v, name, generics, None, b)
    } else if b < s.len() && is_p(s[b], ';') {
        if b + 1 == s.len() {
            Ok(
                DefS {
                    attrs: s.subrange(0, a),
                    vis: s.subrange(a, v),
                    name: name,
                    generics: generics,
                    wher: None,
                    shape: ShapeS::Unit,
                },
            )
        } else {
            Err((b + 1, None))
        }
    } else {
        Err((b, None))
    }
}

/// The tail of a parenthesized field list at position `q`: the fields,
/// an optional trailing where-clause, the terminating `;`, and nothing
/// after it.  `lead` is a where-clause found before the parentheses;
/// the two clauses merge into one.
pub open spec fn parse_tuple_body(
    s: Seq<TokS>,
    a: int,
    v: int,
    name: Seq<char>,
    generics: Seq<TokS>,
    lead: Option<Seq<TokS>>,
    q: int,
) -> Result<DefS, (int, Option<int>)> {
    match parse_fields(grp_body(s[q]), 0, false) {
        Err(e) => Err((q, Some(e))),
        Ok((fs, tr)) => if q + 1 < s.len() && is_kw(s[q + 1], "where"@) {
            let w = where_end(s, q + 2);
            if w < s.len() && is_p(s[w], ';') {
                if w + 1 == s.len() {
                    Ok(
                        DefS {
                            attrs: s.subrange(0, a),
                            vis: s.subrange(a, v),
                            name: name,
                            generics: generics,
                            wher: merge_where(lead, Some(s.subrange(q + 2, w))),
                            shape: ShapeS::Unnamed(fs, tr),
                        },
                    )
                } else {
                    Err((w + 1, None))
                }
            } else {
                Err((w, None))
            }
        } else if q + 1 < s.len() && is_p(s[q + 1], ';') {
            if q + 2 == s.len() {
                Ok(
                    DefS {
                        attrs: s.subrange(0, a),
                        vis: s.subrange(a, v),
                        name: name,
                        generics: generics,
                        wher: lead,
                        shape: ShapeS::Unnamed(fs, tr),
                    },
                )
            } else {
                Err((q + 2, None))
            }
        } else {
            Err((q + 1, None))
        },
    }
}

#[via_fn]
proof fn parse_fields_dec(s: Seq<TokS>, i: int, named: bool) {
    if 0 <= i < s.len() {
        if let Ok((f, j)) = parse_field(s, i, named) {
            lemma_parse_field_extent(s, i, named);
        }
    }
}

/// Attribute runs stay inside the sequence.
pub proof fn lemma_attrs_end_extent(s: Seq<TokS>, i: int)
    requires
        0 <= i <= s.len(),
    ensures
        i <= attrs_end(s, i) <= s.len(),
    decreases s.len() - i,
{
    if i + 1 < s.len() && is_p(s[i], '#') && is_grp(s[i + 1], Delim::Bracket) {
        lemma_attrs_end_extent(s, i + 2);
    }
}

/// Angle-bracket runs stay inside the sequence.
pub proof fn lemma_angle_end_extent(s: Seq<TokS>, i: int, depth: nat)
    requires
        0 <= i <= s.len(),
    ensures
        match angle_end(s, i, depth) {
            Some(k) => i <= k <= s.len(),
            None => true,
        },
    decreases s.len() - i,
{
    if depth > 0 && i < s.len() {
        if is_p(s[i], '<') {
            lemma_angle_end_extent(s, i + 1, depth + 1);
        } else if is_p(s[i], '>') && !arrow_gt(s, i) {
            lemma_angle_end_extent(s, i + 1, (depth - 1) as nat);
        } else {
            lemma_angle_end_extent(s, i + 1, depth);
        }
    }
}

/// Type extents stay inside the sequence.
pub proof fn lemma_type_end_extent(s: Seq<TokS>, i: int, depth: nat)
    requires
        0 <= i <= s.len(),
    ensures
        match type_end(s, i, depth) {
            Some(k) => i <= k <= s.len(),
            None => true,
        },
    decreases s.len() - i,
{
    if i < s.len() {
        if depth == 0 && (is_p(s[i], ',') || is_p(s[i], '=')) {
        } else if is_p(s[i], '<') {
            lemma_type_end_extent(s, i + 1, depth + 1);
        } else if is_p(s[i], '>') && !arrow_gt(s, i) {
            if depth > 0 {
                lemma_type_end_extent(s, i + 1, (depth - 1) as nat);
            }
        } else {
            lemma_type_end_extent(s, i + 1, depth);
        }
    }
}

/// Trailing where-clause extents stay inside the sequence.
pub proof fn lemma_where_end_extent(s: Seq<TokS>, i: int)
    requires
        0 <= i <= s.len(),
    ensures
        i <= where_end(s, i) <= s.len(),
    decreases s.len() - i,
{
    if i < s.len() && !is_p(s[i], ';') {
        lemma_where_end_extent(s, i + 1);
    }
}

/// Leading where-clause extents stay inside the sequence.
pub proof fn lemma_lw_end_extent(s: Seq<TokS>, i: int)
    requires
        0 <= i <= s.len(),
    ensures
        i <= lw_end(s, i) <= s.len(),
    decreases s.len() - i,
{
    if i < s.len() && !is_p(s[i], ';') && !is_grp(s[i], Delim::Brace) && !(is_grp(
        s[i],
        Delim::Paren,
    ) && tuple_tail(s, i + 1)) {
        lemma_lw_end_extent(s, i + 1);
    }
}

/// Expression extents stay inside the sequence.
pub proof fn lemma_expr_scan_extent(s: Seq<TokS>, i: int, m: EMode, depth: nat)
    requires
        0 <= i <= s.len(),
    ensures
        match expr_scan(s, i, m, depth) {
            Some(k) => i <= k <= s.len(),
            None => true,
        },
    decreases s.len() - i, mode_rank(m),
{
    if i < s.len() {
        match m {
            EMode::Unit => {
                lemma_expr_scan_extent(s, i + 1, EMode::Unit, 0);
                lemma_expr_scan_extent(s, i + 1, EMode::Lambda, 0);
                lemma_expr_scan_extent(s, i + 1, EMode::Cond, 0);
                lemma_expr_scan_extent(s, i + 1, EMode::After, 0);
            },
            EMode::Lambda => {
                lemma_expr_scan_extent(s, i + 1, EMode::Unit, 0);
                lemma_expr_scan_extent(s, i + 1, EMode::Lambda, 0);
            },
            EMode::Cond => {
                lemma_expr_scan_extent(s, i + 1, EMode::After, 0);
                lemma_expr_scan_extent(s, i + 1, EMode::Cond, 0);
            },
            EMode::Fish => {
                lemma_expr_scan_extent(s, i + 1, EMode::Fish, depth + 1);
                lemma_expr_scan_extent(s, i + 1, EMode::After, 0);
                if depth > 1 {
                    lemma_expr_scan_extent(s, i + 1, EMode::Fish, (depth - 1) as nat);
                }
                lemma_expr_scan_extent(s, i + 1, EMode::Fish, depth);
            },
            EMode::Cast => {
                lemma_expr_scan_extent(s, i + 1, EMode::Cast, 0);
                lemma_expr_scan_extent(s, i + 1, EMode::CastLife, 0);
                lemma_expr_scan_extent(s, i + 1, EMode::CastPath, 0);
                lemma_expr_scan_extent(s, i + 1, EMode::After, 0);
            },
            EMode::CastLife => {
                lemma_expr_scan_extent(s, i + 1, EMode::Cast, 0);
            },
            EMode::CastPath => {
                if is_pj(s[i], ':') && i + 1 < s.len() && is_p(s[i + 1], ':') && i + 2 < s.len()
                    && ident_at(s, i + 2) {
                    lemma_expr_scan_extent(s, i + 3, EMode::CastPath, 0);
                } else if is_p(s[i], '<') {
                    lemma_expr_scan_extent(s, i + 1, EMode::CastAngle, 1);
                } else {
                    lemma_expr_scan_extent(s, i, EMode::After, 0);
                }
            },
            EMode::CastAngle => {
                lemma_expr_scan_extent(s, i + 1, EMode::CastAngle, depth + 1);
                lemma_expr_scan_extent(s, i + 1, EMode::CastPath, 0);
                if depth > 1 {
                    lemma_expr_scan_extent(s, i + 1, EMode::CastAngle, (depth - 1) as nat);
                }
                lemma_expr_scan_extent(s, i + 1, EMode::CastAngle, depth);
            },
            EMode::After => {
                if is_p(s[i], '.') && !op2_at(s, i) && ident_or_lit_at(s, i + 1) {
                    lemma_expr_scan_extent(s, i + 2, EMode::After, 0);
                } else if is_p(s[i], '?') {
                    lemma_expr_scan_extent(s, i + 1, EMode::After, 0);
                } else if group_at(s, i) {
                    lemma_expr_scan_extent(s, i + 1, EMode::After, 0);
                } else if is_p(s[i], '!') && !op2_at(s, i) && group_at(s, i + 1) {
                    lemma_expr_scan_extent(s, i + 2, EMode::After, 0);
                } else if is_pj(s[i], ':') && i + 1 < s.len() && is_p(s[i + 1], ':') {
                    if i + 2 < s.len() && ident_at(s, i + 2) {
                        lemma_expr_scan_extent(s, i + 3, EMode::After, 0);
                    } else if i + 2 < s.len() && is_p(s[i + 2], '<') {
                        lemma_expr_scan_extent(s, i + 3, EMode::Fish, 1);
                    }
                } else if is_kw(s[i], "as"@) {
                    lemma_expr_scan_extent(s, i + 1, EMode::Cast, 0);
                } else if is_kw(s[i], "else"@) {
                    if i + 1 < s.len() && is_grp(s[i + 1], Delim::Brace) {
                        lemma_expr_scan_extent(s, i + 2, EMode::After, 0);
                    } else if i + 1 < s.len() && is_kw(s[i + 1], "if"@) {
                        lemma_expr_scan_extent(s, i + 2, EMode::Cond, 0);
                    }
                } else if op2_at(s, i) {
                    if is_pj(s[i], '.') && is_pj(s[i + 1], '.') && i + 2 < s.len() && is_p(
                        s[i + 2],
                        '=',
                    ) {
                        lemma_expr_scan_extent(s, i + 3, EMode::Unit, 0);
                    } else {
                        lemma_expr_scan_extent(s, i + 2, EMode::Unit, 0);
                    }
                } else if op1_at(s, i) {
                    lemma_expr_scan_extent(s, i + 1, EMode::Unit, 0);
                }
            },
        }
    } else {
        match m {
            EMode::CastPath => {
                lemma_expr_scan_extent(s, i, EMode::After, 0);
            },
            _ => {
            },
        }
    }
}

/// A parsed field ends inside the sequence and past its start.
pub proof fn lemma_parse_field_extent(s: Seq<TokS>, i: int, named: bool)
    requires
        0 <= i <= s.len(),
    ensures
        match parse_field(s, i, named) {
            Ok((f, j)) => i < j <= s.len(),
            Err(_) => true,
        },
{
    lemma_attrs_end_extent(s, i);
    let a = attrs_end(s, i);
    let v = vis_end(s, a);
    let t0 = if named {
        v + 2
    } else {
        v
    };
    if 0 <= t0 <= s.len() {
        lemma_type_end_extent(s, t0, 0);
        if let Some(t1) = type_end(s, t0, 0) {
            if t1 < s.len() && is_p(s[t1], '=') {
                lemma_expr_scan_extent(s, t1 + 1, EMode::Unit, 0);
            }
        }
    }
}

} // verus!
