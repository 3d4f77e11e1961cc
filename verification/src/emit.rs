//! The synthesizer: from a parsed definition to the two output token
//! sequences — the plain structure definition and the generated
//! default-construction implementation.
//!
//! The spec functions here state the output token for token; each
//! executable emitter is proved to produce exactly its spec image.

use vstd::prelude::*;

use crate::grammar::arrow_gt;
use crate::grammar::is_kw;
use crate::grammar::is_p;
use crate::grammar::DefS;
use crate::grammar::FieldS;
use crate::grammar::ShapeS;
use crate::parse::fields_deep;
use crate::parse::opt_deep;
use crate::parse::FieldShape;
use crate::parse::ParsedDef;
use crate::parse::ParsedField;
use crate::tokens::deep_seq;
use crate::tokens::dup_tok;
use crate::tokens::Delim;
use crate::tokens::Tok;
use crate::tokens::TokS;
use vstd::string::StringExecFns;

verus! {

broadcast use crate::tokens::lemma_deep_seq_len, crate::tokens::lemma_deep_seq_index;

/// An identifier or keyword token.
pub open spec fn kw(w: Seq<char>) -> TokS {
    TokS::Ident(w)
}

/// A punctuation token standing alone.
pub open spec fn pa(c: char) -> TokS {
    TokS::Punct(c, false)
}

/// A punctuation token glued to the next one.
pub open spec fn pg(c: char) -> TokS {
    TokS::Punct(c, true)
}

/// `where` followed by the predicates; nothing when there is no clause.
pub open spec fn where_tokens(w: Option<Seq<TokS>>) -> Seq<TokS> {
    match w {
        Some(p) => seq![kw("where"@)] + p,
        None => Seq::empty(),
    }
}

/// One field of the plain definition: the standard field syntax with the
/// default annotation removed.
pub open spec fn field_def_tokens(f: FieldS) -> Seq<TokS> {
    f.attrs + f.vis + (match f.name {
        Some(n) => seq![TokS::Ident(n), pa(':')],
        None => Seq::empty(),
    }) + f.ty
}

/// The plain definition's field list, comma-separated, with the trailing
/// comma kept as it stood in the input.
pub open spec fn fields_def_tokens(fs: Seq<FieldS>, tr: bool) -> Seq<TokS>
    decreases fs.len(),
{
    if fs.len() == 0 {
        Seq::empty()
    } else if fs.len() == 1 {
        field_def_tokens(fs[0]) + (if tr {
            seq![pa(',')]
        } else {
            Seq::empty()
        })
    } else {
        field_def_tokens(fs[0]) + seq![pa(',')] + fields_def_tokens(fs.drop_first(), tr)
    }
}

/// The plain structure definition: identical attributes, visibility,
/// name, generics and field shape, with every default annotation removed
/// and the where-clause in its standard position.
pub open spec fn struct_def_tokens(d: DefS) -> Seq<TokS> {
    d.attrs + d.vis + seq![kw("struct"@), TokS::Ident(d.name)] + d.generics + (match d.shape {
        ShapeS::Named(fs, tr) => where_tokens(d.wher) + seq![
            TokS::Group(Delim::Brace, fields_def_tokens(fs, tr)),
        ],
        ShapeS::Unnamed(fs, tr) => seq![TokS::Group(Delim::Paren, fields_def_tokens(fs, tr))]
            + where_tokens(d.wher) + seq![pa(';')],
        ShapeS::Unit => where_tokens(d.wher) + seq![pa(';')],
    })
}

/// The call to a type's generic empty/zero-value constructor:
/// `< ty as core::default::Default>::default()`.
pub open spec fn default_call_tokens(ty: Seq<TokS>) -> Seq<TokS> {
    seq![pa('<')] + ty + seq![
        kw("as"@),
        kw("core"@),
        pg(':'),
        pa(':'),
        kw("default"@),
        pg(':'),
        pa(':'),
        kw("Default"@),
        pa('>'),
        pg(':'),
        pa(':'),
        kw("default"@),
        TokS::Group(Delim::Paren, Seq::empty()),
    ]
}

/// The generated value for one field: the default expression verbatim
/// when one was given, the empty/zero-value call otherwise.
pub open spec fn ctor_value_tokens(f: FieldS) -> Seq<TokS> {
    match f.dflt {
        Some(e) => e,
        None => default_call_tokens(f.ty),
    }
}

/// One constructor entry: `name: value` for a named field, the bare value
/// for a positional one.
pub open spec fn ctor_entry_tokens(f: FieldS) -> Seq<TokS> {
    match f.name {
        Some(n) => seq![TokS::Ident(n), pa(':')] + ctor_value_tokens(f),
        None => ctor_value_tokens(f),
    }
}

/// The comma-separated constructor entries, in declaration order.
pub open spec fn ctor_entries_tokens(fs: Seq<FieldS>) -> Seq<TokS>
    decreases fs.len(),
{
    if fs.len() == 0 {
        Seq::empty()
    } else if fs.len() == 1 {
        ctor_entry_tokens(fs[0])
    } else {
        ctor_entry_tokens(fs[0]) + seq![pa(',')] + ctor_entries_tokens(fs.drop_first())
    }
}

/// The construction expression matching the shape: an initializer list,
/// a positional list, or the bare `Self`.
pub open spec fn ctor_body_tokens(shape: ShapeS) -> Seq<TokS> {
    match shape {
        ShapeS::Named(fs, tr) => seq![kw("Self"@), TokS::Group(Delim::Brace, ctor_entries_tokens(fs))],
        ShapeS::Unnamed(fs, tr) => seq![
            kw("Self"@),
            TokS::Group(Delim::Paren, ctor_entries_tokens(fs)),
        ],
        ShapeS::Unit => seq![kw("Self"@)],
    }
}

/// End of the generic parameter starting at `i`: the next top-level comma
/// or the end of the run.
pub open spec fn param_end(s: Seq<TokS>, i: int, depth: nat) -> int
    decreases s.len() - i,
{
    if !(0 <= i < s.len()) {
        s.len() as int
    } else if depth == 0 && is_p(s[i], ',') {
        i
    } else if is_p(s[i], '<') {
        param_end(s, i + 1, depth + 1)
    } else if is_p(s[i], '>') && !arrow_gt(s, i) {
        param_end(s, i + 1, if depth > 0 {
            (depth - 1) as nat
        } else {
            0
        })
    } else {
        param_end(s, i + 1, depth)
    }
}

/// First top-level `=` in `[i, e)` — where a parameter default begins —
/// or `e` when there is none.
pub open spec fn eq_end(s: Seq<TokS>, i: int, e: int, depth: nat) -> int
    decreases e - i,
{
    if !(0 <= i < e && i < s.len()) {
        e
    } else if depth == 0 && is_p(s[i], '=') {
        i
    } else if is_p(s[i], '<') {
        eq_end(s, i + 1, e, depth + 1)
    } else if is_p(s[i], '>') && !arrow_gt(s, i) {
        eq_end(s, i + 1, e, if depth > 0 {
            (depth - 1) as nat
        } else {
            0
        })
    } else {
        eq_end(s, i + 1, e, depth)
    }
}

/// Parameter extents stay inside the run.
pub proof fn lemma_param_end_extent(s: Seq<TokS>, i: int, depth: nat)
    requires
        0 <= i <= s.len(),
    ensures
        i <= param_end(s, i, depth) <= s.len(),
    decreases s.len() - i,
{
    if i < s.len() && !(depth == 0 && is_p(s[i], ',')) {
        if is_p(s[i], '<') {
            lemma_param_end_extent(s, i + 1, depth + 1);
        } else if is_p(s[i], '>') && !arrow_gt(s, i) {
            lemma_param_end_extent(
                s,
                i + 1,
                if depth > 0 {
                    (depth - 1) as nat
                } else {
                    0
                },
            );
        } else {
            lemma_param_end_extent(s, i + 1, depth);
        }
    }
}

/// The implementation header's parameter run: each parameter as written,
/// bounds kept, parameter defaults removed, comma-separated.
pub open spec fn impl_inner(s: Seq<TokS>, i: int) -> Seq<TokS>
    decreases s.len() - i,
    when 0 <= i <= s.len()
    via impl_inner_dec
{
    if i >= s.len() {
        Seq::empty()
    } else {
        let e = param_end(s, i, 0);
        let d = eq_end(s, i, e, 0);
        if e >= s.len() {
            s.subrange(i, d)
        } else {
            s.subrange(i, d) + seq![pa(',')] + impl_inner(s, e + 1)
        }
    }
}

#[via_fn]
proof fn impl_inner_dec(s: Seq<TokS>, i: int) {
    if 0 <= i < s.len() {
        lemma_param_end_extent(s, i, 0);
    }
}

/// One parameter reduced to what names it in a type reference: the
/// lifetime for a lifetime parameter, the bare identifier for a type or
/// const parameter.
pub open spec fn ty_param(p: Seq<TokS>) -> Seq<TokS> {
    if p.len() >= 2 && is_p(p[0], '\'') {
        p.subrange(0, 2)
    } else if p.len() >= 2 && is_kw(p[0], "const"@) {
        seq![p[1]]
    } else if p.len() >= 1 {
        seq![p[0]]
    } else {
        Seq::empty()
    }
}

/// The type reference's parameter run: each parameter reduced to its
/// name, comma-separated.
pub open spec fn ty_inner(s: Seq<TokS>, i: int) -> Seq<TokS>
    decreases s.len() - i,
    when 0 <= i <= s.len()
    via ty_inner_dec
{
    if i >= s.len() {
        Seq::empty()
    } else {
        let e = param_end(s, i, 0);
        if e >= s.len() {
            ty_param(s.subrange(i, e))
        } else {
            ty_param(s.subrange(i, e)) + seq![pa(',')] + ty_inner(s, e + 1)
        }
    }
}

#[via_fn]
proof fn ty_inner_dec(s: Seq<TokS>, i: int) {
    if 0 <= i < s.len() {
        lemma_param_end_extent(s, i, 0);
    }
}

/// The tokens between the angle brackets of a generic-parameter run;
/// empty when the run is absent or empty.
pub open spec fn generics_inner(g: Seq<TokS>) -> Seq<TokS> {
    if g.len() >= 2 {
        g.subrange(1, g.len() - 1)
    } else {
        Seq::empty()
    }
}

/// The generic parameters of the implementation header, angle brackets
/// included; nothing when the definition has no parameters.
pub open spec fn impl_generics_tokens(g: Seq<TokS>) -> Seq<TokS> {
    let inn = generics_inner(g);
    if inn.len() == 0 {
        Seq::empty()
    } else {
        seq![pa('<')] + impl_inner(inn, 0) + seq![pa('>')]
    }
}

/// The generic arguments of the implemented type reference, angle
/// brackets included; nothing when the definition has no parameters.
pub open spec fn ty_generics_tokens(g: Seq<TokS>) -> Seq<TokS> {
    let inn = generics_inner(g);
    if inn.len() == 0 {
        Seq::empty()
    } else {
        seq![pa('<')] + ty_inner(inn, 0) + seq![pa('>')]
    }
}

/// The generated `fn default() -> Self { ... }` item.
pub open spec fn fn_default_tokens(shape: ShapeS) -> Seq<TokS> {
    seq![
        kw("fn"@),
        kw("default"@),
        TokS::Group(Delim::Paren, Seq::empty()),
        pg('-'),
        pa('>'),
        kw("Self"@),
        TokS::Group(Delim::Brace, ctor_body_tokens(shape)),
    ]
}

/// The whole generated implementation:
/// `impl <params> core::default::Default for Name <args> <where> { fn default ... }`,
/// parameterized identically to the structure itself.
pub open spec fn impl_tokens(d: DefS) -> Seq<TokS> {
    seq![kw("impl"@)] + impl_generics_tokens(d.generics) + seq![
        kw("core"@),
        pg(':'),
        pa(':'),
        kw("default"@),
        pg(':'),
        pa(':'),
        kw("Default"@),
        kw("for"@),
        TokS::Ident(d.name),
    ] + ty_generics_tokens(d.generics) + where_tokens(d.wher) + seq![
        TokS::Group(Delim::Brace, fn_default_tokens(d.shape)),
    ]
}

/// The system's sole output: the plain definition, then the generated
/// implementation inside an anonymous `const` block.
pub open spec fn expansion_tokens(d: DefS) -> Seq<TokS> {
    struct_def_tokens(d) + seq![
        kw("const"@),
        kw("_"@),
        pa(':'),
        TokS::Group(Delim::Paren, Seq::empty()),
        pa('='),
        TokS::Group(Delim::Brace, impl_tokens(d)),
        pa(';'),
    ]
}

/// Push one token.
fn push_tok(out: &mut Vec<Tok>, t: Tok)
    ensures
        deep_seq(final(out)@) == deep_seq(old(out)@) + seq![t.deep()],
{
    out.push(t);
    proof {
        assert(deep_seq(out@) =~= deep_seq(old(out)@) + seq![t.deep()]);
    }
}

/// An identifier token for a fixed word.
fn kw_tok(w: &str) -> (t: Tok)
    ensures
        t.deep() == kw(w@),
{
    Tok::Ident(String::from_str(w))
}

/// A lone punctuation token.
fn pa_tok(c: char) -> (t: Tok)
    ensures
        t.deep() == pa(c),
{
    Tok::Punct(c, false)
}

/// A glued punctuation token.
fn pg_tok(c: char) -> (t: Tok)
    ensures
        t.deep() == pg(c),
{
    Tok::Punct(c, true)
}

/// Append a verbatim copy of `ts`.
#[verifier::loop_isolation(false)]
fn append_copy(out: &mut Vec<Tok>, ts: &Vec<Tok>)
    ensures
        deep_seq(final(out)@) == deep_seq(old(out)@) + deep_seq(ts@),
{
    let mut k: usize = 0;
    while k < ts.len()
        invariant
            k <= ts@.len(),
            out@.len() == old(out)@.len() + k,
            forall|m: int| #![trigger out@[m]] 0 <= m < old(out)@.len() ==> out@[m] == old(
                out,
            )@[m],
            forall|m: int| old(out)@.len() <= m < out@.len() ==> #[trigger] out@[m].deep()
                == ts@[m - old(out)@.len()].deep(),
        decreases ts@.len() - k,
    {
        let c = dup_tok(&ts[k]);
        out.push(c);
        k = k + 1;
    }
    proof {
        assert(deep_seq(out@) =~= deep_seq(old(out)@) + deep_seq(ts@));
    }
}

/// Append a verbatim copy of the range `[i, j)` of `ts`.
fn append_range(out: &mut Vec<Tok>, ts: &Vec<Tok>, i: usize, j: usize)
    requires
        i <= j <= ts@.len(),
    ensures
        deep_seq(final(out)@) == deep_seq(old(out)@) + deep_seq(ts@).subrange(i as int, j as int),
{
    let part = crate::parse::copy_range(ts, i, j);
    append_copy(out, &part);
}

/// Append `where` and the predicates, when a clause is present.
fn emit_where(out: &mut Vec<Tok>, w: &Option<Vec<Tok>>)
    ensures
        deep_seq(final(out)@) == deep_seq(old(out)@) + where_tokens(opt_deep(*w)),
{
    match w {
        Some(p) => {
            push_tok(out, kw_tok("where"));
            append_copy(out, p);
            proof {
                assert(deep_seq(out@) =~= deep_seq(old(out)@) + where_tokens(opt_deep(*w)));
            }
        },
        None => {
        },
    }
}

/// Emit the plain-definition form of one field.
fn emit_field_def(out: &mut Vec<Tok>, f: &ParsedField)
    ensures
        deep_seq(final(out)@) == deep_seq(old(out)@) + field_def_tokens(f.deep()),
{
    append_copy(out, &f.attrs);
    append_copy(out, &f.vis);
    match &f.name {
        Some(n) => {
            push_tok(out, Tok::Ident(n.clone()));
            push_tok(out, pa_tok(':'));
        },
        None => {
        },
    }
    append_copy(out, &f.ty);
    proof {
        assert(deep_seq(out@) =~= deep_seq(old(out)@) + field_def_tokens(f.deep()));
    }
}

/// Emit the plain definition's whole field list.
#[verifier::loop_isolation(false)]
fn emit_fields_def(fs: &Vec<ParsedField>, tr: bool) -> (out: Vec<Tok>)
    ensures
        deep_seq(out@) == fields_def_tokens(fields_deep(fs@), tr),
{
    let ghost fsd = fields_deep(fs@);
    let mut out: Vec<Tok> = Vec::new();
    let mut i: usize = 0;
    proof {
        assert(fsd.skip(0) =~= fsd);
        assert(deep_seq(out@) =~= Seq::<TokS>::empty());
    }
    while i < fs.len()
        invariant
            i <= fs@.len(),
            deep_seq(out@) + fields_def_tokens(fsd.skip(i as int), tr) == fields_def_tokens(
                fsd,
                tr,
            ),
        decreases fs@.len() - i,
    {
        proof {
            assert(fsd.skip(i as int)[0] == fsd[i as int]);
            assert(fsd.skip(i as int).drop_first() =~= fsd.skip(i as int + 1));
        }
        emit_field_def(&mut out, &fs[i]);
        if i + 1 < fs.len() {
            push_tok(&mut out, pa_tok(','));
        } else if tr {
            push_tok(&mut out, pa_tok(','));
        }
        proof {
            assert(fsd.skip(fs@.len() as int) =~= Seq::<FieldS>::empty());
            assert(deep_seq(out@) + fields_def_tokens(fsd.skip(i as int + 1), tr)
                =~= fields_def_tokens(fsd, tr));
        }
        i = i + 1;
    }
    proof {
        assert(fsd.skip(fs@.len() as int) =~= Seq::<FieldS>::empty());
        assert(deep_seq(out@) =~= fields_def_tokens(fsd, tr));
    }
    out
}

/// Emit the plain structure definition.
pub fn emit_struct_def(d: &ParsedDef) -> (out: Vec<Tok>)
    ensures
        deep_seq(out@) == struct_def_tokens(d.deep()),
{
    let mut out: Vec<Tok> = Vec::new();
    append_copy(&mut out, &d.attrs);
    append_copy(&mut out, &d.vis);
    push_tok(&mut out, kw_tok("struct"));
    push_tok(&mut out, Tok::Ident(d.name.clone()));
    append_copy(&mut out, &d.generics);
    match &d.shape {
        FieldShape::Named(fs, tr) => {
            emit_where(&mut out, &d.wher);
            let body = emit_fields_def(fs, *tr);
            push_tok(&mut out, Tok::Group(Delim::Brace, body));
        },
        FieldShape::Unnamed(fs, tr) => {
            let body = emit_fields_def(fs, *tr);
            push_tok(&mut out, Tok::Group(Delim::Paren, body));
            emit_where(&mut out, &d.wher);
            push_tok(&mut out, pa_tok(';'));
        },
        FieldShape::Unit => {
            emit_where(&mut out, &d.wher);
            push_tok(&mut out, pa_tok(';'));
        },
    }
    proof {
        assert(deep_seq(out@) =~= struct_def_tokens(d.deep()));
    }
    out
}

/// Emit `< ty as core::default::Default>::default()`.
fn emit_default_call(out: &mut Vec<Tok>, ty: &Vec<Tok>)
    ensures
        deep_seq(final(out)@) == deep_seq(old(out)@) + default_call_tokens(deep_seq(ty@)),
{
    push_tok(out, pa_tok('<'));
    append_copy(out, ty);
    push_tok(out, kw_tok("as"));
    push_tok(out, kw_tok("core"));
    push_tok(out, pg_tok(':'));
    push_tok(out, pa_tok(':'));
    push_tok(out, kw_tok("default"));
    push_tok(out, pg_tok(':'));
    push_tok(out, pa_tok(':'));
    push_tok(out, kw_tok("Default"));
    push_tok(out, pa_tok('>'));
    push_tok(out, pg_tok(':'));
    push_tok(out, pa_tok(':'));
    push_tok(out, kw_tok("default"));
    push_tok(out, Tok::Group(Delim::Paren, Vec::new()));
    proof {
        assert(deep_seq(Seq::<Tok>::empty()) =~= Seq::<TokS>::empty());
        assert(deep_seq(out@) =~= deep_seq(old(out)@) + default_call_tokens(deep_seq(ty@)));
    }
}

/// Emit one constructor entry.
fn emit_ctor_entry(out: &mut Vec<Tok>, f: &ParsedField)
    ensures
        deep_seq(final(out)@) == deep_seq(old(out)@) + ctor_entry_tokens(f.deep()),
{
    match &f.name {
        Some(n) => {
            push_tok(out, Tok::Ident(n.clone()));
            push_tok(out, pa_tok(':'));
        },
        None => {
        },
    }
    match &f.dflt {
        Some(e) => {
            append_copy(out, e);
        },
        None => {
            emit_default_call(out, &f.ty);
        },
    }
    proof {
        assert(deep_seq(out@) =~= deep_seq(old(out)@) + ctor_entry_tokens(f.deep()));
    }
}

/// Emit the comma-separated constructor entries.
#[verifier::loop_isolation(false)]
fn emit_ctor_entries(fs: &Vec<ParsedField>) -> (out: Vec<Tok>)
    ensures
        deep_seq(out@) == ctor_entries_tokens(fields_deep(fs@)),
{
    let ghost fsd = fields_deep(fs@);
    let mut out: Vec<Tok> = Vec::new();
    let mut i: usize = 0;
    proof {
        assert(fsd.skip(0) =~= fsd);
        assert(deep_seq(out@) =~= Seq::<TokS>::empty());
    }
    while i < fs.len()
        invariant
            i <= fs@.len(),
            deep_seq(out@) + ctor_entries_tokens(fsd.skip(i as int)) == ctor_entries_tokens(fsd),
        decreases fs@.len() - i,
    {
        proof {
            assert(fsd.skip(i as int)[0] == fsd[i as int]);
            assert(fsd.skip(i as int).drop_first() =~= fsd.skip(i as int + 1));
        }
        emit_ctor_entry(&mut out, &fs[i]);
        if i + 1 < fs.len() {
            push_tok(&mut out, pa_tok(','));
        }
        proof {
            assert(fsd.skip(fs@.len() as int) =~= Seq::<FieldS>::empty());
            assert(deep_seq(out@) + ctor_entries_tokens(fsd.skip(i as int + 1))
                =~= ctor_entries_tokens(fsd));
        }
        i = i + 1;
    }
    proof {
        assert(fsd.skip(fs@.len() as int) =~= Seq::<FieldS>::empty());
        assert(deep_seq(out@) =~= ctor_entries_tokens(fsd));
    }
    out
}

/// Emit the construction expression for the shape.
fn emit_ctor_body(shape: &FieldShape) -> (out: Vec<Tok>)
    ensures
        deep_seq(out@) == ctor_body_tokens(shape.deep()),
{
    let mut out: Vec<Tok> = Vec::new();
    push_tok(&mut out, kw_tok("Self"));
    match shape {
        FieldShape::Named(fs, _) => {
            let entries = emit_ctor_entries(fs);
            push_tok(&mut out, Tok::Group(Delim::Brace, entries));
        },
        FieldShape::Unnamed(fs, _) => {
            let entries = emit_ctor_entries(fs);
            push_tok(&mut out, Tok::Group(Delim::Paren, entries));
        },
        FieldShape::Unit => {
        },
    }
    proof {
        assert(deep_seq(out@) =~= ctor_body_tokens(shape.deep()));
    }
    out
}

/// End of the generic parameter starting at `i`.
fn param_end_x(s: &Vec<Tok>, i: usize, depth: usize) -> (r: usize)
    requires
        i <= s@.len(),
        depth <= i,
    ensures
        r as int == param_end(deep_seq(s@), i as int, depth as nat),
        i <= r <= s@.len(),
    decreases s@.len() - i,
{
    if i >= s.len() {
        s.len()
    } else if depth == 0 && crate::parse::tok_is_p(&s[i], ',') {
        i
    } else if crate::parse::tok_is_p(&s[i], '<') {
        param_end_x(s, i + 1, depth + 1)
    } else if crate::parse::tok_is_p(&s[i], '>') && !crate::parse::arrow_gt_x(s, i) {
        param_end_x(
            s,
            i + 1,
            if depth > 0 {
                depth - 1
            } else {
                0
            },
        )
    } else {
        param_end_x(s, i + 1, depth)
    }
}

/// First top-level `=` in `[i, e)`.
fn eq_end_x(s: &Vec<Tok>, i: usize, e: usize, depth: usize) -> (r: usize)
    requires
        i <= e <= s@.len(),
        depth <= i,
    ensures
        r as int == eq_end(deep_seq(s@), i as int, e as int, depth as nat),
        i <= r <= e,
    decreases e - i,
{
    if i >= e {
        e
    } else if depth == 0 && crate::parse::tok_is_p(&s[i], '=') {
        i
    } else if crate::parse::tok_is_p(&s[i], '<') {
        eq_end_x(s, i + 1, e, depth + 1)
    } else if crate::parse::tok_is_p(&s[i], '>') && !crate::parse::arrow_gt_x(s, i) {
        eq_end_x(
            s,
            i + 1,
            e,
            if depth > 0 {
                depth - 1
            } else {
                0
            },
        )
    } else {
        eq_end_x(s, i + 1, e, depth)
    }
}

/// Emit the implementation header's parameter run from `i` on.
#[verifier::loop_isolation(false)]
fn emit_impl_inner(out: &mut Vec<Tok>, s: &Vec<Tok>)
    ensures
        deep_seq(final(out)@) == deep_seq(old(out)@) + impl_inner(deep_seq(s@), 0),
{
    let ghost sd = deep_seq(s@);
    let mut i: usize = 0;
    proof {
        assert(deep_seq(out@) + impl_inner(sd, 0) == deep_seq(old(out)@) + impl_inner(sd, 0));
    }
    while i < s.len()
        invariant
            i <= s@.len(),
            deep_seq(out@) + impl_inner(sd, i as int) == deep_seq(old(out)@) + impl_inner(sd, 0),
        decreases s@.len() - i,
    {
        let e = param_end_x(s, i, 0);
        let d = eq_end_x(s, i, e, 0);
        append_range(out, s, i, d);
        if e < s.len() {
            push_tok(out, pa_tok(','));
            proof {
                assert(deep_seq(out@) + impl_inner(sd, e as int + 1) =~= deep_seq(old(out)@)
                    + impl_inner(sd, 0));
            }
            i = e + 1;
        } else {
            proof {
                assert(impl_inner(sd, s@.len() as int) =~= Seq::<TokS>::empty());
                assert(deep_seq(out@) + impl_inner(sd, s@.len() as int) =~= deep_seq(old(out)@)
                    + impl_inner(sd, 0));
            }
            i = s.len();
        }
    }
    proof {
        assert(impl_inner(sd, s@.len() as int) =~= Seq::<TokS>::empty());
        assert(deep_seq(out@) =~= deep_seq(old(out)@) + impl_inner(sd, 0));
    }
}

/// Emit the type reference's parameter run from `i` on.
#[verifier::loop_isolation(false)]
fn emit_ty_inner(out: &mut Vec<Tok>, s: &Vec<Tok>)
    ensures
        deep_seq(final(out)@) == deep_seq(old(out)@) + ty_inner(deep_seq(s@), 0),
{
    let ghost sd = deep_seq(s@);
    let mut i: usize = 0;
    while i < s.len()
        invariant
            i <= s@.len(),
            deep_seq(out@) + ty_inner(sd, i as int) == deep_seq(old(out)@) + ty_inner(sd, 0),
        decreases s@.len() - i,
    {
        let e = param_end_x(s, i, 0);
        proof {
            assert(sd.subrange(i as int, e as int).len() == e - i);
        }
        if e - i >= 2 && crate::parse::tok_is_p(&s[i], '\'') {
            append_range(out, s, i, i + 2);
            proof {
                assert(sd.subrange(i as int, i + 2) =~= sd.subrange(i as int, e as int).subrange(
                    0,
                    2,
                ));
            }
        } else if e - i >= 2 && crate::parse::tok_is_kw(&s[i], "const") {
            let c = dup_tok(&s[i + 1]);
            push_tok(out, c);
            proof {
                assert(seq![sd[i as int + 1]] =~= seq![sd.subrange(i as int, e as int)[1]]);
            }
        } else if e - i >= 1 {
            let c = dup_tok(&s[i]);
            push_tok(out, c);
            proof {
                assert(seq![sd[i as int]] =~= seq![sd.subrange(i as int, e as int)[0]]);
            }
        }
        if e < s.len() {
            push_tok(out, pa_tok(','));
            proof {
                assert(deep_seq(out@) + ty_inner(sd, e as int + 1) =~= deep_seq(old(out)@)
                    + ty_inner(sd, 0));
            }
            i = e + 1;
        } else {
            proof {
                assert(ty_inner(sd, s@.len() as int) =~= Seq::<TokS>::empty());
                assert(deep_seq(out@) + ty_inner(sd, s@.len() as int) =~= deep_seq(old(out)@)
                    + ty_inner(sd, 0));
            }
            i = s.len();
        }
    }
    proof {
        assert(ty_inner(sd, s@.len() as int) =~= Seq::<TokS>::empty());
        assert(deep_seq(out@) =~= deep_seq(old(out)@) + ty_inner(sd, 0));
    }
}

/// The tokens between the angle brackets of the stored generics run.
fn generics_inner_x(g: &Vec<Tok>) -> (r: Vec<Tok>)
    ensures
        deep_seq(r@) == generics_inner(deep_seq(g@)),
{
    if g.len() >= 2 {
        crate::parse::copy_range(g, 1, g.len() - 1)
    } else {
        let r: Vec<Tok> = Vec::new();
        proof {
            assert(deep_seq(r@) =~= generics_inner(deep_seq(g@)));
        }
        r
    }
}

/// Emit the implementation header's generics.
fn emit_impl_generics(out: &mut Vec<Tok>, g: &Vec<Tok>)
    ensures
        deep_seq(final(out)@) == deep_seq(old(out)@) + impl_generics_tokens(deep_seq(g@)),
{
    let inn = generics_inner_x(g);
    if inn.len() == 0 {
        proof {
            assert(deep_seq(out@) =~= deep_seq(old(out)@) + impl_generics_tokens(deep_seq(g@)));
        }
    } else {
        push_tok(out, pa_tok('<'));
        emit_impl_inner(out, &inn);
        push_tok(out, pa_tok('>'));
        proof {
            assert(deep_seq(out@) =~= deep_seq(old(out)@) + impl_generics_tokens(deep_seq(g@)));
        }
    }
}

/// Emit the implemented type's generic arguments.
fn emit_ty_generics(out: &mut Vec<Tok>, g: &Vec<Tok>)
    ensures
        deep_seq(final(out)@) == deep_seq(old(out)@) + ty_generics_tokens(deep_seq(g@)),
{
    let inn = generics_inner_x(g);
    if inn.len() == 0 {
        proof {
            assert(deep_seq(out@) =~= deep_seq(old(out)@) + ty_generics_tokens(deep_seq(g@)));
        }
    } else {
        push_tok(out, pa_tok('<'));
        emit_ty_inner(out, &inn);
        push_tok(out, pa_tok('>'));
        proof {
            assert(deep_seq(out@) =~= deep_seq(old(out)@) + ty_generics_tokens(deep_seq(g@)));
        }
    }
}

/// Emit the whole generated implementation.
pub fn emit_impl(d: &ParsedDef) -> (out: Vec<Tok>)
    ensures
        deep_seq(out@) == impl_tokens(d.deep()),
{
    let mut out: Vec<Tok> = Vec::new();
    push_tok(&mut out, kw_tok("impl"));
    emit_impl_generics(&mut out, &d.generics);
    push_tok(&mut out, kw_tok("core"));
    push_tok(&mut out, pg_tok(':'));
    push_tok(&mut out, pa_tok(':'));
    push_tok(&mut out, kw_tok("default"));
    push_tok(&mut out, pg_tok(':'));
    push_tok(&mut out, pa_tok(':'));
    push_tok(&mut out, kw_tok("Default"));
    push_tok(&mut out, kw_tok("for"));
    push_tok(&mut out, Tok::Ident(d.name.clone()));
    emit_ty_generics(&mut out, &d.generics);
    emit_where(&mut out, &d.wher);
    let mut body: Vec<Tok> = Vec::new();
    push_tok(&mut body, kw_tok("fn"));
    push_tok(&mut body, kw_tok("default"));
    push_tok(&mut body, Tok::Group(Delim::Paren, Vec::new()));
    push_tok(&mut body, pg_tok('-'));
    push_tok(&mut body, pa_tok('>'));
    push_tok(&mut body, kw_tok("Self"));
    let ctor = emit_ctor_body(&d.shape);
    push_tok(&mut body, Tok::Group(Delim::Brace, ctor));
    proof {
        assert(deep_seq(Seq::<Tok>::empty()) =~= Seq::<TokS>::empty());
        assert(deep_seq(body@) =~= fn_default_tokens(d.deep().shape));
    }
    push_tok(&mut out, Tok::Group(Delim::Brace, body));
    proof {
        assert(deep_seq(out@) =~= impl_tokens(d.deep()));
    }
    out
}

/// Produce the expansion of a parsed definition: the plain definition
/// followed by the generated implementation in an anonymous `const`
/// block.
pub fn synthesize(d: &ParsedDef) -> (out: Vec<Tok>)
    ensures
        deep_seq(out@) == expansion_tokens(d.deep()),
{
    let mut out = emit_struct_def(d);
    push_tok(&mut out, kw_tok("const"));
    push_tok(&mut out, kw_tok("_"));
    push_tok(&mut out, pa_tok(':'));
    push_tok(&mut out, Tok::Group(Delim::Paren, Vec::new()));
    push_tok(&mut out, pa_tok('='));
    let im = emit_impl(d);
    push_tok(&mut out, Tok::Group(Delim::Brace, im));
    push_tok(&mut out, pa_tok(';'));
    proof {
        assert(deep_seq(Seq::<Tok>::empty()) =~= Seq::<TokS>::empty());
        assert(deep_seq(out@) =~= expansion_tokens(d.deep()));
    }
    out
}

} // verus!
