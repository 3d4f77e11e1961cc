//! The library's stated laws, proved over the grammar and the emission
//! spec functions.
//!
//! The central one is round-trip shape preservation: the plain definition
//! that the synthesizer emits is the parsed input with only the default
//! annotations removed — token for token, up to the glued-spacing hints
//! on punctuation, which the printer re-derives.  [`norm`] erases exactly
//! those hints; [`def_tokens`] rebuilds a parsed definition, default
//! annotations included.

use vstd::prelude::*;

use crate::emit::ctor_body_tokens;
use crate::emit::ctor_entries_tokens;
use crate::emit::ctor_entry_tokens;
use crate::emit::ctor_value_tokens;
use crate::emit::default_call_tokens;
use crate::emit::expansion_tokens;
use crate::emit::field_def_tokens;
use crate::emit::fields_def_tokens;
use crate::emit::impl_generics_tokens;
use crate::emit::impl_tokens;
use crate::emit::kw;
use crate::emit::pa;
use crate::emit::struct_def_tokens;
use crate::emit::ty_generics_tokens;
use crate::emit::where_tokens;
use crate::grammar::angle_end;
use crate::grammar::attrs_end;
use crate::grammar::grp_body;
use crate::grammar::ident_text;
use crate::grammar::is_grp;
use crate::grammar::is_kw;
use crate::grammar::is_p;
use crate::grammar::lemma_angle_end_extent;
use crate::grammar::lemma_attrs_end_extent;
use crate::grammar::lemma_expr_scan_extent;
use crate::grammar::lemma_parse_field_extent;
use crate::grammar::lemma_lw_end_extent;
use crate::grammar::lemma_type_end_extent;
use crate::grammar::lemma_where_end_extent;
use crate::grammar::lw_end;
use crate::grammar::merge_where;
use crate::grammar::parse_body;
use crate::grammar::parse_def;
use crate::grammar::parse_field;
use crate::grammar::parse_fields;
use crate::grammar::parse_tuple_body;
use crate::grammar::type_end;
use crate::grammar::leading_where_tuple;
use crate::grammar::vis_end;
use crate::grammar::where_end;
use crate::grammar::EMode;
use crate::grammar::DefS;
use crate::grammar::FieldS;
use crate::grammar::ShapeS;
use crate::tokens::Delim;
use crate::tokens::TokS;

verus! {

broadcast use vstd::seq::axiom_seq_index_decreases, vstd::seq::axiom_seq_subrange_decreases;

/// One token with its glued-spacing hint erased, recursively.
pub open spec fn norm1(t: TokS) -> TokS
    decreases t,
{
    match t {
        TokS::Punct(c, j) => TokS::Punct(c, false),
        TokS::Group(d, ts) => TokS::Group(d, norm(ts)),
        TokS::Ident(s) => TokS::Ident(s),
        TokS::Lit(s) => TokS::Lit(s),
    }
}

/// A token sequence with all glued-spacing hints erased.
pub open spec fn norm(s: Seq<TokS>) -> Seq<TokS>
    decreases s,
{
    if s.len() == 0 {
        Seq::empty()
    } else {
        seq![norm1(s[0])] + norm(s.drop_first())
    }
}

/// Erasing spacing keeps the length.
pub broadcast proof fn lemma_norm_len(s: Seq<TokS>)
    ensures
        #[trigger] norm(s).len() == s.len(),
    decreases s.len(),
{
    if s.len() > 0 {
        lemma_norm_len(s.drop_first());
    }
}

/// Erasing spacing acts token by token.
pub broadcast proof fn lemma_norm_index(s: Seq<TokS>, i: int)
    requires
        0 <= i < s.len(),
    ensures
        #[trigger] norm(s)[i] == norm1(s[i]),
    decreases s.len(),
{
    lemma_norm_len(s.drop_first());
    if i > 0 {
        lemma_norm_index(s.drop_first(), i - 1);
    }
}

/// Erasing spacing distributes over concatenation.
pub proof fn lemma_norm_concat(a: Seq<TokS>, b: Seq<TokS>)
    ensures
        norm(a + b) == norm(a) + norm(b),
{
    broadcast use lemma_norm_len, lemma_norm_index;

    assert forall|i: int| 0 <= i < norm(a + b).len() implies norm(a + b)[i] == (norm(a) + norm(
        b,
    ))[i] by {
        if i < a.len() {
            assert((a + b)[i] == a[i]);
        } else {
            assert((a + b)[i] == b[i - a.len()]);
        }
    }
    assert(norm(a + b) =~= norm(a) + norm(b));
}

/// Erasing spacing on a single token.
pub proof fn lemma_norm_one(t: TokS)
    ensures
        norm(seq![t]) == seq![norm1(t)],
{
    broadcast use lemma_norm_len, lemma_norm_index;

    assert(seq![t].drop_first() =~= Seq::<TokS>::empty());
    assert(norm(seq![t]) =~= seq![norm1(t)]);
}

/// A parsed field rebuilt: the plain field syntax followed by its
/// default annotation, when one was given.
pub open spec fn field_tokens(f: FieldS) -> Seq<TokS> {
    field_def_tokens(f) + (match f.dflt {
        Some(e) => seq![pa('=')] + e,
        None => Seq::empty(),
    })
}

/// A parsed field list rebuilt, comma-separated, with its trailing comma.
pub open spec fn fields_tokens(fs: Seq<FieldS>, tr: bool) -> Seq<TokS>
    decreases fs.len(),
{
    if fs.len() == 0 {
        Seq::empty()
    } else if fs.len() == 1 {
        field_tokens(fs[0]) + (if tr {
            seq![pa(',')]
        } else {
            Seq::empty()
        })
    } else {
        field_tokens(fs[0]) + seq![pa(',')] + fields_tokens(fs.drop_first(), tr)
    }
}

/// A parsed definition rebuilt, default annotations included.
pub open spec fn def_tokens(d: DefS) -> Seq<TokS> {
    d.attrs + d.vis + seq![kw("struct"@), TokS::Ident(d.name)] + d.generics + (match d.shape {
        ShapeS::Named(fs, tr) => where_tokens(d.wher) + seq![
            TokS::Group(Delim::Brace, fields_tokens(fs, tr)),
        ],
        ShapeS::Unnamed(fs, tr) => seq![TokS::Group(Delim::Paren, fields_tokens(fs, tr))]
            + where_tokens(d.wher) + seq![pa(';')],
        ShapeS::Unit => where_tokens(d.wher) + seq![pa(';')],
    })
}

/// A field with its default annotation removed.
pub open spec fn strip_field(f: FieldS) -> FieldS {
    FieldS { attrs: f.attrs, vis: f.vis, name: f.name, ty: f.ty, dflt: None }
}

/// A field list with all default annotations removed.
pub open spec fn strip_shape(sh: ShapeS) -> ShapeS {
    match sh {
        ShapeS::Named(fs, tr) => ShapeS::Named(fs.map_values(|f: FieldS| strip_field(f)), tr),
        ShapeS::Unnamed(fs, tr) => ShapeS::Unnamed(fs.map_values(|f: FieldS| strip_field(f)), tr),
        ShapeS::Unit => ShapeS::Unit,
    }
}

/// A definition with all default annotations removed.
pub open spec fn strip_def(d: DefS) -> DefS {
    DefS {
        attrs: d.attrs,
        vis: d.vis,
        name: d.name,
        generics: d.generics,
        wher: d.wher,
        shape: strip_shape(d.shape),
    }
}

/// The emitted field list is the rebuilt field list of the stripped
/// fields.
proof fn lemma_fields_def_strip(fs: Seq<FieldS>, tr: bool)
    ensures
        fields_def_tokens(fs, tr) == fields_tokens(fs.map_values(|f: FieldS| strip_field(f)), tr),
    decreases fs.len(),
{
    let sf = fs.map_values(|f: FieldS| strip_field(f));
    assert(sf.len() == fs.len());
    if fs.len() == 0 {
    } else if fs.len() == 1 {
        assert(sf[0] == strip_field(fs[0]));
        assert(field_tokens(strip_field(fs[0])) =~= field_def_tokens(fs[0]));
        assert(fields_tokens(sf, tr) =~= fields_def_tokens(fs, tr));
    } else {
        lemma_fields_def_strip(fs.drop_first(), tr);
        assert(sf[0] == strip_field(fs[0]));
        assert(field_tokens(strip_field(fs[0])) =~= field_def_tokens(fs[0]));
        assert(sf.drop_first() =~= fs.drop_first().map_values(|f: FieldS| strip_field(f)));
        assert(fields_tokens(sf, tr) =~= fields_def_tokens(fs, tr));
    }
}

/// Round-trip shape preservation, first half: the emitted plain
/// definition is exactly the rebuilt form of the parsed definition with
/// every default annotation removed — attributes, visibility, name,
/// generics, where-clause, field order, field shape and trailing comma
/// all unchanged.
pub proof fn lemma_struct_def_is_stripped(d: DefS)
    ensures
        struct_def_tokens(d) == def_tokens(strip_def(d)),
        strip_def(d).attrs == d.attrs,
        strip_def(d).vis == d.vis,
        strip_def(d).name == d.name,
        strip_def(d).generics == d.generics,
        strip_def(d).wher == d.wher,
{
    match d.shape {
        ShapeS::Named(fs, tr) => {
            lemma_fields_def_strip(fs, tr);
            assert(struct_def_tokens(d) =~= def_tokens(strip_def(d)));
        },
        ShapeS::Unnamed(fs, tr) => {
            lemma_fields_def_strip(fs, tr);
            assert(struct_def_tokens(d) =~= def_tokens(strip_def(d)));
        },
        ShapeS::Unit => {
            assert(struct_def_tokens(d) =~= def_tokens(strip_def(d)));
        },
    }
}

/// A successfully parsed field rebuilds, up to spacing hints, to exactly
/// the tokens it consumed.
proof fn lemma_field_src(s: Seq<TokS>, i: int, named: bool, f: FieldS, j: int)
    requires
        0 <= i <= s.len(),
        parse_field(s, i, named) == Ok::<(FieldS, int), int>((f, j)),
    ensures
        i < j <= s.len(),
        norm(field_tokens(f)) == norm(s.subrange(i, j)),
{
    broadcast use lemma_norm_len, lemma_norm_index;

    lemma_parse_field_extent(s, i, named);
    lemma_attrs_end_extent(s, i);
    let a = attrs_end(s, i);
    let v = vis_end(s, a);
    let t0: int = if named {
        v + 2
    } else {
        v
    };
    lemma_type_end_extent(s, t0, 0);
    let t1 = match type_end(s, t0, 0) {
        Some(t1) => t1,
        None => 0,
    };
    let head: Seq<TokS> = if named {
        seq![s[v], s[v + 1]]
    } else {
        Seq::empty()
    };
    let namepart: Seq<TokS> = match f.name {
        Some(n) => seq![TokS::Ident(n), pa(':')],
        None => Seq::empty(),
    };
    assert(f.attrs == s.subrange(i, a));
    assert(f.vis == s.subrange(a, v));
    assert(f.ty == s.subrange(t0, t1));
    if named {
        assert(s[v] == TokS::Ident(ident_text(s[v])));
        lemma_norm_concat(seq![s[v]], seq![s[v + 1]]);
        lemma_norm_one(s[v]);
        lemma_norm_one(s[v + 1]);
        lemma_norm_one(TokS::Ident(ident_text(s[v])));
        lemma_norm_one(pa(':'));
        lemma_norm_concat(seq![TokS::Ident(ident_text(s[v]))], seq![pa(':')]);
        assert(norm1(s[v + 1]) == norm1(pa(':')));
        assert(norm(head) =~= norm(namepart));
    } else {
        assert(norm(head) =~= norm(namepart));
    }
    if t1 < s.len() && is_p(s[t1], '=') {
        let e = j;
        lemma_expr_scan_extent(s, t1 + 1, EMode::Unit, 0);
        assert(f.dflt == Some(s.subrange(t1 + 1, e)));
        // the consumed run, split at each component boundary
        assert(s.subrange(i, j) =~= s.subrange(i, a) + s.subrange(a, v) + head + s.subrange(t0, t1)
            + seq![s[t1]] + s.subrange(t1 + 1, e));
        lemma_norm_concat(s.subrange(i, a), s.subrange(a, v));
        lemma_norm_concat(s.subrange(i, a) + s.subrange(a, v), head);
        lemma_norm_concat(s.subrange(i, a) + s.subrange(a, v) + head, s.subrange(t0, t1));
        lemma_norm_concat(
            s.subrange(i, a) + s.subrange(a, v) + head + s.subrange(t0, t1),
            seq![s[t1]],
        );
        lemma_norm_concat(
            s.subrange(i, a) + s.subrange(a, v) + head + s.subrange(t0, t1) + seq![s[t1]],
            s.subrange(t1 + 1, e),
        );
        lemma_norm_one(s[t1]);
        lemma_norm_one(pa('='));
        assert(norm1(s[t1]) == norm1(pa('=')));
        assert(field_tokens(f) =~= s.subrange(i, a) + s.subrange(a, v) + namepart + s.subrange(
            t0,
            t1,
        ) + seq![pa('=')] + s.subrange(t1 + 1, e));
        lemma_norm_concat(s.subrange(i, a) + s.subrange(a, v), namepart);
        lemma_norm_concat(s.subrange(i, a) + s.subrange(a, v) + namepart, s.subrange(t0, t1));
        lemma_norm_concat(
            s.subrange(i, a) + s.subrange(a, v) + namepart + s.subrange(t0, t1),
            seq![pa('=')],
        );
        lemma_norm_concat(
            s.subrange(i, a) + s.subrange(a, v) + namepart + s.subrange(t0, t1) + seq![pa('=')],
            s.subrange(t1 + 1, e),
        );
        assert(norm(field_tokens(f)) =~= norm(s.subrange(i, j)));
    } else {
        assert(j == t1);
        assert(f.dflt is None);
        assert(s.subrange(i, j) =~= s.subrange(i, a) + s.subrange(a, v) + head + s.subrange(
            t0,
            t1,
        ));
        lemma_norm_concat(s.subrange(i, a), s.subrange(a, v));
        lemma_norm_concat(s.subrange(i, a) + s.subrange(a, v), head);
        lemma_norm_concat(s.subrange(i, a) + s.subrange(a, v) + head, s.subrange(t0, t1));
        assert(field_tokens(f) =~= s.subrange(i, a) + s.subrange(a, v) + namepart + s.subrange(
            t0,
            t1,
        ));
        lemma_norm_concat(s.subrange(i, a) + s.subrange(a, v), namepart);
        lemma_norm_concat(s.subrange(i, a) + s.subrange(a, v) + namepart, s.subrange(t0, t1));
        assert(norm(field_tokens(f)) =~= norm(s.subrange(i, j)));
    }
}

/// A successfully parsed field list rebuilds, up to spacing hints, to
/// exactly the tokens it consumed.
proof fn lemma_fields_src(s: Seq<TokS>, i: int, named: bool, fs: Seq<FieldS>, tr: bool)
    requires
        0 <= i <= s.len(),
        parse_fields(s, i, named) == Ok::<(Seq<FieldS>, bool), int>((fs, tr)),
    ensures
        norm(fields_tokens(fs, tr)) == norm(s.subrange(i, s.len() as int)),
        i < s.len() ==> fs.len() >= 1,
        i == s.len() ==> fs.len() == 0,
    decreases s.len() - i,
{
    broadcast use lemma_norm_len, lemma_norm_index;

    if i == s.len() {
        assert(s.subrange(i, s.len() as int) =~= Seq::<TokS>::empty());
        assert(norm(fields_tokens(fs, tr)) =~= norm(s.subrange(i, s.len() as int)));
    } else {
        let (f, j) = parse_field(s, i, named)->Ok_0;
        lemma_parse_field_extent(s, i, named);
        lemma_field_src(s, i, named, f, j);
        if j == s.len() {
            assert(fs =~= seq![f]);
            assert(fields_tokens(fs, tr) =~= field_tokens(f));
            assert(s.subrange(i, s.len() as int) =~= s.subrange(i, j));
        } else if is_p(s[j], ',') {
            if j + 1 == s.len() {
                assert(fs =~= seq![f]);
                assert(tr);
                assert(fields_tokens(fs, tr) =~= field_tokens(f) + seq![pa(',')]);
                lemma_norm_concat(field_tokens(f), seq![pa(',')]);
                lemma_norm_one(pa(','));
                lemma_norm_one(s[j]);
                assert(norm1(s[j]) == norm1(pa(',')));
                assert(s.subrange(i, s.len() as int) =~= s.subrange(i, j) + seq![s[j]]);
                lemma_norm_concat(s.subrange(i, j), seq![s[j]]);
                assert(norm(fields_tokens(fs, tr)) =~= norm(s.subrange(i, s.len() as int)));
            } else {
                let (fs2, tr2) = parse_fields(s, j + 1, named)->Ok_0;
                lemma_fields_src(s, j + 1, named, fs2, tr2);
                assert(fs == seq![f] + fs2);
                assert(tr == tr2);
                assert(fs2.len() >= 1);
                assert(fs[0] == f);
                assert(fs.drop_first() =~= fs2);
                assert(fields_tokens(fs, tr) == field_tokens(f) + seq![pa(',')] + fields_tokens(
                    fs2,
                    tr,
                ));
                lemma_norm_concat(field_tokens(f), seq![pa(',')]);
                lemma_norm_concat(field_tokens(f) + seq![pa(',')], fields_tokens(fs2, tr));
                lemma_norm_one(pa(','));
                lemma_norm_one(s[j]);
                assert(norm1(s[j]) == norm1(pa(',')));
                assert(s.subrange(i, s.len() as int) =~= s.subrange(i, j) + seq![s[j]] + s.subrange(
                    j + 1,
                    s.len() as int,
                ));
                lemma_norm_concat(s.subrange(i, j), seq![s[j]]);
                lemma_norm_concat(s.subrange(i, j) + seq![s[j]], s.subrange(j + 1, s.len() as int));
                assert(norm(fields_tokens(fs, tr)) =~= norm(s.subrange(i, s.len() as int)));
            }
        }
    }
}

/// A successfully parsed definition rebuilds, up to spacing hints, to
/// exactly its input.  The one family of inputs left out places a
/// where-clause before a parenthesized field list: there the clause
/// moves to its standard position after the field list, so the rebuilt
/// definition is not the input token for token.
#[verifier::rlimit(60)]
pub proof fn lemma_def_src(s: Seq<TokS>, d: DefS)
    requires
        parse_def(s) == Ok::<DefS, (int, Option<int>)>(d),
        !leading_where_tuple(s),
    ensures
        norm(def_tokens(d)) == norm(s),
{
    broadcast use lemma_norm_len, lemma_norm_index;

    lemma_attrs_end_extent(s, 0);
    let a = attrs_end(s, 0);
    let v = vis_end(s, a);
    let g0 = v + 2;
    let (generics, b): (Seq<TokS>, int) = if g0 < s.len() && is_p(s[g0], '<') {
        lemma_angle_end_extent(s, g0 + 1, 1);
        let g1 = angle_end(s, g0 + 1, 1).unwrap();
        (s.subrange(g0, g1), g1)
    } else {
        (Seq::<TokS>::empty(), g0)
    };
    assert(d == parse_body(s, a, v, ident_text(s[v + 1]), generics, b)->Ok_0);
    assert(d.attrs == s.subrange(0, a));
    assert(d.vis == s.subrange(a, v));
    assert(s[v] == TokS::Ident("struct"@));
    assert(s[v + 1] == TokS::Ident(d.name));
    let lead = s.subrange(0, a) + s.subrange(a, v) + seq![s[v], s[v + 1]] + generics;
    let leadn = d.attrs + d.vis + seq![kw("struct"@), TokS::Ident(d.name)] + d.generics;
    assert(lead =~= leadn);
    assert(lead =~= s.subrange(0, b));
    assert(!(b < s.len() && is_kw(s[b], "where"@) && lw_end(s, b + 1) < s.len() && is_grp(
        s[lw_end(s, b + 1)],
        Delim::Paren,
    )));
    lemma_def_src_body(s, d, a, v, b);
}

/// The body part of [`lemma_def_src`]: from position `b` to the end.
#[verifier::rlimit(100)]
#[verifier::spinoff_prover]
proof fn lemma_def_src_body(s: Seq<TokS>, d: DefS, a: int, v: int, b: int)
    requires
        0 <= a <= v,
        v + 2 <= b <= s.len(),
        parse_body(s, a, v, d.name, d.generics, b) == Ok::<DefS, (int, Option<int>)>(d),
        d.attrs + d.vis + seq![kw("struct"@), TokS::Ident(d.name)] + d.generics == s.subrange(0, b),
        !(b < s.len() && is_kw(s[b], "where"@) && lw_end(s, b + 1) < s.len() && is_grp(
            s[lw_end(s, b + 1)],
            Delim::Paren,
        )),
    ensures
        norm(def_tokens(d)) == norm(s),
{
    broadcast use lemma_norm_len, lemma_norm_index;

    let lead = s.subrange(0, b);
    if b < s.len() && is_kw(s[b], "where"@) {
        lemma_lw_end_extent(s, b + 1);
        let w = lw_end(s, b + 1);
        assert(s[b] == TokS::Ident("where"@));
        assert(d.wher == Some(s.subrange(b + 1, w)));
        let wpart = seq![s[b]] + s.subrange(b + 1, w);
        assert(wpart =~= where_tokens(d.wher));
        if w < s.len() && is_grp(s[w], Delim::Brace) {
            assert(w + 1 == s.len());
            let body = grp_body(s[w]);
            let (fs, tr) = parse_fields(body, 0, true)->Ok_0;
            lemma_fields_src(body, 0, true, fs, tr);
            assert(body.subrange(0, body.len() as int) =~= body);
            assert(s[w] == TokS::Group(Delim::Brace, body));
            assert(norm1(TokS::Group(Delim::Brace, fields_tokens(fs, tr))) == norm1(s[w]));
            assert(s =~= lead + wpart + seq![s[w]]);
            assert(def_tokens(d) =~= lead + wpart + seq![
                TokS::Group(Delim::Brace, fields_tokens(fs, tr)),
            ]);
            lemma_norm_concat(lead, wpart);
            lemma_norm_concat(lead + wpart, seq![s[w]]);
            lemma_norm_concat(lead + wpart, seq![TokS::Group(Delim::Brace, fields_tokens(fs, tr))]);
            lemma_norm_one(s[w]);
            lemma_norm_one(TokS::Group(Delim::Brace, fields_tokens(fs, tr)));
            assert(norm(def_tokens(d)) =~= norm(s));
        } else {
            assert(w < s.len() && is_p(s[w], ';') && w + 1 == s.len());
            assert(d.shape is Unit);
            assert(s =~= lead + wpart + seq![s[w]]);
            assert(def_tokens(d) =~= lead + wpart + seq![pa(';')]);
            lemma_norm_concat(lead, wpart);
            lemma_norm_concat(lead + wpart, seq![s[w]]);
            lemma_norm_concat(lead + wpart, seq![pa(';')]);
            lemma_norm_one(s[w]);
            lemma_norm_one(pa(';'));
            assert(norm1(s[w]) == norm1(pa(';')));
            assert(norm(def_tokens(d)) =~= norm(s));
        }
    } else if b < s.len() && is_grp(s[b], Delim::Brace) {
        assert(b + 1 == s.len());
        let body = grp_body(s[b]);
        let (fs, tr) = parse_fields(body, 0, true)->Ok_0;
        lemma_fields_src(body, 0, true, fs, tr);
        assert(body.subrange(0, body.len() as int) =~= body);
        assert(s[b] == TokS::Group(Delim::Brace, body));
        assert(d.wher is None);
        assert(where_tokens(d.wher) =~= Seq::<TokS>::empty());
        assert(norm1(TokS::Group(Delim::Brace, fields_tokens(fs, tr))) == norm1(s[b]));
        assert(s =~= lead + seq![s[b]]);
        assert(def_tokens(d) =~= lead + seq![TokS::Group(Delim::Brace, fields_tokens(fs, tr))]);
        lemma_norm_concat(lead, seq![s[b]]);
        lemma_norm_concat(lead, seq![TokS::Group(Delim::Brace, fields_tokens(fs, tr))]);
        lemma_norm_one(s[b]);
        lemma_norm_one(TokS::Group(Delim::Brace, fields_tokens(fs, tr)));
        assert(norm(def_tokens(d)) =~= norm(s));
    } else if b < s.len() && is_grp(s[b], Delim::Paren) {
        assert(parse_tuple_body(s, a, v, d.name, d.generics, None, b) == Ok::<DefS, (int, Option<int>)>(d));
        let body = grp_body(s[b]);
        let (fs, tr) = parse_fields(body, 0, false)->Ok_0;
        lemma_fields_src(body, 0, false, fs, tr);
        assert(body.subrange(0, body.len() as int) =~= body);
        assert(s[b] == TokS::Group(Delim::Paren, body));
        assert(norm1(TokS::Group(Delim::Paren, fields_tokens(fs, tr))) == norm1(s[b]));
        if b + 1 < s.len() && is_kw(s[b + 1], "where"@) {
            lemma_where_end_extent(s, b + 2);
            let w = where_end(s, b + 2);
            assert(s[b + 1] == TokS::Ident("where"@));
            assert(d.wher == merge_where(None, Some(s.subrange(b + 2, w))));
            assert(d.wher == Some(s.subrange(b + 2, w)));
            let wpart = seq![s[b + 1]] + s.subrange(b + 2, w);
            assert(wpart =~= where_tokens(d.wher));
            assert(s =~= lead + seq![s[b]] + wpart + seq![s[w]]);
            assert(def_tokens(d) =~= lead + seq![
                TokS::Group(Delim::Paren, fields_tokens(fs, tr)),
            ] + wpart + seq![pa(';')]);
            lemma_norm_concat(lead, seq![s[b]]);
            lemma_norm_concat(lead, seq![TokS::Group(Delim::Paren, fields_tokens(fs, tr))]);
            lemma_norm_concat(lead + seq![s[b]], wpart);
            lemma_norm_concat(
                lead + seq![TokS::Group(Delim::Paren, fields_tokens(fs, tr))],
                wpart,
            );
            lemma_norm_concat(lead + seq![s[b]] + wpart, seq![s[w]]);
            lemma_norm_concat(
                lead + seq![TokS::Group(Delim::Paren, fields_tokens(fs, tr))] + wpart,
                seq![pa(';')],
            );
            lemma_norm_one(s[b]);
            lemma_norm_one(TokS::Group(Delim::Paren, fields_tokens(fs, tr)));
            lemma_norm_one(s[w]);
            lemma_norm_one(pa(';'));
            assert(norm1(s[w]) == norm1(pa(';')));
            assert(norm(def_tokens(d)) =~= norm(s));
        } else {
            assert(b + 1 < s.len() && is_p(s[b + 1], ';') && b + 2 == s.len());
            assert(d.wher is None);
            assert(where_tokens(d.wher) =~= Seq::<TokS>::empty());
            assert(s =~= lead + seq![s[b]] + seq![s[b + 1]]);
            assert(def_tokens(d) =~= lead + seq![
                TokS::Group(Delim::Paren, fields_tokens(fs, tr)),
            ] + seq![pa(';')]);
            lemma_norm_concat(lead, seq![s[b]]);
            lemma_norm_concat(lead, seq![TokS::Group(Delim::Paren, fields_tokens(fs, tr))]);
            lemma_norm_concat(lead + seq![s[b]], seq![s[b + 1]]);
            lemma_norm_concat(
                lead + seq![TokS::Group(Delim::Paren, fields_tokens(fs, tr))],
                seq![pa(';')],
            );
            lemma_norm_one(s[b]);
            lemma_norm_one(TokS::Group(Delim::Paren, fields_tokens(fs, tr)));
            lemma_norm_one(s[b + 1]);
            lemma_norm_one(pa(';'));
            assert(norm1(s[b + 1]) == norm1(pa(';')));
            assert(norm(def_tokens(d)) =~= norm(s));
        }
    } else {
        assert(b < s.len() && is_p(s[b], ';') && b + 1 == s.len());
        assert(d.shape is Unit);
        assert(d.wher is None);
        assert(where_tokens(d.wher) =~= Seq::<TokS>::empty());
        assert(s =~= lead + seq![s[b]]);
        assert(def_tokens(d) =~= lead + seq![pa(';')]);
        lemma_norm_concat(lead, seq![s[b]]);
        lemma_norm_concat(lead, seq![pa(';')]);
        lemma_norm_one(s[b]);
        lemma_norm_one(pa(';'));
        assert(norm1(s[b]) == norm1(pa(';')));
        assert(norm(def_tokens(d)) =~= norm(s));
    }
}

/// Round-trip shape preservation: for every well-formed extended
/// definition, the plain definition the synthesizer emits is the input
/// with only the default annotations removed — the same attributes,
/// visibility, name, generics, where-clause, field order and shape — and
/// the parsed definition rebuilds, up to spacing hints, to exactly the
/// input.  Definitions that place a where-clause before a parenthesized
/// field list are the one exception to the second equality: their
/// clause moves to its standard position after the field list.
pub proof fn lemma_round_trip_shape(s: Seq<TokS>, d: DefS)
    requires
        parse_def(s) == Ok::<DefS, (int, Option<int>)>(d),
        !leading_where_tuple(s),
    ensures
        struct_def_tokens(d) == def_tokens(strip_def(d)),
        norm(def_tokens(d)) == norm(s),
{
    lemma_struct_def_is_stripped(d);
    lemma_def_src(s, d);
}

/// Default precedence: the generated constructor's value for a field
/// with an explicit default is that expression, token for token; for a
/// field without one it is the call to the field type's empty/zero-value
/// constructor.
pub proof fn lemma_default_precedence(f: FieldS)
    ensures
        f.dflt matches Some(e) ==> ctor_value_tokens(f) == e,
        f.dflt is None ==> ctor_value_tokens(f) == default_call_tokens(f.ty),
{
}

/// Default precedence across a whole field list: entry `i` of the
/// generated constructor holds field `i`'s value, in declaration order.
pub proof fn lemma_entries_in_order(fs: Seq<FieldS>, i: int)
    requires
        0 <= i < fs.len(),
    ensures
        exists|lo: int|
            0 <= lo && lo + ctor_entry_tokens(fs[i]).len() <= ctor_entries_tokens(fs).len()
                && #[trigger] ctor_entries_tokens(fs).subrange(
                lo,
                lo + ctor_entry_tokens(fs[i]).len(),
            ) == ctor_entry_tokens(fs[i]),
    decreases fs.len(),
{
    let e = ctor_entry_tokens(fs[i]);
    if i == 0 {
        let lo: int = 0;
        assert(ctor_entries_tokens(fs).subrange(lo, lo + e.len()) =~= e);
    } else {
        lemma_entries_in_order(fs.drop_first(), i - 1);
        let rest = ctor_entries_tokens(fs.drop_first());
        assert(fs.drop_first()[i - 1] == fs[i]);
        let lo0 = choose|lo0: int|
            0 <= lo0 && lo0 + e.len() <= rest.len() && #[trigger] rest.subrange(lo0, lo0 + e.len())
                == e;
        let lo = ctor_entry_tokens(fs[0]).len() + 1 + lo0;
        assert(ctor_entries_tokens(fs) == ctor_entry_tokens(fs[0]) + seq![pa(',')] + rest);
        assert forall|k: int| 0 <= k < e.len() implies ctor_entries_tokens(fs).subrange(
            lo,
            lo + e.len(),
        )[k] == e[k] by {
            assert(rest.subrange(lo0, lo0 + e.len())[k] == e[k]);
            assert(rest[lo0 + k] == e[k]);
        }
        assert(ctor_entries_tokens(fs).subrange(lo, lo + e.len()) =~= e);
    }
}

/// Shape coverage: each of the three field shapes yields the matching
/// construction form — an initializer list for named fields, a
/// positional list for unnamed ones, the bare `Self` for a unit
/// definition.
pub proof fn lemma_shape_coverage(sh: ShapeS)
    ensures
        sh matches ShapeS::Named(fs, tr) ==> ctor_body_tokens(sh) == seq![
            kw("Self"@),
            TokS::Group(Delim::Brace, ctor_entries_tokens(fs)),
        ],
        sh matches ShapeS::Unnamed(fs, tr) ==> ctor_body_tokens(sh) == seq![
            kw("Self"@),
            TokS::Group(Delim::Paren, ctor_entries_tokens(fs)),
        ],
        sh is Unit ==> ctor_body_tokens(sh) == seq![kw("Self"@)],
{
}

/// Generics propagation: the generated implementation is parameterized
/// by the definition's own generic parameters — bounds kept, parameter
/// defaults removed — applies the implemented type to the same
/// parameters by name, and carries the definition's own where-clause.
pub proof fn lemma_generics_propagation(d: DefS)
    ensures
        impl_tokens(d) == seq![kw("impl"@)] + impl_generics_tokens(d.generics) + seq![
            kw("core"@),
            crate::emit::pg(':'),
            pa(':'),
            kw("default"@),
            crate::emit::pg(':'),
            pa(':'),
            kw("Default"@),
            kw("for"@),
            TokS::Ident(d.name),
        ] + ty_generics_tokens(d.generics) + where_tokens(d.wher) + seq![
            TokS::Group(Delim::Brace, crate::emit::fn_default_tokens(d.shape)),
        ],
        d.generics.len() == 0 ==> impl_generics_tokens(d.generics) == Seq::<TokS>::empty()
            && ty_generics_tokens(d.generics) == Seq::<TokS>::empty(),
{
}

/// The expansion is the plain definition followed by the generated
/// implementation inside an anonymous constant: the two construction
/// paths — the plain definition's ordinary field-by-field construction
/// and the generated constructor — stand side by side, and the expansion
/// adds nothing else.
pub proof fn lemma_expansion_parts(d: DefS)
    ensures
        expansion_tokens(d) == struct_def_tokens(d) + seq![
            kw("const"@),
            kw("_"@),
            pa(':'),
            TokS::Group(Delim::Paren, Seq::<TokS>::empty()),
            pa('='),
            TokS::Group(Delim::Brace, impl_tokens(d)),
            pa(';'),
        ],
{
}

} // verus!
