use short_default::parse_definition;
use short_default::Delim;
use short_default::Tok;

fn id(s: &str) -> Tok {
    Tok::Ident(s.to_string())
}

fn p(c: char) -> Tok {
    Tok::Punct(c, false)
}

fn pj(c: char) -> Tok {
    Tok::Punct(c, true)
}

fn lit(s: &str) -> Tok {
    Tok::Lit(s.to_string())
}

fn braces(ts: Vec<Tok>) -> Tok {
    Tok::Group(Delim::Brace, ts)
}

fn parens(ts: Vec<Tok>) -> Tok {
    Tok::Group(Delim::Paren, ts)
}

/// `<ty as core::default::Default>::default()`
fn dcall(ty: Vec<Tok>) -> Vec<Tok> {
    let mut v = vec![p('<')];
    v.extend(ty);
    v.extend(vec![
        id("as"),
        id("core"),
        pj(':'),
        p(':'),
        id("default"),
        pj(':'),
        p(':'),
        id("Default"),
        p('>'),
        pj(':'),
        p(':'),
        id("default"),
        parens(vec![]),
    ]);
    v
}

fn core_default_path() -> Vec<Tok> {
    vec![
        id("core"),
        pj(':'),
        p(':'),
        id("default"),
        pj(':'),
        p(':'),
        id("Default"),
    ]
}

#[test]
fn trailing_token_after_expression() {
    // struct S { threads: usize = 1 1, }
    // the second `1` can extend no expression: the error points at it
    let input = vec![
        id("struct"),
        id("S"),
        braces(vec![
            id("threads"),
            p(':'),
            id("usize"),
            p('='),
            lit("1"),
            lit("1"),
            p(','),
        ]),
    ];
    let e = short_default::default(&input).unwrap_err();
    assert_eq!(e.at, 2);
    assert_eq!(e.inner, Some(5));
}

#[test]
fn unit_struct() {
    // pub struct Marker;
    let input = vec![id("pub"), id("struct"), id("Marker"), p(';')];
    let out = short_default::default(&input).unwrap();
    let mut expected = vec![id("pub"), id("struct"), id("Marker"), p(';')];
    let mut im = vec![id("impl")];
    im.extend(core_default_path());
    im.extend(vec![id("for"), id("Marker")]);
    im.push(braces(vec![
        id("fn"),
        id("default"),
        parens(vec![]),
        pj('-'),
        p('>'),
        id("Self"),
        braces(vec![id("Self")]),
    ]));
    expected.extend(vec![
        id("const"),
        id("_"),
        p(':'),
        parens(vec![]),
        p('='),
        braces(im),
        p(';'),
    ]);
    assert_eq!(out, expected);
}

#[test]
fn tuple_struct_with_default() {
    // struct Pair(u8 = 7, String);
    let input = vec![
        id("struct"),
        id("Pair"),
        parens(vec![
            id("u8"),
            p('='),
            lit("7"),
            p(','),
            id("String"),
        ]),
        p(';'),
    ];
    let out = short_default::default(&input).unwrap();
    let mut ctor_args = vec![lit("7"), p(',')];
    ctor_args.extend(dcall(vec![id("String")]));
    let mut expected = vec![
        id("struct"),
        id("Pair"),
        parens(vec![id("u8"), p(','), id("String")]),
        p(';'),
    ];
    let mut im = vec![id("impl")];
    im.extend(core_default_path());
    im.extend(vec![id("for"), id("Pair")]);
    im.push(braces(vec![
        id("fn"),
        id("default"),
        parens(vec![]),
        pj('-'),
        p('>'),
        id("Self"),
        braces(vec![id("Self"), parens(ctor_args)]),
    ]));
    expected.extend(vec![
        id("const"),
        id("_"),
        p(':'),
        parens(vec![]),
        p('='),
        braces(im),
        p(';'),
    ]);
    assert_eq!(out, expected);
}

#[test]
fn where_clause_on_named_struct() {
    // struct W<T> where T: Clone { a: T, }
    let input = vec![
        id("struct"),
        id("W"),
        p('<'),
        id("T"),
        p('>'),
        id("where"),
        id("T"),
        p(':'),
        id("Clone"),
        braces(vec![id("a"), p(':'), id("T"), p(',')]),
    ];
    let out = short_default::default(&input).unwrap();
    // the plain definition keeps the clause
    assert_eq!(&out[..10], &input[..]);
    let d = parse_definition(&input).unwrap();
    let im = short_default::synthesize(&d);
    // the impl block repeats the generics and the where clause
    let probe: Vec<Tok> = vec![
        id("impl"),
        p('<'),
        id("T"),
        p('>'),
    ];
    let im_inner = match &im[im.len() - 2] {
        Tok::Group(Delim::Brace, ts) => ts.clone(),
        _ => panic!("expected the impl inside the const block"),
    };
    assert_eq!(&im_inner[..4], &probe[..]);
    let wher_probe: Vec<Tok> = vec![id("where"), id("T"), p(':'), id("Clone")];
    let pos = im_inner
        .windows(4)
        .position(|w| w == &wher_probe[..])
        .expect("the where clause is carried onto the impl");
    assert!(pos > 4);
}

#[test]
fn tuple_struct_where_after_parens() {
    // struct P<T>(T) where T: Copy;
    let input = vec![
        id("struct"),
        id("P"),
        p('<'),
        id("T"),
        p('>'),
        parens(vec![id("T")]),
        id("where"),
        id("T"),
        p(':'),
        id("Copy"),
        p(';'),
    ];
    let out = short_default::default(&input).unwrap();
    // plain definition unchanged (no defaults to strip)
    assert_eq!(&out[..11], &input[..]);
}

#[test]
fn generic_parameter_default_is_stripped_in_impl() {
    // struct G<T = u8> { x: T, }
    let input = vec![
        id("struct"),
        id("G"),
        p('<'),
        id("T"),
        p('='),
        id("u8"),
        p('>'),
        braces(vec![id("x"), p(':'), id("T"), p(',')]),
    ];
    let out = short_default::default(&input).unwrap();
    // the definition keeps the parameter default
    assert_eq!(&out[..8], &input[..]);
    // the impl header must not repeat it: `impl<T> ... for G<T>`
    let im = match &out[8 + 5] {
        Tok::Group(Delim::Brace, ts) => ts.clone(),
        _ => panic!("expected the impl inside the const block"),
    };
    assert_eq!(&im[..4], &[id("impl"), p('<'), id("T"), p('>')]);
    let for_pos = im.iter().position(|t| *t == id("for")).unwrap();
    assert_eq!(
        &im[for_pos..for_pos + 5],
        &[id("for"), id("G"), p('<'), id("T"), p('>')]
    );
}

#[test]
fn empty_braced_struct() {
    // struct E {}
    let input = vec![id("struct"), id("E"), braces(vec![])];
    let out = short_default::default(&input).unwrap();
    assert_eq!(&out[..3], &input[..]);
    let im = match &out[3 + 5] {
        Tok::Group(Delim::Brace, ts) => ts.clone(),
        _ => panic!("expected the impl inside the const block"),
    };
    // Self { } with no entries
    let ctor = match im.last().unwrap() {
        Tok::Group(Delim::Brace, fnbody) => match fnbody.last().unwrap() {
            Tok::Group(Delim::Brace, ctor) => ctor.clone(),
            _ => panic!("expected the constructor body"),
        },
        _ => panic!("expected the fn body"),
    };
    assert_eq!(ctor, vec![id("Self"), braces(vec![])]);
}

#[test]
fn turbofish_default_expression() {
    // struct T2 { v: Vec<u8> = Vec::<u8>::new(), }
    let input = vec![
        id("struct"),
        id("T2"),
        braces(vec![
            id("v"),
            p(':'),
            id("Vec"),
            p('<'),
            id("u8"),
            p('>'),
            p('='),
            id("Vec"),
            pj(':'),
            p(':'),
            p('<'),
            id("u8"),
            p('>'),
            pj(':'),
            p(':'),
            id("new"),
            parens(vec![]),
            p(','),
        ]),
    ];
    let out = short_default::default(&input).unwrap();
    let expr: Vec<Tok> = vec![
        id("Vec"),
        pj(':'),
        p(':'),
        p('<'),
        id("u8"),
        p('>'),
        pj(':'),
        p(':'),
        id("new"),
        parens(vec![]),
    ];
    let im = match &out[3 + 5] {
        Tok::Group(Delim::Brace, ts) => ts.clone(),
        _ => panic!("expected the impl inside the const block"),
    };
    let ctor = match im.last().unwrap() {
        Tok::Group(Delim::Brace, fnbody) => match fnbody.last().unwrap() {
            Tok::Group(Delim::Brace, ctor) => ctor.clone(),
            _ => panic!("expected the constructor body"),
        },
        _ => panic!("expected the fn body"),
    };
    let mut want = vec![id("Self")];
    let mut entry = vec![id("v"), p(':')];
    entry.extend(expr);
    want.push(braces(entry));
    assert_eq!(ctor, want);
}

#[test]
fn operator_default_expression() {
    // struct Sum { n: u32 = 1 + 2 * 3, }
    let input = vec![
        id("struct"),
        id("Sum"),
        braces(vec![
            id("n"),
            p(':'),
            id("u32"),
            p('='),
            lit("1"),
            p('+'),
            lit("2"),
            p('*'),
            lit("3"),
            p(','),
        ]),
    ];
    let out = short_default::default(&input).unwrap();
    assert_eq!(
        out[2],
        braces(vec![id("n"), p(':'), id("u32"), p(',')])
    );
}

#[test]
fn missing_terminator_on_tuple_struct() {
    // struct Q(u8)   -- no `;`
    let input = vec![id("struct"), id("Q"), parens(vec![id("u8")])];
    let e = short_default::default(&input).unwrap_err();
    assert_eq!(e.at, 3);
    assert_eq!(e.inner, None);
}

#[test]
fn not_a_struct_is_rejected() {
    // enum Foo { }
    let input = vec![id("enum"), id("Foo"), braces(vec![])];
    assert!(short_default::default(&input).is_err());
    assert!(short_default::default(&vec![]).is_err());
}

#[test]
fn trailing_tokens_after_body_are_rejected() {
    // struct S {} struct T {}
    let input = vec![
        id("struct"),
        id("S"),
        braces(vec![]),
        id("struct"),
        id("T"),
        braces(vec![]),
    ];
    assert!(short_default::default(&input).is_err());
}

#[test]
fn missing_type_is_rejected() {
    // struct S { a: = 1, }
    let input = vec![
        id("struct"),
        id("S"),
        braces(vec![id("a"), p(':'), p('='), lit("1"), p(',')]),
    ];
    let e = short_default::default(&input).unwrap_err();
    assert_eq!(e.at, 2);
    assert_eq!(e.inner, Some(2));
}

#[test]
fn pub_crate_visibility_is_kept() {
    // pub(crate) struct V { a: u8, }
    let input = vec![
        id("pub"),
        parens(vec![id("crate")]),
        id("struct"),
        id("V"),
        braces(vec![id("a"), p(':'), id("u8"), p(',')]),
    ];
    let out = short_default::default(&input).unwrap();
    assert_eq!(&out[..5], &input[..]);
}

#[test]
fn no_trailing_comma_is_kept() {
    // struct N { a: u8 }
    let input = vec![
        id("struct"),
        id("N"),
        braces(vec![id("a"), p(':'), id("u8")]),
    ];
    let out = short_default::default(&input).unwrap();
    assert_eq!(out[2], braces(vec![id("a"), p(':'), id("u8")]));
}

#[test]
fn lifetime_parameter_in_impl_header() {
    // struct L<'a> { r: &'a str, }
    let input = vec![
        id("struct"),
        id("L"),
        p('<'),
        pj('\''),
        id("a"),
        p('>'),
        braces(vec![
            id("r"),
            p(':'),
            p('&'),
            pj('\''),
            id("a"),
            id("str"),
            p(','),
        ]),
    ];
    let out = short_default::default(&input).unwrap();
    assert_eq!(&out[..7], &input[..]);
    let im = match &out[7 + 5] {
        Tok::Group(Delim::Brace, ts) => ts.clone(),
        _ => panic!("expected the impl inside the const block"),
    };
    assert_eq!(&im[..5], &[id("impl"), p('<'), pj('\''), id("a"), p('>')]);
    let for_pos = im.iter().position(|t| *t == id("for")).unwrap();
    assert_eq!(
        &im[for_pos..for_pos + 6],
        &[id("for"), id("L"), p('<'), pj('\''), id("a"), p('>')]
    );
}

#[test]
fn const_parameter_in_impl_header() {
    // struct C<const N: usize> { xs: [u8; N] = [0; N], }
    let input = vec![
        id("struct"),
        id("C"),
        p('<'),
        id("const"),
        id("N"),
        p(':'),
        id("usize"),
        p('>'),
        braces(vec![
            id("xs"),
            p(':'),
            Tok::Group(Delim::Bracket, vec![id("u8"), p(';'), id("N")]),
            p('='),
            Tok::Group(Delim::Bracket, vec![lit("0"), p(';'), id("N")]),
            p(','),
        ]),
    ];
    let out = short_default::default(&input).unwrap();
    // the impl keeps the whole parameter, the type reference only its name
    let im = match &out[9 + 5] {
        Tok::Group(Delim::Brace, ts) => ts.clone(),
        _ => panic!("expected the impl inside the const block"),
    };
    assert_eq!(
        &im[..7],
        &[
            id("impl"),
            p('<'),
            id("const"),
            id("N"),
            p(':'),
            id("usize"),
            p('>')
        ]
    );
    let for_pos = im.iter().position(|t| *t == id("for")).unwrap();
    assert_eq!(
        &im[for_pos..for_pos + 5],
        &[id("for"), id("C"), p('<'), id("N"), p('>')]
    );
}

#[test]
fn tuple_literal_default_stops_at_field_comma() {
    // struct Config2 {
    //     version: (u64, u64, u64) = (0, 1, 0),
    //     authors: Vec<String>,
    // }
    let version_ty = parens(vec![
        id("u64"),
        p(','),
        id("u64"),
        p(','),
        id("u64"),
    ]);
    let version_default = parens(vec![lit("0"), p(','), lit("1"), p(','), lit("0")]);
    let input = vec![
        id("struct"),
        id("Config2"),
        braces(vec![
            id("version"),
            p(':'),
            version_ty.clone(),
            p('='),
            version_default.clone(),
            p(','),
            id("authors"),
            p(':'),
            id("Vec"),
            p('<'),
            id("String"),
            p('>'),
            p(','),
        ]),
    ];
    let out = short_default::default(&input).unwrap();
    // the expression ends at the field-separating comma: both fields are kept
    assert_eq!(
        out[2],
        braces(vec![
            id("version"),
            p(':'),
            version_ty,
            p(','),
            id("authors"),
            p(':'),
            id("Vec"),
            p('<'),
            id("String"),
            p('>'),
            p(','),
        ])
    );
    let im = match &out[3 + 5] {
        Tok::Group(Delim::Brace, ts) => ts.clone(),
        _ => panic!("expected the impl inside the const block"),
    };
    let ctor = match im.last().unwrap() {
        Tok::Group(Delim::Brace, fnbody) => match fnbody.last().unwrap() {
            Tok::Group(Delim::Brace, ctor) => ctor.clone(),
            _ => panic!("expected the constructor body"),
        },
        _ => panic!("expected the fn body"),
    };
    let mut entries = vec![id("version"), p(':'), version_default, p(','), id("authors"), p(':')];
    entries.extend(dcall(vec![id("Vec"), p('<'), id("String"), p('>')]));
    assert_eq!(ctor, vec![id("Self"), braces(entries)]);
}

#[test]
fn leading_where_before_tuple_body() {
    // struct S<T> where T: Copy (T);
    let input = vec![
        id("struct"),
        id("S"),
        p('<'),
        id("T"),
        p('>'),
        id("where"),
        id("T"),
        p(':'),
        id("Copy"),
        parens(vec![id("T")]),
        p(';'),
    ];
    let out = short_default::default(&input).unwrap();
    // the clause moves to its standard position after the field list
    let expected_def = vec![
        id("struct"),
        id("S"),
        p('<'),
        id("T"),
        p('>'),
        parens(vec![id("T")]),
        id("where"),
        id("T"),
        p(':'),
        id("Copy"),
        p(';'),
    ];
    assert_eq!(&out[..11], &expected_def[..]);
}

#[test]
fn where_clauses_on_both_sides_merge() {
    // struct B<T> where T: Copy (T) where T: Clone;
    let input = vec![
        id("struct"),
        id("B"),
        p('<'),
        id("T"),
        p('>'),
        id("where"),
        id("T"),
        p(':'),
        id("Copy"),
        parens(vec![id("T")]),
        id("where"),
        id("T"),
        p(':'),
        id("Clone"),
        p(';'),
    ];
    let d = parse_definition(&input).unwrap();
    assert_eq!(
        d.wher,
        Some(vec![
            id("T"),
            p(':'),
            id("Copy"),
            p(','),
            id("T"),
            p(':'),
            id("Clone"),
        ])
    );
}

#[test]
fn fn_bound_in_leading_where_stays_a_predicate() {
    // struct F<G> where G: Fn(u8) { g: G, }
    let input = vec![
        id("struct"),
        id("F"),
        p('<'),
        id("G"),
        p('>'),
        id("where"),
        id("G"),
        p(':'),
        id("Fn"),
        parens(vec![id("u8")]),
        braces(vec![id("g"), p(':'), id("G"), p(',')]),
    ];
    let out = short_default::default(&input).unwrap();
    assert_eq!(&out[..11], &input[..]);
}

#[test]
fn if_else_default_expression() {
    // struct I { x: u32 = if true { 1 } else { 2 }, }
    let input = vec![
        id("struct"),
        id("I"),
        braces(vec![
            id("x"),
            p(':'),
            id("u32"),
            p('='),
            id("if"),
            id("true"),
            braces(vec![lit("1")]),
            id("else"),
            braces(vec![lit("2")]),
            p(','),
        ]),
    ];
    let out = short_default::default(&input).unwrap();
    assert_eq!(out[2], braces(vec![id("x"), p(':'), id("u32"), p(',')]));
}

#[test]
fn cast_default_expression() {
    // struct A2 { m: u64 = 7 as u64 + 1, n: u8 = 3 as u8, }
    let input = vec![
        id("struct"),
        id("A2"),
        braces(vec![
            id("m"),
            p(':'),
            id("u64"),
            p('='),
            lit("7"),
            id("as"),
            id("u64"),
            p('+'),
            lit("1"),
            p(','),
            id("n"),
            p(':'),
            id("u8"),
            p('='),
            lit("3"),
            id("as"),
            id("u8"),
            p(','),
        ]),
    ];
    let out = short_default::default(&input).unwrap();
    assert_eq!(
        out[2],
        braces(vec![
            id("m"),
            p(':'),
            id("u64"),
            p(','),
            id("n"),
            p(':'),
            id("u8"),
            p(','),
        ])
    );
}

#[test]
fn closure_default_expression() {
    // struct C2 { f: fn(u8) -> u8 = |x| x + 1, }
    let input = vec![
        id("struct"),
        id("C2"),
        braces(vec![
            id("f"),
            p(':'),
            id("fn"),
            parens(vec![id("u8")]),
            pj('-'),
            p('>'),
            id("u8"),
            p('='),
            p('|'),
            id("x"),
            p('|'),
            id("x"),
            p('+'),
            lit("1"),
            p(','),
        ]),
    ];
    let out = short_default::default(&input).unwrap();
    assert_eq!(
        out[2],
        braces(vec![
            id("f"),
            p(':'),
            id("fn"),
            parens(vec![id("u8")]),
            pj('-'),
            p('>'),
            id("u8"),
            p(','),
        ])
    );
}

#[test]
fn match_default_expression() {
    // struct M { x: u8 = match 1 { _ => 0 }, }
    let input = vec![
        id("struct"),
        id("M"),
        braces(vec![
            id("x"),
            p(':'),
            id("u8"),
            p('='),
            id("match"),
            lit("1"),
            braces(vec![id("_"), pj('='), p('>'), lit("0")]),
            p(','),
        ]),
    ];
    let out = short_default::default(&input).unwrap();
    assert_eq!(out[2], braces(vec![id("x"), p(':'), id("u8"), p(',')]));
}
