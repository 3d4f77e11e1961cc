use short_default::Delim;
use short_default::Tok;

fn id(s: &str) -> Tok {
    Tok::Ident(s.to_string())
}

fn p(c: char) -> Tok {
    Tok::Punct(c, false)
}

fn pj(c: char) -> Tok {
    Tok::Punct(c, true)
}

fn lit(s: &str) -> Tok {
    Tok::Lit(s.to_string())
}

fn braces(ts: Vec<Tok>) -> Tok {
    Tok::Group(Delim::Brace, ts)
}

fn parens(ts: Vec<Tok>) -> Tok {
    Tok::Group(Delim::Paren, ts)
}

fn bracket(ts: Vec<Tok>) -> Tok {
    Tok::Group(Delim::Bracket, ts)
}

/// `<ty as core::default::Default>::default()`
fn dcall(ty: Vec<Tok>) -> Vec<Tok> {
    let mut v = vec![p('<')];
    v.extend(ty);
    v.extend(vec![
        id("as"),
        id("core"),
        pj(':'),
        p(':'),
        id("default"),
        pj(':'),
        p(':'),
        id("Default"),
        p('>'),
        pj(':'),
        p(':'),
        id("default"),
        parens(vec![]),
    ]);
    v
}

/// `impl <generics> core::default::Default for <name> <ty_generics> <where> { fn default() -> Self { ctor } }`
fn impl_block(
    generics: Vec<Tok>,
    name: &str,
    ty_generics: Vec<Tok>,
    wher: Vec<Tok>,
    ctor: Vec<Tok>,
) -> Vec<Tok> {
    let mut v = vec![id("impl")];
    v.extend(generics);
    v.extend(vec![
        id("core"),
        pj(':'),
        p(':'),
        id("default"),
        pj(':'),
        p(':'),
        id("Default"),
        id("for"),
        id(name),
    ]);
    v.extend(ty_generics);
    v.extend(wher);
    v.push(braces(vec![
        id("fn"),
        id("default"),
        parens(vec![]),
        pj('-'),
        p('>'),
        id("Self"),
        braces(ctor),
    ]));
    v
}

/// `const _: () = { <impl> };`
fn const_wrap(impl_toks: Vec<Tok>) -> Vec<Tok> {
    vec![
        id("const"),
        id("_"),
        p(':'),
        parens(vec![]),
        p('='),
        braces(impl_toks),
        p(';'),
    ]
}

#[test]
fn struct_def() {
    // pub struct Settings {
    //     threads: usize = 1,
    //     name: String = "Short Default".to_string(),
    // }
    let input = vec![
        id("pub"),
        id("struct"),
        id("Settings"),
        braces(vec![
            id("threads"),
            p(':'),
            id("usize"),
            p('='),
            lit("1"),
            p(','),
            id("name"),
            p(':'),
            id("String"),
            p('='),
            lit("\"Short Default\""),
            p('.'),
            id("to_string"),
            parens(vec![]),
            p(','),
        ]),
    ];
    let out = short_default::default(&input).unwrap();
    let mut expected = vec![
        id("pub"),
        id("struct"),
        id("Settings"),
        braces(vec![
            id("threads"),
            p(':'),
            id("usize"),
            p(','),
            id("name"),
            p(':'),
            id("String"),
            p(','),
        ]),
    ];
    expected.extend(const_wrap(impl_block(
        vec![],
        "Settings",
        vec![],
        vec![],
        vec![
            id("Self"),
            braces(vec![
                id("threads"),
                p(':'),
                lit("1"),
                p(','),
                id("name"),
                p(':'),
                lit("\"Short Default\""),
                p('.'),
                id("to_string"),
                parens(vec![]),
            ]),
        ],
    )));
    assert_eq!(out, expected);
    // The emitted definition is the plain struct: an instance built
    // field by field, e.g. threads = 2 and name = "This is nice", is
    // governed by that definition alone; the expansion never mentions
    // such values.
    assert!(!out.contains(&lit("\"This is nice\"")));
}

#[test]
fn default_values() {
    // pub struct Config {
    //     buffer_size: u16 = 10,
    //     initial_values: u8 = 1,
    // }
    let input = vec![
        id("pub"),
        id("struct"),
        id("Config"),
        braces(vec![
            id("buffer_size"),
            p(':'),
            id("u16"),
            p('='),
            lit("10"),
            p(','),
            id("initial_values"),
            p(':'),
            id("u8"),
            p('='),
            lit("1"),
            p(','),
        ]),
    ];
    let out = short_default::default(&input).unwrap();
    let mut expected = vec![
        id("pub"),
        id("struct"),
        id("Config"),
        braces(vec![
            id("buffer_size"),
            p(':'),
            id("u16"),
            p(','),
            id("initial_values"),
            p(':'),
            id("u8"),
            p(','),
        ]),
    ];
    let ctor = vec![
        id("Self"),
        braces(vec![
            id("buffer_size"),
            p(':'),
            lit("10"),
            p(','),
            id("initial_values"),
            p(':'),
            lit("1"),
        ]),
    ];
    expected.extend(const_wrap(impl_block(
        vec![],
        "Config",
        vec![],
        vec![],
        ctor.clone(),
    )));
    assert_eq!(out, expected);
    // the generated values are exactly 10 and 1
    let im = match &out[4 + 5] {
        Tok::Group(Delim::Brace, ts) => ts.clone(),
        _ => panic!("expected the impl inside the const block"),
    };
    let fnbody = match im.last().unwrap() {
        Tok::Group(Delim::Brace, ts) => ts.clone(),
        _ => panic!("expected the fn body"),
    };
    assert_eq!(fnbody.last(), Some(&braces(ctor)));
}

#[test]
fn default_with_blanks() {
    // struct Person {
    //     name: String,
    // }
    let input = vec![
        id("struct"),
        id("Person"),
        braces(vec![id("name"), p(':'), id("String"), p(',')]),
    ];
    let out = short_default::default(&input).unwrap();
    let mut expected = vec![
        id("struct"),
        id("Person"),
        braces(vec![id("name"), p(':'), id("String"), p(',')]),
    ];
    let mut ctor_fields = vec![id("name"), p(':')];
    ctor_fields.extend(dcall(vec![id("String")]));
    expected.extend(const_wrap(impl_block(
        vec![],
        "Person",
        vec![],
        vec![],
        vec![id("Self"), braces(ctor_fields)],
    )));
    assert_eq!(out, expected);
}

#[test]
fn generics() {
    // struct MyVec<T> {
    //     inner: Vec<T>,
    // }
    let input = vec![
        id("struct"),
        id("MyVec"),
        p('<'),
        id("T"),
        p('>'),
        braces(vec![
            id("inner"),
            p(':'),
            id("Vec"),
            p('<'),
            id("T"),
            p('>'),
            p(','),
        ]),
    ];
    let out = short_default::default(&input).unwrap();
    let mut expected = vec![
        id("struct"),
        id("MyVec"),
        p('<'),
        id("T"),
        p('>'),
        braces(vec![
            id("inner"),
            p(':'),
            id("Vec"),
            p('<'),
            id("T"),
            p('>'),
            p(','),
        ]),
    ];
    let mut ctor_fields = vec![id("inner"), p(':')];
    ctor_fields.extend(dcall(vec![id("Vec"), p('<'), id("T"), p('>')]));
    expected.extend(const_wrap(impl_block(
        vec![p('<'), id("T"), p('>')],
        "MyVec",
        vec![p('<'), id("T"), p('>')],
        vec![],
        vec![id("Self"), braces(ctor_fields)],
    )));
    assert_eq!(out, expected);
}

#[test]
fn field_attributes() {
    // #[derive(Clone, Debug, AbsDiffEq, PartialEq)]
    // struct Chili {
    //     /// This should be on a scale of 0.0 to 10.0
    //     hunger: f32 = 9.0,
    // }
    let derive_attr = vec![
        p('#'),
        bracket(vec![
            id("derive"),
            parens(vec![
                id("Clone"),
                p(','),
                id("Debug"),
                p(','),
                id("AbsDiffEq"),
                p(','),
                id("PartialEq"),
            ]),
        ]),
    ];
    let doc_attr = vec![
        p('#'),
        bracket(vec![
            id("doc"),
            p('='),
            lit("\" This should be on a scale of 0.0 to 10.0\""),
        ]),
    ];
    let mut input = derive_attr.clone();
    input.extend(vec![id("struct"), id("Chili")]);
    let mut body = doc_attr.clone();
    body.extend(vec![
        id("hunger"),
        p(':'),
        id("f32"),
        p('='),
        lit("9.0"),
        p(','),
    ]);
    input.push(braces(body));
    let out = short_default::default(&input).unwrap();
    // the struct attribute comes through verbatim
    assert_eq!(&out[..2], &derive_attr[..]);
    // the field attribute comes through verbatim, the default removed
    let mut plain_body = doc_attr.clone();
    plain_body.extend(vec![id("hunger"), p(':'), id("f32"), p(',')]);
    assert_eq!(out[4], braces(plain_body));
    // the generated value is exactly 9.0
    let mut expected = input[..2].to_vec();
    expected.extend(vec![id("struct"), id("Chili")]);
    let mut stripped_body = doc_attr.clone();
    stripped_body.extend(vec![id("hunger"), p(':'), id("f32"), p(',')]);
    expected.push(braces(stripped_body));
    expected.extend(const_wrap(impl_block(
        vec![],
        "Chili",
        vec![],
        vec![],
        vec![
            id("Self"),
            braces(vec![id("hunger"), p(':'), lit("9.0")]),
        ],
    )));
    assert_eq!(out, expected);
}
