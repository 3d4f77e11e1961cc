//! The token-tree model that the parser reads and the synthesizer writes.
//!
//! A token is an identifier (keywords included), a punctuation character
//! with a flag saying whether it is glued to the punctuation that follows
//! (`::` is two colons, the first glued), a literal carried as its source
//! text, or a delimited group holding a nested token sequence.
//!
//! [`TokS`] is the mathematical image of a token: strings become character
//! sequences and group bodies become sequences, so contracts can state
//! token-for-token equalities.

use vstd::prelude::*;

verus! {

broadcast use vstd::std_specs::vec::group_vec_axioms, vstd::seq::axiom_seq_index_decreases, vstd::seq::axiom_seq_subrange_decreases;

/// The delimiter of a token group.
#[derive(Clone, Copy, Debug, PartialEq, Eq, Structural)]
pub enum Delim {
    /// `( ... )`
    Paren,
    /// `[ ... ]`
    Bracket,
    /// `{ ... }`
    Brace,
    /// An invisible group, as macro expansion can produce.
    Bare,
}

/// One token tree.
#[derive(Debug, PartialEq)]
pub enum Tok {
    /// An identifier or keyword, by its text.
    Ident(String),
    /// A punctuation character; the flag is true when the character is
    /// glued to an immediately following punctuation character.
    Punct(char, bool),
    /// A literal, by its source text.
    Lit(String),
    /// A delimited group of tokens.
    Group(Delim, Vec<Tok>),
}

/// The mathematical image of a token tree.
#[verifier::ext_equal]
pub enum TokS {
    /// An identifier or keyword.
    Ident(Seq<char>),
    /// A punctuation character and its glued flag.
    Punct(char, bool),
    /// A literal's source text.
    Lit(Seq<char>),
    /// A delimited group.
    Group(Delim, Seq<TokS>),
}

impl Tok {
    /// The mathematical image of this token.
    pub open spec fn deep(self) -> TokS
        decreases self,
    {
        match self {
            Tok::Ident(s) => TokS::Ident(s@),
            Tok::Punct(c, j) => TokS::Punct(c, j),
            Tok::Lit(s) => TokS::Lit(s@),
            Tok::Group(d, ts) => TokS::Group(d, deep_seq(ts@)),
        }
    }
}

/// The mathematical image of a token sequence, element by element.
pub open spec fn deep_seq(ts: Seq<Tok>) -> Seq<TokS>
    decreases ts,
{
    if ts.len() == 0 {
        Seq::empty()
    } else {
        seq![ts[0].deep()] + deep_seq(ts.drop_first())
    }
}

/// The image of a token sequence is as long as the sequence.
pub broadcast proof fn lemma_deep_seq_len(ts: Seq<Tok>)
    ensures
        #[trigger] deep_seq(ts).len() == ts.len(),
    decreases ts.len(),
{
    if ts.len() > 0 {
        lemma_deep_seq_len(ts.drop_first());
    }
}

/// The image of a token sequence holds the images of its tokens, in order.
pub broadcast proof fn lemma_deep_seq_index(ts: Seq<Tok>, i: int)
    requires
        0 <= i < ts.len(),
    ensures
        #[trigger] deep_seq(ts)[i] == ts[i].deep(),
    decreases ts.len(),
{
    lemma_deep_seq_len(ts.drop_first());
    if i > 0 {
        lemma_deep_seq_index(ts.drop_first(), i - 1);
    }
}

/// An exact copy of a token tree.
#[verifier::loop_isolation(false)]
pub fn dup_tok(t: &Tok) -> (r: Tok)
    ensures
        r.deep() == t.deep(),
    decreases *t,
{
    broadcast use lemma_deep_seq_len, lemma_deep_seq_index;

    match t {
        Tok::Ident(s) => Tok::Ident(s.clone()),
        Tok::Punct(c, j) => Tok::Punct(*c, *j),
        Tok::Lit(s) => Tok::Lit(s.clone()),
        Tok::Group(d, ts) => {
            let mut out: Vec<Tok> = Vec::new();
            let mut i: usize = 0;
            while i < ts.len()
                invariant
                    i <= ts.len(),
                    out@.len() == i,
                    forall|k: int| 0 <= k < i ==> #[trigger] out@[k].deep() == ts@[k].deep(),
                decreases ts.len() - i,
            {
                proof {
                    vstd::std_specs::vec::axiom_vec_decreases_to_view::<Tok>(*ts);
                    vstd::seq::axiom_seq_index_decreases::<Tok>(ts@, i as int);
                }
                let c = dup_tok(&ts[i]);
                out.push(c);
                i = i + 1;
            }
            proof {
                assert(deep_seq(out@) =~= deep_seq(ts@));
            }
            Tok::Group(*d, out)
        },
    }
}

impl Clone for Tok {
    /// An exact copy of this token tree.
    fn clone(&self) -> (r: Tok)
        ensures
            r.deep() == self.deep(),
    {
        dup_tok(self)
    }
}

} // verus!
