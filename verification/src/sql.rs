//! A model of SQL statement text as a sequence of pieces, each either literal
//! text or a numbered bind placeholder (`$n`), and a writer that builds the
//! text while keeping the model in step.

use vstd::prelude::*;

use crate::text::{decimal, push_char, push_decimal, push_str};

verus! {

/// One piece of a SQL statement.
pub ghost enum Piece {
    /// Literal SQL text.
    Text(Seq<char>),
    /// A bind placeholder `$n`.
    Param(nat),
}

/// The characters a piece stands for.
pub open spec fn piece_text(p: Piece) -> Seq<char> {
    match p {
        Piece::Text(t) => t,
        Piece::Param(n) => seq!['$'] + decimal(n),
    }
}

/// The SQL text of a sequence of pieces.
pub open spec fn render(ps: Seq<Piece>) -> Seq<char>
    decreases ps.len(),
{
    if ps.len() == 0 {
        Seq::empty()
    } else {
        render(ps.drop_last()) + piece_text(ps.last())
    }
}

/// The numbers of the placeholders among `ps`, in order of appearance.
pub open spec fn placeholders(ps: Seq<Piece>) -> Seq<nat>
    decreases ps.len(),
{
    if ps.len() == 0 {
        Seq::empty()
    } else {
        placeholders(ps.drop_last()) + match ps.last() {
            Piece::Param(n) => seq![n],
            Piece::Text(_) => Seq::empty(),
        }
    }
}

/// The numbers `start, start + 1, ..., start + count - 1`.
pub open spec fn consecutive(start: nat, count: nat) -> Seq<nat> {
    Seq::new(count, |i: int| (start + i) as nat)
}

/// Pieces holding literal text only.
pub open spec fn all_text(ps: Seq<Piece>) -> bool {
    forall|i: int| 0 <= i < ps.len() ==> #[trigger] ps[i] is Text
}

/// Placeholder extraction distributes over concatenation.
pub proof fn lemma_placeholders_concat(a: Seq<Piece>, b: Seq<Piece>)
    ensures
        placeholders(a + b) == placeholders(a) + placeholders(b),
    decreases b.len(),
{
    if b.len() == 0 {
        assert(a + b =~= a);
    } else {
        lemma_placeholders_concat(a, b.drop_last());
        assert((a + b).drop_last() =~= a + b.drop_last());
        assert((a + b).last() == b.last());
    }
}

/// Literal text holds no placeholder.
pub proof fn lemma_placeholders_text(ps: Seq<Piece>)
    requires
        all_text(ps),
    ensures
        placeholders(ps) == Seq::<nat>::empty(),
    decreases ps.len(),
{
    if ps.len() > 0 {
        assert(ps.last() == ps[ps.len() - 1]);
        lemma_placeholders_text(ps.drop_last());
    }
}

/// Literal text followed by literal text is literal text.
pub proof fn lemma_all_text_concat(a: Seq<Piece>, b: Seq<Piece>)
    requires
        all_text(a),
        all_text(b),
    ensures
        all_text(a + b),
{
    assert forall|i: int| 0 <= i < (a + b).len() implies #[trigger] (a + b)[i] is Text by {
        if i < a.len() {
            assert((a + b)[i] == a[i]);
        } else {
            assert((a + b)[i] == b[i - a.len()]);
        }
    }
}

/// Two consecutive runs make one.
pub proof fn lemma_consecutive_concat(start: nat, a: nat, b: nat)
    ensures
        consecutive(start, a) + consecutive(start + a, b) == consecutive(start, a + b),
{
    assert(consecutive(start, a) + consecutive(start + a, b) =~= consecutive(start, a + b));
}

/// SQL text under construction, together with the pieces it was built
/// from; its text is always the rendering of its pieces.
pub struct SqlWriter {
    text: String,
    pieces: Ghost<Seq<Piece>>,
}

impl View for SqlWriter {
    type V = Seq<Piece>;

    closed spec fn view(&self) -> Seq<Piece> {
        self.pieces@
    }
}

impl SqlWriter {
    /// The text is the rendering of the pieces.
    #[verifier::type_invariant]
    closed spec fn text_renders_pieces(self) -> bool {
        self.text@ == render(self.pieces@)
    }

    /// An empty statement.
    pub fn new() -> (w: SqlWriter)
        ensures
            w@ == Seq::<Piece>::empty(),
    {
        SqlWriter { text: String::new(), pieces: Ghost(Seq::empty()) }
    }

    /// Takes the text and the pieces out, leaving an empty writer.
    fn take(&mut self) -> (r: (String, Ghost<Seq<Piece>>))
        ensures
            r.0@ == render(old(self)@),
            r.1@ == old(self)@,
    {
        proof {
            use_type_invariant(&*self);
        }
        let mut w = SqlWriter::new();
        std::mem::swap(&mut w, self);
        proof {
            use_type_invariant(&w);
        }
        let SqlWriter { text, pieces } = w;
        (text, pieces)
    }

    /// Appends literal text.
    pub fn text(&mut self, t: &str)
        ensures
            final(self)@ == old(self)@.push(Piece::Text(t@)),
    {
        let (mut text, pieces) = self.take();
        push_str(&mut text, t);
        let ghost new_pieces = pieces@.push(Piece::Text(t@));
        proof {
            assert(new_pieces.drop_last() =~= pieces@);
        }
        *self = SqlWriter { text, pieces: Ghost(new_pieces) };
    }

    /// Appends the decimal digits of `n` as literal text.
    pub fn number(&mut self, n: u64)
        ensures
            final(self)@ == old(self)@.push(Piece::Text(decimal(n as nat))),
    {
        let (mut text, pieces) = self.take();
        push_decimal(&mut text, n);
        let ghost new_pieces = pieces@.push(Piece::Text(decimal(n as nat)));
        proof {
            assert(new_pieces.drop_last() =~= pieces@);
        }
        *self = SqlWriter { text, pieces: Ghost(new_pieces) };
    }

    /// Appends the placeholder `$n`.
    pub fn param(&mut self, n: u64)
        ensures
            final(self)@ == old(self)@.push(Piece::Param(n as nat)),
    {
        let (mut text, pieces) = self.take();
        push_char(&mut text, '$');
        push_decimal(&mut text, n);
        let ghost new_pieces = pieces@.push(Piece::Param(n as nat));
        proof {
            assert(new_pieces.drop_last() =~= pieces@);
            assert(text@ =~= render(pieces@) + piece_text(Piece::Param(n as nat)));
        }
        *self = SqlWriter { text, pieces: Ghost(new_pieces) };
    }

    /// The finished statement text: the rendering of the pieces.
    pub fn finish(self) -> (s: String)
        ensures
            s@ == render(self@),
    {
        proof {
            use_type_invariant(&self);
        }
        self.text
    }
}

} // verus!
