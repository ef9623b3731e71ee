//! One-pass serialization of a token stream.
use vstd::prelude::*;
use vstd::string::*;

use crate::render::{bare_text, render_token, token_text};
use crate::token::{is_word, token_is_word, SerializeError, TokenValue};

verus! {

/// What the token source yields: a token, or the preprocessor's error and where it occurred.
pub type SourceItem = Result<TokenValue, (pp_rs::token::PreprocessorError, pp_rs::token::Location)>;

/// The serializer's state: the text so far, and whether the last token was a word.
pub type SerialState = (Seq<char>, bool);

/// The state after one more item, or the error that ends serialization.
pub open spec fn step(st: SerialState, item: SourceItem) -> Result<SerialState, SerializeError> {
    match item {
        Err((e, at)) => Err(SerializeError::Source(e, at)),
        Ok(t) => match token_text(t, st.1) {
            Ok(x) => Ok((st.0 + x, is_word(t))),
            Err(e) => Err(e),
        },
    }
}

/// The state after a whole sequence of items, stopping at the first error.
pub open spec fn run(items: Seq<SourceItem>) -> Result<SerialState, SerializeError>
    decreases items.len(),
{
    if items.len() == 0 {
        Ok((Seq::empty(), false))
    } else {
        match run(items.drop_last()) {
            Ok(st) => step(st, items.last()),
            Err(e) => Err(e),
        }
    }
}

/// The text of a whole sequence of items, or the first error met.
pub open spec fn serialized(items: Seq<SourceItem>) -> Result<Seq<char>, SerializeError> {
    match run(items) {
        Ok(st) => Ok(st.0),
        Err(e) => Err(e),
    }
}

/// Serializes tokens one at a time, as a token source yields them.
pub struct Serializer {
    output: String,
    after_word: bool,
}

impl View for Serializer {
    type V = SerialState;

    closed spec fn view(&self) -> SerialState {
        (self.output@, self.after_word)
    }
}

impl Serializer {
    pub fn new() -> (s: Self)
        ensures
            s@ == (Seq::<char>::empty(), false),
    {
        Serializer { output: String::new(), after_word: false }
    }

    /// Takes the next item of the token source. On an error the state is left
    /// as it was, and the caller is to stop.
    pub fn feed(&mut self, item: SourceItem) -> (r: Result<(), SerializeError>)
        ensures
            match step(old(self)@, item) {
                Ok(st) => r is Ok && final(self)@ == st,
                Err(e) => r == Err::<(), SerializeError>(e) && final(self)@ == old(self)@,
            },
    {
        match item {
            Err((e, at)) => Err(SerializeError::Source(e, at)),
            Ok(t) => match render_token(&t, self.after_word) {
                Ok(x) => {
                    self.output.append(x.as_str());
                    self.after_word = token_is_word(&t);
                    Ok(())
                },
                Err(e) => Err(e),
            },
        }
    }

    /// The text serialized so far.
    pub fn finish(self) -> (r: String)
        ensures
            r@ == self@.0,
    {
        self.output
    }
}

/// Serializes a whole sequence of items: the text, or the first error met.
pub fn serialize(items: Vec<SourceItem>) -> (r: Result<String, SerializeError>)
    ensures
        match serialized(items@) {
            Ok(x) => r matches Ok(s) && s@ == x,
            Err(e) => r == Err::<String, SerializeError>(e),
        },
{
    let ghost all = items@;
    let mut ser = Serializer::new();
    for item in it: items.into_iter()
        invariant
            it.seq() == all,
            run(all.take(it.index() as int)) == Ok::<SerialState, SerializeError>(ser@),
    {
        let ghost k = it.index() as int;
        proof {
            assert(all.take(k + 1).drop_last() =~= all.take(k));
        }
        match ser.feed(item) {
            Ok(()) => {},
            Err(e) => {
                proof {
                    lemma_error_persists(all, k + 1);
                }
                return Err(e);
            },
        }
    }
    proof {
        assert(all.take(all.len() as int) =~= all);
    }
    Ok(ser.finish())
}

/// Once serialization has failed, no later item changes the error.
pub proof fn lemma_error_persists(items: Seq<SourceItem>, k: int)
    requires
        0 <= k <= items.len(),
        run(items.take(k)) is Err,
    ensures
        run(items) == run(items.take(k)),
    decreases items.len() - k,
{
    if k < items.len() {
        assert(items.take(k + 1).drop_last() =~= items.take(k));
        lemma_error_persists(items, k + 1);
    } else {
        assert(items.take(k) =~= items);
    }
}

/// Adjacency spacing: after a token `a`, the text of the next token `b` is
/// preceded by exactly one space when both are words (identifiers or numeric
/// literals), and by nothing otherwise.
pub proof fn lemma_adjacency_spacing(items: Seq<SourceItem>, a: TokenValue, b: TokenValue)
    requires
        serialized(items.push(Ok(a))) is Ok,
        bare_text(b) is Ok,
    ensures
        serialized(items.push(Ok(a)).push(Ok(b))) == Ok::<Seq<char>, SerializeError>(
            serialized(items.push(Ok(a)))->Ok_0 + (if is_word(a) && is_word(b) {
                seq![' ']
            } else {
                Seq::empty()
            }) + bare_text(b)->Ok_0,
        ),
{
    let first = items.push(Ok(a));
    let both = first.push(Ok(b));
    assert(first.drop_last() =~= items);
    assert(both.drop_last() =~= first);
    let sep: Seq<char> = if is_word(a) && is_word(b) {
        seq![' ']
    } else {
        Seq::empty()
    };
    assert(sep + bare_text(b)->Ok_0 == token_text(b, is_word(a))->Ok_0) by {
        if !(is_word(a) && is_word(b)) {
            assert(sep + bare_text(b)->Ok_0 =~= bare_text(b)->Ok_0);
        }
    }
    assert(run(first)->Ok_0.0 + (sep + bare_text(b)->Ok_0) =~= run(first)->Ok_0.0 + sep
        + bare_text(b)->Ok_0);
}

/// Error propagation: where the token source fails at position `k` and the
/// tokens before it serialize, the whole serialization fails with that error
/// and yields no text.
pub proof fn lemma_error_propagation(
    items: Seq<SourceItem>,
    k: int,
    e: pp_rs::token::PreprocessorError,
    at: pp_rs::token::Location,
)
    requires
        0 <= k < items.len(),
        items[k] == Err::<TokenValue, _>((e, at)),
        serialized(items.take(k)) is Ok,
    ensures
        serialized(items) == Err::<Seq<char>, SerializeError>(SerializeError::Source(e, at)),
{
    assert(items.take(k + 1).drop_last() =~= items.take(k));
    lemma_error_persists(items, k + 1);
}

} // verus!
