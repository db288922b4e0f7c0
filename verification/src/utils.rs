//! Query strings: `name=value` pairs joined by `&`, with names and values
//! percent-encoded.
//!
//! Checking and undoing the percent-encoding is left to the `fluent-uri`
//! crate. Taking the string apart is done here.

use fluent_uri::encoding::encoder::IQuery;
use fluent_uri::encoding::EStr;
use vstd::prelude::*;

verus! {

/// What `fluent-uri` decodes a text to: the text with each percent-encoded
/// octet replaced by the octet, read as UTF-8 with a replacement character
/// for whatever is not. `None` where the text is not a properly encoded
/// query.
pub uninterp spec fn decoded(text: Seq<char>) -> Option<Seq<char>>;

/// `EStr::<IQuery>::new`, asked only whether it accepts the text.
#[verifier::external_body]
fn estr_accepts(text: &str) -> (accepted: bool)
    ensures
        accepted == decoded(text@) is Some,
{
    EStr::<IQuery>::new(text).is_some()
}

/// `EStr::<IQuery>::new`, then `EStr::decode` and
/// `Decode::into_string_lossy`: the decoded text of a properly encoded one.
#[verifier::external_body]
fn estr_decode(text: &str) -> (plain: Option<String>)
    ensures
        crate::text::owned_text_of(plain) == decoded(text@),
{
    EStr::<IQuery>::new(text).map(|encoded| encoded.decode().into_string_lossy().into_owned())
}

/// `str::split_once` with a character as the pattern: the text before the
/// first occurrence of the character and the text after it, or `None` if the
/// character does not occur.
#[verifier::external_body]
fn split_once_at<'a>(text: &'a str, mark: char) -> (parts: Option<(&'a str, &'a str)>)
    ensures
        parts is None <==> position(text@, mark) is None,
        parts matches Some(halves) ==> position(text@, mark) == Some(halves.0@.len() as int)
            && halves.0@ == text@.take(halves.0@.len() as int) && halves.1@ == text@.skip(
            halves.0@.len() as int + 1,
        ),
{
    text.split_once(mark)
}

/// Where `mark` first occurs in `text`.
pub open spec fn position(text: Seq<char>, mark: char) -> Option<int>
    decreases text.len(),
{
    if text.len() == 0 {
        None
    } else if text[0] == mark {
        Some(0)
    } else {
        match position(text.skip(1), mark) {
            Some(at) => Some(at + 1),
            None => None,
        }
    }
}

/// A position found lies inside the text, holds the mark, and is the first
/// to do so; where none is found, the mark does not occur.
pub proof fn position_is_first(text: Seq<char>, mark: char)
    ensures
        match position(text, mark) {
            Some(at) => 0 <= at < text.len() && text[at] == mark && forall|i: int|
                0 <= i < at ==> text[i] != mark,
            None => forall|i: int| 0 <= i < text.len() ==> text[i] != mark,
        },
    decreases text.len(),
{
    if text.len() > 0 && text[0] != mark {
        position_is_first(text.skip(1), mark);
        match position(text.skip(1), mark) {
            Some(at) => {
                assert forall|i: int| 0 <= i < at + 1 implies text[i] != mark by {
                    if i > 0 {
                        assert(text.skip(1)[i - 1] == text[i]);
                    }
                }
            },
            None => {
                assert forall|i: int| 0 <= i < text.len() implies text[i] != mark by {
                    if i > 0 {
                        assert(text.skip(1)[i - 1] == text[i]);
                    }
                }
            },
        }
    }
}

/// The stretches of `text` between occurrences of `mark`. A text without
/// the mark is one piece, also when it is empty.
pub open spec fn pieces(text: Seq<char>, mark: char) -> Seq<Seq<char>>
    decreases text.len(),
    via pieces_decreases
{
    match position(text, mark) {
        None => seq![text],
        Some(at) => seq![text.take(at)] + pieces(text.skip(at + 1), mark),
    }
}

#[via_fn]
proof fn pieces_decreases(text: Seq<char>, mark: char) {
    position_is_first(text, mark);
}

/// The plain text of an encoded one; empty where it is not properly
/// encoded.
pub open spec fn plain(text: Seq<char>) -> Seq<char> {
    match decoded(text) {
        Some(plain) => plain,
        None => Seq::empty(),
    }
}

/// Name and value of one piece of a query: what stands before the first `=`
/// and what stands after it, decoded. A piece without `=` is a name with an
/// empty value.
pub open spec fn pair_of(piece: Seq<char>) -> (Seq<char>, Seq<char>) {
    match position(piece, '=') {
        Some(at) => (plain(piece.take(at)), plain(piece.skip(at + 1))),
        None => (plain(piece), Seq::empty()),
    }
}

/// The pairs of a query string, in the order in which they are written. A
/// string that is not properly encoded is read as the empty string, which
/// holds one pair: an empty name with an empty value.
pub open spec fn parsed(query: Seq<char>) -> Seq<(Seq<char>, Seq<char>)> {
    pieces(
        if decoded(query) is Some {
            query
        } else {
            Seq::empty()
        },
        '&',
    ).map_values(|piece: Seq<char>| pair_of(piece))
}

/// The value that a list of pairs gives a name: that of the last pair with
/// the name.
pub open spec fn value_of(pairs: Seq<(Seq<char>, Seq<char>)>, name: Seq<char>) -> Option<Seq<char>>
    decreases pairs.len(),
{
    if pairs.len() == 0 {
        None
    } else if pairs.last().0 == name {
        Some(pairs.last().1)
    } else {
        value_of(pairs.drop_last(), name)
    }
}

/// Name and value of each pair, as characters.
pub open spec fn pair_views(pairs: Seq<(String, String)>) -> Seq<(Seq<char>, Seq<char>)> {
    pairs.map_values(|pair: (String, String)| (pair.0@, pair.1@))
}

/// The parameters of a request.
#[derive(Clone, Debug, Default, PartialEq, Eq)]
pub struct Queries {
    pairs: Vec<(String, String)>,
}

impl View for Queries {
    type V = Seq<(Seq<char>, Seq<char>)>;

    closed spec fn view(&self) -> Seq<(Seq<char>, Seq<char>)> {
        pair_views(self.pairs@)
    }
}

impl Queries {
    /// No parameters.
    pub fn new() -> (queries: Queries)
        ensures
            queries@ == Seq::<(Seq<char>, Seq<char>)>::empty(),
    {
        let queries = Queries { pairs: Vec::new() };
        assert(queries@ =~= Seq::<(Seq<char>, Seq<char>)>::empty());
        queries
    }

    /// Name and value of one piece.
    fn pair(piece: &str) -> (pair: (String, String))
        ensures
            (pair.0@, pair.1@) == pair_of(piece@),
    {
        match split_once_at(piece, '=') {
            Some(halves) => (Self::decode(halves.0), Self::decode(halves.1)),
            None => (Self::decode(piece), String::new()),
        }
    }

    /// The plain text of an encoded one.
    fn decode(text: &str) -> (decoded: String)
        ensures
            decoded@ == plain(text@),
    {
        match estr_decode(text) {
            Some(plain) => plain,
            None => String::new(),
        }
    }

    /// Reads a query string.
    pub fn try_parse(query: &str) -> (queries: Queries)
        ensures
            queries@ == parsed(query@),
    {
        let mut rest: &str = if estr_accepts(query) {
            query
        } else {
            proof {
                reveal_strlit("");
            }
            ""
        };
        assert(rest@ =~= (if decoded(query@) is Some {
            query@
        } else {
            Seq::empty()
        }));
        let ghost whole = rest@;
        let mut pairs: Vec<(String, String)> = Vec::new();
        let mut done: bool = false;
        assert(pair_views(pairs@) =~= Seq::empty());
        while !done
            invariant
                !done ==> pieces(whole, '&').map_values(|piece: Seq<char>| pair_of(piece))
                    == pair_views(pairs@) + pieces(rest@, '&').map_values(
                    |piece: Seq<char>| pair_of(piece),
                ),
                done ==> pieces(whole, '&').map_values(|piece: Seq<char>| pair_of(piece))
                    == pair_views(pairs@),
            decreases rest@.len() + (if done { 0int } else { 1int }),
        {
            let ghost before = pair_views(pairs@);
            let ghost left = rest@;
            proof {
                position_is_first(left, '&');
            }
            match split_once_at(rest, '&') {
                Some(halves) => {
                    pairs.push(Self::pair(halves.0));
                    rest = halves.1;
                    proof {
                        let mapped = pieces(left, '&').map_values(
                            |piece: Seq<char>| pair_of(piece),
                        );
                        let tail = pieces(rest@, '&').map_values(|piece: Seq<char>| pair_of(piece));
                        assert(pair_views(pairs@) =~= before.push(pair_of(halves.0@)));
                        assert(mapped =~= seq![pair_of(halves.0@)] + tail);
                        assert(before + mapped =~= pair_views(pairs@) + tail);
                    }
                },
                None => {
                    pairs.push(Self::pair(rest));
                    done = true;
                    proof {
                        let mapped = pieces(left, '&').map_values(
                            |piece: Seq<char>| pair_of(piece),
                        );
                        assert(pair_views(pairs@) =~= before.push(pair_of(left)));
                        assert(mapped =~= seq![pair_of(left)]);
                        assert(before + mapped =~= pair_views(pairs@));
                    }
                },
            }
        }
        Queries { pairs }
    }

    /// Reads the query of a request, if it has one.
    pub fn try_parse_uri(query: Option<&str>) -> (queries: Queries)
        ensures
            queries@ == (match query {
                Some(text) => parsed(text@),
                None => Seq::empty(),
            }),
    {
        match query {
            Some(text) => Self::try_parse(text),
            None => Self::new(),
        }
    }

    /// The value of a parameter. Where a name is given more than once, the
    /// last one counts.
    pub fn get(&self, name: &str) -> (value: Option<&str>)
        ensures
            crate::text::text_of(value) == value_of(self@, name@),
    {
        let mut i: usize = self.pairs.len();
        assert(self@.take(i as int) =~= self@);
        while i > 0
            invariant
                i <= self.pairs@.len(),
                value_of(self@, name@) == value_of(self@.take(i as int), name@),
            decreases i,
        {
            i -= 1;
            let ghost upto = self@.take(i + 1);
            assert(upto.last() == (self.pairs@[i as int].0@, self.pairs@[i as int].1@));
            assert(upto.drop_last() =~= self@.take(i as int));
            if crate::text::same_text(self.pairs[i].0.as_str(), name) {
                return Some(self.pairs[i].1.as_str());
            }
        }
        assert(self@.take(0).len() == 0);
        None
    }

    /// The number of pairs.
    pub fn len(&self) -> (len: usize)
        ensures
            len == self@.len(),
    {
        self.pairs.len()
    }
}

} // verus!
