//! What a request asks for, read from the parts of it that matter: the
//! identifier, the kind of image, and the flags. Taking a request apart and
//! sending the answer is left to the server around this library.

use crate::text::{same_text, text_of};
use vstd::prelude::*;

verus! {

/// The images that can be asked for.
#[derive(Clone, Copy, Debug, PartialEq, Eq, Structural)]
pub enum GreetingKind {
    /// The greeting card.
    General,
    /// The counter drawn in digits.
    MoeCounter,
    /// The profile card.
    LinuxDoCard,
}

/// `text` without the `lead` characters that it starts with.
pub open spec fn strip_leading(text: Seq<char>, lead: char) -> Seq<char>
    decreases text.len(),
{
    if text.len() > 0 && text[0] == lead {
        strip_leading(text.skip(1), lead)
    } else {
        text
    }
}

/// The first of three values that is there.
pub open spec fn first_given(
    first: Option<Seq<char>>,
    second: Option<Seq<char>>,
    third: Option<Seq<char>>,
) -> Option<Seq<char>> {
    if first is Some {
        first
    } else if second is Some {
        second
    } else {
        third
    }
}

/// The identifier that a request names: the one in the path, else the `id`
/// parameter, else the `key` parameter. If the one that counts is empty, the
/// request names none; no other is tried in its place. Leading `@` signs do
/// not belong to the identifier.
pub open spec fn requested(
    path: Option<Seq<char>>,
    id: Option<Seq<char>>,
    key: Option<Seq<char>>,
) -> Option<Seq<char>> {
    match first_given(path, id, key) {
        Some(text) if text.len() > 0 => Some(strip_leading(text, '@')),
        _ => None,
    }
}

/// The kind of image: what the `type` parameter says, unless the route
/// forces a kind. A forced profile card wins over everything; a forced
/// counter yields only to a profile card asked for by name.
pub open spec fn kind_of(
    kind: Option<Seq<char>>,
    force_moe_counter: bool,
    force_linux_do_card: bool,
) -> GreetingKind {
    if kind == Some("linux-do-card"@) || force_linux_do_card {
        GreetingKind::LinuxDoCard
    } else if kind == Some("moe-counter"@) || force_moe_counter {
        GreetingKind::MoeCounter
    } else {
        GreetingKind::General
    }
}

/// The address that the forum's own pages start with, in bytes.
pub open spec fn forum_prefix() -> Seq<u8> {
    seq![
        0x68u8, 0x74u8, 0x74u8, 0x70u8, 0x73u8, 0x3au8, 0x2fu8, 0x2fu8, 0x6cu8, 0x69u8, 0x6eu8,
        0x75u8, 0x78u8, 0x2eu8, 0x64u8, 0x6fu8, 0x2fu8,
    ]
}

/// `str::trim_start_matches` with `@` as the pattern: the text without the
/// `@` signs that it starts with.
#[verifier::external_body]
fn without_leading_ats(text: &str) -> (rest: &str)
    ensures
        rest@ == strip_leading(text@, '@'),
{
    text.trim_start_matches('@')
}

/// The identifier that a request names, if it names one.
pub fn requested_id<'a>(path: Option<&'a str>, id: Option<&'a str>, key: Option<&'a str>) -> (found:
    Option<&'a str>)
    ensures
        text_of(found) == requested(text_of(path), text_of(id), text_of(key)),
{
    let chosen: Option<&'a str> = match path {
        Some(text) => Some(text),
        None => match id {
            Some(text) => Some(text),
            None => key,
        },
    };
    match chosen {
        Some(text) => {
            if text.is_empty() {
                None
            } else {
                Some(without_leading_ats(text))
            }
        },
        None => None,
    }
}

/// The kind of image that a request asks for.
pub fn greeting_kind(kind: Option<&str>, force_moe_counter: bool, force_linux_do_card: bool) -> (chosen:
    GreetingKind)
    ensures
        chosen == kind_of(text_of(kind), force_moe_counter, force_linux_do_card),
{
    let named_card: bool = match kind {
        Some(text) => same_text(text, "linux-do-card"),
        None => false,
    };
    let named_counter: bool = match kind {
        Some(text) => same_text(text, "moe-counter"),
        None => false,
    };
    if named_card || force_linux_do_card {
        GreetingKind::LinuxDoCard
    } else if named_counter || force_moe_counter {
        GreetingKind::MoeCounter
    } else {
        GreetingKind::General
    }
}

/// Whether a visit is only to be read, not counted: the `debug` parameter
/// has to say `true`, to the letter.
pub fn is_debug(debug: Option<&str>) -> (set: bool)
    ensures
        set == (text_of(debug) == Some("true"@)),
{
    match debug {
        Some(text) => same_text(text, "true"),
        None => false,
    }
}

/// Whether a request was sent from the forum's own pages, going by the
/// address it names as its referrer.
pub fn from_linux_do(referer: Option<&[u8]>) -> (from_forum: bool)
    ensures
        from_forum == (referer matches Some(bytes) && forum_prefix().is_prefix_of(bytes@)),
{
    let prefix: [u8; 17] = [
        0x68, 0x74, 0x74, 0x70, 0x73, 0x3a, 0x2f, 0x2f, 0x6c, 0x69, 0x6e, 0x75, 0x78, 0x2e, 0x64,
        0x6f, 0x2f,
    ];
    assert(prefix@ =~= forum_prefix());
    match referer {
        None => false,
        Some(bytes) => {
            if bytes.len() < 17 {
                return false;
            }
            let mut i: usize = 0;
            while i < 17
                invariant
                    i <= 17,
                    referer == Some(bytes),
                    bytes@.len() >= 17,
                    prefix@ == forum_prefix(),
                    forall|j: int| 0 <= j < i ==> bytes@[j] == prefix@[j],
                decreases 17 - i,
            {
                if bytes[i] != prefix[i] {
                    assert(bytes@.subrange(0, 17)[i as int] != forum_prefix()[i as int]);
                    return false;
                }
                i += 1;
            }
            assert(bytes@.subrange(0, 17) =~= forum_prefix());
            true
        },
    }
}

} // verus!
