//! The session that the site hands out on its landing page.

use vstd::prelude::*;
use vstd::string::*;
use crate::error::SureError;

verus! {

/// The landing page, which answers with a session.
pub const SESSION_URL: &'static str = "https://www.utahrealestate.com/index/public.index";

/// The response header that carries the session.
pub const SESSION_HEADER: &'static str = "set-cookie";

/// The shape of a session in that header: the name, `=`, the token and a
/// semicolon. The session is what the group holds, which is the token.
pub const SESSION_PATTERN: &'static str = "PHPSESSID=([\\w\\S]+);";

/// The group of [`SESSION_PATTERN`] that holds the session.
pub const SESSION_GROUP: usize = 1;

/// What a search of `haystack` for the regular expression `pattern` finds:
/// for each match, from left to right and without overlap, the text of the
/// capture group `group`, or nothing where the match has no such group or
/// the group took no part in it. Nothing at all where the pattern is refused.
///
/// The pattern is compiled by `regex::Regex::new`, the matches come from
/// `Regex::captures_iter` and the group's text from `Captures::get`.
pub uninterp spec fn capture_matches(pattern: Seq<char>, group: nat, haystack: Seq<char>) -> Option<
    Seq<Option<Seq<char>>>,
>;

/// The contents of a list of captures.
pub open spec fn captured(captures: Seq<Option<String>>) -> Seq<Option<Seq<char>>> {
    Seq::new(
        captures.len(),
        |i: int|
            match captures[i] {
                Some(text) => Some(text@),
                None => None,
            },
    )
}

/// `part` stands in `whole`, in one piece.
pub open spec fn is_part_of(part: Seq<char>, whole: Seq<char>) -> bool {
    exists|from: int, to: int|
        0 <= from <= to <= whole.len() && part == #[trigger] whole.subrange(from, to)
}

/// Compiles `pattern` with the `regex` crate and collects the text of the
/// capture group `group` from every match in `haystack`. The contract claims
/// that the outcome is fixed by the three arguments, that it is `None`
/// exactly when `Regex::new` returns an error, and that what a group holds
/// is a piece of the haystack, as `Match::as_str` cuts it out.
#[verifier::external_body]
fn find_captures(pattern: &str, group: usize, haystack: &str) -> (found: Option<
    Vec<Option<String>>,
>)
    ensures
        match found {
            Some(captures) => capture_matches(pattern@, group as nat, haystack@) == Some(
                captured(captures@),
            ) && forall|i: int|
                0 <= i < captures@.len() ==> match #[trigger] captures@[i] {
                    Some(text) => is_part_of(text@, haystack@),
                    None => true,
                },
            None => capture_matches(pattern@, group as nat, haystack@) is None,
        },
{
    match regex::Regex::new(pattern) {
        Ok(compiled) => Some(
            compiled
                .captures_iter(haystack)
                .map(|found| found.get(group).map(|part| String::from(part.as_str())))
                .collect(),
        ),
        Err(_) => None,
    }
}

/// The capture that counts: the last one that holds a text. The empty text
/// where there is none.
pub open spec fn last_capture(captures: Seq<Option<Seq<char>>>) -> Seq<char>
    decreases captures.len(),
{
    if captures.len() == 0 {
        Seq::empty()
    } else {
        match captures.last() {
            Some(text) => text,
            None => last_capture(captures.drop_last()),
        }
    }
}

/// The session that a search of the header gives, or why there is none.
pub open spec fn session_of(found: Option<Seq<Option<Seq<char>>>>) -> Result<Seq<char>, SureError> {
    match found {
        None => Err(SureError::SessionPattern),
        Some(captures) => if last_capture(captures).len() == 0 {
            Err(SureError::NoSessionToken)
        } else {
            Ok(last_capture(captures))
        },
    }
}

/// The contents of a session or the reason for its absence.
pub open spec fn session_text(session: Result<String, SureError>) -> Result<Seq<char>, SureError> {
    match session {
        Ok(id) => Ok(id@),
        Err(error) => Err(error),
    }
}

/// The contents of what a search found.
pub open spec fn found_text(found: Option<Vec<Option<String>>>) -> Option<Seq<Option<Seq<char>>>> {
    match found {
        Some(captures) => Some(captured(captures@)),
        None => None,
    }
}

/// Picks the session out of what a search of the header found. Without a
/// capture that holds a text there is no session, and the run cannot go on.
pub fn pick_session_id(found: Option<Vec<Option<String>>>) -> (session: Result<String, SureError>)
    ensures
        session_text(session) == session_of(found_text(found)),
{
    let captures = match found {
        Some(captures) => captures,
        None => {
            return Err(SureError::SessionPattern);
        },
    };
    let mut id = String::new();
    let mut i: usize = 0;
    assert(captured(captures@).take(0) == Seq::<Option<Seq<char>>>::empty());
    while i < captures.len()
        invariant
            i <= captures@.len(),
            id@ == last_capture(captured(captures@).take(i as int)),
        decreases captures@.len() - i,
    {
        proof {
            let upto = captured(captures@).take(i + 1);
            assert(upto.drop_last() == captured(captures@).take(i as int));
            assert(upto.last() == captured(captures@)[i as int]);
        }
        match &captures[i] {
            Some(text) => {
                id = text.clone();
            },
            None => {},
        }
        i += 1;
    }
    assert(captured(captures@).take(i as int) == captured(captures@));
    if id.as_str().is_empty() {
        Err(SureError::NoSessionToken)
    } else {
        Ok(id)
    }
}

/// A capture that counts and is not empty is one of the captures.
pub proof fn lemma_last_capture(captures: Seq<Option<Seq<char>>>)
    requires
        last_capture(captures).len() > 0,
    ensures
        exists|i: int|
            0 <= i < captures.len() && #[trigger] captures[i] == Some(last_capture(captures)),
    decreases captures.len(),
{
    if captures.last() is None {
        let before = captures.drop_last();
        lemma_last_capture(before);
        let i = choose|i: int|
            0 <= i < before.len() && #[trigger] before[i] == Some(last_capture(before));
        assert(captures[i] == Some(last_capture(captures)));
    } else {
        assert(captures[captures.len() - 1] == Some(last_capture(captures)));
    }
}

/// The session in the `set-cookie` header of the landing page's response:
/// the token of the last place in the header that has the shape of
/// [`SESSION_PATTERN`]. A response without that header, or a header without
/// a session, ends the run. A session is never empty and always a piece of
/// the header.
pub fn get_session_id(set_cookie: Option<&str>) -> (session: Result<String, SureError>)
    ensures
        session_text(session) == match set_cookie {
            Some(header) => session_of(
                capture_matches(SESSION_PATTERN@, SESSION_GROUP as nat, header@),
            ),
            None => Err(SureError::NoSessionHeader),
        },
        match session {
            Ok(id) => id@.len() > 0 && match set_cookie {
                Some(header) => is_part_of(id@, header@),
                None => false,
            },
            Err(_) => true,
        },
{
    match set_cookie {
        Some(header) => {
            let found = find_captures(SESSION_PATTERN, SESSION_GROUP, header);
            proof {
                if found is Some {
                    let captures = found->0;
                    let texts = captured(captures@);
                    if last_capture(texts).len() > 0 {
                        lemma_last_capture(texts);
                        let i = choose|i: int|
                            0 <= i < texts.len() && #[trigger] texts[i] == Some(
                                last_capture(texts),
                            );
                        assert(captures@[i] is Some);
                    }
                }
            }
            pick_session_id(found)
        },
        None => Err(SureError::NoSessionHeader),
    }
}

} // verus!
