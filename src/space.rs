//! What the downloader derives from a space's identity and metadata: the
//! space id, the request URLs, the admin list and the output file name.

use vstd::prelude::*;
use crate::text::{before, prefix_before, push_char, remove_all, removed, views};

verus! {

broadcast use vstd::string::group_string_axioms;

/// Start of the URL of a space's metadata, before its id.
pub const SPACE_INFO_URL_HEAD: &'static str = "https://twitter.com/i/api/graphql/Uv5R_-Chxbn1FEkyUkSW2w/AudioSpaceById?variables=%7B%22id%22%3A%22";

/// End of the URL of a space's metadata, after its id.
pub const SPACE_INFO_URL_TAIL: &'static str = "%22%2C%22isMetatagsQuery%22%3Afalse%2C%22withBirdwatchPivots%22%3Afalse%2C%22withDownvotePerspective%22%3Afalse%2C%22withReactionsMetadata%22%3Afalse%2C%22withReactionsPerspective%22%3Afalse%2C%22withReplays%22%3Afalse%2C%22withScheduledSpaces%22%3Afalse%2C%22withSuperFollowsTweetFields%22%3Afalse%2C%22withSuperFollowsUserFields%22%3Afalse%7D";

/// Start of the URL of a stream's status, before its media key.
pub const STREAM_STATUS_URL_HEAD: &'static str = "https://twitter.com/i/api/1.1/live_video_stream/status/";

/// The id of a space given as an id or as a space URL: the text before any
/// `?`, with the scheme, the spaces path and every `/` taken out.
pub open spec fn space_id_of(input: Seq<char>) -> Seq<char> {
    removed(
        removed(removed(before(input, "?"@), "https://"@), "twitter.com/i/spaces/"@),
        "/"@,
    )
}

/// The space id within `input`, an id or a space URL.
pub fn space_id(input: &str) -> (id: String)
    ensures
        id@ == space_id_of(input@),
{
    proof {
        reveal_strlit("https://");
        reveal_strlit("twitter.com/i/spaces/");
        reveal_strlit("/");
    }
    let a = prefix_before(input, "?");
    let b = remove_all(a.as_str(), "https://");
    let c = remove_all(b.as_str(), "twitter.com/i/spaces/");
    remove_all(c.as_str(), "/")
}

/// The URL of the metadata of space `id`.
pub fn space_info_url(id: &str) -> (url: String)
    ensures
        url@ == SPACE_INFO_URL_HEAD@ + id@ + SPACE_INFO_URL_TAIL@,
{
    let mut url = String::from_str(SPACE_INFO_URL_HEAD);
    url.append(id);
    url.append(SPACE_INFO_URL_TAIL);
    url
}

/// The URL of the status of the stream with media key `media_key`.
pub fn stream_status_url(media_key: &str) -> (url: String)
    ensures
        url@ == STREAM_STATUS_URL_HEAD@ + media_key@,
{
    let mut url = String::from_str(STREAM_STATUS_URL_HEAD);
    url.append(media_key);
    url
}

/// The value of the authorization header for bearer token `token`.
pub fn bearer_header(token: &str) -> (h: String)
    ensures
        h@ == "Bearer "@ + token@,
{
    let mut h = String::from_str("Bearer ");
    h.append(token);
    h
}

/// What `char::is_alphanumeric` returns for `c`.
pub uninterp spec fn is_alphanumeric(c: char) -> bool;

/// What `char::is_whitespace` returns for `c`.
pub uninterp spec fn is_whitespace(c: char) -> bool;

/// Relies on char::is_alphanumeric: whether `c` is alphabetic or numeric
/// in Unicode.
#[verifier::external_body]
fn char_is_alphanumeric(c: char) -> (b: bool)
    ensures
        b == is_alphanumeric(c),
{
    c.is_alphanumeric()
}

/// Relies on char::is_whitespace: whether `c` has the Unicode White_Space
/// property.
#[verifier::external_body]
fn char_is_whitespace(c: char) -> (b: bool)
    ensures
        b == is_whitespace(c),
{
    c.is_whitespace()
}

/// Whether a title character may stand in a file name, given whether it is
/// alphanumeric and whether it is white space: those, and the em dash, the
/// hyphen and the underscore.
pub open spec fn title_char_allowed_spec(c: char, alphanumeric: bool, whitespace: bool) -> bool {
    alphanumeric || whitespace || c == '\u{2014}' || c == '-' || c == '_'
}

/// The characters of title `s` that may stand in a file name, in order.
pub open spec fn kept_title(s: Seq<char>) -> Seq<char>
    decreases s.len(),
{
    if s.len() == 0 {
        Seq::empty()
    } else {
        let r = kept_title(s.drop_last());
        if title_char_allowed_spec(s.last(), is_alphanumeric(s.last()), is_whitespace(s.last())) {
            r.push(s.last())
        } else {
            r
        }
    }
}

/// Whether title character `c` may stand in a file name, given whether it
/// is alphanumeric and whether it is white space.
pub fn title_char_allowed(c: char, alphanumeric: bool, whitespace: bool) -> (b: bool)
    ensures
        b == title_char_allowed_spec(c, alphanumeric, whitespace),
{
    alphanumeric || whitespace || c == '\u{2014}' || c == '-' || c == '_'
}

/// The title `title` with every character left out that may not stand in a
/// file name.
pub fn sanitize_title(title: &str) -> (r: String)
    ensures
        r@ == kept_title(title@),
{
    let mut r = String::new();
    let ghost mut seen: Seq<char> = Seq::empty();
    for c in it: title.chars()
        invariant
            seen == it.seq().take(it.index() as int),
            r@ == kept_title(seen),
    {
        let ghost next = seen.push(c);
        assert(next.drop_last() =~= seen);
        if title_char_allowed(c, char_is_alphanumeric(c), char_is_whitespace(c)) {
            push_char(&mut r, c);
        }
        proof {
            seen = next;
        }
    }
    assert(seen =~= title@);
    r
}

/// The admins' names, each followed by a comma.
pub open spec fn admin_text(names: Seq<Seq<char>>) -> Seq<char>
    decreases names.len(),
{
    if names.len() == 0 {
        Seq::empty()
    } else {
        admin_text(names.drop_last()) + names.last() + seq![',']
    }
}

/// The admins' display names as one line, each followed by a comma.
pub fn admin_list(names: &Vec<String>) -> (r: String)
    ensures
        r@ == admin_text(views(names@)),
{
    let mut r = String::new();
    let mut i: usize = 0;
    while i < names.len()
        invariant
            i <= names@.len(),
            r@ == admin_text(views(names@).take(i as int)),
        decreases names@.len() - i,
    {
        assert(views(names@).take(i + 1).drop_last() =~= views(names@).take(i as int));
        r.append(names[i].as_str());
        push_char(&mut r, ',');
        i = i + 1;
    }
    assert(views(names@).take(i as int) =~= views(names@));
    r
}

/// The name of the output file: `name`, or else the space's name, followed
/// by `.aac`.
pub fn output_file_name(name: &Option<String>, space_name: &String) -> (r: String)
    ensures
        r@ == match name {
            Some(n) => n@,
            None => space_name@,
        } + ".aac"@,
{
    let mut r = match name {
        Some(n) => n.clone(),
        None => space_name.clone(),
    };
    r.append(".aac");
    r
}

} // verus!
