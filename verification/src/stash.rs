//! Stash API requests and responses, and where item images are fetched from
//! and cached.
use vstd::prelude::*;
use crate::models::PoeStashResponse;
use crate::text::{
    has_prefix, lemma_decimal_len_u32, push_hex, push_signed_decimal, spec_decimal, spec_has_prefix,
    spec_hex, spec_signed_decimal, decimal_string,
};
use std::collections::hash_map::DefaultHasher;
use std::hash::Hasher;
use vstd::std_specs::hash::DefaultHasherAdditionalSpecFns;

verus! {

// ---------------------------------------------------------------------------
// Requests
// ---------------------------------------------------------------------------

/// The URL that `url::Url::parse_with_params(base, params)` serializes to,
/// or `None` where it returns an error.
pub uninterp spec fn url_parse_with_params(
    base: Seq<char>,
    params: Seq<(Seq<char>, Seq<char>)>,
) -> Option<Seq<char>>;

/// The characters of each key and value.
pub open spec fn pair_views(params: Seq<(String, String)>) -> Seq<(Seq<char>, Seq<char>)> {
    params.map_values(|p: (String, String)| (p.0@, p.1@))
}

/// The characters of all keys and values, one more per pair.
pub open spec fn pair_chars(params: Seq<(String, String)>) -> nat
    decreases params.len(),
{
    if params.len() == 0 {
        0
    } else {
        pair_chars(params.drop_last()) + params.last().0@.len() + params.last().1@.len() + 1
    }
}

#[verifier::external_type_specification]
#[verifier::external_body]
pub struct ExUrlParseError(url::ParseError);

/// Calls `url::Url::parse_with_params` and serializes the URL. Claims that the
/// outcome is a function of the base and the pairs; `requires` keeps the
/// serialization below the 4 GiB at which the url crate panics.
#[verifier::external_body]
fn url_with_params(base: &str, params: &Vec<(String, String)>) -> (r: Result<
    String,
    url::ParseError,
>)
    requires
        base@.len() + pair_chars(params@) < 0x1000_0000,
    ensures
        match r {
            Ok(u) => url_parse_with_params(base@, pair_views(params@)) == Some(u@),
            Err(_) => url_parse_with_params(base@, pair_views(params@)) is None,
        },
{
    match url::Url::parse_with_params(base, params.iter()) {
        Ok(u) => Ok(String::from(u)),
        Err(e) => Err(e),
    }
}

/// The stash endpoint of the Path of Exile character window.
pub open spec fn spec_stash_base() -> Seq<char> {
    "https://www.pathofexile.com/character-window/get-stash-items"@
}

/// The query of a stash request.
pub open spec fn spec_stash_params(
    account: Seq<char>,
    league: Seq<char>,
    tab_index: u32,
    fetch_tabs_metadata: bool,
) -> Seq<(Seq<char>, Seq<char>)> {
    seq![
        ("accountName"@, account),
        ("realm"@, "pc"@),
        ("league"@, league),
        ("tabs"@, if fetch_tabs_metadata { "1"@ } else { "0"@ }),
        ("tabIndex"@, spec_decimal(tab_index as nat)),
    ]
}

/// A stash request: the URL, and the cookie that carries the session.
#[derive(Clone, Debug)]
pub struct StashRequest {
    pub url: String,
    pub cookie: String,
}

/// Why a stash tab could not be had.
#[derive(Clone, Debug)]
pub enum StashError {
    /// The request URL could not be built.
    InvalidUrl,
    /// The API answered with an error.
    Api { code: i32, message: String },
}

impl StashError {
    /// The text of the error, as the tracker shows it.
    pub open spec fn spec_message(&self) -> Seq<char> {
        match self {
            StashError::InvalidUrl => "Failed to build URL"@,
            StashError::Api { code, message } => "API Error ("@ + spec_signed_decimal(*code as int)
                + "): "@ + message@,
        }
    }

    /// The text of the error, as the tracker shows it.
    pub fn message(&self) -> (r: String)
        ensures
            r@ == self.spec_message(),
    {
        match self {
            StashError::InvalidUrl => String::from_str("Failed to build URL"),
            StashError::Api { code, message } => {
                let mut s = String::from_str("API Error (");
                push_signed_decimal(&mut s, *code as i64);
                s.append("): ");
                s.append(message.as_str());
                s
            },
        }
    }
}

/// The request for one stash tab of an account in a league, with the tab list
/// too when `fetch_tabs_metadata` is set.
pub fn stash_request(
    account: &str,
    sessid: &str,
    league: &str,
    tab_index: u32,
    fetch_tabs_metadata: bool,
) -> (r: Result<StashRequest, StashError>)
    requires
        account@.len() + league@.len() < 0x0FFF_0000,
    ensures
        match r {
            Ok(req) => url_parse_with_params(
                spec_stash_base(),
                spec_stash_params(account@, league@, tab_index, fetch_tabs_metadata),
            ) == Some(req.url@) && req.cookie@ == "POESESSID="@ + sessid@,
            Err(e) => e is InvalidUrl && url_parse_with_params(
                spec_stash_base(),
                spec_stash_params(account@, league@, tab_index, fetch_tabs_metadata),
            ) is None,
        },
{
    let base = "https://www.pathofexile.com/character-window/get-stash-items";
    proof {
        reveal_strlit("https://www.pathofexile.com/character-window/get-stash-items");
        reveal_strlit("accountName");
        reveal_strlit("realm");
        reveal_strlit("pc");
        reveal_strlit("league");
        reveal_strlit("tabs");
        reveal_strlit("1");
        reveal_strlit("0");
        reveal_strlit("tabIndex");
        lemma_decimal_len_u32(tab_index);
    }
    let mut params: Vec<(String, String)> = Vec::new();
    params.push((String::from_str("accountName"), String::from_str(account)));
    params.push((String::from_str("realm"), String::from_str("pc")));
    params.push((String::from_str("league"), String::from_str(league)));
    let tabs = if fetch_tabs_metadata {
        String::from_str("1")
    } else {
        String::from_str("0")
    };
    params.push((String::from_str("tabs"), tabs));
    params.push((String::from_str("tabIndex"), decimal_string(tab_index as u64)));
    proof {
        assert(pair_views(params@) =~= spec_stash_params(account@, league@, tab_index, fetch_tabs_metadata));
        assert(params@.drop_last().drop_last().drop_last().drop_last().drop_last().len() == 0);
        reveal_with_fuel(pair_chars, 6);
    }
    match url_with_params(base, &params) {
        Ok(url) => {
            let mut cookie = String::from_str("POESESSID=");
            cookie.append(sessid);
            Ok(StashRequest { url, cookie })
        },
        Err(_) => Err(StashError::InvalidUrl),
    }
}

/// A stash response, unless the API reported an error in it.
pub fn check_stash_response(data: PoeStashResponse) -> (r: Result<PoeStashResponse, StashError>)
    ensures
        match data.error {
            Some(err) => r matches Err(StashError::Api { code, message }) && code == err.code
                && message@ == err.message@,
            None => r == Ok::<PoeStashResponse, StashError>(data),
        },
{
    match data.error {
        Some(err) => Err(StashError::Api { code: err.code, message: err.message }),
        None => Ok(data),
    }
}

// ---------------------------------------------------------------------------
// Images
// ---------------------------------------------------------------------------

/// Where an icon is downloaded from: protocol-relative and site-relative
/// paths get their host; an empty URL has none.
pub open spec fn spec_image_full_url(icon_url: Seq<char>) -> Option<Seq<char>> {
    if icon_url.len() == 0 {
        None
    } else if spec_has_prefix(icon_url, "//"@) {
        Some("https:"@ + icon_url)
    } else if spec_has_prefix(icon_url, "/gen/image"@) {
        Some("https://web.poecdn.com"@ + icon_url)
    } else if spec_has_prefix(icon_url, "/"@) {
        Some("https://www.pathofexile.com"@ + icon_url)
    } else {
        Some(icon_url)
    }
}

/// Where an icon is downloaded from, or `None` for an empty URL.
pub fn image_full_url(icon_url: &str) -> (r: Option<String>)
    ensures
        match r {
            Some(u) => spec_image_full_url(icon_url@) == Some(u@),
            None => spec_image_full_url(icon_url@) is None,
        },
{
    if icon_url.is_empty() {
        return None;
    }
    let full = if has_prefix(icon_url, "//") {
        let mut s = String::from_str("https:");
        s.append(icon_url);
        s
    } else if has_prefix(icon_url, "/gen/image") {
        let mut s = String::from_str("https://web.poecdn.com");
        s.append(icon_url);
        s
    } else if has_prefix(icon_url, "/") {
        let mut s = String::from_str("https://www.pathofexile.com");
        s.append(icon_url);
        s
    } else {
        String::from_str(icon_url)
    };
    Some(full)
}

/// The cache file name of an image whose URL hashes to `hash`.
pub open spec fn spec_image_file_name(hash: u64) -> Seq<char> {
    spec_hex(hash as nat) + ".png"@
}

/// The cache file name of an image whose URL hashes to `hash`: the hash in
/// lower-case hexadecimal, then `.png`.
pub fn image_file_name_for_hash(hash: u64) -> (r: String)
    ensures
        r@ == spec_image_file_name(hash),
{
    let mut s = String::new();
    push_hex(&mut s, hash);
    s.append(".png");
    assert(s@ =~= spec_image_file_name(hash));
    s
}

/// The state of a `DefaultHasher` (as vstd views it) after a string is
/// hashed into a hasher in state `state`: what `<String as Hash>::hash` feeds
/// the hasher depends on the string alone.
pub uninterp spec fn state_after_hashing(state: Seq<Seq<u8>>, s: Seq<char>) -> Seq<Seq<u8>>;

/// Calls std `<String as Hash>::hash` on a `DefaultHasher`. Claims that the
/// hasher's new state is a function of its old state and the string.
#[verifier::external_body]
fn hash_string(s: &String, hasher: &mut DefaultHasher)
    ensures
        final(hasher)@ == state_after_hashing(old(hasher)@, s@),
{
    std::hash::Hash::hash(s, hasher)
}

/// The std default hash of a string: a fresh `DefaultHasher` (which std
/// documents to be the same every time), the string hashed into it, finished.
pub open spec fn spec_default_hash(s: Seq<char>) -> u64 {
    DefaultHasher::spec_finish(state_after_hashing(Seq::empty(), s))
}

/// The cache file name of the image at `full_url`: the std default hash of
/// the URL in lower-case hexadecimal, then `.png`. Equal URLs get the same name.
pub fn image_file_name(full_url: &String) -> (r: String)
    ensures
        r@ == spec_image_file_name(spec_default_hash(full_url@)),
{
    let mut hasher = DefaultHasher::new();
    hash_string(full_url, &mut hasher);
    let hash = hasher.finish();
    image_file_name_for_hash(hash)
}

} // verus!
