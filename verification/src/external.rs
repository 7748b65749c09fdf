//! The calls this library makes into other crates and into std functions that
//! vstd does not specify. Each contract here is trusted, not proved: it says
//! what the called function's source or documentation shows.
use vstd::prelude::*;
use crate::ids::opt_view;
use crate::text::{dec, parse_u64_spec, starts_with};

verus! {

/// The time, in milliseconds after the UNIX epoch, encoded in a snowflake id:
/// the id read as a `u64` (`str::parse`), shifted right by 22 bits, plus the
/// Fluxer epoch 1420070400000; `None` when the id does not parse.
pub open spec fn snowflake_millis(id: Seq<char>) -> Option<u64> {
    match parse_u64_spec(id) {
        Some(n) => Some(((n as int) / 4194304 + 1420070400000) as u64),
        None => None,
    }
}

/// `fluxer_types::snowflake_timestamp`. Its source parses the id with
/// `str::parse::<u64>` and returns `(n >> 22) + FLUXER_EPOCH`, which is what
/// the contract states (shifting a `u64` right by 22 bits divides it by 2^22).
#[verifier::external_body]
pub fn snowflake_timestamp(id: &str) -> (r: Option<u64>)
    ensures
        r == snowflake_millis(id@),
{
    fluxer_types::snowflake_timestamp(id)
}

/// The host of user content on the Fluxer CDN.
pub open spec fn cdn_host() -> Seq<char> {
    "https://fluxerusercontent.com"@
}

/// The file extension the CDN gives a picture with hash `hash`: `gif` for an
/// animated one (hash starting with `a_`), else `png`.
pub open spec fn cdn_extension(hash: Seq<char>) -> Seq<char> {
    if starts_with(hash, "a_"@) {
        "gif"@
    } else {
        "png"@
    }
}

/// The address of the avatar of user `user_id` with avatar hash `hash`, or of
/// the default avatar (one of six, chosen by the id modulo 6) without one.
pub open spec fn display_avatar_url_spec(user_id: Seq<char>, hash: Option<Seq<char>>) -> Seq<
    char,
> {
    match hash {
        Some(h) => cdn_host() + "/avatars/"@ + user_id + "/"@ + h + "."@ + cdn_extension(h),
        None => "https://fluxerstatic.com/avatars/"@ + dec(
            match parse_u64_spec(user_id) {
                Some(n) => (n % 6) as nat,
                None => 0,
            },
        ) + ".png"@,
    }
}

/// `fluxer_core::util::cdn::cdn_display_avatar_url` with the default CDN
/// options (no size, no forced extension), which is what
/// `User::display_avatar_url` calls. Its source builds
/// `{CDN_URL}/avatars/{id}/{hash}.{ext}` when there is a hash, with `ext`
/// `gif` for hashes starting with `a_` and `png` otherwise, and
/// `{STATIC_CDN_URL}/avatars/{index}.png` with `index` the id modulo 6 (0 when
/// it does not parse) when there is none.
#[verifier::external_body]
pub fn display_avatar_url(user_id: &str, hash: &Option<String>) -> (r: String)
    ensures
        r@ == display_avatar_url_spec(
            user_id@,
            match hash {
                Some(h) => Some(h@),
                None => None,
            },
        ),
{
    fluxer_core::util::cdn::cdn_display_avatar_url(
        user_id,
        hash.as_deref(),
        &fluxer_core::util::cdn::CdnOptions::default(),
    )
}

/// The address of the icon with hash `hash` of guild `guild_id`.
pub open spec fn guild_icon_url_spec(guild_id: Seq<char>, hash: Option<Seq<char>>) -> Option<
    Seq<char>,
> {
    match hash {
        Some(h) => Some(cdn_host() + "/icons/"@ + guild_id + "/"@ + h + "."@ + cdn_extension(h)),
        None => None,
    }
}

/// `fluxer_core::util::cdn::cdn_guild_icon_url` with the default CDN options,
/// which is what `Guild::icon_url` calls. Its source returns `None` without a
/// hash and `{CDN_URL}/icons/{id}/{hash}.{ext}` with one, `ext` chosen as for
/// avatars.
#[verifier::external_body]
pub fn guild_icon_url(guild_id: &str, hash: &Option<String>) -> (r: Option<String>)
    ensures
        crate::embed::opt_text(r) == guild_icon_url_spec(
            guild_id@,
            match hash {
                Some(h) => Some(h@),
                None => None,
            },
        ),
{
    fluxer_core::util::cdn::cdn_guild_icon_url(
        guild_id,
        hash.as_deref(),
        &fluxer_core::util::cdn::CdnOptions::default(),
    )
}

/// What `str::to_lowercase` gives for `s` (Unicode lowercase mapping).
pub uninterp spec fn lowercase(s: Seq<char>) -> Seq<char>;

/// `str::to_lowercase`. The contract names its result; the Unicode case
/// tables that define it are not restated.
#[verifier::external_body]
pub fn to_lowercase(s: &str) -> (r: String)
    ensures
        r@ == lowercase(s@),
{
    s.to_lowercase()
}

/// What the standard, padded base64 decoder gives for the UTF-8 bytes of `s`:
/// the decoded bytes, or `None` when `s` is not valid base64.
pub uninterp spec fn base64_decoded(s: Seq<char>) -> Option<Seq<u8>>;

/// `base64::Engine::decode` with `base64::engine::general_purpose::STANDARD`.
/// The contract names the result; the decoding rules are not restated. An
/// error of the decoder becomes `None`.
#[verifier::external_body]
pub fn decode_base64(s: &str) -> (r: Option<Vec<u8>>)
    ensures
        r matches Some(v) ==> base64_decoded(s@) == Some(v@),
        r is None ==> base64_decoded(s@) is None,
{
    base64::Engine::decode(&base64::engine::general_purpose::STANDARD, s).ok()
}

/// What the JSON text `body` holds as a string under the key `key` of its
/// top-level object; `None` when `body` is no JSON, its value is no object,
/// the key is missing, or the value there is no string.
pub uninterp spec fn json_str_field(body: Seq<u8>, key: Seq<char>) -> Option<Seq<char>>;

/// `serde_json::from_slice::<serde_json::Value>` on `body`, then the string
/// under `key` (`Value::get`, `Value::as_str`). The contract names the result;
/// the JSON grammar is not restated. A parse error becomes `None`.
#[verifier::external_body]
pub fn json_string_field(body: &[u8], key: &str) -> (r: Option<String>)
    ensures
        opt_view(r) == json_str_field(body@, key@),
{
    serde_json::from_slice::<serde_json::Value>(body).ok().and_then(
        |v| v.get(key).and_then(|x| x.as_str()).map(String::from),
    )
}

} // verus!
