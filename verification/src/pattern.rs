//! Trusted wrappers around the regex crate, for the two fixed patterns
//! the tool uses: stripping terminal color escapes before parsing, and
//! extracting the unit-identifying store-path token from a diagnostic
//! message.

use vstd::prelude::*;

verus! {

/// What stripping terminal color escapes leaves of a string. The fixed
/// pattern makes the result a function of the characters alone.
pub uninterp spec fn ansi_stripped(s: Seq<char>) -> Seq<char>;

/// The unit-identifying token captured from a diagnostic message by the
/// fixed store-path pattern, if the pattern matches; a function of the
/// characters alone.
pub uninterp spec fn drv_token_of(s: Seq<char>) -> Option<Seq<char>>;

/// Relies on regex::Regex::replace_all with the fixed color-escape
/// pattern: every color escape is removed and the rest of the text is
/// kept.
#[verifier::external_body]
pub(crate) fn strip_ansi(s: &str) -> (r: String)
    ensures
        r@ == ansi_stripped(s@),
{
    let re = regex::Regex::new(r"\x1b\[[0-9;]*m").unwrap();
    re.replace_all(s, "").into_owned()
}

/// Relies on regex::Regex::captures with the fixed store-path pattern:
/// the single capture group identifies exactly one unit, or the pattern
/// does not match at all.
#[verifier::external_body]
pub(crate) fn find_drv_token(msg: &str) -> (r: Option<String>)
    ensures
        match r {
            Some(t) => drv_token_of(msg@) == Some(t@),
            None => drv_token_of(msg@) is None,
        },
{
    let re = regex::Regex::new(r"/nix/store/([a-zA-Z0-9_.+-]+)\.drv").unwrap();
    let caps = re.captures(msg)?;
    Some(caps.get(1)?.as_str().to_string())
}

} // verus!
