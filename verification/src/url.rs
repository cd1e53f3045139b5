//! Request addresses: a table's address with its query parameters, written
//! as a URL.

use vstd::prelude::*;
use vstd::string::StrSliceExecFns;

verus! {

/// The most characters that an address and its parameters may hold
/// together, each parameter counted with one more for its separator. A
/// character takes at most four bytes and an encoded byte at most three, so
/// a URL made of so many stays below the four gibibytes to which a URL's
/// parts are indexed.
pub const MAX_REQUEST_CHARS: usize = 268435456;

/// The URL that `input` parses to, with `params` added to its query string
/// as form-encoded pairs in their order; `None` where `input` is no
/// absolute URL.
pub uninterp spec fn url_with_params(input: Seq<char>, params: Seq<(Seq<char>, Seq<char>)>) -> Option<Seq<char>>;

/// The parameters as plain text.
pub open spec fn params_view(params: Seq<(String, String)>) -> Seq<(Seq<char>, Seq<char>)> {
    params.map_values(|p: (String, String)| (p.0@, p.1@))
}

/// The text of an optional string.
pub open spec fn text_view(url: Option<String>) -> Option<Seq<char>> {
    match url {
        Some(s) => Some(s@),
        None => None,
    }
}

/// The characters of the first `n` parameters, and one more for each.
pub open spec fn params_chars(params: Seq<(Seq<char>, Seq<char>)>, n: nat) -> nat
    decreases n,
{
    if n == 0 {
        0
    } else {
        params_chars(params, (n - 1) as nat) + params[n - 1].0.len() + params[n - 1].1.len() + 1
    }
}

/// Whether an address and its parameters are few enough to be written as
/// one URL.
pub open spec fn request_fits(input: Seq<char>, params: Seq<(Seq<char>, Seq<char>)>) -> bool {
    input.len() + params_chars(params, params.len()) <= MAX_REQUEST_CHARS
}

/// The URL of `input` with `params`: none where they are too many, or where
/// `input` is no absolute URL.
pub open spec fn address_text(input: Seq<char>, params: Seq<(Seq<char>, Seq<char>)>) -> Option<
    Seq<char>,
> {
    if request_fits(input, params) {
        url_with_params(input, params)
    } else {
        None
    }
}

/// Calls `Url::parse_with_params` of the `url` crate, as `reqwest` hands it
/// on. Not proved: that on an input of the admitted size it returns, and
/// that the answer is the URL which that function makes of `input` and
/// `params`, in its serialised form, and `None` where it reports a parse
/// error.
#[verifier::external_body]
pub(crate) fn parse_with_params(input: &str, params: &Vec<(String, String)>) -> (url: Option<String>)
    requires
        request_fits(input@, params_view(params@)),
    ensures
        text_view(url) == url_with_params(input@, params_view(params@)),
{
    match reqwest::Url::parse_with_params(input, params) {
        Ok(url) => Some(String::from(url)),
        Err(_) => None,
    }
}

proof fn lemma_params_chars_grow(params: Seq<(Seq<char>, Seq<char>)>, i: nat, n: nat)
    requires
        i <= n,
    ensures
        params_chars(params, i) <= params_chars(params, n),
    decreases n,
{
    if i < n {
        lemma_params_chars_grow(params, i, (n - 1) as nat);
    }
}

fn fits(input: &str, params: &Vec<(String, String)>) -> (ok: bool)
    ensures
        ok == request_fits(input@, params_view(params@)),
{
    let ghost pairs = params_view(params@);
    let mut total: usize = input.unicode_len();
    if total > MAX_REQUEST_CHARS {
        return false;
    }
    let mut i: usize = 0;
    while i < params.len()
        invariant
            i <= params.len(),
            pairs == params_view(params@),
            total <= MAX_REQUEST_CHARS,
            total == input@.len() + params_chars(pairs, i as nat),
        decreases params.len() - i,
    {
        let key: usize = params[i].0.as_str().unicode_len();
        let value: usize = params[i].1.as_str().unicode_len();
        proof {
            assert(pairs[i as int] == (params@[i as int].0@, params@[i as int].1@));
            lemma_params_chars_grow(pairs, (i + 1) as nat, pairs.len());
        }
        let room: usize = MAX_REQUEST_CHARS - total;
        if key > room {
            return false;
        }
        if value > room - key {
            return false;
        }
        if room - key - value < 1 {
            return false;
        }
        total = total + key + value + 1;
        i = i + 1;
    }
    true
}

/// The URL of `input` with `params` added to its query string, in their
/// order: `None` where they are too many to be written as one URL, or
/// where `input` is no absolute URL.
pub fn address(input: &str, params: &Vec<(String, String)>) -> (url: Option<String>)
    ensures
        text_view(url) == address_text(input@, params_view(params@)),
{
    if fits(input, params) {
        parse_with_params(input, params)
    } else {
        None
    }
}

} // verus!
