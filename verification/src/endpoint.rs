//! Where a record is asked for.

use crate::record::LATEST_ID;
use vstd::prelude::*;
use vstd::string::*;

verus! {

/// The host of the comic source.
pub const DEFAULT_HOST: &'static str = "https://xkcd.com";

/// The character for the decimal digit `d`.
pub open spec fn digit(d: nat) -> char {
    if d == 0 {
        '0'
    } else if d == 1 {
        '1'
    } else if d == 2 {
        '2'
    } else if d == 3 {
        '3'
    } else if d == 4 {
        '4'
    } else if d == 5 {
        '5'
    } else if d == 6 {
        '6'
    } else if d == 7 {
        '7'
    } else if d == 8 {
        '8'
    } else {
        '9'
    }
}

/// The decimal numeral of `n`, without leading zeros.
pub open spec fn decimal(n: nat) -> Seq<char>
    decreases n,
{
    if n < 10 {
        seq![digit(n)]
    } else {
        decimal(n / 10).push(digit(n % 10))
    }
}

/// The address at which the record `id` is asked for on `host`: the latest
/// record at `/info.0.json`, any other at `/<id>/info.0.json`.
pub open spec fn info_url(host: Seq<char>, id: nat) -> Seq<char> {
    if id == LATEST_ID as nat {
        host + "/info.0.json"@
    } else {
        host + "/"@ + decimal(id) + "/info.0.json"@
    }
}

fn digit_text(d: usize) -> (text: &'static str)
    requires
        d < 10,
    ensures
        text@ == seq![digit(d as nat)],
{
    proof {
        reveal_strlit("0");
        reveal_strlit("1");
        reveal_strlit("2");
        reveal_strlit("3");
        reveal_strlit("4");
        reveal_strlit("5");
        reveal_strlit("6");
        reveal_strlit("7");
        reveal_strlit("8");
        reveal_strlit("9");
    }
    let text = if d == 0 {
        "0"
    } else if d == 1 {
        "1"
    } else if d == 2 {
        "2"
    } else if d == 3 {
        "3"
    } else if d == 4 {
        "4"
    } else if d == 5 {
        "5"
    } else if d == 6 {
        "6"
    } else if d == 7 {
        "7"
    } else if d == 8 {
        "8"
    } else {
        "9"
    };
    assert(text@ =~= seq![digit(d as nat)]);
    text
}

/// Writes `n` as a decimal numeral.
pub fn decimal_text(n: usize) -> (text: String)
    ensures
        text@ == decimal(n as nat),
    decreases n,
{
    if n < 10 {
        String::from_str(digit_text(n))
    } else {
        let text = decimal_text(n / 10).concat(digit_text(n % 10));
        assert(text@ =~= decimal(n as nat));
        text
    }
}

/// Builds the address at which the record `id` is asked for on `host`.
pub fn request_url(host: &str, id: usize) -> (url: String)
    ensures
        url@ == info_url(host@, id as nat),
{
    let mut url = String::from_str(host);
    if id != LATEST_ID {
        url.append("/");
        url.append(decimal_text(id).as_str());
    }
    url.append("/info.0.json");
    url
}

} // verus!
