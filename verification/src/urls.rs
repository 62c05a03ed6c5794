//! The data source's endpoints: building the query URLs for the submission
//! list, the acceptance decisions and each paper's reviews, and reading the
//! conference id out of a source URL's query pairs.

use vstd::prelude::*;
use vstd::string::*;
use crate::text::{u64_to_string, dec_digits};

verus! {

/// What percent-encoding does to a string: a pure function of its
/// characters.
pub uninterp spec fn pct_enc(s: Seq<char>) -> Seq<char>;

/// Relies on url's utf8_percent_encode with DEFAULT_ENCODE_SET: the encoding
/// depends on the characters alone, and an empty input stays empty.
#[verifier::external_body]
fn pct_encode(s: &str) -> (r: String)
    ensures
        r@ == pct_enc(s@),
        s@.len() == 0 ==> r@.len() == 0,
{
    url::percent_encoding::utf8_percent_encode(s, url::percent_encoding::DEFAULT_ENCODE_SET)
        .to_string()
}

/// The submission-list endpoint of a conference, fetching at most `limit`
/// papers.
pub fn submissions_url(conf: &str, limit: u64) -> (r: String)
    ensures
        r@ == "https://openreview.net/notes?invitation="@ + pct_enc(conf@)
            + "%2F-%2FBlind_Submission&limit="@ + dec_digits(limit as int),
{
    let mut s = String::from_str("https://openreview.net/notes?invitation=");
    let e = pct_encode(conf);
    s.append(e.as_str());
    s.append("%2F-%2FBlind_Submission&limit=");
    let l = u64_to_string(limit);
    s.append(l.as_str());
    proof {
        assert(s@ =~= "https://openreview.net/notes?invitation="@ + pct_enc(conf@)
            + "%2F-%2FBlind_Submission&limit="@ + dec_digits(limit as int));
    }
    s
}

/// The acceptance-decision endpoint of a conference.
pub fn decisions_url(conf: &str) -> (r: String)
    ensures
        r@ == "https://openreview.net/notes?invitation="@ + pct_enc(conf@)
            + "%2F-%2FAcceptance_Decision&limit=10000"@,
{
    let mut s = String::from_str("https://openreview.net/notes?invitation=");
    let e = pct_encode(conf);
    s.append(e.as_str());
    s.append("%2F-%2FAcceptance_Decision&limit=10000");
    proof {
        assert(s@ =~= "https://openreview.net/notes?invitation="@ + pct_enc(conf@)
            + "%2F-%2FAcceptance_Decision&limit=10000"@);
    }
    s
}

/// The official-review endpoint of one paper, from its source id and ordinal
/// number.
pub fn reviews_url(conf: &str, id: &str, number: u64) -> (r: String)
    ensures
        r@ == "https://openreview.net/notes?forum="@ + pct_enc(id@) + "&invitation="@ + pct_enc(
            conf@,
        ) + "/-/Paper"@ + dec_digits(number as int) + "/Official_Review"@,
{
    let mut s = String::from_str("https://openreview.net/notes?forum=");
    let ei = pct_encode(id);
    s.append(ei.as_str());
    s.append("&invitation=");
    let ec = pct_encode(conf);
    s.append(ec.as_str());
    s.append("/-/Paper");
    let num = u64_to_string(number);
    s.append(num.as_str());
    s.append("/Official_Review");
    proof {
        assert(s@ =~= "https://openreview.net/notes?forum="@ + pct_enc(id@) + "&invitation="@
            + pct_enc(conf@) + "/-/Paper"@ + dec_digits(number as int) + "/Official_Review"@);
    }
    s
}

/// The value of the first query pair with the given key.
pub open spec fn first_value_for(pairs: Seq<(String, String)>, key: Seq<char>) -> Option<Seq<char>>
    decreases pairs.len(),
{
    if pairs.len() == 0 {
        None
    } else if pairs.first().0@ == key {
        Some(pairs.first().1@)
    } else {
        first_value_for(pairs.drop_first(), key)
    }
}

/// The conference id carried by the source URL: the value of its first "id"
/// query parameter.
pub fn find_conf_id(pairs: &Vec<(String, String)>) -> (r: Option<String>)
    ensures
        match r {
            Some(v) => first_value_for(pairs@, "id"@) == Some(v@),
            None => first_value_for(pairs@, "id"@) is None,
        },
{
    let key = String::from_str("id");
    let n = pairs.len();
    proof {
        assert(pairs@.skip(0) =~= pairs@);
    }
    let mut i: usize = 0;
    while i < n
        invariant
            i <= n,
            n == pairs@.len(),
            key@ == "id"@,
            first_value_for(pairs@, "id"@) == first_value_for(pairs@.skip(i as int), "id"@),
        decreases n - i,
    {
        proof {
            assert(pairs@.skip(i as int).first() == pairs@[i as int]);
            assert(pairs@.skip(i as int).drop_first() =~= pairs@.skip(i as int + 1));
        }
        if pairs[i].0.eq(&key) {
            return Some(pairs[i].1.clone());
        }
        i += 1;
    }
    proof {
        assert(pairs@.skip(n as int).len() == 0);
    }
    None
}

} // verus!
