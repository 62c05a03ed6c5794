//! Tenant provisioner logic: how many of the authors are treated as the
//! logged-in population, which provisioning latencies are sampled for
//! reporting, and the name of a tenant's view.

use vstd::prelude::*;
use vstd::string::*;
use vstd::arithmetic::div_mod::{lemma_div_is_ordered, lemma_div_by_multiple};
use crate::text::{u64_to_string, dec_digits};

verus! {

/// The number of logged-in tenants: the floor of the login fraction
/// (`frac_num / frac_den`) times the author count.
pub fn logged_in_count(frac_num: u64, frac_den: u64, total: usize) -> (r: usize)
    requires
        frac_den >= 1,
        frac_num <= frac_den,
    ensures
        r == (frac_num as int * total as int) / frac_den as int,
        r <= total,
{
    proof {
        assert(frac_num as int * total as int <= u128::MAX) by (nonlinear_arith)
            requires
                0 <= frac_num as int <= u64::MAX,
                0 <= total as int <= u64::MAX,
        ;
    }
    let prod: u128 = (frac_num as u128) * (total as u128);
    let q: u128 = prod / (frac_den as u128);
    proof {
        assert(frac_num as int * total as int <= frac_den as int * total as int)
            by (nonlinear_arith)
            requires
                frac_num <= frac_den,
                total as int >= 0,
        ;
        lemma_div_is_ordered(
            frac_num as int * total as int,
            frac_den as int * total as int,
            frac_den as int,
        );
        lemma_div_by_multiple(total as int, frac_den as int);
        assert(frac_den as int * total as int == total as int * frac_den as int)
            by (nonlinear_arith);
        assert(q <= total);
    }
    q as usize
}

/// Whether the tenant at provisioning index `i` (of `n`) has its setup
/// latency sampled for the report: indices 0 and 1 always, then every
/// `floor(n / 10)`-th index.
pub open spec fn spec_sampled(i: int, n: int) -> bool {
    ||| i == 0
    ||| i == 1
    ||| (n / 10 >= 2 && i >= 2 && i % (n / 10) == 0)
}

pub fn is_sample_index(i: usize, n: usize) -> (r: bool)
    ensures
        r == spec_sampled(i as int, n as int),
{
    if i <= 1 {
        true
    } else {
        let stripe = n / 10;
        if stripe < 2 {
            false
        } else {
            i % stripe == 0
        }
    }
}

/// The name of the per-tenant paper-list view, keyed by the 1-based user id.
pub fn view_name(i: usize) -> (r: String)
    requires
        i < usize::MAX,
    ensures
        r@ == "ReviewList_u"@ + dec_digits(i as int + 1),
{
    let mut s = String::from_str("ReviewList_u");
    let d = u64_to_string((i + 1) as u64);
    s.append(d.as_str());
    proof {
        assert(s@ =~= "ReviewList_u"@ + dec_digits(i as int + 1));
    }
    s
}

} // verus!
