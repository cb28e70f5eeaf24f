//! Availability from a DNS-over-HTTPS lookup of a domain's NS records.

use vstd::prelude::*;
use super::{Availability, AvailabilityView};
use vstd::string::StringExecFns;

verus! {

/// The status a DNS answer code gives: NXDOMAIN (3) means the domain does
/// not exist, NOERROR (0) means it does; anything else, or no readable
/// answer at all, leaves it undetermined.
pub open spec fn dns_status(answer: Option<u16>) -> AvailabilityView {
    match answer {
        Some(code) => if code == 3 {
            AvailabilityView::Available
        } else if code == 0 {
            AvailabilityView::Taken
        } else {
            AvailabilityView::Unknown
        },
        None => AvailabilityView::Unknown,
    }
}

/// The availability a DNS-over-HTTPS lookup gives. `answer` is the DNS
/// status code of a successful, readable reply, and `None` when the request
/// failed, the reply was not a success or could not be read.
pub fn dns_availability(answer: Option<u16>) -> (r: Availability)
    ensures
        r@ == dns_status(answer),
{
    match answer {
        Some(3) => Availability::Available,
        Some(0) => Availability::Taken,
        _ => Availability::Unknown,
    }
}

/// The DNS-over-HTTPS query for the NS records of `domain`.
pub open spec fn dns_query(domain: Seq<char>) -> Seq<char> {
    "https://cloudflare-dns.com/dns-query?name="@ + domain + "&type=NS"@
}

/// The URL that asks the DNS-over-HTTPS resolver for `domain`'s NS records.
pub fn dns_query_url(domain: &str) -> (r: String)
    ensures
        r@ == dns_query(domain@),
{
    let mut url = String::from_str("https://cloudflare-dns.com/dns-query?name=");
    url.append(domain);
    url.append("&type=NS");
    url
}

} // verus!
