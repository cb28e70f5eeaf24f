//! Domain availability: the status of a single domain and the lookup
//! services that decide it.

use vstd::prelude::*;

pub mod dns;
pub mod rdap;
pub mod tld;
pub mod whoisfreaks;

verus! {

/// Availability status for a single domain.
#[derive(Debug, Clone)]
pub enum Availability {
    /// Domain is available for registration.
    Available,
    /// Domain is already registered.
    Taken,
    /// Check is still in progress.
    Pending,
    /// Check failed with an error message.
    Error(String),
    /// Status could not be determined.
    Unknown,
}

/// An availability status with its message as characters.
pub enum AvailabilityView {
    Available,
    Taken,
    Pending,
    Error(Seq<char>),
    Unknown,
}

impl View for Availability {
    type V = AvailabilityView;

    open spec fn view(&self) -> AvailabilityView {
        match self {
            Availability::Available => AvailabilityView::Available,
            Availability::Taken => AvailabilityView::Taken,
            Availability::Pending => AvailabilityView::Pending,
            Availability::Error(m) => AvailabilityView::Error(m@),
            Availability::Unknown => AvailabilityView::Unknown,
        }
    }
}

/// The symbol shown for a status.
pub open spec fn availability_symbol(a: Availability) -> Seq<char> {
    match a {
        Availability::Available => "✅"@,
        Availability::Taken => "❌"@,
        Availability::Pending => "⏳"@,
        Availability::Error(_) => "⚠️"@,
        Availability::Unknown => "❓"@,
    }
}

impl Availability {
    pub fn symbol(&self) -> (r: &'static str)
        ensures
            r@ == availability_symbol(*self),
    {
        match self {
            Availability::Available => "✅",
            Availability::Taken => "❌",
            Availability::Pending => "⏳",
            Availability::Error(_) => "⚠️",
            Availability::Unknown => "❓",
        }
    }

    pub fn is_available(&self) -> (r: bool)
        ensures
            r == (*self is Available),
    {
        matches!(self, Availability::Available)
    }
}

/// Complete status for a single domain check. `P` holds the pricing
/// information, where a service reports it.
#[derive(Debug, Clone)]
pub struct DomainStatus<P> {
    /// Full domain name including TLD (e.g. "nexora.com").
    pub domain: String,
    /// Availability status.
    pub availability: Availability,
    /// Pricing information (if retrieved).
    pub price: Option<P>,
}

impl<P> DomainStatus<P> {
    /// The status of a domain whose check is still running.
    pub fn pending(domain: String) -> (r: Self)
        ensures
            r.domain == domain,
            r.availability@ == AvailabilityView::Pending,
            r.price is None,
    {
        DomainStatus { domain, availability: Availability::Pending, price: None }
    }

    /// The status of a domain whose check failed with `msg`.
    pub fn error(domain: String, msg: String) -> (r: Self)
        ensures
            r.domain == domain,
            r.availability@ == AvailabilityView::Error(msg@),
            r.price is None,
    {
        DomainStatus { domain, availability: Availability::Error(msg), price: None }
    }
}

/// Which domain checking backend to use.
#[derive(Debug, Clone, Copy, PartialEq, Eq, Structural)]
pub enum DomainCheckerKind {
    WhoisFreaks,
    Rdap,
    Dns,
}

/// The display label of a checking backend.
pub open spec fn checker_label(k: DomainCheckerKind) -> Seq<char> {
    match k {
        DomainCheckerKind::WhoisFreaks => "WhoisFreaks (Free Tier)"@,
        DomainCheckerKind::Rdap => "RDAP (Direct, Free)"@,
        DomainCheckerKind::Dns => "DNS (Fast & Unlimited)"@,
    }
}

impl DomainCheckerKind {
    pub fn label(self) -> (r: &'static str)
        ensures
            r@ == checker_label(self),
    {
        match self {
            DomainCheckerKind::WhoisFreaks => "WhoisFreaks (Free Tier)",
            DomainCheckerKind::Rdap => "RDAP (Direct, Free)",
            DomainCheckerKind::Dns => "DNS (Fast & Unlimited)",
        }
    }
}

impl Default for DomainCheckerKind {
    fn default() -> (r: Self)
        ensures
            r == DomainCheckerKind::WhoisFreaks,
    {
        DomainCheckerKind::WhoisFreaks
    }
}

} // verus!
