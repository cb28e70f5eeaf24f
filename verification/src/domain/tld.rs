//! TLD expansion: given base names, produce full domain candidates across
//! the configured TLDs.

use vstd::prelude::*;
use vstd::string::StringExecFns;
use crate::text::{lowercase, to_lowercase, trim, trimmed};

verus! {

/// The default set of popular TLDs to check.
pub const DEFAULT_TLDS: [&'static str; 11] = [
    ".com",
    ".io",
    ".dev",
    ".app",
    ".co",
    ".net",
    ".org",
    ".ai",
    ".xyz",
    ".tech",
    ".me",
];

/// A base name as it is used in a domain: trimmed and lowercased.
pub open spec fn clean_base(name: Seq<char>) -> Seq<char> {
    lowercase(trimmed(name))
}

/// The domains `base + tld` for each TLD, in order.
pub open spec fn with_tlds(base: Seq<char>, tlds: Seq<Seq<char>>) -> Seq<Seq<char>> {
    tlds.map_values(|t: Seq<char>| base + t)
}

/// All combinations of the cleaned, non-empty base names with the TLDs:
/// name by name, and for each name TLD by TLD.
pub open spec fn expansion(names: Seq<Seq<char>>, tlds: Seq<Seq<char>>) -> Seq<Seq<char>>
    decreases names.len(),
{
    if names.len() == 0 {
        Seq::empty()
    } else {
        let prev = expansion(names.drop_last(), tlds);
        let base = clean_base(names.last());
        if base.len() == 0 {
            prev
        } else {
            prev + with_tlds(base, tlds)
        }
    }
}

/// Given a list of base names and a list of TLDs, produce all combinations.
///
/// Example: `expand(&["nexora"], &[".com", ".io"])` gives `["nexora.com", "nexora.io"]`.
pub fn expand(base_names: &[String], tlds: &[String]) -> (r: Vec<String>)
    ensures
        r.deep_view() == expansion(base_names.deep_view(), tlds.deep_view()),
{
    let mut results: Vec<String> = Vec::new();
    for i in 0..base_names.len()
        invariant
            results.deep_view() == expansion(base_names.deep_view().take(i as int), tlds.deep_view()),
    {
        assert(base_names.deep_view().take(i + 1).drop_last() =~= base_names.deep_view().take(
            i as int,
        ));
        assert(base_names.deep_view().take(i + 1).last() == base_names@[i as int]@);
        let clean = to_lowercase(trim(base_names[i].as_str()));
        if !clean.as_str().is_empty() {
            let ghost prev = results.deep_view();
            for j in 0..tlds.len()
                invariant
                    clean@.len() > 0,
                    results.deep_view() == prev + with_tlds(
                        clean@,
                        tlds.deep_view().take(j as int),
                    ),
            {
                let ghost before = results.deep_view();
                let mut d = clean.clone();
                d.append(tlds[j].as_str());
                results.push(d);
                assert(with_tlds(clean@, tlds.deep_view().take(j + 1)) =~= with_tlds(
                    clean@,
                    tlds.deep_view().take(j as int),
                ).push(clean@ + tlds@[j as int]@));
                assert(results.deep_view() =~= before.push(clean@ + tlds@[j as int]@));
            }
            assert(tlds.deep_view().take(tlds.len() as int) =~= tlds.deep_view());
        }
    }
    assert(base_names.deep_view().take(base_names.len() as int) =~= base_names.deep_view());
    results
}


/// The number of base names that are not blank once cleaned.
pub open spec fn usable_names(names: Seq<Seq<char>>) -> nat
    decreases names.len(),
{
    if names.len() == 0 {
        0
    } else {
        usable_names(names.drop_last()) + if clean_base(names.last()).len() > 0 {
            1nat
        } else {
            0nat
        }
    }
}

/// Every usable base name yields one domain per TLD.
pub proof fn law_expansion_size(names: Seq<Seq<char>>, tlds: Seq<Seq<char>>)
    ensures
        expansion(names, tlds).len() == usable_names(names) * tlds.len(),
    decreases names.len(),
{
    if names.len() > 0 {
        law_expansion_size(names.drop_last(), tlds);
        let k = usable_names(names.drop_last());
        let t = tlds.len();
        let base = clean_base(names.last());
        assert(with_tlds(base, tlds).len() == t);
        assert((k + 1) * t == k * t + t) by (nonlinear_arith);
        if base.len() > 0 {
            assert(usable_names(names) == k + 1);
            assert(expansion(names, tlds).len() == k * t + t);
        } else {
            assert(usable_names(names) == k);
        }
    } else {
        assert(0 * tlds.len() == 0) by (nonlinear_arith);
    }
}

/// Every non-blank base name yields, for every TLD, the domain made of the
/// whole name, trimmed and lowercased, followed by the TLD: no name is
/// shortened or dropped.
pub proof fn law_expand_keeps_whole_names(names: Seq<Seq<char>>, tlds: Seq<Seq<char>>, i: int, j: int)
    requires
        0 <= i < names.len(),
        0 <= j < tlds.len(),
        lowercase(trimmed(names[i])).len() > 0,
    ensures
        expansion(names, tlds).contains(lowercase(trimmed(names[i])) + tlds[j]),
    decreases names.len(),
{
    let prev = expansion(names.drop_last(), tlds);
    if i == names.len() - 1 {
        let base = lowercase(trimmed(names[i]));
        let w = with_tlds(base, tlds);
        assert(w[j] == base + tlds[j]);
        assert(expansion(names, tlds)[prev.len() + j] == base + tlds[j]);
    } else {
        assert(names.drop_last()[i] == names[i]);
        law_expand_keeps_whole_names(names.drop_last(), tlds, i, j);
        let k = choose|k: int| 0 <= k < prev.len() && prev[k] == lowercase(trimmed(names[i])) + tlds[j];
        let base = clean_base(names.last());
        if base.len() > 0 {
            assert(expansion(names, tlds)[k] == prev[k]);
        }
    }
}

/// Every expanded domain is some non-blank base name, trimmed and
/// lowercased, followed by one of the TLDs.
pub proof fn law_expand_only_names_with_tlds(names: Seq<Seq<char>>, tlds: Seq<Seq<char>>, d: Seq<char>)
    requires
        expansion(names, tlds).contains(d),
    ensures
        exists|i: int, j: int|
            0 <= i < names.len() && 0 <= j < tlds.len() && lowercase(trimmed(#[trigger] names[i])).len() > 0
                && d == lowercase(trimmed(names[i])) + #[trigger] tlds[j],
    decreases names.len(),
{
    let prev = expansion(names.drop_last(), tlds);
    let n = names.len() - 1;
    let base = clean_base(names.last());
    let k = choose|k: int| 0 <= k < expansion(names, tlds).len() && expansion(names, tlds)[k] == d;
    if k < prev.len() {
        assert(prev[k] == d);
        law_expand_only_names_with_tlds(names.drop_last(), tlds, d);
        let (i, j) = choose|i: int, j: int|
            0 <= i < names.drop_last().len() && 0 <= j < tlds.len() && lowercase(trimmed(#[trigger] names.drop_last()[i])).len() > 0
                && d == lowercase(trimmed(names.drop_last()[i])) + #[trigger] tlds[j];
        assert(names[i] == names.drop_last()[i]);
    } else {
        let j = k - prev.len();
        assert(with_tlds(base, tlds)[j] == base + tlds[j]);
        assert(names[n] == names.last());
    }
}

} // verus!
