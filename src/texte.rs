use vstd::prelude::*;

verus! {

/// `p` is a prefix of `s`.
pub open spec fn est_prefixe(p: Seq<char>, s: Seq<char>) -> bool {
    p.len() <= s.len() && s.subrange(0, p.len() as int) == p
}

/// Relies on str::starts_with with a string pattern: whether `p` is a prefix
/// of `s`.
#[verifier::external_body]
pub(crate) fn commence_par(s: &String, p: &String) -> (r: bool)
    ensures
        r == est_prefixe(p@, s@),
{
    s.starts_with(p.as_str())
}

/// The lower-case form of a text, as `str::to_lowercase` gives it.
pub uninterp spec fn minuscules(s: Seq<char>) -> Seq<char>;

/// Relies on str::to_lowercase: the result depends on the characters alone.
#[verifier::external_body]
pub(crate) fn en_minuscules(s: &str) -> (r: String)
    ensures
        r@ == minuscules(s@),
{
    s.to_lowercase()
}

/// `p` occurs in `s`.
pub open spec fn contient(s: Seq<char>, p: Seq<char>) -> bool {
    exists|i: int| 0 <= i && i + p.len() <= s.len() && #[trigger] s.subrange(i, i + p.len()) == p
}

/// Relies on str::contains with a string pattern: whether `p` occurs in `s`.
#[verifier::external_body]
pub(crate) fn contient_texte(s: &String, p: &String) -> (r: bool)
    ensures
        r == contient(s@, p@),
{
    s.contains(p.as_str())
}

} // verus!
