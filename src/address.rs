use vstd::prelude::*;

verus! {

/// The lowercase form of an address, as std's case mapping gives it.
pub uninterp spec fn lower_of(s: Seq<char>) -> Seq<char>;

/// Relies on str::to_lowercase: the result depends on the characters alone.
#[verifier::external_body]
fn lowercase(s: &str) -> (r: String)
    ensures
        r@ == lower_of(s@),
{
    s.to_lowercase()
}

/// The normal form of an address under which balances and ownership are
/// compared: its lowercase form.
pub fn normalize(addr: &String) -> (r: String)
    ensures
        r@ == lower_of(addr@),
{
    lowercase(addr.as_str())
}

/// Whether two addresses name the same account, ignoring case.
pub fn same_address(a: &String, b: &String) -> (r: bool)
    ensures
        r == (lower_of(a@) == lower_of(b@)),
{
    let la = normalize(a);
    let lb = normalize(b);
    la == lb
}

} // verus!
