//! The addresses of a domain: the name that is looked up, when an answer
//! counts as none, and how each address becomes the host range (`/32` or
//! `/128`) that a rule routes. The lookup itself is the system resolver's.
use vstd::prelude::*;

use crate::models::IpFamily;
use crate::text::{append_str, string_of, texts_of};

verus! {

/// An address as the range of that one host.
pub open spec fn host_cidr(addr: Seq<char>, family: IpFamily) -> Seq<char> {
    addr + match family {
        IpFamily::V4 => "/32"@,
        IpFamily::V6 => "/128"@,
    }
}

pub fn to_host_cidr(addr: &str, family: IpFamily) -> (r: String)
    ensures
        r@ == host_cidr(addr@, family),
{
    let mut r = string_of(addr);
    match family {
        IpFamily::V4 => append_str(&mut r, "/32"),
        IpFamily::V6 => append_str(&mut r, "/128"),
    }
    r
}

/// The name given to the system resolver: the domain with port 80, as a
/// socket address needs one.
pub fn lookup_name(domain: &str) -> (r: String)
    ensures
        r@ == domain@ + ":80"@,
{
    let mut r = string_of(domain);
    append_str(&mut r, ":80");
    r
}

/// The error when the resolver fails.
pub fn lookup_failure(domain: &str) -> (r: String)
    ensures
        r@ == "'"@ + domain@ + "' DNS çözümlemesi başarısız"@,
{
    let mut r = string_of("'");
    append_str(&mut r, domain);
    append_str(&mut r, "' DNS çözümlemesi başarısız");
    r
}

pub open spec fn addrs_view(v: Seq<(String, IpFamily)>) -> Seq<(Seq<char>, IpFamily)> {
    v.map_values(|a: (String, IpFamily)| (a.0@, a.1))
}

/// The answer of the resolver: an empty one is an error.
pub open spec fn resolution_of(domain: Seq<char>, addrs: Seq<(Seq<char>, IpFamily)>) -> Result<
    Seq<(Seq<char>, IpFamily)>,
    Seq<char>,
> {
    if addrs.len() == 0 {
        Err("'"@ + domain + "' için hiçbir IP adresi bulunamadı"@)
    } else {
        Ok(addrs)
    }
}

/// The addresses that the resolver gave for `domain`, each with its family.
pub fn resolved_addresses(domain: &str, addrs: Vec<(String, IpFamily)>) -> (r: Result<
    Vec<(String, IpFamily)>,
    String,
>)
    ensures
        (match r {
            Ok(v) => Ok(addrs_view(v@)),
            Err(e) => Err(e@),
        }) == resolution_of(domain@, addrs_view(addrs@)),
{
    if addrs.len() == 0 {
        let mut m = string_of("'");
        append_str(&mut m, domain);
        append_str(&mut m, "' için hiçbir IP adresi bulunamadı");
        Err(m)
    } else {
        Ok(addrs)
    }
}

/// Each address as its host range, in order.
pub fn host_cidrs(addrs: &Vec<(String, IpFamily)>) -> (r: Vec<String>)
    ensures
        texts_of(r@) == addrs_view(addrs@).map_values(
            |a: (Seq<char>, IpFamily)| host_cidr(a.0, a.1),
        ),
{
    let ghost want = addrs_view(addrs@).map_values(|a: (Seq<char>, IpFamily)| host_cidr(a.0, a.1));
    let mut r: Vec<String> = Vec::new();
    let mut i: usize = 0;
    while i < addrs.len()
        invariant
            i <= addrs.len(),
            want == addrs_view(addrs@).map_values(|a: (Seq<char>, IpFamily)| host_cidr(a.0, a.1)),
            texts_of(r@) == want.take(i as int),
        decreases addrs.len() - i,
    {
        let ghost before = r@;
        let (a, f) = &addrs[i];
        let c = to_host_cidr(a.as_str(), *f);
        r.push(c);
        assert(want[i as int] == c@);
        assert(texts_of(r@) =~= texts_of(before).push(c@));
        assert(want.take(i + 1) =~= want.take(i as int).push(want[i as int]));
        i = i + 1;
    }
    assert(want.take(addrs.len() as int) =~= want);
    r
}

} // verus!
