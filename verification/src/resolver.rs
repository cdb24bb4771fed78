//! Where a server is: what the name of a server says, and what the records of its domain say.
use crate::room;
use vstd::prelude::*;
use vstd::string::*;

verus! {

/// A text without any `c` at its front.
pub open spec fn without_front(s: Seq<char>, c: char) -> Seq<char>
    decreases s.len(),
{
    if s.len() > 0 && s[0] == c {
        without_front(s.skip(1), c)
    } else {
        s
    }
}

/// A text without any `c` at its end.
pub open spec fn without_end(s: Seq<char>, c: char) -> Seq<char>
    decreases s.len(),
{
    if s.len() > 0 && s.last() == c {
        without_end(s.drop_last(), c)
    } else {
        s
    }
}

/// A host without brackets around it.
pub open spec fn bare(host: Seq<char>) -> Seq<char> {
    without_end(without_front(host, '['), ']')
}

/// A text without any `c` at its front.
fn trim_front<'a>(s: &'a str, c: char) -> (res: &'a str)
    ensures
        res@ == without_front(s@, c),
{
    let n: usize = s.unicode_len();
    let mut i: usize = 0;
    assert(s@.skip(0) =~= s@);
    while i < n && s.get_char(i) == c
        invariant
            i <= n,
            n == s@.len(),
            without_front(s@, c) == without_front(s@.skip(i as int), c),
        decreases n - i,
    {
        proof {
            assert(s@.skip(i as int).skip(1) =~= s@.skip(i + 1));
        }
        i += 1;
    }
    let t: &str = s.substring_char(i, n);
    assert(t@ =~= s@.skip(i as int));
    t
}

/// A text without any `c` at its end.
fn trim_end<'a>(s: &'a str, c: char) -> (res: &'a str)
    ensures
        res@ == without_end(s@, c),
{
    let mut n: usize = s.unicode_len();
    assert(s@.take(n as int) =~= s@);
    while n > 0 && s.get_char(n - 1) == c
        invariant
            n <= s@.len(),
            without_end(s@, c) == without_end(s@.take(n as int), c),
        decreases n,
    {
        proof {
            assert(s@.take(n as int).drop_last() =~= s@.take(n - 1));
        }
        n -= 1;
    }
    let t: &str = s.substring_char(0, n);
    assert(t@ =~= s@.take(n as int));
    t
}

/// A host without brackets around it.
pub fn bare_host<'a>(host: &'a str) -> (res: &'a str)
    ensures
        res@ == bare(host@),
{
    trim_end(trim_front(host, '['), ']')
}

/// How a server is to be found.
#[derive(Debug, PartialEq, Eq)]
pub enum Route {
    /// At this host and port.
    Direct(String, u16),
    /// Where the records under this name say.
    Records(String),
    /// Not at all: an address without a port.
    BareAddress,
}

/// What a [`Route`] means.
#[verifier::ext_equal]
pub enum RouteModel {
    Direct(Seq<char>, u16),
    Records(Seq<char>),
    BareAddress,
}

impl View for Route {
    type V = RouteModel;

    open spec fn view(&self) -> RouteModel {
        match *self {
            Route::Direct(host, port) => RouteModel::Direct(host@, port),
            Route::Records(name) => RouteModel::Records(name@),
            Route::BareAddress => RouteModel::BareAddress,
        }
    }
}

/// How a server is to be found: at its port where there is one, else by the records of its
/// domain.
pub open spec fn routed(host: Seq<char>, port: Option<u16>, is_address: bool) -> RouteModel {
    match port {
        Some(p) => RouteModel::Direct(host, p),
        None => if is_address {
            RouteModel::BareAddress
        } else {
            RouteModel::Records("_phira._tcp."@ + host)
        },
    }
}

/// How a server is to be found; `host` is without brackets, and `is_address` says whether it
/// is an address and no name.
pub fn route(host: &str, port: Option<u16>, is_address: bool) -> (res: Route)
    ensures
        res@ == routed(host@, port, is_address),
{
    match port {
        Some(p) => Route::Direct(host.to_owned(), p),
        None => {
            if is_address {
                Route::BareAddress
            } else {
                Route::Records(room::join2("_phira._tcp.", host))
            }
        },
    }
}

/// The text for an address without a port.
pub fn bare_address_text() -> (res: &'static str)
    ensures
        res@ == "Bare IP address is not supported"@,
{
    "Bare IP address is not supported"
}

/// The host and the port that the first of some records gives, without the dots at the end of
/// the host.
pub fn from_records(first: Option<(String, u16)>) -> (res: Result<(String, u16), &'static str>)
    ensures
        match first {
            Some((target, port)) => res matches Ok((host, p)) && host@ == without_end(
                target@,
                '.',
            ) && p == port,
            None => res matches Err(e) && e@ == "No SRV records found"@,
        },
{
    match first {
        Some((target, port)) => Ok((trim_end(target.as_str(), '.').to_owned(), port)),
        None => Err("No SRV records found"),
    }
}

/// A bare host has no bracket at its ends.
pub proof fn law_bare(host: Seq<char>)
    ensures
        bare(host).len() > 0 ==> bare(host)[0] != '[' && bare(host).last() != ']',
        bare(bare(host)) == bare(host),
{
    let a = without_front(host, '[');
    lemma_front(host, '[');
    lemma_end(a, ']');
}

/// What is left has no `c` at its front.
proof fn lemma_front(s: Seq<char>, c: char)
    ensures
        without_front(s, c).len() > 0 ==> without_front(s, c)[0] != c,
    decreases s.len(),
{
    if s.len() > 0 && s[0] == c {
        lemma_front(s.skip(1), c);
    }
}

/// What is left has no `c` at its end, and begins as the whole did.
proof fn lemma_end(s: Seq<char>, c: char)
    ensures
        without_end(s, c).len() > 0 ==> without_end(s, c).last() != c && without_end(s, c)[0]
            == s[0],
        without_end(s, c).len() <= s.len(),
    decreases s.len(),
{
    if s.len() > 0 && s.last() == c {
        lemma_end(s.drop_last(), c);
    }
}

/// How a server is found: at its port, if it has one; else by the records of its name, and not at
/// all if it has no name.
pub proof fn law_routes(host: Seq<char>, port: u16)
    ensures
        routed(host, Some(port), true) == RouteModel::Direct(host, port),
        routed(host, Some(port), false) == RouteModel::Direct(host, port),
        routed(host, None, false) == RouteModel::Records("_phira._tcp."@ + host),
        routed(host, None, true) == RouteModel::BareAddress,
{
}

/// What is taken off the end of a text is that character alone, all of it, and nothing else.
pub proof fn law_without_end(s: Seq<char>, c: char)
    ensures
        ({
            let t = without_end(s, c);
            &&& t.len() <= s.len()
            &&& t == s.take(t.len() as int)
            &&& t.len() > 0 ==> t.last() != c
            &&& forall|i: int| t.len() <= i < s.len() ==> #[trigger] s[i] == c
        }),
    decreases s.len(),
{
    let t = without_end(s, c);
    if s.len() > 0 && s.last() == c {
        law_without_end(s.drop_last(), c);
        assert(s.take(t.len() as int) =~= s.drop_last().take(t.len() as int));
        assert forall|i: int| t.len() <= i < s.len() implies #[trigger] s[i] == c by {
            if i < s.len() - 1 {
                assert(s.drop_last()[i] == c);
            }
        }
    } else {
        assert(s.take(t.len() as int) =~= s);
    }
}

/// What is taken off the front of a text is that character alone, all of it, and nothing else.
pub proof fn law_without_front(s: Seq<char>, c: char)
    ensures
        ({
            let t = without_front(s, c);
            let n = s.len() - t.len();
            &&& 0 <= n
            &&& t == s.skip(n)
            &&& t.len() > 0 ==> t[0] != c
            &&& forall|i: int| 0 <= i < n ==> #[trigger] s[i] == c
        }),
    decreases s.len(),
{
    let t = without_front(s, c);
    let n = s.len() - t.len();
    if s.len() > 0 && s[0] == c {
        let rest = s.skip(1);
        law_without_front(rest, c);
        assert(s.skip(n) =~= rest.skip(n - 1));
        assert forall|i: int| 0 <= i < n implies #[trigger] s[i] == c by {
            if i > 0 {
                assert(rest[i - 1] == c);
            }
        }
    } else {
        assert(s.skip(0) =~= s);
    }
}

/// A server that the records name is at the host and port that they give, without the dot that
/// such a name ends with.
pub proof fn law_found_by_records(
    host: String,
    name: Seq<char>,
    port: u16,
    found: Result<(String, u16), &'static str>,
)
    requires
        host@ == name.push('.'),
        name.len() > 0,
        name.last() != '.',
        call_ensures(from_records, (Some((host, port)),), found),
    ensures
        found matches Ok((h, p)) && h@ == name && p == port,
{
    assert(host@.drop_last() =~= name);
    assert(without_end(name, '.') == name);
    assert(without_end(host@, '.') == name);
}

} // verus!
