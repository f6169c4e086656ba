//! Looking a host name up: which name server is asked, and what is made of
//! the answer. The lookup itself is not done here.

use crate::text::{chars_of, find, option_view, position};
use vstd::prelude::*;
use vstd::slice::slice_subrange;
use vstd::string::StringExecFns;

verus! {

/// The parts of `s` between the occurrences of `c`: one more than there are
/// occurrences, some of them empty where two occurrences touch or one stands
/// at an end.
pub open spec fn split_on(s: Seq<char>, c: char) -> Seq<Seq<char>>
    decreases s.len(),
{
    let k = position(s, c);
    if 0 <= k < s.len() {
        seq![s.take(k)] + split_on(s.skip(k + 1), c)
    } else {
        seq![s]
    }
}

/// The views of a sequence of slices.
pub open spec fn slices_view(v: Seq<&[char]>) -> Seq<Seq<char>> {
    Seq::new(v.len(), |i: int| v[i]@)
}

/// A decimal digit.
pub open spec fn is_digit(c: char) -> bool {
    '0' <= c && c <= '9'
}

/// A hexadecimal digit, in either case.
pub open spec fn is_hex_digit(c: char) -> bool {
    is_digit(c) || ('a' <= c && c <= 'f') || ('A' <= c && c <= 'F')
}

/// The number that the decimal digits `s` write.
pub open spec fn decimal_value(s: Seq<char>) -> int
    decreases s.len(),
{
    if s.len() == 0 {
        0
    } else {
        10 * decimal_value(s.drop_last()) + (s.last() as int - '0' as int)
    }
}

/// One part of a dotted quad: one to three decimal digits that write a number
/// up to 255, with no zero in front of another digit.
pub open spec fn is_octet(s: Seq<char>) -> bool {
    &&& 1 <= s.len() <= 3
    &&& forall|i: int| 0 <= i < s.len() ==> is_digit(#[trigger] s[i])
    &&& (s.len() > 1 ==> s[0] != '0')
    &&& decimal_value(s) <= 255
}

/// An IPv4 address in text: four octets with dots between them.
pub open spec fn is_ipv4(s: Seq<char>) -> bool {
    let parts = split_on(s, '.');
    parts.len() == 4 && forall|i: int| 0 <= i < 4 ==> is_octet(#[trigger] parts[i])
}

/// One 16-bit group of an IPv6 address: one to four hexadecimal digits.
pub open spec fn is_group(s: Seq<char>) -> bool {
    1 <= s.len() <= 4 && forall|i: int| 0 <= i < s.len() ==> is_hex_digit(#[trigger] s[i])
}

/// How many 16-bit groups the colon-separated `parts` write, where each of
/// them is a group, but for the last, which may be an IPv4 address where
/// `v4_allowed`: that one counts for two. `None` where they are anything else.
pub open spec fn group_count(parts: Seq<Seq<char>>, v4_allowed: bool) -> Option<nat> {
    if forall|i: int| 0 <= i < parts.len() ==> is_group(#[trigger] parts[i]) {
        Some(parts.len())
    } else if v4_allowed && parts.len() > 0 && is_ipv4(parts.last()) && forall|i: int|
        0 <= i < parts.len() - 1 ==> is_group(#[trigger] parts[i]) {
        Some(parts.len() + 1)
    } else {
        None
    }
}

/// The groups that one side of a `::` writes: none where the side is empty.
pub open spec fn side_count(side: Seq<char>, v4_allowed: bool) -> Option<nat> {
    if side.len() == 0 {
        Some(0)
    } else {
        group_count(split_on(side, ':'), v4_allowed)
    }
}

/// The index of the first `::` in `s`, or the length of `s` where there is
/// none.
pub open spec fn double_colon(s: Seq<char>) -> int
    decreases s.len(),
{
    if s.len() < 2 {
        s.len() as int
    } else if s[0] == ':' && s[1] == ':' {
        0
    } else {
        1 + double_colon(s.drop_first())
    }
}

/// An IPv6 address in text. Without `::` it is eight groups with colons
/// between them, the last two of which may be written as an IPv4 address.
/// With `::`, which stands for one or more groups of zeros, it is at most
/// seven groups, on the two sides of the first `::`; only the right side may
/// end in an IPv4 address.
pub open spec fn is_ipv6(s: Seq<char>) -> bool {
    let k = double_colon(s);
    if 0 <= k < s.len() {
        let head = side_count(s.take(k), false);
        let tail = side_count(s.skip(k + 2), true);
        head is Some && tail is Some && head->0 + tail->0 <= 7
    } else {
        group_count(split_on(s, ':'), true) == Some(8nat)
    }
}

/// An IP address in text, of either family.
pub open spec fn is_ip_address(s: Seq<char>) -> bool {
    is_ipv4(s) || is_ipv6(s)
}

/// Splits `s` at every `c`.
pub fn split<'a>(s: &'a [char], c: char) -> (parts: Vec<&'a [char]>)
    ensures
        slices_view(parts@) == split_on(s@, c),
{
    let mut parts: Vec<&'a [char]> = Vec::new();
    let mut rest: &'a [char] = s;
    assert(slices_view(parts@) + split_on(rest@, c) =~= split_on(s@, c));
    loop
        invariant_except_break
            split_on(s@, c) == slices_view(parts@) + split_on(rest@, c),
        ensures
            slices_view(parts@) == split_on(s@, c),
        decreases rest.len(),
    {
        let ghost before = slices_view(parts@);
        let k = find(rest, c);
        if k < rest.len() {
            let part = slice_subrange(rest, 0, k);
            parts.push(part);
            rest = slice_subrange(rest, k + 1, rest.len());
            assert(slices_view(parts@) =~= before.push(part@));
            assert(before + (seq![part@] + split_on(rest@, c)) =~= before.push(part@) + split_on(
                rest@,
                c,
            ));
        } else {
            parts.push(rest);
            assert(slices_view(parts@) =~= before.push(rest@));
            assert(before + seq![rest@] =~= before.push(rest@));
            break;
        }
    }
    parts
}

/// Whether `s` is an octet of a dotted quad.
pub fn valid_octet(s: &[char]) -> (r: bool)
    ensures
        r == is_octet(s@),
{
    if s.len() < 1 || s.len() > 3 {
        return false;
    }
    let mut value: u32 = 0;
    let mut i: usize = 0;
    assert(s@.take(0) =~= Seq::empty());
    while i < s.len()
        invariant
            i <= s.len() <= 3,
            forall|j: int| 0 <= j < i ==> is_digit(#[trigger] s@[j]),
            value == decimal_value(s@.take(i as int)),
            value <= 999,
            i <= 2 ==> value <= 99,
            i <= 1 ==> value <= 9,
            i == 0 ==> value == 0,
        decreases s.len() - i,
    {
        let c = s[i];
        if !(c >= '0' && c <= '9') {
            return false;
        }
        assert(s@.take(i + 1).drop_last() =~= s@.take(i as int));
        value = value * 10 + (c as u32 - '0' as u32);
        i = i + 1;
    }
    assert(s@.take(i as int) =~= s@);
    !(s.len() > 1 && s[0] == '0') && value <= 255
}

/// Whether `s` is an IPv4 address in text.
pub fn valid_ipv4(s: &[char]) -> (r: bool)
    ensures
        r == is_ipv4(s@),
{
    let parts = split(s, '.');
    if parts.len() != 4 {
        return false;
    }
    let ghost view = slices_view(parts@);
    let mut i: usize = 0;
    while i < 4
        invariant
            i <= 4,
            parts@.len() == 4,
            view == slices_view(parts@),
            view == split_on(s@, '.'),
            forall|j: int| 0 <= j < i ==> is_octet(#[trigger] view[j]),
        decreases 4 - i,
    {
        if !valid_octet(parts[i]) {
            assert(!is_octet(view[i as int]));
            return false;
        }
        assert(is_octet(view[i as int]));
        i = i + 1;
    }
    true
}

/// Whether `s` is a group of an IPv6 address.
pub fn valid_group(s: &[char]) -> (r: bool)
    ensures
        r == is_group(s@),
{
    if s.len() < 1 || s.len() > 4 {
        return false;
    }
    let mut i: usize = 0;
    while i < s.len()
        invariant
            i <= s.len(),
            forall|j: int| 0 <= j < i ==> is_hex_digit(#[trigger] s@[j]),
        decreases s.len() - i,
    {
        let c = s[i];
        if !((c >= '0' && c <= '9') || (c >= 'a' && c <= 'f') || (c >= 'A' && c <= 'F')) {
            return false;
        }
        i = i + 1;
    }
    true
}

/// The groups that `parts` write, as [`group_count`] counts them; `None` also
/// where there are more than eight parts, which no address has.
fn count_groups(parts: &Vec<&[char]>, v4_allowed: bool) -> (r: Option<usize>)
    ensures
        r matches Some(n) ==> group_count(slices_view(parts@), v4_allowed) == Some(n as nat),
        r is None ==> parts@.len() > 8 || group_count(slices_view(parts@), v4_allowed) is None,
{
    if parts.len() > 8 {
        return None;
    }
    let ghost view = slices_view(parts@);
    let mut i: usize = 0;
    while i < parts.len()
        invariant
            i <= parts.len() <= 8,
            view == slices_view(parts@),
            forall|j: int| 0 <= j < i ==> is_group(#[trigger] view[j]),
        decreases parts.len() - i,
    {
        if !valid_group(parts[i]) {
            assert(!is_group(view[i as int]));
            if v4_allowed && i + 1 == parts.len() && valid_ipv4(parts[i]) {
                assert(view.last() == view[i as int]);
                return Some(parts.len() + 1);
            }
            assert(view.last() == view[parts@.len() - 1]);
            return None;
        }
        assert(is_group(view[i as int]));
        i = i + 1;
    }
    Some(parts.len())
}

/// The groups that one side of a `::` writes; `None` also where they are
/// more than eight.
fn count_side(side: &[char], v4_allowed: bool) -> (r: Option<usize>)
    ensures
        r matches Some(n) ==> side_count(side@, v4_allowed) == Some(n as nat),
        r is None ==> side_count(side@, v4_allowed) is None || side_count(side@, v4_allowed)->0
            > 8,
{
    if side.len() == 0 {
        Some(0)
    } else {
        let parts = split(side, ':');
        count_groups(&parts, v4_allowed)
    }
}

/// The index of the first `::` in `s`, or the length of `s`.
pub fn find_double_colon(s: &[char]) -> (k: usize)
    ensures
        k == double_colon(s@),
        k <= s@.len(),
        k < s@.len() ==> k + 2 <= s@.len(),
{
    if s.len() < 2 {
        return s.len();
    }
    let end = s.len() - 1;
    let mut i: usize = 0;
    assert(s@.skip(0) =~= s@);
    while i < end
        invariant
            i <= end == s.len() - 1,
            double_colon(s@) == i + double_colon(s@.skip(i as int)),
        decreases end - i,
    {
        if s[i] == ':' && s[i + 1] == ':' {
            return i;
        }
        assert(s@.skip(i as int).drop_first() =~= s@.skip(i + 1));
        i = i + 1;
    }
    s.len()
}

/// Whether `s` is an IPv6 address in text.
pub fn valid_ipv6(s: &[char]) -> (r: bool)
    ensures
        r == is_ipv6(s@),
{
    let k = find_double_colon(s);
    if k < s.len() {
        let head = count_side(slice_subrange(s, 0, k), false);
        let tail = count_side(slice_subrange(s, k + 2, s.len()), true);
        match (head, tail) {
            (Some(h), Some(t)) => h <= 7 && t <= 7 && h + t <= 7,
            _ => false,
        }
    } else {
        let parts = split(s, ':');
        match count_groups(&parts, true) {
            Some(n) => n == 8,
            None => false,
        }
    }
}

/// Whether `s` is an IP address in text, of either family.
pub fn is_ip(s: &str) -> (r: bool)
    ensures
        r == is_ip_address(s@),
{
    let chars = chars_of(s);
    valid_ipv4(chars.as_slice()) || valid_ipv6(chars.as_slice())
}

/// The port on which a name server is asked.
pub const DNS_PORT: u16 = 53;

/// Why a host name was not resolved.
#[derive(Clone, Debug)]
pub enum ResolveError {
    /// The text given as the name server is no IP address.
    InvalidDnsServer(String),
    /// The lookup of `hostname` failed, for `reason`.
    LookupFailed { hostname: String, reason: String },
    /// The lookup succeeded and gave no address.
    NoAddress,
}

/// What a [`ResolveError`] holds, as character sequences.
pub enum ResolveErrorView {
    InvalidDnsServer(Seq<char>),
    LookupFailed { hostname: Seq<char>, reason: Seq<char> },
    NoAddress,
}

impl View for ResolveError {
    type V = ResolveErrorView;

    open spec fn view(&self) -> ResolveErrorView {
        match *self {
            ResolveError::InvalidDnsServer(s) => ResolveErrorView::InvalidDnsServer(s@),
            ResolveError::LookupFailed { hostname, reason } => ResolveErrorView::LookupFailed {
                hostname: hostname@,
                reason: reason@,
            },
            ResolveError::NoAddress => ResolveErrorView::NoAddress,
        }
    }
}

/// The text that tells a user of `error`.
pub open spec fn error_text(error: ResolveErrorView) -> Seq<char> {
    match error {
        ResolveErrorView::InvalidDnsServer(s) => "Invalid DNS server IP '"@ + s
            + "': invalid IP address syntax"@,
        ResolveErrorView::LookupFailed { hostname, reason } => "Failed to resolve hostname '"@
            + hostname + "': "@ + reason,
        ResolveErrorView::NoAddress => "No IP addresses found for hostname"@,
    }
}

impl ResolveError {
    /// The text that tells a user of the error.
    pub fn message(&self) -> (text: String)
        ensures
            text@ == error_text(self@),
    {
        match self {
            ResolveError::InvalidDnsServer(s) => String::from_str("Invalid DNS server IP '").concat(
                s.as_str(),
            ).concat("': invalid IP address syntax"),
            ResolveError::LookupFailed { hostname, reason } => String::from_str(
                "Failed to resolve hostname '",
            ).concat(hostname.as_str()).concat("': ").concat(reason.as_str()),
            ResolveError::NoAddress => String::from_str("No IP addresses found for hostname"),
        }
    }
}

/// A lookup that is ready to be made: the name to look up, and the name
/// server to ask on `port`, or `None` for the resolver's own servers.
#[derive(Clone, Debug)]
pub struct LookupPlan {
    pub hostname: String,
    pub server: Option<String>,
    pub port: u16,
}

/// What a [`LookupPlan`] holds, as character sequences.
pub struct LookupPlanView {
    pub hostname: Seq<char>,
    pub server: Option<Seq<char>>,
    pub port: u16,
}

impl View for LookupPlan {
    type V = LookupPlanView;

    open spec fn view(&self) -> LookupPlanView {
        LookupPlanView {
            hostname: self.hostname@,
            server: option_view(self.server),
            port: self.port,
        }
    }
}

/// The lookup to make for `hostname` where the user named `dns_server`: an
/// empty text asks for the resolver's own servers, the text of an IP address
/// for that server, and any other text is refused.
pub open spec fn planned(hostname: Seq<char>, dns_server: Seq<char>) -> Result<
    LookupPlanView,
    ResolveErrorView,
> {
    if dns_server.len() == 0 {
        Ok(LookupPlanView { hostname, server: None, port: DNS_PORT })
    } else if is_ip_address(dns_server) {
        Ok(LookupPlanView { hostname, server: Some(dns_server), port: DNS_PORT })
    } else {
        Err(ResolveErrorView::InvalidDnsServer(dns_server))
    }
}

/// The view of the result of planning a lookup.
pub open spec fn plan_view(r: Result<LookupPlan, ResolveError>) -> Result<
    LookupPlanView,
    ResolveErrorView,
> {
    match r {
        Ok(p) => Ok(p@),
        Err(e) => Err(e@),
    }
}

/// Decides which lookup to make for `hostname`, before any lookup is made.
pub fn plan_lookup(hostname: &str, dns_server: &str) -> (r: Result<LookupPlan, ResolveError>)
    ensures
        plan_view(r) == planned(hostname@, dns_server@),
{
    if dns_server.is_empty() {
        Ok(LookupPlan { hostname: String::from_str(hostname), server: None, port: DNS_PORT })
    } else if is_ip(dns_server) {
        Ok(
            LookupPlan {
                hostname: String::from_str(hostname),
                server: Some(String::from_str(dns_server)),
                port: DNS_PORT,
            },
        )
    } else {
        Err(ResolveError::InvalidDnsServer(String::from_str(dns_server)))
    }
}

/// What a lookup of `hostname` comes to, where `outcome` is what the resolver
/// gave: the first of its addresses, `NoAddress` where it gave none, and
/// `LookupFailed` with its reason where it failed.
pub open spec fn resolved(
    hostname: Seq<char>,
    outcome: Result<Seq<Seq<char>>, Seq<char>>,
) -> Result<Seq<char>, ResolveErrorView> {
    match outcome {
        Err(reason) => Err(ResolveErrorView::LookupFailed { hostname, reason }),
        Ok(addresses) => if addresses.len() == 0 {
            Err(ResolveErrorView::NoAddress)
        } else {
            Ok(addresses[0])
        },
    }
}

/// The view of what a resolver gave.
pub open spec fn outcome_view(outcome: Result<Vec<String>, String>) -> Result<
    Seq<Seq<char>>,
    Seq<char>,
> {
    match outcome {
        Ok(addresses) => Ok(Seq::new(addresses@.len(), |i: int| addresses@[i]@)),
        Err(reason) => Err(reason@),
    }
}

/// The view of the result of a lookup.
pub open spec fn address_view(r: Result<String, ResolveError>) -> Result<
    Seq<char>,
    ResolveErrorView,
> {
    match r {
        Ok(a) => Ok(a@),
        Err(e) => Err(e@),
    }
}

/// Makes the result of a lookup of `hostname` from what the resolver gave.
pub fn first_address(hostname: &str, outcome: Result<Vec<String>, String>) -> (r: Result<
    String,
    ResolveError,
>)
    ensures
        address_view(r) == resolved(hostname@, outcome_view(outcome)),
{
    match outcome {
        Err(reason) => Err(
            ResolveError::LookupFailed { hostname: String::from_str(hostname), reason },
        ),
        Ok(addresses) => {
            if addresses.len() == 0 {
                Err(ResolveError::NoAddress)
            } else {
                Ok(addresses[0].clone())
            }
        },
    }
}

} // verus!
