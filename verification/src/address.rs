//! Addresses: IP addresses, host and port pairs, the ports to listen on, and the URL of the
//! control service.

use crate::errors;
use crate::errors::{boxed_error, MeshError};
use crate::text;
use crate::text::{decimal_text, find_last, parse_u16, str_eq, trim_end_matches};
use vstd::prelude::*;
use vstd::string::*;

verus! {

/// Where the control service listens unless it is told otherwise.
pub const CONTROL_ADDR: &'static str = "127.0.0.1:7372";

/// The first port to listen on for peers, and the port assumed of a peer that names none.
pub const START_PORT: u16 = 7373;

/// The last port to listen on for peers.
pub const END_PORT: u16 = 7399;

/// An IP address. One of version 6 carries its text form.
#[derive(Debug, PartialEq)]
pub enum Ip {
    V4 { octets: [u8; 4] },
    V6 { segments: [u16; 8], text: String },
}

/// The dotted notation of four octets.
pub open spec fn dotted(octets: Seq<u8>) -> Seq<char> {
    text::decimal(octets[0] as nat) + seq!['.'] + text::decimal(octets[1] as nat) + seq!['.']
        + text::decimal(octets[2] as nat) + seq!['.'] + text::decimal(octets[3] as nat)
}

/// The text form of an address.
pub open spec fn ip_text(ip: Ip) -> Seq<char> {
    match ip {
        Ip::V4 { octets } => dotted(octets@),
        Ip::V6 { segments, text } => text@,
    }
}

/// Whether an address is a loopback address: 127.0.0.0/8, or ::1.
pub open spec fn loopback(ip: Ip) -> bool {
    match ip {
        Ip::V4 { octets } => octets@[0] == 127,
        Ip::V6 { segments, text } => (forall|i: int| 0 <= i < 7 ==> #[trigger] segments@[i] == 0)
            && segments@[7] == 1,
    }
}

/// The dotted notation of four octets.
pub fn dotted_text(octets: &[u8; 4]) -> (r: String)
    ensures
        r@ == dotted(octets@),
{
    proof {
        reveal_strlit(".");
        assert("."@ =~= seq!['.']);
    }
    let mut out = decimal_text(octets[0] as u64);
    out.append(".");
    out.append(decimal_text(octets[1] as u64).as_str());
    out.append(".");
    out.append(decimal_text(octets[2] as u64).as_str());
    out.append(".");
    out.append(decimal_text(octets[3] as u64).as_str());
    out
}

impl Ip {
    /// The text form of this address.
    pub fn to_text(&self) -> (r: String)
        ensures
            r@ == ip_text(*self),
    {
        match self {
            Ip::V4 { octets } => dotted_text(octets),
            Ip::V6 { segments, text } => text.clone(),
        }
    }

    /// Whether this is a loopback address.
    pub fn is_loopback(&self) -> (r: bool)
        ensures
            r == loopback(*self),
    {
        match self {
            Ip::V4 { octets } => octets[0] == 127,
            Ip::V6 { segments, text } => {
                let mut i: usize = 0;
                while i < 7
                    invariant
                        i <= 7,
                        forall|j: int| 0 <= j < i ==> #[trigger] segments@[j] == 0,
                        *self == (Ip::V6 { segments: *segments, text: *text }),
                    decreases 7 - i,
                {
                    if segments[i] != 0 {
                        return false;
                    }
                    i = i + 1;
                }
                segments[7] == 1
            },
        }
    }
}

/// The port at the end of an advertised address: the number after its last colon, where
/// there is one, and the first mesh port otherwise.
pub open spec fn advertised_port(advertised: Seq<char>) -> nat {
    let colon = text::last_index(advertised, ':');
    if colon < 0 {
        START_PORT as nat
    } else {
        match text::unsigned_value(advertised.skip(colon + 1), u16::MAX as nat) {
            Some(port) => port,
            None => START_PORT as nat,
        }
    }
}

/// An address and a port in the form in which they are dialled.
pub open spec fn socket_text(ip: Ip, port: nat) -> Seq<char> {
    match ip {
        Ip::V4 { octets } => dotted(octets@) + seq![':'] + text::decimal(port),
        Ip::V6 { segments, text } => seq!['['] + text@ + seq![']', ':'] + text::decimal(port),
    }
}

/// The address under which a peer that advertises `advertised` is reached: the address that
/// it called from, with the port that it advertises.
pub fn reachable_addr(advertised: &str, remote: &Ip) -> (r: String)
    ensures
        r@ == socket_text(*remote, advertised_port(advertised@)),
{
    let port: u16 = match find_last(advertised, ':') {
        Some(colon) => {
            let total: usize = advertised.unicode_len();
            let tail = advertised.substring_char(colon + 1, total);
            proof {
                assert(tail@ =~= advertised@.skip(colon + 1));
            }
            match parse_u16(tail) {
                Some(port) => port,
                None => START_PORT,
            }
        },
        None => START_PORT,
    };
    proof {
        reveal_strlit(":");
        reveal_strlit("[");
        reveal_strlit("]:");
        assert(":"@ =~= seq![':']);
        assert("["@ =~= seq!['[']);
        assert("]:"@ =~= seq![']', ':']);
    }
    let mut out = String::new();
    match remote {
        Ip::V4 { octets } => {
            out.append(dotted_text(octets).as_str());
            out.append(":");
        },
        Ip::V6 { segments, text } => {
            out.append("[");
            out.append(text.as_str());
            out.append("]:");
        },
    }
    out.append(decimal_text(port as u64).as_str());
    proof {
        assert(out@ =~= socket_text(*remote, port as nat));
    }
    out
}

/// The first and the last port to try, given the text of a configured port.
pub open spec fn ports_to_try(configured: Option<Seq<char>>) -> (nat, nat) {
    let start = match configured {
        Some(s) => match text::unsigned_value(s, u16::MAX as nat) {
            Some(port) => port,
            None => START_PORT as nat,
        },
        None => START_PORT as nat,
    };
    (start, if start > END_PORT { start } else { END_PORT as nat })
}

/// The first and the last port to try to listen on.
pub fn listen_ports(configured: Option<&str>) -> (r: (u16, u16))
    ensures
        (r.0 as nat, r.1 as nat) == ports_to_try(text::opt_str(configured)),
        r.0 <= r.1,
{
    let start: u16 = match configured {
        Some(s) => match parse_u16(s) {
            Some(port) => port,
            None => START_PORT,
        },
        None => START_PORT,
    };
    if start > END_PORT {
        (start, start)
    } else {
        (start, END_PORT)
    }
}

/// What to do about a listening port.
#[derive(Debug, PartialEq)]
pub enum PortStep {
    Try(u16),
    NoneFree,
}

/// What follows when `port` could not be had, in a range that ends at `last`.
pub open spec fn port_after(port: u16, last: u16) -> PortStep {
    if port < last {
        PortStep::Try((port + 1) as u16)
    } else {
        PortStep::NoneFree
    }
}

/// The port to try after `port` could not be had, in a range that ends at `last`.
pub fn next_port(port: u16, last: u16) -> (r: PortStep)
    ensures
        r == port_after(port, last),
{
    if port < last {
        PortStep::Try(port + 1)
    } else {
        PortStep::NoneFree
    }
}

/// The port that is had in the end, from a step on, in a range that ends at `last`, where
/// `free` says which ports can be had.
pub open spec fn port_had(step: PortStep, last: u16, free: spec_fn(u16) -> bool) -> Option<u16>
    decreases
            (match step {
                PortStep::Try(port) => if port <= last {
                    last - port + 1
                } else {
                    0
                },
                PortStep::NoneFree => 0,
            }),
{
    match step {
        PortStep::NoneFree => None,
        PortStep::Try(port) => if free(port) {
            Some(port)
        } else if port < last {
            port_had(port_after(port, last), last, free)
        } else {
            None
        },
    }
}

/// Law: the search for a port ends at the lowest free port of its range, and with none
/// exactly if none is free there.
pub proof fn law_lowest_free_port_is_had(first: u16, last: u16, free: spec_fn(u16) -> bool)
    requires
        first <= last,
    ensures
        match port_had(PortStep::Try(first), last, free) {
            Some(port) => first <= port <= last && free(port) && forall|lower: u16|
                first <= lower < port ==> !#[trigger] free(lower),
            None => forall|port: u16| first <= port <= last ==> !#[trigger] free(port),
        },
    decreases last - first,
{
    reveal_with_fuel(port_had, 2);
    if !free(first) && first < last {
        law_lowest_free_port_is_had((first + 1) as u16, last, free);
    }
}

/// The base URL of the control service: the configured one, or the one of its usual address.
pub open spec fn control_base_text(configured: Option<Seq<char>>) -> Seq<char> {
    match configured {
        Some(url) => url,
        None => "http://"@ + CONTROL_ADDR@,
    }
}

/// The base URL of the control service.
pub fn control_base(configured: Option<String>) -> (r: String)
    ensures
        r@ == control_base_text(text::opt_text(configured)),
{
    match configured {
        Some(url) => url,
        None => {
            let mut out = "http://".to_owned();
            out.append(CONTROL_ADDR);
            out
        },
    }
}

/// The URL of a path of the control service.
pub fn control_url(base: &str, path: &str) -> (r: String)
    ensures
        r@ == text::trim_end(base@, seq!['/']) + path@,
{
    proof {
        reveal_strlit("/");
        assert("/"@ =~= seq!['/']);
    }
    let mut out = trim_end_matches(base, "/").to_owned();
    out.append(path);
    out
}

/// The octet whose decimal notation a text is.
fn parse_octet(s: &str) -> (r: Option<u8>)
    ensures
        match r {
            Some(v) => s@ == text::decimal(v as nat),
            None => forall|v: u8| s@ != #[trigger] text::decimal(v as nat),
        },
{
    proof {
        assert forall|v: u8| s@ == #[trigger] text::decimal(v as nat) implies
            text::unsigned_value(s@, u16::MAX as nat) == Some(v as nat) by {
            text::lemma_decimal(v as nat);
        }
    }
    match parse_u16(s) {
        Some(n) => {
            if n <= 255 && str_eq(decimal_text(n as u64).as_str(), s) {
                Some(n as u8)
            } else {
                None
            }
        },
        None => None,
    }
}

/// A text up to its last dot, and the octet behind that dot.
fn split_octet<'a>(s: &'a str) -> (r: Option<(&'a str, u8)>)
    ensures
        match r {
            Some((front, v)) => s@ == front@ + seq!['.'] + text::decimal(v as nat),
            None => forall|front: Seq<char>, v: u8|
                s@ != #[trigger] (front + seq!['.'] + text::decimal(v as nat)),
        },
{
    proof {
        assert forall|front: Seq<char>, v: u8|
            s@ == #[trigger] (front + seq!['.'] + text::decimal(v as nat)) implies
            text::last_index(s@, '.') == front.len() && s@.skip(front.len() as int + 1)
            == text::decimal(v as nat) by {
            lemma_no_dot(v as nat);
            text::lemma_last_index_of(front, '.', text::decimal(v as nat));
            assert(s@.skip(front.len() as int + 1) =~= text::decimal(v as nat));
        }
    }
    match find_last(s, '.') {
        Some(dot) => {
            let total: usize = s.unicode_len();
            let front = s.substring_char(0, dot);
            let back = s.substring_char(dot + 1, total);
            proof {
                assert(back@ =~= s@.skip(dot + 1));
                text::lemma_last_index(s@, '.');
            }
            match parse_octet(back) {
                Some(v) => {
                    proof {
                        assert(s@ =~= front@ + seq!['.'] + back@);
                    }
                    Some((front, v))
                },
                None => None,
            }
        },
        None => None,
    }
}

proof fn lemma_no_dot(n: nat)
    ensures
        !text::decimal(n).contains('.'),
{
    text::lemma_decimal(n);
    if text::decimal(n).contains('.') {
        let i = text::decimal(n).index_of('.');
        assert(text::decimal(n)[i] == '.');
    }
}

/// A text ends in a dot and an octet in one way only.
proof fn lemma_split_unique(a: Seq<char>, v: u8, b: Seq<char>, w: u8)
    requires
        a + seq!['.'] + text::decimal(v as nat) == b + seq!['.'] + text::decimal(w as nat),
    ensures
        a == b,
        v == w,
{
    let x = a + seq!['.'] + text::decimal(v as nat);
    let y = b + seq!['.'] + text::decimal(w as nat);
    lemma_no_dot(v as nat);
    lemma_no_dot(w as nat);
    text::lemma_last_index_of(a, '.', text::decimal(v as nat));
    text::lemma_last_index_of(b, '.', text::decimal(w as nat));
    assert(a =~= x.take(a.len() as int));
    assert(b =~= y.take(b.len() as int));
    assert(text::decimal(v as nat) =~= x.skip(a.len() as int + 1));
    assert(text::decimal(w as nat) =~= y.skip(b.len() as int + 1));
    text::lemma_decimal(v as nat);
    text::lemma_decimal(w as nat);
}

/// The dotted notation of the first `n` of some octets.
spec fn dotted_front(octets: Seq<u8>, n: nat) -> Seq<char>
    decreases n,
{
    if n <= 1 {
        text::decimal(octets[0] as nat)
    } else {
        dotted_front(octets, (n - 1) as nat) + seq!['.'] + text::decimal(octets[n - 1] as nat)
    }
}

proof fn lemma_dotted(octets: Seq<u8>)
    requires
        octets.len() == 4,
    ensures
        dotted(octets) == dotted_front(octets, 4),
        dotted_front(octets, 4) == dotted_front(octets, 3) + seq!['.'] + text::decimal(
            octets[3] as nat,
        ),
        dotted_front(octets, 3) == dotted_front(octets, 2) + seq!['.'] + text::decimal(
            octets[2] as nat,
        ),
        dotted_front(octets, 2) == dotted_front(octets, 1) + seq!['.'] + text::decimal(
            octets[1] as nat,
        ),
        dotted_front(octets, 1) == text::decimal(octets[0] as nat),
{
    reveal_with_fuel(dotted_front, 4);
}

/// The octets whose dotted notation a text is.
pub fn parse_ipv4(s: &str) -> (r: Option<[u8; 4]>)
    ensures
        match r {
            Some(octets) => s@ == dotted(octets@),
            None => forall|other: Seq<u8>|
                other.len() == 4 ==> s@ != #[trigger] dotted(other),
        },
{
    proof {
        assert forall|octets: Seq<u8>| octets.len() == 4 && s@ == #[trigger] dotted(octets) implies
            s@ == dotted_front(octets, 4) by {
            lemma_dotted(octets);
        }
    }
    let (front3, d) = match split_octet(s) {
        Some(parts) => parts,
        None => {
            proof {
                assert forall|octets: Seq<u8>| octets.len() == 4 implies s@ != #[trigger] dotted(
                    octets,
                ) by {
                    lemma_dotted(octets);
                }
            }
            return None;
        },
    };
    proof {
        assert forall|octets: Seq<u8>| octets.len() == 4 && s@ == #[trigger] dotted(octets) implies
            front3@ == dotted_front(octets, 3) && octets[3] == d by {
            lemma_dotted(octets);
            lemma_split_unique(front3@, d, dotted_front(octets, 3), octets[3]);
        }
    }
    let (front2, c) = match split_octet(front3) {
        Some(parts) => parts,
        None => {
            proof {
                assert forall|octets: Seq<u8>| octets.len() == 4 implies s@ != #[trigger] dotted(
                    octets,
                ) by {
                    lemma_dotted(octets);
                }
            }
            return None;
        },
    };
    proof {
        assert forall|octets: Seq<u8>| octets.len() == 4 && s@ == #[trigger] dotted(octets) implies
            front2@ == dotted_front(octets, 2) && octets[2] == c by {
            lemma_dotted(octets);
            lemma_split_unique(front2@, c, dotted_front(octets, 2), octets[2]);
        }
    }
    let (front1, b) = match split_octet(front2) {
        Some(parts) => parts,
        None => {
            proof {
                assert forall|octets: Seq<u8>| octets.len() == 4 implies s@ != #[trigger] dotted(
                    octets,
                ) by {
                    lemma_dotted(octets);
                }
            }
            return None;
        },
    };
    proof {
        assert forall|octets: Seq<u8>| octets.len() == 4 && s@ == #[trigger] dotted(octets) implies
            front1@ == text::decimal(octets[0] as nat) by {
            lemma_dotted(octets);
            lemma_split_unique(front1@, b, dotted_front(octets, 1), octets[1]);
        }
    }
    match parse_octet(front1) {
        Some(a) => {
            let octets: [u8; 4] = [a, b, c, d];
            proof {
                lemma_dotted(octets@);
            }
            Some(octets)
        },
        None => None,
    }
}

/// What the control URL says of its host, and how it is written.
#[derive(Debug, PartialEq)]
pub struct UrlParts {
    pub host: Option<String>,
    pub text: String,
}

/// What the URL parser makes of a text: the host, where the URL has one, and the URL as it
/// is written; or the text of the error with which it refuses.
pub uninterp spec fn parsed_url(s: Seq<char>) -> Result<(Option<Seq<char>>, Seq<char>), Seq<char>>;

/// A parsed URL by the views of its parts.
pub open spec fn url_view(r: Result<UrlParts, String>) -> Result<
    (Option<Seq<char>>, Seq<char>),
    Seq<char>,
> {
    match r {
        Ok(parts) => Ok((text::opt_text(parts.host), parts.text@)),
        Err(e) => Err(e@),
    }
}

/// `reqwest::Url::parse`, with the parsed URL taken as its `host_str` and its text. Which
/// texts are URLs, and what their hosts are, is left under a name.
#[verifier::external_body]
fn parse_url(s: &str) -> (r: Result<UrlParts, String>)
    ensures
        url_view(r) == parsed_url(s@),
{
    match reqwest::Url::parse(s) {
        Ok(url) => Ok(
            UrlParts { host: url.host_str().map(|h| h.to_string()), text: url.to_string() },
        ),
        Err(e) => Err(e.to_string()),
    }
}

/// Whether the host of a URL is this machine: `localhost`, or an IPv4 loopback address. A
/// URL writes an IPv6 host in brackets, which is no address in text form.
pub open spec fn loopback_host(host: Seq<char>) -> bool {
    ||| host == "localhost"@
    ||| exists|octets: Seq<u8>|
        octets.len() == 4 && octets[0] == 127 && host == #[trigger] dotted(octets)
}

/// What is said of a control URL before the service behind it is stopped: nothing, or why
/// it is not stopped.
pub open spec fn stop_refusal(host: Option<Seq<char>>, url: Seq<char>) -> Option<Seq<char>> {
    match host {
        None => Some("control URL has no host"@),
        Some(h) => if loopback_host(h) {
            None
        } else {
            Some("refusing to stop non-loopback control URL: "@ + url)
        },
    }
}

/// Refuses a control URL whose host is not this machine.
pub fn check_loopback(parts: &UrlParts) -> (r: Result<(), Box<MeshError>>)
    ensures
        errors::error_text(r) == stop_refusal(text::opt_text(parts.host), parts.text@),
{
    match &parts.host {
        None => Err(boxed_error("control URL has no host".to_owned())),
        Some(host) => {
            if str_eq(host.as_str(), "localhost") {
                return Ok(());
            }
            match parse_ipv4(host.as_str()) {
                Some(octets) => {
                    if octets[0] == 127 {
                        return Ok(());
                    }
                    proof {
                        assert forall|other: Seq<u8>|
                            other.len() == 4 && host@ == #[trigger] dotted(other) implies other[0]
                            == octets@[0] by {
                            law_dotted_notation_is_unique(octets@, other);
                        }
                    }
                },
                None => {},
            }
            let mut message = "refusing to stop non-loopback control URL: ".to_owned();
            message.append(parts.text.as_str());
            Err(boxed_error(message))
        },
    }
}

/// Law: two addresses with the same dotted notation have the same octets.
pub proof fn law_dotted_notation_is_unique(a: Seq<u8>, b: Seq<u8>)
    requires
        a.len() == 4,
        b.len() == 4,
        dotted(a) == dotted(b),
    ensures
        a == b,
{
    lemma_dotted(a);
    lemma_dotted(b);
    lemma_split_unique(dotted_front(a, 3), a[3], dotted_front(b, 3), b[3]);
    lemma_split_unique(dotted_front(a, 2), a[2], dotted_front(b, 2), b[2]);
    lemma_split_unique(dotted_front(a, 1), a[1], dotted_front(b, 1), b[1]);
    text::lemma_decimal(a[0] as nat);
    text::lemma_decimal(b[0] as nat);
    assert(a =~= b);
}

/// Refuses to stop a service whose control URL is no URL or does not name this machine.
pub fn ensure_loopback_control_url(base: &str) -> (r: Result<(), Box<MeshError>>)
    ensures
        errors::error_text(r) == match parsed_url(base@) {
            Ok((host, url)) => stop_refusal(host, url),
            Err(e) => Some(e),
        },
{
    match parse_url(base) {
        Ok(parts) => check_loopback(&parts),
        Err(e) => Err(boxed_error(e)),
    }
}

} // verus!
