//! The mesh client: what the monitor asks of the Thread border router, and
//! the reading of the border router's command-line replies.

use crate::addr::{parse_text, Ipv6Addr};
use crate::text::{
    colon_space, done_marker, find_byte, find_pair, hex_group, index_of, pair_index_of,
    parse_hex_group, strip_colon_space, strip_done, strip_prefix_all, strip_suffix_all, trim,
    trim_bytes,
};
use crate::Rloc;
use vstd::prelude::*;
use vstd::slice::slice_subrange;
use vstd::string::StringExecFns;
use vstd::utf8::{encode_utf8, valid_utf8};

verus! {

/// Why a query of the border router failed.
#[derive(Debug)]
pub enum OtClientError {
    /// The command could not be run, or ended in failure; the text says how.
    Io(String),
    /// The reply is not UTF-8.
    StrParse,
    /// The reply holds no network prefix.
    AddrParse,
    /// Any other failure, with its description.
    OtClientErr(String),
}

/// An IPv6 network: an address and the length of its routing prefix.
#[derive(Clone, Copy, Debug, PartialEq, Eq, Structural)]
pub struct Ipv6Net {
    addr: Ipv6Addr,
    prefix_len: u8,
}

impl Ipv6Net {
    /// The network's address.
    pub closed spec fn spec_addr(&self) -> Ipv6Addr {
        self.addr
    }

    /// The length of the network's prefix in bits.
    pub closed spec fn spec_prefix_len(&self) -> u8 {
        self.prefix_len
    }

    /// The network of `addr` with a prefix of `prefix_len` bits; `None` when
    /// the length exceeds 128.
    pub fn new(addr: Ipv6Addr, prefix_len: u8) -> (res: Option<Ipv6Net>)
        ensures
            res is Some <==> prefix_len <= 128,
            res matches Some(net) ==> net.spec_addr() == addr && net.spec_prefix_len()
                == prefix_len,
    {
        if prefix_len > 128 {
            None
        } else {
            Some(Ipv6Net { addr, prefix_len })
        }
    }

    /// The network's address.
    pub fn addr(&self) -> (a: Ipv6Addr)
        ensures
            a == self.spec_addr(),
    {
        self.addr
    }

    /// The length of the network's prefix in bits.
    pub fn prefix_len(&self) -> (n: u8)
        ensures
            n == self.spec_prefix_len(),
    {
        self.prefix_len
    }

    /// The network that a decoded prefix text stands for, or the parse
    /// error when the text held none.
    pub fn from_parsed(parsed: Option<(u128, u8)>) -> (res: Result<Ipv6Net, OtClientError>)
        ensures
            res is Ok <==> (parsed matches Some(p) && p.1 <= 128),
            res matches Ok(net) ==> net.spec_addr().bits == parsed.unwrap().0
                && net.spec_prefix_len() == parsed.unwrap().1,
            res matches Err(e) ==> e is AddrParse,
    {
        match parsed {
            Some((bits, len)) => match Ipv6Net::new(Ipv6Addr::from_bits(bits), len) {
                Some(net) => Ok(net),
                None => Err(OtClientError::AddrParse),
            },
            None => Err(OtClientError::AddrParse),
        }
    }
}

/// What the `ipnet` crate reads out of a network text such as
/// `fd00:1::/64`: the address as a 128-bit number and the prefix length, or
/// `None` when the bytes are no such text.
pub uninterp spec fn ipv6_net_text(text: Seq<u8>) -> Option<(u128, u8)>;

/// Calls `ipnet::Ipv6Net::from_str` on the bytes taken as UTF-8 and hands
/// back the address and prefix length of the network it parsed. The result
/// is the one that `ipv6_net_text` names; the prefix length of a parsed
/// network never exceeds 128.
#[verifier::external_body]
fn ipv6_net_from_text(text: &[u8]) -> (res: Option<(u128, u8)>)
    ensures
        res == ipv6_net_text(text@),
        res matches Some(p) ==> p.1 <= 128,
{
    let net = core::str::from_utf8(text).ok()?.parse::<ipnet::Ipv6Net>().ok()?;
    Some((u128::from(net.addr()), net.prefix_len()))
}

/// Calls `String::from_utf8`: the string whose UTF-8 encoding the bytes are,
/// or `None` when they are not valid UTF-8.
#[verifier::external_body]
pub(crate) fn string_from_utf8(bytes: Vec<u8>) -> (res: Option<String>)
    ensures
        res is Some <==> valid_utf8(bytes@),
        res matches Some(s) ==> encode_utf8(s@) == bytes@,
{
    String::from_utf8(bytes).ok()
}

/// The queries that the mesh monitor makes of a Thread border router. No
/// state is kept between calls; the caller compares successive results.
pub trait OtClient {
    /// The children of the mesh, each with its routing locator and address.
    fn get_child_ips(&self) -> Result<Vec<(Rloc, Ipv6Addr)>, OtClientError>;

    /// The off-mesh-routable prefix that the border router advertises.
    fn get_omr_prefix(&self) -> Result<Ipv6Net, OtClientError>;

    /// The gateway's own address under that prefix.
    fn get_omr_ip(&self) -> Result<Ipv6Addr, OtClientError>;

    /// Every address assigned to the gateway's mesh interface.
    fn get_ip_addrs(&self) -> Result<Vec<Ipv6Addr>, OtClientError>;
}

/// What one run of the border router's command-line tool gave back.
#[derive(Debug)]
pub struct CliReply {
    /// Whether the command exited successfully.
    pub success: bool,
    /// The exit status in words, for error reports.
    pub status: String,
    /// What the command wrote to its standard output.
    pub stdout: Vec<u8>,
}

/// The entry that a parsed line adds to a list: itself, or nothing.
pub open spec fn entry_seq<T>(e: Option<T>) -> Seq<T> {
    match e {
        Some(x) => seq![x],
        None => Seq::empty(),
    }
}

/// The entries that `parse` finds in the lines of `s`, in order. Lines are
/// parted by line feeds.
pub open spec fn collect_lines<T>(s: Seq<u8>, parse: spec_fn(Seq<u8>) -> Option<T>) -> Seq<T>
    decreases s.len(),
{
    let i = index_of(s, 0x0a);
    if 0 <= i < s.len() {
        entry_seq(parse(s.subrange(0, i))) + collect_lines(s.subrange(i + 1, s.len() as int), parse)
    } else {
        entry_seq(parse(s))
    }
}

/// One line of the child list: a routing locator of one to four
/// hexadecimal digits, `": "`, and an address. A line without the
/// separator, with another locator or without a valid address gives no
/// entry.
pub open spec fn child_line(l: Seq<u8>) -> Option<(Rloc, Ipv6Addr)> {
    let i = pair_index_of(l, 0x3a, 0x20);
    if 0 <= i < l.len() {
        let rest = trim(strip_prefix_all(l.subrange(i, l.len() as int), colon_space()));
        match (hex_group(l.subrange(0, i)), parse_text(rest)) {
            (Some(rloc), Some(ip)) => Some((rloc, ip)),
            _ => None,
        }
    } else {
        None
    }
}

/// One line of the address list: an address between optional white space.
pub open spec fn addr_line(l: Seq<u8>) -> Option<Ipv6Addr> {
    parse_text(trim(l))
}

/// The children that a child-list reply names.
pub open spec fn child_entries(output: Seq<u8>) -> Seq<(Rloc, Ipv6Addr)> {
    collect_lines(strip_suffix_all(output, done_marker()), |l: Seq<u8>| child_line(l))
}

/// The addresses that an address-list reply names.
pub open spec fn addr_entries(output: Seq<u8>) -> Seq<Ipv6Addr> {
    collect_lines(strip_suffix_all(output, done_marker()), |l: Seq<u8>| addr_line(l))
}

/// The first word of a prefix reply: what stands before the first space,
/// once the end marker is taken off.
pub open spec fn prefix_word(output: Seq<u8>) -> Seq<u8> {
    let s = strip_suffix_all(output, done_marker());
    let i = index_of(s, 0x20);
    if 0 <= i <= s.len() {
        s.subrange(0, i)
    } else {
        s
    }
}

/// Position of the first address of `ips` under the prefix of `prefix`, or
/// `ips.len()` when none is.
pub open spec fn is_first_match(ips: Seq<Ipv6Addr>, prefix: Ipv6Addr, i: int) -> bool {
    &&& 0 <= i <= ips.len()
    &&& i < ips.len() ==> ips[i].spec_same_prefix(&prefix)
    &&& forall|k: int| 0 <= k < i ==> !(#[trigger] ips[k]).spec_same_prefix(&prefix)
}

/// Reader of the replies of `ot-ctl`, the border router's command-line
/// tool.
pub struct OtCliClient;

impl OtCliClient {
    /// Reads one line of a child list.
    pub fn parse_child_line(line: &[u8]) -> (res: Option<(Rloc, Ipv6Addr)>)
        ensures
            res == child_line(line@),
    {
        let n = line.len();
        let i = find_pair(line, 0x3a, 0x20);
        if i >= n {
            return None;
        }
        let rloc: u16 = match parse_hex_group(slice_subrange(line, 0, i)) {
            Some(r) => r,
            None => {
                return None;
            },
        };
        let rest = trim_bytes(strip_colon_space(slice_subrange(line, i, n)));
        match Ipv6Addr::parse(rest) {
            Some(ip) => Some((rloc, ip)),
            None => None,
        }
    }

    /// Reads the reply to the child-list command: one child per line, as
    /// `<hex-rloc>: <ipv6>`, with a trailing `Done`.
    pub fn parse_childip_output(res: String) -> (out: Vec<(Rloc, Ipv6Addr)>)
        ensures
            out@ == child_entries(encode_utf8(res@)),
    {
        let text = res.as_str();
        let raw = text.as_bytes();
        assert(raw@ == encode_utf8(res@));
        let s = strip_done(raw);
        let n = s.len();
        let ghost parse = |l: Seq<u8>| child_line(l);
        let mut out: Vec<(Rloc, Ipv6Addr)> = Vec::new();
        let mut pos: usize = 0;
        assert(s@.subrange(0, n as int) =~= s@);
        loop
            invariant
                n == s@.len(),
                pos <= n,
                s@ == strip_suffix_all(encode_utf8(res@), done_marker()),
                parse == (|l: Seq<u8>| child_line(l)),
                collect_lines(s@, parse) == out@ + collect_lines(
                    s@.subrange(pos as int, n as int),
                    parse,
                ),
            decreases n - pos,
        {
            let cur = slice_subrange(s, pos, n);
            let i = find_byte(cur, 0x0a);
            let ghost before = out@;
            match Self::parse_child_line(slice_subrange(cur, 0, i)) {
                Some(entry) => {
                    out.push(entry);
                },
                None => {},
            }
            proof {
                assert(out@ =~= before + entry_seq(parse(cur@.subrange(0, i as int))));
            }
            if i == cur.len() {
                proof {
                    assert(cur@.subrange(0, i as int) =~= cur@);
                }
                return out;
            }
            proof {
                let next = cur@.subrange(i + 1, cur@.len() as int);
                assert(next =~= s@.subrange(pos + i + 1, n as int));
                assert(before + (entry_seq(parse(cur@.subrange(0, i as int))) + collect_lines(
                    next,
                    parse,
                )) =~= out@ + collect_lines(next, parse));
            }
            pos = pos + i + 1;
        }
    }

    /// Reads the reply to the address-list command: one address per line,
    /// with a trailing `Done`. Lines that hold no address are passed over.
    pub fn parse_ipaddr_output(res: String) -> (out: Vec<Ipv6Addr>)
        ensures
            out@ == addr_entries(encode_utf8(res@)),
    {
        let text = res.as_str();
        let raw = text.as_bytes();
        assert(raw@ == encode_utf8(res@));
        let s = strip_done(raw);
        let n = s.len();
        let ghost parse = |l: Seq<u8>| addr_line(l);
        let mut out: Vec<Ipv6Addr> = Vec::new();
        let mut pos: usize = 0;
        assert(s@.subrange(0, n as int) =~= s@);
        loop
            invariant
                n == s@.len(),
                pos <= n,
                s@ == strip_suffix_all(encode_utf8(res@), done_marker()),
                parse == (|l: Seq<u8>| addr_line(l)),
                collect_lines(s@, parse) == out@ + collect_lines(
                    s@.subrange(pos as int, n as int),
                    parse,
                ),
            decreases n - pos,
        {
            let cur = slice_subrange(s, pos, n);
            let i = find_byte(cur, 0x0a);
            let ghost before = out@;
            match Ipv6Addr::parse(trim_bytes(slice_subrange(cur, 0, i))) {
                Some(entry) => {
                    out.push(entry);
                },
                None => {},
            }
            proof {
                assert(out@ =~= before + entry_seq(parse(cur@.subrange(0, i as int))));
            }
            if i == cur.len() {
                proof {
                    assert(cur@.subrange(0, i as int) =~= cur@);
                }
                return out;
            }
            proof {
                let next = cur@.subrange(i + 1, cur@.len() as int);
                assert(next =~= s@.subrange(pos + i + 1, n as int));
                assert(before + (entry_seq(parse(cur@.subrange(0, i as int))) + collect_lines(
                    next,
                    parse,
                )) =~= out@ + collect_lines(next, parse));
            }
            pos = pos + i + 1;
        }
    }

    /// Reads the reply to the prefix command: the network written by the
    /// first word of the reply.
    pub fn parse_prefix_output(res: String) -> (out: Result<Ipv6Net, OtClientError>)
        ensures
            out is Ok <==> ipv6_net_text(prefix_word(encode_utf8(res@))) is Some,
            out matches Ok(net) ==> {
                let parsed = ipv6_net_text(prefix_word(encode_utf8(res@))).unwrap();
                net.spec_addr().bits == parsed.0 && net.spec_prefix_len() == parsed.1
            },
            out matches Err(e) ==> e is AddrParse,
    {
        let text = res.as_str();
        let raw = text.as_bytes();
        assert(raw@ == encode_utf8(res@));
        let s = strip_done(raw);
        let i = find_byte(s, 0x20);
        let word = slice_subrange(s, 0, i);
        Ipv6Net::from_parsed(ipv6_net_from_text(word))
    }

    /// The first of `ips` that lies under the prefix of `prefix`: the
    /// gateway's own on-mesh address.
    pub fn select_omr_ip(prefix: &Ipv6Net, ips: &Vec<Ipv6Addr>) -> (res: Result<
        Ipv6Addr,
        OtClientError,
    >)
        ensures
            res is Ok <==> exists|k: int|
                0 <= k < ips@.len() && (#[trigger] ips@[k]).spec_same_prefix(&prefix.spec_addr()),
            res matches Ok(ip) ==> exists|i: int|
                0 <= i < ips@.len() && is_first_match(ips@, prefix.spec_addr(), i) && ips@[i]
                    == ip,
            res matches Err(e) ==> e matches OtClientError::OtClientErr(m) && m@
                == "No matching prefix found"@,
    {
        let target = prefix.addr();
        let mut i: usize = 0;
        while i < ips.len()
            invariant
                i <= ips@.len(),
                target == prefix.spec_addr(),
                forall|k: int| 0 <= k < i ==> !(#[trigger] ips@[k]).spec_same_prefix(&target),
            decreases ips@.len() - i,
        {
            if ips[i].same_prefix(&target) {
                assert(is_first_match(ips@, target, i as int));
                return Ok(ips[i]);
            }
            i = i + 1;
        }
        Err(OtClientError::OtClientErr("No matching prefix found".to_owned()))
    }

    /// The children named by the reply to the child-list command.
    pub fn children_from_reply(reply: CliReply) -> (res: Result<
        Vec<(Rloc, Ipv6Addr)>,
        OtClientError,
    >)
        ensures
            res is Ok <==> reply.success && valid_utf8(reply.stdout@),
            res matches Ok(children) ==> children@ == child_entries(reply.stdout@),
            res matches Err(e) ==> if reply.success {
                e is StrParse
            } else {
                e matches OtClientError::Io(m) && m@ == failure_text(reply.status@)
            },
    {
        if reply.success {
            match string_from_utf8(reply.stdout) {
                Some(text) => Ok(Self::parse_childip_output(text)),
                None => Err(OtClientError::StrParse),
            }
        } else {
            Err(OtClientError::Io(failure_message(&reply.status)))
        }
    }

    /// The prefix named by the reply to the prefix command.
    pub fn omr_prefix_from_reply(reply: CliReply) -> (res: Result<Ipv6Net, OtClientError>)
        ensures
            res is Ok <==> reply.success && valid_utf8(reply.stdout@) && ipv6_net_text(
                prefix_word(reply.stdout@),
            ) is Some,
            res matches Ok(net) ==> {
                let parsed = ipv6_net_text(prefix_word(reply.stdout@)).unwrap();
                net.spec_addr().bits == parsed.0 && net.spec_prefix_len() == parsed.1
            },
            res matches Err(e) ==> if !reply.success {
                e matches OtClientError::OtClientErr(m) && m@ == failure_text(reply.status@)
            } else if !valid_utf8(reply.stdout@) {
                e is StrParse
            } else {
                e is AddrParse
            },
    {
        if reply.success {
            match string_from_utf8(reply.stdout) {
                Some(text) => Self::parse_prefix_output(text),
                None => Err(OtClientError::StrParse),
            }
        } else {
            Err(OtClientError::OtClientErr(failure_message(&reply.status)))
        }
    }

    /// The addresses named by the reply to the address-list command.
    pub fn ip_addrs_from_reply(reply: CliReply) -> (res: Result<Vec<Ipv6Addr>, OtClientError>)
        ensures
            res is Ok <==> reply.success && valid_utf8(reply.stdout@),
            res matches Ok(ips) ==> ips@ == addr_entries(reply.stdout@),
            res matches Err(e) ==> if reply.success {
                e is StrParse
            } else {
                e matches OtClientError::OtClientErr(m) && m@ == failure_text(reply.status@)
            },
    {
        if reply.success {
            match string_from_utf8(reply.stdout) {
                Some(text) => Ok(Self::parse_ipaddr_output(text)),
                None => Err(OtClientError::StrParse),
            }
        } else {
            Err(OtClientError::OtClientErr(failure_message(&reply.status)))
        }
    }
}

/// The report of a command that exited with `status`.
pub open spec fn failure_text(status: Seq<char>) -> Seq<char> {
    "Failed CLI Command: exit status "@ + status
}

/// The report of a command that exited with `status`.
pub fn failure_message(status: &String) -> (m: String)
    ensures
        m@ == failure_text(status@),
{
    String::from_str("Failed CLI Command: exit status ").concat(status.as_str())
}

} // verus!
