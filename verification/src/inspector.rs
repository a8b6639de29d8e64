//! What the connection inspector reads from text: socket addresses and the
//! round-trip field of a socket listing. Running the listing is left to the
//! caller.

use crate::numerals::{parse_u16, parsed_u16};
use crate::strings::{chars_of, string_of, strings_view};
use crate::text::{
    cut_last, find_text, found_at, pieces, rsplit_once, split, split_words, texts, trim, trimmed,
    words,
};
use vstd::prelude::*;
use vstd::slice::slice_subrange;

verus! {

/// The remote end of a connection.
#[derive(Debug, Clone)]
pub struct ConnectionTarget {
    pub ip: String,
    pub port: u16,
    pub protocol: String,
}

/// An inspector of one given connection.
#[derive(Debug)]
pub struct RealInspector {
    pub target: ConnectionTarget,
    pub sni_map_path: Option<String>,
    pub ss_path: String,
}

/// An inspector that picks a connection from the system's socket listing.
#[derive(Debug)]
pub struct SystemInspector {
    pub protocol: String,
    pub prefer_port: Option<u16>,
    pub sni_map_path: Option<String>,
    pub ss_path: String,
}

impl RealInspector {
    /// An inspector of `target` that runs `ss` and reads server names from
    /// the map at `sni_map_path`, if one is given.
    pub fn new(target: ConnectionTarget, sni_map_path: Option<String>) -> (inspector: Self)
        ensures
            inspector.target == target,
            inspector.sni_map_path == sni_map_path,
            inspector.ss_path@ == "ss"@,
    {
        RealInspector { target, sni_map_path, ss_path: "ss".to_owned() }
    }

    /// The same inspector with `path` as the place of its server-name map.
    pub fn with_sni_map(self, path: String) -> (inspector: Self)
        ensures
            inspector.sni_map_path == Some(path),
            inspector.target == self.target,
            inspector.ss_path == self.ss_path,
    {
        RealInspector { target: self.target, sni_map_path: Some(path), ss_path: self.ss_path }
    }

    /// The same inspector with `path` as the listing program.
    pub fn with_ss_path(self, path: String) -> (inspector: Self)
        ensures
            inspector.ss_path == path,
            inspector.target == self.target,
            inspector.sni_map_path == self.sni_map_path,
    {
        RealInspector { target: self.target, sni_map_path: self.sni_map_path, ss_path: path }
    }
}

impl SystemInspector {
    /// An inspector for `protocol` that prefers no port, runs `ss` and reads
    /// server names from the map at `sni_map_path`, if one is given.
    pub fn new(protocol: &str, sni_map_path: Option<String>) -> (inspector: Self)
        ensures
            inspector.protocol@ == protocol@,
            inspector.prefer_port is None,
            inspector.sni_map_path == sni_map_path,
            inspector.ss_path@ == "ss"@,
    {
        SystemInspector {
            protocol: protocol.to_owned(),
            prefer_port: None,
            sni_map_path,
            ss_path: "ss".to_owned(),
        }
    }

    /// The same inspector with a preference for connections on `port`.
    pub fn with_port(self, port: u16) -> (inspector: Self)
        ensures
            inspector.prefer_port == Some(port),
            inspector.protocol == self.protocol,
            inspector.sni_map_path == self.sni_map_path,
            inspector.ss_path == self.ss_path,
    {
        SystemInspector {
            protocol: self.protocol,
            prefer_port: Some(port),
            sni_map_path: self.sni_map_path,
            ss_path: self.ss_path,
        }
    }

    /// The same inspector with `path` as the place of its server-name map.
    pub fn with_sni_map(self, path: String) -> (inspector: Self)
        ensures
            inspector.sni_map_path == Some(path),
            inspector.protocol == self.protocol,
            inspector.prefer_port == self.prefer_port,
            inspector.ss_path == self.ss_path,
    {
        SystemInspector {
            protocol: self.protocol,
            prefer_port: self.prefer_port,
            sni_map_path: Some(path),
            ss_path: self.ss_path,
        }
    }

    /// The same inspector with `path` as the listing program.
    pub fn with_ss_path(self, path: String) -> (inspector: Self)
        ensures
            inspector.ss_path == path,
            inspector.protocol == self.protocol,
            inspector.prefer_port == self.prefer_port,
            inspector.sni_map_path == self.sni_map_path,
    {
        SystemInspector {
            protocol: self.protocol,
            prefer_port: self.prefer_port,
            sni_map_path: self.sni_map_path,
            ss_path: path,
        }
    }
}

/// A socket address without the white space around it and without one
/// square bracket at its start and one at its end.
pub open spec fn unbracketed(value: Seq<char>) -> Seq<char> {
    let t = trimmed(value);
    let a = if t.len() > 0 && t[0] == '[' {
        t.drop_first()
    } else {
        t
    };
    if a.len() > 0 && a.last() == ']' {
        a.drop_last()
    } else {
        a
    }
}

/// The host and the port of a socket address `host:port`: the text before
/// the last colon, and the port that the text after it writes.
pub open spec fn address_parts(value: Seq<char>) -> Option<(Seq<char>, u16)> {
    match cut_last(unbracketed(value), ':') {
        Some((host, port)) => match parsed_u16(port) {
            Some(p) => Some((host, p)),
            None => None,
        },
        None => None,
    }
}

/// Splits a socket address into host and port.
pub fn split_addr(value: &str) -> (r: Option<(String, u16)>)
    ensures
        match r {
            Some((host, port)) => address_parts(value@) == Some((host@, port)),
            None => address_parts(value@) is None,
        },
{
    let chars = chars_of(value);
    let t = trim(chars.as_slice());
    let a = if t.len() > 0 && t[0] == '[' {
        let rest = slice_subrange(t, 1, t.len());
        proof {
            assert(rest@ =~= t@.drop_first());
        }
        rest
    } else {
        t
    };
    let b = if a.len() > 0 && a[a.len() - 1] == ']' {
        let rest = slice_subrange(a, 0, a.len() - 1);
        proof {
            assert(rest@ =~= a@.drop_last());
        }
        rest
    } else {
        a
    };
    match rsplit_once(b, ':') {
        Some((host, port)) => match parse_u16(port) {
            Some(p) => Some((string_of(host), p)),
            None => None,
        },
        None => None,
    }
}

/// The round-trip field of one line of a socket listing: the trimmed text
/// between the first `rtt:` and the next `/`.
pub open spec fn rtt_field(line: Seq<char>) -> Option<Seq<char>> {
    match found_at(line, "rtt:"@) {
        Some(k) => {
            let rest = line.skip(k + "rtt:"@.len());
            Some(trimmed(pieces(rest, '/')[0]))
        },
        None => None,
    }
}

/// Of the first `k` lines, the round-trip fields of those that have one.
pub open spec fn rtt_fields(lines: Seq<Seq<char>>, k: int) -> Seq<Seq<char>>
    decreases k,
{
    if k <= 0 {
        seq![]
    } else {
        match rtt_field(lines[k - 1]) {
            Some(field) => rtt_fields(lines, k - 1).push(field),
            None => rtt_fields(lines, k - 1),
        }
    }
}

/// The round-trip fields of a socket listing, line by line, in order. The
/// caller reads the first field that writes a number as the round-trip time
/// in milliseconds.
pub fn rtt_candidates(text: &str) -> (fields: Vec<String>)
    ensures
        strings_view(fields@) == rtt_fields(
            pieces(text@, '\n'),
            pieces(text@, '\n').len() as int,
        ),
{
    let chars = chars_of(text);
    let lines = split(chars.as_slice(), '\n');
    let ghost ls = pieces(text@, '\n');
    let word = chars_of("rtt:");
    let mut fields: Vec<String> = Vec::new();
    let mut i: usize = 0;
    while i < lines.len()
        invariant
            i <= lines.len(),
            texts(lines@) == ls,
            word@ == "rtt:"@,
            strings_view(fields@) == rtt_fields(ls, i as int),
        decreases lines.len() - i,
    {
        proof {
            assert(texts(lines@)[i as int] == lines@[i as int]@);
        }
        let line = lines[i];
        if let Some(k) = find_text(line, word.as_slice()) {
            let rest = slice_subrange(line, k + word.len(), line.len());
            proof {
                assert(rest@ =~= line@.skip(k + "rtt:"@.len()));
            }
            let parts = split(rest, '/');
            proof {
                assert(texts(parts@)[0] == parts@[0]@);
            }
            let ghost before = fields@;
            let field = string_of(trim(parts[0]));
            fields.push(field);
            proof {
                assert(strings_view(fields@) =~= strings_view(before).push(field@));
            }
        }
        i += 1;
    }
    fields
}

/// What one line of a socket listing gives.
pub enum LineOutcome {
    /// The line names no connection of interest.
    Skip,
    /// The line cannot be read, which ends the search.
    Unreadable,
    /// The line names a connection to this host and port.
    Peer(Seq<char>, u16),
}

/// What one line of a socket listing gives. A line with fewer than five
/// words is passed over. The fourth word is the local address and the fifth
/// the peer's; a line on which either cannot be read ends the search. With
/// a preferred port, a line on which neither port is the preferred one is
/// passed over.
pub open spec fn line_outcome(line: Seq<char>, prefer: Option<u16>) -> LineOutcome {
    let ws = words(trimmed(line));
    if ws.len() < 5 {
        LineOutcome::Skip
    } else {
        match address_parts(ws[4]) {
            None => LineOutcome::Unreadable,
            Some((ip, port)) => match address_parts(ws[3]) {
                None => LineOutcome::Unreadable,
                Some((_, local)) => if prefer is Some && port != prefer->0 && local != prefer->0 {
                    LineOutcome::Skip
                } else {
                    LineOutcome::Peer(ip, port)
                },
            },
        }
    }
}

/// The first line of a listing that is not passed over: its index, host and
/// port, or none where that line cannot be read or there is no such line.
pub open spec fn first_peer(lines: Seq<Seq<char>>, prefer: Option<u16>) -> Option<Picked>
    decreases lines.len(),
{
    if lines.len() == 0 {
        None
    } else {
        match line_outcome(lines[0], prefer) {
            LineOutcome::Peer(ip, port) => Some(Picked { index: 0, ip, port }),
            LineOutcome::Unreadable => None,
            LineOutcome::Skip => match first_peer(lines.drop_first(), prefer) {
                Some(p) => Some(Picked { index: p.index + 1, ip: p.ip, port: p.port }),
                None => None,
            },
        }
    }
}

/// A line of a listing that names a connection: its index, and the host and
/// port of the peer.
pub struct Picked {
    pub index: int,
    pub ip: Seq<char>,
    pub port: u16,
}

/// Reads one line of a socket listing.
fn read_line(line: &[char], prefer: Option<u16>) -> (r: (u8, Option<(String, u16)>))
    ensures
        match line_outcome(line@, prefer) {
            LineOutcome::Skip => r.0 == 0 && r.1 is None,
            LineOutcome::Unreadable => r.0 == 1 && r.1 is None,
            LineOutcome::Peer(ip, port) => r.0 == 2 && match r.1 {
                Some(pair) => pair.0@ == ip && pair.1 == port,
                None => false,
            },
        },
{
    let ws = split_words(trim(line));
    if ws.len() < 5 {
        return (0, None);
    }
    proof {
        assert(texts(ws@)[4] == ws@[4]@);
        assert(texts(ws@)[3] == ws@[3]@);
    }
    let peer = string_of(ws[4]);
    let local = string_of(ws[3]);
    let (ip, port) = match split_addr(peer.as_str()) {
        Some(pair) => pair,
        None => {
            return (1, None);
        },
    };
    let local_port = match split_addr(local.as_str()) {
        Some(pair) => pair.1,
        None => {
            return (1, None);
        },
    };
    if let Some(wanted) = prefer {
        if port != wanted && local_port != wanted {
            return (0, None);
        }
    }
    (2, Some((ip, port)))
}

/// Picks the connection to inspect from a socket listing: the first line
/// that is not passed over gives the target, with `protocol` as its
/// protocol, and is handed back, trimmed, for its round-trip field.
#[verifier::loop_isolation(false)]
pub fn pick_connection(text: &str, protocol: &str, prefer_port: Option<u16>) -> (r: Option<
    (ConnectionTarget, String),
>)
    ensures
        match r {
            Some((target, line)) => match first_peer(pieces(text@, '\n'), prefer_port) {
                Some(p) => {
                    &&& target.ip@ == p.ip
                    &&& target.port == p.port
                    &&& target.protocol@ == protocol@
                    &&& line@ == trimmed(pieces(text@, '\n')[p.index])
                },
                None => false,
            },
            None => first_peer(pieces(text@, '\n'), prefer_port) is None,
        },
{
    let chars = chars_of(text);
    let lines = split(chars.as_slice(), '\n');
    let ghost ls = pieces(text@, '\n');
    let mut i: usize = 0;
    proof {
        assert(ls.skip(0) =~= ls);
    }
    while i < lines.len()
        invariant
            i <= lines.len(),
            texts(lines@) == ls,
            first_peer(ls, prefer_port) == match first_peer(ls.skip(i as int), prefer_port) {
                Some(p) => Some(Picked { index: p.index + i, ip: p.ip, port: p.port }),
                None => None,
            },
        decreases lines.len() - i,
    {
        proof {
            assert(texts(lines@)[i as int] == lines@[i as int]@);
            assert(ls.skip(i as int)[0] == ls[i as int]);
            assert(ls.skip(i as int).drop_first() =~= ls.skip(i + 1));
        }
        let (kind, peer) = read_line(lines[i], prefer_port);
        if kind == 1 {
            return None;
        }
        if let Some((ip, port)) = peer {
            let target = ConnectionTarget { ip, port, protocol: protocol.to_owned() };
            return Some((target, string_of(trim(lines[i]))));
        }
        i += 1;
    }
    None
}

} // verus!
