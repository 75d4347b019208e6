//! Password lookup in a pass file.
//!
//! A pass file holds lines of the form `host:port:dbname:user:password`;
//! `*` matches any value of a field and `#` starts a comment line. The
//! first line whose four key fields match the descriptor supplies the
//! password. The caller reads the file and checks its permission bits;
//! the matching is decided here.

use vstd::prelude::*;

use crate::conninfo::{ConnectParams, HostView, ParamsView};
use crate::errors::PgConfigError;
use crate::strutil::{
    spec_parse_dec, spec_split_char, spec_trim_end, spec_trim_start, split_char, str_eq, strs_view,
    parse_dec_u16, trim_spaces,
};
use vstd::utf8::encode_utf8;

verus! {

/// A pass-file field matches a host entry when it equals the TCP host
/// name or the Unix socket path.
pub open spec fn spec_host_entry_matches(h: HostView, v: Seq<char>) -> bool {
    match h {
        HostView::Tcp(s) => v == s,
        HostView::Unix(s) => s == v,
    }
}

/// `value` matches the descriptor's hosts: it is `*` or equals one of
/// them.
pub open spec fn spec_match_host(v: Seq<char>, p: ParamsView) -> bool {
    v == "*"@ || exists|i: int|
        0 <= i < p.hosts.len() && spec_host_entry_matches(#[trigger] p.hosts[i], v)
}

/// Match the host field, as [`spec_match_host`] states it.
pub fn match_host(value: &str, config: &ConnectParams) -> (r: Result<bool, PgConfigError>)
    ensures
        r matches Ok(b) && b == spec_match_host(value@, config@),
{
    if str_eq(value, "*") {
        return Ok(true);
    }
    let mut i: usize = 0;
    while i < config.hosts.len()
        invariant
            0 <= i <= config.hosts@.len(),
            config@.hosts.len() == config.hosts@.len(),
            forall|j: int|
                0 <= j < i ==> !spec_host_entry_matches(#[trigger] config@.hosts[j], value@),
        decreases config.hosts@.len() - i,
    {
        let matched = match &config.hosts[i] {
            crate::conninfo::Host::Tcp(s) => str_eq(value, s.as_str()),
            crate::conninfo::Host::Unix(s) => str_eq(s.as_str(), value),
        };
        if matched {
            assert(spec_host_entry_matches(config@.hosts[i as int], value@));
            return Ok(true);
        }
        i = i + 1;
    }
    Ok(false)
}

/// What the port field yields: `*` matches; otherwise the field must be
/// an unsigned sixteen-bit decimal number, which matches when the
/// descriptor lists it.
pub open spec fn spec_match_port(v: Seq<char>, p: ParamsView) -> Result<bool, ()> {
    if v == "*"@ {
        Ok(true)
    } else {
        match spec_parse_dec(v) {
            Some(n) => if n <= u16::MAX {
                Ok(p.ports.contains(n as u16))
            } else {
                Err(())
            },
            None => Err(()),
        }
    }
}

/// Match the port field, as [`spec_match_port`] states it; a field that
/// is neither `*` nor a port number is a parse fault.
#[verifier::loop_isolation(false)]
pub fn match_port(value: &str, config: &ConnectParams) -> (r: Result<bool, PgConfigError>)
    ensures
        match spec_match_port(value@, config@) {
            Ok(b) => r matches Ok(rb) && rb == b,
            Err(_) => r matches Err(e) && e is PassfileParseError,
        },
{
    if str_eq(value, "*") {
        return Ok(true);
    }
    match parse_dec_u16(value) {
        Some(port) => {
            let mut i: usize = 0;
            while i < config.ports.len()
                invariant
                    0 <= i <= config.ports@.len(),
                    config@.ports == config.ports@,
                    forall|j: int| 0 <= j < i ==> config@.ports[j] != port,
                decreases config.ports@.len() - i,
            {
                if config.ports[i] == port {
                    assert(config@.ports.contains(port));
                    return Ok(true);
                }
                i = i + 1;
            }
            assert(!config@.ports.contains(port));
            Ok(false)
        },
        None => Err(PgConfigError::PassfileParseError),
    }
}

/// `value` matches an optional field: it is `*` or equals the set value.
pub open spec fn spec_match_opt(v: Seq<char>, field: Option<Seq<char>>) -> bool {
    v == "*"@ || field == Some(v)
}

/// Match the database field, as [`spec_match_opt`] states it.
pub fn match_dbname(value: &str, config: &ConnectParams) -> (r: Result<bool, PgConfigError>)
    ensures
        r matches Ok(b) && b == spec_match_opt(value@, config@.dbname),
{
    if str_eq(value, "*") {
        return Ok(true);
    }
    match &config.dbname {
        Some(s) => Ok(str_eq(s.as_str(), value)),
        None => Ok(false),
    }
}

/// Match the user field, as [`spec_match_opt`] states it.
pub fn match_username(value: &str, config: &ConnectParams) -> (r: Result<bool, PgConfigError>)
    ensures
        r matches Ok(b) && b == spec_match_opt(value@, config@.user),
{
    if str_eq(value, "*") {
        return Ok(true);
    }
    match &config.user {
        Some(s) => Ok(str_eq(s.as_str(), value)),
        None => Ok(false),
    }
}

/// What one pass-file line yields for a descriptor. The fields are read
/// left to right and a missing field is noticed only once every earlier
/// field has matched; a line whose key fields match yields its fifth
/// field.
pub open spec fn spec_line_password(line: Seq<char>, p: ParamsView) -> Result<
    Option<Seq<char>>,
    (),
> {
    let fs = spec_split_char(line, ':');
    if !spec_match_host(fs[0], p) {
        Ok(None)
    } else if fs.len() < 2 {
        Err(())
    } else {
        match spec_match_port(fs[1], p) {
            Err(_) => Err(()),
            Ok(false) => Ok(None),
            Ok(true) => if fs.len() < 3 {
                Err(())
            } else if !spec_match_opt(fs[2], p.dbname) {
                Ok(None)
            } else if fs.len() < 4 {
                Err(())
            } else if !spec_match_opt(fs[3], p.user) {
                Ok(None)
            } else if fs.len() < 5 {
                Err(())
            } else {
                Ok(Some(fs[4]))
            },
        }
    }
}

/// Read one pass-file line, as [`spec_line_password`] states it.
pub fn get_password(line: &str, config: &ConnectParams) -> (r: Result<
    Option<String>,
    PgConfigError,
>)
    ensures
        match spec_line_password(line@, config@) {
            Ok(Some(pw)) => r matches Ok(Some(s)) && s@ == pw,
            Ok(None) => r matches Ok(None),
            Err(_) => r matches Err(e) && e is PassfileParseError,
        },
{
    let fs = split_char(line, ':');
    proof {
        assert(forall|i: int| 0 <= i < fs@.len() ==> strs_view(fs@)[i] == fs@[i]@);
    }
    if !match_host(fs[0].as_str(), config)? {
        return Ok(None);
    }
    if fs.len() < 2 {
        return Err(PgConfigError::PassfileParseError);
    }
    if !match_port(fs[1].as_str(), config)? {
        return Ok(None);
    }
    if fs.len() < 3 {
        return Err(PgConfigError::PassfileParseError);
    }
    if !match_dbname(fs[2].as_str(), config)? {
        return Ok(None);
    }
    if fs.len() < 4 {
        return Err(PgConfigError::PassfileParseError);
    }
    if !match_username(fs[3].as_str(), config)? {
        return Ok(None);
    }
    if fs.len() < 5 {
        return Err(PgConfigError::PassfileParseError);
    }
    Ok(Some(fs[4].clone()))
}

/// Whether a line is skipped: blank, or a comment starting with `#`.
pub open spec fn spec_line_skipped(l: Seq<char>) -> bool {
    l.len() == 0 || l[0] == '#'
}

/// The trimmed form of a line.
pub open spec fn spec_trimmed(l: Seq<char>) -> Seq<char> {
    spec_trim_end(spec_trim_start(l, true, ' '))
}

/// What a scan of the pass file yields: the password of the first
/// matching line, a parse fault, or nothing.
pub open spec fn spec_passfile_scan(lines: Seq<Seq<char>>, p: ParamsView) -> Result<
    Option<Seq<char>>,
    (),
>
    decreases lines.len(),
{
    if lines.len() == 0 {
        Ok(None)
    } else {
        let l = spec_trimmed(lines[0]);
        if spec_line_skipped(l) {
            spec_passfile_scan(lines.drop_first(), p)
        } else {
            match spec_line_password(l, p) {
                Err(e) => Err(e),
                Ok(Some(pw)) => Ok(Some(pw)),
                Ok(None) => spec_passfile_scan(lines.drop_first(), p),
            }
        }
    }
}

/// Scan the pass file and set the password from the first matching line,
/// as [`spec_passfile_scan`] states it. Later lines are not read once a
/// match is found; the descriptor is unchanged when no line matches or a
/// line is faulty.
pub fn password_from_passfile_lines(p: &mut ConnectParams, lines: &Vec<String>) -> (r: Result<
    (),
    PgConfigError,
>)
    ensures
        match spec_passfile_scan(strs_view(lines@), old(p)@) {
            Ok(Some(pw)) => r is Ok && final(p)@ == (ParamsView {
                password: Some(encode_utf8(pw)),
                ..old(p)@
            }),
            Ok(None) => r is Ok && *final(p) == *old(p),
            Err(_) => (r matches Err(e) && e is PassfileParseError) && *final(p) == *old(p),
        },
{
    let ghost linesv = strs_view(lines@);
    proof {
        assert(linesv.subrange(0, linesv.len() as int) =~= linesv);
    }
    let mut i: usize = 0;
    while i < lines.len()
        invariant
            0 <= i <= lines.len(),
            linesv == strs_view(lines@),
            linesv.len() == lines.len(),
            p == old(p),
            spec_passfile_scan(linesv, old(p)@) == spec_passfile_scan(
                linesv.subrange(i as int, linesv.len() as int),
                old(p)@,
            ),
        decreases lines.len() - i,
    {
        proof {
            let rest = linesv.subrange(i as int, linesv.len() as int);
            assert(rest[0] == lines@[i as int]@);
            assert(rest.drop_first() =~= linesv.subrange(i + 1, linesv.len() as int));
        }
        let l = trim_spaces(lines[i].as_str());
        let skip = if l.unicode_len() == 0 {
            true
        } else {
            l.get_char(0) == '#'
        };
        if !skip {
            match get_password(l, p) {
                Err(e) => {
                    return Err(e);
                },
                Ok(Some(pw)) => {
                    p.password = Some(pw.as_str().as_bytes_vec());
                    proof {
                        assert(p@ =~= (ParamsView { password: Some(encode_utf8(pw@)), ..old(p)@ }));
                    }
                    return Ok(());
                },
                Ok(None) => {},
            }
        }
        i = i + 1;
    }
    proof {
        assert(linesv.subrange(linesv.len() as int, linesv.len() as int)
            =~= Seq::<Seq<char>>::empty());
    }
    Ok(())
}

/// Whether the pass-file permission bits allow its use: the twelve mode
/// bits must be exactly `0600`.
pub fn check_passfile_mode(mode: u32) -> (r: Result<(), PgConfigError>)
    ensures
        r is Ok <==> mode & 0o7777 == 0o600,
        !(mode & 0o7777 == 0o600) ==> (r matches Err(e) && e is InvalidPassFileMode),
{
    if mode & 0o7777 == 0o600 {
        Ok(())
    } else {
        Err(PgConfigError::InvalidPassFileMode)
    }
}

} // verus!
