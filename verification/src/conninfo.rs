//! Postgres connection parameters and the merge rule for a single
//! `key = value` pair.
//!
//! The descriptor holds, as plain values, everything the hub reads of a
//! database target. Parameters arrive from three sources in decreasing
//! precedence: the connection string, a service-file block, environment
//! variables. A later source must not overwrite the fields an earlier
//! source has set, except for `sslmode`, `keepalives`, `keepalives_idle`
//! and `channel_binding`, which are last-writer-wins.

use vstd::prelude::*;

use crate::errors::PgConfigError;
use crate::strutil::{parse_dec_u16, parse_dec_u64, spec_parse_dec, str_eq};
use vstd::utf8::encode_utf8;

verus! {

/// A database host: a TCP host name or the path of a Unix-socket directory.
#[derive(Debug, Clone)]
pub enum Host {
    Tcp(String),
    Unix(String),
}

/// The view of a [`Host`]: the same shape over character sequences.
pub enum HostView {
    Tcp(Seq<char>),
    Unix(Seq<char>),
}

impl View for Host {
    type V = HostView;

    open spec fn view(&self) -> HostView {
        match self {
            Host::Tcp(s) => HostView::Tcp(s@),
            Host::Unix(s) => HostView::Unix(s@),
        }
    }
}

/// SSL negotiation policy.
#[derive(Debug, Clone, Copy, PartialEq, Eq, Structural)]
pub enum SslMode {
    Disable,
    Prefer,
    Require,
}

/// Channel-binding policy.
#[derive(Debug, Clone, Copy, PartialEq, Eq, Structural)]
pub enum ChannelBinding {
    Disable,
    Prefer,
    Require,
}

/// Resolved connection parameters.
#[derive(Debug)]
pub struct ConnectParams {
    /// Target hosts, in order.
    pub hosts: Vec<Host>,
    /// Target ports, parallel to `hosts` when more than one is given.
    pub ports: Vec<u16>,
    /// Database name.
    pub dbname: Option<String>,
    /// User name.
    pub user: Option<String>,
    /// Password, as bytes.
    pub password: Option<Vec<u8>>,
    /// Command-line options passed to the server.
    pub options: Option<String>,
    /// The application name reported to the server.
    pub application_name: Option<String>,
    /// Connection timeout in seconds.
    pub connect_timeout: Option<u64>,
    /// SSL negotiation policy.
    pub ssl_mode: SslMode,
    /// Channel-binding policy.
    pub channel_binding: ChannelBinding,
    /// Whether TCP keepalives are used.
    pub keepalives: bool,
    /// Keepalive idle period in seconds.
    pub keepalives_idle: u64,
}

/// The view of [`ConnectParams`]: every field as a mathematical value.
#[verifier::ext_equal]
pub struct ParamsView {
    pub hosts: Seq<HostView>,
    pub ports: Seq<u16>,
    pub dbname: Option<Seq<char>>,
    pub user: Option<Seq<char>>,
    pub password: Option<Seq<u8>>,
    pub options: Option<Seq<char>>,
    pub application_name: Option<Seq<char>>,
    pub connect_timeout: Option<u64>,
    pub ssl_mode: SslMode,
    pub channel_binding: ChannelBinding,
    pub keepalives: bool,
    pub keepalives_idle: u64,
}

impl View for ConnectParams {
    type V = ParamsView;

    open spec fn view(&self) -> ParamsView {
        ParamsView {
            hosts: Seq::new(self.hosts@.len(), |i: int| self.hosts@[i]@),
            ports: self.ports@,
            dbname: match &self.dbname {
                Some(s) => Some(s@),
                None => None,
            },
            user: match &self.user {
                Some(s) => Some(s@),
                None => None,
            },
            password: match &self.password {
                Some(b) => Some(b@),
                None => None,
            },
            options: match &self.options {
                Some(s) => Some(s@),
                None => None,
            },
            application_name: match &self.application_name {
                Some(s) => Some(s@),
                None => None,
            },
            connect_timeout: self.connect_timeout,
            ssl_mode: self.ssl_mode,
            channel_binding: self.channel_binding,
            keepalives: self.keepalives,
            keepalives_idle: self.keepalives_idle,
        }
    }
}

/// The defaults of a descriptor before any source contributes: no target,
/// SSL and channel binding preferred, keepalives on with a two-hour idle
/// period.
pub open spec fn spec_default_params() -> ParamsView {
    ParamsView {
        hosts: Seq::empty(),
        ports: Seq::empty(),
        dbname: None,
        user: None,
        password: None,
        options: None,
        application_name: None,
        connect_timeout: None,
        ssl_mode: SslMode::Prefer,
        channel_binding: ChannelBinding::Prefer,
        keepalives: true,
        keepalives_idle: 7200,
    }
}

impl ConnectParams {
    /// An empty descriptor holding only defaults.
    pub fn new() -> (r: ConnectParams)
        ensures
            r@ == spec_default_params(),
    {
        let r = ConnectParams {
            hosts: Vec::new(),
            ports: Vec::new(),
            dbname: None,
            user: None,
            password: None,
            options: None,
            application_name: None,
            connect_timeout: None,
            ssl_mode: SslMode::Prefer,
            channel_binding: ChannelBinding::Prefer,
            keepalives: true,
            keepalives_idle: 7200,
        };
        proof {
            assert(r@ =~= spec_default_params());
        }
        r
    }
}

/// Which parameter a rejected value belongs to.
#[derive(Debug, Clone, Copy)]
pub enum ParamFault {
    SslMode,
    Port,
    ConnectTimeout,
    Keepalives,
    KeepalivesIdle,
    ChannelBinding,
}

/// The error that [`set_parameter`] returns for a fault carries the
/// offending value in the matching variant.
pub open spec fn param_err_matches(f: ParamFault, v: Seq<char>, e: PgConfigError) -> bool {
    match f {
        ParamFault::SslMode => e matches PgConfigError::InvalidSslMode(s) && s@ == v,
        ParamFault::Port => e matches PgConfigError::InvalidPort(s) && s@ == v,
        ParamFault::ConnectTimeout => e matches PgConfigError::InvalidConnectTimeout(s) && s@
            == v,
        ParamFault::Keepalives => e matches PgConfigError::InvalidKeepalives(s) && s@ == v,
        ParamFault::KeepalivesIdle => e matches PgConfigError::InvalidKeepalivesIdle(s) && s@
            == v,
        ParamFault::ChannelBinding => e matches PgConfigError::InvalidChannelBinding(s) && s@
            == v,
    }
}

/// A host value: a string beginning with `/` names a Unix-socket
/// directory, anything else a TCP host.
pub open spec fn spec_host_of(v: Seq<char>) -> HostView {
    if v.len() > 0 && v[0] == '/' {
        HostView::Unix(v)
    } else {
        HostView::Tcp(v)
    }
}

/// The merge rule for one `key = value` pair.
///
/// `user`, `password`, `dbname`, `options`, `application_name`,
/// `host`/`hostaddr`, `port` and
/// `connect_timeout` are kept only when not yet set; `sslmode`,
/// `keepalives`, `keepalives_idle` and `channel_binding` always overwrite;
/// any other key is ignored. A value that does not parse is a fault and
/// leaves the descriptor as it stands.
pub open spec fn spec_apply_param(p: ParamsView, k: Seq<char>, v: Seq<char>) -> Result<
    ParamsView,
    ParamFault,
> {
    if k == "user"@ {
        Ok(
            if p.user is None {
                ParamsView { user: Some(v), ..p }
            } else {
                p
            },
        )
    } else if k == "password"@ {
        Ok(
            if p.password is None {
                ParamsView { password: Some(encode_utf8(v)), ..p }
            } else {
                p
            },
        )
    } else if k == "dbname"@ {
        Ok(
            if p.dbname is None {
                ParamsView { dbname: Some(v), ..p }
            } else {
                p
            },
        )
    } else if k == "options"@ {
        Ok(
            if p.options is None {
                ParamsView { options: Some(v), ..p }
            } else {
                p
            },
        )
    } else if k == "application_name"@ {
        Ok(
            if p.application_name is None {
                ParamsView { application_name: Some(v), ..p }
            } else {
                p
            },
        )
    } else if k == "host"@ || k == "hostaddr"@ {
        Ok(
            if p.hosts.len() == 0 {
                ParamsView { hosts: seq![spec_host_of(v)], ..p }
            } else {
                p
            },
        )
    } else if k == "port"@ {
        if p.ports.len() == 0 {
            match spec_parse_dec(v) {
                Some(n) => if n <= u16::MAX {
                    Ok(ParamsView { ports: seq![n as u16], ..p })
                } else {
                    Err(ParamFault::Port)
                },
                None => Err(ParamFault::Port),
            }
        } else {
            Ok(p)
        }
    } else if k == "connect_timeout"@ {
        if p.connect_timeout is None {
            match spec_parse_dec(v) {
                Some(n) => if n <= u64::MAX {
                    Ok(ParamsView { connect_timeout: Some(n as u64), ..p })
                } else {
                    Err(ParamFault::ConnectTimeout)
                },
                None => Err(ParamFault::ConnectTimeout),
            }
        } else {
            Ok(p)
        }
    } else if k == "sslmode"@ {
        if v == "disable"@ {
            Ok(ParamsView { ssl_mode: SslMode::Disable, ..p })
        } else if v == "prefer"@ {
            Ok(ParamsView { ssl_mode: SslMode::Prefer, ..p })
        } else if v == "require"@ {
            Ok(ParamsView { ssl_mode: SslMode::Require, ..p })
        } else {
            Err(ParamFault::SslMode)
        }
    } else if k == "keepalives"@ {
        if v == "1"@ {
            Ok(ParamsView { keepalives: true, ..p })
        } else if v == "0"@ {
            Ok(ParamsView { keepalives: false, ..p })
        } else {
            Err(ParamFault::Keepalives)
        }
    } else if k == "keepalives_idle"@ {
        match spec_parse_dec(v) {
            Some(n) => if n <= u64::MAX {
                Ok(ParamsView { keepalives_idle: n as u64, ..p })
            } else {
                Err(ParamFault::KeepalivesIdle)
            },
            None => Err(ParamFault::KeepalivesIdle),
        }
    } else if k == "channel_binding"@ {
        if v == "disable"@ {
            Ok(ParamsView { channel_binding: ChannelBinding::Disable, ..p })
        } else if v == "prefer"@ {
            Ok(ParamsView { channel_binding: ChannelBinding::Prefer, ..p })
        } else if v == "require"@ {
            Ok(ParamsView { channel_binding: ChannelBinding::Require, ..p })
        } else {
            Err(ParamFault::ChannelBinding)
        }
    } else {
        Ok(p)
    }
}

/// Merge one `key = value` pair into the descriptor, as
/// [`spec_apply_param`] states it.
#[verifier::rlimit(60)]
pub fn set_parameter(p: &mut ConnectParams, k: &str, v: &str) -> (r: Result<(), PgConfigError>)
    ensures
        match spec_apply_param(old(p)@, k@, v@) {
            Ok(q) => r is Ok && final(p)@ == q,
            Err(f) => final(p)@ == old(p)@ && (r matches Err(e) && param_err_matches(f, v@, e)),
        },
{
    if str_eq(k, "user") {
        if p.user.is_none() {
            p.user = Some(v.to_owned());
        }
        proof {
            lemma_view_eq(p, spec_apply_param(old(p)@, k@, v@)->Ok_0);
        }
        Ok(())
    } else if str_eq(k, "password") {
        if p.password.is_none() {
            p.password = Some(v.as_bytes_vec());
        }
        proof {
            lemma_view_eq(p, spec_apply_param(old(p)@, k@, v@)->Ok_0);
        }
        Ok(())
    } else if str_eq(k, "dbname") {
        if p.dbname.is_none() {
            p.dbname = Some(v.to_owned());
        }
        proof {
            lemma_view_eq(p, spec_apply_param(old(p)@, k@, v@)->Ok_0);
        }
        Ok(())
    } else if str_eq(k, "options") {
        if p.options.is_none() {
            p.options = Some(v.to_owned());
        }
        proof {
            lemma_view_eq(p, spec_apply_param(old(p)@, k@, v@)->Ok_0);
        }
        Ok(())
    } else if str_eq(k, "application_name") {
        if p.application_name.is_none() {
            p.application_name = Some(v.to_owned());
        }
        proof {
            lemma_view_eq(p, spec_apply_param(old(p)@, k@, v@)->Ok_0);
        }
        Ok(())
    } else if str_eq(k, "host") || str_eq(k, "hostaddr") {
        if p.hosts.len() == 0 {
            let is_path = v.unicode_len() > 0 && v.get_char(0) == '/';
            let h = if is_path {
                Host::Unix(v.to_owned())
            } else {
                Host::Tcp(v.to_owned())
            };
            p.hosts.push(h);
        }
        proof {
            assert(p@.hosts =~= spec_apply_param(old(p)@, k@, v@)->Ok_0.hosts);
            lemma_view_eq(p, spec_apply_param(old(p)@, k@, v@)->Ok_0);
        }
        Ok(())
    } else if str_eq(k, "port") {
        if p.ports.len() == 0 {
            match parse_dec_u16(v) {
                Some(n) => {
                    p.ports.push(n);
                    proof {
                        assert(p@.ports =~= spec_apply_param(old(p)@, k@, v@)->Ok_0.ports);
                        lemma_view_eq(p, spec_apply_param(old(p)@, k@, v@)->Ok_0);
                    }
                    Ok(())
                },
                None => Err(PgConfigError::InvalidPort(v.to_owned())),
            }
        } else {
            Ok(())
        }
    } else if str_eq(k, "connect_timeout") {
        if p.connect_timeout.is_none() {
            match parse_dec_u64(v) {
                Some(n) => {
                    p.connect_timeout = Some(n);
                    proof {
                        lemma_view_eq(p, spec_apply_param(old(p)@, k@, v@)->Ok_0);
                    }
                    Ok(())
                },
                None => Err(PgConfigError::InvalidConnectTimeout(v.to_owned())),
            }
        } else {
            Ok(())
        }
    } else if str_eq(k, "sslmode") {
        let m = if str_eq(v, "disable") {
            Some(SslMode::Disable)
        } else if str_eq(v, "prefer") {
            Some(SslMode::Prefer)
        } else if str_eq(v, "require") {
            Some(SslMode::Require)
        } else {
            None
        };
        match m {
            Some(mode) => {
                p.ssl_mode = mode;
                proof {
                    lemma_view_eq(p, spec_apply_param(old(p)@, k@, v@)->Ok_0);
                }
                Ok(())
            },
            None => Err(PgConfigError::InvalidSslMode(v.to_owned())),
        }
    } else if str_eq(k, "keepalives") {
        let m = if str_eq(v, "1") {
            Some(true)
        } else if str_eq(v, "0") {
            Some(false)
        } else {
            None
        };
        match m {
            Some(b) => {
                p.keepalives = b;
                proof {
                    lemma_view_eq(p, spec_apply_param(old(p)@, k@, v@)->Ok_0);
                }
                Ok(())
            },
            None => Err(PgConfigError::InvalidKeepalives(v.to_owned())),
        }
    } else if str_eq(k, "keepalives_idle") {
        match parse_dec_u64(v) {
            Some(n) => {
                p.keepalives_idle = n;
                proof {
                    lemma_view_eq(p, spec_apply_param(old(p)@, k@, v@)->Ok_0);
                }
                Ok(())
            },
            None => Err(PgConfigError::InvalidKeepalivesIdle(v.to_owned())),
        }
    } else if str_eq(k, "channel_binding") {
        let m = if str_eq(v, "disable") {
            Some(ChannelBinding::Disable)
        } else if str_eq(v, "prefer") {
            Some(ChannelBinding::Prefer)
        } else if str_eq(v, "require") {
            Some(ChannelBinding::Require)
        } else {
            None
        };
        match m {
            Some(mode) => {
                p.channel_binding = mode;
                proof {
                    lemma_view_eq(p, spec_apply_param(old(p)@, k@, v@)->Ok_0);
                }
                Ok(())
            },
            None => Err(PgConfigError::InvalidChannelBinding(v.to_owned())),
        }
    } else {
        Ok(())
    }
}

proof fn lemma_view_eq(p: &ConnectParams, q: ParamsView)
    requires
        p@.hosts =~= q.hosts,
        p@.ports =~= q.ports,
        p@.dbname == q.dbname,
        p@.user == q.user,
        p@.password == q.password,
        p@.options == q.options,
        p@.application_name == q.application_name,
        p@.connect_timeout == q.connect_timeout,
        p@.ssl_mode == q.ssl_mode,
        p@.channel_binding == q.channel_binding,
        p@.keepalives == q.keepalives,
        p@.keepalives_idle == q.keepalives_idle,
    ensures
        p@ == q,
{
    assert(p@ =~= q);
}

/// A named parameter, as a service file or the environment provides it.
#[derive(Debug, Clone)]
pub struct Param {
    pub key: String,
    pub value: String,
}

/// The views of a parameter list: pairs of key and value.
pub open spec fn params_view(items: Seq<Param>) -> Seq<(Seq<char>, Seq<char>)> {
    Seq::new(items.len(), |i: int| (items[i].key@, items[i].value@))
}

/// Merge a whole parameter list, left to right, stopping at the first
/// fault. A fault reports the offending value and the state reached.
pub open spec fn spec_apply_list(p: ParamsView, items: Seq<(Seq<char>, Seq<char>)>) -> Result<
    ParamsView,
    (ParamFault, Seq<char>, ParamsView),
>
    decreases items.len(),
{
    if items.len() == 0 {
        Ok(p)
    } else {
        match spec_apply_param(p, items[0].0, items[0].1) {
            Ok(q) => spec_apply_list(q, items.drop_first()),
            Err(f) => Err((f, items[0].1, p)),
        }
    }
}

/// Merge every parameter of `items` into the descriptor in order, as
/// [`spec_apply_list`] states it.
pub fn apply_parameters(p: &mut ConnectParams, items: &Vec<Param>) -> (r: Result<
    (),
    PgConfigError,
>)
    ensures
        match spec_apply_list(old(p)@, params_view(items@)) {
            Ok(q) => r is Ok && final(p)@ == q,
            Err((f, v, q)) => final(p)@ == q && (r matches Err(e) && param_err_matches(f, v, e)),
        },
{
    let ghost itemsv = params_view(items@);
    proof {
        assert(itemsv.subrange(0, itemsv.len() as int) =~= itemsv);
    }
    let mut i: usize = 0;
    while i < items.len()
        invariant
            0 <= i <= items.len(),
            itemsv == params_view(items@),
            itemsv.len() == items.len(),
            spec_apply_list(old(p)@, itemsv) == spec_apply_list(
                p@,
                itemsv.subrange(i as int, itemsv.len() as int),
            ),
        decreases items.len() - i,
    {
        let ghost pre = p@;
        let item = &items[i];
        let res = set_parameter(p, item.key.as_str(), item.value.as_str());
        proof {
            let rest = itemsv.subrange(i as int, itemsv.len() as int);
            assert(rest[0] == (items@[i as int].key@, items@[i as int].value@));
            assert(rest.drop_first() =~= itemsv.subrange(i + 1, itemsv.len() as int));
        }
        match res {
            Ok(_) => {},
            Err(e) => {
                return Err(e);
            },
        }
        i = i + 1;
    }
    proof {
        assert(itemsv.subrange(itemsv.len() as int, itemsv.len() as int) =~= Seq::empty());
    }
    Ok(())
}

/// Two descriptors name the same listener target when hosts, database and
/// user agree; the pool deduplicates sessions by this key.
pub open spec fn spec_same_target(a: ParamsView, b: ParamsView) -> bool {
    a.hosts == b.hosts && a.dbname == b.dbname && a.user == b.user
}

fn host_eq(a: &Host, b: &Host) -> (r: bool)
    ensures
        r == (a@ == b@),
{
    match (a, b) {
        (Host::Tcp(x), Host::Tcp(y)) => str_eq(x.as_str(), y.as_str()),
        (Host::Unix(x), Host::Unix(y)) => str_eq(x.as_str(), y.as_str()),
        (Host::Tcp(_), Host::Unix(_)) => false,
        (Host::Unix(_), Host::Tcp(_)) => false,
    }
}

fn opt_str_eq(a: &Option<String>, b: &Option<String>) -> (r: bool)
    ensures
        r == ((match a {
            Some(s) => Some(s@),
            None => None,
        }) == (match b {
            Some(s) => Some(s@),
            None => None,
        })),
{
    match (a, b) {
        (None, None) => true,
        (Some(x), Some(y)) => str_eq(x.as_str(), y.as_str()),
        _ => false,
    }
}

/// Whether `a` and `b` target the same listener connection.
pub fn same_target(a: &ConnectParams, b: &ConnectParams) -> (r: bool)
    ensures
        r == spec_same_target(a@, b@),
{
    if a.hosts.len() != b.hosts.len() {
        assert(a@.hosts.len() != b@.hosts.len());
        assert(a@.hosts != b@.hosts);
        return false;
    }
    let mut i: usize = 0;
    while i < a.hosts.len()
        invariant
            0 <= i <= a.hosts.len(),
            a@.hosts.len() == b@.hosts.len(),
            a@.hosts.len() == a.hosts@.len(),
            b@.hosts.len() == b.hosts@.len(),
            forall|j: int| 0 <= j < i ==> a@.hosts[j] == b@.hosts[j],
        decreases a.hosts.len() - i,
    {
        if !host_eq(&a.hosts[i], &b.hosts[i]) {
            assert(a@.hosts[i as int] != b@.hosts[i as int]);
            return false;
        }
        i = i + 1;
    }
    assert(a@.hosts =~= b@.hosts);
    opt_str_eq(&a.dbname, &b.dbname) && opt_str_eq(&a.user, &b.user)
}

} // verus!
