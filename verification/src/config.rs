//! Server configuration: validated structure and the rules applied at
//! startup.
//!
//! The caller deserializes the TOML text (and any drop-in files) into
//! these structures and then calls [`Settings::build`], which sanitizes
//! paths and channel ids and rejects duplicate ids.

use vstd::prelude::*;

use crate::errors::Error;
use crate::strutil::{spec_trim_start, str_eq, trim_start_char};

verus! {

/// The default server title.
pub fn default_title() -> (r: String)
    ensures
        r@ == "Pg event server"@,
{
    "Pg event server".to_owned()
}

/// The default per-client SSE buffer size.
pub fn default_worker_buffer_size() -> (r: usize)
    ensures
        r == 1,
{
    1
}

/// The default size of the notification queue between the listener pool
/// and the dispatcher.
pub fn default_events_buffer_size() -> (r: usize)
    ensures
        r == 1024,
{
    1024
}

/// The default delay, in seconds, between reconnect sweeps.
pub fn default_reconnection_delay() -> (r: u16)
    ensures
        r == 60,
{
    60
}

/// TLS on the HTTP listener is off unless asked for.
pub fn default_ssl_enabled() -> (r: bool)
    ensures
        r == false,
{
    false
}

// ---------------------------------------------------------------------------
// Server section
// ---------------------------------------------------------------------------
/// The `[server]` section.
#[derive(Debug, Clone)]
pub struct Server {
    /// The socket address to listen on, as `ip:port`.
    pub listen: String,
    /// Description of the server, reported in the `Server` header.
    pub title: String,
    /// Number of workers; resolved to half the physical CPUs when absent.
    pub num_workers: Option<usize>,
    /// Whether the HTTP listener uses TLS.
    pub ssl_enabled: bool,
    /// Path of the server key file.
    pub ssl_key_file: Option<String>,
    /// Path of the server certificate file.
    pub ssl_cert_file: Option<String>,
}

/// The view of a [`Server`].
#[verifier::ext_equal]
pub struct ServerView {
    pub listen: Seq<char>,
    pub title: Seq<char>,
    pub num_workers: Option<usize>,
    pub ssl_enabled: bool,
    pub ssl_key_file: Option<Seq<char>>,
    pub ssl_cert_file: Option<Seq<char>>,
}

impl View for Server {
    type V = ServerView;

    open spec fn view(&self) -> ServerView {
        ServerView {
            listen: self.listen@,
            title: self.title@,
            num_workers: self.num_workers,
            ssl_enabled: self.ssl_enabled,
            ssl_key_file: match &self.ssl_key_file {
                Some(s) => Some(s@),
                None => None,
            },
            ssl_cert_file: match &self.ssl_cert_file {
                Some(s) => Some(s@),
                None => None,
            },
        }
    }
}

/// A path is rooted when it starts with `/`.
pub open spec fn spec_has_root(p: Seq<char>) -> bool {
    p.len() > 0 && p[0] == '/'
}

/// Join a relative path onto a root directory, inserting a separator
/// unless the root already ends with one or is empty.
pub open spec fn spec_path_join(root: Seq<char>, rel: Seq<char>) -> Seq<char> {
    if root.len() == 0 {
        rel
    } else if root.last() == '/' {
        root + rel
    } else {
        root + "/"@ + rel
    }
}

fn has_root(p: &str) -> (r: bool)
    ensures
        r == spec_has_root(p@),
{
    p.unicode_len() > 0 && p.get_char(0) == '/'
}

fn path_join(root: &str, rel: &str) -> (r: String)
    ensures
        r@ == spec_path_join(root@, rel@),
{
    let n = root.unicode_len();
    if n == 0 {
        rel.to_owned()
    } else if root.get_char(n - 1) == '/' {
        root.to_owned().concat(rel)
    } else {
        root.to_owned().concat("/").concat(rel)
    }
}

/// An optional relative path resolved against the configuration file's
/// directory; a rooted path stands as it is.
pub open spec fn spec_resolve_path(p: Option<Seq<char>>, root: Seq<char>) -> Option<Seq<char>> {
    match p {
        Some(s) => if spec_has_root(s) {
            Some(s)
        } else {
            Some(spec_path_join(root, s))
        },
        None => None,
    }
}

fn resolve_path(p: &Option<String>, root: &str) -> (r: Option<String>)
    ensures
        (match r {
            Some(s) => Some(s@),
            None => None,
        }) == spec_resolve_path(
            match p {
                Some(s) => Some(s@),
                None => None,
            },
            root@,
        ),
{
    match p {
        Some(s) => if has_root(s.as_str()) {
            Some(s.clone())
        } else {
            Some(path_join(root, s.as_str()))
        },
        None => None,
    }
}

/// What sanitizing the server section does: a worker count of zero means
/// "unset", and the TLS file paths are resolved against the
/// configuration directory.
pub open spec fn spec_sanitize_server(s: ServerView, root: Seq<char>) -> ServerView {
    ServerView {
        num_workers: match s.num_workers {
            Some(0) => None,
            w => w,
        },
        ssl_key_file: spec_resolve_path(s.ssl_key_file, root),
        ssl_cert_file: spec_resolve_path(s.ssl_cert_file, root),
        ..s
    }
}

impl Server {
    /// Sanitize the section, as [`spec_sanitize_server`] states it.
    pub fn sanitize(&mut self, root: &str)
        ensures
            final(self)@ == spec_sanitize_server(old(self)@, root@),
    {
        match self.num_workers {
            Some(w) => {
                if w == 0 {
                    self.num_workers = None;
                }
            },
            None => {},
        }
        let key = resolve_path(&self.ssl_key_file, root);
        self.ssl_key_file = key;
        let cert = resolve_path(&self.ssl_cert_file, root);
        self.ssl_cert_file = cert;
        proof {
            assert(self@ =~= spec_sanitize_server(old(self)@, root@));
        }
    }
}

// ---------------------------------------------------------------------------
// Channels
// ---------------------------------------------------------------------------
/// One configured subscription channel.
#[derive(Debug, Clone)]
pub struct ChannelConfig {
    /// The id used in subscription requests.
    pub id: String,
    /// The Postgres event names this channel accepts; empty means every
    /// event of its session is accepted.
    pub allowed_events: Vec<String>,
    /// The connection string of the backing database.
    pub connection_string: Option<String>,
}

/// The view of a [`ChannelConfig`].
#[verifier::ext_equal]
pub struct ChannelConfigView {
    pub id: Seq<char>,
    pub allowed_events: Seq<Seq<char>>,
    pub connection_string: Option<Seq<char>>,
}

impl View for ChannelConfig {
    type V = ChannelConfigView;

    open spec fn view(&self) -> ChannelConfigView {
        ChannelConfigView {
            id: self.id@,
            allowed_events: Seq::new(self.allowed_events@.len(), |i: int| self.allowed_events@[i]@),
            connection_string: match &self.connection_string {
                Some(s) => Some(s@),
                None => None,
            },
        }
    }
}

/// What sanitizing a channel does: leading `/` characters are trimmed
/// off the id.
pub open spec fn spec_sanitize_channel(c: ChannelConfigView) -> ChannelConfigView {
    ChannelConfigView { id: spec_trim_start(c.id, false, '/'), ..c }
}

impl ChannelConfig {
    /// Sanitize the channel, as [`spec_sanitize_channel`] states it.
    pub fn sanitize(&mut self)
        ensures
            final(self)@ == spec_sanitize_channel(old(self)@),
    {
        let id = trim_start_char(self.id.as_str(), '/').to_owned();
        self.id = id;
        proof {
            assert(self@ =~= spec_sanitize_channel(old(self)@));
        }
    }
}

/// A drop-in file: a set of channels appended to the configuration.
#[derive(Debug, Clone)]
pub struct ChannelSetConfig {
    /// The channels this set contributes.
    pub channels: Vec<ChannelConfig>,
}

// ---------------------------------------------------------------------------
// TLS towards Postgres
// ---------------------------------------------------------------------------
/// TLS material for the Postgres connections.
#[derive(Debug, Clone)]
pub struct PgTlsConfig {
    /// PEM file holding the CA certificates; native roots are used when
    /// absent.
    pub tls_ca_file: Option<String>,
    /// Client authentication key file.
    pub tls_client_auth_key: Option<String>,
    /// Client authentication certificate file.
    pub tls_client_auth_cert: Option<String>,
}

impl PgTlsConfig {
    /// Whether the client-authentication options pair up: certificate
    /// and key must be given together or not at all. Whether the named
    /// files exist is for the caller to test.
    pub fn check(&self) -> (r: Result<(), Error>)
        ensures
            r is Ok <==> (self.tls_client_auth_cert is Some <==> self.tls_client_auth_key
                is Some),
            r is Err ==> (r matches Err(e) && e is Config),
    {
        match (&self.tls_client_auth_cert, &self.tls_client_auth_key) {
            (Some(_), Some(_)) => Ok(()),
            (None, None) => Ok(()),
            (None, _) => Err(Error::Config("Missing client certfile.".to_owned())),
            (_, None) => Err(Error::Config("Missing client keyfile.".to_owned())),
        }
    }
}

// ---------------------------------------------------------------------------
// Settings
// ---------------------------------------------------------------------------
/// The configuration root.
#[derive(Debug, Clone)]
pub struct Settings {
    /// The `[server]` section.
    pub server: Server,
    /// The configured channels, in order.
    pub channels: Vec<ChannelConfig>,
    /// Per-client SSE buffer size.
    pub worker_buffer_size: usize,
    /// Size of the notification queue.
    pub events_buffer_size: usize,
    /// Delay in seconds between reconnect sweeps.
    pub reconnect_delay: u16,
    /// TLS material for Postgres, when used.
    pub postgres_tls: Option<PgTlsConfig>,
}

/// The channels of a settings value, as views.
pub open spec fn spec_channels(s: &Settings) -> Seq<ChannelConfigView> {
    Seq::new(s.channels@.len(), |i: int| s.channels@[i]@)
}

/// Every channel id occurs once.
pub open spec fn spec_ids_unique(chs: Seq<ChannelConfigView>) -> bool {
    forall|i: int, j: int| 0 <= i < j < chs.len() ==> chs[i].id != chs[j].id
}

/// Whether the TLS section, if present, passes [`PgTlsConfig::check`].
pub open spec fn spec_tls_ok(s: &Settings) -> bool {
    match s.postgres_tls {
        Some(t) => t.tls_client_auth_cert is Some <==> t.tls_client_auth_key is Some,
        None => true,
    }
}

impl Settings {
    /// Sanitize every channel and the server section.
    pub fn sanitize(&mut self, root: &str)
        ensures
            spec_channels(&*final(self)) =~= spec_channels(&*old(self)).map_values(
                |c: ChannelConfigView| spec_sanitize_channel(c),
            ),
            final(self).server@ == spec_sanitize_server(old(self).server@, root@),
            final(self).worker_buffer_size == old(self).worker_buffer_size,
            final(self).events_buffer_size == old(self).events_buffer_size,
            final(self).reconnect_delay == old(self).reconnect_delay,
            final(self).postgres_tls == old(self).postgres_tls,
    {
        let n = self.channels.len();
        let mut i: usize = 0;
        while i < n
            invariant
                0 <= i <= n,
                n == self.channels@.len(),
                self.channels@.len() == old(self).channels@.len(),
                forall|j: int|
                    i <= j < n ==> self.channels@[j] == old(self).channels@[j],
                forall|j: int|
                    0 <= j < i ==> #[trigger] self.channels@[j]@ == spec_sanitize_channel(
                        old(self).channels@[j]@,
                    ),
                self.server == old(self).server,
                self.worker_buffer_size == old(self).worker_buffer_size,
                self.events_buffer_size == old(self).events_buffer_size,
                self.reconnect_delay == old(self).reconnect_delay,
                self.postgres_tls == old(self).postgres_tls,
            decreases n - i,
        {
            let ghost pre = self.channels@[i as int]@;
            let ch = &mut self.channels[i];
            ch.sanitize();
            i = i + 1;
        }
        self.server.sanitize(root);
    }

    /// Accept the configuration only when every channel id is unique and
    /// the TLS section is coherent.
    pub fn validate(self) -> (r: Result<Settings, Error>)
        ensures
            r is Ok <==> spec_ids_unique(spec_channels(&self)) && spec_tls_ok(&self),
            r matches Ok(s) ==> s == self,
            r is Err ==> (r matches Err(e) && e is Config),
    {
        let n = self.channels.len();
        let mut i: usize = 0;
        while i < n
            invariant
                0 <= i <= n,
                n == self.channels@.len(),
                forall|a: int, b: int|
                    0 <= a < b < n && a < i ==> spec_channels(&self)[a].id != spec_channels(
                        &self,
                    )[b].id,
            decreases n - i,
        {
            let mut j: usize = i + 1;
            while j < n
                invariant
                    0 <= i < j <= n,
                    n == self.channels@.len(),
                    forall|b: int|
                        i < b < j ==> spec_channels(&self)[i as int].id != spec_channels(
                            &self,
                        )[b].id,
                decreases n - j,
            {
                if str_eq(self.channels[i].id.as_str(), self.channels[j].id.as_str()) {
                    assert(spec_channels(&self)[i as int].id == spec_channels(&self)[j as int].id);
                    assert(!spec_ids_unique(spec_channels(&self)));
                    let msg = "Duplicated channel id: '".to_owned().concat(
                        self.channels[i].id.as_str(),
                    ).concat("'");
                    return Err(Error::Config(msg));
                }
                j = j + 1;
            }
            i = i + 1;
        }
        match &self.postgres_tls {
            Some(tls) => {
                match tls.check() {
                    Ok(_) => {},
                    Err(e) => {
                        return Err(e);
                    },
                }
            },
            None => {},
        }
        Ok(self)
    }

    /// Append the channels of each drop-in set, in order.
    pub fn append_channel_sets(&mut self, sets: Vec<ChannelSetConfig>)
        ensures
            final(self).channels@ == old(self).channels@ + spec_concat_sets(sets@),
            final(self).server == old(self).server,
            final(self).worker_buffer_size == old(self).worker_buffer_size,
            final(self).events_buffer_size == old(self).events_buffer_size,
            final(self).reconnect_delay == old(self).reconnect_delay,
            final(self).postgres_tls == old(self).postgres_tls,
    {
        let ghost sets0 = sets@;
        let mut rem = sets;
        while rem.len() > 0
            invariant
                old(self).channels@ + spec_concat_sets(sets0) == self.channels@ + spec_concat_sets(
                    rem@,
                ),
                self.server == old(self).server,
                self.worker_buffer_size == old(self).worker_buffer_size,
                self.events_buffer_size == old(self).events_buffer_size,
                self.reconnect_delay == old(self).reconnect_delay,
                self.postgres_tls == old(self).postgres_tls,
            decreases rem@.len(),
        {
            let ghost pre_sets = rem@;
            let ghost pre_channels = self.channels@;
            let mut set = rem.remove(0);
            self.channels.append(&mut set.channels);
            proof {
                assert(rem@ =~= pre_sets.drop_first());
                assert(spec_concat_sets(pre_sets) == pre_sets[0].channels@ + spec_concat_sets(
                    pre_sets.drop_first(),
                ));
                assert(pre_channels + spec_concat_sets(pre_sets) =~= self.channels@
                    + spec_concat_sets(rem@));
            }
        }
        proof {
            assert(spec_concat_sets(rem@) =~= Seq::<ChannelConfig>::empty());
            assert(self.channels@ =~= old(self).channels@ + spec_concat_sets(sets0));
        }
    }

    /// Sanitize and validate, as startup does once the files are read: a
    /// configuration is accepted exactly when its sanitized channel ids
    /// are unique and the TLS section is coherent.
    pub fn build(self, root: &str) -> (r: Result<Settings, Error>)
        ensures
            r is Ok <==> spec_ids_unique(
                spec_channels(&self).map_values(|c: ChannelConfigView| spec_sanitize_channel(c)),
            ) && spec_tls_ok(&self),
            r matches Ok(s) ==> {
                &&& spec_channels(&s) =~= spec_channels(&self).map_values(
                    |c: ChannelConfigView| spec_sanitize_channel(c),
                )
                &&& s.server@ == spec_sanitize_server(self.server@, root@)
                &&& spec_ids_unique(spec_channels(&s))
                &&& spec_tls_ok(&s)
                &&& s.worker_buffer_size == self.worker_buffer_size
                &&& s.events_buffer_size == self.events_buffer_size
                &&& s.reconnect_delay == self.reconnect_delay
                &&& s.postgres_tls == self.postgres_tls
            },
            r is Err ==> (r matches Err(e) && e is Config),
    {
        let mut this = self;
        this.sanitize(root);
        this.validate()
    }

    /// The subscription ids, in configuration order.
    pub fn subscriptions(&self) -> (r: Vec<String>)
        ensures
            r@.len() == self.channels@.len(),
            forall|i: int| 0 <= i < r@.len() ==> #[trigger] r@[i]@ == self.channels@[i]@.id,
    {
        let mut out: Vec<String> = Vec::new();
        let mut i: usize = 0;
        while i < self.channels.len()
            invariant
                0 <= i <= self.channels@.len(),
                out@.len() == i,
                forall|j: int| 0 <= j < i ==> #[trigger] out@[j]@ == self.channels@[j]@.id,
            decreases self.channels@.len() - i,
        {
            out.push(self.channels[i].id.clone());
            i = i + 1;
        }
        out
    }
}

/// The concatenation of every drop-in set's channels.
pub open spec fn spec_concat_sets(sets: Seq<ChannelSetConfig>) -> Seq<ChannelConfig>
    decreases sets.len(),
{
    if sets.len() == 0 {
        Seq::empty()
    } else {
        sets[0].channels@ + spec_concat_sets(sets.drop_first())
    }
}

} // verus!
