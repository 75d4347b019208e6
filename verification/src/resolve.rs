//! Resolution of connection parameters from a connection string, service
//! files and the process environment.
//!
//! The caller reads the environment and the candidate service files and
//! hands their contents over as plain values; every decision — which
//! source applies, in which order, and what each key does — is made here.

use vstd::prelude::*;

use crate::conninfo::{
    apply_parameters, param_err_matches, params_view, spec_apply_list, Param, ParamFault,
    ParamsView, ConnectParams,
};
use crate::errors::PgConfigError;
use crate::strutil::{
    find_from, spec_starts_with, spec_trim_end, spec_trim_start, starts_with_str,
    substring_owned, trim_spaces, trim_start_spaces,
};

verus! {

// ---------------------------------------------------------------------------
// Environment variables
// ---------------------------------------------------------------------------
/// The connection-related environment variables, read once by the caller.
#[derive(Debug, Clone)]
pub struct PgEnv {
    pub pghost: Option<String>,
    pub pgport: Option<String>,
    pub pgdatabase: Option<String>,
    pub pguser: Option<String>,
    pub pgoptions: Option<String>,
    pub pgappname: Option<String>,
    pub pgconnect_timeout: Option<String>,
}

/// The view of [`PgEnv`].
#[verifier::ext_equal]
pub struct PgEnvView {
    pub pghost: Option<Seq<char>>,
    pub pgport: Option<Seq<char>>,
    pub pgdatabase: Option<Seq<char>>,
    pub pguser: Option<Seq<char>>,
    pub pgoptions: Option<Seq<char>>,
    pub pgappname: Option<Seq<char>>,
    pub pgconnect_timeout: Option<Seq<char>>,
}

impl View for PgEnv {
    type V = PgEnvView;

    open spec fn view(&self) -> PgEnvView {
        PgEnvView {
            pghost: match &self.pghost {
                Some(s) => Some(s@),
                None => None,
            },
            pgport: match &self.pgport {
                Some(s) => Some(s@),
                None => None,
            },
            pgdatabase: match &self.pgdatabase {
                Some(s) => Some(s@),
                None => None,
            },
            pguser: match &self.pguser {
                Some(s) => Some(s@),
                None => None,
            },
            pgoptions: match &self.pgoptions {
                Some(s) => Some(s@),
                None => None,
            },
            pgappname: match &self.pgappname {
                Some(s) => Some(s@),
                None => None,
            },
            pgconnect_timeout: match &self.pgconnect_timeout {
                Some(s) => Some(s@),
                None => None,
            },
        }
    }
}

impl PgEnv {
    /// An environment with nothing set.
    pub fn empty() -> (r: PgEnv)
        ensures
            r@.pghost is None,
            r@.pgport is None,
            r@.pgdatabase is None,
            r@.pguser is None,
            r@.pgoptions is None,
            r@.pgappname is None,
            r@.pgconnect_timeout is None,
    {
        PgEnv {
            pghost: None,
            pgport: None,
            pgdatabase: None,
            pguser: None,
            pgoptions: None,
            pgappname: None,
            pgconnect_timeout: None,
        }
    }
}

/// One entry of the environment list when the variable is present.
pub open spec fn env_entry(v: Option<Seq<char>>, key: Seq<char>) -> Seq<(Seq<char>, Seq<char>)> {
    match v {
        Some(s) => seq![(key, s)],
        None => Seq::empty(),
    }
}

/// The `key = value` pairs that the environment contributes, in the fixed
/// order `host`, `port`, `dbname`, `user`, `options`, `application_name`,
/// `connect_timeout`.
pub open spec fn env_items(e: PgEnvView) -> Seq<(Seq<char>, Seq<char>)> {
    env_entry(e.pghost, "host"@) + env_entry(e.pgport, "port"@) + env_entry(
        e.pgdatabase,
        "dbname"@,
    ) + env_entry(e.pguser, "user"@) + env_entry(e.pgoptions, "options"@) + env_entry(
        e.pgappname,
        "application_name"@,
    ) + env_entry(e.pgconnect_timeout, "connect_timeout"@)
}

fn push_env(items: &mut Vec<Param>, v: &Option<String>, key: &str)
    ensures
        params_view(final(items)@) =~= params_view(old(items)@) + env_entry(
            match v {
                Some(s) => Some(s@),
                None => None,
            },
            key@,
        ),
{
    match v {
        Some(s) => {
            let p = Param { key: key.to_owned(), value: s.clone() };
            items.push(p);
        },
        None => {},
    }
}

/// The environment contribution as an explicit parameter list.
fn env_params(env: &PgEnv) -> (r: Vec<Param>)
    ensures
        params_view(r@) == env_items(env@),
{
    let mut items: Vec<Param> = Vec::new();
    proof {
        assert(params_view(items@) =~= Seq::<(Seq<char>, Seq<char>)>::empty());
    }
    push_env(&mut items, &env.pghost, "host");
    push_env(&mut items, &env.pgport, "port");
    push_env(&mut items, &env.pgdatabase, "dbname");
    push_env(&mut items, &env.pguser, "user");
    push_env(&mut items, &env.pgoptions, "options");
    push_env(&mut items, &env.pgappname, "application_name");
    push_env(&mut items, &env.pgconnect_timeout, "connect_timeout");
    proof {
        assert(params_view(items@) =~= env_items(env@));
    }
    items
}

/// Merge the environment variables into the descriptor. A variable never
/// overwrites a field that an earlier source has set.
pub fn load_config_from_env(p: &mut ConnectParams, env: &PgEnv) -> (r: Result<(), PgConfigError>)
    ensures
        match spec_apply_list(old(p)@, env_items(env@)) {
            Ok(q) => r is Ok && final(p)@ == q,
            Err((f, v, q)) => final(p)@ == q && (r matches Err(e) && param_err_matches(f, v, e)),
        },
{
    let items = env_params(env);
    apply_parameters(p, &items)
}

// ---------------------------------------------------------------------------
// Service files
// ---------------------------------------------------------------------------
/// What the caller found when looking for a service file.
#[derive(Debug, Clone)]
pub enum FileStatus {
    /// No candidate path exists (the relevant variables are unset).
    Absent,
    /// A path was configured but no file stands there.
    Missing,
    /// The file's text.
    Contents(String),
}

/// The view of a [`FileStatus`].
pub enum FileStatusView {
    Absent,
    Missing,
    Contents(Seq<char>),
}

impl View for FileStatus {
    type V = FileStatusView;

    open spec fn view(&self) -> FileStatusView {
        match self {
            FileStatus::Absent => FileStatusView::Absent,
            FileStatus::Missing => FileStatusView::Missing,
            FileStatus::Contents(s) => FileStatusView::Contents(s@),
        }
    }
}

/// The two candidate service files, in lookup order: the user's file
/// (`PGSERVICEFILE`, else `~/.pg_service.conf`), then the system file
/// (`PGSYSCONFDIR/pg_service.conf`).
#[derive(Debug, Clone)]
pub struct ServiceFiles {
    pub user: FileStatus,
    pub sysconf: FileStatus,
}

/// What the INI parser yields for a section of a service file: `None`
/// when the text is not well-formed INI, `Some(None)` when it holds no
/// section of that name, and otherwise the section's `key = value` pairs
/// in order.
pub uninterp spec fn ini_section_params(text: Seq<char>, section: Seq<char>) -> Option<
    Option<Seq<(Seq<char>, Seq<char>)>>,
>;

/// Relies on `ini::Ini::load_from_str` and `ini::Ini::section`: the
/// parse of the text and the lookup of the named section depend on the
/// two strings alone.
#[verifier::external_body]
fn parse_service_section(text: &str, section: &str) -> (r: Option<Option<Vec<Param>>>)
    ensures
        ini_section_params(text@, section@) == (match r {
            None => None::<Option<Seq<(Seq<char>, Seq<char>)>>>,
            Some(None) => Some(None::<Seq<(Seq<char>, Seq<char>)>>),
            Some(Some(items)) => Some(Some(params_view(items@))),
        }),
{
    match ini::Ini::load_from_str(text) {
        Err(_) => None,
        Ok(file) => match file.section(Some(section)) {
            None => Some(None),
            Some(props) => Some(
                Some(
                    props.iter().map(
                        |(k, v)| Param { key: k.to_string(), value: v.to_string() },
                    ).collect(),
                ),
            ),
        },
    }
}

/// Why resolution against the service files failed.
pub enum ResolveFault {
    /// A configured service file does not exist.
    FileNotFound,
    /// A service file is not well-formed INI.
    FileFault,
    /// No file holds a section of the requested name.
    ServiceMissing,
    /// A parameter value was rejected.
    Param(ParamFault, Seq<char>),
}

/// The error that the service-file path reports for each fault.
pub open spec fn resolve_err_matches(f: ResolveFault, name: Seq<char>, e: PgConfigError) -> bool {
    match f {
        ResolveFault::FileNotFound => e is PgServiceFileNotFound,
        ResolveFault::FileFault => e is PgServiceFileError,
        ResolveFault::ServiceMissing => e matches PgConfigError::PgServiceNotFound(s) && s@
            == name,
        ResolveFault::Param(pf, v) => param_err_matches(pf, v, e),
    }
}

/// The outcome of consulting one service file: the new descriptor state
/// and whether the section was found, or a fault with the state reached.
pub open spec fn spec_file_result(
    p: ParamsView,
    file: FileStatusView,
    name: Seq<char>,
) -> Result<(ParamsView, bool), (ResolveFault, ParamsView)> {
    match file {
        FileStatusView::Absent => Ok((p, false)),
        FileStatusView::Missing => Err((ResolveFault::FileNotFound, p)),
        FileStatusView::Contents(text) => match ini_section_params(text, name) {
            None => Err((ResolveFault::FileFault, p)),
            Some(None) => Ok((p, false)),
            Some(Some(items)) => match spec_apply_list(p, items) {
                Ok(q) => Ok((q, true)),
                Err((f, v, q)) => Err((ResolveFault::Param(f, v), q)),
            },
        },
    }
}

/// Consult one service file, as [`spec_file_result`] states it.
fn get_service_params(p: &mut ConnectParams, file: &FileStatus, name: &str) -> (r: Result<
    bool,
    PgConfigError,
>)
    ensures
        match spec_file_result(old(p)@, file@, name@) {
            Ok((q, found)) => r == Ok::<bool, PgConfigError>(found) && final(p)@ == q,
            Err((f, q)) => final(p)@ == q && (r matches Err(e) && resolve_err_matches(
                f,
                name@,
                e,
            )),
        },
{
    match file {
        FileStatus::Absent => Ok(false),
        FileStatus::Missing => Err(PgConfigError::PgServiceFileNotFound),
        FileStatus::Contents(text) => {
            match parse_service_section(text.as_str(), name) {
                None => Err(
                    PgConfigError::PgServiceFileError(
                        "service file is not well-formed INI".to_owned(),
                    ),
                ),
                Some(None) => Ok(false),
                Some(Some(items)) => {
                    apply_parameters(p, &items)?;
                    Ok(true)
                },
            }
        },
    }
}

/// The outcome of resolving a service name against both files: the user
/// file is consulted first and, only when it holds no matching section,
/// the system file; finding the section in neither is a fault.
pub open spec fn spec_service_result(
    p: ParamsView,
    user: FileStatusView,
    sysconf: FileStatusView,
    name: Seq<char>,
) -> Result<ParamsView, (ResolveFault, ParamsView)> {
    match spec_file_result(p, user, name) {
        Err(e) => Err(e),
        Ok((q, true)) => Ok(q),
        Ok((q, false)) => match spec_file_result(q, sysconf, name) {
            Err(e) => Err(e),
            Ok((q2, true)) => Ok(q2),
            Ok((q2, false)) => Err((ResolveFault::ServiceMissing, q2)),
        },
    }
}

/// Merge the named service block into the descriptor, as
/// [`spec_service_result`] states it.
pub fn load_config_from_service(
    p: &mut ConnectParams,
    name: &str,
    files: &ServiceFiles,
) -> (r: Result<(), PgConfigError>)
    ensures
        match spec_service_result(old(p)@, files.user@, files.sysconf@, name@) {
            Ok(q) => r is Ok && final(p)@ == q,
            Err((f, q)) => final(p)@ == q && (r matches Err(e) && resolve_err_matches(
                f,
                name@,
                e,
            )),
        },
{
    let found = get_service_params(p, &files.user, name)?;
    if found {
        return Ok(());
    }
    let found = get_service_params(p, &files.sysconf, name)?;
    if found {
        Ok(())
    } else {
        Err(PgConfigError::PgServiceNotFound(name.to_owned()))
    }
}

// ---------------------------------------------------------------------------
// The connection plan
// ---------------------------------------------------------------------------
/// How a connection string and `PGSERVICE` decide what to resolve: which
/// service block to consult, and which string the driver parses for the
/// base parameters.
#[derive(Debug, Clone)]
pub struct ConnPlan {
    /// The service block to merge, if any.
    pub service: Option<String>,
    /// The string the connection-string parser reads, if any; `None`
    /// stands for an empty set of base parameters.
    pub conn_str: Option<String>,
}

/// The view of a [`ConnPlan`].
#[verifier::ext_equal]
pub struct ConnPlanView {
    pub service: Option<Seq<char>>,
    pub conn_str: Option<Seq<char>>,
}

impl View for ConnPlan {
    type V = ConnPlanView;

    open spec fn view(&self) -> ConnPlanView {
        ConnPlanView {
            service: match &self.service {
                Some(s) => Some(s@),
                None => None,
            },
            conn_str: match &self.conn_str {
                Some(s) => Some(s@),
                None => None,
            },
        }
    }
}

/// The position of the first whitespace character, if any.
pub open spec fn spec_first_space(s: Seq<char>) -> Option<int>
    decreases s.len(),
{
    if s.len() == 0 {
        None
    } else if crate::strutil::is_space(s[0]) {
        Some(0)
    } else {
        match spec_first_space(s.drop_first()) {
            Some(i) => Some(i + 1),
            None => None,
        }
    }
}

proof fn lemma_first_space_at(s: Seq<char>, i: int)
    requires
        0 <= i <= s.len(),
        forall|j: int| 0 <= j < i ==> !crate::strutil::is_space(#[trigger] s[j]),
        i < s.len() ==> crate::strutil::is_space(s[i]),
    ensures
        spec_first_space(s) == (if i < s.len() {
            Some(i)
        } else {
            None::<int>
        }),
    decreases i,
{
    if i == 0 {
        if s.len() > 0 {
        } else {
        }
    } else {
        assert(!crate::strutil::is_space(s[0]));
        assert(s.drop_first() =~= s.subrange(1, s.len() as int));
        lemma_first_space_at(s.drop_first(), i - 1);
    }
}

/// The plan for a connection string that begins, after leading
/// whitespace, with `service=`: the service name runs to the first
/// whitespace; what follows, trimmed, is the rest of the connection
/// string, dropped entirely when empty.
pub open spec fn spec_plan_for_service_str(t: Seq<char>) -> ConnPlanView {
    let tail = t.subrange(8, t.len() as int);
    let split = match spec_first_space(tail) {
        Some(i) => (tail.subrange(0, i), tail.subrange(i + 1, tail.len() as int)),
        None => (tail, Seq::<char>::empty()),
    };
    let rest = spec_trim_end(spec_trim_start(split.1, true, ' '));
    ConnPlanView {
        service: Some(split.0),
        conn_str: if rest.len() == 0 {
            None
        } else {
            Some(rest)
        },
    }
}

/// The plan for a connection string and the `PGSERVICE` variable.
pub open spec fn spec_conn_plan(
    conn: Option<Seq<char>>,
    pgservice: Option<Seq<char>>,
) -> ConnPlanView {
    match conn {
        Some(s) => {
            let t = spec_trim_start(s, true, ' ');
            if spec_starts_with(t, "service="@) {
                spec_plan_for_service_str(t)
            } else {
                ConnPlanView { service: pgservice, conn_str: Some(t) }
            }
        },
        None => ConnPlanView { service: pgservice, conn_str: None },
    }
}

/// Decide which service block and which connection string the resolution
/// uses, as [`spec_conn_plan`] states it.
pub fn conn_plan(conn: Option<&str>, pgservice: Option<&String>) -> (r: ConnPlan)
    ensures
        r@ == spec_conn_plan(
            match conn {
                Some(s) => Some(s@),
                None => None,
            },
            match pgservice {
                Some(s) => Some(s@),
                None => None,
            },
        ),
{
    match conn {
        None => {
            let r = ConnPlan {
                service: match pgservice {
                    Some(s) => Some(s.clone()),
                    None => None,
                },
                conn_str: None,
            };
            proof {
                assert(r@ =~= spec_conn_plan(
                    None,
                    match pgservice {
                        Some(s) => Some(s@),
                        None => None,
                    },
                ));
            }
            r
        },
        Some(s) => {
            let t = trim_start_spaces(s);
            if starts_with_str(t, "service=") {
                proof {
                    reveal_strlit("service=");
                }
                let n = t.unicode_len();
                let tail = t.substring_char(8, n);
                let m = tail.unicode_len();
                let found = find_from(tail, 0, true, ' ');
                proof {
                    match found {
                        Some(i) => {
                            lemma_first_space_at(tail@, i as int);
                        },
                        None => {
                            lemma_first_space_at(tail@, tail@.len() as int);
                        },
                    }
                }
                let (name, rest) = match found {
                    Some(i) => (substring_owned(tail, 0, i), tail.substring_char(i + 1, m)),
                    None => (tail.to_owned(), ""),
                };
                let rest = trim_spaces(rest);
                let r = ConnPlan {
                    service: Some(name),
                    conn_str: if rest.unicode_len() == 0 {
                        None
                    } else {
                        Some(rest.to_owned())
                    },
                };
                proof {
                    let tv = spec_trim_start(s@, true, ' ');
                    let tailv = tv.subrange(8, tv.len() as int);
                    assert(tail@ == tailv);
                    let target = spec_plan_for_service_str(tv);
                    match found {
                        Some(i) => {
                            assert(name@ == tailv.subrange(0, i as int));
                        },
                        None => {
                            reveal_strlit("");
                            assert(""@ =~= Seq::<char>::empty());
                        },
                    }
                    assert(r@ =~= target);
                    assert(target == spec_conn_plan(
                        Some(s@),
                        match pgservice {
                            Some(ps) => Some(ps@),
                            None => None,
                        },
                    ));
                }
                r
            } else {
                let r = ConnPlan {
                    service: match pgservice {
                        Some(ps) => Some(ps.clone()),
                        None => None,
                    },
                    conn_str: Some(t.to_owned()),
                };
                proof {
                    assert(r@ =~= spec_conn_plan(
                        Some(s@),
                        match pgservice {
                            Some(ps) => Some(ps@),
                            None => None,
                        },
                    ));
                }
                r
            }
        },
    }
}

/// The outcome of the whole resolution after the base parameters stand:
/// the service block (when one is named), then the environment.
pub open spec fn spec_apply_sources(
    p: ParamsView,
    service: Option<Seq<char>>,
    user: FileStatusView,
    sysconf: FileStatusView,
    env: PgEnvView,
) -> Result<ParamsView, (ResolveFault, ParamsView)> {
    let after_service = match service {
        Some(name) => spec_service_result(p, user, sysconf, name),
        None => Ok(p),
    };
    match after_service {
        Err(e) => Err(e),
        Ok(q) => match spec_apply_list(q, env_items(env)) {
            Ok(q2) => Ok(q2),
            Err((f, v, q2)) => Err((ResolveFault::Param(f, v), q2)),
        },
    }
}

/// Merge the service block named by the plan, then the environment, into
/// the descriptor, as [`spec_apply_sources`] states it. The service name
/// is reported inside `PgServiceNotFound` when no file holds its block.
pub fn apply_sources(
    p: &mut ConnectParams,
    service: Option<&String>,
    files: &ServiceFiles,
    env: &PgEnv,
) -> (r: Result<(), PgConfigError>)
    ensures
        match spec_apply_sources(
            old(p)@,
            match service {
                Some(s) => Some(s@),
                None => None,
            },
            files.user@,
            files.sysconf@,
            env@,
        ) {
            Ok(q) => r is Ok && final(p)@ == q,
            Err((f, q)) => final(p)@ == q && (r matches Err(e) && resolve_err_matches(
                f,
                match service {
                    Some(s) => s@,
                    None => Seq::empty(),
                },
                e,
            )),
        },
{
    match service {
        Some(name) => {
            load_config_from_service(p, name.as_str(), files)?;
        },
        None => {},
    }
    load_config_from_env(p, env)
}

} // verus!
