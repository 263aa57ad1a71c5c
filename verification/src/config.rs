//! Configuration loading: the TOML text is parsed by the `toml` crate, and
//! everything after that — walking the document, checking the schema,
//! assigning ids in declaration order, merging the global environment into
//! each service — is verified against a model of the document.
//!
//! The document model (`TomlModel`) abstracts a parsed TOML value; the two
//! uninterpreted functions `toml_document` and `value_model` name what the
//! `toml` crate produces, and the thin trusted wrappers below relate each
//! `toml::Value` accessor to that model.  The whole schema validation is
//! then ordinary verified code over the model.

use vstd::prelude::*;
use crate::registry::{ServiceConfiguration, ConfigView, Service, Registry, spec_initial_record, clone_env_entries};

verus! {

/// Why a configuration document was rejected.  The loader validates the
/// whole document against the typed schema and reports the first offence
/// in document order; no input makes it panic.
#[derive(Clone, Copy, PartialEq, Eq, Structural, Debug)]
pub enum ConfigError {
    /// The text is not valid TOML.
    Syntax,
    /// The document root is not a table.
    RootNotTable,
    /// The `envs` key exists but is not a table.
    GlobalEnvsNotTable,
    /// A global environment value is not a string.
    GlobalEnvNotString,
    /// The `services` key exists but is not a table.
    ServicesNotTable,
    /// A service entry is not a table.
    ServiceNotTable,
    /// A service lacks the required `cmd` key.
    CommandMissing,
    /// A service's `cmd` is not a string.
    CommandNotString,
    /// A service's `args` is not an array.
    ArgsNotArray,
    /// A service argument is not a string.
    ArgNotString,
    /// A service's `envs` is not a table.
    EnvsNotTable,
    /// A service-local environment value is not a string.
    EnvNotString,
    /// A service's `wd` is not a string.
    WorkingDirNotString,
    /// A service's `max_restarts` is not an integer.
    MaxRestartsNotInteger,
    /// A service's `max_restarts` is negative.
    MaxRestartsNegative,
    /// A service's `max_restarts` does not fit the machine's word.
    MaxRestartsTooLarge,
    /// A service's `restart_on_success` is not a boolean.
    RestartOnSuccessNotBool,
    /// A service's `expo_backoff` is not a boolean.
    ExpoBackoffNotBool,
    /// A service's `proxy` is not a string.
    ProxyNotString,
}

/// Model of a parsed TOML value: what the schema reads from it.  Tables
/// keep their entries in declaration order; floats and datetimes, which the
/// schema rejects wherever it looks, are modelled as `Other`.
pub enum TomlModel {
    Str(Seq<char>),
    Int(i64),
    Bool(bool),
    Arr(Seq<TomlModel>),
    Table(Seq<(Seq<char>, TomlModel)>),
    Other,
}

#[verifier::external_type_specification]
#[verifier::external_body]
pub struct ExTomlValue(toml::Value);

/// The value the `toml` crate parses the given text to, if any: `None`
/// exactly when the text is rejected as TOML.
pub uninterp spec fn toml_document(text: Seq<char>) -> Option<TomlModel>;

/// The model of one parsed `toml::Value`.
pub uninterp spec fn value_model(v: toml::Value) -> TomlModel;

/// Relies on `<toml::Table as FromStr>::from_str`: parsing a TOML document
/// into its root table, a pure function of the text alone; the parse error
/// is folded to `Syntax`.
#[verifier::external_body]
fn parse_toml(text: &str) -> (r: Result<toml::Value, ConfigError>)
    ensures
        match r {
            Ok(v) => toml_document(text@) == Some(value_model(v)),
            Err(e) => toml_document(text@) is None && e == ConfigError::Syntax,
        },
{
    match text.parse::<toml::Table>() {
        Ok(t) => Ok(toml::Value::Table(t)),
        Err(_) => Err(ConfigError::Syntax),
    }
}

/// Relies on `toml::Value::as_str`: `Some` exactly on `Value::String`.
#[verifier::external_body]
fn value_as_str(v: &toml::Value) -> (r: Option<String>)
    ensures
        match r {
            Some(s) => value_model(*v) == TomlModel::Str(s@),
            None => !(value_model(*v) is Str),
        },
{
    v.as_str().map(|s| s.to_owned())
}

/// Relies on `toml::Value::as_integer`: `Some` exactly on `Value::Integer`.
#[verifier::external_body]
fn value_as_integer(v: &toml::Value) -> (r: Option<i64>)
    ensures
        match r {
            Some(n) => value_model(*v) == TomlModel::Int(n),
            None => !(value_model(*v) is Int),
        },
{
    v.as_integer()
}

/// Relies on `toml::Value::as_bool`: `Some` exactly on `Value::Boolean`.
#[verifier::external_body]
fn value_as_bool(v: &toml::Value) -> (r: Option<bool>)
    ensures
        match r {
            Some(b) => value_model(*v) == TomlModel::Bool(b),
            None => !(value_model(*v) is Bool),
        },
{
    v.as_bool()
}

/// Relies on `toml::Value::as_array`: `Some` exactly on `Value::Array`,
/// with the elements in order.
#[verifier::external_body]
fn value_as_array(v: &toml::Value) -> (r: Option<Vec<toml::Value>>)
    ensures
        match r {
            Some(a) => value_model(*v) == TomlModel::Arr(
                a@.map_values(|x: toml::Value| value_model(x)),
            ),
            None => !(value_model(*v) is Arr),
        },
{
    v.as_array().cloned()
}

/// Relies on `toml::Value::as_table` and `toml::map::Map::iter`: `Some`
/// exactly on `Value::Table`, with the entries in the map's order — the
/// document's declaration order, as the map preserves insertion order.
#[verifier::external_body]
fn value_entries(v: &toml::Value) -> (r: Option<Vec<(String, toml::Value)>>)
    ensures
        match r {
            Some(es) => value_model(*v) == TomlModel::Table(
                es@.map_values(|p: (String, toml::Value)| (p.0@, value_model(p.1))),
            ),
            None => !(value_model(*v) is Table),
        },
{
    v.as_table().map(|t| t.iter().map(|(k, x)| (k.clone(), x.clone())).collect())
}

/// First binding of `key` in a table's entries, in declaration order.
pub open spec fn table_lookup(entries: Seq<(Seq<char>, TomlModel)>, key: Seq<char>)
    -> Option<TomlModel>
    decreases entries.len(),
{
    if entries.len() == 0 {
        None
    } else if entries[0].0 == key {
        Some(entries[0].1)
    } else {
        table_lookup(entries.drop_first(), key)
    }
}

proof fn lemma_table_lookup_prefix(entries: Seq<(Seq<char>, TomlModel)>, key: Seq<char>, i: int)
    requires
        0 <= i <= entries.len(),
        forall|j: int| 0 <= j < i ==> entries[j].0 != key,
    ensures
        table_lookup(entries, key) == table_lookup(entries.skip(i), key),
    decreases i,
{
    if i == 0 {
        assert(entries.skip(0) =~= entries);
    } else {
        lemma_table_lookup_prefix(entries, key, i - 1);
        assert(entries.skip(i - 1)[0] == entries[i - 1]);
        assert(entries.skip(i - 1).drop_first() =~= entries.skip(i));
    }
}

/// The strings of an all-string array; `ArgNotString` as soon as any
/// element is not a string.
pub open spec fn spec_str_list(arr: Seq<TomlModel>) -> Result<Seq<Seq<char>>, ConfigError> {
    if forall|i: int| 0 <= i < arr.len() ==> arr[i] is Str {
        Ok(Seq::new(arr.len(), |i: int| arr[i]->Str_0))
    } else {
        Err(ConfigError::ArgNotString)
    }
}

/// The key-value pairs of an all-string table; `err` as soon as any value
/// is not a string.
pub open spec fn spec_env_list(entries: Seq<(Seq<char>, TomlModel)>, err: ConfigError)
    -> Result<Seq<(Seq<char>, Seq<char>)>, ConfigError>
{
    if forall|i: int| 0 <= i < entries.len() ==> entries[i].1 is Str {
        Ok(Seq::new(entries.len(), |i: int| (entries[i].0, entries[i].1->Str_0)))
    } else {
        Err(err)
    }
}

/// One service's specification read from its table, before the id and the
/// global environment are applied: the required `cmd`, then `args`, `envs`,
/// `wd`, `max_restarts`, `restart_on_success` (on by default),
/// `expo_backoff` (off by default) and `proxy`, each either absent, of its
/// declared type, or the first offence in that fixed order.
pub open spec fn spec_service_from(name: Seq<char>, m: TomlModel)
    -> Result<ConfigView, ConfigError>
{
    if !(m is Table) {
        Err(ConfigError::ServiceNotTable)
    } else {
        let t = m->Table_0;
        let cmd_r = match table_lookup(t, "cmd"@) {
            None => Err(ConfigError::CommandMissing),
            Some(c) => if c is Str {
                Ok(c->Str_0)
            } else {
                Err(ConfigError::CommandNotString)
            },
        };
        let args_r = match table_lookup(t, "args"@) {
            None => Ok(Seq::<Seq<char>>::empty()),
            Some(a) => if a is Arr {
                spec_str_list(a->Arr_0)
            } else {
                Err(ConfigError::ArgsNotArray)
            },
        };
        let envs_r = match table_lookup(t, "envs"@) {
            None => Ok(Seq::<(Seq<char>, Seq<char>)>::empty()),
            Some(ev) => if ev is Table {
                spec_env_list(ev->Table_0, ConfigError::EnvNotString)
            } else {
                Err(ConfigError::EnvsNotTable)
            },
        };
        let wd_r = match table_lookup(t, "wd"@) {
            None => Ok(None),
            Some(w) => if w is Str {
                Ok(Some(w->Str_0))
            } else {
                Err(ConfigError::WorkingDirNotString)
            },
        };
        let mr_r = match table_lookup(t, "max_restarts"@) {
            None => Ok(None),
            Some(x) => if x is Int {
                if x->Int_0 < 0 {
                    Err(ConfigError::MaxRestartsNegative)
                } else if x->Int_0 > usize::MAX {
                    Err(ConfigError::MaxRestartsTooLarge)
                } else {
                    Ok(Some(x->Int_0 as int))
                }
            } else {
                Err(ConfigError::MaxRestartsNotInteger)
            },
        };
        let ros_r = match table_lookup(t, "restart_on_success"@) {
            None => Ok(true),
            Some(b) => if b is Bool {
                Ok(b->Bool_0)
            } else {
                Err(ConfigError::RestartOnSuccessNotBool)
            },
        };
        let eb_r = match table_lookup(t, "expo_backoff"@) {
            None => Ok(false),
            Some(b) => if b is Bool {
                Ok(b->Bool_0)
            } else {
                Err(ConfigError::ExpoBackoffNotBool)
            },
        };
        let proxy_r = match table_lookup(t, "proxy"@) {
            None => Ok(None),
            Some(p) => if p is Str {
                Ok(Some(p->Str_0))
            } else {
                Err(ConfigError::ProxyNotString)
            },
        };
        if cmd_r is Err {
            Err(cmd_r->Err_0)
        } else if args_r is Err {
            Err(args_r->Err_0)
        } else if envs_r is Err {
            Err(envs_r->Err_0)
        } else if wd_r is Err {
            Err(wd_r->Err_0)
        } else if mr_r is Err {
            Err(mr_r->Err_0)
        } else if ros_r is Err {
            Err(ros_r->Err_0)
        } else if eb_r is Err {
            Err(eb_r->Err_0)
        } else if proxy_r is Err {
            Err(proxy_r->Err_0)
        } else {
            Ok(ConfigView {
                id: 0,
                name: name,
                args: args_r->Ok_0,
                envs: envs_r->Ok_0,
                wd: wd_r->Ok_0,
                cmd: cmd_r->Ok_0,
                max_restarts: mr_r->Ok_0,
                restart_on_success: ros_r->Ok_0,
                expo_backoff: eb_r->Ok_0,
                proxy: proxy_r->Ok_0,
            })
        }
    }
}

/// The specification as it enters the registry: its id, and the global
/// environment appended after the service-local entries, so that a global
/// key takes effect without discarding a colliding local entry.
pub open spec fn spec_with_id_and_globals(
    c: ConfigView,
    id: int,
    globals: Seq<(Seq<char>, Seq<char>)>,
) -> ConfigView {
    ConfigView { id: id, envs: c.envs + globals, ..c }
}

/// The declared services in declaration order, each validated and given
/// its id; the first failing entry's error, if any.
pub open spec fn spec_services_list(
    entries: Seq<(Seq<char>, TomlModel)>,
    globals: Seq<(Seq<char>, Seq<char>)>,
) -> Result<Seq<ConfigView>, ConfigError>
    decreases entries.len(),
{
    if entries.len() == 0 {
        Ok(Seq::<ConfigView>::empty())
    } else {
        match spec_services_list(entries.drop_last(), globals) {
            Err(e) => Err(e),
            Ok(pre) => match spec_service_from(entries.last().0, entries.last().1) {
                Err(e) => Err(e),
                Ok(c) => Ok(pre.push(spec_with_id_and_globals(c, pre.len() as int, globals))),
            },
        }
    }
}

proof fn lemma_services_list_err(
    entries: Seq<(Seq<char>, TomlModel)>,
    globals: Seq<(Seq<char>, Seq<char>)>,
    k: int,
    e: ConfigError,
)
    requires
        0 <= k < entries.len(),
        spec_services_list(entries.take(k), globals) is Ok,
        spec_service_from(entries[k].0, entries[k].1) == Err::<ConfigView, ConfigError>(e),
    ensures
        spec_services_list(entries, globals) == Err::<Seq<ConfigView>, ConfigError>(e),
    decreases entries.len(),
{
    if k == entries.len() - 1 {
        assert(entries.take(k) =~= entries.drop_last());
        assert(entries.last() == entries[k]);
    } else {
        assert(entries.drop_last().take(k) =~= entries.take(k));
        assert(entries.drop_last()[k] == entries[k]);
        lemma_services_list_err(entries.drop_last(), globals, k, e);
    }
}

/// The whole document: the global environment table (empty when absent),
/// then the service table (empty when absent), in that checking order.
pub open spec fn spec_from_model(m: TomlModel) -> Result<Seq<ConfigView>, ConfigError> {
    if !(m is Table) {
        Err(ConfigError::RootNotTable)
    } else {
        let root = m->Table_0;
        let genvs_r = match table_lookup(root, "envs"@) {
            None => Ok(Seq::<(Seq<char>, Seq<char>)>::empty()),
            Some(ev) => if ev is Table {
                spec_env_list(ev->Table_0, ConfigError::GlobalEnvNotString)
            } else {
                Err(ConfigError::GlobalEnvsNotTable)
            },
        };
        match genvs_r {
            Err(e) => Err(e),
            Ok(globals) => match table_lookup(root, "services"@) {
                None => Ok(Seq::<ConfigView>::empty()),
                Some(sv) => if sv is Table {
                    spec_services_list(sv->Table_0, globals)
                } else {
                    Err(ConfigError::ServicesNotTable)
                },
            },
        }
    }
}

/// Look a key up among a table's entries: the first binding in declaration
/// order, as `table_lookup` describes.
fn lookup<'a>(entries: &'a Vec<(String, toml::Value)>, key: &String)
    -> (r: Option<&'a toml::Value>)
    ensures
        ({
            let em = entries@.map_values(|p: (String, toml::Value)| (p.0@, value_model(p.1)));
            match r {
                Some(v) => table_lookup(em, key@) == Some(value_model(*v)),
                None => table_lookup(em, key@) is None,
            }
        }),
{
    let ghost em = entries@.map_values(|p: (String, toml::Value)| (p.0@, value_model(p.1)));
    let mut i: usize = 0;
    while i < entries.len()
        invariant
            em == entries@.map_values(|p: (String, toml::Value)| (p.0@, value_model(p.1))),
            i <= entries@.len(),
            forall|j: int| 0 <= j < i ==> em[j].0 != key@,
        decreases entries@.len() - i,
    {
        if entries[i].0 == *key {
            proof {
                lemma_table_lookup_prefix(em, key@, i as int);
                assert(em.skip(i as int)[0] == em[i as int]);
            }
            return Some(&entries[i].1);
        }
        proof {
            assert(em[i as int].0 == entries@[i as int].0@);
        }
        i = i + 1;
    }
    proof {
        lemma_table_lookup_prefix(em, key@, em.len() as int);
        assert(em.skip(em.len() as int) =~= Seq::<(Seq<char>, TomlModel)>::empty());
    }
    None
}

/// Read an all-string table into owned key-value pairs.
fn env_list(entries: &Vec<(String, toml::Value)>, err: ConfigError)
    -> (r: Result<Vec<(String, String)>, ConfigError>)
    ensures
        ({
            let em = entries@.map_values(|p: (String, toml::Value)| (p.0@, value_model(p.1)));
            match r {
                Ok(es) => spec_env_list(em, err)
                    == Ok::<_, ConfigError>(es@.map_values(|p: (String, String)| (p.0@, p.1@))),
                Err(e) => spec_env_list(em, err) == Err::<Seq<(Seq<char>, Seq<char>)>, _>(e),
            }
        }),
{
    let ghost em = entries@.map_values(|p: (String, toml::Value)| (p.0@, value_model(p.1)));
    let mut out: Vec<(String, String)> = Vec::new();
    let mut i: usize = 0;
    while i < entries.len()
        invariant
            em == entries@.map_values(|p: (String, toml::Value)| (p.0@, value_model(p.1))),
            i <= entries@.len(),
            out@.len() == i,
            forall|j: int| 0 <= j < i ==> em[j].1 is Str,
            forall|j: int| 0 <= j < i
                ==> (out@[j].0@, out@[j].1@) == (em[j].0, em[j].1->Str_0),
        decreases entries@.len() - i,
    {
        match value_as_str(&entries[i].1) {
            Some(s) => {
                let key = entries[i].0.clone();
                out.push((key, s));
            },
            None => {
                proof {
                    assert(em[i as int].1 == value_model(entries@[i as int].1));
                    assert(!(em[i as int].1 is Str));
                }
                return Err(err);
            },
        }
        i = i + 1;
    }
    proof {
        assert(forall|j: int| 0 <= j < em.len() ==> em[j].1 is Str);
        assert(out@.map_values(|p: (String, String)| (p.0@, p.1@))
            =~= Seq::new(em.len(), |j: int| (em[j].0, em[j].1->Str_0)));
    }
    Ok(out)
}

/// Read an all-string array into owned strings.
fn str_list(arr: &Vec<toml::Value>) -> (r: Result<Vec<String>, ConfigError>)
    ensures
        ({
            let am = arr@.map_values(|x: toml::Value| value_model(x));
            match r {
                Ok(ss) => spec_str_list(am)
                    == Ok::<_, ConfigError>(ss@.map_values(|s: String| s@)),
                Err(e) => spec_str_list(am) == Err::<Seq<Seq<char>>, _>(e),
            }
        }),
{
    let ghost am = arr@.map_values(|x: toml::Value| value_model(x));
    let mut out: Vec<String> = Vec::new();
    let mut i: usize = 0;
    while i < arr.len()
        invariant
            am == arr@.map_values(|x: toml::Value| value_model(x)),
            i <= arr@.len(),
            out@.len() == i,
            forall|j: int| 0 <= j < i ==> am[j] is Str,
            forall|j: int| 0 <= j < i ==> out@[j]@ == am[j]->Str_0,
        decreases arr@.len() - i,
    {
        match value_as_str(&arr[i]) {
            Some(s) => {
                out.push(s);
            },
            None => {
                proof {
                    assert(am[i as int] == value_model(arr@[i as int]));
                }
                return Err(ConfigError::ArgNotString);
            },
        }
        i = i + 1;
    }
    proof {
        assert(forall|j: int| 0 <= j < am.len() ==> am[j] is Str);
        assert(out@.map_values(|s: String| s@)
            =~= Seq::new(am.len(), |j: int| am[j]->Str_0));
    }
    Ok(out)
}

/// Validate one service's table, with its id still unassigned and its
/// environment still the local one.
fn parse_service_entry(name: String, v: &toml::Value)
    -> (r: Result<ServiceConfiguration, ConfigError>)
    ensures
        match r {
            Ok(c) => spec_service_from(name@, value_model(*v)) == Ok::<_, ConfigError>(c@),
            Err(e) => spec_service_from(name@, value_model(*v)) == Err::<ConfigView, _>(e),
        },
{
    let entries = match value_entries(v) {
        Some(es) => es,
        None => {
            return Err(ConfigError::ServiceNotTable);
        },
    };
    let ghost em = entries@.map_values(|p: (String, toml::Value)| (p.0@, value_model(p.1)));

    let cmd = match lookup(&entries, &("cmd".to_owned())) {
        None => {
            return Err(ConfigError::CommandMissing);
        },
        Some(c) => match value_as_str(c) {
            Some(s) => s,
            None => {
                return Err(ConfigError::CommandNotString);
            },
        },
    };
    let args = match lookup(&entries, &("args".to_owned())) {
        None => Vec::new(),
        Some(a) => match value_as_array(a) {
            None => {
                return Err(ConfigError::ArgsNotArray);
            },
            Some(elems) => match str_list(&elems) {
                Ok(ss) => ss,
                Err(e) => {
                    return Err(e);
                },
            },
        },
    };
    let envs = match lookup(&entries, &("envs".to_owned())) {
        None => Vec::new(),
        Some(ev) => match value_entries(ev) {
            None => {
                return Err(ConfigError::EnvsNotTable);
            },
            Some(ees) => match env_list(&ees, ConfigError::EnvNotString) {
                Ok(es) => es,
                Err(e) => {
                    return Err(e);
                },
            },
        },
    };
    let wd = match lookup(&entries, &("wd".to_owned())) {
        None => None,
        Some(w) => match value_as_str(w) {
            Some(s) => Some(s),
            None => {
                return Err(ConfigError::WorkingDirNotString);
            },
        },
    };
    let max_restarts = match lookup(&entries, &("max_restarts".to_owned())) {
        None => None,
        Some(x) => match value_as_integer(x) {
            None => {
                return Err(ConfigError::MaxRestartsNotInteger);
            },
            Some(n) => {
                if n < 0 {
                    return Err(ConfigError::MaxRestartsNegative);
                }
                if n as u64 > usize::MAX as u64 {
                    return Err(ConfigError::MaxRestartsTooLarge);
                }
                Some(n as usize)
            },
        },
    };
    let restart_on_success = match lookup(&entries, &("restart_on_success".to_owned())) {
        None => true,
        Some(b) => match value_as_bool(b) {
            Some(x) => x,
            None => {
                return Err(ConfigError::RestartOnSuccessNotBool);
            },
        },
    };
    let expo_backoff = match lookup(&entries, &("expo_backoff".to_owned())) {
        None => false,
        Some(b) => match value_as_bool(b) {
            Some(x) => x,
            None => {
                return Err(ConfigError::ExpoBackoffNotBool);
            },
        },
    };
    let proxy = match lookup(&entries, &("proxy".to_owned())) {
        None => None,
        Some(p) => match value_as_str(p) {
            Some(s) => Some(s),
            None => {
                return Err(ConfigError::ProxyNotString);
            },
        },
    };
    let c = ServiceConfiguration {
        id: 0,
        name,
        args,
        envs,
        wd,
        cmd,
        max_restarts,
        restart_on_success,
        expo_backoff,
        proxy,
    };
    proof {
        assert(c@.args =~= spec_service_from(c.name@, value_model(*v))->Ok_0.args);
        assert(c@ =~= spec_service_from(c.name@, value_model(*v))->Ok_0);
    }
    Ok(c)
}

impl ServiceConfiguration {
    /// Validate a parsed configuration document into the list of declared
    /// service specifications: ids `0..N-1` in declaration order, defaults
    /// applied, and the global environment merged after each service's own
    /// entries.
    pub fn from_toml(config: &toml::Value) -> (r: Result<Vec<ServiceConfiguration>, ConfigError>)
        ensures
            ({
                let sm = spec_from_model(value_model(*config));
                match r {
                    Ok(specs) => sm matches Ok(views)
                        && views == specs@.map_values(|c: ServiceConfiguration| c@),
                    Err(e) => sm == Err::<Seq<ConfigView>, ConfigError>(e),
                }
            }),
    {
        let root = match value_entries(config) {
            Some(es) => es,
            None => {
                return Err(ConfigError::RootNotTable);
            },
        };
        let ghost rm = root@.map_values(|p: (String, toml::Value)| (p.0@, value_model(p.1)));

        let globals: Vec<(String, String)> = match lookup(&root, &("envs".to_owned())) {
            None => Vec::new(),
            Some(ev) => match value_entries(ev) {
                None => {
                    return Err(ConfigError::GlobalEnvsNotTable);
                },
                Some(ees) => match env_list(&ees, ConfigError::GlobalEnvNotString) {
                    Ok(es) => es,
                    Err(e) => {
                        return Err(e);
                    },
                },
            },
        };
        let ghost gm = globals@.map_values(|p: (String, String)| (p.0@, p.1@));

        let services = match lookup(&root, &("services".to_owned())) {
            None => {
                let empty: Vec<ServiceConfiguration> = Vec::new();
                proof {
                    assert(empty@.map_values(|c: ServiceConfiguration| c@)
                        =~= Seq::<ConfigView>::empty());
                }
                return Ok(empty);
            },
            Some(sv) => match value_entries(sv) {
                None => {
                    return Err(ConfigError::ServicesNotTable);
                },
                Some(ses) => ses,
            },
        };
        let ghost sm = services@.map_values(|p: (String, toml::Value)| (p.0@, value_model(p.1)));

        proof {
            if table_lookup(rm, "envs"@) is None {
                assert(gm =~= Seq::<(Seq<char>, Seq<char>)>::empty());
            }
            assert(spec_from_model(value_model(*config)) == spec_services_list(sm, gm));
        }

        let mut out: Vec<ServiceConfiguration> = Vec::new();
        let mut i: usize = 0;
        proof {
            assert(sm.take(0) =~= Seq::<(Seq<char>, TomlModel)>::empty());
            assert(out@.map_values(|c: ServiceConfiguration| c@) =~= Seq::<ConfigView>::empty());
        }
        while i < services.len()
            invariant
                sm == services@.map_values(|p: (String, toml::Value)| (p.0@, value_model(p.1))),
                gm == globals@.map_values(|p: (String, String)| (p.0@, p.1@)),
                spec_from_model(value_model(*config)) == spec_services_list(sm, gm),
                i <= services@.len(),
                out@.len() == i,
                spec_services_list(sm.take(i as int), gm)
                    == Ok::<_, ConfigError>(out@.map_values(|c: ServiceConfiguration| c@)),
            decreases services@.len() - i,
        {
            let (name, v) = &services[i];
            let mut c = match parse_service_entry(name.clone(), v) {
                Ok(c) => c,
                Err(e) => {
                    proof {
                        assert(sm[i as int]
                            == (services@[i as int].0@, value_model(services@[i as int].1)));
                        lemma_services_list_err(sm, gm, i as int, e);
                    }
                    return Err(e);
                },
            };
            let ghost c0 = c@;
            proof {
                assert(sm[i as int]
                    == (services@[i as int].0@, value_model(services@[i as int].1)));
                assert(spec_service_from(sm[i as int].0, sm[i as int].1)
                    == Ok::<ConfigView, ConfigError>(c0));
            }
            c.id = i;
            let mut g = clone_env_entries(&globals);
            c.envs.append(&mut g);
            let ghost cv = c@;
            let ghost prev = out@.map_values(|cc: ServiceConfiguration| cc@);
            out.push(c);
            proof {
                assert(cv.envs =~= c0.envs + gm);
                assert(cv =~= spec_with_id_and_globals(c0, i as int, gm));
                assert(sm.take(i + 1).drop_last() =~= sm.take(i as int));
                assert(sm.take(i + 1).last() == sm[i as int]);
                assert(spec_services_list(sm.take(i + 1), gm)
                    == Ok::<Seq<ConfigView>, ConfigError>(prev.push(cv)));
                assert(out@.map_values(|cc: ServiceConfiguration| cc@) =~= prev.push(cv));
            }
            i = i + 1;
        }
        proof {
            assert(sm.take(sm.len() as int) =~= sm);
        }
        Ok(out)
    }
}

impl Service {
    /// Load a configuration text: parse it as TOML, validate it, and build
    /// the registry of fresh records, one per declared service.
    pub fn init(config_text: &str) -> (r: Result<Registry, ConfigError>)
        ensures
            ({
                let doc = toml_document(config_text@);
                match r {
                    Ok(reg) => doc matches Some(m) && spec_from_model(m) matches Ok(views)
                        && reg@.len() == views.len()
                        && (forall|i: int| 0 <= i < views.len()
                            ==> reg@[i] == spec_initial_record(views[i]))
                        && (forall|i: int| 0 <= i < reg@.len()
                            ==> reg@[i].configuration.id == i),
                    Err(e) => (e == ConfigError::Syntax && doc is None)
                        || (doc matches Some(m)
                            && spec_from_model(m) == Err::<Seq<ConfigView>, ConfigError>(e)),
                }
            }),
    {
        let value = match parse_toml(config_text) {
            Ok(v) => v,
            Err(e) => {
                return Err(e);
            },
        };
        let specs = match ServiceConfiguration::from_toml(&value) {
            Ok(specs) => specs,
            Err(e) => {
                return Err(e);
            },
        };
        let ghost sv = specs@;
        let reg = Registry::new(specs);
        proof {
            let views = spec_from_model(value_model(value))->Ok_0;
            lemma_valid_config_ids(value_model(value), views);
            assert(forall|i: int| 0 <= i < sv.len() ==> #[trigger] sv[i]@ == views[i]);
            assert(forall|i: int| 0 <= i < reg@.len() ==> reg@[i].configuration.id == i);
        }
        Ok(reg)
    }
}

/// The effective value of `key` in an environment list where later entries
/// override earlier ones, as the spawner applies the list in order: the
/// last binding wins.
pub open spec fn env_value(envs: Seq<(Seq<char>, Seq<char>)>, key: Seq<char>)
    -> Option<Seq<char>>
    decreases envs.len(),
{
    if envs.len() == 0 {
        None
    } else if envs.last().0 == key {
        Some(envs.last().1)
    } else {
        env_value(envs.drop_last(), key)
    }
}

/// Whether any entry binds `key`.
pub open spec fn env_has_key(envs: Seq<(Seq<char>, Seq<char>)>, key: Seq<char>) -> bool {
    exists|i: int| 0 <= i < envs.len() && envs[i].0 == key
}

proof fn lemma_env_value_suffix_miss(envs: Seq<(Seq<char>, Seq<char>)>, key: Seq<char>, i: int)
    requires
        0 <= i <= envs.len(),
        forall|j: int| i <= j < envs.len() ==> envs[j].0 != key,
    ensures
        env_value(envs, key) == env_value(envs.take(i), key),
    decreases envs.len(),
{
    if i == envs.len() {
        assert(envs.take(i) =~= envs);
    } else {
        assert(envs.last().0 != key);
        assert(envs.drop_last().take(i) =~= envs.take(i));
        lemma_env_value_suffix_miss(envs.drop_last(), key, i);
    }
}

/// Look the effective value of `key` up in an environment list, later
/// entries overriding earlier ones.
pub fn effective_env_value(envs: &Vec<(String, String)>, key: &String) -> (r: Option<String>)
    ensures
        ({
            let em = envs@.map_values(|p: (String, String)| (p.0@, p.1@));
            match r {
                Some(v) => env_value(em, key@) == Some(v@),
                None => env_value(em, key@) is None,
            }
        }),
{
    let ghost em = envs@.map_values(|p: (String, String)| (p.0@, p.1@));
    let mut i: usize = envs.len();
    while i > 0
        invariant
            em == envs@.map_values(|p: (String, String)| (p.0@, p.1@)),
            i <= envs@.len(),
            forall|j: int| i <= j < em.len() ==> em[j].0 != key@,
        decreases i,
    {
        i = i - 1;
        if envs[i].0 == *key {
            proof {
                lemma_env_value_suffix_miss(em, key@, i + 1);
                assert(em.take(i + 1).last() == em[i as int]);
            }
            return Some(envs[i].1.clone());
        }
        proof {
            assert(em[i as int].0 == envs@[i as int].0@);
        }
    }
    proof {
        lemma_env_value_suffix_miss(em, key@, 0);
        assert(em.take(0) =~= Seq::<(Seq<char>, Seq<char>)>::empty());
    }
    None
}

/// Global environment entries take effect in every service's effective
/// environment: the merge puts them after the service-local entries, so
/// any key the globals bind resolves to the globals' binding — while a
/// colliding service-local entry stays in the merged list, never silently
/// discarded.  A key the globals do not bind keeps its local value.
pub proof fn lemma_env_merge(
    local: Seq<(Seq<char>, Seq<char>)>,
    globals: Seq<(Seq<char>, Seq<char>)>,
    key: Seq<char>,
)
    ensures
        env_has_key(globals, key)
            ==> env_value(local + globals, key) == env_value(globals, key),
        !env_has_key(globals, key)
            ==> env_value(local + globals, key) == env_value(local, key),
        (local + globals).len() == local.len() + globals.len(),
        forall|i: int| 0 <= i < local.len() ==> (local + globals)[i] == local[i],
    decreases globals.len(),
{
    if globals.len() == 0 {
        assert(local + globals =~= local);
        assert(!env_has_key(globals, key));
    } else {
        let merged = local + globals;
        assert(merged.last() == globals.last());
        if globals.last().0 == key {
            assert(env_has_key(globals, key)) by {
                assert(globals[globals.len() - 1].0 == key);
            };
        } else {
            lemma_env_merge(local, globals.drop_last(), key);
            assert(merged.drop_last() =~= local + globals.drop_last());
            if env_has_key(globals, key) {
                let w = choose|w: int| 0 <= w < globals.len() && globals[w].0 == key;
                assert(globals.drop_last()[w] == globals[w]);
                assert(env_has_key(globals.drop_last(), key));
            } else {
                assert(forall|w: int| 0 <= w < globals.len() - 1
                    ==> globals.drop_last()[w] == globals[w]);
                assert(!env_has_key(globals.drop_last(), key));
            }
        }
    }
}

/// For a valid configuration declaring N services, the validated list has
/// exactly N specifications, with ids `0..N-1` matching declaration order
/// and each specification's name that of its declared entry.
pub proof fn lemma_declared_services_numbered(
    entries: Seq<(Seq<char>, TomlModel)>,
    globals: Seq<(Seq<char>, Seq<char>)>,
    views: Seq<ConfigView>,
)
    requires
        spec_services_list(entries, globals) == Ok::<_, ConfigError>(views),
    ensures
        views.len() == entries.len(),
        forall|i: int| 0 <= i < views.len()
            ==> views[i].id == i && views[i].name == entries[i].0,
    decreases entries.len(),
{
    if entries.len() > 0 {
        let pre = spec_services_list(entries.drop_last(), globals)->Ok_0;
        lemma_declared_services_numbered(entries.drop_last(), globals, pre);
        assert(forall|i: int| 0 <= i < entries.len() - 1
            ==> entries.drop_last()[i] == entries[i]);
    }
}

/// Any document the loader accepts yields specifications whose ids are
/// `0..N-1` in declaration order — and so, through `Registry::new`, a
/// registry of exactly N records in that order.
pub proof fn lemma_valid_config_ids(m: TomlModel, views: Seq<ConfigView>)
    requires
        spec_from_model(m) == Ok::<Seq<ConfigView>, ConfigError>(views),
    ensures
        forall|i: int| 0 <= i < views.len() ==> views[i].id == i,
{
    let root = m->Table_0;
    match table_lookup(root, "services"@) {
        None => {
        },
        Some(sv) => {
            let entries = sv->Table_0;
            let globals = match table_lookup(root, "envs"@) {
                None => Seq::<(Seq<char>, Seq<char>)>::empty(),
                Some(ev) => spec_env_list(ev->Table_0, ConfigError::GlobalEnvNotString)->Ok_0,
            };
            lemma_declared_services_numbered(entries, globals, views);
        },
    }
}

} // verus!
