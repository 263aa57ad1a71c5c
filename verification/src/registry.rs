//! The data model: immutable service specifications, mutable runtime
//! records, and the registry — the fixed, ordered collection of all records,
//! built once at startup.  Membership never changes afterwards; only the
//! records' runtime fields do, and each mutator proves that it touches
//! exactly one record.

use vstd::prelude::*;

verus! {

/// Immutable, validated description of one managed program.
#[derive(Clone, Debug)]
pub struct ServiceConfiguration {
    /// Unique id, assigned as `0..N-1` in declaration order.
    pub id: usize,
    /// Display and log-file name.
    pub name: String,
    /// Arguments appended after any embedded in `cmd`.
    pub args: Vec<String>,
    /// Environment entries: the service-local ones first, then the global
    /// ones, so a global key overrides a local one without discarding it.
    pub envs: Vec<(String, String)>,
    /// Declared working directory; the supervisor's own when absent.
    pub wd: Option<String>,
    /// Either a path to an executable or a shell-style command line.
    pub cmd: String,
    /// Upper bound on restart attempts; unbounded if absent.
    pub max_restarts: Option<usize>,
    /// Whether an exit with code 0 still triggers a restart.
    pub restart_on_success: bool,
    /// Whether restart delays grow exponentially.
    pub expo_backoff: bool,
    /// Opaque routing target, consumed only by the proxy generator.
    pub proxy: Option<String>,
}

/// The mathematical value of a `ServiceConfiguration`.
#[verifier::ext_equal]
pub struct ConfigView {
    pub id: int,
    pub name: Seq<char>,
    pub args: Seq<Seq<char>>,
    pub envs: Seq<(Seq<char>, Seq<char>)>,
    pub wd: Option<Seq<char>>,
    pub cmd: Seq<char>,
    pub max_restarts: Option<int>,
    pub restart_on_success: bool,
    pub expo_backoff: bool,
    pub proxy: Option<Seq<char>>,
}

impl View for ServiceConfiguration {
    type V = ConfigView;

    open spec fn view(&self) -> ConfigView {
        ConfigView {
            id: self.id as int,
            name: self.name@,
            args: self.args@.map_values(|s: String| s@),
            envs: self.envs@.map_values(|p: (String, String)| (p.0@, p.1@)),
            wd: match self.wd {
                Some(w) => Some(w@),
                None => None,
            },
            cmd: self.cmd@,
            max_restarts: match self.max_restarts {
                Some(m) => Some(m as int),
                None => None,
            },
            restart_on_success: self.restart_on_success,
            expo_backoff: self.expo_backoff,
            proxy: match self.proxy {
                Some(p) => Some(p@),
                None => None,
            },
        }
    }
}

impl ServiceConfiguration {
    /// An exact copy, unlike the derived `Clone` provable as such.
    pub fn duplicate(&self) -> (r: Self)
        ensures
            r@ == self@,
    {
        let r = ServiceConfiguration {
            id: self.id,
            name: self.name.clone(),
            args: clone_strings(&self.args),
            envs: clone_env_entries(&self.envs),
            wd: match &self.wd {
                Some(w) => Some(w.clone()),
                None => None,
            },
            cmd: self.cmd.clone(),
            max_restarts: self.max_restarts,
            restart_on_success: self.restart_on_success,
            expo_backoff: self.expo_backoff,
            proxy: match &self.proxy {
                Some(p) => Some(p.clone()),
                None => None,
            },
        };
        proof {
            assert(r@.args =~= self@.args);
            assert(r@.envs =~= self@.envs);
            assert(r@ =~= self@);
        }
        r
    }
}

/// An element-wise copy of a list of strings.
fn clone_strings(v: &Vec<String>) -> (r: Vec<String>)
    ensures
        r@.map_values(|s: String| s@) =~= v@.map_values(|s: String| s@),
        r@.len() == v@.len(),
{
    let mut r: Vec<String> = Vec::new();
    let mut i: usize = 0;
    while i < v.len()
        invariant
            i <= v@.len(),
            r@.len() == i,
            forall|j: int| 0 <= j < i ==> r@[j]@ == v@[j]@,
        decreases v@.len() - i,
    {
        r.push(v[i].clone());
        i = i + 1;
    }
    proof {
        assert(r@.map_values(|s: String| s@) =~= v@.map_values(|s: String| s@));
    }
    r
}

/// An element-wise copy of a list of environment entries.
pub(crate) fn clone_env_entries(v: &Vec<(String, String)>) -> (r: Vec<(String, String)>)
    ensures
        r@.map_values(|p: (String, String)| (p.0@, p.1@))
            =~= v@.map_values(|p: (String, String)| (p.0@, p.1@)),
        r@.len() == v@.len(),
{
    let mut r: Vec<(String, String)> = Vec::new();
    let mut i: usize = 0;
    while i < v.len()
        invariant
            i <= v@.len(),
            r@.len() == i,
            forall|j: int| 0 <= j < i ==> r@[j].0@ == v@[j].0@ && r@[j].1@ == v@[j].1@,
        decreases v@.len() - i,
    {
        let (k, val) = &v[i];
        r.push((k.clone(), val.clone()));
        i = i + 1;
    }
    proof {
        assert(r@.map_values(|p: (String, String)| (p.0@, p.1@))
            =~= v@.map_values(|p: (String, String)| (p.0@, p.1@)));
    }
    r
}

/// Mutable runtime state wrapping one specification.  Exactly one
/// supervisor loop writes these fields; everyone else only reads.
#[derive(Clone, Debug)]
pub struct Service {
    /// The immutable specification this record wraps.
    pub configuration: ServiceConfiguration,
    /// Whether a child process of this service is currently alive.
    pub running: bool,
    /// How many times the service has been respawned.
    pub restarts: usize,
    /// The exit code of the last attempt, if any exit has been seen.
    pub exit_code: Option<i32>,
}

/// The mathematical value of a `Service` record.
#[verifier::ext_equal]
pub struct ServiceView {
    pub configuration: ConfigView,
    pub running: bool,
    pub restarts: int,
    pub exit_code: Option<i32>,
}

impl View for Service {
    type V = ServiceView;

    open spec fn view(&self) -> ServiceView {
        ServiceView {
            configuration: self.configuration@,
            running: self.running,
            restarts: self.restarts as int,
            exit_code: self.exit_code,
        }
    }
}

/// The record a fresh specification starts from: not running, no restarts,
/// no exit seen.
pub open spec fn spec_initial_record(c: ConfigView) -> ServiceView {
    ServiceView { configuration: c, running: false, restarts: 0, exit_code: None }
}

impl From<ServiceConfiguration> for Service {
    fn from(configuration: ServiceConfiguration) -> (r: Service) {
        Service { configuration, running: false, restarts: 0, exit_code: None }
    }
}

impl vstd::std_specs::convert::FromSpecImpl<ServiceConfiguration> for Service {
    open spec fn obeys_from_spec() -> bool {
        true
    }

    open spec fn from_spec(configuration: ServiceConfiguration) -> Service {
        Service { configuration, running: false, restarts: 0, exit_code: None }
    }
}

impl Service {
    /// An exact copy of the record.
    pub fn duplicate(&self) -> (r: Self)
        ensures
            r@ == self@,
    {
        Service {
            configuration: self.configuration.duplicate(),
            running: self.running,
            restarts: self.restarts,
            exit_code: self.exit_code,
        }
    }
}

/// The fixed, ordered collection of all service records, indexed by id.
#[derive(Debug)]
pub struct Registry {
    records: Vec<Service>,
}

impl View for Registry {
    type V = Seq<ServiceView>;

    closed spec fn view(&self) -> Seq<ServiceView> {
        self.records@.map_values(|s: Service| s@)
    }
}

impl Registry {
    /// Build the registry: one fresh record per specification, in order.
    pub fn new(specs: Vec<ServiceConfiguration>) -> (r: Registry)
        ensures
            r@.len() == specs@.len(),
            forall|i: int| 0 <= i < specs@.len()
                ==> r@[i] == spec_initial_record(specs@[i]@),
    {
        let ghost declared = specs@;
        let mut specs = specs;
        let mut records: Vec<Service> = Vec::new();
        while specs.len() > 0
            invariant
                records@.len() + specs@.len() == declared.len(),
                forall|i: int| 0 <= i < specs@.len()
                    ==> specs@[i] == declared[records@.len() + i],
                forall|i: int| 0 <= i < records@.len()
                    ==> records@[i]@ == spec_initial_record(declared[i]@),
            decreases specs@.len(),
        {
            let s = specs.remove(0);
            records.push(Service::from(s));
        }
        let r = Registry { records };
        proof {
            assert(forall|i: int| 0 <= i < declared.len()
                ==> r@[i] == spec_initial_record(declared[i]@));
        }
        r
    }

    /// How many services the registry holds.
    pub fn len(&self) -> (n: usize)
        ensures
            n == self@.len(),
    {
        self.records.len()
    }

    /// Read access to one record.
    pub fn record(&self, id: usize) -> (s: &Service)
        requires
            id < self@.len(),
        ensures
            s@ == self@[id as int],
    {
        &self.records[id]
    }

    /// A point-in-time copy of every record, safe to hand to external
    /// consumers.
    pub fn snapshot(&self) -> (r: Vec<Service>)
        ensures
            r@.len() == self@.len(),
            forall|i: int| 0 <= i < self@.len() ==> r@[i]@ == self@[i],
    {
        let mut r: Vec<Service> = Vec::new();
        let mut i: usize = 0;
        while i < self.records.len()
            invariant
                i <= self.records@.len(),
                r@.len() == i,
                forall|j: int| 0 <= j < i ==> r@[j]@ == self@[j],
            decreases self.records@.len() - i,
        {
            r.push(self.records[i].duplicate());
            i = i + 1;
        }
        r
    }

    /// True when some record still reports a live child.
    pub fn any_running(&self) -> (b: bool)
        ensures
            b == exists|i: int| 0 <= i < self@.len() && self@[i].running,
    {
        let mut i: usize = 0;
        while i < self.records.len()
            invariant
                i <= self.records@.len(),
                forall|j: int| 0 <= j < i ==> !self@[j].running,
            decreases self.records@.len() - i,
        {
            if self.records[i].running {
                proof {
                    assert(self@[i as int].running);
                }
                return true;
            }
            i = i + 1;
        }
        false
    }

    /// All records but `id` keep their value.
    pub open spec fn others_unchanged(pre: Seq<ServiceView>, post: Seq<ServiceView>, id: int) -> bool {
        &&& post.len() == pre.len()
        &&& forall|j: int| 0 <= j < pre.len() && j != id ==> post[j] == pre[j]
    }

    /// Mark whether service `id` has a live child.
    pub fn set_running(&mut self, id: usize, running: bool)
        requires
            id < old(self)@.len(),
        ensures
            final(self)@[id as int] == (ServiceView { running, ..old(self)@[id as int] }),
            Self::others_unchanged(old(self)@, final(self)@, id as int),
    {
        let mut rec = self.records.remove(id);
        rec.running = running;
        self.records.insert(id, rec);
    }

    /// Record the exit of service `id`'s child: the child is no longer
    /// running and its exit code (absent when killed) is kept.
    pub fn note_exit(&mut self, id: usize, exit_code: Option<i32>)
        requires
            id < old(self)@.len(),
        ensures
            final(self)@[id as int] == (ServiceView {
                running: false,
                exit_code,
                ..old(self)@[id as int]
            }),
            Self::others_unchanged(old(self)@, final(self)@, id as int),
    {
        let mut rec = self.records.remove(id);
        rec.running = false;
        rec.exit_code = exit_code;
        self.records.insert(id, rec);
    }

    /// Count one respawn of service `id`.
    pub fn note_respawn(&mut self, id: usize)
        requires
            id < old(self)@.len(),
            old(self)@[id as int].restarts < usize::MAX,
        ensures
            final(self)@[id as int] == (ServiceView {
                restarts: old(self)@[id as int].restarts + 1,
                ..old(self)@[id as int]
            }),
            Self::others_unchanged(old(self)@, final(self)@, id as int),
    {
        let mut rec = self.records.remove(id);
        rec.restarts = rec.restarts + 1;
        self.records.insert(id, rec);
    }
}

} // verus!
