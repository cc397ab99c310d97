//! The server supervisor: which executable runs the server, how it is
//! launched, and the slot that owns the one running server process.
use vstd::prelude::*;
use crate::marker::{decimal, decimal_text};

verus! {

/// The loopback port the server listens on.
pub const SERVER_PORT: u64 = 1420;

/// The entry point of the server, inside the runtime directory.
pub const ENTRY_POINT_NAME: &'static str = "server.js";

/// Whether the application runs as a development or a production build.
#[derive(PartialEq, Eq, Structural, Clone, Copy, Debug)]
pub enum RunMode {
    Development,
    Production,
}

/// The run mode of a build, from whether it carries debug assertions.
pub fn run_mode(debug_build: bool) -> (r: RunMode)
    ensures
        r == (if debug_build { RunMode::Development } else { RunMode::Production }),
{
    if debug_build { RunMode::Development } else { RunMode::Production }
}

/// Whether the application stages and supervises the server in `mode`; the
/// other mode attaches a logger instead.
pub fn supervises_server(mode: RunMode) -> (r: bool)
    ensures
        r == (mode == RunMode::Production),
{
    match mode {
        RunMode::Production => true,
        RunMode::Development => false,
    }
}

/// The operating system family, which decides the executable's file name.
#[derive(PartialEq, Eq, Structural, Clone, Copy, Debug)]
pub enum Platform {
    Windows,
    Unix,
}

/// Where a candidate executable lies.
#[derive(PartialEq, Eq, Structural, Clone, Copy, Debug)]
pub enum BinaryLocation {
    /// Inside the staged runtime directory.
    RuntimeDir,
    /// Among the application's read-only resources.
    ResourceDir,
    /// A bare name, looked up on the operating system's search path.
    SearchPath,
}

/// A candidate executable: its location and its path relative to it.
pub struct BinaryCandidate {
    pub location: BinaryLocation,
    pub path: String,
}

/// The executable's file name on `platform`.
pub open spec fn exe_name(platform: Platform) -> Seq<char> {
    match platform {
        Platform::Windows => "node.exe"@,
        Platform::Unix => "node"@,
    }
}

/// The candidates, in order of preference.
pub open spec fn candidate_list(platform: Platform) -> Seq<(BinaryLocation, Seq<char>)> {
    seq![
        (BinaryLocation::RuntimeDir, exe_name(platform)),
        (BinaryLocation::ResourceDir, "node/"@ + exe_name(platform)),
        (BinaryLocation::SearchPath, exe_name(platform)),
    ]
}

fn executable_name(platform: Platform) -> (r: String)
    ensures
        r@ == exe_name(platform),
{
    match platform {
        Platform::Windows => String::from_str("node.exe"),
        Platform::Unix => String::from_str("node"),
    }
}

/// The candidate executables for `platform`, most preferred first: the one in
/// the runtime directory, the one among the resources, and the bare name.
pub fn binary_candidates(platform: Platform) -> (r: Vec<BinaryCandidate>)
    ensures
        r@.map_values(|c: BinaryCandidate| (c.location, c.path@)) == candidate_list(platform),
{
    let mut resource = String::from_str("node/");
    let name = executable_name(platform);
    resource.append(name.as_str());
    let mut r: Vec<BinaryCandidate> = Vec::new();
    r.push(BinaryCandidate { location: BinaryLocation::RuntimeDir, path: executable_name(platform) });
    r.push(BinaryCandidate { location: BinaryLocation::ResourceDir, path: resource });
    r.push(BinaryCandidate { location: BinaryLocation::SearchPath, path: name });
    assert(r@.map_values(|c: BinaryCandidate| (c.location, c.path@)) =~= candidate_list(platform));
    r
}

/// The index of the candidate chosen when `found[i]` tells whether candidate
/// `i` exists: the first that exists, and the last one where none of the
/// others does, whether or not it exists.
pub open spec fn first_available(found: Seq<bool>) -> nat
    decreases found.len(),
{
    if found.len() <= 1 || found[0] {
        0
    } else {
        1 + first_available(found.drop_first())
    }
}

/// Chooses among candidates, given which of them exist.
pub fn select_binary(found: &Vec<bool>) -> (r: usize)
    requires
        found@.len() >= 1,
    ensures
        r == first_available(found@),
        r < found@.len(),
        r < found@.len() - 1 ==> found@[r as int],
        forall|i: int| 0 <= i < r ==> !found@[i],
{
    let n = found.len();
    let mut i: usize = 0;
    assert(found@.subrange(0, n as int) =~= found@);
    while i + 1 < n && !found[i]
        invariant
            n == found@.len(),
            n >= 1,
            i < n,
            first_available(found@) == i + first_available(found@.subrange(i as int, n as int)),
            forall|k: int| 0 <= k < i ==> !found@[k],
        decreases n - i,
    {
        assert(found@.subrange(i as int, n as int).drop_first() =~= found@.subrange(i + 1, n as int));
        i = i + 1;
    }
    assert(found@.subrange(i as int, n as int)[0] == found@[i as int]);
    assert(first_available(found@.subrange(i as int, n as int)) == 0);
    i
}

/// The environment of the server process, in order.
pub open spec fn server_env() -> Seq<(Seq<char>, Seq<char>)> {
    seq![
        ("PORT"@, decimal(SERVER_PORT as nat)),
        ("HOSTNAME"@, "127.0.0.1"@),
        ("NEXT_RUNTIME"@, "nodejs"@),
        ("NODE_ENV"@, "production"@),
    ]
}

/// The environment variables the server is launched with: the fixed port, a
/// loopback-only host, and production mode.
pub fn server_environment() -> (r: Vec<(String, String)>)
    ensures
        r@.map_values(|p: (String, String)| (p.0@, p.1@)) == server_env(),
{
    let mut r: Vec<(String, String)> = Vec::new();
    r.push((String::from_str("PORT"), decimal_text(SERVER_PORT)));
    r.push((String::from_str("HOSTNAME"), String::from_str("127.0.0.1")));
    r.push((String::from_str("NEXT_RUNTIME"), String::from_str("nodejs")));
    r.push((String::from_str("NODE_ENV"), String::from_str("production")));
    assert(r@.map_values(|p: (String, String)| (p.0@, p.1@)) =~= server_env());
    r
}

/// Why the server could not be launched.
pub enum SpawnError {
    /// The runtime directory has no entry point.
    EntryPointMissing,
    /// The operating system could not start the process; carries its cause.
    LaunchFailed(String),
}

/// How to launch the server, from within the runtime directory as working
/// directory, with its standard streams discarded.
pub struct LaunchPlan {
    /// Index of the chosen candidate executable.
    pub binary: usize,
    /// The single argument: the entry point, relative to the runtime directory.
    pub entry_point: String,
    /// The environment variables to set.
    pub env: Vec<(String, String)>,
}

/// The launch of the server, given whether the entry point exists and which
/// candidate executables exist. Fails exactly when the entry point is missing.
pub fn plan_launch(entry_point_exists: bool, binary_found: &Vec<bool>) -> (r: Result<LaunchPlan, SpawnError>)
    requires
        binary_found@.len() >= 1,
    ensures
        !entry_point_exists ==> r matches Err(SpawnError::EntryPointMissing),
        entry_point_exists ==> (r matches Ok(plan) && plan.binary == first_available(binary_found@)
            && plan.entry_point@ == ENTRY_POINT_NAME@
            && plan.env@.map_values(|p: (String, String)| (p.0@, p.1@)) == server_env()),
{
    if !entry_point_exists {
        return Err(SpawnError::EntryPointMissing);
    }
    let binary = select_binary(binary_found);
    Ok(LaunchPlan { binary, entry_point: String::from_str(ENTRY_POINT_NAME), env: server_environment() })
}

/// The slot that owns the one server process, `T` being its handle.
pub struct ServerSlot<T> {
    handle: Option<T>,
}

impl<T> View for ServerSlot<T> {
    type V = Option<T>;

    closed spec fn view(&self) -> Option<T> {
        self.handle
    }
}

/// What taking the handle out of a slot does: the slot holding `before`
/// ends up holding `after`, and the call returns `taken`.
pub open spec fn take_effect<T>(before: Option<T>, after: Option<T>, taken: Option<T>) -> bool {
    after is None && taken == before
}

impl<T> ServerSlot<T> {
    /// An empty slot.
    pub fn new() -> (r: Self)
        ensures
            r@ is None,
    {
        ServerSlot { handle: None }
    }

    /// Whether the slot holds a handle.
    pub fn is_running(&self) -> (r: bool)
        ensures
            r == self@ is Some,
    {
        self.handle.is_some()
    }

    /// Stores the handle of a newly launched server in an empty slot.
    pub fn install(&mut self, handle: T)
        requires
            old(self)@ is None,
        ensures
            final(self)@ == Some(handle),
    {
        self.handle = Some(handle);
    }

    /// Takes the handle out for termination, leaving the slot empty.
    pub fn take(&mut self) -> (r: Option<T>)
        ensures
            take_effect(old(self)@, final(self)@, r),
    {
        self.handle.take()
    }
}

/// Termination kills at most once: after a handle has been taken out of a
/// slot, a second take finds it empty and returns nothing to kill.
pub proof fn lemma_single_kill<T>(s0: Option<T>, s1: Option<T>, s2: Option<T>, first: Option<T>, second: Option<T>)
    requires
        take_effect(s0, s1, first),
        take_effect(s1, s2, second),
    ensures
        first == s0,
        second is None,
        s2 is None,
{
}

/// The executable chosen among a runtime candidate, a resource candidate and
/// a bare name: the runtime one where it exists, whatever else exists; else
/// the resource one where it exists; else the bare name, unconditionally.
pub proof fn lemma_binary_priority(runtime: bool, resource: bool, bare: bool)
    ensures
        runtime ==> first_available(seq![runtime, resource, bare]) == 0,
        !runtime && resource ==> first_available(seq![runtime, resource, bare]) == 1,
        !runtime && !resource ==> first_available(seq![runtime, resource, bare]) == 2,
{
    let s = seq![runtime, resource, bare];
    assert(s.drop_first() =~= seq![resource, bare]);
    assert(s.drop_first().drop_first() =~= seq![bare]);
    assert(first_available(seq![bare]) == 0);
    assert(first_available(seq![resource, bare]) == if resource { 0nat } else { 1nat });
}

} // verus!
