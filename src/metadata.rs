//! The map of upstream methods learned by server reflection, and the lookup
//! of a request path in it.
use vstd::prelude::*;

use crate::error::Error;

verus! {

/// The streaming shape of an RPC method.
#[derive(Debug, Clone, Copy, PartialEq, Eq, Structural)]
pub enum ConnectionType {
    Unary,
    ClientStreaming,
    ServerStreaming,
    /// Both sides stream.
    Streaming,
}

/// What a method descriptor of the upstream says about one method. Absent
/// flags are false, as in the protobuf descriptor.
#[derive(Debug, Clone)]
pub struct MethodDescriptor {
    pub name: Option<String>,
    pub client_streaming: Option<bool>,
    pub server_streaming: Option<bool>,
}

impl View for MethodDescriptor {
    type V = (Option<Seq<char>>, Option<bool>, Option<bool>);

    open spec fn view(&self) -> (Option<Seq<char>>, Option<bool>, Option<bool>) {
        (
            match self.name {
                Some(n) => Some(n@),
                None => None,
            },
            self.client_streaming,
            self.server_streaming,
        )
    }
}

pub open spec fn flag(f: Option<bool>) -> bool {
    match f {
        Some(b) => b,
        None => false,
    }
}

/// The connection type of the two streaming flags.
pub open spec fn connection_type(client_streaming: bool, server_streaming: bool) -> ConnectionType {
    if client_streaming && server_streaming {
        ConnectionType::Streaming
    } else if client_streaming {
        ConnectionType::ClientStreaming
    } else if server_streaming {
        ConnectionType::ServerStreaming
    } else {
        ConnectionType::Unary
    }
}

pub open spec fn descriptor_type(m: MethodDescriptor) -> ConnectionType {
    connection_type(flag(m.client_streaming), flag(m.server_streaming))
}

impl ConnectionType {
    /// Classifies a method by its two streaming flags.
    pub fn from_flags(client_streaming: bool, server_streaming: bool) -> (r: ConnectionType)
        ensures
            r == connection_type(client_streaming, server_streaming),
    {
        match (client_streaming, server_streaming) {
            (true, true) => ConnectionType::Streaming,
            (true, false) => ConnectionType::ClientStreaming,
            (false, true) => ConnectionType::ServerStreaming,
            (false, false) => ConnectionType::Unary,
        }
    }
}

impl From<MethodDescriptor> for ConnectionType {
    fn from(method: MethodDescriptor) -> (r: ConnectionType) {
        let client = match method.client_streaming {
            Some(b) => b,
            None => false,
        };
        let server = match method.server_streaming {
            Some(b) => b,
            None => false,
        };
        ConnectionType::from_flags(client, server)
    }
}

impl vstd::std_specs::convert::FromSpecImpl<MethodDescriptor> for ConnectionType {
    open spec fn obeys_from_spec() -> bool {
        true
    }

    open spec fn from_spec(method: MethodDescriptor) -> ConnectionType {
        descriptor_type(method)
    }
}

/// The map of a list of (key, value) entries, where a later entry for a key
/// replaces an earlier one.
pub open spec fn last_wins<V>(es: Seq<(String, V)>) -> Map<Seq<char>, V>
    decreases es.len(),
{
    if es.len() == 0 {
        Map::empty()
    } else {
        last_wins(es.drop_last()).insert(es.last().0@, es.last().1)
    }
}

/// The methods of a service descriptor by name; methods without a name, or
/// with an empty one, are left out, and a later method replaces an earlier
/// one of the same name.
pub open spec fn described_methods(ds: Seq<MethodDescriptor>) -> Map<Seq<char>, ConnectionType>
    decreases ds.len(),
{
    if ds.len() == 0 {
        Map::empty()
    } else {
        let d = ds.last();
        match d.name {
            Some(n) => if n@.len() > 0 {
                described_methods(ds.drop_last()).insert(n@, descriptor_type(d))
            } else {
                described_methods(ds.drop_last())
            },
            None => described_methods(ds.drop_last()),
        }
    }
}

/// The service map of (service name, method descriptors) pairs.
pub open spec fn described_services(ss: Seq<(String, Vec<MethodDescriptor>)>) -> Map<
    Seq<char>,
    Map<Seq<char>, ConnectionType>,
> {
    last_wins(ss).map_values(|ds: Vec<MethodDescriptor>| described_methods(ds@))
}

/// The index of the first `/` in `s` at or after `from`, or the length of
/// `s` where there is none.
pub open spec fn next_slash(s: Seq<char>, from: int) -> int
    decreases s.len() - from,
{
    if from < 0 || from >= s.len() {
        s.len() as int
    } else if s[from] == '/' {
        from
    } else {
        next_slash(s, from + 1)
    }
}

/// The second and third `/`-separated parts of a path, where it has at least
/// three.
pub open spec fn query_parts(path: Seq<char>) -> Option<(Seq<char>, Seq<char>)> {
    let a = next_slash(path, 0);
    let b = next_slash(path, a + 1);
    if a >= path.len() || b >= path.len() {
        None
    } else {
        let c = next_slash(path, b + 1);
        Some((path.subrange(a + 1, b), path.subrange(b + 1, c)))
    }
}

/// What looking a path up in a service map gives.
pub open spec fn query_outcome(
    map: Map<Seq<char>, Map<Seq<char>, ConnectionType>>,
    path: Seq<char>,
) -> Result<ConnectionType, Error> {
    match query_parts(path) {
        None => Err(Error::InvalidQuery),
        Some((service, method)) => if !map.contains_key(service) {
            Err(Error::UnknownService)
        } else if !map[service].contains_key(method) {
            Err(Error::UnknownMethod)
        } else {
            Ok(map[service][method])
        },
    }
}

/// The connection type of each method of each upstream service.
#[derive(Clone)]
pub struct Metadata {
    services: Vec<(String, Vec<(String, ConnectionType)>)>,
}

impl View for Metadata {
    type V = Map<Seq<char>, Map<Seq<char>, ConnectionType>>;

    closed spec fn view(&self) -> Map<Seq<char>, Map<Seq<char>, ConnectionType>> {
        last_wins(self.services@).map_values(
            |ms: Vec<(String, ConnectionType)>| last_wins(ms@),
        )
    }
}

/// The index of the last entry with key `key`, which is the one the map
/// holds.
fn find_last<V>(es: &Vec<(String, V)>, key: &String) -> (r: Option<usize>)
    ensures
        match r {
            Some(i) => i < es@.len() && es@[i as int].0@ == key@ && last_wins(es@).contains_key(
                key@,
            ) && last_wins(es@)[key@] == es@[i as int].1,
            None => !last_wins(es@).contains_key(key@),
        },
{
    let mut found: Option<usize> = None;
    let mut i: usize = 0;
    while i < es.len()
        invariant
            i <= es@.len(),
            match found {
                Some(j) => j < i && es@[j as int].0@ == key@ && last_wins(
                    es@.subrange(0, i as int),
                ).contains_key(key@) && last_wins(es@.subrange(0, i as int))[key@]
                    == es@[j as int].1,
                None => !last_wins(es@.subrange(0, i as int)).contains_key(key@),
            },
        decreases es@.len() - i,
    {
        if es[i].0 == *key {
            found = Some(i);
        }
        proof {
            let s = es@.subrange(0, i + 1);
            assert(s.drop_last() =~= es@.subrange(0, i as int));
            assert(s.last() == es@[i as int]);
        }
        i = i + 1;
    }
    assert(es@.subrange(0, es@.len() as int) =~= es@);
    found
}

/// The index of the first `/` at or after `from`, or the length of the
/// path.
fn find_slash(path: &str, n: usize, from: usize) -> (r: usize)
    requires
        n == path@.len(),
        from <= n,
    ensures
        r == next_slash(path@, from as int),
        from <= r <= n,
{
    let mut i = from;
    while i < n
        invariant
            from <= i <= n,
            n == path@.len(),
            next_slash(path@, from as int) == next_slash(path@, i as int),
        decreases n - i,
    {
        if path.get_char(i) == '/' {
            return i;
        }
        i = i + 1;
    }
    i
}

impl Metadata {
    /// The map of the given services, each with its methods and their
    /// connection types. A later entry replaces an earlier one of the same
    /// name.
    pub fn new(services: Vec<(String, Vec<(String, ConnectionType)>)>) -> (r: Metadata)
        ensures
            r@ == last_wins(services@).map_values(
                |ms: Vec<(String, ConnectionType)>| last_wins(ms@),
            ),
    {
        Metadata { services }
    }

    /// The map that reflection describes: for each service its named
    /// methods, each classified by its streaming flags.
    pub fn from_services(services: Vec<(String, Vec<MethodDescriptor>)>) -> (r: Metadata)
        ensures
            r@ == described_services(services@),
    {
        let mut out: Vec<(String, Vec<(String, ConnectionType)>)> = Vec::new();
        let mut i: usize = 0;
        while i < services.len()
            invariant
                i <= services@.len(),
                out@.len() == i,
                last_wins(out@).map_values(|ms: Vec<(String, ConnectionType)>| last_wins(ms@))
                    =~= described_services(services@.subrange(0, i as int)),
            decreases services@.len() - i,
        {
            let name = services[i].0.clone();
            let methods = classify_methods(&services[i].1);
            let ghost before = out@;
            out.push((name, methods));
            proof {
                let s = services@.subrange(0, i + 1);
                assert(s.drop_last() =~= services@.subrange(0, i as int));
                assert(s.last() == services@[i as int]);
                assert(out@.drop_last() =~= before);
                let k = services@[i as int].0@;
                let prev = last_wins(services@.subrange(0, i as int));
                assert(last_wins(s) == prev.insert(k, services@[i as int].1));
                assert(last_wins(out@) == last_wins(before).insert(k, methods));
                assert(last_wins(out@).map_values(
                    |ms: Vec<(String, ConnectionType)>| last_wins(ms@),
                ) =~= last_wins(before).map_values(
                    |ms: Vec<(String, ConnectionType)>| last_wins(ms@),
                ).insert(k, last_wins(methods@)));
                assert(described_services(s) =~= described_services(
                    services@.subrange(0, i as int),
                ).insert(k, described_methods(services@[i as int].1@)));
            }
            i = i + 1;
        }
        assert(services@.subrange(0, services@.len() as int) =~= services@);
        Metadata { services: out }
    }

    /// The connection type of the method that a path `/<service>/<method>`
    /// names.
    pub fn get_query_type(&self, path: &str) -> (r: Result<ConnectionType, Error>)
        ensures
            r == query_outcome(self@, path@),
    {
        let n = path.unicode_len();
        let a = find_slash(path, n, 0);
        if a >= n {
            return Err(Error::InvalidQuery);
        }
        let b = find_slash(path, n, a + 1);
        if b >= n {
            return Err(Error::InvalidQuery);
        }
        let c = find_slash(path, n, b + 1);
        let service = path.substring_char(a + 1, b).to_owned();
        let method = path.substring_char(b + 1, c).to_owned();
        match find_last(&self.services, &service) {
            None => Err(Error::UnknownService),
            Some(i) => match find_last(&self.services[i].1, &method) {
                None => Err(Error::UnknownMethod),
                Some(j) => Ok(self.services[i].1[j].1),
            },
        }
    }
}

/// The named methods of a service, each with its connection type.
fn classify_methods(ds: &Vec<MethodDescriptor>) -> (r: Vec<(String, ConnectionType)>)
    ensures
        last_wins(r@) == described_methods(ds@),
{
    let mut out: Vec<(String, ConnectionType)> = Vec::new();
    let mut i: usize = 0;
    while i < ds.len()
        invariant
            i <= ds@.len(),
            last_wins(out@) == described_methods(ds@.subrange(0, i as int)),
        decreases ds@.len() - i,
    {
        let d = &ds[i];
        let ghost before = out@;
        match &d.name {
            Some(name) if !name.as_str().is_empty() => {
                let t = ConnectionType::from_flags(
                    match d.client_streaming {
                        Some(b) => b,
                        None => false,
                    },
                    match d.server_streaming {
                        Some(b) => b,
                        None => false,
                    },
                );
                out.push((name.clone(), t));
                proof {
                    assert(out@.drop_last() =~= before);
                }
            },
            _ => {},
        }
        proof {
            let s = ds@.subrange(0, i + 1);
            assert(s.drop_last() =~= ds@.subrange(0, i as int));
            assert(s.last() == ds@[i as int]);
        }
        i = i + 1;
    }
    assert(ds@.subrange(0, ds@.len() as int) =~= ds@);
    out
}

/// The path `/<service>/<method>`.
pub open spec fn method_path(service: Seq<char>, method: Seq<char>) -> Seq<char> {
    seq!['/'] + service + seq!['/'] + method
}

pub open spec fn has_no_slash(s: Seq<char>) -> bool {
    forall|k: int| 0 <= k < s.len() ==> s[k] != '/'
}

/// Whether the descriptors hold a service named `service` with a method
/// named `method`, a name that is not empty.
pub open spec fn describes_method(
    d: Seq<(String, Vec<MethodDescriptor>)>,
    service: Seq<char>,
    method: Seq<char>,
) -> bool {
    method.len() > 0 && exists|i: int, j: int|
        0 <= i < d.len() && 0 <= j < d[i].1@.len() && #[trigger] d[i].0@ == service
            && #[trigger] d[i].1@[j]@.0 == Some(method)
}

proof fn lemma_described_methods_key(ds: Seq<MethodDescriptor>, m: Seq<char>)
    ensures
        described_methods(ds).contains_key(m) <==> m.len() > 0 && exists|j: int|
            0 <= j < ds.len() && #[trigger] ds[j]@.0 == Some(m),
    decreases ds.len(),
{
    if ds.len() > 0 {
        let init = ds.drop_last();
        lemma_described_methods_key(init, m);
        let d = ds.last();
        assert(ds[ds.len() - 1] == d);
        match d.name {
            Some(n) => assert(d@.0 == Some(n@)),
            None => assert(d@.0 == None::<Seq<char>>),
        }
        if exists|j: int| 0 <= j < ds.len() && #[trigger] ds[j]@.0 == Some(m) {
            let j = choose|j: int| 0 <= j < ds.len() && #[trigger] ds[j]@.0 == Some(m);
            if j < ds.len() - 1 {
                assert(init[j] == ds[j]);
            }
        }
        if exists|j: int| 0 <= j < init.len() && #[trigger] init[j]@.0 == Some(m) {
            let j = choose|j: int| 0 <= j < init.len() && #[trigger] init[j]@.0 == Some(m);
            assert(ds[j] == init[j]);
        }
    }
}

proof fn lemma_next_slash_skip(s: Seq<char>, from: int, to: int)
    requires
        0 <= from <= to <= s.len(),
        forall|k: int| from <= k < to ==> s[k] != '/',
    ensures
        next_slash(s, from) == next_slash(s, to),
    decreases to - from,
{
    if from < to {
        lemma_next_slash_skip(s, from + 1, to);
    }
}

proof fn lemma_query_parts_of_path(service: Seq<char>, method: Seq<char>)
    requires
        has_no_slash(service),
        has_no_slash(method),
    ensures
        query_parts(method_path(service, method)) == Some((service, method)),
{
    let p = method_path(service, method);
    let b: int = service.len() as int + 1;
    assert(p[0] == '/');
    assert forall|k: int| 1 <= k < b implies p[k] != '/' by {
        assert(p[k] == service[k - 1]);
    }
    lemma_next_slash_skip(p, 1, b);
    assert(p[b] == '/');
    assert forall|k: int| b + 1 <= k < p.len() implies p[k] != '/' by {
        assert(p[k] == method[k - b - 1]);
    }
    lemma_next_slash_skip(p, b + 1, p.len() as int);
    assert(p.subrange(1, b) =~= service);
    assert(p.subrange(b + 1, p.len() as int) =~= method);
}

proof fn lemma_last_wins_key<V>(es: Seq<(String, V)>, k: Seq<char>)
    ensures
        last_wins(es).contains_key(k) <==> exists|i: int| 0 <= i < es.len() && #[trigger] es[i].0@ == k,
    decreases es.len(),
{
    if es.len() > 0 {
        let init = es.drop_last();
        lemma_last_wins_key(init, k);
        if exists|i: int| 0 <= i < es.len() && #[trigger] es[i].0@ == k {
            let i = choose|i: int| 0 <= i < es.len() && #[trigger] es[i].0@ == k;
            if i < es.len() - 1 {
                assert(init[i].0@ == k);
            }
        }
        if exists|i: int| 0 <= i < init.len() && #[trigger] init[i].0@ == k {
            let i = choose|i: int| 0 <= i < init.len() && #[trigger] init[i].0@ == k;
            assert(es[i].0@ == k);
        }
    }
}

proof fn lemma_last_wins_distinct<V>(es: Seq<(String, V)>, i: int)
    requires
        0 <= i < es.len(),
        forall|a: int, b: int| 0 <= a < b < es.len() ==> es[a].0@ != es[b].0@,
    ensures
        last_wins(es).contains_key(es[i].0@),
        last_wins(es)[es[i].0@] == es[i].1,
    decreases es.len(),
{
    if i < es.len() - 1 {
        let init = es.drop_last();
        assert(init[i] == es[i]);
        lemma_last_wins_distinct(init, i);
    }
}

/// In a map built from reflection descriptors with distinct service names,
/// looking up `/<service>/<method>` succeeds exactly when the descriptors
/// hold that service with a method of that name.
pub proof fn lemma_lookup_matches_descriptors(
    d: Seq<(String, Vec<MethodDescriptor>)>,
    service: Seq<char>,
    method: Seq<char>,
)
    requires
        forall|a: int, b: int| 0 <= a < b < d.len() ==> d[a].0@ != d[b].0@,
        has_no_slash(service),
        has_no_slash(method),
    ensures
        query_outcome(described_services(d), method_path(service, method)) is Ok
            <==> describes_method(d, service, method),
{
    lemma_query_parts_of_path(service, method);
    lemma_last_wins_key(d, service);
    if describes_method(d, service, method) {
        let (i, j) = choose|i: int, j: int|
            0 <= i < d.len() && 0 <= j < d[i].1@.len() && #[trigger] d[i].0@ == service
                && #[trigger] d[i].1@[j]@.0 == Some(method);
        lemma_last_wins_distinct(d, i);
        lemma_described_methods_key(d[i].1@, method);
    }
    if query_outcome(described_services(d), method_path(service, method)) is Ok {
        let i = choose|i: int| 0 <= i < d.len() && #[trigger] d[i].0@ == service;
        lemma_last_wins_distinct(d, i);
        lemma_described_methods_key(d[i].1@, method);
        let j = choose|j: int| 0 <= j < d[i].1@.len() && #[trigger] d[i].1@[j]@.0 == Some(method);
        assert(d[i].1@[j]@.0 == Some(method));
    }
}

proof fn lemma_next_slash_found(s: Seq<char>, from: int)
    requires
        0 <= from,
    ensures
        from <= next_slash(s, from) || next_slash(s, from) == s.len(),
        next_slash(s, from) <= s.len(),
        next_slash(s, from) < s.len() ==> s[next_slash(s, from)] == '/',
    decreases s.len() - from,
{
    if from < s.len() && s[from] != '/' {
        lemma_next_slash_found(s, from + 1);
    }
}

/// A path with fewer than three `/`-separated parts, that is with at most one
/// `/`, is an invalid query whatever the map.
pub proof fn lemma_short_path_is_invalid(
    map: Map<Seq<char>, Map<Seq<char>, ConnectionType>>,
    path: Seq<char>,
)
    requires
        forall|i: int, j: int| 0 <= i < j < path.len() ==> !(path[i] == '/' && path[j] == '/'),
    ensures
        query_outcome(map, path) == Err::<ConnectionType, Error>(Error::InvalidQuery),
{
    let a = next_slash(path, 0);
    lemma_next_slash_found(path, 0);
    if a < path.len() {
        lemma_next_slash_found(path, a + 1);
        let b = next_slash(path, a + 1);
        if b < path.len() {
            assert(path[a] == '/' && path[b] == '/');
        }
    }
}

} // verus!
