//! The per-cycle topology snapshot: two lookup maps, one from container name
//! to container and one from network name to network.
//!
//! Both maps are built fresh at the start of every processing cycle and are
//! read-only thereafter.  Container names are inserted with any
//! runtime-imposed leading `/` prefix stripped; on a name collision the later
//! entry wins, mirroring repeated insertion into a map.

use vstd::prelude::*;
use vstd::string::StrSliceExecFns;
use vstd::string::StringExecFns;

use crate::types::{Container, ContainerModel, Network, NetworkAttachment, NetworkModel};

verus! {

/// The value an association list maps a key to: the value of the last entry
/// bearing the key, or `None` when no entry does.
pub open spec fn assoc_lookup<V>(entries: Seq<(Seq<char>, V)>, key: Seq<char>) -> Option<V>
    decreases entries.len(),
{
    if entries.len() == 0 {
        None
    } else if entries.last().0 == key {
        Some(entries.last().1)
    } else {
        assoc_lookup(entries.drop_last(), key)
    }
}

/// Looking up in a prefix one entry shorter drops exactly the last entry's
/// binding.
proof fn lemma_assoc_lookup_take<V>(entries: Seq<(Seq<char>, V)>, key: Seq<char>, i: int)
    requires
        0 <= i < entries.len(),
    ensures
        assoc_lookup(entries.take(i + 1), key) == if entries[i].0 == key {
            Some(entries[i].1)
        } else {
            assoc_lookup(entries.take(i), key)
        },
{
    let taken = entries.take(i + 1);
    assert(taken.last() == entries[i]);
    assert(taken.drop_last() =~= entries.take(i));
}

/// A name with every leading `/` removed.
pub open spec fn strip_leading_slashes(name: Seq<char>) -> Seq<char>
    decreases name.len(),
{
    if name.len() > 0 && name[0] == '/' {
        strip_leading_slashes(name.skip(1))
    } else {
        name
    }
}

proof fn lemma_strip_leading_slashes_at(name: Seq<char>, i: int)
    requires
        0 <= i <= name.len(),
        forall|j: int| 0 <= j < i ==> name[j] == '/',
        i == name.len() || name[i] != '/',
    ensures
        strip_leading_slashes(name) == name.skip(i),
    decreases i,
{
    if i == 0 {
        assert(name.skip(0) =~= name);
    } else {
        let rest = name.skip(1);
        assert(forall|j: int| 0 <= j < i - 1 ==> rest[j] == name[j + 1] && rest[j] == '/');
        assert(i - 1 == rest.len() || rest[i - 1] != '/');
        lemma_strip_leading_slashes_at(rest, i - 1);
        assert(rest.skip(i - 1) =~= name.skip(i));
    }
}

/// The given name with every leading `/` removed.
pub fn strip_name(name: &str) -> (r: String)
    ensures
        r@ == strip_leading_slashes(name@),
{
    let n: usize = name.unicode_len();
    let mut i: usize = 0;
    while i < n && name.get_char(i) == '/'
        invariant
            0 <= i <= n,
            n == name@.len(),
            forall|j: int| 0 <= j < i ==> name@[j] == '/',
        decreases n - i,
    {
        i += 1;
    }
    proof {
        lemma_strip_leading_slashes_at(name@, i as int);
    }
    let stripped = name.substring_char(i, n);
    String::from_str(stripped)
}

/// A `String` equal to the given one.
pub fn clone_string(s: &String) -> (r: String)
    ensures
        r@ == s@,
{
    s.clone()
}

/// A `Vec<String>` with the same deep model.
pub fn clone_string_vec(v: &Vec<String>) -> (r: Vec<String>)
    ensures
        r.deep_view() == v.deep_view(),
{
    let mut r: Vec<String> = Vec::new();
    let mut i: usize = 0;
    while i < v.len()
        invariant
            0 <= i <= v.len(),
            r.deep_view() =~= v.deep_view().take(i as int),
        decreases v.len() - i,
    {
        let ghost prev = r.deep_view();
        r.push(v[i].clone());
        proof {
            assert(r.deep_view() =~= prev.push(v@[i as int]@));
            assert(v.deep_view()[i as int] == v@[i as int]@);
            assert(v.deep_view().take(i + 1) =~= v.deep_view().take(i as int).push(
                v.deep_view()[i as int],
            ));
        }
        i += 1;
    }
    proof {
        assert(v.deep_view().take(v.len() as int) =~= v.deep_view());
    }
    r
}

impl Clone for NetworkAttachment {
    /// A deep copy with an identical model.
    fn clone(&self) -> (r: Self)
        ensures
            r@ == self@,
    {
        NetworkAttachment {
            container_id: clone_string(&self.container_id),
            address: clone_string(&self.address),
        }
    }
}

impl Clone for Container {
    /// A deep copy with an identical model.
    fn clone(&self) -> (r: Self)
        ensures
            r@ == self@,
    {
        Container {
            id: clone_string(&self.id),
            names: clone_string_vec(&self.names),
            running: self.running,
        }
    }
}

fn clone_attachments(v: &Vec<NetworkAttachment>) -> (r: Vec<NetworkAttachment>)
    ensures
        r@.map(|i: int, a: NetworkAttachment| a@) == v@.map(|i: int, a: NetworkAttachment| a@),
{
    let mut r: Vec<NetworkAttachment> = Vec::new();
    let mut i: usize = 0;
    while i < v.len()
        invariant
            0 <= i <= v.len(),
            r@.map(|k: int, a: NetworkAttachment| a@) =~= v@.map(
                |k: int, a: NetworkAttachment| a@,
            ).take(i as int),
        decreases v.len() - i,
    {
        let ghost prev = r@;
        r.push(v[i].clone());
        proof {
            let f = |k: int, a: NetworkAttachment| a@;
            assert(r@.map(f) =~= prev.map(f).push(r@[prev.len() as int]@));
            assert(v@.map(f).take(i + 1) =~= v@.map(f).take(i as int).push(v@[i as int]@));
        }
        i += 1;
    }
    proof {
        let full = v@.map(|k: int, a: NetworkAttachment| a@);
        assert(full.take(v.len() as int) =~= full);
    }
    r
}

impl Clone for Network {
    /// A deep copy with an identical model.
    fn clone(&self) -> (r: Self)
        ensures
            r@ == self@,
    {
        let r = Network {
            id: clone_string(&self.id),
            name: clone_string(&self.name),
            driver: clone_string(&self.driver),
            containers: clone_attachments(&self.containers),
        };
        r
    }
}

// ---------------------------------------------------------------------------
// Container map
// ---------------------------------------------------------------------------

/// One binding of the container map.
pub struct ContainerMapEntry {
    /// The container name the binding is keyed by, prefix already stripped.
    pub key: String,
    /// The container the name refers to.
    pub value: Container,
}

/// The per-cycle map from (stripped) container name to container.
pub struct ContainerMap {
    /// The bindings, in insertion order; a later binding shadows an earlier
    /// one with the same key.
    pub entries: Vec<ContainerMapEntry>,
}

impl View for ContainerMap {
    type V = Seq<(Seq<char>, ContainerModel)>;

    open spec fn view(&self) -> Seq<(Seq<char>, ContainerModel)> {
        self.entries@.map(|i: int, e: ContainerMapEntry| (e.key@, e.value@))
    }
}

impl ContainerMap {
    /// The container the map associates with the given name.
    pub open spec fn spec_get(&self, name: Seq<char>) -> Option<ContainerModel> {
        assoc_lookup(self@, name)
    }

    /// An empty map.
    pub fn new() -> (r: Self)
        ensures
            r@ == Seq::<(Seq<char>, ContainerModel)>::empty(),
    {
        let r = ContainerMap { entries: Vec::new() };
        proof {
            assert(r@ =~= Seq::<(Seq<char>, ContainerModel)>::empty());
        }
        r
    }

    /// Looks the given name up, returning the container of the last binding
    /// with that name, or `None` when there is none.
    pub fn get(&self, name: &str) -> (r: Option<&Container>)
        ensures
            match r {
                Some(c) => self.spec_get(name@) == Some(c@),
                None => self.spec_get(name@) is None,
            },
    {
        let key = String::from_str(name);
        let mut i: usize = self.entries.len();
        proof {
            assert(self@.take(self.entries@.len() as int) =~= self@);
        }
        while i > 0
            invariant
                0 <= i <= self.entries.len(),
                key@ == name@,
                self@.len() == self.entries@.len(),
                assoc_lookup(self@, name@) == assoc_lookup(self@.take(i as int), name@),
            decreases i,
        {
            proof {
                lemma_assoc_lookup_take(self@, name@, i - 1);
            }
            if self.entries[i - 1].key == key {
                return Some(&self.entries[i - 1].value);
            }
            i -= 1;
        }
        proof {
            assert(self@.take(0) =~= Seq::<(Seq<char>, ContainerModel)>::empty());
        }
        None
    }
}

/// The bindings one container contributes: one per name, keyed by the name
/// with its leading `/` prefix stripped.
pub open spec fn container_bindings(c: ContainerModel) -> Seq<(Seq<char>, ContainerModel)> {
    c.names.map(|i: int, n: Seq<char>| (strip_leading_slashes(n), c))
}

/// The bindings of the whole container list, in listing order.
pub open spec fn container_map_model(cs: Seq<ContainerModel>) -> Seq<(Seq<char>, ContainerModel)>
    decreases cs.len(),
{
    if cs.len() == 0 {
        Seq::empty()
    } else {
        container_map_model(cs.drop_last()) + container_bindings(cs.last())
    }
}

proof fn lemma_container_map_model_take(cs: Seq<ContainerModel>, i: int)
    requires
        0 <= i < cs.len(),
    ensures
        container_map_model(cs.take(i + 1)) == container_map_model(cs.take(i))
            + container_bindings(cs[i]),
{
    let taken = cs.take(i + 1);
    assert(taken.last() == cs[i]);
    assert(taken.drop_last() =~= cs.take(i));
}

/// Folds the container list into the name-keyed container map: every name of
/// every container becomes a binding, leading `/` stripped, in listing
/// order, so that on duplicate names the later container wins.
pub fn get_container_map(containers: &Vec<Container>) -> (r: ContainerMap)
    ensures
        r@ == container_map_model(containers@.map(|i: int, c: Container| c@)),
{
    let ghost cs: Seq<ContainerModel> = containers@.map(|i: int, c: Container| c@);
    let mut map = ContainerMap::new();
    let mut i: usize = 0;
    while i < containers.len()
        invariant
            0 <= i <= containers.len(),
            cs == containers@.map(|k: int, c: Container| c@),
            cs.len() == containers@.len(),
            map@ =~= container_map_model(cs.take(i as int)),
        decreases containers.len() - i,
    {
        let container = &containers[i];
        let ghost cm: ContainerModel = container@;
        let mut j: usize = 0;
        while j < container.names.len()
            invariant
                0 <= j <= container.names.len(),
                cm == container@,
                cm.names.len() == container.names@.len(),
                map@ =~= container_map_model(cs.take(i as int)) + container_bindings(cm).take(
                    j as int,
                ),
            decreases container.names.len() - j,
        {
            let key = strip_name(container.names[j].as_str());
            let ghost km: Seq<char> = key@;
            let ghost prev = map@;
            map.entries.push(ContainerMapEntry { key, value: container.clone() });
            proof {
                let f = |k: int, e: ContainerMapEntry| (e.key@, e.value@);
                assert(cm.names[j as int] == container.names@[j as int]@);
                assert(container_bindings(cm)[j as int] == (
                    strip_leading_slashes(cm.names[j as int]),
                    cm,
                ));
                assert(map.entries@.last().key@ == km);
                assert(map.entries@.last().value@ == cm);
                assert(map@ =~= prev.push((km, cm)));
                assert(container_bindings(cm).take(j + 1) =~= container_bindings(cm).take(
                    j as int,
                ).push(container_bindings(cm)[j as int]));
            }
            j += 1;
        }
        proof {
            assert(container_bindings(cm).take(container.names@.len() as int) =~= container_bindings(
                cm,
            ));
            assert(cs[i as int] == container@);
            lemma_container_map_model_take(cs, i as int);
        }
        i += 1;
    }
    proof {
        assert(cs.take(containers@.len() as int) =~= cs);
    }
    map
}

// ---------------------------------------------------------------------------
// Network map
// ---------------------------------------------------------------------------

/// One binding of the network map.
pub struct NetworkMapEntry {
    /// The network name the binding is keyed by.
    pub key: String,
    /// The network the name refers to.
    pub value: Network,
}

/// The per-cycle map from network name to network.
pub struct NetworkMap {
    /// The bindings, in insertion order; a later binding shadows an earlier
    /// one with the same key.
    pub entries: Vec<NetworkMapEntry>,
}

impl View for NetworkMap {
    type V = Seq<(Seq<char>, NetworkModel)>;

    open spec fn view(&self) -> Seq<(Seq<char>, NetworkModel)> {
        self.entries@.map(|i: int, e: NetworkMapEntry| (e.key@, e.value@))
    }
}

impl NetworkMap {
    /// The network the map associates with the given name.
    pub open spec fn spec_get(&self, name: Seq<char>) -> Option<NetworkModel> {
        assoc_lookup(self@, name)
    }

    /// An empty map.
    pub fn new() -> (r: Self)
        ensures
            r@ == Seq::<(Seq<char>, NetworkModel)>::empty(),
    {
        let r = NetworkMap { entries: Vec::new() };
        proof {
            assert(r@ =~= Seq::<(Seq<char>, NetworkModel)>::empty());
        }
        r
    }

    /// Looks the given name up, returning the network of the last binding
    /// with that name, or `None` when there is none.
    pub fn get(&self, name: &str) -> (r: Option<&Network>)
        ensures
            match r {
                Some(n) => self.spec_get(name@) == Some(n@),
                None => self.spec_get(name@) is None,
            },
    {
        let key = String::from_str(name);
        let mut i: usize = self.entries.len();
        proof {
            assert(self@.take(self.entries@.len() as int) =~= self@);
        }
        while i > 0
            invariant
                0 <= i <= self.entries.len(),
                key@ == name@,
                self@.len() == self.entries@.len(),
                assoc_lookup(self@, name@) == assoc_lookup(self@.take(i as int), name@),
            decreases i,
        {
            proof {
                lemma_assoc_lookup_take(self@, name@, i - 1);
            }
            if self.entries[i - 1].key == key {
                return Some(&self.entries[i - 1].value);
            }
            i -= 1;
        }
        proof {
            assert(self@.take(0) =~= Seq::<(Seq<char>, NetworkModel)>::empty());
        }
        None
    }
}

/// The bindings of the network map: one per network, keyed by its name, in
/// listing order.
pub open spec fn network_map_model(ns: Seq<NetworkModel>) -> Seq<(Seq<char>, NetworkModel)> {
    ns.map(|i: int, n: NetworkModel| (n.name, n))
}

/// Folds the network list into the name-keyed network map, or `None` when
/// the list is empty: a host without networks is not a valid topology.
pub fn get_network_map(networks: &Vec<Network>) -> (r: Option<NetworkMap>)
    ensures
        networks@.len() == 0 <==> r is None,
        match r {
            Some(m) => m@ == network_map_model(networks@.map(|i: int, n: Network| n@)) && m@.len()
                > 0,
            None => true,
        },
{
    let ghost ns: Seq<NetworkModel> = networks@.map(|i: int, n: Network| n@);
    let mut map = NetworkMap::new();
    let mut i: usize = 0;
    while i < networks.len()
        invariant
            0 <= i <= networks.len(),
            ns == networks@.map(|k: int, n: Network| n@),
            ns.len() == networks@.len(),
            map@ =~= network_map_model(ns).take(i as int),
        decreases networks.len() - i,
    {
        let network = &networks[i];
        let key = clone_string(&network.name);
        let ghost km: Seq<char> = key@;
        let ghost prev = map@;
        map.entries.push(NetworkMapEntry { key, value: network.clone() });
        proof {
            assert(ns[i as int] == network@);
            assert(network_map_model(ns)[i as int] == (ns[i as int].name, ns[i as int]));
            assert(map.entries@.last().key@ == km);
            assert(map.entries@.last().value@ == network@);
            assert(map@ =~= prev.push((km, network@)));
            assert(network_map_model(ns).take(i + 1) =~= network_map_model(ns).take(i as int).push(
                network_map_model(ns)[i as int],
            ));
        }
        i += 1;
    }
    proof {
        assert(network_map_model(ns).take(networks@.len() as int) =~= network_map_model(ns));
    }
    if map.entries.len() == 0 {
        None
    } else {
        Some(map)
    }
}

} // verus!
