//! The configuration of the shell: global settings and named connections.
use vstd::prelude::*;

use crate::error::CmisError;
use crate::table::{Keyed, find_key, has_key, lemma_first_key, lookup};
use crate::text::{sort_strings, sorted, views};

verus! {

/// How the children of a folder are listed.
#[derive(PartialEq, Eq, Structural, Clone, Copy)]
pub enum GetChildrenMethod {
    /// With the `children` selector of the browser binding.
    Selector,
    /// With a query on the folder.
    Query,
}

impl Default for GetChildrenMethod {
    fn default() -> (res: Self)
        ensures
            res == GetChildrenMethod::Selector,
    {
        GetChildrenMethod::Selector
    }
}

/// Settings that hold for every connection.
pub struct ConfigGlobal {
    /// The number of items asked for in one page.
    pub paging_size: usize,
    /// How children of folders are listed.
    pub get_children_method: GetChildrenMethod,
}

impl Default for ConfigGlobal {
    fn default() -> (res: Self)
        ensures
            res.paging_size == 0,
            res.get_children_method == GetChildrenMethod::Selector,
    {
        ConfigGlobal { paging_size: 0, get_children_method: GetChildrenMethod::default() }
    }
}

/// The credentials of a connection.
pub struct ConfigAuth {
    pub issuer: String,
    pub client_id: String,
    pub client_secret: String,
    pub expiration_grace_period: u64,
}

impl Default for ConfigAuth {
    fn default() -> (res: Self)
        ensures
            res.issuer@ == Seq::<char>::empty(),
            res.client_id@ == Seq::<char>::empty(),
            res.client_secret@ == Seq::<char>::empty(),
            res.expiration_grace_period == 0,
    {
        ConfigAuth {
            issuer: String::new(),
            client_id: String::new(),
            client_secret: String::new(),
            expiration_grace_period: 0,
        }
    }
}

/// A named connection to a CMIS server.
pub struct ConfigConnection {
    /// The name under which the configuration lists the connection.
    pub name: String,
    pub url: String,
    /// The repository chosen after login when none is named.
    pub initial_repo: String,
    pub auth: ConfigAuth,
    /// Headers sent with every request, in order.
    pub extra_headers: Vec<(String, String)>,
}

impl Default for ConfigConnection {
    fn default() -> (res: Self)
        ensures
            res.name@ == Seq::<char>::empty(),
            res.url@ == Seq::<char>::empty(),
            res.initial_repo@ == Seq::<char>::empty(),
            res.auth.issuer@ == Seq::<char>::empty(),
            res.auth.client_id@ == Seq::<char>::empty(),
            res.auth.client_secret@ == Seq::<char>::empty(),
            res.auth.expiration_grace_period == 0,
            res.extra_headers@.len() == 0,
    {
        ConfigConnection {
            name: String::new(),
            url: String::new(),
            initial_repo: String::new(),
            auth: ConfigAuth::default(),
            extra_headers: Vec::new(),
        }
    }
}

impl Keyed for ConfigConnection {
    open spec fn key(&self) -> Seq<char> {
        self.name@
    }

    fn key_str(&self) -> (res: &str) {
        self.name.as_str()
    }
}

/// Whether two connections agree in everything but their names.
pub open spec fn same_settings(a: ConfigConnection, b: ConfigConnection) -> bool {
    &&& a.url == b.url
    &&& a.initial_repo == b.initial_repo
    &&& a.auth == b.auth
    &&& a.extra_headers == b.extra_headers
}

/// Whether the keys of the entries are pairwise different, as those of a map.
pub open spec fn distinct_keys(entries: Seq<(String, ConfigConnection)>) -> bool {
    forall|i: int, j: int|
        0 <= i < j < entries.len() ==> (#[trigger] entries[i]).0@ != (#[trigger] entries[j]).0@
}

/// Whether no two connections have the same name.
pub open spec fn distinct_names(connections: Seq<ConfigConnection>) -> bool {
    forall|i: int, j: int|
        0 <= i < j < connections.len() ==> (#[trigger] connections[i]).name@ != (
        #[trigger] connections[j]).name@
}

/// The configuration of the shell: global settings and connections, no two
/// of which have the same name.
pub struct Config {
    global: ConfigGlobal,
    connections: Vec<ConfigConnection>,
}

/// The names of the connections, in the order of the configuration.
pub open spec fn connection_names_of(connections: Seq<ConfigConnection>) -> Seq<Seq<char>> {
    connections.map_values(|c: ConfigConnection| c.name@)
}

impl Config {
    /// Connection names are unique.
    #[verifier::type_invariant]
    spec fn names_unique(&self) -> bool {
        distinct_names(self.connections@)
    }

    /// The global settings.
    pub closed spec fn spec_global(&self) -> ConfigGlobal {
        self.global
    }

    /// The connections, in order.
    pub closed spec fn spec_connections(&self) -> Seq<ConfigConnection> {
        self.connections@
    }

    /// The global settings.
    pub fn global(&self) -> (res: &ConfigGlobal)
        ensures
            *res == self.spec_global(),
    {
        &self.global
    }

    /// The connections, in order; no two have the same name.
    pub fn connections(&self) -> (res: &Vec<ConfigConnection>)
        ensures
            res@ == self.spec_connections(),
            distinct_names(res@),
    {
        proof {
            use_type_invariant(self);
        }
        &self.connections
    }
}

impl Default for Config {
    /// The configuration written when there is none: a page size of 100000
    /// and one example connection.
    fn default() -> (res: Self)
        ensures
            res.spec_global().paging_size == 100000,
            res.spec_global().get_children_method == GetChildrenMethod::Selector,
            res.spec_connections().len() == 1,
            res.spec_connections()[0].name@ == "example"@,
            res.spec_connections()[0].url@ == "https://example.io/browser"@,
            res.spec_connections()[0].initial_repo@ == "R1"@,
            res.spec_connections()[0].auth.issuer@ == "issuerUrl"@,
            res.spec_connections()[0].auth.client_id@ == "clientID"@,
            res.spec_connections()[0].auth.client_secret@ == "clientSecret"@,
            res.spec_connections()[0].auth.expiration_grace_period == 30,
            res.spec_connections()[0].extra_headers@.len() == 1,
            res.spec_connections()[0].extra_headers@[0].0@ == "Ocp-Apim-Subscription-Key"@,
            res.spec_connections()[0].extra_headers@[0].1@ == "subscriptionKey"@,
    {
        let mut extra_headers: Vec<(String, String)> = Vec::new();
        extra_headers.push(
            (String::from_str("Ocp-Apim-Subscription-Key"), String::from_str("subscriptionKey")),
        );
        let mut connections: Vec<ConfigConnection> = Vec::new();
        connections.push(
            ConfigConnection {
                name: String::from_str("example"),
                url: String::from_str("https://example.io/browser"),
                initial_repo: String::from_str("R1"),
                auth: ConfigAuth {
                    issuer: String::from_str("issuerUrl"),
                    client_id: String::from_str("clientID"),
                    client_secret: String::from_str("clientSecret"),
                    expiration_grace_period: 30,
                },
                extra_headers,
            },
        );
        Config {
            global: ConfigGlobal {
                paging_size: 100000,
                get_children_method: GetChildrenMethod::Selector,
            },
            connections,
        }
    }
}

impl Config {
    /// The configuration with the given settings and connections, each
    /// connection named after the key under which the configuration file
    /// lists it.
    pub fn from_entries(global: ConfigGlobal, entries: Vec<(String, ConfigConnection)>) -> (res:
        Config)
        requires
            distinct_keys(entries@),
        ensures
            res.spec_global() == global,
            res.spec_connections().len() == entries@.len(),
            forall|i: int|
                0 <= i < entries@.len() ==> (#[trigger] res.spec_connections()[i]).name@
                    == entries@[i].0@ && same_settings(res.spec_connections()[i], entries@[i].1),
    {
        let mut connections: Vec<ConfigConnection> = Vec::new();
        for entry in it: entries
            invariant
                it.seq() == entries@,
                distinct_keys(entries@),
                connections@.len() == it.index(),
                forall|i: int|
                    0 <= i < it.index() ==> (#[trigger] connections@[i]).name@ == entries@[i].0@
                        && same_settings(connections@[i], entries@[i].1),
        {
            let (key, connection) = entry;
            let mut connection = connection;
            connection.name = key;
            connections.push(connection);
        }
        assert(distinct_names(connections@)) by {
            assert forall|i: int, j: int| 0 <= i < j < connections@.len() implies (
            #[trigger] connections@[i]).name@ != (#[trigger] connections@[j]).name@ by {
                assert(entries@[i].0@ != entries@[j].0@);
            }
        }
        Config { global, connections }
    }

    /// The connection with the given name: the only one that has it.
    pub fn get_connection(&self, name: &str) -> (res: Option<&ConfigConnection>)
        ensures
            match res {
                Some(c) => lookup(self.spec_connections(), name@) == Some(*c) && c.name@ == name@
                    && forall|j: int|
                    0 <= j < self.spec_connections().len() && (
                    #[trigger] self.spec_connections()[j]).name@ == name@ ==> self.spec_connections()[j]
                        == *c,
                None => !has_key(self.spec_connections(), name@),
            },
    {
        proof {
            use_type_invariant(self);
        }
        let found = find_key(&self.connections, name);
        match found {
            Some(i) => {
                proof {
                    lemma_first_key(self.connections@, name@);
                    assert forall|j: int|
                        0 <= j < self.connections@.len() && (
                        #[trigger] self.connections@[j]).name@ == name@ implies self.connections@[j]
                        == self.connections@[i as int] by {
                        if j < i {
                            assert(self.connections@[j].key() == name@);
                        } else if j > i {
                            assert(self.connections@[i as int].name@ != self.connections@[j].name@);
                        }
                    }
                }
                Some(&self.connections[i])
            },
            None => None,
        }
    }

    /// The connection that a session with the given connection name uses, or
    /// the error for a name that the configuration lacks.
    pub fn session_connection(&self, name: &str) -> (res: Result<&ConfigConnection, CmisError>)
        ensures
            match res {
                Ok(c) => lookup(self.spec_connections(), name@) == Some(*c) && c.name@ == name@,
                Err(e) => !has_key(self.spec_connections(), name@) && (e matches CmisError::NoConnectionConfig(n)
                    && n@ == name@),
            },
    {
        match self.get_connection(name) {
            Some(c) => Ok(c),
            None => Err(CmisError::NoConnectionConfig(String::from_str(name))),
        }
    }

    /// The names of all connections, sorted.
    pub fn connection_names(&self) -> (res: Vec<String>)
        ensures
            sorted(views(res@)),
            views(res@).to_multiset() == connection_names_of(self.spec_connections()).to_multiset(),
    {
        let mut names: Vec<String> = Vec::new();
        let n = self.connections.len();
        for i in 0..n
            invariant
                n == self.connections@.len(),
                views(names@) == connection_names_of(self.connections@).take(i as int),
        {
            let ghost before = views(names@);
            names.push(self.connections[i].name.clone());
            assert(views(names@) == before.push(self.connections@[i as int].name@));
            assert(connection_names_of(self.connections@).take(i + 1) == connection_names_of(
                self.connections@,
            ).take(i as int).push(self.connections@[i as int].name@));
        }
        assert(connection_names_of(self.connections@).take(n as int) == connection_names_of(
            self.connections@,
        ));
        sort_strings(names)
    }
}

/// After loading, looking up a connection by the key the configuration file
/// gave it finds that connection, named after the key.
pub proof fn lemma_loaded_lookup(
    entries: Seq<(String, ConfigConnection)>,
    connections: Seq<ConfigConnection>,
    i: int,
)
    requires
        distinct_keys(entries),
        connections.len() == entries.len(),
        forall|j: int|
            0 <= j < entries.len() ==> (#[trigger] connections[j]).name@ == entries[j].0@
                && same_settings(connections[j], entries[j].1),
        0 <= i < entries.len(),
    ensures
        lookup(connections, entries[i].0@) == Some(connections[i]),
        same_settings(connections[i], entries[i].1),
        connections[i].name@ == entries[i].0@,
{
    let key = entries[i].0@;
    assert(connections[i].key() == key);
    assert forall|j: int| 0 <= j < i implies (#[trigger] connections[j]).key() != key by {
        assert(entries[j].0@ != entries[i].0@);
    }
    lemma_first_key(connections, key);
}

/// In connections with distinct names, a lookup by a connection's name finds
/// that connection.
proof fn lemma_named_lookup(connections: Seq<ConfigConnection>, j: int)
    requires
        distinct_names(connections),
        0 <= j < connections.len(),
    ensures
        lookup(connections, connections[j].name@) == Some(connections[j]),
{
    let key = connections[j].name@;
    assert(connections[j].key() == key);
    assert forall|k: int| 0 <= k < j implies (#[trigger] connections[k]).key() != key by {
        assert(connections[k].name@ != connections[j].name@);
    }
    lemma_first_key(connections, key);
}

/// Writing the connections `saved` to the configuration file and loading it
/// back: the file lists each connection once, under its name and without it,
/// and hands the entries back in some order; `Config::from_entries` makes
/// `loaded` of them. The loaded configuration then has a connection under
/// exactly the names of the saved one, named so, with the settings saved.
pub proof fn lemma_load_after_save(
    saved: Seq<ConfigConnection>,
    entries: Seq<(String, ConfigConnection)>,
    loaded: Seq<ConfigConnection>,
    name: Seq<char>,
)
    requires
        distinct_names(saved),
        distinct_keys(entries),
        forall|i: int|
            0 <= i < entries.len() ==> exists|j: int|
                0 <= j < saved.len() && (#[trigger] entries[i]).0@ == (#[trigger] saved[j]).name@
                    && same_settings(entries[i].1, saved[j]),
        forall|j: int|
            0 <= j < saved.len() ==> exists|i: int|
                0 <= i < entries.len() && (#[trigger] entries[i]).0@ == (#[trigger] saved[j]).name@,
        loaded.len() == entries.len(),
        forall|i: int|
            0 <= i < entries.len() ==> (#[trigger] loaded[i]).name@ == entries[i].0@
                && same_settings(loaded[i], entries[i].1),
    ensures
        has_key(loaded, name) == has_key(saved, name),
        has_key(saved, name) ==> {
            &&& lookup(loaded, name) matches Some(c) && c.name@ == name
            &&& same_settings(lookup(loaded, name)->0, lookup(saved, name)->0)
        },
{
    if has_key(saved, name) {
        let j = choose|j: int| 0 <= j < saved.len() && (#[trigger] saved[j]).key() == name;
        let i = choose|i: int|
            0 <= i < entries.len() && (#[trigger] entries[i]).0@ == (#[trigger] saved[j]).name@;
        let j2 = choose|j2: int|
            0 <= j2 < saved.len() && (#[trigger] entries[i]).0@ == (#[trigger] saved[j2]).name@
                && same_settings(entries[i].1, saved[j2]);
        if j2 != j {
            if j2 < j {
                assert(saved[j2].name@ != saved[j].name@);
            } else {
                assert(saved[j].name@ != saved[j2].name@);
            }
        }
        lemma_named_lookup(saved, j);
        lemma_loaded_lookup(entries, loaded, i);
        assert(loaded[i].key() == name);
    } else {
        assert forall|i: int| 0 <= i < loaded.len() implies (#[trigger] loaded[i]).key() != name by {
            let j = choose|j: int|
                0 <= j < saved.len() && (#[trigger] entries[i]).0@ == (#[trigger] saved[j]).name@
                    && same_settings(entries[i].1, saved[j]);
            assert(saved[j].key() == saved[j].name@);
        }
    }
}

} // verus!
