//! Configuration, as the core consumes it once parsed: the servers to connect
//! to, and one option mapping per plugin.
use vstd::prelude::*;

verus! {

/// The value of the first entry with key `k`.
pub open spec fn lookup(es: Seq<(String, String)>, k: Seq<char>) -> Option<Seq<char>>
    decreases es.len(),
{
    if es.len() == 0 {
        None
    } else if es[0].0@ == k {
        Some(es[0].1@)
    } else {
        lookup(es.drop_first(), k)
    }
}

/// Index of the first entry with key `k`.
pub open spec fn position(es: Seq<(String, String)>, k: Seq<char>) -> Option<int>
    decreases es.len(),
{
    if es.len() == 0 {
        None
    } else if es[0].0@ == k {
        Some(0)
    } else {
        match position(es.drop_first(), k) {
            Some(i) => Some(i + 1),
            None => None,
        }
    }
}

proof fn lemma_position(es: Seq<(String, String)>, k: Seq<char>)
    ensures
        position(es, k) matches Some(i) ==> 0 <= i < es.len() && es[i].0@ == k && lookup(es, k)
            == Some(es[i].1@) && forall|j: int| 0 <= j < i ==> es[j].0@ != k,
        position(es, k) is None ==> lookup(es, k) is None && forall|j: int|
            0 <= j < es.len() ==> es[j].0@ != k,
    decreases es.len(),
{
    if es.len() > 0 && es[0].0@ != k {
        lemma_position(es.drop_first(), k);
        assert forall|j: int| 1 <= j < es.len() implies es[j] == es.drop_first()[j - 1] by {}
    }
}

/// Options of one plugin: a mapping from key to value that the core hands
/// over without reading it.
#[derive(Clone, Debug)]
pub struct PluginConfig {
    entries: Vec<(String, String)>,
}

impl PluginConfig {
    /// The value the option `k` holds.
    pub closed spec fn spec_get(&self, k: Seq<char>) -> Option<Seq<char>> {
        lookup(self.entries@, k)
    }

    /// A mapping with no option.
    pub fn new() -> (c: PluginConfig)
        ensures
            forall|k: Seq<char>| c.spec_get(k) is None,
    {
        PluginConfig { entries: Vec::new() }
    }

    fn find(&self, key: &String) -> (r: Option<usize>)
        ensures
            match r {
                Some(i) => position(self.entries@, key@) == Some(i as int),
                None => position(self.entries@, key@) is None,
            },
    {
        proof {
            lemma_position(self.entries@, key@);
        }
        let mut i: usize = 0;
        while i < self.entries.len()
            invariant
                i <= self.entries@.len(),
                forall|j: int| 0 <= j < i ==> self.entries@[j].0@ != key@,
                position(self.entries@, key@) matches Some(p) ==> i <= p && forall|j: int|
                    0 <= j < p ==> self.entries@[j].0@ != key@,
                position(self.entries@, key@) matches Some(p) ==> 0 <= p < self.entries@.len()
                    && self.entries@[p].0@ == key@,
                position(self.entries@, key@) is None ==> forall|j: int|
                    0 <= j < self.entries@.len() ==> self.entries@[j].0@ != key@,
            decreases self.entries@.len() - i,
        {
            if self.entries[i].0 == *key {
                return Some(i);
            }
            i = i + 1;
        }
        None
    }

    /// Sets option `key` to `value`.
    pub fn insert(&mut self, key: String, value: String)
        ensures
            forall|k: Seq<char>|
                #[trigger] final(self).spec_get(k) == if k == key@ {
                    Some(value@)
                } else {
                    old(self).spec_get(k)
                },
    {
        let ghost es = self.entries@;
        let ghost (kv, vv) = (key@, value@);
        match self.find(&key) {
            Some(i) => {
                proof {
                    lemma_position(es, kv);
                }
                self.entries.set(i, (key, value));
                proof {
                    assert forall|k: Seq<char>| #[trigger]
                        lookup(self.entries@, k) == if k == kv {
                            Some(vv)
                        } else {
                            lookup(es, k)
                        } by {
                        lemma_lookup_update(es, i as int, kv, self.entries@[i as int], k);
                    }
                }
            },
            None => {
                self.entries.push((key, value));
                proof {
                    assert forall|k: Seq<char>| #[trigger]
                        lookup(self.entries@, k) == if k == kv {
                            Some(vv)
                        } else {
                            lookup(es, k)
                        } by {
                        lemma_position(es, kv);
                        lemma_lookup_push(es, self.entries@.last(), k);
                    }
                }
            },
        }
    }

    /// The value of option `key`.
    pub fn get(&self, key: &str) -> (r: Option<&String>)
        ensures
            match r {
                Some(v) => self.spec_get(key@) == Some(v@),
                None => self.spec_get(key@) is None,
            },
    {
        let k = String::from_str(key);
        proof {
            lemma_position(self.entries@, key@);
        }
        match self.find(&k) {
            Some(i) => Some(&self.entries[i].1),
            None => None,
        }
    }
}

proof fn lemma_lookup_update(
    es: Seq<(String, String)>,
    i: int,
    kv: Seq<char>,
    e: (String, String),
    k: Seq<char>,
)
    requires
        position(es, kv) == Some(i),
        e.0@ == kv,
    ensures
        lookup(es.update(i, e), k) == if k == kv {
            Some(e.1@)
        } else {
            lookup(es, k)
        },
    decreases es.len(),
{
    lemma_position(es, kv);
    let u = es.update(i, e);
    if i == 0 {
        assert(u.drop_first() =~= es.drop_first());
    } else {
        assert(u[0] == es[0]);
        assert(u.drop_first() =~= es.drop_first().update(i - 1, e));
        lemma_lookup_update(es.drop_first(), i - 1, kv, e, k);
    }
}

proof fn lemma_lookup_push(es: Seq<(String, String)>, e: (String, String), k: Seq<char>)
    requires
        forall|j: int| 0 <= j < es.len() ==> es[j].0@ != e.0@,
    ensures
        lookup(es.push(e), k) == if k == e.0@ {
            Some(e.1@)
        } else {
            lookup(es, k)
        },
    decreases es.len(),
{
    if es.len() == 0 {
        assert(es.push(e).drop_first() =~= es);
    } else {
        assert(es.push(e)[0] == es[0]);
        assert(es.push(e).drop_first() =~= es.drop_first().push(e));
        assert forall|j: int| 0 <= j < es.drop_first().len() implies es.drop_first()[j].0@ != e.0@ by {
            assert(es.drop_first()[j] == es[j + 1]);
        }
        lemma_lookup_push(es.drop_first(), e, k);
    }
}

/// One server to connect to, and how to present there.
#[derive(Clone, Debug)]
pub struct Bot {
    /// Host name of the server.
    pub host: String,
    pub port: u16,
    /// Whether the connection uses TLS.
    pub use_tls: bool,
    pub nick: String,
    pub ident: String,
    pub real_name: String,
    /// Channels to join once registered.
    pub channels: Vec<String>,
}

/// The whole configuration: every server, and the options of every plugin by
/// plugin name.
#[derive(Clone, Debug)]
pub struct Config {
    pub bots: Vec<Bot>,
    pub plugins: Vec<(String, PluginConfig)>,
}

/// No server in the configuration has the requested host name.
#[derive(Clone, Copy, Debug, PartialEq, Eq)]
pub struct UnknownServer;

impl Config {
    /// The first server entry whose host name is `server`.
    pub fn find_bot(&self, server: &str) -> (r: Result<&Bot, UnknownServer>)
        ensures
            match r {
                Ok(b) => exists|i: int|
                    0 <= i < self.bots@.len() && self.bots@[i] == *b && b.host@ == server@
                        && forall|j: int| 0 <= j < i ==> self.bots@[j].host@ != server@,
                Err(_) => forall|i: int|
                    0 <= i < self.bots@.len() ==> self.bots@[i].host@ != server@,
            },
    {
        let s = String::from_str(server);
        let mut i: usize = 0;
        while i < self.bots.len()
            invariant
                s@ == server@,
                i <= self.bots@.len(),
                forall|j: int| 0 <= j < i ==> self.bots@[j].host@ != server@,
            decreases self.bots@.len() - i,
        {
            if self.bots[i].host == s {
                return Ok(&self.bots[i]);
            }
            i = i + 1;
        }
        Err(UnknownServer)
    }

    /// The options of the plugin called `name`, from its first entry.
    pub fn plugin_config(&self, name: &str) -> (r: Option<&PluginConfig>)
        ensures
            match r {
                Some(c) => exists|i: int|
                    0 <= i < self.plugins@.len() && self.plugins@[i].1 == *c
                        && self.plugins@[i].0@ == name@ && forall|j: int|
                        0 <= j < i ==> self.plugins@[j].0@ != name@,
                None => forall|i: int|
                    0 <= i < self.plugins@.len() ==> self.plugins@[i].0@ != name@,
            },
    {
        let s = String::from_str(name);
        let mut i: usize = 0;
        while i < self.plugins.len()
            invariant
                s@ == name@,
                i <= self.plugins@.len(),
                forall|j: int| 0 <= j < i ==> self.plugins@[j].0@ != name@,
            decreases self.plugins@.len() - i,
        {
            if self.plugins[i].0 == s {
                return Some(&self.plugins[i].1);
            }
            i = i + 1;
        }
        None
    }
}

} // verus!
