//! Server configuration as plain values.

use crate::json::strings_view;
use crate::sorting::sort_strings;
use crate::sorting::sorted;
use crate::text::str_eq;
use vstd::prelude::*;
use vstd::seq_lib::to_multiset_insert;
use vstd::seq_lib::to_multiset_remove;
use vstd::string::StringExecFns;

verus! {

/// One model of a provider: the name shown to users and the provider's own
/// name for it.
pub struct ModelEntry {
    pub display_name: String,
    pub model: String,
}

/// One AI provider.
pub struct AiServerDetail {
    /// The kind of provider, such as `openai`.
    pub server_type: String,
    pub url: String,
    pub token: String,
    /// The models of this provider, looked up by display name; the first
    /// entry with a name counts.
    pub model_list: Vec<ModelEntry>,
}

/// A provider under its configured name.
pub struct NamedServer {
    pub name: String,
    pub detail: AiServerDetail,
}

/// The providers, the default model and the TLS files.
pub struct ServerConfig {
    /// The providers, looked up by name; the first entry with a name counts.
    pub servers: Vec<NamedServer>,
    /// The default model, as `server:display_name`.
    pub default: String,
    pub ssl_cert: Option<String>,
    pub ssl_key: Option<String>,
}

/// Where the task store lives.
pub struct DatabaseConfig {
    pub path: String,
}

/// Where transcripts and attachments are kept.
pub struct StorageConfig {
    pub chat_dir: String,
    pub attachment_dir: String,
}

/// How many tasks may run at once.
pub struct ConcurrencyConfig {
    pub max_concurrent_tasks: usize,
}

/// The whole configuration of a server.
pub struct Config {
    pub server: ServerConfig,
    pub database: DatabaseConfig,
    pub storage: StorageConfig,
    pub concurrency: ConcurrencyConfig,
}

/// The index of the first provider called `name`, or `-1`.
pub open spec fn server_index(servers: Seq<NamedServer>, name: Seq<char>) -> int
    decreases servers.len(),
{
    if servers.len() == 0 {
        -1
    } else if servers[0].name@ == name {
        0
    } else {
        let rest = server_index(servers.drop_first(), name);
        if rest < 0 {
            -1
        } else {
            rest + 1
        }
    }
}

/// The index of the first model shown as `display_name`, or `-1`.
pub open spec fn model_index(models: Seq<ModelEntry>, display_name: Seq<char>) -> int
    decreases models.len(),
{
    if models.len() == 0 {
        -1
    } else if models[0].display_name@ == display_name {
        0
    } else {
        let rest = model_index(models.drop_first(), display_name);
        if rest < 0 {
            -1
        } else {
            rest + 1
        }
    }
}

/// A found index lies within the sequence.
pub proof fn lemma_server_index_bound(servers: Seq<NamedServer>, name: Seq<char>)
    ensures
        -1 <= server_index(servers, name) < servers.len(),
        server_index(servers, name) >= 0 ==> servers[server_index(servers, name)].name@ == name,
    decreases servers.len(),
{
    if servers.len() > 0 && servers[0].name@ != name {
        lemma_server_index_bound(servers.drop_first(), name);
    }
}

/// A found index lies within the sequence.
pub proof fn lemma_model_index_bound(models: Seq<ModelEntry>, display_name: Seq<char>)
    ensures
        -1 <= model_index(models, display_name) < models.len(),
        model_index(models, display_name) >= 0 ==> models[model_index(
            models,
            display_name,
        )].display_name@ == display_name,
    decreases models.len(),
{
    if models.len() > 0 && models[0].display_name@ != display_name {
        lemma_model_index_bound(models.drop_first(), display_name);
    }
}

impl ServerConfig {
    /// The first provider called `name`.
    pub fn find_server(&self, name: &Vec<char>) -> (r: Option<usize>)
        ensures
            match r {
                Some(i) => i == server_index(self.servers@, name@) && i < self.servers.len(),
                None => server_index(self.servers@, name@) == -1,
            },
    {
        let mut i: usize = 0;
        assert(self.servers@.skip(0) =~= self.servers@);
        while i < self.servers.len()
            invariant
                i <= self.servers.len(),
                server_index(self.servers@, name@) == if server_index(
                    self.servers@.skip(i as int),
                    name@,
                ) < 0 {
                    -1
                } else {
                    i + server_index(self.servers@.skip(i as int), name@)
                },
            decreases self.servers.len() - i,
        {
            assert(self.servers@.skip(i as int).drop_first() =~= self.servers@.skip(i + 1));
            if crate::text::chars_eq(&crate::text::chars_of(self.servers[i].name.as_str()), name) {
                return Some(i);
            }
            i += 1;
        }
        None
    }
}

impl AiServerDetail {
    /// The first model shown as `display_name`.
    pub fn find_model(&self, display_name: &Vec<char>) -> (r: Option<usize>)
        ensures
            match r {
                Some(i) => i == model_index(self.model_list@, display_name@) && i
                    < self.model_list.len(),
                None => model_index(self.model_list@, display_name@) == -1,
            },
    {
        let mut i: usize = 0;
        assert(self.model_list@.skip(0) =~= self.model_list@);
        while i < self.model_list.len()
            invariant
                i <= self.model_list.len(),
                model_index(self.model_list@, display_name@) == if model_index(
                    self.model_list@.skip(i as int),
                    display_name@,
                ) < 0 {
                    -1
                } else {
                    i + model_index(self.model_list@.skip(i as int), display_name@)
                },
            decreases self.model_list.len() - i,
        {
            assert(self.model_list@.skip(i as int).drop_first() =~= self.model_list@.skip(i + 1));
            if crate::text::chars_eq(
                &crate::text::chars_of(self.model_list[i].display_name.as_str()),
                display_name,
            ) {
                return Some(i);
            }
            i += 1;
        }
        None
    }
}

/// The identifiers of a provider's models, `name:display_name` each, in the
/// order of its model list.
pub open spec fn server_models(name: Seq<char>, models: Seq<ModelEntry>) -> Seq<Seq<char>>
    decreases models.len(),
{
    if models.len() == 0 {
        Seq::empty()
    } else {
        server_models(name, models.drop_last()).push(name + ":"@ + models.last().display_name@)
    }
}

/// The identifiers of all models of all providers.
pub open spec fn all_models(servers: Seq<NamedServer>) -> Seq<Seq<char>>
    decreases servers.len(),
{
    if servers.len() == 0 {
        Seq::empty()
    } else {
        all_models(servers.drop_last()) + server_models(
            servers.last().name@,
            servers.last().detail.model_list@,
        )
    }
}

impl Config {
    /// The identifiers of all models of all providers, in configuration
    /// order.
    pub fn model_names(&self) -> (names: Vec<String>)
        ensures
            strings_view(names@) == all_models(self.server.servers@),
    {
        let mut names: Vec<String> = Vec::new();
        let ghost servers = self.server.servers@;
        assert(strings_view(names@) =~= all_models(servers.take(0)));
        let mut i: usize = 0;
        while i < self.server.servers.len()
            invariant
                i <= self.server.servers.len(),
                servers == self.server.servers@,
                strings_view(names@) == all_models(servers.take(i as int)),
            decreases self.server.servers.len() - i,
        {
            let server = &self.server.servers[i];
            let ghost base = strings_view(names@);
            let ghost models = server.detail.model_list@;
            assert(servers.take(i + 1).drop_last() =~= servers.take(i as int));
            assert(base =~= base + server_models(server.name@, models.take(0)));
            let mut j: usize = 0;
            while j < server.detail.model_list.len()
                invariant
                    j <= server.detail.model_list.len(),
                    models == server.detail.model_list@,
                    strings_view(names@) == base + server_models(server.name@, models.take(j as int)),
                decreases server.detail.model_list.len() - j,
            {
                let name = String::from_str(server.name.as_str()).concat(":").concat(
                    server.detail.model_list[j].display_name.as_str(),
                );
                let ghost before = strings_view(names@);
                names.push(name);
                proof {
                    assert(models.take(j + 1).drop_last() =~= models.take(j as int));
                    assert(strings_view(names@) =~= before.push(name@));
                    assert(strings_view(names@) =~= base + server_models(
                        server.name@,
                        models.take(j + 1),
                    ));
                }
                j += 1;
            }
            assert(models.take(models.len() as int) =~= models);
            i += 1;
        }
        assert(servers.take(servers.len() as int) =~= servers);
        names
    }

    /// The models on offer, as sent to a client that authenticated: all
    /// model identifiers in ascending order, but the default model first where
    /// it is among them.
    pub fn available_models(&self) -> (names: Vec<String>)
        ensures
            strings_view(names@).to_multiset() == all_models(self.server.servers@).to_multiset(),
            (exists|i: int| 0 <= i < names@.len() && names@[i]@ == self.server.default@)
                ==> names@[0]@ == self.server.default@,
            sorted(
                strings_view(names@).skip(
                    if names@.len() > 0 && names@[0]@ == self.server.default@ {
                        1int
                    } else {
                        0int
                    },
                ),
            ),
    {
        let mut names = sort_strings(&self.model_names());
        let ghost ordered = strings_view(names@);
        let mut i: usize = 0;
        while i < names.len()
            invariant
                i <= names.len(),
                ordered == strings_view(names@),
                sorted(ordered),
                ordered.to_multiset() == all_models(self.server.servers@).to_multiset(),
                forall|k: int| 0 <= k < i ==> ordered[k] != self.server.default@,
            decreases names.len() - i,
        {
            if str_eq(names[i].as_str(), self.server.default.as_str()) {
                let found = names.remove(i);
                let ghost rest = strings_view(names@);
                names.insert(0, found);
                proof {
                    assert(rest =~= ordered.remove(i as int));
                    let after = strings_view(names@);
                    assert(after =~= rest.insert(0, found@));
                    broadcast use vstd::multiset::group_multiset_axioms;

                    to_multiset_remove(ordered, i as int);
                    to_multiset_insert(rest, 0, found@);
                    ordered.to_multiset_ensures();
                    assert(ordered[i as int] == found@);
                    assert(ordered.to_multiset().count(found@) > 0);
                    assert(after.to_multiset() =~= ordered.to_multiset());
                    assert(after[0] == found@);
                    assert(after.skip(1) =~= rest);
                    assert forall|a: int, b: int| 0 <= a < b < rest.len() implies crate::sorting::lex_le(
                        rest[a],
                        rest[b],
                    ) by {
                        let a0 = if a < i {
                            a
                        } else {
                            a + 1
                        };
                        let b0 = if b < i {
                            b
                        } else {
                            b + 1
                        };
                        assert(rest[a] == ordered[a0] && rest[b] == ordered[b0]);
                    }
                }
                return names;
            }
            i += 1;
        }
        proof {
            assert(ordered.skip(0) =~= ordered);
            assert forall|k: int| 0 <= k < names@.len() implies names@[k]@
                != self.server.default@ by {
                assert(ordered[k] == names@[k]@);
            }
        }
        names
    }
}

} // verus!
