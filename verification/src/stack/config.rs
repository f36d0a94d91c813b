//! The configuration of a stack: its variables and its installed plugins.

use vstd::prelude::*;

use crate::component::PluginMeta;
use crate::pairs::{
    entry_names_unique, find_name, lemma_pairs_map_index, named_map, names_unique, pairs_map,
    set_entry,
};
use crate::substitute::{substitute, substituted};

verus! {

/// The stack's own manifest: the variables that every plugin receives
/// unless it sets them itself (no name twice).
pub struct StackMeta {
    pub variables: Vec<(String, String)>,
}

/// The configuration of a stack: its manifest, the directory of each
/// installed plugin and the manifest of each, both by plugin id.
pub struct StackConfig {
    pub meta: StackMeta,
    pub plugin_paths: Vec<(String, String)>,
    pub plugins: Vec<(String, PluginMeta)>,
}

impl StackConfig {
    /// Whether every plugin id occurs once among the plugins and once among
    /// the directories.
    pub open spec fn well_formed(&self) -> bool {
        &&& entry_names_unique(self.plugin_paths@)
        &&& entry_names_unique(self.plugins@)
    }

    /// The plugins by id.
    pub open spec fn plugin_map(&self) -> Map<Seq<char>, PluginMeta> {
        named_map(self.plugins@)
    }

    /// The plugin directories by id.
    pub open spec fn path_map(&self) -> Map<Seq<char>, String> {
        named_map(self.plugin_paths@)
    }

    /// A configuration without plugins.
    pub fn new(meta: StackMeta) -> (config: StackConfig)
        ensures
            config.well_formed(),
            config.meta == meta,
            config.plugin_map() == Map::<Seq<char>, PluginMeta>::empty(),
            config.path_map() == Map::<Seq<char>, String>::empty(),
    {
        StackConfig { meta, plugin_paths: Vec::new(), plugins: Vec::new() }
    }

    /// Sets the manifest of the plugin `id`, replacing the one it had.
    pub fn merge_plugin_config(&mut self, id: &str, meta: PluginMeta)
        requires
            old(self).well_formed(),
        ensures
            final(self).well_formed(),
            final(self).meta == old(self).meta,
            final(self).path_map() == old(self).path_map(),
            final(self).plugin_map() == old(self).plugin_map().insert(id@, meta),
    {
        set_entry(&mut self.plugins, id, meta);
    }
}

/// The variables of a plugin after the stack's variables are added: a
/// variable that the plugin sets keeps its value.
pub open spec fn merged_variables(
    plugin: Map<Seq<char>, Seq<char>>,
    stack: Map<Seq<char>, Seq<char>>,
) -> Map<Seq<char>, Seq<char>> {
    stack.union_prefer_right(plugin)
}

/// A value after substitution of the environment into it; a value that
/// substitution refuses stays as it was.
pub open spec fn substituted_or_kept(value: Seq<char>, env: Map<Seq<char>, Seq<char>>) -> Seq<
    char,
> {
    match substituted(value, env) {
        Some(s) => s,
        None => value,
    }
}

/// The variables of a plugin as it runs: its own variables and the stack's,
/// each value with the environment substituted into it.
pub open spec fn configured_variables(
    plugin: Map<Seq<char>, Seq<char>>,
    stack: Map<Seq<char>, Seq<char>>,
    env: Map<Seq<char>, Seq<char>>,
) -> Map<Seq<char>, Seq<char>> {
    let merged = merged_variables(plugin, stack);
    Map::new(|k: Seq<char>| merged.contains_key(k), |k: Seq<char>| substituted_or_kept(merged[k], env))
}

/// Adds the stack's variables to a plugin's variables, keeping the plugin's
/// value of a variable that both set.
pub fn merge_variables(plugin: &mut Vec<(String, String)>, stack: &Vec<(String, String)>)
    requires
        names_unique(old(plugin)@),
        names_unique(stack@),
    ensures
        names_unique(final(plugin)@),
        pairs_map(final(plugin)@) == merged_variables(pairs_map(old(plugin)@), pairs_map(stack@)),
{
    let ghost own = pairs_map(plugin@);
    let ghost theirs = stack@;
    proof {
        lemma_pairs_map_index(plugin@);
        lemma_pairs_map_index(stack@);
    }
    let mut i: usize = 0;
    while i < stack.len()
        invariant
            theirs == stack@,
            names_unique(stack@),
            i <= stack@.len(),
            names_unique(plugin@),
            pairs_map(plugin@) == merged_variables(own, pairs_map(stack@.take(i as int))),
            forall|k: Seq<char>| #[trigger] pairs_map(plugin@).contains_key(k) ==> own.contains_key(k) || exists|j: int| 0 <= j < i && stack@[j].0@ == k,
        decreases stack@.len() - i,
    {
        let ghost before = plugin@;
        proof {
            lemma_pairs_map_index(before);
            assert(stack@.take(i + 1).drop_last() =~= stack@.take(i as int));
        }
        let name = &stack[i].0;
        let value = &stack[i].1;
        match find_name(plugin, name.as_str()) {
            Some(_) => {
                proof {
                    assert(pairs_map(before).contains_key(name@));
                    assert(pairs_map(stack@.take(i + 1)) == pairs_map(stack@.take(i as int)).insert(name@, value@));
                    assert(merged_variables(own, pairs_map(stack@.take(i + 1))) =~= merged_variables(own, pairs_map(stack@.take(i as int))));
                }
            },
            None => {
                plugin.push((name.clone(), value.clone()));
                proof {
                    assert(plugin@.drop_last() =~= before);
                    assert(!pairs_map(before).contains_key(name@)) by {
                        if pairs_map(before).contains_key(name@) {
                            let j = choose|j: int| 0 <= j < before.len() && #[trigger] before[j].0@ == name@;
                        }
                    }
                    assert(!own.contains_key(name@));
                    assert forall|a: int, b: int| 0 <= a < b < plugin@.len() implies plugin@[a].0@ != plugin@[b].0@ by {
                        if b == plugin@.len() - 1 {
                            assert(plugin@[a] == before[a]);
                            assert(pairs_map(before).contains_key(before[a].0@));
                        } else {
                            assert(plugin@[a] == before[a] && plugin@[b] == before[b]);
                        }
                    }
                    assert(merged_variables(own, pairs_map(stack@.take(i + 1))) =~= merged_variables(own, pairs_map(stack@.take(i as int))).insert(name@, value@));
                }
            },
        }
        proof {
            assert forall|k: Seq<char>| #[trigger] pairs_map(plugin@).contains_key(k) implies own.contains_key(k) || exists|j: int| 0 <= j < i + 1 && stack@[j].0@ == k by {
                if k != name@ {
                    assert(pairs_map(before).contains_key(k));
                }
            }
        }
        i = i + 1;
    }
    proof {
        assert(stack@.take(stack@.len() as int) =~= stack@);
    }
}

/// Substitutes the environment into every value; a value that substitution
/// refuses stays as it was.
pub fn substitute_variables(vars: &mut Vec<(String, String)>, env: &Vec<(String, String)>)
    requires
        names_unique(old(vars)@),
    ensures
        names_unique(final(vars)@),
        pairs_map(final(vars)@) == Map::new(
            |k: Seq<char>| pairs_map(old(vars)@).contains_key(k),
            |k: Seq<char>| substituted_or_kept(pairs_map(old(vars)@)[k], pairs_map(env@)),
        ),
{
    let ghost before = vars@;
    let n = vars.len();
    let mut i: usize = 0;
    while i < n
        invariant
            n == vars@.len(),
            before.len() == n,
            i <= n,
            forall|j: int| 0 <= j < n ==> #[trigger] vars@[j].0@ == before[j].0@,
            forall|j: int| 0 <= j < i ==> #[trigger] vars@[j].1@ == substituted_or_kept(before[j].1@, pairs_map(env@)),
            forall|j: int| i <= j < n ==> #[trigger] vars@[j].1@ == before[j].1@,
        decreases n - i,
    {
        let replacement = match substitute(vars[i].1.as_str(), env) {
            Ok(text) => Some(text),
            Err(_) => None,
        };
        let ghost prev = vars@;
        if let Some(text) = replacement {
            let name = vars[i].0.clone();
            vars.set(i, (name, text));
            proof {
                assert(vars@[i as int].0@ == prev[i as int].0@);
                assert forall|j: int| 0 <= j < n && j != i implies #[trigger] vars@[j] == prev[j] by {}
            }
        }
        proof {
            assert forall|j: int| 0 <= j < n implies #[trigger] vars@[j].0@ == before[j].0@ by {
                assert(prev[j].0@ == before[j].0@);
            }
        }
        i = i + 1;
    }
    proof {
        assert(names_unique(vars@)) by {
            assert forall|a: int, b: int| 0 <= a < b < vars@.len() implies vars@[a].0@ != vars@[b].0@ by {
                assert(vars@[a].0@ == before[a].0@);
                assert(vars@[b].0@ == before[b].0@);
            }
        }
        lemma_pairs_map_index(vars@);
        lemma_pairs_map_index(before);
        let target = Map::new(
            |k: Seq<char>| pairs_map(before).contains_key(k),
            |k: Seq<char>| substituted_or_kept(pairs_map(before)[k], pairs_map(env@)),
        );
        assert forall|k: Seq<char>| #[trigger] pairs_map(vars@).contains_key(k) == target.contains_key(k) by {
            if pairs_map(vars@).contains_key(k) {
                let j = choose|j: int| 0 <= j < vars@.len() && #[trigger] vars@[j].0@ == k;
                assert(before[j].0@ == k);
            }
            if target.contains_key(k) {
                let j = choose|j: int| 0 <= j < before.len() && #[trigger] before[j].0@ == k;
                assert(vars@[j].0@ == k);
            }
        }
        assert forall|k: Seq<char>| #[trigger] pairs_map(vars@).contains_key(k) implies pairs_map(vars@)[k] == target[k] by {
            let j = choose|j: int| 0 <= j < vars@.len() && #[trigger] vars@[j].0@ == k;
            assert(pairs_map(vars@)[vars@[j].0@] == vars@[j].1@);
            assert(before[j].0@ == k);
            assert(pairs_map(before)[before[j].0@] == before[j].1@);
        }
        assert(pairs_map(vars@) =~= target);
    }
}

/// Whether `configured` is the manifest `meta` with its variables
/// configured: the stack's variables added and the environment substituted.
pub open spec fn is_configured(
    configured: PluginMeta,
    meta: PluginMeta,
    stack: Map<Seq<char>, Seq<char>>,
    env: Map<Seq<char>, Seq<char>>,
) -> bool {
    &&& configured.id == meta.id
    &&& configured.name == meta.name
    &&& configured.version == meta.version
    &&& configured.description == meta.description
    &&& configured.endpoint == meta.endpoint
    &&& configured.data_dir == meta.data_dir
    &&& names_unique(configured.variables@)
    &&& pairs_map(configured.variables@) == configured_variables(pairs_map(meta.variables@), stack, env)
}

/// The error text of a second plugin with the same id.
pub open spec fn duplicate_id_message(id: Seq<char>) -> Seq<char> {
    "Multiple plugins with the same id `"@ + id + "`"@
}

/// Records an installed plugin: its manifest with its variables configured
/// goes under its id, and its directory too. A second plugin with an id
/// already recorded is an error; its manifest has then replaced the first's,
/// and no directory is recorded for it.
pub fn read_plugin_entry(
    plugins: &mut Vec<(String, PluginMeta)>,
    plugin_paths: &mut Vec<(String, String)>,
    dir_path: &str,
    plugin_meta: PluginMeta,
    variables: &Vec<(String, String)>,
    envs: &Vec<(String, String)>,
) -> (r: Result<(), String>)
    requires
        entry_names_unique(old(plugins)@),
        entry_names_unique(old(plugin_paths)@),
        names_unique(plugin_meta.variables@),
        names_unique(variables@),
    ensures
        entry_names_unique(final(plugins)@),
        entry_names_unique(final(plugin_paths)@),
        named_map(final(plugins)@).dom() == named_map(old(plugins)@).dom().insert(plugin_meta.id@),
        forall|k: Seq<char>| #[trigger] named_map(old(plugins)@).contains_key(k) && k != plugin_meta.id@
            ==> named_map(final(plugins)@)[k] == named_map(old(plugins)@)[k],
        is_configured(
            named_map(final(plugins)@)[plugin_meta.id@],
            plugin_meta,
            pairs_map(variables@),
            pairs_map(envs@),
        ),
        match r {
            Ok(()) => {
                &&& !named_map(old(plugins)@).contains_key(plugin_meta.id@)
                &&& named_map(final(plugin_paths)@).dom() == named_map(old(plugin_paths)@).dom().insert(
                    plugin_meta.id@,
                )
                &&& named_map(final(plugin_paths)@)[plugin_meta.id@]@ == dir_path@
                &&& forall|k: Seq<char>| #[trigger] named_map(old(plugin_paths)@).contains_key(k)
                    && k != plugin_meta.id@ ==> named_map(final(plugin_paths)@)[k] == named_map(
                    old(plugin_paths)@,
                )[k]
            },
            Err(message) => {
                &&& named_map(old(plugins)@).contains_key(plugin_meta.id@)
                &&& message@ == duplicate_id_message(plugin_meta.id@)
                &&& named_map(final(plugin_paths)@) == named_map(old(plugin_paths)@)
            },
        },
{
    let mut meta = plugin_meta;
    let ghost before_vars = meta.variables@;
    merge_variables(&mut meta.variables, variables);
    substitute_variables(&mut meta.variables, envs);
    proof {
        let merged = merged_variables(pairs_map(before_vars), pairs_map(variables@));
        assert(pairs_map(meta.variables@) =~= configured_variables(
            pairs_map(before_vars),
            pairs_map(variables@),
            pairs_map(envs@),
        ));
    }
    let ghost configured = meta;
    let id = meta.id.clone();
    let replaced = set_entry(plugins, id.as_str(), meta);
    proof {
        assert(named_map(plugins@)[id@] == configured);
        assert(named_map(plugins@).dom() =~= named_map(old(plugins)@).dom().insert(plugin_meta.id@));
    }
    if replaced {
        let mut message = "Multiple plugins with the same id `".to_owned();
        message.append(id.as_str());
        message.append("`");
        return Err(message);
    }
    let path = dir_path.to_owned();
    let ghost path_value = path;
    set_entry(plugin_paths, id.as_str(), path);
    proof {
        assert(named_map(plugin_paths@)[id@] == path_value);
        assert(named_map(plugin_paths@).dom() =~= named_map(old(plugin_paths)@).dom().insert(plugin_meta.id@));
    }
    Ok(())
}

/// A variable that a plugin sets keeps the plugin's value, whatever the
/// stack sets (before the environment is substituted into it).
pub proof fn law_plugin_variable_wins(
    plugin: Map<Seq<char>, Seq<char>>,
    stack: Map<Seq<char>, Seq<char>>,
    env: Map<Seq<char>, Seq<char>>,
    name: Seq<char>,
)
    requires
        plugin.contains_key(name),
    ensures
        configured_variables(plugin, stack, env).contains_key(name),
        configured_variables(plugin, stack, env)[name] == substituted_or_kept(plugin[name], env),
{
}

/// A variable that only the stack sets reaches the plugin with the stack's
/// value (before the environment is substituted into it).
pub proof fn law_stack_variable_reaches_plugin(
    plugin: Map<Seq<char>, Seq<char>>,
    stack: Map<Seq<char>, Seq<char>>,
    env: Map<Seq<char>, Seq<char>>,
    name: Seq<char>,
)
    requires
        !plugin.contains_key(name),
        stack.contains_key(name),
    ensures
        configured_variables(plugin, stack, env).contains_key(name),
        configured_variables(plugin, stack, env)[name] == substituted_or_kept(stack[name], env),
{
}

/// A plugin runs with exactly the variables that it or the stack sets.
pub proof fn law_configured_variable_names(
    plugin: Map<Seq<char>, Seq<char>>,
    stack: Map<Seq<char>, Seq<char>>,
    env: Map<Seq<char>, Seq<char>>,
)
    ensures
        configured_variables(plugin, stack, env).dom() == plugin.dom().union(stack.dom()),
{
    assert(configured_variables(plugin, stack, env).dom() =~= plugin.dom().union(stack.dom()));
}

/// The ids of the first `i` entries.
pub open spec fn entry_ids(entries: Seq<(String, PluginMeta)>, i: int) -> Set<Seq<char>> {
    Set::new(|id: Seq<char>| exists|k: int| 0 <= k < i && #[trigger] entries[k].1.id@ == id)
}

/// Whether entry `j` repeats the id of an earlier entry.
pub open spec fn repeats_id(entries: Seq<(String, PluginMeta)>, j: int) -> bool {
    exists|k: int| 0 <= k < j && #[trigger] entries[k].1.id@ == entries[j].1.id@
}

/// The configuration of a stack from its manifest and its installed plugins,
/// each by its directory and manifest, in the order in which they are read.
/// Each plugin's manifest is configured (see [`read_plugin_entry`]) and
/// recorded with its directory under its id. Two plugins with the same id
/// fail the whole configuration, with the message of the first plugin whose
/// id was already recorded.
#[verifier::loop_isolation(false)]
pub fn load_config(
    meta: StackMeta,
    entries: Vec<(String, PluginMeta)>,
    envs: &Vec<(String, String)>,
) -> (r: Result<StackConfig, String>)
    requires
        names_unique(meta.variables@),
        forall|j: int| 0 <= j < entries@.len() ==> names_unique(#[trigger] entries@[j].1.variables@),
    ensures
        r is Ok <==> forall|j: int| 0 <= j < entries@.len() ==> !#[trigger] repeats_id(entries@, j),
        r matches Err(msg) ==> exists|j: int|
            0 <= j < entries@.len() && #[trigger] repeats_id(entries@, j) && (forall|k: int|
                0 <= k < j ==> !#[trigger] repeats_id(entries@, k)) && msg@ == duplicate_id_message(
                entries@[j].1.id@,
            ),
        r matches Ok(c) ==> {
            &&& c.well_formed()
            &&& c.meta == meta
            &&& c.plugin_map().dom() == entry_ids(entries@, entries@.len() as int)
            &&& c.path_map().dom() == entry_ids(entries@, entries@.len() as int)
            &&& forall|j: int|
                0 <= j < entries@.len() ==> {
                    &&& c.path_map()[#[trigger] entries@[j].1.id@]@ == entries@[j].0@
                    &&& is_configured(
                        c.plugin_map()[entries@[j].1.id@],
                        entries@[j].1,
                        pairs_map(meta.variables@),
                        pairs_map(envs@),
                    )
                }
        },
{
    let ghost orig = entries@;
    let n = entries.len();
    let mut rest = entries;
    let mut plugins: Vec<(String, PluginMeta)> = Vec::new();
    let mut plugin_paths: Vec<(String, String)> = Vec::new();
    let mut i: usize = 0;
    assert(named_map(plugins@) =~= Map::<Seq<char>, PluginMeta>::empty());
    assert(named_map(plugin_paths@) =~= Map::<Seq<char>, String>::empty());
    assert(entry_ids(orig, 0) =~= Set::<Seq<char>>::empty());
    while i < n
        invariant
            n == orig.len(),
            i <= n,
            rest@ == orig.subrange(i as int, n as int),
            names_unique(meta.variables@),
            forall|j: int| 0 <= j < orig.len() ==> names_unique(#[trigger] orig[j].1.variables@),
            entry_names_unique(plugins@),
            entry_names_unique(plugin_paths@),
            forall|j: int| 0 <= j < i ==> !#[trigger] repeats_id(orig, j),
            named_map(plugins@).dom() == entry_ids(orig, i as int),
            named_map(plugin_paths@).dom() == entry_ids(orig, i as int),
            forall|j: int|
                0 <= j < i ==> {
                    &&& named_map(plugin_paths@)[#[trigger] orig[j].1.id@]@ == orig[j].0@
                    &&& is_configured(
                        named_map(plugins@)[orig[j].1.id@],
                        orig[j].1,
                        pairs_map(meta.variables@),
                        pairs_map(envs@),
                    )
                },
        decreases n - i,
    {
        let (dir, plugin_meta) = rest.remove(0);
        let ghost e = orig[i as int];
        assert(e == (dir, plugin_meta));
        let ghost id = plugin_meta.id@;
        let ghost old_plugins = named_map(plugins@);
        let ghost old_paths = named_map(plugin_paths@);
        let outcome = read_plugin_entry(
            &mut plugins,
            &mut plugin_paths,
            dir.as_str(),
            plugin_meta,
            &meta.variables,
            envs,
        );
        proof {
            assert(rest@ =~= orig.subrange(i + 1, n as int));
            assert(entry_ids(orig, i + 1) =~= entry_ids(orig, i as int).insert(id)) by {
                assert forall|x: Seq<char>| entry_ids(orig, i + 1).contains(x) implies entry_ids(
                    orig,
                    i as int,
                ).insert(x).contains(x) && (x == id || entry_ids(orig, i as int).contains(x)) by {
                    let k = choose|k: int| 0 <= k < i + 1 && #[trigger] orig[k].1.id@ == x;
                    if k < i {
                        assert(entry_ids(orig, i as int).contains(x));
                    }
                }
                assert forall|x: Seq<char>| entry_ids(orig, i as int).insert(id).contains(x) implies entry_ids(
                    orig,
                    i + 1,
                ).contains(x) by {
                    if x == id {
                        assert(orig[i as int].1.id@ == x);
                    } else {
                        let k = choose|k: int| 0 <= k < i && #[trigger] orig[k].1.id@ == x;
                        assert(orig[k].1.id@ == x);
                    }
                }
            }
        }
        match outcome {
            Ok(()) => {
                proof {
                    assert(!repeats_id(orig, i as int)) by {
                        if repeats_id(orig, i as int) {
                            let k = choose|k: int| 0 <= k < i && #[trigger] orig[k].1.id@ == orig[i as int].1.id@;
                            assert(entry_ids(orig, i as int).contains(id));
                        }
                    }
                    assert forall|j: int| 0 <= j < i + 1 implies {
                        &&& named_map(plugin_paths@)[#[trigger] orig[j].1.id@]@ == orig[j].0@
                        &&& is_configured(
                            named_map(plugins@)[orig[j].1.id@],
                            orig[j].1,
                            pairs_map(meta.variables@),
                            pairs_map(envs@),
                        )
                    } by {
                        if j < i {
                            assert(entry_ids(orig, i as int).contains(orig[j].1.id@));
                            assert(orig[j].1.id@ != id);
                        }
                    }
                }
            },
            Err(message) => {
                proof {
                    assert(repeats_id(orig, i as int)) by {
                        assert(entry_ids(orig, i as int).contains(id));
                        let k = choose|k: int| 0 <= k < i && #[trigger] orig[k].1.id@ == id;
                        assert(orig[k].1.id@ == orig[i as int].1.id@);
                    }
                    assert(message@ == duplicate_id_message(id));
                    assert(id == orig[i as int].1.id@);
                    assert(forall|k: int| 0 <= k < i ==> !#[trigger] repeats_id(orig, k));
                }
                return Err(message);
            },
        }
        i = i + 1;
    }
    Ok(StackConfig { meta, plugin_paths, plugins })
}

} // verus!
