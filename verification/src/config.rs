use crate::registry::{first_match, ThemeError, ThemeRegistry};
use crate::strmap::StrMap;
use crate::theme::{defaults_of, ConfigOption, ThemeInfo};
use crate::value::ConfigValue;
use vstd::prelude::*;

verus! {

/// The theme section of a project's configuration: the name of the selected
/// theme and the project's own values, by option name. The values need not
/// agree with any theme's schema.
#[derive(Debug)]
pub struct ProjectThemeConfig {
    pub name: String,
    pub config: StrMap<ConfigValue>,
}

/// The values after defaults were merged into `current`: every key of
/// `current` with its value, and every other key of `defaults` with its
/// default.
pub open spec fn merged(
    current: Map<Seq<char>, ConfigValue>,
    defaults: Map<Seq<char>, ConfigValue>,
) -> Map<Seq<char>, ConfigValue> {
    Map::new(
        |k: Seq<char>| current.contains_key(k) || defaults.contains_key(k),
        |k: Seq<char>|
            if current.contains_key(k) {
                current[k]
            } else {
                defaults[k]
            },
    )
}

/// Merging the same defaults a second time changes nothing.
pub proof fn merge_is_idempotent(
    current: Map<Seq<char>, ConfigValue>,
    defaults: Map<Seq<char>, ConfigValue>,
)
    ensures
        merged(merged(current, defaults), defaults) == merged(current, defaults),
{
    assert(merged(merged(current, defaults), defaults) =~= merged(current, defaults));
}

/// A merge overwrites nothing: every key that had a value keeps it.
pub proof fn merge_keeps_existing(
    current: Map<Seq<char>, ConfigValue>,
    defaults: Map<Seq<char>, ConfigValue>,
    k: Seq<char>,
)
    requires
        current.contains_key(k),
    ensures
        merged(current, defaults).contains_key(k),
        merged(current, defaults)[k] == current[k],
{
}

/// After a merge every key of the defaults has a value, and a key that had
/// none before has its default.
pub proof fn merge_fills_defaults(
    current: Map<Seq<char>, ConfigValue>,
    defaults: Map<Seq<char>, ConfigValue>,
    k: Seq<char>,
)
    requires
        defaults.contains_key(k),
    ensures
        merged(current, defaults).contains_key(k),
        !current.contains_key(k) ==> merged(current, defaults)[k] == defaults[k],
{
}

/// A merge removes no key and adds none but those of the defaults.
pub proof fn merge_keys(
    current: Map<Seq<char>, ConfigValue>,
    defaults: Map<Seq<char>, ConfigValue>,
)
    ensures
        merged(current, defaults).dom() == current.dom().union(defaults.dom()),
{
    assert(merged(current, defaults).dom() =~= current.dom().union(defaults.dom()));
}

/// Fills `config` from a schema: each option whose name has no value yet
/// gets its default; a value that is there stays. The keys that were there
/// keep their order, and new keys go behind them.
pub fn merge_defaults(config: &mut StrMap<ConfigValue>, schema: StrMap<ConfigOption>)
    ensures
        final(config)@ == merged(old(config)@, defaults_of(schema@)),
        final(config).keys().len() >= old(config).keys().len(),
        final(config).keys().subrange(0, old(config).keys().len() as int) == old(config).keys(),
        final(config).values().subrange(0, old(config).values().len() as int) == old(config).values(),
        (forall|k: Seq<char>| schema@.contains_key(k) ==> old(config)@.contains_key(k)) ==> final(config).keys() == old(config).keys() && final(config).values() == old(config).values(),
{
    let mut rest = schema;
    let ghost before = config@;
    let ghost all = schema@;
    proof {
        use_type_invariant(&*config);
        assert(config.keys().subrange(0, config.keys().len() as int) =~= config.keys());
        assert(config.values().subrange(0, config.values().len() as int) =~= config.values());
    }
    while rest.len() > 0
        invariant
            config.wf(),
            old(config).wf(),
            before == old(config)@,
            forall|k: Seq<char>| #[trigger]
                rest@.contains_key(k) ==> all.contains_key(k) && all[k] == rest@[k],
            forall|k: Seq<char>| #[trigger]
                config@.contains_key(k) <==> before.contains_key(k) || (all.contains_key(k)
                    && !rest@.contains_key(k)),
            forall|k: Seq<char>| #[trigger]
                config@.contains_key(k) ==> config@[k] == if before.contains_key(k) {
                    before[k]
                } else {
                    all[k].value
                },
            config.keys().len() >= old(config).keys().len(),
            config.keys().len() == config.values().len(),
            config.keys().subrange(0, old(config).keys().len() as int) == old(config).keys(),
            config.values().subrange(0, old(config).values().len() as int) == old(config).values(),
            (forall|k: Seq<char>| all.contains_key(k) ==> before.contains_key(k)) ==> config.keys()
                == old(config).keys() && config.values() == old(config).values(),
        decreases rest.keys().len(),
    {
        let ghost keys_before = config.keys();
        let ghost values_before = config.values();
        let ghost map_before = config@;
        let entry = rest.pop();
        match entry {
            Some((key, option)) => {
                assert(all.contains_key(key@));
                let inserted = config.insert_if_absent(key, option.value);
                proof {
                    use_type_invariant(&*config);
                    let n = old(config).keys().len() as int;
                    assert(config.keys().subrange(0, n) =~= keys_before.subrange(0, n));
                    assert(config.values().subrange(0, n) =~= values_before.subrange(0, n));
                    if inserted {
                        assert(!map_before.contains_key(key@));
                        assert(!before.contains_key(key@));
                    }
                }
            },
            None => {},
        }
    }
    proof {
        assert(forall|k: Seq<char>| !rest@.contains_key(k));
        assert(config@ =~= merged(before, defaults_of(all)));
    }
}

/// Selects a theme for a project: the configuration takes `name` as the
/// theme's name, and the theme's defaults are merged into its values.
pub fn apply_theme(config: &mut ProjectThemeConfig, name: String, info: ThemeInfo)
    ensures
        final(config).name@ == name@,
        final(config).config@ == merged(old(config).config@, defaults_of(info.config_schema@)),
        final(config).config.keys().subrange(0, old(config).config.keys().len() as int) == old(config).config.keys(),
        (forall|k: Seq<char>|
            info.config_schema@.contains_key(k) ==> old(config).config@.contains_key(k))
            ==> final(config).config.keys() == old(config).config.keys() && final(config).config.values() == old(config).config.values(),
{
    config.name = name;
    merge_defaults(&mut config.config, info.config_schema);
}

/// Switches a project to the theme of the registry that `name` denotes,
/// letter case aside. Where the registry has no such theme, the request
/// fails and the configuration is left as it was.
pub fn set_theme(registry: ThemeRegistry, config: &mut ProjectThemeConfig, name: &str) -> (r:
    Result<(), ThemeError>)
    ensures
        match first_match(registry.names(), name@) {
            Some(i) => {
                &&& 0 <= i < registry@.len()
                &&& r is Ok
                &&& final(config).name@ == name@
                &&& final(config).config@ == merged(
                    old(config).config@,
                    defaults_of(registry@[i].info.config_schema@),
                )
                &&& final(config).config.keys().subrange(
                    0,
                    old(config).config.keys().len() as int,
                ) == old(config).config.keys()
            },
            None => r == Err::<(), ThemeError>(ThemeError::NotFound) && *final(config) == *old(config),
        },
{
    match registry.take(name) {
        Some(theme) => {
            apply_theme(config, name.to_owned(), theme.info);
            Ok(())
        },
        None => Err(ThemeError::NotFound),
    }
}

} // verus!
