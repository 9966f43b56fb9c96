//! Catalogs of skills and the bindings of a single world.
use std::sync::Arc;
use vstd::prelude::*;

use crate::assoc::{assoc_get, assoc_insert, has_key, lemma_lookup, lookup, sorted_keys};
use crate::canonical::adapters::ModelAdapter;
use crate::canonical::wasm::WasmtimeAdapter;
use crate::canonical::ir::CanonicalWorld;
use crate::canonical::naming::python_name;
use crate::canonical::registry::{
    lemma_first_repeat_prefix,
    catalog_actions, catalog_types, first_repeat, registry_built, registry_error,
    skill_for_world, world_skill, world_skill_name, ActionRegistry, BindingError, CatalogSkill,
};
use crate::text::string_push_str;

verus! {

/// `Arc::clone` from std: another pointer to the same value.
#[verifier::external_body]
pub(crate) fn share<T>(a: &Arc<T>) -> (r: Arc<T>)
    ensures
        r == *a,
{
    Arc::clone(a)
}

/// The characters of an optional string, none when absent.
pub open spec fn text_or_empty(o: Option<Seq<char>>) -> Seq<char> {
    match o {
        Some(s) => s,
        None => Seq::empty(),
    }
}

/// The key a catalog files a skill under: `<name>::<version>::<profile>`,
/// an absent version or profile written as nothing.
pub open spec fn catalog_key(
    name: Seq<char>,
    version: Option<Seq<char>>,
    profile: Option<Seq<char>>,
) -> Seq<char> {
    name + "::"@ + text_or_empty(version) + "::"@ + text_or_empty(profile)
}

/// The key of a catalog skill.
pub open spec fn skill_key(skill: CatalogSkill) -> Seq<char> {
    catalog_key(
        skill.metadata.skill_name@,
        match skill.metadata.skill_version {
            Some(v) => Some(v@),
            None => None,
        },
        match skill.metadata.profile_name {
            Some(p) => Some(p@),
            None => None,
        },
    )
}

/// The keys of a list of catalog skills.
pub open spec fn skill_keys(skills: Seq<CatalogSkill>) -> Seq<Seq<char>> {
    skills.map_values(|s: CatalogSkill| skill_key(s))
}

/// The message of a catalog that cannot be built because two skills share
/// a key.
pub open spec fn duplicate_key_message(key: Seq<char>) -> Seq<char> {
    "duplicate catalog skill key '"@ + key + "'"@
}

fn key_text(name: &str, version: Option<&str>, profile: Option<&str>) -> (r: String)
    ensures
        r@ == catalog_key(
            name@,
            match version {
                Some(v) => Some(v@),
                None => None,
            },
            match profile {
                Some(p) => Some(p@),
                None => None,
            },
        ),
{
    let mut key = String::new();
    string_push_str(&mut key, name);
    string_push_str(&mut key, "::");
    match version {
        Some(v) => string_push_str(&mut key, v),
        None => {},
    }
    string_push_str(&mut key, "::");
    match profile {
        Some(p) => string_push_str(&mut key, p),
        None => {},
    }
    proof {
        let vv = match version {
            Some(v) => Some(v@),
            None => None::<Seq<char>>,
        };
        let pp = match profile {
            Some(p) => Some(p@),
            None => None::<Seq<char>>,
        };
        assert(key@ =~= catalog_key(name@, vv, pp));
    }
    key
}

fn opt_str(o: &Option<String>) -> (r: Option<&str>)
    ensures
        match (r, *o) {
            (Some(a), Some(b)) => a@ == b@,
            (None, None) => true,
            _ => false,
        },
{
    match o {
        Some(s) => Some(s.as_str()),
        None => None,
    }
}

/// A set of skills, with the registry of all their actions.
#[derive(Debug)]
pub struct SkillCatalog {
    registry: Arc<ActionRegistry>,
    skills_by_key: Vec<(String, CatalogSkill)>,
}

/// The outcome of building a catalog from `skills`: it fails as the
/// registry of their actions fails, and otherwise on the first skill whose
/// key an earlier skill has; built, it holds their actions and types and
/// files each skill under its key.
pub open spec fn catalog_built(r: Result<SkillCatalog, BindingError>, skills: Seq<CatalogSkill>) -> bool {
    match r {
        Ok(cat) => registry_error(skills) is None && first_repeat(skill_keys(skills)) is None
            && cat.registry().holds(catalog_actions(skills), catalog_types(skills)) && cat.files(skills),
        Err(e) => match registry_error(skills) {
            Some(m) => e.message()@ == m,
            None => first_repeat(skill_keys(skills)) matches Some(j) && e.message()@
                == duplicate_key_message(skill_keys(skills)[j]),
        },
    }
}

impl SkillCatalog {
    /// The registry of the catalog's actions.
    pub closed spec fn registry(self) -> ActionRegistry {
        *self.registry
    }

    /// The skill filed under `key`.
    pub closed spec fn skill_by_key(self, key: Seq<char>) -> Option<CatalogSkill> {
        lookup(self.skills_by_key@, key)
    }

    /// The catalog's skills are exactly `skills`, each under its key.
    pub open spec fn files(self, skills: Seq<CatalogSkill>) -> bool {
        &&& forall|i: int|
            0 <= i < skills.len() ==> self.skill_by_key(skill_key(#[trigger] skills[i])) == Some(
                skills[i],
            )
        &&& forall|k: Seq<char>| #[trigger]
            self.skill_by_key(k) is Some ==> exists|i: int|
                0 <= i < skills.len() && skill_key(#[trigger] skills[i]) == k
    }

    #[verifier::type_invariant]
    closed spec fn keys_sorted(self) -> bool {
        sorted_keys(self.skills_by_key@)
    }

    /// The catalog of `skills`: it fails as the registry of their actions
    /// fails, and otherwise on the first skill whose key an earlier skill has.
    #[verifier::loop_isolation(false)]
    pub fn from_skills(skills: Vec<CatalogSkill>) -> (r: Result<Self, BindingError>)
        ensures
            catalog_built(r, skills@),
    {
        let registry = match ActionRegistry::from_skill_refs(&skills) {
            Ok(reg) => reg,
            Err(e) => {
                return Err(e);
            },
        };
        let ghost all = skills@;
        let mut rest = skills;
        let mut by_key: Vec<(String, CatalogSkill)> = Vec::new();
        let mut i: usize = 0;
        let n = rest.len();
        assert(skill_keys(all.take(0)) =~= Seq::<Seq<char>>::empty());
        assert(all.skip(0) =~= all);
        while rest.len() > 0
            invariant
                registry_error(all) is None,
                registry.holds(catalog_actions(all), catalog_types(all)),
                all.len() == n,
                rest@ == all.skip(i as int),
                i <= all.len(),
                sorted_keys(by_key@),
                first_repeat(skill_keys(all.take(i as int))) is None,
                forall|j: int|
                    0 <= j < i ==> lookup(by_key@, skill_key(#[trigger] all[j])) == Some(all[j]),
                forall|k: Seq<char>| #[trigger]
                    has_key(by_key@, k) ==> exists|j: int|
                        0 <= j < i && skill_key(#[trigger] all[j]) == k,
            decreases rest@.len(),
        {
            let skill = rest.remove(0);
            assert(skill == all[i as int]);
            assert(rest@ =~= all.skip(i + 1));
            let key = key_text(
                skill.metadata.skill_name.as_str(),
                opt_str(&skill.metadata.skill_version),
                opt_str(&skill.metadata.profile_name),
            );
            assert(key@ == skill_key(all[i as int]));
            let ghost keys = skill_keys(all.take(i + 1));
            assert(keys.drop_last() =~= skill_keys(all.take(i as int)));
            assert(keys.last() == key@);
            let ghost b0 = by_key@;
            proof {
                lemma_lookup(b0, key@);
            }
            let present = assoc_insert(&mut by_key, key.clone(), skill);
            if present {
                proof {
                    let j = choose|j: int| 0 <= j < i && skill_key(#[trigger] all[j]) == key@;
                    assert(skill_keys(all.take(i as int))[j] == key@);
                    assert(keys.drop_last().contains(key@));
                    assert(skill_keys(all).take(i + 1) =~= keys);
                    assert(first_repeat(keys) == Some(i as int));
                    lemma_first_repeat_prefix(skill_keys(all), i + 1);
                    assert(skill_keys(all)[i as int] == key@);
                }
                let mut message = String::new();
                string_push_str(&mut message, "duplicate catalog skill key '");
                string_push_str(&mut message, key.as_str());
                string_push_str(&mut message, "'");
                assert(message@ =~= duplicate_key_message(key@));
                return Err(BindingError::new(message));
            }
            proof {
                assert(!keys.drop_last().contains(key@)) by {
                    if keys.drop_last().contains(key@) {
                        let j = choose|j: int|
                            0 <= j < keys.drop_last().len() && keys.drop_last()[j] == key@;
                        assert(skill_key(all[j]) == key@);
                        assert(lookup(b0, key@) is Some);
                    }
                }
                assert forall|j: int| 0 <= j < i + 1 implies lookup(
                    by_key@,
                    skill_key(#[trigger] all[j]),
                ) == Some(all[j]) by {
                    if j < i {
                        assert(skill_keys(all.take(i as int))[j] == skill_key(all[j]));
                    }
                }
                assert forall|k: Seq<char>| #[trigger] has_key(by_key@, k) implies exists|j: int|
                    0 <= j < i + 1 && skill_key(#[trigger] all[j]) == k by {
                    if k != key@ {
                        let j = choose|j: int| 0 <= j < i && skill_key(#[trigger] all[j]) == k;
                    }
                }
            }
            i = i + 1;
        }
        assert(all.take(i as int) =~= all);
        let cat = SkillCatalog { registry: Arc::new(registry), skills_by_key: by_key };
        proof {
            assert forall|k: Seq<char>| #[trigger] cat.skill_by_key(k) is Some implies exists|j: int|
                0 <= j < all.len() && skill_key(#[trigger] all[j]) == k by {
                lemma_lookup(cat.skills_by_key@, k);
            }
        }
        Ok(cat)
    }

    /// The catalog of a single skill.
    pub fn from_skill(skill: CatalogSkill) -> (r: Result<Self, BindingError>)
        ensures
            match r {
                Ok(cat) => registry_error(seq![skill]) is None && cat.registry().holds(
                    catalog_actions(seq![skill]),
                    catalog_types(seq![skill]),
                ) && cat.files(seq![skill]),
                Err(e) => registry_error(seq![skill]) == Some(e.message()@),
            },
    {
        let mut skills: Vec<CatalogSkill> = Vec::new();
        skills.push(skill);
        assert(skills@ =~= seq![skill]);
        let r = SkillCatalog::from_skills(skills);
        proof {
            let keys = skill_keys(seq![skill]);
            assert(keys.len() == 1);
            assert(keys.drop_last() =~= Seq::<Seq<char>>::empty());
            assert(first_repeat(keys.drop_last()) is None);
            assert(first_repeat(keys) is None);
        }
        r
    }

    /// The registry of the catalog's actions.
    pub fn action_registry(&self) -> (r: &ActionRegistry)
        ensures
            *r == self.registry(),
    {
        &*self.registry
    }

    /// An adapter between the model surface and canonical invocations.
    pub fn model_adapter(&self) -> (r: ModelAdapter)
        ensures
            r.registry() == self.registry(),
    {
        ModelAdapter::new(share(&self.registry))
    }

    /// An adapter between canonical invocations and component calls.
    pub fn wasmtime_adapter(&self) -> (r: WasmtimeAdapter)
        ensures
            r.registry() == self.registry(),
    {
        WasmtimeAdapter::new(share(&self.registry))
    }

    /// The skill of the given name, version and profile.
    pub fn resolve_skill(
        &self,
        skill_name: &str,
        skill_version: Option<&str>,
        profile_name: Option<&str>,
    ) -> (r: Option<&CatalogSkill>)
        ensures
            ({
                let key = catalog_key(
                    skill_name@,
                    match skill_version {
                        Some(v) => Some(v@),
                        None => None,
                    },
                    match profile_name {
                        Some(p) => Some(p@),
                        None => None,
                    },
                );
                match r {
                    Some(s) => self.skill_by_key(key) == Some(*s),
                    None => self.skill_by_key(key) is None,
                }
            }),
    {
        proof {
            use_type_invariant(self);
        }
        let key = key_text(skill_name, skill_version, profile_name);
        assoc_get(&self.skills_by_key, key.as_str())
    }
}

/// The bindings of one world, as a catalog of its single skill.
#[derive(Debug)]
pub struct CanonicalBindings {
    catalog: SkillCatalog,
}

impl CanonicalBindings {
    /// The catalog behind these bindings.
    pub closed spec fn catalog(self) -> SkillCatalog {
        self.catalog
    }

    /// The bindings of a world, as a skill named after its package (or,
    /// without a package, after the world).
    pub fn from_world(world: CanonicalWorld) -> (r: Result<Self, BindingError>)
        ensures
            exists|ns: String|
                #![trigger world_skill(world, ns)]
                ns@ == python_name(world_skill_name(world)@) && match r {
                    Ok(b) => registry_error(seq![world_skill(world, ns)]) is None
                        && b.catalog().registry().holds(
                        catalog_actions(seq![world_skill(world, ns)]),
                        catalog_types(seq![world_skill(world, ns)]),
                    ),
                    Err(e) => registry_error(seq![world_skill(world, ns)]) == Some(e.message()@),
                },
    {
        let skill = skill_for_world(world);
        let ghost ns = skill.metadata.python_namespace;
        match SkillCatalog::from_skill(skill) {
            Ok(catalog) => Ok(CanonicalBindings { catalog }),
            Err(e) => Err(e),
        }
    }

    /// The registry of the world's actions.
    pub fn action_registry(&self) -> (r: &ActionRegistry)
        ensures
            *r == self.catalog().registry(),
    {
        self.catalog.action_registry()
    }

    /// An adapter between the model surface and canonical invocations.
    pub fn model_adapter(&self) -> (r: ModelAdapter)
        ensures
            r.registry() == self.catalog().registry(),
    {
        self.catalog.model_adapter()
    }

    /// An adapter between canonical invocations and component calls.
    pub fn wasmtime_adapter(&self) -> (r: WasmtimeAdapter)
        ensures
            r.registry() == self.catalog().registry(),
    {
        self.catalog.wasmtime_adapter()
    }
}

} // verus!
