//! The action registry: every exported function of a set of skills, under
//! its canonical id, its qualified model name and, where unambiguous, its bare
//! model and canonical names.
use vstd::prelude::*;

use crate::assoc::{
    assoc_find, assoc_get, assoc_insert, assoc_remove, has_key, lookup, lemma_lookup, sorted_keys,
};
use crate::canonical::ir::{
    copy_opt_string, CanonicalFunction, CanonicalFunctionResult, CanonicalTypeDef, CanonicalTypeRef,
    CanonicalWorld,
};
use crate::canonical::naming::{python_function_name, python_name};
use crate::text::string_push_str;

verus! {

/// Where a skill in a catalog comes from and how the model addresses it.
#[derive(Debug, Clone, PartialEq, Eq)]
pub struct SkillMetadata {
    pub skill_name: String,
    pub python_namespace: String,
    pub skill_version: Option<String>,
    pub profile_name: Option<String>,
    pub world_name: String,
    pub runtime_kind: Option<String>,
    pub artifact_ref: Option<String>,
}

impl SkillMetadata {
    /// Metadata for a skill with only a name and a world; its Python namespace
    /// is the Python form of its name.
    pub fn new(skill_name: String, world_name: String) -> (r: Self)
        ensures
            r.skill_name == skill_name,
            r.python_namespace@ == python_name(skill_name@),
            r.world_name == world_name,
            r.skill_version is None,
            r.profile_name is None,
            r.runtime_kind is None,
            r.artifact_ref is None,
    {
        let python_namespace = python_function_name(skill_name.as_str());
        SkillMetadata {
            skill_name,
            python_namespace,
            skill_version: None,
            profile_name: None,
            world_name,
            runtime_kind: None,
            artifact_ref: None,
        }
    }

    /// A copy of this metadata.
    pub fn copy(&self) -> (r: Self)
        ensures
            r == *self,
    {
        SkillMetadata {
            skill_name: self.skill_name.clone(),
            python_namespace: self.python_namespace.clone(),
            skill_version: copy_opt_string(&self.skill_version),
            profile_name: copy_opt_string(&self.profile_name),
            world_name: self.world_name.clone(),
            runtime_kind: copy_opt_string(&self.runtime_kind),
            artifact_ref: copy_opt_string(&self.artifact_ref),
        }
    }
}

/// A skill of a catalog: its metadata and its canonical world.
#[derive(Debug, Clone)]
pub struct CatalogSkill {
    pub metadata: SkillMetadata,
    pub world: CanonicalWorld,
}

/// A parameter of an action, under its canonical and its model name.
#[derive(Debug, Clone)]
pub struct ActionParam {
    pub canonical_name: String,
    pub model_name: String,
    pub ty: CanonicalTypeRef,
}

/// An action: one exported function of one skill.
#[derive(Debug, Clone)]
pub struct ActionDefinition {
    pub skill: SkillMetadata,
    pub action_name: String,
    pub canonical_action_id: String,
    pub model_name: String,
    pub qualified_model_name: String,
    pub docs: Option<String>,
    pub params: Vec<ActionParam>,
    pub result: CanonicalFunctionResult,
}

/// Which skill and action an invocation is for.
#[derive(Debug, Clone, PartialEq, Eq)]
pub struct ActionLocator {
    pub skill: SkillMetadata,
    pub action_name: String,
    pub canonical_action_id: String,
}

impl ActionDefinition {
    /// The skill and names that locate this action.
    pub fn locator(&self) -> (r: ActionLocator)
        ensures
            r.skill == self.skill,
            r.action_name == self.action_name,
            r.canonical_action_id == self.canonical_action_id,
    {
        ActionLocator {
            skill: self.skill.copy(),
            action_name: self.action_name.clone(),
            canonical_action_id: self.canonical_action_id.clone(),
        }
    }
}

/// Why bindings could not be built or a value could not be converted.
#[derive(Debug, Clone, PartialEq, Eq)]
pub struct BindingError {
    message: String,
}

impl BindingError {
    /// An error with the given message.
    pub fn new(message: String) -> (r: Self)
        ensures
            r.message() == message,
    {
        BindingError { message }
    }

    /// The message of this error.
    pub closed spec fn message(self) -> String {
        self.message
    }

    /// The message of this error, for display.
    pub fn message_str(&self) -> (r: &str)
        ensures
            r@ == self.message()@,
    {
        self.message.as_str()
    }
}

/// Two binding errors are the same error exactly when their messages are.
pub proof fn lemma_binding_errors_equal_by_message(a: BindingError, b: BindingError)
    ensures
        (a == b) <==> (a.message() == b.message()),
{
}

/// An action of a catalog before it is registered: the skill's metadata and
/// the exported function.
pub type ActionSource = (SkillMetadata, CanonicalFunction);

/// The canonical id of an action: `<skill name>.<function name>`.
pub open spec fn action_id_of(a: ActionSource) -> Seq<char> {
    a.0.skill_name@ + seq!['.'] + a.1.name@
}

/// The three names under which the model may address an action.
#[derive(Debug, Clone, Copy, PartialEq, Eq, Structural)]
pub enum NameKind {
    /// `<python namespace>.<python function name>`.
    Qualified,
    /// The Python function name alone.
    Model,
    /// The canonical function name alone.
    Local,
}

/// The name of kind `kind` of an action.
pub open spec fn name_of(kind: NameKind, a: ActionSource) -> Seq<char> {
    match kind {
        NameKind::Qualified => a.0.python_namespace@ + seq!['.'] + python_name(a.1.name@),
        NameKind::Model => python_name(a.1.name@),
        NameKind::Local => a.1.name@,
    }
}

/// The actions of one skill: the functions of its first exported interface.
pub open spec fn skill_actions(skill: CatalogSkill) -> Seq<ActionSource> {
    if skill.world.exports@.len() > 0 {
        skill.world.exports@[0].functions@.map_values(|f: CanonicalFunction| (skill.metadata, f))
    } else {
        Seq::empty()
    }
}

/// The actions of a list of skills, skill by skill.
pub open spec fn catalog_actions(skills: Seq<CatalogSkill>) -> Seq<ActionSource>
    decreases skills.len(),
{
    if skills.len() == 0 {
        Seq::empty()
    } else {
        catalog_actions(skills.drop_last()) + skill_actions(skills.last())
    }
}

/// The named types of one skill, with the skill's name: those of its first
/// exported interface.
pub open spec fn skill_types(skill: CatalogSkill) -> Seq<(Seq<char>, CanonicalTypeDef)> {
    if skill.world.exports@.len() > 0 {
        skill.world.exports@[0].types@.map_values(
            |t: CanonicalTypeDef| (skill.metadata.skill_name@, t),
        )
    } else {
        Seq::empty()
    }
}

/// The named types of a list of skills, skill by skill.
pub open spec fn catalog_types(skills: Seq<CatalogSkill>) -> Seq<(Seq<char>, CanonicalTypeDef)>
    decreases skills.len(),
{
    if skills.len() == 0 {
        Seq::empty()
    } else {
        catalog_types(skills.drop_last()) + skill_types(skills.last())
    }
}

/// The canonical ids of a list of actions.
pub open spec fn action_ids(acts: Seq<ActionSource>) -> Seq<Seq<char>> {
    acts.map_values(|a: ActionSource| action_id_of(a))
}

/// The position of the first id that repeats an earlier one.
pub open spec fn first_repeat(ids: Seq<Seq<char>>) -> Option<int>
    decreases ids.len(),
{
    if ids.len() == 0 {
        None
    } else {
        match first_repeat(ids.drop_last()) {
            Some(j) => Some(j),
            None => if ids.drop_last().contains(ids.last()) {
                Some(ids.len() - 1)
            } else {
                None
            },
        }
    }
}

/// How many actions have `n` as their name of kind `kind`.
pub open spec fn count_with(acts: Seq<ActionSource>, kind: NameKind, n: Seq<char>) -> nat
    decreases acts.len(),
{
    if acts.len() == 0 {
        0
    } else {
        count_with(acts.drop_last(), kind, n) + if name_of(kind, acts.last()) == n {
            1nat
        } else {
            0nat
        }
    }
}

/// The canonical id of the last action with name `n` of kind `kind`.
pub open spec fn last_with(acts: Seq<ActionSource>, kind: NameKind, n: Seq<char>) -> Option<
    Seq<char>,
>
    decreases acts.len(),
{
    if acts.len() == 0 {
        None
    } else if name_of(kind, acts.last()) == n {
        Some(action_id_of(acts.last()))
    } else {
        last_with(acts.drop_last(), kind, n)
    }
}

/// The canonical id of the one action with name `n` of kind `kind`, if
/// exactly one action has that name.
pub open spec fn unique_with(acts: Seq<ActionSource>, kind: NameKind, n: Seq<char>) -> Option<
    Seq<char>,
> {
    if count_with(acts, kind, n) == 1 {
        last_with(acts, kind, n)
    } else {
        None
    }
}

/// The last type named `name` of skill `skill`.
pub open spec fn last_type(
    tys: Seq<(Seq<char>, CanonicalTypeDef)>,
    skill: Seq<char>,
    name: Seq<char>,
) -> Option<CanonicalTypeDef>
    decreases tys.len(),
{
    if tys.len() == 0 {
        None
    } else if tys.last().0 == skill && tys.last().1.name@ == name {
        Some(tys.last().1)
    } else {
        last_type(tys.drop_last(), skill, name)
    }
}

/// The characters of an optional string.
pub open spec fn opt_view(o: Option<String>) -> Option<Seq<char>> {
    match o {
        Some(s) => Some(s@),
        None => None,
    }
}

/// Both are absent, or both are present and define the same type.
pub open spec fn same_type_def(a: Option<CanonicalTypeDef>, b: Option<CanonicalTypeDef>) -> bool {
    match (a, b) {
        (Some(x), Some(y)) => x.same(y),
        (None, None) => true,
        _ => false,
    }
}

/// `d` is the definition the registry makes of action `a`.
pub open spec fn defines(d: ActionDefinition, a: ActionSource) -> bool {
    &&& d.skill == a.0
    &&& d.action_name == a.1.name
    &&& d.canonical_action_id@ == action_id_of(a)
    &&& d.model_name@ == name_of(NameKind::Model, a)
    &&& d.qualified_model_name@ == name_of(NameKind::Qualified, a)
    &&& d.docs == a.1.docs
    &&& d.params@.len() == a.1.params@.len()
    &&& forall|i: int|
        0 <= i < d.params@.len() ==> (#[trigger] d.params@[i]).canonical_name == a.1.params@[i].name
            && d.params@[i].model_name@ == python_name(a.1.params@[i].name@)
            && d.params@[i].ty.same(a.1.params@[i].ty)
    &&& d.result.same(a.1.result)
}

/// The message of a registry that cannot be built because a skill exports
/// no interface.
pub open spec fn no_exports_message() -> Seq<char> {
    "canonical world has no exported interface"@
}

/// The message of a registry that cannot be built because two actions share
/// a canonical id.
pub open spec fn duplicate_action_message(id: Seq<char>) -> Seq<char> {
    "duplicate canonical action id '"@ + id + "'"@
}

/// Why a registry cannot be built from `skills`, taken in order: the first
/// skill that exports no interface, or the first action whose canonical id an
/// earlier action already has; `None` when it can be built.
pub open spec fn registry_error(skills: Seq<CatalogSkill>) -> Option<Seq<char>>
    decreases skills.len(),
{
    if skills.len() == 0 {
        None
    } else {
        match registry_error(skills.drop_last()) {
            Some(e) => Some(e),
            None => if skills.last().world.exports@.len() == 0 {
                Some(no_exports_message())
            } else {
                let ids = action_ids(catalog_actions(skills));
                match first_repeat(ids) {
                    Some(j) => Some(duplicate_action_message(ids[j])),
                    None => None,
                }
            },
        }
    }
}

/// The type named `name` of skill `skill` in a two-level type table.
pub open spec fn type_lookup(
    t: Seq<(String, Vec<(String, CanonicalTypeDef)>)>,
    skill: Seq<char>,
    name: Seq<char>,
) -> Option<CanonicalTypeDef> {
    match lookup(t, skill) {
        Some(inner) => lookup(inner@, name),
        None => None,
    }
}

/// The registry of the actions and types of a set of skills.
#[derive(Debug)]
pub struct ActionRegistry {
    actions_by_canonical_action_id: Vec<(String, ActionDefinition)>,
    actions_by_qualified_model_name: Vec<(String, String)>,
    unique_actions_by_model_name: Vec<(String, String)>,
    unique_actions_by_local_name: Vec<(String, String)>,
    types_by_skill_and_name: Vec<(String, Vec<(String, CanonicalTypeDef)>)>,
}

impl ActionRegistry {
    #[verifier::type_invariant]
    closed spec fn wf(self) -> bool {
        &&& sorted_keys(self.actions_by_canonical_action_id@)
        &&& sorted_keys(self.actions_by_qualified_model_name@)
        &&& sorted_keys(self.unique_actions_by_model_name@)
        &&& sorted_keys(self.unique_actions_by_local_name@)
        &&& sorted_keys(self.types_by_skill_and_name@)
        &&& forall|i: int|
            0 <= i < self.types_by_skill_and_name@.len() ==> sorted_keys(
                (#[trigger] self.types_by_skill_and_name@[i]).1@,
            )
    }

    /// The definition registered under canonical id `id`.
    pub closed spec fn action_by_id(self, id: Seq<char>) -> Option<ActionDefinition> {
        lookup(self.actions_by_canonical_action_id@, id)
    }

    /// The canonical id a name of kind `kind` is registered to.
    pub closed spec fn id_by_name(self, kind: NameKind, n: Seq<char>) -> Option<Seq<char>> {
        opt_view(
            lookup(
                match kind {
                    NameKind::Qualified => self.actions_by_qualified_model_name@,
                    NameKind::Model => self.unique_actions_by_model_name@,
                    NameKind::Local => self.unique_actions_by_local_name@,
                },
                n,
            ),
        )
    }

    /// How many alias hops a conversion may take for skill `skill` before it
    /// counts an alias chain as cyclic: the number of types the skill defines,
    /// which no acyclic chain exceeds.
    pub closed spec fn alias_budget(self, skill: Seq<char>) -> nat {
        match lookup(self.types_by_skill_and_name@, skill) {
            Some(inner) => inner@.len(),
            None => 0,
        }
    }

    /// The type named `name` registered for skill `skill`.
    pub closed spec fn type_in_skill(self, skill: Seq<char>, name: Seq<char>) -> Option<
        CanonicalTypeDef,
    > {
        type_lookup(self.types_by_skill_and_name@, skill, name)
    }

    /// The definition the model name `n` resolves to: through a qualified
    /// name if `n` is one, else through a unique Python name, else through a
    /// unique canonical name.
    pub open spec fn resolution(self, n: Seq<char>) -> Option<ActionDefinition> {
        match self.id_by_name(NameKind::Qualified, n) {
            Some(id) => self.action_by_id(id),
            None => match self.id_by_name(NameKind::Model, n) {
                Some(id) => self.action_by_id(id),
                None => match self.id_by_name(NameKind::Local, n) {
                    Some(id) => self.action_by_id(id),
                    None => None,
                },
            },
        }
    }

    /// The registry holds exactly the actions `acts` and the types `tys`.
    pub open spec fn holds(self, acts: Seq<ActionSource>, tys: Seq<(Seq<char>, CanonicalTypeDef)>) -> bool {
        &&& forall|i: int|
            0 <= i < acts.len() ==> (self.action_by_id(action_id_of(#[trigger] acts[i])) matches Some(
                d,
            ) && defines(d, acts[i]))
        &&& forall|k: Seq<char>| #[trigger]
            self.action_by_id(k) is Some ==> exists|i: int|
                0 <= i < acts.len() && action_id_of(#[trigger] acts[i]) == k
        &&& forall|k: Seq<char>| #[trigger]
            self.id_by_name(NameKind::Qualified, k) == last_with(acts, NameKind::Qualified, k)
        &&& forall|k: Seq<char>| #[trigger]
            self.id_by_name(NameKind::Model, k) == unique_with(acts, NameKind::Model, k)
        &&& forall|k: Seq<char>| #[trigger]
            self.id_by_name(NameKind::Local, k) == unique_with(acts, NameKind::Local, k)
        &&& forall|s: Seq<char>, n: Seq<char>| #[trigger]
            same_type_def(self.type_in_skill(s, n), last_type(tys, s, n))
    }
}

/// Facts about adding one action at the end of a list of actions.
proof fn lemma_push_action(acts: Seq<ActionSource>, a: ActionSource)
    ensures
        action_ids(acts.push(a)) == action_ids(acts).push(action_id_of(a)),
        forall|kind: NameKind, n: Seq<char>| #[trigger]
            count_with(acts.push(a), kind, n) == count_with(acts, kind, n) + if name_of(kind, a)
                == n {
                1nat
            } else {
                0nat
            },
        forall|kind: NameKind, n: Seq<char>| #[trigger]
            last_with(acts.push(a), kind, n) == if name_of(kind, a) == n {
                Some(action_id_of(a))
            } else {
                last_with(acts, kind, n)
            },
{
    assert(acts.push(a).drop_last() =~= acts);
    assert(action_ids(acts.push(a)) =~= action_ids(acts).push(action_id_of(a)));
}

/// The action a name is last registered to is one of the actions.
proof fn lemma_last_with_is_an_action(acts: Seq<ActionSource>, kind: NameKind, n: Seq<char>)
    ensures
        last_with(acts, kind, n) matches Some(c) ==> exists|i: int|
            0 <= i < acts.len() && action_id_of(#[trigger] acts[i]) == c,
    decreases acts.len(),
{
    if acts.len() > 0 {
        lemma_last_with_is_an_action(acts.drop_last(), kind, n);
        if name_of(kind, acts.last()) != n {
            if let Some(c) = last_with(acts, kind, n) {
                let i = choose|i: int|
                    0 <= i < acts.drop_last().len() && action_id_of(
                        #[trigger] acts.drop_last()[i],
                    ) == c;
                assert(acts[i] == acts.drop_last()[i]);
            }
        } else {
            assert(action_id_of(acts[acts.len() - 1]) == action_id_of(acts.last()));
        }
    }
}

/// A name is held by no action exactly when no action is last to hold it.
proof fn lemma_count_and_last(acts: Seq<ActionSource>, kind: NameKind, n: Seq<char>)
    ensures
        (count_with(acts, kind, n) == 0) == (last_with(acts, kind, n) is None),
    decreases acts.len(),
{
    if acts.len() > 0 {
        lemma_count_and_last(acts.drop_last(), kind, n);
    }
}

/// The maps of a registry under construction, with the names seen more
/// than once.
struct RegistryParts {
    actions: Vec<(String, ActionDefinition)>,
    qualified: Vec<(String, String)>,
    unique_model: Vec<(String, String)>,
    unique_local: Vec<(String, String)>,
    types: Vec<(String, Vec<(String, CanonicalTypeDef)>)>,
    duplicate_model: Vec<(String, ())>,
    duplicate_local: Vec<(String, ())>,
}

impl RegistryParts {
    /// The parts hold the actions `acts` (no two with the same canonical id)
    /// and the types `tys`.
    spec fn inv(self, acts: Seq<ActionSource>, tys: Seq<(Seq<char>, CanonicalTypeDef)>) -> bool {
        &&& sorted_keys(self.actions@)
        &&& sorted_keys(self.qualified@)
        &&& sorted_keys(self.unique_model@)
        &&& sorted_keys(self.unique_local@)
        &&& sorted_keys(self.types@)
        &&& forall|i: int| 0 <= i < self.types@.len() ==> sorted_keys((#[trigger] self.types@[i]).1@)
        &&& sorted_keys(self.duplicate_model@)
        &&& sorted_keys(self.duplicate_local@)
        &&& first_repeat(action_ids(acts)) is None
        &&& forall|i: int|
            0 <= i < acts.len() ==> (lookup(self.actions@, action_id_of(#[trigger] acts[i])) matches Some(
                d,
            ) && defines(d, acts[i]))
        &&& forall|k: Seq<char>| #[trigger]
            has_key(self.actions@, k) ==> exists|i: int|
                0 <= i < acts.len() && action_id_of(#[trigger] acts[i]) == k
        &&& forall|k: Seq<char>| #[trigger]
            opt_view(lookup(self.qualified@, k)) == last_with(acts, NameKind::Qualified, k)
        &&& forall|k: Seq<char>| #[trigger]
            opt_view(lookup(self.unique_model@, k)) == unique_with(acts, NameKind::Model, k)
        &&& forall|k: Seq<char>| #[trigger]
            opt_view(lookup(self.unique_local@, k)) == unique_with(acts, NameKind::Local, k)
        &&& forall|k: Seq<char>| #[trigger]
            has_key(self.duplicate_model@, k) == (count_with(acts, NameKind::Model, k) >= 2)
        &&& forall|k: Seq<char>| #[trigger]
            has_key(self.duplicate_local@, k) == (count_with(acts, NameKind::Local, k) >= 2)
        &&& forall|s: Seq<char>, n: Seq<char>| #[trigger]
            same_type_def(type_lookup(self.types@, s, n), last_type(tys, s, n))
    }

    fn new() -> (r: Self)
        ensures
            r.inv(Seq::empty(), Seq::empty()),
    {
        let r = RegistryParts {
            actions: Vec::new(),
            qualified: Vec::new(),
            unique_model: Vec::new(),
            unique_local: Vec::new(),
            types: Vec::new(),
            duplicate_model: Vec::new(),
            duplicate_local: Vec::new(),
        };
        assert(first_repeat(action_ids(Seq::<ActionSource>::empty())) is None) by {
            assert(action_ids(Seq::<ActionSource>::empty()).len() == 0);
        }
        r
    }
}

impl RegistryParts {
    /// Registers the type definitions of skill `skill_name`, in order; a later
    /// definition of a name replaces an earlier one.
    fn add_types(
        &mut self,
        skill_name: &String,
        defs: &Vec<CanonicalTypeDef>,
        Ghost(acts): Ghost<Seq<ActionSource>>,
        Ghost(tys): Ghost<Seq<(Seq<char>, CanonicalTypeDef)>>,
    )
        requires
            old(self).inv(acts, tys),
        ensures
            final(self).inv(
                acts,
                tys + defs@.map_values(|t: CanonicalTypeDef| (skill_name@, t)),
            ),
            final(self).actions == old(self).actions,
    {
        let ghost added = defs@.map_values(|t: CanonicalTypeDef| (skill_name@, t));
        for i in 0..defs.len()
            invariant
                self.inv(acts, tys + added.take(i as int)),
                self.actions == old(self).actions,
                added == defs@.map_values(|t: CanonicalTypeDef| (skill_name@, t)),
        {
            let ghost t0 = self.types@;
            let ghost before = tys + added.take(i as int);
            let ghost after = tys + added.take(i + 1);
            assert(after =~= before.push((skill_name@, defs@[i as int])));
            assert(after.drop_last() =~= before);
            let def = &defs[i];
            let mut inner: Vec<(String, CanonicalTypeDef)> = match assoc_remove(
                &mut self.types,
                skill_name.as_str(),
            ) {
                Some(v) => v,
                None => Vec::new(),
            };
            proof {
                lemma_lookup(t0, skill_name@);
                if has_key(t0, skill_name@) {
                    let j = choose|j: int| 0 <= j < t0.len() && #[trigger] t0[j].0@ == skill_name@;
                    assert(sorted_keys(t0[j].1@));
                }
            }
            let ghost inner0 = inner@;
            assert(sorted_keys(inner0));
            assoc_insert(&mut inner, def.name.clone(), def.copy());
            let ghost t1 = self.types@;
            assoc_insert(&mut self.types, skill_name.clone(), inner);
            let ghost t2 = self.types@;
            proof {
                assert forall|j: int| 0 <= j < t2.len() implies sorted_keys(
                    (#[trigger] t2[j]).1@,
                ) by {
                    lemma_lookup(t2, t2[j].0@);
                    if t2[j].0@ != skill_name@ {
                        lemma_lookup(t1, t2[j].0@);
                        lemma_lookup(t0, t2[j].0@);
                        let k = choose|k: int| 0 <= k < t0.len() && #[trigger] t0[k].0@ == t2[j].0@;
                        assert(sorted_keys(t0[k].1@));
                    }
                }
                assert forall|sk: Seq<char>, n: Seq<char>| #[trigger]
                    same_type_def(type_lookup(t2, sk, n), last_type(after, sk, n)) by {
                    assert(same_type_def(type_lookup(t0, sk, n), last_type(before, sk, n)));
                    if sk == skill_name@ {
                        if n == def.name@ {
                        } else {
                            assert(lookup(inner0, n) == type_lookup(t0, sk, n));
                        }
                    } else {
                        assert(lookup(t2, sk) == lookup(t0, sk));
                    }
                }
            }
        }
        assert(added.take(defs@.len() as int) =~= added);
    }
}

/// The canonical id of the action for function `f` of skill `skill_name`.
fn make_action_id(skill_name: &String, f: &CanonicalFunction) -> (r: String)
    ensures
        r@ == skill_name@ + seq!['.'] + f.name@,
{
    let mut s = String::new();
    string_push_str(&mut s, skill_name.as_str());
    crate::text::string_push(&mut s, '.');
    string_push_str(&mut s, f.name.as_str());
    assert(s@ =~= skill_name@ + seq!['.'] + f.name@);
    s
}

/// The definition of the action for function `f` of a skill.
fn make_definition(meta: &SkillMetadata, f: &CanonicalFunction) -> (d: ActionDefinition)
    ensures
        defines(d, (*meta, *f)),
{
    let action_id = make_action_id(&meta.skill_name, f);
    let model_name = python_function_name(f.name.as_str());
    let mut qualified = meta.python_namespace.clone();
    crate::text::string_push(&mut qualified, '.');
    string_push_str(&mut qualified, model_name.as_str());
    assert(qualified@ =~= meta.python_namespace@ + seq!['.'] + python_name(f.name@));
    let mut params: Vec<ActionParam> = Vec::new();
    for i in 0..f.params.len()
        invariant
            params@.len() == i,
            i <= f.params@.len(),
            forall|j: int|
                0 <= j < i ==> (#[trigger] params@[j]).canonical_name == f.params@[j].name
                    && params@[j].model_name@ == python_name(f.params@[j].name@)
                    && params@[j].ty.same(f.params@[j].ty),
    {
        let p = &f.params[i];
        params.push(
            ActionParam {
                canonical_name: p.name.clone(),
                model_name: python_function_name(p.name.as_str()),
                ty: p.ty.copy(),
            },
        );
    }
    ActionDefinition {
        skill: meta.copy(),
        action_name: f.name.clone(),
        canonical_action_id: action_id,
        model_name,
        qualified_model_name: qualified,
        docs: copy_opt_string(&f.docs),
        params,
        result: f.result.copy(),
    }
}

impl RegistryParts {
    /// Registers the names `name` of kind `kind` of a new action with id
    /// `action_id`, keeping a name only while one action has it.
    fn note_unique_name(
        unique: &mut Vec<(String, String)>,
        duplicates: &mut Vec<(String, ())>,
        name: String,
        action_id: &String,
        Ghost(acts): Ghost<Seq<ActionSource>>,
        Ghost(a): Ghost<ActionSource>,
        Ghost(kind): Ghost<NameKind>,
    )
        requires
            sorted_keys(old(unique)@),
            sorted_keys(old(duplicates)@),
            name@ == name_of(kind, a),
            action_id@ == action_id_of(a),
            !action_ids(acts).contains(action_id_of(a)),
            forall|k: Seq<char>| #[trigger]
                opt_view(lookup(old(unique)@, k)) == unique_with(acts, kind, k),
            forall|k: Seq<char>| #[trigger]
                has_key(old(duplicates)@, k) == (count_with(acts, kind, k) >= 2),
        ensures
            sorted_keys(final(unique)@),
            sorted_keys(final(duplicates)@),
            forall|k: Seq<char>| #[trigger]
                opt_view(lookup(final(unique)@, k)) == unique_with(acts.push(a), kind, k),
            forall|k: Seq<char>| #[trigger]
                has_key(final(duplicates)@, k) == (count_with(acts.push(a), kind, k) >= 2),
    {
        proof {
            lemma_push_action(acts, a);
            lemma_last_with_is_an_action(acts, kind, name@);
        }
        let ghost u0 = unique@;
        let ghost d0 = duplicates@;
        let ghost m = name@;
        assert(opt_view(lookup(u0, m)) == unique_with(acts, kind, m));
        assert(has_key(d0, m) == (count_with(acts, kind, m) >= 2));
        match assoc_get(unique, name.as_str()) {
            Some(existing) => {
                // the name is held by exactly one earlier action, whose id differs
                proof {
                    let i = choose|i: int|
                        0 <= i < acts.len() && action_id_of(#[trigger] acts[i]) == existing@;
                    assert(action_ids(acts)[i] == existing@);
                }
                assert(existing@ != action_id@);
                assert(count_with(acts, kind, m) == 1);
                if !crate::text::str_eq(existing.as_str(), action_id.as_str()) {
                    assoc_insert(duplicates, name.clone(), ());
                    assoc_remove(unique, name.as_str());
                }
                assert forall|k: Seq<char>| #[trigger]
                    opt_view(lookup(unique@, k)) == unique_with(acts.push(a), kind, k) by {
                    assert(opt_view(lookup(u0, k)) == unique_with(acts, kind, k));
                }
                assert forall|k: Seq<char>| #[trigger]
                    has_key(duplicates@, k) == (count_with(acts.push(a), kind, k) >= 2) by {
                    assert(has_key(d0, k) == (count_with(acts, kind, k) >= 2));
                }
            },
            None => {
                proof {
                    lemma_count_and_last(acts, kind, m);
                }
                if assoc_find(duplicates, name.as_str()).is_none() {
                    assert(count_with(acts, kind, m) == 0);
                    assoc_insert(unique, name, action_id.clone());
                } else {
                    assert(count_with(acts, kind, m) >= 2);
                }
                assert forall|k: Seq<char>| #[trigger]
                    opt_view(lookup(unique@, k)) == unique_with(acts.push(a), kind, k) by {
                    assert(opt_view(lookup(u0, k)) == unique_with(acts, kind, k));
                    if k == m {
                        lemma_count_and_last(acts.push(a), kind, k);
                    }
                }
                assert forall|k: Seq<char>| #[trigger]
                    has_key(duplicates@, k) == (count_with(acts.push(a), kind, k) >= 2) by {
                    assert(has_key(d0, k) == (count_with(acts, kind, k) >= 2));
                }
            },
        }
    }

    /// Registers the action for function `f` of the skill described by
    /// `meta`; fails if an action with its canonical id is registered.
    fn add_action(
        &mut self,
        meta: &SkillMetadata,
        f: &CanonicalFunction,
        Ghost(acts): Ghost<Seq<ActionSource>>,
        Ghost(tys): Ghost<Seq<(Seq<char>, CanonicalTypeDef)>>,
    ) -> (r: Result<(), BindingError>)
        requires
            old(self).inv(acts, tys),
        ensures
            match r {
                Ok(()) => final(self).inv(acts.push((*meta, *f)), tys),
                Err(e) => first_repeat(action_ids(acts.push((*meta, *f)))) == Some(acts.len() as int)
                    && e.message()@ == duplicate_action_message(action_id_of((*meta, *f))),
            },
    {
        let ghost a: ActionSource = (*meta, *f);
        let ghost acts2 = acts.push(a);
        proof {
            lemma_push_action(acts, a);
            assert(action_ids(acts2).drop_last() =~= action_ids(acts));
        }
        let d = make_definition(meta, f);
        let action_id = d.canonical_action_id.clone();
        let ghost a0 = self.actions@;
        proof {
            lemma_lookup(a0, action_id@);
        }
        if assoc_find(&self.actions, action_id.as_str()).is_some() {
            proof {
                let i = choose|i: int|
                    0 <= i < acts.len() && action_id_of(#[trigger] acts[i]) == action_id@;
                assert(action_ids(acts)[i] == action_id@);
                assert(action_ids(acts).contains(action_id@));
                assert(action_ids(acts2).last() == action_id@);
            }
            let mut message = String::new();
            string_push_str(&mut message, "duplicate canonical action id '");
            string_push_str(&mut message, action_id.as_str());
            string_push_str(&mut message, "'");
            return Err(BindingError::new(message));
        }
        assert(!action_ids(acts).contains(action_id@)) by {
            if action_ids(acts).contains(action_id@) {
                let i = choose|i: int|
                    0 <= i < action_ids(acts).len() && action_ids(acts)[i] == action_id@;
                assert(action_id_of(acts[i]) == action_id@);
                assert(has_key(a0, action_id@));
            }
        }
        assert(first_repeat(action_ids(acts2)) is None);
        let model_name = d.model_name.clone();
        let qualified = d.qualified_model_name.clone();
        let local = f.name.clone();
        assoc_insert(&mut self.actions, action_id.clone(), d);
        let ghost q0 = self.qualified@;
        assoc_insert(&mut self.qualified, qualified, action_id.clone());
        RegistryParts::note_unique_name(
            &mut self.unique_model,
            &mut self.duplicate_model,
            model_name,
            &action_id,
            Ghost(acts),
            Ghost(a),
            Ghost(NameKind::Model),
        );
        RegistryParts::note_unique_name(
            &mut self.unique_local,
            &mut self.duplicate_local,
            local,
            &action_id,
            Ghost(acts),
            Ghost(a),
            Ghost(NameKind::Local),
        );
        proof {
            let a1 = self.actions@;
            assert forall|i: int| 0 <= i < acts2.len() implies (lookup(
                a1,
                action_id_of(#[trigger] acts2[i]),
            ) matches Some(dd) && defines(dd, acts2[i])) by {
                if i < acts.len() {
                    assert(acts2[i] == acts[i]);
                    assert(action_ids(acts)[i] == action_id_of(acts[i]));
                    assert(action_id_of(acts[i]) != action_id@);
                }
            }
            assert forall|k: Seq<char>| #[trigger] has_key(a1, k) implies exists|i: int|
                0 <= i < acts2.len() && action_id_of(#[trigger] acts2[i]) == k by {
                if k == action_id@ {
                    assert(action_id_of(acts2[acts.len() as int]) == k);
                } else {
                    let i = choose|i: int| 0 <= i < acts.len() && action_id_of(#[trigger] acts[i]) == k;
                    assert(acts2[i] == acts[i]);
                }
            }
            assert forall|k: Seq<char>| #[trigger]
                opt_view(lookup(self.qualified@, k)) == last_with(acts2, NameKind::Qualified, k) by {
                assert(opt_view(lookup(q0, k)) == last_with(acts, NameKind::Qualified, k));
            }
        }
        Ok(())
    }
}

/// Once a prefix of the skills fails, the whole list fails the same way.
proof fn lemma_registry_error_prefix(skills: Seq<CatalogSkill>, k: int)
    requires
        0 <= k <= skills.len(),
        registry_error(skills.take(k)) is Some,
    ensures
        registry_error(skills) == registry_error(skills.take(k)),
    decreases skills.len() - k,
{
    if k < skills.len() {
        assert(skills.take(k + 1).drop_last() =~= skills.take(k));
        lemma_registry_error_prefix(skills, k + 1);
    } else {
        assert(skills.take(k) =~= skills);
    }
}

/// A repeat within a prefix is the first repeat of the whole.
pub proof fn lemma_first_repeat_prefix(ids: Seq<Seq<char>>, n: int)
    requires
        0 <= n <= ids.len(),
        first_repeat(ids.take(n)) is Some,
    ensures
        first_repeat(ids) == first_repeat(ids.take(n)),
    decreases ids.len() - n,
{
    if n < ids.len() {
        assert(ids.take(n + 1).drop_last() =~= ids.take(n));
        lemma_first_repeat_prefix(ids, n + 1);
    } else {
        assert(ids.take(n) =~= ids);
    }
}

impl ActionRegistry {
    /// Builds the registry of `skills`, taken in order; see `registry_error`
    /// for when it fails.
    pub fn from_skill_refs(skills: &Vec<CatalogSkill>) -> (r: Result<Self, BindingError>)
        ensures
            match r {
                Ok(reg) => registry_error(skills@) is None && reg.holds(
                    catalog_actions(skills@),
                    catalog_types(skills@),
                ),
                Err(e) => registry_error(skills@) == Some(e.message()@),
            },
    {
        let mut parts = RegistryParts::new();
        assert(skills@.take(0) =~= Seq::<CatalogSkill>::empty());
        for k in 0..skills.len()
            invariant
                registry_error(skills@.take(k as int)) is None,
                parts.inv(catalog_actions(skills@.take(k as int)), catalog_types(skills@.take(k as int))),
        {
            let skill = &skills[k];
            let ghost pre = skills@.take(k as int);
            let ghost cur = skills@.take(k + 1);
            assert(cur.drop_last() =~= pre);
            assert(cur.last() == *skill);
            if skill.world.exports.len() == 0 {
                proof {
                    lemma_registry_error_prefix(skills@, k + 1);
                }
                return Err(BindingError::new("canonical world has no exported interface".to_owned()));
            }
            let exports = &skill.world.exports[0];
            let ghost acts = catalog_actions(pre);
            let ghost tys = catalog_types(pre);
            parts.add_types(&skill.metadata.skill_name, &exports.types, Ghost(acts), Ghost(tys));
            let ghost tys2 = catalog_types(cur);
            assert(tys2 =~= tys + exports.types@.map_values(
                |t: CanonicalTypeDef| (skill.metadata.skill_name@, t),
            ));
            let ghost fa = skill_actions(*skill);
            assert(catalog_actions(cur) =~= acts + fa);
            for j in 0..exports.functions.len()
                invariant
                    exports == skill.world.exports@[0],
                    skill.world.exports@.len() > 0,
                    fa == skill_actions(*skill),
                    fa.len() == exports.functions@.len(),
                    parts.inv(acts + fa.take(j as int), tys2),
                    acts == catalog_actions(pre),
                    registry_error(pre) is None,
                    catalog_actions(cur) == acts + fa,
                    cur.drop_last() == pre,
                    cur.last() == *skill,
                    cur == skills@.take(k + 1),
                    k < skills@.len(),
            {
                let f = &exports.functions[j];
                let ghost before = acts + fa.take(j as int);
                assert(fa[j as int] == (skill.metadata, *f));
                assert(acts + fa.take(j + 1) =~= before.push((skill.metadata, *f)));
                match parts.add_action(&skill.metadata, f, Ghost(before), Ghost(tys2)) {
                    Ok(()) => {},
                    Err(e) => {
                        proof {
                            let ids = action_ids(catalog_actions(cur));
                            let n: int = before.len() as int + 1;
                            assert(ids.take(n) =~= action_ids(before.push((skill.metadata, *f))));
                            lemma_first_repeat_prefix(ids, n);
                            assert(ids[n - 1] == action_id_of((skill.metadata, *f)));
                            assert(registry_error(cur) == Some(e.message()@));
                            lemma_registry_error_prefix(skills@, k + 1);
                        }
                        return Err(e);
                    },
                }
            }
            assert(fa.take(fa.len() as int) =~= fa);
            assert(first_repeat(action_ids(catalog_actions(cur))) is None);
        }
        assert(skills@.take(skills@.len() as int) =~= skills@);
        let reg = ActionRegistry {
            actions_by_canonical_action_id: parts.actions,
            actions_by_qualified_model_name: parts.qualified,
            unique_actions_by_model_name: parts.unique_model,
            unique_actions_by_local_name: parts.unique_local,
            types_by_skill_and_name: parts.types,
        };
        proof {
            let acts = catalog_actions(skills@);
            assert forall|k: Seq<char>| #[trigger] reg.action_by_id(k) is Some implies exists|i: int|
                0 <= i < acts.len() && action_id_of(#[trigger] acts[i]) == k by {
                lemma_lookup(reg.actions_by_canonical_action_id@, k);
                assert(has_key(parts.actions@, k));
            }
        }
        Ok(reg)
    }

    /// Builds the registry of `skills`, taken in order; see `registry_error`
    /// for when it fails.
    pub fn from_skills(skills: Vec<CatalogSkill>) -> (r: Result<Self, BindingError>)
        ensures
            match r {
                Ok(reg) => registry_error(skills@) is None && reg.holds(
                    catalog_actions(skills@),
                    catalog_types(skills@),
                ),
                Err(e) => registry_error(skills@) == Some(e.message()@),
            },
    {
        ActionRegistry::from_skill_refs(&skills)
    }
}

/// The outcome of building a registry from `skills`: the registry of their
/// actions and types, or the error `registry_error` names.
pub open spec fn registry_built(r: Result<ActionRegistry, BindingError>, skills: Seq<CatalogSkill>) -> bool {
    match r {
        Ok(reg) => registry_error(skills) is None && reg.holds(
            catalog_actions(skills),
            catalog_types(skills),
        ),
        Err(e) => registry_error(skills) == Some(e.message()@),
    }
}

/// The name a world's skill goes by: its package's name, or the world's own
/// name when it has no package.
pub open spec fn world_skill_name(world: CanonicalWorld) -> String {
    match world.package {
        Some(p) => p.name,
        None => world.name,
    }
}

/// The single catalog skill made of a world, with Python namespace
/// `namespace`.
pub open spec fn world_skill(world: CanonicalWorld, namespace: String) -> CatalogSkill {
    CatalogSkill {
        metadata: SkillMetadata {
            skill_name: world_skill_name(world),
            python_namespace: namespace,
            skill_version: None,
            profile_name: None,
            world_name: world.name,
            runtime_kind: None,
            artifact_ref: None,
        },
        world,
    }
}

/// The catalog skill for a world on its own.
pub fn skill_for_world(world: CanonicalWorld) -> (r: CatalogSkill)
    ensures
        r == world_skill(world, r.metadata.python_namespace),
        r.metadata.python_namespace@ == python_name(world_skill_name(world)@),
{
    let skill_name = match &world.package {
        Some(package) => package.name.clone(),
        None => world.name.clone(),
    };
    let metadata = SkillMetadata::new(skill_name, world.name.clone());
    CatalogSkill { metadata, world }
}

impl ActionRegistry {
    /// The registry of a single world, as a skill named after its package
    /// (or, without a package, after the world).
    pub fn from_world(world: CanonicalWorld) -> (r: Result<Self, BindingError>)
        ensures
            exists|ns: String|
                ns@ == python_name(world_skill_name(world)@) && registry_built(
                    r,
                    seq![world_skill(world, ns)],
                ),
    {
        let skill = skill_for_world(world);
        let mut skills: Vec<CatalogSkill> = Vec::new();
        skills.push(skill);
        let ghost ns = skills@[0].metadata.python_namespace;
        assert(skills@ =~= seq![world_skill(world, ns)]);
        ActionRegistry::from_skills(skills)
    }

    /// The action with canonical id `canonical_action_id`.
    pub fn resolve_canonical_action(&self, canonical_action_id: &str) -> (r: Option<&ActionDefinition>)
        ensures
            match r {
                Some(d) => self.action_by_id(canonical_action_id@) == Some(*d),
                None => self.action_by_id(canonical_action_id@) is None,
            },
    {
        proof {
            use_type_invariant(self);
        }
        assoc_get(&self.actions_by_canonical_action_id, canonical_action_id)
    }

    /// The action a model-facing name stands for: a qualified name first,
    /// then a Python name that one action alone has, then a canonical name
    /// that one action alone has.
    pub fn resolve_model_action(&self, model_name: &str) -> (r: Option<&ActionDefinition>)
        ensures
            match r {
                Some(d) => self.resolution(model_name@) == Some(*d),
                None => self.resolution(model_name@) is None,
            },
    {
        proof {
            use_type_invariant(self);
        }
        match assoc_get(&self.actions_by_qualified_model_name, model_name) {
            Some(id) => {
                return assoc_get(&self.actions_by_canonical_action_id, id.as_str());
            },
            None => {},
        }
        match assoc_get(&self.unique_actions_by_model_name, model_name) {
            Some(id) => {
                return assoc_get(&self.actions_by_canonical_action_id, id.as_str());
            },
            None => {},
        }
        match assoc_get(&self.unique_actions_by_local_name, model_name) {
            Some(id) => assoc_get(&self.actions_by_canonical_action_id, id.as_str()),
            None => None,
        }
    }

    /// The type named `name` of skill `skill_name`.
    pub fn type_by_name_in_skill(&self, skill_name: &str, name: &str) -> (r: Option<&CanonicalTypeDef>)
        ensures
            match r {
                Some(t) => self.type_in_skill(skill_name@, name@) == Some(*t),
                None => self.type_in_skill(skill_name@, name@) is None,
            },
    {
        proof {
            use_type_invariant(self);
        }
        match assoc_find(&self.types_by_skill_and_name, skill_name) {
            Some(i) => {
                proof {
                    assert(sorted_keys(self.types_by_skill_and_name@[i as int].1@));
                }
                assoc_get(&self.types_by_skill_and_name[i].1, name)
            },
            None => None,
        }
    }
}

/// The last action bearing a name is the one the name is last given to.
proof fn lemma_last_with_index(acts: Seq<ActionSource>, kind: NameKind, i: int)
    requires
        0 <= i < acts.len(),
        forall|j: int| i < j < acts.len() ==> name_of(kind, #[trigger] acts[j]) != name_of(kind, acts[i]),
    ensures
        last_with(acts, kind, name_of(kind, acts[i])) == Some(action_id_of(acts[i])),
    decreases acts.len(),
{
    if i < acts.len() - 1 {
        let t = acts.drop_last();
        assert(name_of(kind, acts[acts.len() - 1]) != name_of(kind, acts[i]));
        assert forall|j: int| i < j < t.len() implies name_of(kind, #[trigger] t[j]) != name_of(
            kind,
            t[i],
        ) by {
            assert(t[j] == acts[j]);
        }
        lemma_last_with_index(t, kind, i);
    }
}

/// When one action alone bears a name, it is the last to bear it.
proof fn lemma_count_one_index(acts: Seq<ActionSource>, kind: NameKind, i: int)
    requires
        0 <= i < acts.len(),
        count_with(acts, kind, name_of(kind, acts[i])) == 1,
    ensures
        forall|j: int| i < j < acts.len() ==> name_of(kind, #[trigger] acts[j]) != name_of(kind, acts[i]),
    decreases acts.len(),
{
    let n = name_of(kind, acts[i]);
    if i < acts.len() - 1 {
        let t = acts.drop_last();
        assert(t[i] == acts[i]);
        lemma_count_positive(t, kind, i);
        assert(name_of(kind, acts.last()) != n);
        lemma_count_one_index(t, kind, i);
        assert forall|j: int| i < j < acts.len() implies name_of(kind, #[trigger] acts[j]) != n by {
            if j < acts.len() - 1 {
                assert(t[j] == acts[j]);
            }
        }
    }
}

/// A name some action bears is counted.
proof fn lemma_count_positive(acts: Seq<ActionSource>, kind: NameKind, i: int)
    requires
        0 <= i < acts.len(),
    ensures
        count_with(acts, kind, name_of(kind, acts[i])) >= 1,
    decreases acts.len(),
{
    if i < acts.len() - 1 {
        assert(acts.drop_last()[i] == acts[i]);
        lemma_count_positive(acts.drop_last(), kind, i);
    }
}

/// A name without a dot is no qualified name.
proof fn lemma_dotless_not_qualified(acts: Seq<ActionSource>, n: Seq<char>)
    requires
        !n.contains('.'),
    ensures
        last_with(acts, NameKind::Qualified, n) is None,
    decreases acts.len(),
{
    if acts.len() > 0 {
        let a = acts.last();
        let q = name_of(NameKind::Qualified, a);
        assert(q[a.0.python_namespace@.len() as int] == '.');
        lemma_dotless_not_qualified(acts.drop_last(), n);
    }
}

/// A qualified model name resolves to the last action that bears it.
pub proof fn lemma_qualified_name_resolves(
    reg: ActionRegistry,
    acts: Seq<ActionSource>,
    tys: Seq<(Seq<char>, CanonicalTypeDef)>,
    i: int,
)
    requires
        reg.holds(acts, tys),
        0 <= i < acts.len(),
        forall|j: int|
            i < j < acts.len() ==> name_of(NameKind::Qualified, #[trigger] acts[j]) != name_of(
                NameKind::Qualified,
                acts[i],
            ),
    ensures
        reg.resolution(name_of(NameKind::Qualified, acts[i])) matches Some(d) && defines(d, acts[i]),
{
    let q = name_of(NameKind::Qualified, acts[i]);
    lemma_last_with_index(acts, NameKind::Qualified, i);
    assert(reg.id_by_name(NameKind::Qualified, q) == last_with(acts, NameKind::Qualified, q));
}

/// A Python name that exactly one action bears, and that is no qualified
/// name, resolves to that action.
pub proof fn lemma_unique_model_name_resolves(
    reg: ActionRegistry,
    acts: Seq<ActionSource>,
    tys: Seq<(Seq<char>, CanonicalTypeDef)>,
    i: int,
)
    requires
        reg.holds(acts, tys),
        0 <= i < acts.len(),
        count_with(acts, NameKind::Model, name_of(NameKind::Model, acts[i])) == 1,
        last_with(acts, NameKind::Qualified, name_of(NameKind::Model, acts[i])) is None,
    ensures
        reg.resolution(name_of(NameKind::Model, acts[i])) matches Some(d) && defines(d, acts[i]),
{
    let m = name_of(NameKind::Model, acts[i]);
    lemma_count_one_index(acts, NameKind::Model, i);
    lemma_last_with_index(acts, NameKind::Model, i);
    assert(reg.id_by_name(NameKind::Qualified, m) == last_with(acts, NameKind::Qualified, m));
    assert(reg.id_by_name(NameKind::Model, m) == unique_with(acts, NameKind::Model, m));
}

/// A dotless name that two or more actions bear, as Python name and as
/// canonical name, resolves to nothing: such an action must be named with
/// its namespace.
pub proof fn lemma_shared_name_unresolved(
    reg: ActionRegistry,
    acts: Seq<ActionSource>,
    tys: Seq<(Seq<char>, CanonicalTypeDef)>,
    n: Seq<char>,
)
    requires
        reg.holds(acts, tys),
        !n.contains('.'),
        count_with(acts, NameKind::Model, n) >= 2,
        count_with(acts, NameKind::Local, n) >= 2,
    ensures
        reg.resolution(n) is None,
{
    lemma_dotless_not_qualified(acts, n);
    assert(reg.id_by_name(NameKind::Qualified, n) == last_with(acts, NameKind::Qualified, n));
    assert(reg.id_by_name(NameKind::Model, n) == unique_with(acts, NameKind::Model, n));
    assert(reg.id_by_name(NameKind::Local, n) == unique_with(acts, NameKind::Local, n));
}

impl ActionRegistry {
    /// How many alias hops a conversion may take for skill `skill_name`.
    pub fn alias_budget_of(&self, skill_name: &str) -> (r: usize)
        ensures
            r == self.alias_budget(skill_name@),
    {
        proof {
            use_type_invariant(self);
        }
        match assoc_get(&self.types_by_skill_and_name, skill_name) {
            Some(inner) => inner.len(),
            None => 0,
        }
    }
}

} // verus!