//! What building a registry or a catalog from a list of skills gives, stated
//! over the skills themselves.
use vstd::prelude::*;

use crate::canonical::catalog::{catalog_built, skill_keys, SkillCatalog};
use crate::canonical::ir::{CanonicalFunction, CanonicalTypeDef};
use crate::canonical::naming::python_name;
use crate::canonical::registry::{
    action_id_of, action_ids, catalog_actions, catalog_types, count_with, defines, first_repeat,
    last_type, last_with, name_of, registry_built, registry_error, same_type_def, skill_actions,
    skill_types, unique_with, world_skill, world_skill_name, ActionRegistry, ActionSource,
    BindingError, CatalogSkill, NameKind,
};
use crate::canonical::ir::CanonicalWorld;

verus! {

/// No two entries are the same.
pub open spec fn distinct(ids: Seq<Seq<char>>) -> bool {
    forall|i: int, j: int| #![trigger ids[i], ids[j]] 0 <= i < j < ids.len() ==> ids[i] != ids[j]
}

/// Every skill exports at least one interface.
pub open spec fn all_export(skills: Seq<CatalogSkill>) -> bool {
    forall|i: int| 0 <= i < skills.len() ==> (#[trigger] skills[i]).world.exports@.len() > 0
}

/// Function `j` of the first exported interface of skill `i`.
pub open spec fn exported_function(skills: Seq<CatalogSkill>, i: int, j: int) -> CanonicalFunction {
    skills[i].world.exports@[0].functions@[j]
}

/// Skill `i` exports an interface whose functions include one at `j`.
pub open spec fn has_function(skills: Seq<CatalogSkill>, i: int, j: int) -> bool {
    &&& 0 <= i < skills.len()
    &&& skills[i].world.exports@.len() > 0
    &&& 0 <= j < skills[i].world.exports@[0].functions@.len()
}

/// A list has no first repeat exactly when its entries are distinct.
pub proof fn lemma_first_repeat_none(ids: Seq<Seq<char>>)
    ensures
        first_repeat(ids) is None <==> distinct(ids),
    decreases ids.len(),
{
    if ids.len() > 0 {
        let t = ids.drop_last();
        let n = ids.len() - 1;
        lemma_first_repeat_none(t);
        if first_repeat(ids) is None {
            assert forall|i: int, j: int| 0 <= i < j < ids.len() implies ids[i] != ids[j] by {
                if j == n {
                    if ids[i] == ids[j] {
                        assert(t[i] == ids.last());
                    }
                } else {
                    assert(t[i] == ids[i] && t[j] == ids[j]);
                }
            }
        } else if distinct(ids) {
            assert forall|i: int, j: int| 0 <= i < j < t.len() implies t[i] != t[j] by {
                assert(t[i] == ids[i] && t[j] == ids[j]);
            }
            if t.contains(ids.last()) {
                let k = choose|k: int| 0 <= k < t.len() && t[k] == ids.last();
                assert(ids[k] == ids[n]);
            }
        }
    }
}

/// Building a registry from `skills` finds a problem exactly when some skill
/// exports no interface or two of their actions share a canonical id.
pub proof fn lemma_registry_error_iff(skills: Seq<CatalogSkill>)
    ensures
        registry_error(skills) is None <==> all_export(skills) && distinct(
            action_ids(catalog_actions(skills)),
        ),
    decreases skills.len(),
{
    if skills.len() > 0 {
        let t = skills.drop_last();
        let n = skills.len() - 1;
        lemma_registry_error_iff(t);
        let b = action_ids(catalog_actions(skills));
        lemma_first_repeat_none(b);
        let a = action_ids(catalog_actions(t));
        assert(catalog_actions(skills) == catalog_actions(t) + skill_actions(skills.last()));
        assert forall|i: int| 0 <= i < a.len() implies a[i] == b[i] by {
            assert(catalog_actions(skills)[i] == catalog_actions(t)[i]);
        }
        if distinct(b) {
            assert forall|i: int, j: int| 0 <= i < j < a.len() implies a[i] != a[j] by {
                assert(a[i] == b[i] && a[j] == b[j]);
            }
        }
        if all_export(skills) {
            assert forall|i: int| 0 <= i < t.len() implies (#[trigger] t[i]).world.exports@.len()
                > 0 by {
                assert(t[i] == skills[i]);
            }
            assert(skills[n] == skills.last());
        }
        if all_export(t) && skills.last().world.exports@.len() > 0 {
            assert forall|i: int| 0 <= i < skills.len() implies (
            #[trigger] skills[i]).world.exports@.len() > 0 by {
                if i < n {
                    assert(t[i] == skills[i]);
                }
            }
        }
    }
}

/// A registry built from `skills` fails exactly when some skill exports no
/// interface, or two functions of the skills' first exported interfaces
/// have the same canonical id `<skill>.<function>`.
pub proof fn lemma_registry_fails_iff(r: Result<ActionRegistry, BindingError>, skills: Seq<CatalogSkill>)
    requires
        registry_built(r, skills),
    ensures
        r is Err <==> !(all_export(skills) && distinct(action_ids(catalog_actions(skills)))),
{
    lemma_registry_error_iff(skills);
}

/// Each function of a skill's first exported interface is an action of the
/// list of skills.
pub proof fn lemma_function_is_action(skills: Seq<CatalogSkill>, i: int, j: int)
    requires
        has_function(skills, i, j),
    ensures
        exists|k: int|
            0 <= k < catalog_actions(skills).len() && #[trigger] catalog_actions(skills)[k] == (
                skills[i].metadata,
                exported_function(skills, i, j),
            ),
    decreases skills.len(),
{
    let t = skills.drop_last();
    let n = skills.len() - 1;
    assert(catalog_actions(skills) == catalog_actions(t) + skill_actions(skills.last()));
    if i < n {
        assert(t[i] == skills[i]);
        lemma_function_is_action(t, i, j);
        let k = choose|k: int|
            0 <= k < catalog_actions(t).len() && #[trigger] catalog_actions(t)[k] == (
                t[i].metadata,
                exported_function(t, i, j),
            );
        assert(catalog_actions(skills)[k] == catalog_actions(t)[k]);
    } else {
        let k = catalog_actions(t).len() + j;
        assert(skills[i] == skills.last());
        assert(skill_actions(skills.last())[j] == (skills[i].metadata, exported_function(skills, i, j)));
        assert(catalog_actions(skills)[k] == skill_actions(skills.last())[j]);
    }
}

/// Each action of a list of skills is a function of a skill's first
/// exported interface.
pub proof fn lemma_action_is_function(skills: Seq<CatalogSkill>, k: int)
    requires
        0 <= k < catalog_actions(skills).len(),
    ensures
        exists|i: int, j: int|
            #![trigger exported_function(skills, i, j)]
            has_function(skills, i, j) && catalog_actions(skills)[k] == (
                skills[i].metadata,
                exported_function(skills, i, j),
            ),
    decreases skills.len(),
{
    let t = skills.drop_last();
    let n = skills.len() - 1;
    assert(catalog_actions(skills) == catalog_actions(t) + skill_actions(skills.last()));
    if k < catalog_actions(t).len() {
        lemma_action_is_function(t, k);
        let (i, j) = choose|i: int, j: int|
            #![trigger exported_function(t, i, j)]
            has_function(t, i, j) && catalog_actions(t)[k] == (t[i].metadata, exported_function(t, i, j));
        assert(t[i] == skills[i]);
        assert(exported_function(t, i, j) == exported_function(skills, i, j));
        assert(has_function(skills, i, j));
        assert(catalog_actions(skills)[k] == catalog_actions(t)[k]);
    } else {
        let j = k - catalog_actions(t).len();
        let last = skills.last();
        assert(skills[n] == last);
        assert(skill_actions(last).len() > 0);
        assert(last.world.exports@.len() > 0);
        assert(skill_actions(last) == last.world.exports@[0].functions@.map_values(
            |f: CanonicalFunction| (last.metadata, f),
        ));
        assert(j < last.world.exports@[0].functions@.len());
        assert(catalog_actions(skills)[k] == skill_actions(last)[j]);
        assert(skill_actions(last)[j] == (last.metadata, exported_function(skills, n, j)));
        assert(has_function(skills, n, j));
    }
}

/// A registry built from `skills` registers each function of each skill's
/// first exported interface under `<skill>.<function>`, defined as
/// `defines` says (its Python names, parameters, result and docs), and it
/// registers no other id.
pub proof fn lemma_registry_actions(reg: ActionRegistry, skills: Seq<CatalogSkill>)
    requires
        registry_built(Ok::<ActionRegistry, BindingError>(reg), skills),
    ensures
        forall|i: int, j: int|
            #![trigger exported_function(skills, i, j)]
            has_function(skills, i, j) ==> (reg.action_by_id(
                action_id_of((skills[i].metadata, exported_function(skills, i, j))),
            ) matches Some(d) && defines(d, (skills[i].metadata, exported_function(skills, i, j)))),
        forall|id: Seq<char>| #[trigger]
            reg.action_by_id(id) is Some ==> exists|i: int, j: int|
                #![trigger exported_function(skills, i, j)]
                has_function(skills, i, j) && id == action_id_of(
                    (skills[i].metadata, exported_function(skills, i, j)),
                ),
{
    let acts = catalog_actions(skills);
    assert forall|i: int, j: int|
        #![trigger exported_function(skills, i, j)]
        has_function(skills, i, j) implies (reg.action_by_id(
            action_id_of((skills[i].metadata, exported_function(skills, i, j))),
        ) matches Some(d) && defines(d, (skills[i].metadata, exported_function(skills, i, j)))) by {
        lemma_function_is_action(skills, i, j);
        let k = choose|k: int|
            0 <= k < acts.len() && #[trigger] acts[k] == (
                skills[i].metadata,
                exported_function(skills, i, j),
            );
        assert(reg.action_by_id(action_id_of(acts[k])) matches Some(d) && defines(d, acts[k]));
    }
    assert forall|id: Seq<char>| #[trigger] reg.action_by_id(id) is Some implies exists|i: int, j: int|
        #![trigger exported_function(skills, i, j)]
        has_function(skills, i, j) && id == action_id_of(
            (skills[i].metadata, exported_function(skills, i, j)),
        ) by {
        let k = choose|k: int| 0 <= k < acts.len() && action_id_of(#[trigger] acts[k]) == id;
        lemma_action_is_function(skills, k);
    }
}

/// A catalog built from `skills` fails exactly when the registry of their
/// actions would (see `lemma_registry_fails_iff`), or when two skills have
/// the same key `<name>::<version>::<profile>`.
pub proof fn lemma_catalog_fails_iff(r: Result<SkillCatalog, BindingError>, skills: Seq<CatalogSkill>)
    requires
        catalog_built(r, skills),
    ensures
        r is Err <==> !(all_export(skills) && distinct(action_ids(catalog_actions(skills))))
            || !distinct(skill_keys(skills)),
{
    lemma_registry_error_iff(skills);
    lemma_first_repeat_none(skill_keys(skills));
}

/// Type `j` of the first exported interface of skill `i`.
pub open spec fn exported_type(skills: Seq<CatalogSkill>, i: int, j: int) -> CanonicalTypeDef {
    skills[i].world.exports@[0].types@[j]
}

/// Skill `i` exports an interface whose types include one at `j`.
pub open spec fn has_type(skills: Seq<CatalogSkill>, i: int, j: int) -> bool {
    &&& 0 <= i < skills.len()
    &&& skills[i].world.exports@.len() > 0
    &&& 0 <= j < skills[i].world.exports@[0].types@.len()
}

/// Some skill named `skill` has a type named `name` in its first exported
/// interface.
pub open spec fn skill_defines_type(skills: Seq<CatalogSkill>, skill: Seq<char>, name: Seq<char>) -> bool {
    exists|i: int, j: int|
        #![trigger exported_type(skills, i, j)]
        has_type(skills, i, j) && skills[i].metadata.skill_name@ == skill && exported_type(
            skills,
            i,
            j,
        ).name@ == name
}

/// Each type of a skill's first exported interface is an entry of the
/// list's types.
proof fn lemma_type_is_entry(skills: Seq<CatalogSkill>, i: int, j: int)
    requires
        has_type(skills, i, j),
    ensures
        exists|k: int|
            0 <= k < catalog_types(skills).len() && #[trigger] catalog_types(skills)[k] == (
                skills[i].metadata.skill_name@,
                exported_type(skills, i, j),
            ),
    decreases skills.len(),
{
    let t = skills.drop_last();
    let n = skills.len() - 1;
    let last = skills.last();
    assert(catalog_types(skills) == catalog_types(t) + skill_types(last));
    if i < n {
        assert(t[i] == skills[i]);
        assert(exported_type(t, i, j) == exported_type(skills, i, j));
        lemma_type_is_entry(t, i, j);
        let k = choose|k: int|
            0 <= k < catalog_types(t).len() && #[trigger] catalog_types(t)[k] == (
                t[i].metadata.skill_name@,
                exported_type(t, i, j),
            );
        assert(catalog_types(skills)[k] == catalog_types(t)[k]);
    } else {
        let k = catalog_types(t).len() + j;
        assert(skills[n] == last);
        assert(catalog_types(skills)[k] == skill_types(last)[j]);
        assert(skill_types(last)[j] == (last.metadata.skill_name@, exported_type(skills, n, j)));
    }
}

/// Each entry of the list's types is a type of a skill's first exported
/// interface.
proof fn lemma_entry_is_type(skills: Seq<CatalogSkill>, k: int)
    requires
        0 <= k < catalog_types(skills).len(),
    ensures
        exists|i: int, j: int|
            #![trigger exported_type(skills, i, j)]
            has_type(skills, i, j) && catalog_types(skills)[k] == (
                skills[i].metadata.skill_name@,
                exported_type(skills, i, j),
            ),
    decreases skills.len(),
{
    let t = skills.drop_last();
    let n = skills.len() - 1;
    let last = skills.last();
    assert(catalog_types(skills) == catalog_types(t) + skill_types(last));
    if k < catalog_types(t).len() {
        lemma_entry_is_type(t, k);
        let (i, j) = choose|i: int, j: int|
            #![trigger exported_type(t, i, j)]
            has_type(t, i, j) && catalog_types(t)[k] == (t[i].metadata.skill_name@, exported_type(t, i, j));
        assert(t[i] == skills[i]);
        assert(exported_type(t, i, j) == exported_type(skills, i, j));
        assert(has_type(skills, i, j));
        assert(catalog_types(skills)[k] == catalog_types(t)[k]);
    } else {
        let j = k - catalog_types(t).len();
        assert(skills[n] == last);
        assert(skill_types(last).len() > 0);
        assert(last.world.exports@.len() > 0);
        assert(catalog_types(skills)[k] == skill_types(last)[j]);
        assert(skill_types(last)[j] == (last.metadata.skill_name@, exported_type(skills, n, j)));
        assert(has_type(skills, n, j));
    }
}

/// The last entry of skill `s` named `n` exists exactly when some entry is
/// of skill `s` and named `n`.
proof fn lemma_last_type_exists(tys: Seq<(Seq<char>, CanonicalTypeDef)>, s: Seq<char>, n: Seq<char>)
    ensures
        last_type(tys, s, n) is Some <==> exists|k: int|
            0 <= k < tys.len() && (#[trigger] tys[k]).0 == s && tys[k].1.name@ == n,
    decreases tys.len(),
{
    if tys.len() > 0 {
        let t = tys.drop_last();
        lemma_last_type_exists(t, s, n);
        if last_type(tys, s, n) is Some {
            if !(tys.last().0 == s && tys.last().1.name@ == n) {
                let k = choose|k: int| 0 <= k < t.len() && (#[trigger] t[k]).0 == s && t[k].1.name@ == n;
                assert(tys[k] == t[k]);
            } else {
                assert(tys[tys.len() - 1] == tys.last());
            }
        } else if exists|k: int| 0 <= k < tys.len() && (#[trigger] tys[k]).0 == s && tys[k].1.name@ == n {
            let k = choose|k: int| 0 <= k < tys.len() && (#[trigger] tys[k]).0 == s && tys[k].1.name@ == n;
            if k < t.len() {
                assert(t[k] == tys[k]);
            }
        }
    }
}

/// A registry built from `skills` has a type named `name` for skill `skill`
/// exactly when some skill of that name has a type of that name in its first
/// exported interface; it is the last such type in the skills' order (see
/// `last_type`), so no type of another skill is ever returned.
pub proof fn lemma_registry_types(reg: ActionRegistry, skills: Seq<CatalogSkill>, skill: Seq<char>, name: Seq<char>)
    requires
        registry_built(Ok::<ActionRegistry, BindingError>(reg), skills),
    ensures
        reg.type_in_skill(skill, name) is Some <==> skill_defines_type(skills, skill, name),
        same_type_def(reg.type_in_skill(skill, name), last_type(catalog_types(skills), skill, name)),
{
    let tys = catalog_types(skills);
    lemma_last_type_exists(tys, skill, name);
    assert(same_type_def(reg.type_in_skill(skill, name), last_type(tys, skill, name)));
    if last_type(tys, skill, name) is Some {
        let k = choose|k: int| 0 <= k < tys.len() && (#[trigger] tys[k]).0 == skill && tys[k].1.name@ == name;
        lemma_entry_is_type(skills, k);
        let (i, j) = choose|i: int, j: int|
            #![trigger exported_type(skills, i, j)]
            has_type(skills, i, j) && tys[k] == (skills[i].metadata.skill_name@, exported_type(skills, i, j));
        assert(has_type(skills, i, j) && skills[i].metadata.skill_name@ == skill && exported_type(
            skills,
            i,
            j,
        ).name@ == name);
    }
    if skill_defines_type(skills, skill, name) {
        let (i, j) = choose|i: int, j: int|
            #![trigger exported_type(skills, i, j)]
            has_type(skills, i, j) && skills[i].metadata.skill_name@ == skill && exported_type(
                skills,
                i,
                j,
            ).name@ == name;
        lemma_type_is_entry(skills, i, j);
        let k = choose|k: int|
            0 <= k < tys.len() && #[trigger] tys[k] == (
                skills[i].metadata.skill_name@,
                exported_type(skills, i, j),
            );
        assert(tys[k].0 == skill && tys[k].1.name@ == name);
    }
}

/// Two lists of skills with the same worlds, in order, under skill names and
/// Python namespaces of the same characters.
pub open spec fn same_named_skills(a: Seq<CatalogSkill>, b: Seq<CatalogSkill>) -> bool {
    &&& a.len() == b.len()
    &&& forall|i: int|
        0 <= i < a.len() ==> (#[trigger] a[i]).world == b[i].world && a[i].metadata.skill_name@
            == b[i].metadata.skill_name@ && a[i].metadata.python_namespace@
            == b[i].metadata.python_namespace@
}

/// Two lists of actions with the same functions under names of the same
/// characters.
pub open spec fn same_named_actions(a: Seq<ActionSource>, b: Seq<ActionSource>) -> bool {
    &&& a.len() == b.len()
    &&& forall|i: int|
        0 <= i < a.len() ==> (#[trigger] a[i]).1 == b[i].1 && a[i].0.skill_name@ == b[i].0.skill_name@
            && a[i].0.python_namespace@ == b[i].0.python_namespace@
}

/// Same-named skills have same-named actions.
proof fn lemma_same_named_actions(a: Seq<CatalogSkill>, b: Seq<CatalogSkill>)
    requires
        same_named_skills(a, b),
    ensures
        same_named_actions(catalog_actions(a), catalog_actions(b)),
    decreases a.len(),
{
    if a.len() > 0 {
        let (ta, tb) = (a.drop_last(), b.drop_last());
        assert(same_named_skills(ta, tb)) by {
            assert forall|i: int| 0 <= i < ta.len() implies (#[trigger] ta[i]).world == tb[i].world
                && ta[i].metadata.skill_name@ == tb[i].metadata.skill_name@
                && ta[i].metadata.python_namespace@ == tb[i].metadata.python_namespace@ by {
                assert(ta[i] == a[i] && tb[i] == b[i]);
            }
        }
        lemma_same_named_actions(ta, tb);
        let (la, lb) = (a.last(), b.last());
        assert(la == a[a.len() - 1] && lb == b[b.len() - 1]);
        assert(catalog_actions(a) == catalog_actions(ta) + skill_actions(la));
        assert(catalog_actions(b) == catalog_actions(tb) + skill_actions(lb));
        let (ca, cb) = (catalog_actions(a), catalog_actions(b));
        let n = catalog_actions(ta).len();
        assert forall|i: int| 0 <= i < ca.len() implies (#[trigger] ca[i]).1 == cb[i].1
            && ca[i].0.skill_name@ == cb[i].0.skill_name@ && ca[i].0.python_namespace@
            == cb[i].0.python_namespace@ by {
            if i < n {
                assert(ca[i] == catalog_actions(ta)[i] && cb[i] == catalog_actions(tb)[i]);
            } else {
                assert(ca[i] == skill_actions(la)[i - n] && cb[i] == skill_actions(lb)[i - n]);
            }
        }
    }
}

/// Same-named actions have the same ids and names.
proof fn lemma_same_named_action_names(a: Seq<ActionSource>, b: Seq<ActionSource>)
    requires
        same_named_actions(a, b),
    ensures
        action_ids(a) == action_ids(b),
        forall|kind: NameKind, n: Seq<char>|
            #![trigger last_with(a, kind, n)]
            last_with(a, kind, n) == last_with(b, kind, n) && count_with(a, kind, n) == count_with(b, kind, n),
    decreases a.len(),
{
    assert(action_ids(a) =~= action_ids(b)) by {
        assert forall|i: int| 0 <= i < a.len() implies action_ids(a)[i] == action_ids(b)[i] by {
            assert(a[i].1 == b[i].1);
        }
    }
    if a.len() > 0 {
        let (ta, tb) = (a.drop_last(), b.drop_last());
        assert forall|i: int| 0 <= i < ta.len() implies ta[i] == a[i] && tb[i] == b[i] by {}
        lemma_same_named_action_names(ta, tb);
        let (la, lb) = (a.last(), b.last());
        assert(la == a[a.len() - 1] && lb == b[b.len() - 1]);
        assert forall|kind: NameKind, n: Seq<char>|
            #![trigger last_with(a, kind, n)]
            last_with(a, kind, n) == last_with(b, kind, n) && count_with(a, kind, n) == count_with(b, kind, n) by {
            assert(name_of(kind, la) == name_of(kind, lb));
            assert(action_id_of(la) == action_id_of(lb));
            assert(last_with(ta, kind, n) == last_with(tb, kind, n));
        }
    }
}

/// Same-named skills meet the same problem, if any, when a registry is built
/// of them.
proof fn lemma_same_named_registry_error(a: Seq<CatalogSkill>, b: Seq<CatalogSkill>)
    requires
        same_named_skills(a, b),
    ensures
        registry_error(a) == registry_error(b),
    decreases a.len(),
{
    if a.len() > 0 {
        let (ta, tb) = (a.drop_last(), b.drop_last());
        assert(same_named_skills(ta, tb)) by {
            assert forall|i: int| 0 <= i < ta.len() implies (#[trigger] ta[i]).world == tb[i].world
                && ta[i].metadata.skill_name@ == tb[i].metadata.skill_name@
                && ta[i].metadata.python_namespace@ == tb[i].metadata.python_namespace@ by {
                assert(ta[i] == a[i] && tb[i] == b[i]);
            }
        }
        lemma_same_named_registry_error(ta, tb);
        lemma_same_named_actions(a, b);
        lemma_same_named_action_names(catalog_actions(a), catalog_actions(b));
        assert(a.last() == a[a.len() - 1] && b.last() == b[b.len() - 1]);
    }
}

/// Registries built of same-named skills agree: both fail, with the same
/// message, or both are built, with the same canonical ids registered and
/// each model-facing name (qualified, Python or canonical) registered to the
/// same id.
pub proof fn lemma_same_named_registries_agree(
    r1: Result<ActionRegistry, BindingError>,
    r2: Result<ActionRegistry, BindingError>,
    a: Seq<CatalogSkill>,
    b: Seq<CatalogSkill>,
)
    requires
        registry_built(r1, a),
        registry_built(r2, b),
        same_named_skills(a, b),
    ensures
        r1 is Ok <==> r2 is Ok,
        (r1 is Err && r2 is Err) ==> r1->Err_0.message()@ == r2->Err_0.message()@,
        (r1 is Ok && r2 is Ok) ==> {
            &&& forall|id: Seq<char>|
                #[trigger] r1->Ok_0.action_by_id(id) is Some <==> r2->Ok_0.action_by_id(id) is Some
            &&& forall|kind: NameKind, n: Seq<char>|
                #[trigger] r1->Ok_0.id_by_name(kind, n) == r2->Ok_0.id_by_name(kind, n)
        },
{
    lemma_same_named_registry_error(a, b);
    lemma_same_named_actions(a, b);
    let (ca, cb) = (catalog_actions(a), catalog_actions(b));
    lemma_same_named_action_names(ca, cb);
    if r1 is Ok && r2 is Ok {
        let x = r1->Ok_0;
        let y = r2->Ok_0;
        assert forall|id: Seq<char>| #[trigger] x.action_by_id(id) is Some implies y.action_by_id(id) is Some by {
            let i = choose|i: int| 0 <= i < ca.len() && action_id_of(#[trigger] ca[i]) == id;
            assert(action_id_of(cb[i]) == id);
        }
        assert forall|id: Seq<char>| #[trigger] y.action_by_id(id) is Some implies x.action_by_id(id) is Some by {
            let i = choose|i: int| 0 <= i < cb.len() && action_id_of(#[trigger] cb[i]) == id;
            assert(action_id_of(ca[i]) == id);
        }
        assert forall|kind: NameKind, n: Seq<char>| #[trigger] x.id_by_name(kind, n) == y.id_by_name(kind, n) by {
            assert(last_with(ca, kind, n) == last_with(cb, kind, n));
            match kind {
                NameKind::Qualified => {
                    assert(x.id_by_name(NameKind::Qualified, n) == last_with(ca, NameKind::Qualified, n));
                    assert(y.id_by_name(NameKind::Qualified, n) == last_with(cb, NameKind::Qualified, n));
                },
                NameKind::Model => {
                    assert(x.id_by_name(NameKind::Model, n) == unique_with(ca, NameKind::Model, n));
                    assert(y.id_by_name(NameKind::Model, n) == unique_with(cb, NameKind::Model, n));
                },
                NameKind::Local => {
                    assert(x.id_by_name(NameKind::Local, n) == unique_with(ca, NameKind::Local, n));
                    assert(y.id_by_name(NameKind::Local, n) == unique_with(cb, NameKind::Local, n));
                },
            }
        }
    }
}

/// The registry of a single world agrees with the registry built of that
/// world as the one skill named after its package (or, without a package,
/// after the world), whose Python namespace is that name's Python form.
pub proof fn lemma_world_registry_is_single_skill(
    r1: Result<ActionRegistry, BindingError>,
    r2: Result<ActionRegistry, BindingError>,
    world: CanonicalWorld,
    skill: CatalogSkill,
)
    requires
        exists|ns: String|
            ns@ == python_name(world_skill_name(world)@) && registry_built(r1, seq![world_skill(world, ns)]),
        skill.world == world,
        skill.metadata.skill_name@ == world_skill_name(world)@,
        skill.metadata.python_namespace@ == python_name(world_skill_name(world)@),
        registry_built(r2, seq![skill]),
    ensures
        r1 is Ok <==> r2 is Ok,
        (r1 is Err && r2 is Err) ==> r1->Err_0.message()@ == r2->Err_0.message()@,
        (r1 is Ok && r2 is Ok) ==> {
            &&& forall|id: Seq<char>|
                #[trigger] r1->Ok_0.action_by_id(id) is Some <==> r2->Ok_0.action_by_id(id) is Some
            &&& forall|kind: NameKind, n: Seq<char>|
                #[trigger] r1->Ok_0.id_by_name(kind, n) == r2->Ok_0.id_by_name(kind, n)
        },
{
    let ns = choose|ns: String|
        ns@ == python_name(world_skill_name(world)@) && registry_built(r1, seq![world_skill(world, ns)]);
    let a = seq![world_skill(world, ns)];
    let b = seq![skill];
    assert(same_named_skills(a, b)) by {
        assert(a[0] == world_skill(world, ns) && b[0] == skill);
    }
    lemma_same_named_registries_agree(r1, r2, a, b);
}

} // verus!
