//! Evaluation specs: the scenario to run, the runtime to run it in, and the
//! criteria a run must meet; and the checks a spec must pass before it runs.
use vstd::prelude::*;

use crate::evals::document::{
    copy_entries, doc_view, entry_views, find_key, key_index_from, lemma_key_index_in_range,
    set_entry, set_entry_in, DocValue, DocView,
};
use crate::text::{blank, is_blank, str_eq, string_push_str};

verus! {

/// Why an evaluation could not be loaded, checked or run.
#[derive(Debug, Clone, PartialEq, Eq)]
pub enum EvalError {
    /// A file could not be read.
    ReadFile { path: String, message: String },
    /// The spec is malformed or inconsistent.
    InvalidSpec(String),
    /// A command-line override could not be applied.
    InvalidOverride(String),
    /// Something went wrong while running.
    Internal(String),
}

impl EvalError {
    /// The text of this error as it is shown to the user.
    pub open spec fn text(self) -> Seq<char> {
        match self {
            EvalError::ReadFile { path, message } => "failed to read "@ + path@ + ": "@ + message@,
            EvalError::InvalidSpec(m) => "invalid eval spec: "@ + m@,
            EvalError::InvalidOverride(m) => "invalid override: "@ + m@,
            EvalError::Internal(m) => "eval engine error: "@ + m@,
        }
    }

    /// The text of this error as it is shown to the user.
    pub fn to_text(&self) -> (r: String)
        ensures
            r@ == self.text(),
    {
        let mut out = String::new();
        match self {
            EvalError::ReadFile { path, message } => {
                string_push_str(&mut out, "failed to read ");
                string_push_str(&mut out, path.as_str());
                string_push_str(&mut out, ": ");
                string_push_str(&mut out, message.as_str());
            },
            EvalError::InvalidSpec(m) => {
                string_push_str(&mut out, "invalid eval spec: ");
                string_push_str(&mut out, m.as_str());
            },
            EvalError::InvalidOverride(m) => {
                string_push_str(&mut out, "invalid override: ");
                string_push_str(&mut out, m.as_str());
            },
            EvalError::Internal(m) => {
                string_push_str(&mut out, "eval engine error: ");
                string_push_str(&mut out, m.as_str());
            },
        }
        assert(out@ =~= self.text());
        out
    }
}

/// A whole evaluation spec.
#[derive(Debug, Clone)]
pub struct EvalSpec {
    pub schema_version: Option<u32>,
    pub id: String,
    pub description: Option<String>,
    pub runtime: EvalRuntimeSpec,
    pub scenario: EvalScenarioSpec,
    pub evaluation: EvalEvaluationSpec,
    pub optimization: Option<EvalOptimizationSpec>,
}

/// Where the evaluation runs and which skills it uses.
#[derive(Debug, Clone, PartialEq, Eq)]
pub struct EvalRuntimeSpec {
    pub output_folder: String,
    pub skill_sources: Vec<EvalSkillSourceSpec>,
    pub catalog: Vec<EvalCatalogSkillSpec>,
    pub active_skills: Vec<String>,
}

/// A directory skills are taken from.
#[derive(Debug, Clone, PartialEq, Eq)]
pub struct EvalSkillSourceSpec {
    pub id: String,
    pub path: String,
}

/// A skill of the evaluation's catalog, from one of the sources.
#[derive(Debug, Clone, PartialEq, Eq)]
pub struct EvalCatalogSkillSpec {
    pub skill: String,
    pub source: String,
    pub profile: Option<String>,
}

/// The situation the agent is put in.
#[derive(Debug, Clone, PartialEq, Eq)]
pub struct EvalScenarioSpec {
    pub purpose: String,
    pub user: EvalUserSpec,
    pub agent: EvalAgentSpec,
    pub history: Vec<EvalHistoryMessage>,
}

/// The user the agent talks to: one scripted message, or a simulated user
/// that keeps the conversation going.
#[derive(Debug, Clone, PartialEq, Eq)]
pub enum EvalUserSpec {
    Scripted { task: String, known_info: String, initial_message: String },
    Simulated { task: String, reason: String, known_info: String, unknown_info: String },
}

/// The two kinds of evaluation user.
#[derive(Debug, Clone, Copy, PartialEq, Eq, Structural)]
pub enum EvalUserMode {
    Scripted,
    Simulated,
}

impl EvalUserSpec {
    /// The task the user wants done.
    pub fn task(&self) -> (r: &str)
        ensures
            r@ == match *self {
                EvalUserSpec::Scripted { task, .. } => task@,
                EvalUserSpec::Simulated { task, .. } => task@,
            },
    {
        match self {
            EvalUserSpec::Scripted { task, .. } => task.as_str(),
            EvalUserSpec::Simulated { task, .. } => task.as_str(),
        }
    }

    /// What the user knows and may tell.
    pub fn known_info(&self) -> (r: &str)
        ensures
            r@ == match *self {
                EvalUserSpec::Scripted { known_info, .. } => known_info@,
                EvalUserSpec::Simulated { known_info, .. } => known_info@,
            },
    {
        match self {
            EvalUserSpec::Scripted { known_info, .. } => known_info.as_str(),
            EvalUserSpec::Simulated { known_info, .. } => known_info.as_str(),
        }
    }

    /// Which kind of user this is.
    pub fn mode(&self) -> (r: EvalUserMode)
        ensures
            r == EvalUserMode::Simulated <==> *self is Simulated,
    {
        match self {
            EvalUserSpec::Scripted { .. } => EvalUserMode::Scripted,
            EvalUserSpec::Simulated { .. } => EvalUserMode::Simulated,
        }
    }

    /// Whether the conversation may take more than one user turn: only a
    /// simulated user keeps talking.
    pub fn is_multi_turn(&self) -> (r: bool)
        ensures
            r == (*self is Simulated),
    {
        match self {
            EvalUserSpec::Scripted { .. } => false,
            EvalUserSpec::Simulated { .. } => true,
        }
    }
}

/// How the agent is set up.
#[derive(Debug, Clone, PartialEq, Eq)]
pub struct EvalAgentSpec {
    pub persona: Option<String>,
}

/// A message of the conversation before the run starts.
#[derive(Debug, Clone, PartialEq, Eq)]
pub struct EvalHistoryMessage {
    pub role: String,
    pub content: String,
}

/// The criteria a run is judged by.
#[derive(Debug, Clone)]
pub struct EvalEvaluationSpec {
    pub criteria: Vec<EvalCriterionSpec>,
}

/// One criterion.
#[derive(Debug, Clone)]
pub enum EvalCriterionSpec {
    /// The agent requests these actions (in order, if `ordered`; with others
    /// in between or around, if `allow_extra_actions`).
    ActionSequence {
        actions: Vec<EvalExpectedActionSpec>,
        ordered: bool,
        allow_extra_actions: bool,
    },
    /// The agent requests this action at least `min_count` times.
    ActionCount { action: String, min_count: usize },
    /// A model judges the run against a rubric.
    LlmJudge { rubric: String, model: Option<String> },
    /// The agent ends with a message.
    FinalMessageRequired,
    /// The run does not end for this reason.
    ForbidFinishReason { finish_reason: String },
}

/// An action the agent is expected to request, with the arguments it must
/// carry (all, when they are a mapping: those keys with those values).
#[derive(Debug, Clone)]
pub struct EvalExpectedActionSpec {
    pub action: String,
    pub arguments: Option<DocValue>,
}

/// What an optimization run may change.
#[derive(Debug, Clone, PartialEq, Eq)]
pub struct EvalOptimizationSpec {
    pub targets: Vec<EvalOptimizationTargetSpec>,
    pub max_epochs: Option<usize>,
    pub early_stop_on_pass: Option<bool>,
}

/// One thing an optimization run may change.
#[derive(Debug, Clone, PartialEq, Eq)]
pub struct EvalOptimizationTargetSpec {
    pub kind: String,
    pub prompt: Option<String>,
    pub skill: Option<String>,
    pub field: Option<String>,
}

/// The first problem among the skill sources, in order: a blank id, or an
/// id an earlier source has.
pub open spec fn sources_problem(sources: Seq<EvalSkillSourceSpec>) -> Option<Seq<char>>
    decreases sources.len(),
{
    if sources.len() == 0 {
        None
    } else {
        match sources_problem(sources.drop_last()) {
            Some(p) => Some(p),
            None => {
                let id = sources.last().id@;
                if blank(id) {
                    Some("runtime.skill_sources.id cannot be empty"@)
                } else if source_ids(sources.drop_last()).contains(id) {
                    Some("duplicate runtime.skill_sources id '"@ + id + "'"@)
                } else {
                    None
                }
            },
        }
    }
}

/// The ids of the skill sources.
pub open spec fn source_ids(sources: Seq<EvalSkillSourceSpec>) -> Seq<Seq<char>> {
    sources.map_values(|s: EvalSkillSourceSpec| s.id@)
}

/// The first problem among the catalog skills, in order: a blank skill
/// name, or a source no skill source has.
pub open spec fn catalog_problem(
    catalog: Seq<EvalCatalogSkillSpec>,
    ids: Seq<Seq<char>>,
) -> Option<Seq<char>>
    decreases catalog.len(),
{
    if catalog.len() == 0 {
        None
    } else {
        match catalog_problem(catalog.drop_last(), ids) {
            Some(p) => Some(p),
            None => {
                let s = catalog.last();
                if blank(s.skill@) {
                    Some("runtime.catalog.skill cannot be empty"@)
                } else if !ids.contains(s.source@) {
                    Some(
                        "runtime.catalog skill '"@ + s.skill@ + "' references unknown source '"@
                            + s.source@ + "'"@,
                    )
                } else {
                    None
                }
            },
        }
    }
}

/// The first active skill that the catalog does not hold.
pub open spec fn active_problem(active: Seq<String>, catalog: Seq<EvalCatalogSkillSpec>) -> Option<
    Seq<char>,
>
    decreases active.len(),
{
    if active.len() == 0 {
        None
    } else {
        match active_problem(active.drop_last(), catalog) {
            Some(p) => Some(p),
            None => {
                let name = active.last()@;
                if catalog.map_values(|s: EvalCatalogSkillSpec| s.skill@).contains(name) {
                    None
                } else {
                    Some(
                        "runtime.active_skills contains '"@ + name
                            + "' which is not present in runtime.catalog"@,
                    )
                }
            },
        }
    }
}

/// What is wrong with one criterion, if anything.
pub open spec fn criterion_problem(c: EvalCriterionSpec) -> Option<Seq<char>> {
    match c {
        EvalCriterionSpec::ActionSequence { actions, .. } => if actions@.len() == 0 {
            Some("action_sequence criteria require at least one action"@)
        } else if exists|i: int| 0 <= i < actions@.len() && blank((#[trigger] actions@[i]).action@) {
            Some("action_sequence action name cannot be empty"@)
        } else {
            None
        },
        EvalCriterionSpec::ActionCount { action, min_count } => if blank(action@) {
            Some("action_count action name cannot be empty"@)
        } else if min_count == 0 {
            Some("action_count min_count must be greater than zero"@)
        } else {
            None
        },
        EvalCriterionSpec::LlmJudge { rubric, model } => if blank(rubric@) {
            Some("llm_judge rubric cannot be empty"@)
        } else if model matches Some(m) && blank(m@) {
            Some("llm_judge model cannot be empty"@)
        } else {
            None
        },
        EvalCriterionSpec::FinalMessageRequired => None,
        EvalCriterionSpec::ForbidFinishReason { finish_reason } => if blank(finish_reason@) {
            Some("forbid_finish_reason finish_reason cannot be empty"@)
        } else {
            None
        },
    }
}

/// The problem of the first criterion that has one.
pub open spec fn criteria_problem(criteria: Seq<EvalCriterionSpec>) -> Option<Seq<char>>
    decreases criteria.len(),
{
    if criteria.len() == 0 {
        None
    } else {
        match criteria_problem(criteria.drop_last()) {
            Some(p) => Some(p),
            None => criterion_problem(criteria.last()),
        }
    }
}

/// The first problem of a spec, checked in this order: its id, output
/// folder, purpose, user task and criteria list must not be empty; then its
/// skill sources, catalog, active skills and each criterion must be sound.
pub open spec fn spec_problem(spec: EvalSpec) -> Option<Seq<char>> {
    if blank(spec.id@) {
        Some("spec id cannot be empty"@)
    } else if spec.runtime.output_folder@.len() == 0 {
        Some("spec runtime.output_folder cannot be empty"@)
    } else if blank(spec.scenario.purpose@) {
        Some("scenario.purpose cannot be empty"@)
    } else if blank(
        match spec.scenario.user {
            EvalUserSpec::Scripted { task, .. } => task@,
            EvalUserSpec::Simulated { task, .. } => task@,
        },
    ) {
        Some("scenario.user.task cannot be empty"@)
    } else if spec.evaluation.criteria@.len() == 0 {
        Some("evaluation.criteria cannot be empty"@)
    } else if sources_problem(spec.runtime.skill_sources@) is Some {
        sources_problem(spec.runtime.skill_sources@)
    } else if catalog_problem(spec.runtime.catalog@, source_ids(spec.runtime.skill_sources@)) is Some {
        catalog_problem(spec.runtime.catalog@, source_ids(spec.runtime.skill_sources@))
    } else if active_problem(spec.runtime.active_skills@, spec.runtime.catalog@) is Some {
        active_problem(spec.runtime.active_skills@, spec.runtime.catalog@)
    } else {
        criteria_problem(spec.evaluation.criteria@)
    }
}

fn invalid(message: &str) -> (r: Result<(), EvalError>)
    ensures
        r matches Err(EvalError::InvalidSpec(m)) && m@ == message@,
{
    Err(EvalError::InvalidSpec(message.to_owned()))
}

/// Whether some string of `v` holds the characters of `s`.
fn contains_str(v: &Vec<String>, s: &str) -> (r: bool)
    ensures
        r == v@.map_values(|x: String| x@).contains(s@),
{
    let ghost m = v@.map_values(|x: String| x@);
    for i in 0..v.len()
        invariant
            m == v@.map_values(|x: String| x@),
            forall|j: int| 0 <= j < i ==> m[j] != s@,
    {
        if str_eq(v[i].as_str(), s) {
            assert(m[i as int] == s@);
            return true;
        }
    }
    proof {
        if m.contains(s@) {
            let j = choose|j: int| 0 <= j < m.len() && m[j] == s@;
        }
    }
    false
}

proof fn lemma_problem_prefix<T>(
    f: spec_fn(Seq<T>) -> Option<Seq<char>>,
    s: Seq<T>,
    n: int,
)
    requires
        0 <= n <= s.len(),
        f(s.take(n)) is Some,
        forall|t: Seq<T>| t.len() > 0 && (#[trigger] f(t.drop_last())) is Some ==> f(t) == f(t.drop_last()),
    ensures
        f(s) == f(s.take(n)),
    decreases s.len() - n,
{
    if n < s.len() {
        assert(s.take(n + 1).drop_last() =~= s.take(n));
        lemma_problem_prefix(f, s, n + 1);
    } else {
        assert(s.take(n) =~= s);
    }
}

fn check_sources(sources: &Vec<EvalSkillSourceSpec>) -> (r: Result<Vec<String>, EvalError>)
    ensures
        match sources_problem(sources@) {
            None => r matches Ok(ids) && ids@.map_values(|x: String| x@) == source_ids(sources@),
            Some(p) => r matches Err(EvalError::InvalidSpec(m)) && m@ == p,
        },
{
    let mut ids: Vec<String> = Vec::new();
    let ghost srcs = sources@;
    let ghost sp = |t: Seq<EvalSkillSourceSpec>| sources_problem(t);
    assert(srcs.take(0) =~= Seq::<EvalSkillSourceSpec>::empty());
    assert(ids@.map_values(|x: String| x@) =~= source_ids(srcs.take(0)));
    for i in 0..sources.len()
        invariant
            srcs == sources@,
            sp == (|t: Seq<EvalSkillSourceSpec>| sources_problem(t)),
            sources_problem(srcs.take(i as int)) is None,
            ids@.map_values(|x: String| x@) == source_ids(srcs.take(i as int)),
    {
        let source = &sources[i];
        let ghost t = srcs.take(i + 1);
        assert(t.drop_last() =~= srcs.take(i as int));
        assert(t.last() == *source);
        if is_blank(source.id.as_str()) {
            proof {
                lemma_problem_prefix(sp, srcs, i + 1);
            }
            return Err(EvalError::InvalidSpec("runtime.skill_sources.id cannot be empty".to_owned()));
        }
        if contains_str(&ids, source.id.as_str()) {
            let mut m = String::new();
            string_push_str(&mut m, "duplicate runtime.skill_sources id '");
            string_push_str(&mut m, source.id.as_str());
            string_push_str(&mut m, "'");
            proof {
                assert(m@ =~= "duplicate runtime.skill_sources id '"@ + source.id@ + "'"@);
                lemma_problem_prefix(sp, srcs, i + 1);
            }
            return Err(EvalError::InvalidSpec(m));
        }
        let ghost before = ids@;
        ids.push(source.id.clone());
        assert(ids@ =~= before.push(source.id));
        assert(ids@.map_values(|x: String| x@) =~= before.map_values(|x: String| x@).push(source.id@));
        assert(source_ids(t) =~= source_ids(srcs.take(i as int)).push(source.id@));
    }
    assert(srcs.take(srcs.len() as int) =~= srcs);
    Ok(ids)
}

fn check_catalog(catalog: &Vec<EvalCatalogSkillSpec>, ids: &Vec<String>) -> (r: Result<(), EvalError>)
    ensures
        match catalog_problem(catalog@, ids@.map_values(|x: String| x@)) {
            None => r is Ok,
            Some(p) => r matches Err(EvalError::InvalidSpec(m)) && m@ == p,
        },
{
    let ghost cat = catalog@;
    let ghost all_ids = ids@.map_values(|x: String| x@);
    let ghost cp = |t: Seq<EvalCatalogSkillSpec>| catalog_problem(t, all_ids);
    assert(cat.take(0) =~= Seq::<EvalCatalogSkillSpec>::empty());
    for i in 0..catalog.len()
        invariant
            cat == catalog@,
            all_ids == ids@.map_values(|x: String| x@),
            cp == (|t: Seq<EvalCatalogSkillSpec>| catalog_problem(t, all_ids)),
            catalog_problem(cat.take(i as int), all_ids) is None,
    {
        let skill = &catalog[i];
        assert(cat.take(i + 1).drop_last() =~= cat.take(i as int));
        assert(cat.take(i + 1).last() == *skill);
        if is_blank(skill.skill.as_str()) {
            proof {
                lemma_problem_prefix(cp, cat, i + 1);
            }
            return Err(EvalError::InvalidSpec("runtime.catalog.skill cannot be empty".to_owned()));
        }
        if !contains_str(ids, skill.source.as_str()) {
            let mut m = String::new();
            string_push_str(&mut m, "runtime.catalog skill '");
            string_push_str(&mut m, skill.skill.as_str());
            string_push_str(&mut m, "' references unknown source '");
            string_push_str(&mut m, skill.source.as_str());
            string_push_str(&mut m, "'");
            proof {
                assert(m@ =~= "runtime.catalog skill '"@ + skill.skill@
                    + "' references unknown source '"@ + skill.source@ + "'"@);
                lemma_problem_prefix(cp, cat, i + 1);
            }
            return Err(EvalError::InvalidSpec(m));
        }
    }
    assert(cat.take(cat.len() as int) =~= cat);
    Ok(())
}

fn check_active(active: &Vec<String>, catalog: &Vec<EvalCatalogSkillSpec>) -> (r: Result<(), EvalError>)
    ensures
        match active_problem(active@, catalog@) {
            None => r is Ok,
            Some(p) => r matches Err(EvalError::InvalidSpec(m)) && m@ == p,
        },
{
    let ghost cat = catalog@;
    let mut names: Vec<String> = Vec::new();
    assert(names@.map_values(|x: String| x@) =~= cat.take(0).map_values(
        |s: EvalCatalogSkillSpec| s.skill@,
    ));
    for i in 0..catalog.len()
        invariant
            cat == catalog@,
            names@.map_values(|x: String| x@) == cat.take(i as int).map_values(
                |s: EvalCatalogSkillSpec| s.skill@,
            ),
    {
        let ghost before = names@;
        names.push(catalog[i].skill.clone());
        assert(names@ =~= before.push(catalog[i as int].skill));
        assert(cat.take(i + 1) =~= cat.take(i as int).push(cat[i as int]));
        assert(names@.map_values(|x: String| x@) =~= before.map_values(|x: String| x@).push(
            catalog[i as int].skill@,
        ));
        assert(cat.take(i + 1).map_values(|s: EvalCatalogSkillSpec| s.skill@) =~= cat.take(
            i as int,
        ).map_values(|s: EvalCatalogSkillSpec| s.skill@).push(cat[i as int].skill@));
    }
    assert(cat.take(cat.len() as int) =~= cat);
    let ghost act = active@;
    let ghost ap = |t: Seq<String>| active_problem(t, cat);
    assert(act.take(0) =~= Seq::<String>::empty());
    for i in 0..active.len()
        invariant
            act == active@,
            cat == catalog@,
            names@.map_values(|x: String| x@) == cat.map_values(|s: EvalCatalogSkillSpec| s.skill@),
            ap == (|t: Seq<String>| active_problem(t, cat)),
            active_problem(act.take(i as int), cat) is None,
    {
        assert(act.take(i + 1).drop_last() =~= act.take(i as int));
        assert(act.take(i + 1).last() == active[i as int]);
        if !contains_str(&names, active[i].as_str()) {
            let mut m = String::new();
            string_push_str(&mut m, "runtime.active_skills contains '");
            string_push_str(&mut m, active[i].as_str());
            string_push_str(&mut m, "' which is not present in runtime.catalog");
            proof {
                assert(m@ =~= "runtime.active_skills contains '"@ + act[i as int]@
                    + "' which is not present in runtime.catalog"@);
                lemma_problem_prefix(ap, act, i + 1);
            }
            return Err(EvalError::InvalidSpec(m));
        }
    }
    assert(act.take(act.len() as int) =~= act);
    Ok(())
}

fn check_criteria(criteria: &Vec<EvalCriterionSpec>) -> (r: Result<(), EvalError>)
    ensures
        match criteria_problem(criteria@) {
            None => r is Ok,
            Some(p) => r matches Err(EvalError::InvalidSpec(m)) && m@ == p,
        },
{
    let ghost crit = criteria@;
    let ghost kp = |t: Seq<EvalCriterionSpec>| criteria_problem(t);
    assert(crit.take(0) =~= Seq::<EvalCriterionSpec>::empty());
    for i in 0..criteria.len()
        invariant
            crit == criteria@,
            kp == (|t: Seq<EvalCriterionSpec>| criteria_problem(t)),
            criteria_problem(crit.take(i as int)) is None,
    {
        assert(crit.take(i + 1).drop_last() =~= crit.take(i as int));
        assert(crit.take(i + 1).last() == criteria[i as int]);
        let r = check_criterion(&criteria[i]);
        if r.is_err() {
            proof {
                lemma_problem_prefix(kp, crit, i + 1);
            }
            return r;
        }
    }
    assert(crit.take(crit.len() as int) =~= crit);
    Ok(())
}

/// Checks a spec before it runs: `Ok` exactly when `spec_problem` finds no
/// problem, and otherwise the first problem, as an invalid spec.
pub fn validate_eval_spec(spec: &EvalSpec) -> (r: Result<(), EvalError>)
    ensures
        match spec_problem(*spec) {
            None => r is Ok,
            Some(p) => r matches Err(EvalError::InvalidSpec(m)) && m@ == p,
        },
{
    if is_blank(spec.id.as_str()) {
        return invalid("spec id cannot be empty");
    }
    if spec.runtime.output_folder.as_str().is_empty() {
        return invalid("spec runtime.output_folder cannot be empty");
    }
    if is_blank(spec.scenario.purpose.as_str()) {
        return invalid("scenario.purpose cannot be empty");
    }
    if is_blank(spec.scenario.user.task()) {
        return invalid("scenario.user.task cannot be empty");
    }
    if spec.evaluation.criteria.len() == 0 {
        return invalid("evaluation.criteria cannot be empty");
    }
    let ids = match check_sources(&spec.runtime.skill_sources) {
        Ok(ids) => ids,
        Err(e) => {
            return Err(e);
        },
    };
    match check_catalog(&spec.runtime.catalog, &ids) {
        Ok(()) => {},
        Err(e) => {
            return Err(e);
        },
    }
    match check_active(&spec.runtime.active_skills, &spec.runtime.catalog) {
        Ok(()) => {},
        Err(e) => {
            return Err(e);
        },
    }
    check_criteria(&spec.evaluation.criteria)
}

#[verifier::loop_isolation(false)]
fn check_criterion(c: &EvalCriterionSpec) -> (r: Result<(), EvalError>)
    ensures
        match criterion_problem(*c) {
            None => r is Ok,
            Some(p) => r matches Err(EvalError::InvalidSpec(m)) && m@ == p,
        },
{
    match c {
        EvalCriterionSpec::ActionSequence { actions, .. } => {
            if actions.len() == 0 {
                return invalid("action_sequence criteria require at least one action");
            }
            for i in 0..actions.len()
                invariant
                    forall|j: int| 0 <= j < i ==> !blank((#[trigger] actions@[j]).action@),
            {
                if is_blank(actions[i].action.as_str()) {
                    return invalid("action_sequence action name cannot be empty");
                }
            }
            Ok(())
        },
        EvalCriterionSpec::ActionCount { action, min_count } => {
            if is_blank(action.as_str()) {
                return invalid("action_count action name cannot be empty");
            }
            if *min_count == 0 {
                return invalid("action_count min_count must be greater than zero");
            }
            Ok(())
        },
        EvalCriterionSpec::LlmJudge { rubric, model } => {
            if is_blank(rubric.as_str()) {
                return invalid("llm_judge rubric cannot be empty");
            }
            match model {
                Some(m) => {
                    if is_blank(m.as_str()) {
                        return invalid("llm_judge model cannot be empty");
                    }
                },
                None => {},
            }
            Ok(())
        },
        EvalCriterionSpec::FinalMessageRequired => Ok(()),
        EvalCriterionSpec::ForbidFinishReason { finish_reason } => {
            if is_blank(finish_reason.as_str()) {
                return invalid("forbid_finish_reason finish_reason cannot be empty");
            }
            Ok(())
        },
    }
}


/// A spec as loaded: its document after the command-line overrides, and
/// the spec read from that document.
#[derive(Debug, Clone)]
pub struct LoadedEvalSpec {
    pub raw: DocValue,
    pub spec: EvalSpec,
}

/// The spec document with its runtime's output folder set to `folder`: a
/// missing runtime section is made. The document and its runtime section
/// must be mappings.
pub open spec fn with_output_folder(raw: DocView, folder: Seq<char>) -> Result<DocView, Seq<char>> {
    match raw {
        DocView::Mapping(es) => {
            let runtime = match key_index_from(es, "runtime"@, 0) {
                Some(i) => es[i].1,
                None => DocView::Mapping(Seq::empty()),
            };
            match runtime {
                DocView::Mapping(rs) => Ok(
                    DocView::Mapping(
                        set_entry(
                            es,
                            "runtime"@,
                            DocView::Mapping(set_entry(rs, "output_folder"@, DocView::String(folder))),
                        ),
                    ),
                ),
                _ => Err("resolved eval spec runtime must be an object"@),
            }
        },
        _ => Err("resolved eval spec root must be an object"@),
    }
}

impl LoadedEvalSpec {
    /// Points the run's output at `output_folder`, in the spec and in its
    /// document; see `with_output_folder`. The spec takes the folder even
    /// when the document cannot, and the document is then left as it was.
    pub fn override_output_folder(&mut self, output_folder: String) -> (r: Result<(), EvalError>)
        ensures
            final(self).spec == (EvalSpec {
                runtime: EvalRuntimeSpec { output_folder, ..old(self).spec.runtime },
                ..old(self).spec
            }),
            match with_output_folder(doc_view(old(self).raw), output_folder@) {
                Ok(d) => r is Ok && doc_view(final(self).raw) == d,
                Err(m) => doc_view(final(self).raw) == doc_view(old(self).raw) && (r matches Err(
                    EvalError::Internal(x),
                ) && x@ == m),
            },
    {
        self.spec.runtime.output_folder = output_folder.clone();
        let es = match &self.raw {
            DocValue::Mapping(es) => es,
            _ => {
                return Err(EvalError::Internal("resolved eval spec root must be an object".to_owned()));
            },
        };
        proof {
            lemma_key_index_in_range(entry_views(es@), "runtime"@, 0);
        }
        let runtime = match find_key(es, "runtime") {
            Some(j) => es[j].1.copy(),
            None => DocValue::Mapping(Vec::new()),
        };
        assert(entry_views(Seq::<(DocValue, DocValue)>::empty()) =~= Seq::<(DocView, DocView)>::empty());
        let rs = match &runtime {
            DocValue::Mapping(rs) => rs,
            _ => {
                return Err(
                    EvalError::Internal("resolved eval spec runtime must be an object".to_owned()),
                );
            },
        };
        let mut rs2 = copy_entries(rs);
        set_entry_in(&mut rs2, "output_folder", DocValue::String(output_folder));
        let mut es2 = copy_entries(es);
        set_entry_in(&mut es2, "runtime", DocValue::Mapping(rs2));
        self.raw = DocValue::Mapping(es2);
        Ok(())
    }
}

/// No skill source has a blank id, and no two have the same id.
pub open spec fn sources_sound(sources: Seq<EvalSkillSourceSpec>) -> bool {
    &&& forall|i: int| 0 <= i < sources.len() ==> !blank(#[trigger] sources[i].id@)
    &&& forall|i: int, j: int|
        #![trigger sources[i], sources[j]]
        0 <= i < j < sources.len() ==> sources[i].id@ != sources[j].id@
}

/// Every catalog skill has a name and comes from one of the sources `ids`.
pub open spec fn catalog_sound(catalog: Seq<EvalCatalogSkillSpec>, ids: Seq<Seq<char>>) -> bool {
    forall|i: int|
        0 <= i < catalog.len() ==> !blank((#[trigger] catalog[i]).skill@) && ids.contains(
            catalog[i].source@,
        )
}

/// Every active skill is a skill of the catalog.
pub open spec fn active_sound(active: Seq<String>, catalog: Seq<EvalCatalogSkillSpec>) -> bool {
    forall|i: int|
        0 <= i < active.len() ==> exists|k: int|
            0 <= k < catalog.len() && (#[trigger] catalog[k]).skill@ == (#[trigger] active[i])@
}

/// A criterion is sound: an action sequence names at least one action and
/// every action; an action count names its action and asks for at least
/// one; a judge has a rubric and, if given, a model; a forbidden finish
/// reason is named.
pub open spec fn criterion_sound(c: EvalCriterionSpec) -> bool {
    match c {
        EvalCriterionSpec::ActionSequence { actions, .. } => actions@.len() > 0 && forall|i: int|
            0 <= i < actions@.len() ==> !blank((#[trigger] actions@[i]).action@),
        EvalCriterionSpec::ActionCount { action, min_count } => !blank(action@) && min_count > 0,
        EvalCriterionSpec::LlmJudge { rubric, model } => !blank(rubric@) && match model {
            Some(m) => !blank(m@),
            None => true,
        },
        EvalCriterionSpec::FinalMessageRequired => true,
        EvalCriterionSpec::ForbidFinishReason { finish_reason } => !blank(finish_reason@),
    }
}

/// A spec is sound: its id, purpose and user task are not blank, its output
/// folder and criteria list are not empty, and its skill sources, catalog,
/// active skills and criteria are each sound.
pub open spec fn spec_sound(spec: EvalSpec) -> bool {
    &&& !blank(spec.id@)
    &&& spec.runtime.output_folder@.len() > 0
    &&& !blank(spec.scenario.purpose@)
    &&& !blank(
        match spec.scenario.user {
            EvalUserSpec::Scripted { task, .. } => task@,
            EvalUserSpec::Simulated { task, .. } => task@,
        },
    )
    &&& spec.evaluation.criteria@.len() > 0
    &&& sources_sound(spec.runtime.skill_sources@)
    &&& catalog_sound(spec.runtime.catalog@, source_ids(spec.runtime.skill_sources@))
    &&& active_sound(spec.runtime.active_skills@, spec.runtime.catalog@)
    &&& forall|i: int|
        0 <= i < spec.evaluation.criteria@.len() ==> criterion_sound(
            #[trigger] spec.evaluation.criteria@[i],
        )
}

/// The skill sources have no problem exactly when they are sound.
pub proof fn lemma_sources_problem(sources: Seq<EvalSkillSourceSpec>)
    ensures
        sources_problem(sources) is None <==> sources_sound(sources),
    decreases sources.len(),
{
    if sources.len() > 0 {
        let t = sources.drop_last();
        let n = sources.len() - 1;
        lemma_sources_problem(t);
        assert forall|i: int| 0 <= i < t.len() implies t[i] == sources[i] by {}
        if sources_problem(sources) is None {
            assert forall|i: int, j: int| 0 <= i < j < sources.len() implies sources[i].id@
                != sources[j].id@ by {
                if j == n {
                    assert(source_ids(t)[i] == t[i].id@);
                } else {
                    assert(t[i] == sources[i] && t[j] == sources[j]);
                }
            }
        } else if sources_sound(sources) {
            assert forall|i: int| 0 <= i < t.len() implies !blank(#[trigger] t[i].id@) by {
                assert(t[i] == sources[i]);
            }
            assert forall|i: int, j: int| 0 <= i < j < t.len() implies t[i].id@ != t[j].id@ by {
                assert(t[i] == sources[i] && t[j] == sources[j]);
            }
            assert(!blank(sources[n].id@));
            if source_ids(t).contains(sources.last().id@) {
                let k = choose|k: int| 0 <= k < source_ids(t).len() && source_ids(t)[k] == sources.last().id@;
                assert(sources[k].id@ == sources[n].id@);
            }
        }
    }
}

/// The catalog has no problem exactly when it is sound.
pub proof fn lemma_catalog_problem(catalog: Seq<EvalCatalogSkillSpec>, ids: Seq<Seq<char>>)
    ensures
        catalog_problem(catalog, ids) is None <==> catalog_sound(catalog, ids),
    decreases catalog.len(),
{
    if catalog.len() > 0 {
        let t = catalog.drop_last();
        lemma_catalog_problem(t, ids);
        assert forall|i: int| 0 <= i < t.len() implies t[i] == catalog[i] by {}
        if catalog_sound(catalog, ids) {
            assert(catalog[catalog.len() - 1] == catalog.last());
            assert forall|i: int| 0 <= i < t.len() implies !blank((#[trigger] t[i]).skill@)
                && ids.contains(t[i].source@) by {
                assert(t[i] == catalog[i]);
            }
        }
    }
}

/// The active skills have no problem exactly when they are sound.
pub proof fn lemma_active_problem(active: Seq<String>, catalog: Seq<EvalCatalogSkillSpec>)
    ensures
        active_problem(active, catalog) is None <==> active_sound(active, catalog),
    decreases active.len(),
{
    if active.len() > 0 {
        let t = active.drop_last();
        let n = active.len() - 1;
        let names = catalog.map_values(|s: EvalCatalogSkillSpec| s.skill@);
        lemma_active_problem(t, catalog);
        assert forall|i: int| 0 <= i < t.len() implies t[i] == active[i] by {}
        if active_problem(active, catalog) is None {
            assert(names.contains(active.last()@));
            let k0 = choose|k: int| 0 <= k < names.len() && names[k] == active.last()@;
            assert(catalog[k0].skill@ == active[n]@);
            assert forall|i: int| 0 <= i < active.len() implies exists|k: int|
                0 <= k < catalog.len() && (#[trigger] catalog[k]).skill@ == (#[trigger] active[i])@ by {
                if i < n {
                    assert(t[i] == active[i]);
                    assert(exists|k: int| 0 <= k < catalog.len() && (#[trigger] catalog[k]).skill@ == (#[trigger] t[i])@);
                } else {
                    assert(catalog[k0].skill@ == active[i]@);
                }
            }
        } else if active_sound(active, catalog) {
            assert forall|i: int| 0 <= i < t.len() implies exists|k: int|
                0 <= k < catalog.len() && (#[trigger] catalog[k]).skill@ == (#[trigger] t[i])@ by {
                assert(t[i] == active[i]);
                assert(exists|k: int| 0 <= k < catalog.len() && (#[trigger] catalog[k]).skill@ == (#[trigger] active[i])@);
            }
            assert(exists|k: int| 0 <= k < catalog.len() && (#[trigger] catalog[k]).skill@ == (#[trigger] active[n])@);
            let k = choose|k: int| 0 <= k < catalog.len() && (#[trigger] catalog[k]).skill@ == (#[trigger] active[n])@;
            assert(names[k] == active.last()@);
        }
    }
}

/// A criterion has no problem exactly when it is sound.
pub proof fn lemma_criterion_problem(c: EvalCriterionSpec)
    ensures
        criterion_problem(c) is None <==> criterion_sound(c),
{
}

/// The criteria have no problem exactly when each is sound.
pub proof fn lemma_criteria_problem(criteria: Seq<EvalCriterionSpec>)
    ensures
        criteria_problem(criteria) is None <==> forall|i: int|
            0 <= i < criteria.len() ==> criterion_sound(#[trigger] criteria[i]),
    decreases criteria.len(),
{
    if criteria.len() > 0 {
        let t = criteria.drop_last();
        lemma_criteria_problem(t);
        lemma_criterion_problem(criteria.last());
        assert forall|i: int| 0 <= i < t.len() implies t[i] == criteria[i] by {}
        if criteria_problem(criteria) is None {
            assert forall|i: int| 0 <= i < criteria.len() implies criterion_sound(#[trigger] criteria[i]) by {
                if i < t.len() {
                    assert(t[i] == criteria[i]);
                }
            }
        } else if forall|i: int| 0 <= i < criteria.len() ==> criterion_sound(#[trigger] criteria[i]) {
            assert forall|i: int| 0 <= i < t.len() implies criterion_sound(#[trigger] t[i]) by {
                assert(t[i] == criteria[i]);
            }
            assert(criterion_sound(criteria[criteria.len() - 1]));
        }
    }
}

/// A spec passes `validate_eval_spec` exactly when it is sound: every
/// condition the checks make holds.
pub proof fn lemma_spec_valid_iff_sound(spec: EvalSpec)
    ensures
        spec_problem(spec) is None <==> spec_sound(spec),
{
    lemma_sources_problem(spec.runtime.skill_sources@);
    lemma_catalog_problem(spec.runtime.catalog@, source_ids(spec.runtime.skill_sources@));
    lemma_active_problem(spec.runtime.active_skills@, spec.runtime.catalog@);
    lemma_criteria_problem(spec.evaluation.criteria@);
}

} // verus!
