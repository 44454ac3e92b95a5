//! Delegation recipes: a recipe fixes the output contract of the child it
//! starts and may supply a default model. A native child's request is
//! resolved against its recipe before anything else about it is checked.

use vstd::prelude::*;

use crate::errors::RunExecutionError;
use crate::lineage::{
    check_native_child_parent, check_spawn_parent, spec_check_native_child_parent, spec_check_spawn_parent,
    spec_opt_run,
};
use crate::run::{OutputContractKind, RunId, RunRecord, SessionId};
use crate::text::{spec_trim, trimmed};

verus! {

/// A delegation recipe: its id, the output contract its children return,
/// and the model its children use unless the request names one.
#[derive(Debug)]
pub struct DelegateRecipe {
    pub recipe_id: String,
    pub output_contract: OutputContractKind,
    pub default_model_id: Option<String>,
}

/// A native child's request once its recipe is applied: the trimmed
/// objective, the output contract, the model and the recipe.
#[derive(Debug)]
pub struct ResolvedDelegation {
    pub objective: String,
    pub output_contract: Option<OutputContractKind>,
    pub model_id: Option<String>,
    pub recipe_id: Option<String>,
}

/// The view of an optional text.
pub open spec fn spec_text_opt(s: Option<String>) -> Option<Seq<char>> {
    match s {
        Some(t) => Some(t@),
        None => None,
    }
}

/// The position of the first recipe with `id`, if any.
pub open spec fn spec_find_recipe(recipes: Seq<DelegateRecipe>, id: Seq<char>) -> Option<int>
    decreases recipes.len(),
{
    if recipes.len() == 0 {
        None
    } else if recipes[0].recipe_id@ == id {
        Some(0)
    } else {
        match spec_find_recipe(recipes.drop_first(), id) {
            Some(i) => Some(i + 1),
            None => None,
        }
    }
}

/// What resolving a delegation gives.
pub enum DelegationOutcome {
    /// No recipe has the requested id.
    UnknownRecipe { recipe_id: Seq<char> },
    /// The request names an output contract other than the recipe's.
    ContractConflict { recipe_id: Seq<char>, recipe_contract: OutputContractKind, request_contract: OutputContractKind },
    /// The objective is blank.
    BlankObjective,
    /// The resolved objective (trimmed), output contract and model.
    Resolved { objective: Seq<char>, output_contract: Option<OutputContractKind>, model_id: Option<Seq<char>> },
}

/// Resolve a delegation, in order: a named recipe must exist, and a
/// requested output contract must be the recipe's; the recipe then supplies
/// its contract and, unless the request names a model, its default model.
/// Without a recipe the request stands as it is. Last, the objective must
/// not be blank once trimmed.
pub open spec fn spec_resolve_delegation(
    recipes: Seq<DelegateRecipe>,
    recipe_id: Option<Seq<char>>,
    objective: Seq<char>,
    output_contract: Option<OutputContractKind>,
    model_id: Option<Seq<char>>,
) -> DelegationOutcome {
    let applied: Result<(Option<OutputContractKind>, Option<Seq<char>>), DelegationOutcome> = match recipe_id {
        None => Ok((output_contract, model_id)),
        Some(id) => match spec_find_recipe(recipes, id) {
            None => Err(DelegationOutcome::UnknownRecipe { recipe_id: id }),
            Some(i) => {
                let recipe = recipes[i];
                match output_contract {
                    Some(c) if c != recipe.output_contract => Err(
                        DelegationOutcome::ContractConflict {
                            recipe_id: id,
                            recipe_contract: recipe.output_contract,
                            request_contract: c,
                        },
                    ),
                    _ => Ok(
                        (
                            Some(recipe.output_contract),
                            match model_id {
                                Some(m) => Some(m),
                                None => spec_text_opt(recipe.default_model_id),
                            },
                        ),
                    ),
                }
            },
        },
    };
    match applied {
        Err(e) => e,
        Ok((contract, model)) => if spec_trim(objective).len() == 0 {
            DelegationOutcome::BlankObjective
        } else {
            DelegationOutcome::Resolved { objective: spec_trim(objective), output_contract: contract, model_id: model }
        },
    }
}

/// Whether `r` reports the delegation outcome `o`, texts by their views.
pub open spec fn spec_reports_delegation(
    o: DelegationOutcome,
    recipe_id: Option<Seq<char>>,
    r: Result<ResolvedDelegation, RunExecutionError>,
) -> bool {
    match o {
        DelegationOutcome::UnknownRecipe { recipe_id: id } => r matches Err(RunExecutionError::UnknownRecipeId(x))
            && x@ == id,
        DelegationOutcome::ContractConflict { recipe_id: id, recipe_contract, request_contract } => r matches Err(
            RunExecutionError::RecipeContractConflict { recipe_id: x, recipe_contract: rc, request_contract: qc },
        ) && x@ == id && rc == recipe_contract && qc == request_contract,
        DelegationOutcome::BlankObjective => r matches Err(RunExecutionError::EmptyRunObjective),
        DelegationOutcome::Resolved { objective, output_contract, model_id } => r matches Ok(d) && d.objective@
            == objective && d.output_contract == output_contract && spec_text_opt(d.model_id) == model_id
            && spec_text_opt(d.recipe_id) == recipe_id,
    }
}

pub(crate) fn copy_opt_text(s: &Option<String>) -> (t: Option<String>)
    ensures
        spec_text_opt(t) == spec_text_opt(*s),
{
    match s {
        Some(x) => Some(x.clone()),
        None => None,
    }
}

/// Find the first recipe with `id` (see [`spec_find_recipe`]).
pub fn find_recipe(recipes: &Vec<DelegateRecipe>, id: &String) -> (i: Option<usize>)
    ensures
        match i {
            Some(k) => spec_find_recipe(recipes@, id@) == Some(k as int) && k < recipes@.len(),
            None => spec_find_recipe(recipes@, id@) is None,
        },
{
    let mut k: usize = 0;
    while k < recipes.len()
        invariant
            0 <= k <= recipes.len(),
            forall|j: int| 0 <= j < k ==> recipes@[j].recipe_id@ != id@,
        decreases recipes.len() - k,
    {
        if recipes[k].recipe_id == *id {
            proof { lemma_find_first(recipes@, id@, k as int); }
            return Some(k);
        }
        k = k + 1;
    }
    proof { lemma_find_none(recipes@, id@); }
    None
}

proof fn lemma_find_first(recipes: Seq<DelegateRecipe>, id: Seq<char>, k: int)
    requires
        0 <= k < recipes.len(),
        recipes[k].recipe_id@ == id,
        forall|j: int| 0 <= j < k ==> recipes[j].recipe_id@ != id,
    ensures
        spec_find_recipe(recipes, id) == Some(k),
    decreases k,
{
    if k > 0 {
        let rest = recipes.drop_first();
        assert forall|j: int| 0 <= j < k - 1 implies rest[j].recipe_id@ != id by {
            assert(rest[j] == recipes[j + 1]);
        }
        lemma_find_first(rest, id, k - 1);
    }
}

proof fn lemma_find_none(recipes: Seq<DelegateRecipe>, id: Seq<char>)
    requires
        forall|j: int| 0 <= j < recipes.len() ==> recipes[j].recipe_id@ != id,
    ensures
        spec_find_recipe(recipes, id) is None,
    decreases recipes.len(),
{
    if recipes.len() > 0 {
        let rest = recipes.drop_first();
        assert forall|j: int| 0 <= j < rest.len() implies rest[j].recipe_id@ != id by {
            assert(rest[j] == recipes[j + 1]);
        }
        lemma_find_none(rest, id);
    }
}

/// Resolve a delegation against the recipes (see [`spec_resolve_delegation`]).
pub fn resolve_delegation(
    recipes: &Vec<DelegateRecipe>,
    recipe_id: Option<String>,
    objective: &str,
    output_contract: Option<OutputContractKind>,
    model_id: Option<String>,
) -> (r: Result<ResolvedDelegation, RunExecutionError>)
    ensures
        spec_reports_delegation(
            spec_resolve_delegation(recipes@, spec_text_opt(recipe_id), objective@, output_contract, spec_text_opt(model_id)),
            spec_text_opt(recipe_id),
            r,
        ),
{
    let ghost rid = spec_text_opt(recipe_id);
    let (contract, model) = match &recipe_id {
        None => (output_contract, model_id),
        Some(id) => match find_recipe(recipes, id) {
            None => {
                return Err(RunExecutionError::UnknownRecipeId(id.clone()));
            },
            Some(i) => {
                let recipe = &recipes[i];
                match output_contract {
                    Some(c) => {
                        if c != recipe.output_contract {
                            return Err(
                                RunExecutionError::RecipeContractConflict {
                                    recipe_id: id.clone(),
                                    recipe_contract: recipe.output_contract,
                                    request_contract: c,
                                },
                            );
                        }
                    },
                    None => {},
                }
                let model = match model_id {
                    Some(m) => Some(m),
                    None => copy_opt_text(&recipe.default_model_id),
                };
                (Some(recipe.output_contract), model)
            },
        },
    };
    let t = trimmed(objective);
    if t.as_str().unicode_len() == 0 {
        return Err(RunExecutionError::EmptyRunObjective);
    }
    Ok(ResolvedDelegation { objective: t, output_contract: contract, model_id: model, recipe_id })
}

/// The checks before a native subagent starts, in order: its delegation is
/// resolved (see [`spec_resolve_delegation`]), then its parent is checked
/// (see [`spec_check_native_child_parent`]). On success the result is the
/// resolved delegation.
pub fn check_native_child_start(
    session_id: SessionId,
    recipes: &Vec<DelegateRecipe>,
    recipe_id: Option<String>,
    objective: &str,
    output_contract: Option<OutputContractKind>,
    model_id: Option<String>,
    parent_run_id: RunId,
    parent: Option<&RunRecord>,
    live_running: bool,
) -> (r: Result<ResolvedDelegation, RunExecutionError>)
    ensures
        ({
            let o = spec_resolve_delegation(
                recipes@,
                spec_text_opt(recipe_id),
                objective@,
                output_contract,
                spec_text_opt(model_id),
            );
            let p = spec_check_native_child_parent(session_id, parent_run_id, spec_opt_run(parent), live_running);
            if o is Resolved && p is Err {
                r == Err::<ResolvedDelegation, RunExecutionError>(p->Err_0)
            } else {
                spec_reports_delegation(o, spec_text_opt(recipe_id), r)
            }
        }),
{
    let resolved = resolve_delegation(recipes, recipe_id, objective, output_contract, model_id);
    match resolved {
        Err(e) => Err(e),
        Ok(d) => match check_native_child_parent(session_id, parent_run_id, parent, live_running) {
            Err(e) => Err(e),
            Ok(()) => Ok(d),
        },
    }
}

/// The checks before a fresh child is spawned, in order: the request must
/// name this session; its delegation is resolved (see
/// [`spec_resolve_delegation`]); then its parent must exist and belong to
/// the session (see [`spec_check_spawn_parent`]). On success the result is
/// the resolved delegation.
pub fn check_spawn_start(
    request_session_id: SessionId,
    session_id: SessionId,
    recipes: &Vec<DelegateRecipe>,
    recipe_id: Option<String>,
    objective: &str,
    output_contract: Option<OutputContractKind>,
    model_id: Option<String>,
    parent_run_id: RunId,
    parent: Option<&RunRecord>,
) -> (r: Result<ResolvedDelegation, RunExecutionError>)
    ensures
        request_session_id != session_id ==> r == Err::<ResolvedDelegation, RunExecutionError>(
            RunExecutionError::RunSessionMismatch(request_session_id),
        ),
        request_session_id == session_id ==> ({
            let o = spec_resolve_delegation(
                recipes@,
                spec_text_opt(recipe_id),
                objective@,
                output_contract,
                spec_text_opt(model_id),
            );
            let p = spec_check_spawn_parent(request_session_id, session_id, parent_run_id, spec_opt_run(parent));
            if o is Resolved && p is Err {
                r == Err::<ResolvedDelegation, RunExecutionError>(p->Err_0)
            } else {
                spec_reports_delegation(o, spec_text_opt(recipe_id), r)
            }
        }),
{
    if request_session_id != session_id {
        return Err(RunExecutionError::RunSessionMismatch(request_session_id));
    }
    let resolved = resolve_delegation(recipes, recipe_id, objective, output_contract, model_id);
    match resolved {
        Err(e) => Err(e),
        Ok(d) => match check_spawn_parent(request_session_id, session_id, parent_run_id, parent) {
            Err(e) => Err(e),
            Ok(()) => Ok(d),
        },
    }
}

} // verus!
