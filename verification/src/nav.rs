//! The Navigation Controller: opens the target list view and plans the
//! identifier search that narrows the results table to a single row. The
//! searched cell must equal the identifier exactly; there is no partial or
//! fuzzy matching.

use vstd::prelude::*;

use crate::text::find_exact;
use crate::ui::{RunError, UiAction, UiActionModel, UiTarget};

verus! {

/// Plans the switch to the target list view: one activation of the labeled
/// control. Fails hard when the control was not found.
pub fn open_target_view(tab_present: bool) -> (r: Result<Vec<UiAction>, RunError>)
    ensures
        r is Ok <==> tab_present,
        r matches Ok(plan) ==> plan.deep_view() == seq![UiActionModel::Click(UiTarget::TargetTab)],
        r matches Err(e) ==> e.missing == UiTarget::TargetTab,
{
    if tab_present {
        let plan: Vec<UiAction> = vec![UiAction::Click(UiTarget::TargetTab)];
        proof {
            assert(plan.deep_view() =~= seq![UiActionModel::Click(UiTarget::TargetTab)]);
        }
        Ok(plan)
    } else {
        Err(RunError { missing: UiTarget::TargetTab })
    }
}

/// Plans filling the search input with the identifier: clear, then type.
/// Fails hard when the input was not found.
pub fn plan_search_input(input_present: bool, post_id: &String) -> (r: Result<
    Vec<UiAction>,
    RunError,
>)
    ensures
        r is Ok <==> input_present,
        r matches Ok(plan) ==> plan.deep_view() == seq![
            UiActionModel::Clear(UiTarget::SearchInput),
            UiActionModel::Type(UiTarget::SearchInput, post_id@),
        ],
        r matches Err(e) ==> e.missing == UiTarget::SearchInput,
{
    if input_present {
        let plan: Vec<UiAction> = vec![
            UiAction::Clear(UiTarget::SearchInput),
            UiAction::Type(UiTarget::SearchInput, post_id.clone()),
        ];
        proof {
            assert(plan.deep_view() =~= seq![
                UiActionModel::Clear(UiTarget::SearchInput),
                UiActionModel::Type(UiTarget::SearchInput, post_id@),
            ]);
        }
        Ok(plan)
    } else {
        Err(RunError { missing: UiTarget::SearchInput })
    }
}

/// Picks the results-table cell whose text equals the identifier exactly and
/// plans its activation, opening that row's detail. Fails hard when no cell
/// matches (the identifier yielded zero rows).
pub fn select_result_row(cells: &Vec<String>, post_id: &String) -> (r: Result<
    Vec<UiAction>,
    RunError,
>)
    ensures
        r is Ok <==> exists|j: int| 0 <= j < cells@.len() && cells@[j]@ == post_id@,
        r matches Ok(plan) ==> plan.deep_view().len() == 1 && (plan.deep_view()[0] matches
            UiActionModel::ClickRow(i) && i < cells@.len() && cells@[i as int]@ == post_id@
            && forall|j: int| 0 <= j < i ==> cells@[j]@ != post_id@),
        r matches Err(e) ==> e.missing == UiTarget::ResultCell,
{
    match find_exact(cells, post_id) {
        Some(i) => {
            proof {
                assert(cells@[i as int]@ == post_id@);
            }
            let plan: Vec<UiAction> = vec![UiAction::ClickRow(i)];
            proof {
                assert(plan.deep_view() =~= seq![UiActionModel::ClickRow(i)]);
            }
            Ok(plan)
        },
        None => Err(RunError { missing: UiTarget::ResultCell }),
    }
}

/// The identifier search as one decision: fill the search input, then open
/// the one row whose cell equals the identifier exactly. Fails with the
/// missing input when the input was not found, else with the missing cell
/// when no cell matches.
pub fn search_by_identifier(input_present: bool, cells: &Vec<String>, post_id: &String) -> (r:
    Result<Vec<UiAction>, RunError>)
    ensures
        !input_present ==> (r matches Err(e) && e.missing == UiTarget::SearchInput),
        input_present ==> (r is Ok <==> exists|j: int|
            0 <= j < cells@.len() && cells@[j]@ == post_id@),
        input_present && (forall|j: int| 0 <= j < cells@.len() ==> cells@[j]@ != post_id@)
            ==> (r matches Err(e) && e.missing == UiTarget::ResultCell),
        r matches Ok(plan) ==> plan.deep_view().len() == 3 && plan.deep_view()[0]
            == UiActionModel::Clear(UiTarget::SearchInput) && plan.deep_view()[1]
            == UiActionModel::Type(UiTarget::SearchInput, post_id@) && (plan.deep_view()[2] matches
            UiActionModel::ClickRow(i) && i < cells@.len() && cells@[i as int]@ == post_id@
            && forall|j: int| 0 <= j < i ==> cells@[j]@ != post_id@),
{
    if !input_present {
        return Err(RunError { missing: UiTarget::SearchInput });
    }
    match find_exact(cells, post_id) {
        Some(i) => {
            proof {
                assert(cells@[i as int]@ == post_id@);
            }
            let plan: Vec<UiAction> = vec![
                UiAction::Clear(UiTarget::SearchInput),
                UiAction::Type(UiTarget::SearchInput, post_id.clone()),
                UiAction::ClickRow(i),
            ];
            proof {
                assert(plan.deep_view() =~= seq![
                    UiActionModel::Clear(UiTarget::SearchInput),
                    UiActionModel::Type(UiTarget::SearchInput, post_id@),
                    UiActionModel::ClickRow(i),
                ]);
            }
            Ok(plan)
        },
        None => Err(RunError { missing: UiTarget::ResultCell }),
    }
}

} // verus!
