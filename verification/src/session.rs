//! Session state: the loaded model, the active projection kind, and the
//! last-selected path. The state transitions on a "select node" event and
//! on a "switch view" event; switching views clears the selection, because
//! path dialects are not portable across projections.

use vstd::prelude::*;
use crate::model::{Signer, model_has_chain_name};
use crate::names::{has_name, strictly_sorted_names, distinct_chain_names, chain_names_cover};
use crate::details::{signer_row_result, chain_row_result, get_details_signer_based,
    get_details_chain_based};

verus! {

/// Which projection the session currently shows.
#[derive(Clone, Copy, Debug, PartialEq, Eq, Structural)]
pub enum ViewMode {
    SignerBased,
    ChainBased,
}

/// The other projection kind.
pub open spec fn flipped(v: ViewMode) -> ViewMode {
    match v {
        ViewMode::SignerBased => ViewMode::ChainBased,
        ViewMode::ChainBased => ViewMode::SignerBased,
    }
}

/// The whole session: the immutable model, its derived distinct chain name
/// set, the active projection kind and the last-selected path.
pub struct SystemState {
    pub signers: Vec<Signer>,
    pub selected_path: Option<Vec<usize>>,
    pub view_mode: ViewMode,
    pub chain_names: Vec<String>,
}

impl SystemState {
    /// The chain name set really is the sorted, de-duplicated set of chain
    /// names of the model.
    pub open spec fn wf(self) -> bool {
        &&& strictly_sorted_names(self.chain_names@)
        &&& forall|cn: Seq<char>|
            has_name(self.chain_names@, cn) <==> model_has_chain_name(self.signers@, cn)
    }
}

/// The session state after a "switch view" event on state `st`: the
/// projection kind flips, the selection is cleared, the records and the
/// derived name set stay.
pub open spec fn switched(st: SystemState) -> SystemState {
    SystemState {
        signers: st.signers,
        selected_path: None,
        view_mode: flipped(st.view_mode),
        chain_names: st.chain_names,
    }
}

/// A well-formed session's chain name set covers the model.
pub proof fn lemma_wf_covers(st: SystemState)
    requires
        st.wf(),
    ensures
        chain_names_cover(st.signers@, st.chain_names@),
{
}

/// Builds the initial session state from the loaded model: signer view,
/// nothing selected, and the distinct chain name set derived from the
/// records.
pub fn init_system_state(signers: Vec<Signer>) -> (s: SystemState)
    ensures
        s.wf(),
        s.signers == signers,
        s.selected_path is None,
        s.view_mode == ViewMode::SignerBased,
{
    let chain_names = distinct_chain_names(&signers);
    SystemState { signers, selected_path: None, view_mode: ViewMode::SignerBased, chain_names }
}

/// Handles a "select node" event for display row `row`: resolves the
/// detail string under the active projection, remembers the selected path,
/// and returns the description for the UI to show.
///
/// While the chain view is active, the session's chain name set must cover
/// the model, as it does in every well-formed session.
pub fn update_details(state: &mut SystemState, row: usize) -> (details: String)
    requires
        old(state).view_mode is ChainBased ==> chain_names_cover(
            old(state).signers@,
            old(state).chain_names@,
        ),
    ensures
        final(state).signers == old(state).signers,
        final(state).chain_names == old(state).chain_names,
        final(state).view_mode == old(state).view_mode,
        old(state).wf() ==> final(state).wf(),
        ({
            let res = match old(state).view_mode {
                ViewMode::SignerBased => signer_row_result(old(state).signers@, row as int),
                ViewMode::ChainBased => chain_row_result(
                    old(state).signers@,
                    old(state).chain_names@,
                    row as int,
                ),
            };
            &&& details@ == res.0
            &&& final(state).selected_path matches Some(p) && p@ == res.1
        }),
{
    let r = match state.view_mode {
        ViewMode::SignerBased => get_details_signer_based(&state.signers, row),
        ViewMode::ChainBased => get_details_chain_based(&state.signers, &state.chain_names, row),
    };
    let (details, path) = r;
    state.selected_path = Some(path);
    details
}

/// Handles a "switch view" event: flips the projection kind, clears the
/// remembered selection, and returns the placeholder text the UI shows
/// while nothing is selected.
pub fn switch_view(state: &mut SystemState) -> (msg: String)
    ensures
        *final(state) == switched(*old(state)),
        old(state).wf() ==> final(state).wf(),
        msg@ == "Select an item to see details"@,
{
    let next = match state.view_mode {
        ViewMode::SignerBased => ViewMode::ChainBased,
        ViewMode::ChainBased => ViewMode::SignerBased,
    };
    state.view_mode = next;
    state.selected_path = None;
    String::from_str("Select an item to see details")
}

} // verus!
