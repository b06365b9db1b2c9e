use wallet_explorer::model::{Asset, Chain, Account, Signer};
use wallet_explorer::details::{get_details_signer_based, get_details_chain_based};
use wallet_explorer::session::{init_system_state, update_details, switch_view, ViewMode};

fn asset(name: &str, amount: &str) -> Asset {
    Asset { name: name.to_string(), amount: amount.to_string() }
}

fn chain(name: &str, assets: Vec<Asset>) -> Chain {
    Chain { name: name.to_string(), assets }
}

fn account(name: &str, chains: Vec<Chain>) -> Account {
    Account { name: name.to_string(), chains }
}

fn signer(name: &str, accounts: Vec<Account>) -> Signer {
    Signer { name: name.to_string(), accounts }
}

fn alice_portfolio() -> Vec<Signer> {
    // One signer "Alice" with one account "Main" holding chain "ETH" with
    // asset ETH 1.5 and chain "BTC" with asset BTC 0.2.
    vec![signer(
        "Alice",
        vec![account(
            "Main",
            vec![
                chain("ETH", vec![asset("ETH", "1.5")]),
                chain("BTC", vec![asset("BTC", "0.2")]),
            ],
        )],
    )]
}

#[test]
fn signer_detail_scenario() {
    let signers = alice_portfolio();
    // Rows 0..6 are: [0], [0,0], [0,0,0], [0,0,0,0], [0,0,1], [0,0,1,0].
    let (d, p) = get_details_signer_based(&signers, 3);
    assert_eq!(p, vec![0, 0, 0, 0]);
    assert_eq!(d, "Asset: ETH, Amount: 1.5");
    let (d, p) = get_details_signer_based(&signers, 5);
    assert_eq!(p, vec![0, 0, 1, 0]);
    assert_eq!(d, "Asset: BTC, Amount: 0.2");
}

#[test]
fn signer_detail_inner_levels() {
    let signers = alice_portfolio();
    let (d, p) = get_details_signer_based(&signers, 0);
    assert_eq!((d.as_str(), p), ("Signer: Alice", vec![0]));
    let (d, p) = get_details_signer_based(&signers, 1);
    assert_eq!((d.as_str(), p), ("Account: Main", vec![0, 0]));
    let (d, p) = get_details_signer_based(&signers, 4);
    assert_eq!((d.as_str(), p), ("Chain: BTC", vec![0, 0, 1]));
}

#[test]
fn signer_detail_row_out_of_range() {
    let signers = alice_portfolio();
    let (d, p) = get_details_signer_based(&signers, 6);
    assert_eq!(d, "");
    assert!(p.is_empty());
}

#[test]
fn chain_detail_levels() {
    let signers = alice_portfolio();
    let state = init_system_state(signers);
    // Chain names sort to ["BTC", "ETH"]; rows of the chain tree are:
    // 0: [0] BTC, 1: [0,0] Alice, 2: [0,0,0] Main, 3: [0,0,0,1,0] leaf,
    // 4: [1] ETH, 5: [1,0] Alice, 6: [1,0,0] Main, 7: [1,0,0,0,0] leaf.
    let (d, p) = get_details_chain_based(&state.signers, &state.chain_names, 0);
    assert_eq!((d.as_str(), p), ("Chain: BTC", vec![0]));
    let (d, p) = get_details_chain_based(&state.signers, &state.chain_names, 1);
    assert_eq!((d.as_str(), p), ("Signer: Alice on chain BTC", vec![0, 0]));
    let (d, p) = get_details_chain_based(&state.signers, &state.chain_names, 2);
    assert_eq!(
        (d.as_str(), p),
        ("Account: Main of signer Alice on chain BTC", vec![0, 0, 0])
    );
    let (d, p) = get_details_chain_based(&state.signers, &state.chain_names, 3);
    assert_eq!(p, vec![0, 0, 0, 1, 0]);
    assert_eq!(d, "Asset: BTC\nAmount: 0.2\nChain: BTC\nAccount: Main\nSigner: Alice");
    let (d, p) = get_details_chain_based(&state.signers, &state.chain_names, 7);
    assert_eq!(p, vec![1, 0, 0, 0, 0]);
    assert_eq!(d, "Asset: ETH\nAmount: 1.5\nChain: ETH\nAccount: Main\nSigner: Alice");
}

#[test]
fn chain_detail_row_out_of_range() {
    let signers = alice_portfolio();
    let state = init_system_state(signers);
    let (d, p) = get_details_chain_based(&state.signers, &state.chain_names, 99);
    assert_eq!(d, "");
    assert!(p.is_empty());
}

#[test]
fn session_starts_in_signer_view() {
    let state = init_system_state(alice_portfolio());
    assert_eq!(state.view_mode, ViewMode::SignerBased);
    assert!(state.selected_path.is_none());
    assert_eq!(state.chain_names, vec!["BTC".to_string(), "ETH".to_string()]);
}

#[test]
fn selection_remembers_path_per_active_view() {
    let mut state = init_system_state(alice_portfolio());
    let d = update_details(&mut state, 3);
    assert_eq!(d, "Asset: ETH, Amount: 1.5");
    assert_eq!(state.selected_path, Some(vec![0, 0, 0, 0]));
    let _ = switch_view(&mut state);
    let d = update_details(&mut state, 3);
    assert_eq!(d, "Asset: BTC\nAmount: 0.2\nChain: BTC\nAccount: Main\nSigner: Alice");
    assert_eq!(state.selected_path, Some(vec![0, 0, 0, 1, 0]));
}

#[test]
fn toggling_view_clears_selection() {
    // Toggling the view clears the selected path and yields the
    // "no item selected" detail text, whatever was selected before.
    let mut state = init_system_state(alice_portfolio());
    let _ = update_details(&mut state, 2);
    assert!(state.selected_path.is_some());
    let msg = switch_view(&mut state);
    assert_eq!(msg, "Select an item to see details");
    assert_eq!(state.view_mode, ViewMode::ChainBased);
    assert!(state.selected_path.is_none());
    let _ = update_details(&mut state, 0);
    assert!(state.selected_path.is_some());
    let msg = switch_view(&mut state);
    assert_eq!(msg, "Select an item to see details");
    assert_eq!(state.view_mode, ViewMode::SignerBased);
    assert!(state.selected_path.is_none());
}
