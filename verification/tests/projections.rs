use wallet_explorer::model::{Asset, Chain, Account, Signer};
use wallet_explorer::names::distinct_chain_names;
use wallet_explorer::signer_tree::build_tree;
use wallet_explorer::chain_tree::build_chain_tree;
use wallet_explorer::tree::flatten;

fn asset(name: &str, amount: &str) -> Asset {
    Asset { name: name.to_string(), amount: amount.to_string() }
}

fn chain(name: &str, assets: Vec<Asset>) -> Chain {
    Chain { name: name.to_string(), assets }
}

fn account(name: &str, chains: Vec<Chain>) -> Account {
    Account { name: name.to_string(), chains }
}

fn signer(name: &str, accounts: Vec<Account>) -> Signer {
    Signer { name: name.to_string(), accounts }
}

fn sample_portfolio() -> Vec<Signer> {
    vec![
        signer(
            "Alice",
            vec![account(
                "Main",
                vec![
                    chain("ETH", vec![asset("ETH", "1.5")]),
                    chain("BTC", vec![asset("BTC", "0.2")]),
                ],
            )],
        ),
        signer("Bob", vec![account("Savings", vec![chain("ETH", vec![asset("ETH", "3")])])]),
    ]
}

#[test]
fn signer_tree_structure_round_trip() {
    let signers = sample_portfolio();
    let t = build_tree(&signers);
    assert_eq!(t.roots.len(), 2);
    assert_eq!(t.roots[0].item.label, "Alice");
    assert_eq!(t.roots[0].item.path, vec![0]);
    assert_eq!(t.roots[1].item.label, "Bob");
    assert_eq!(t.roots[1].item.path, vec![1]);
    let main = &t.roots[0].children[0];
    assert_eq!(main.item.label, "Main");
    assert_eq!(main.item.path, vec![0, 0]);
    assert_eq!(main.children.len(), 2);
    assert_eq!(main.children[0].item.label, "ETH");
    assert_eq!(main.children[0].item.path, vec![0, 0, 0]);
    assert_eq!(main.children[0].leaves.len(), 1);
    assert_eq!(main.children[0].leaves[0].label, "ETH: 1.5");
    assert_eq!(main.children[0].leaves[0].path, vec![0, 0, 0, 0]);
    assert_eq!(main.children[1].item.label, "BTC");
    assert_eq!(main.children[1].leaves[0].label, "BTC: 0.2");
    assert_eq!(main.children[1].leaves[0].path, vec![0, 0, 1, 0]);
}

#[test]
fn signer_tree_root_order_preserves_model_order() {
    let signers = vec![
        signer("Zoe", vec![]),
        signer("Adam", vec![]),
        signer("Mia", vec![]),
    ];
    let t = build_tree(&signers);
    let labels: Vec<&str> = t.roots.iter().map(|r| r.item.label.as_str()).collect();
    assert_eq!(labels, vec!["Zoe", "Adam", "Mia"]);
}

#[test]
fn signer_tree_flatten_is_preorder() {
    let signers = sample_portfolio();
    let rows = flatten(&build_tree(&signers));
    let paths: Vec<Vec<usize>> = rows.iter().map(|r| r.path.clone()).collect();
    assert_eq!(
        paths,
        vec![
            vec![0],
            vec![0, 0],
            vec![0, 0, 0],
            vec![0, 0, 0, 0],
            vec![0, 0, 1],
            vec![0, 0, 1, 0],
            vec![1],
            vec![1, 0],
            vec![1, 0, 0],
            vec![1, 0, 0, 0],
        ]
    );
}

#[test]
fn chain_tree_merges_shared_chain() {
    // Two signers each hold chain "ETH": one root, two signer nodes under it.
    let signers = sample_portfolio();
    let names = distinct_chain_names(&signers);
    assert_eq!(names, vec!["BTC".to_string(), "ETH".to_string()]);
    let t = build_chain_tree(&signers, &names);
    assert_eq!(t.roots.len(), 2);
    assert_eq!(t.roots[0].item.label, "BTC");
    assert_eq!(t.roots[0].item.path, vec![0]);
    assert_eq!(t.roots[1].item.label, "ETH");
    assert_eq!(t.roots[1].item.path, vec![1]);
    let eth = &t.roots[1];
    assert_eq!(eth.children.len(), 2);
    assert_eq!(eth.children[0].item.label, "Alice");
    assert_eq!(eth.children[0].item.path, vec![1, 0]);
    assert_eq!(eth.children[1].item.label, "Bob");
    assert_eq!(eth.children[1].item.path, vec![1, 1]);
    let alice_main = &eth.children[0].children[0];
    assert_eq!(alice_main.item.label, "Main");
    assert_eq!(alice_main.item.path, vec![1, 0, 0]);
    assert_eq!(alice_main.leaves.len(), 1);
    assert_eq!(alice_main.leaves[0].label, "ETH: 1.5");
    // The leaf path carries the chain entry's own array index as well.
    assert_eq!(alice_main.leaves[0].path, vec![1, 0, 0, 0, 0]);
    let bob_savings = &eth.children[1].children[0];
    assert_eq!(bob_savings.item.label, "Savings");
    assert_eq!(bob_savings.leaves[0].path, vec![1, 1, 0, 0, 0]);
}

#[test]
fn chain_tree_dedups_repeated_chain_under_signer() {
    // One signer holds "ETH" via two accounts, and twice inside one
    // account: still a single signer node under the "ETH" root.
    let signers = vec![signer(
        "Alice",
        vec![
            account(
                "Main",
                vec![
                    chain("ETH", vec![asset("ETH", "1")]),
                    chain("ETH", vec![asset("WETH", "2")]),
                ],
            ),
            account("Side", vec![chain("ETH", vec![asset("ETH", "3")])]),
        ],
    )];
    let names = distinct_chain_names(&signers);
    assert_eq!(names, vec!["ETH".to_string()]);
    let t = build_chain_tree(&signers, &names);
    assert_eq!(t.roots.len(), 1);
    let eth = &t.roots[0];
    assert_eq!(eth.children.len(), 1);
    assert_eq!(eth.children[0].item.label, "Alice");
    // Two account nodes, in first-seen order; the first aggregates the
    // leaves of both same-named chain entries.
    assert_eq!(eth.children[0].children.len(), 2);
    let main = &eth.children[0].children[0];
    assert_eq!(main.item.label, "Main");
    assert_eq!(main.leaves.len(), 2);
    assert_eq!(main.leaves[0].label, "ETH: 1");
    assert_eq!(main.leaves[0].path, vec![0, 0, 0, 0, 0]);
    assert_eq!(main.leaves[1].label, "WETH: 2");
    assert_eq!(main.leaves[1].path, vec![0, 0, 0, 1, 0]);
    let side = &eth.children[0].children[1];
    assert_eq!(side.item.label, "Side");
    assert_eq!(side.leaves[0].path, vec![0, 0, 1, 0, 0]);
}

#[test]
fn chain_tree_dedups_same_signer_name() {
    // Two distinct signer records with the same name merge into one
    // signer node under the shared chain root.
    let signers = vec![
        signer("Alice", vec![account("A1", vec![chain("ETH", vec![asset("ETH", "1")])])]),
        signer("Alice", vec![account("A2", vec![chain("ETH", vec![asset("ETH", "2")])])]),
    ];
    let names = distinct_chain_names(&signers);
    let t = build_chain_tree(&signers, &names);
    let eth = &t.roots[0];
    assert_eq!(eth.children.len(), 1);
    assert_eq!(eth.children[0].item.label, "Alice");
    assert_eq!(eth.children[0].item.path, vec![0, 0]);
    // Both accounts hang under the single merged signer node; each path
    // keeps its own signer's original index.
    assert_eq!(eth.children[0].children.len(), 2);
    assert_eq!(eth.children[0].children[0].item.label, "A1");
    assert_eq!(eth.children[0].children[0].item.path, vec![0, 0, 0]);
    assert_eq!(eth.children[0].children[1].item.label, "A2");
    assert_eq!(eth.children[0].children[1].item.path, vec![0, 1, 0]);
}

#[test]
fn chain_tree_roots_sorted() {
    let signers = vec![signer(
        "S",
        vec![account(
            "A",
            vec![
                chain("zcash", vec![]),
                chain("bitcoin", vec![]),
                chain("ethereum", vec![]),
                chain("bitcoin", vec![]),
            ],
        )],
    )];
    let names = distinct_chain_names(&signers);
    assert_eq!(
        names,
        vec!["bitcoin".to_string(), "ethereum".to_string(), "zcash".to_string()]
    );
    let t = build_chain_tree(&signers, &names);
    let labels: Vec<&str> = t.roots.iter().map(|r| r.item.label.as_str()).collect();
    assert_eq!(labels, vec!["bitcoin", "ethereum", "zcash"]);
}

#[test]
fn chain_name_sorting_handles_prefixes() {
    // A proper prefix sorts before its extensions.
    let signers = vec![signer(
        "S",
        vec![account(
            "A",
            vec![chain("BTC", vec![]), chain("BT", vec![]), chain("B", vec![])],
        )],
    )];
    let names = distinct_chain_names(&signers);
    assert_eq!(names, vec!["B".to_string(), "BT".to_string(), "BTC".to_string()]);
}

#[test]
fn chain_tree_skips_signers_without_the_chain() {
    let signers = vec![
        signer("Alice", vec![account("A", vec![chain("BTC", vec![asset("BTC", "1")])])]),
        signer("Bob", vec![account("B", vec![chain("ETH", vec![asset("ETH", "2")])])]),
    ];
    let names = distinct_chain_names(&signers);
    let t = build_chain_tree(&signers, &names);
    let btc = &t.roots[0];
    assert_eq!(btc.item.label, "BTC");
    assert_eq!(btc.children.len(), 1);
    assert_eq!(btc.children[0].item.label, "Alice");
    let eth = &t.roots[1];
    assert_eq!(eth.children.len(), 1);
    assert_eq!(eth.children[0].item.label, "Bob");
    // Bob's signer node keeps his original array index in its path.
    assert_eq!(eth.children[0].item.path, vec![1, 1]);
}

#[test]
fn rebuilding_projections_is_idempotent() {
    let signers = sample_portfolio();
    let names = distinct_chain_names(&signers);
    let s1 = flatten(&build_tree(&signers));
    let s2 = flatten(&build_tree(&signers));
    assert_eq!(s1.len(), s2.len());
    for (a, b) in s1.iter().zip(s2.iter()) {
        assert_eq!(a.label, b.label);
        assert_eq!(a.path, b.path);
    }
    let c1 = flatten(&build_chain_tree(&signers, &names));
    let c2 = flatten(&build_chain_tree(&signers, &names));
    assert_eq!(c1.len(), c2.len());
    for (a, b) in c1.iter().zip(c2.iter()) {
        assert_eq!(a.label, b.label);
        assert_eq!(a.path, b.path);
    }
}

#[test]
fn empty_portfolio_builds_empty_trees() {
    let signers: Vec<Signer> = vec![];
    let names = distinct_chain_names(&signers);
    assert!(names.is_empty());
    assert!(build_tree(&signers).roots.is_empty());
    assert!(build_chain_tree(&signers, &names).roots.is_empty());
    assert!(flatten(&build_tree(&signers)).is_empty());
}
