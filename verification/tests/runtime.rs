use state_machine::support::{Block, DispatchError, Extrinsic, Header};
use state_machine::{balances, proof_of_existence, Runtime, RuntimeCall};

#[test]
fn fresh_runtime_reads_zero() {
    let runtime = Runtime::new();

    assert_eq!(runtime.balances.balance(&"alice".to_string()), 0);
    assert_eq!(runtime.system.get_nonce(&"alice".to_string()), 0);
    assert_eq!(runtime.system.block_number(), 0);
    assert_eq!(
        runtime
            .proof_of_existence
            .get_claim(&"my_document".to_string()),
        None
    );
}

#[test]
fn execute_block_applies_transfers() {
    let mut runtime = Runtime::new();
    let alice = "alice".to_string();
    let bob = "bob".to_string();
    let charlie = "charlie".to_string();

    runtime.balances.set_balance(&alice, 100);

    let block = Block {
        header: Header { block_number: 1 },
        extrinsics: vec![
            Extrinsic {
                caller: alice.clone(),
                call: RuntimeCall::Balances(balances::Call::Transfer {
                    to: bob.clone(),
                    amount: 20,
                }),
            },
            Extrinsic {
                caller: alice.clone(),
                call: RuntimeCall::Balances(balances::Call::Transfer {
                    to: charlie.clone(),
                    amount: 30,
                }),
            },
        ],
    };

    let result = runtime.execute_block(block);

    assert!(result.is_ok());
    assert_eq!(runtime.balances.balance(&alice), 50);
    assert_eq!(runtime.balances.balance(&bob), 20);
    assert_eq!(runtime.balances.balance(&charlie), 30);
    assert_eq!(runtime.system.get_nonce(&alice), 2);
    assert_eq!(runtime.system.block_number(), 1);
}

#[test]
fn execute_block_wrong_header_applies_nothing() {
    let mut runtime = Runtime::new();
    let alice = "alice".to_string();
    let bob = "bob".to_string();

    runtime.balances.set_balance(&alice, 100);

    let block = Block {
        header: Header { block_number: 5 },
        extrinsics: vec![Extrinsic {
            caller: alice.clone(),
            call: RuntimeCall::Balances(balances::Call::Transfer {
                to: bob.clone(),
                amount: 20,
            }),
        }],
    };

    let result = runtime.execute_block(block);

    assert_eq!(result, Err(DispatchError::BlockNumberMismatch));
    assert!(result.is_err_and(|e| e.message() == "Block number mismatch"));
    // No extrinsic was applied: balances and nonces stand as before.
    assert_eq!(runtime.balances.balance(&alice), 100);
    assert_eq!(runtime.balances.balance(&bob), 0);
    assert_eq!(runtime.system.get_nonce(&alice), 0);
    // The speculative height increment is deliberately not rolled back.
    assert_eq!(runtime.system.block_number(), 1);
}

#[test]
fn execute_block_duplicate_claim_keeps_first() {
    let mut runtime = Runtime::new();
    let alice = "alice".to_string();
    let bob = "bob".to_string();

    let block = Block {
        header: Header { block_number: 1 },
        extrinsics: vec![
            Extrinsic {
                caller: alice.clone(),
                call: RuntimeCall::ProofOfExistence(proof_of_existence::Call::CreateClaim {
                    claim: "doc".to_string(),
                }),
            },
            Extrinsic {
                caller: bob.clone(),
                call: RuntimeCall::ProofOfExistence(proof_of_existence::Call::CreateClaim {
                    claim: "doc".to_string(),
                }),
            },
        ],
    };

    let result = runtime.execute_block(block);

    // One failing extrinsic never aborts the block.
    assert!(result.is_ok());
    assert_eq!(
        runtime.proof_of_existence.get_claim(&"doc".to_string()),
        Some(&alice)
    );
    assert_eq!(runtime.system.get_nonce(&alice), 1);
    assert_eq!(runtime.system.get_nonce(&bob), 1);
}

#[test]
fn nonce_advances_when_dispatch_fails() {
    let mut runtime = Runtime::new();
    let alice = "alice".to_string();
    let bob = "bob".to_string();

    let block = Block {
        header: Header { block_number: 1 },
        extrinsics: vec![Extrinsic {
            caller: alice.clone(),
            call: RuntimeCall::Balances(balances::Call::Transfer {
                to: bob.clone(),
                amount: 100,
            }),
        }],
    };

    let result = runtime.execute_block(block);

    assert!(result.is_ok());
    assert_eq!(runtime.balances.balance(&alice), 0);
    assert_eq!(runtime.balances.balance(&bob), 0);
    assert_eq!(runtime.system.get_nonce(&alice), 1);
}

#[test]
fn dispatch_routes_to_owning_module() {
    let mut runtime = Runtime::new();
    let alice = "alice".to_string();
    let bob = "bob".to_string();

    runtime.balances.set_balance(&alice, 10);

    let transfer = runtime.dispatch(
        alice.clone(),
        RuntimeCall::Balances(balances::Call::Transfer {
            to: bob.clone(),
            amount: 4,
        }),
    );
    assert_eq!(transfer, Ok(()));
    assert_eq!(runtime.balances.balance(&alice), 6);
    assert_eq!(runtime.balances.balance(&bob), 4);

    let create = runtime.dispatch(
        alice.clone(),
        RuntimeCall::ProofOfExistence(proof_of_existence::Call::CreateClaim {
            claim: "doc".to_string(),
        }),
    );
    assert_eq!(create, Ok(()));

    let revoke = runtime.dispatch(
        alice.clone(),
        RuntimeCall::ProofOfExistence(proof_of_existence::Call::RevokeClaim {
            claim: "doc".to_string(),
        }),
    );
    assert_eq!(revoke, Ok(()));
    assert_eq!(runtime.proof_of_existence.get_claim(&"doc".to_string()), None);
}

#[test]
fn execute_two_blocks_in_sequence() {
    let mut runtime = Runtime::new();
    let alice = "alice".to_string();
    let bob = "bob".to_string();

    runtime.balances.set_balance(&alice, 100);

    let block_1 = Block {
        header: Header { block_number: 1 },
        extrinsics: vec![Extrinsic {
            caller: alice.clone(),
            call: RuntimeCall::Balances(balances::Call::Transfer {
                to: bob.clone(),
                amount: 30,
            }),
        }],
    };
    assert!(runtime.execute_block(block_1).is_ok());

    let block_2 = Block {
        header: Header { block_number: 2 },
        extrinsics: vec![Extrinsic {
            caller: bob.clone(),
            call: RuntimeCall::ProofOfExistence(proof_of_existence::Call::CreateClaim {
                claim: "Bobs Doc".to_string(),
            }),
        }],
    };
    assert!(runtime.execute_block(block_2).is_ok());

    assert_eq!(runtime.system.block_number(), 2);
    assert_eq!(runtime.balances.balance(&alice), 70);
    assert_eq!(runtime.balances.balance(&bob), 30);
    assert_eq!(
        runtime.proof_of_existence.get_claim(&"Bobs Doc".to_string()),
        Some(&bob)
    );
    assert_eq!(runtime.system.get_nonce(&alice), 1);
    assert_eq!(runtime.system.get_nonce(&bob), 1);
}
