//! The two end-to-end scenarios, one per treasury mode.

use vending_machine::contract::{execute, instantiate};
use vending_machine::ledger::Treasury;
use vending_machine::msg::{ExecuteMsg, InstantiateMsg, QueryMsg, ReceiveMsg, Response,
    TreasurySetup};
use vending_machine::query::query;
use vending_machine::state::VendingMachine;

fn b(s: &str) -> Vec<u8> {
    s.as_bytes().to_vec()
}

fn self_issued(admin: &str, cap: u128) -> VendingMachine {
    instantiate(
        b(admin),
        InstantiateMsg { treasury: TreasurySetup::SelfIssued { supply_cap: cap } },
    )
    .unwrap()
}

fn balance_of(m: &VendingMachine, addr: &str) -> u128 {
    match &m.config.treasury {
        Treasury::SelfIssued { balances, .. } => balances.balance(&b(addr)),
        Treasury::External { .. } => panic!("not a self-issued treasury"),
    }
}

#[test]
fn integration_test_vending_machine_test() {
    let owner = b("owner");
    let mut machine = self_issued("owner", 10000);

    // Add beverage test
    // NAME: AMERICANO
    // PRICE: 40 COFFEE-TOKENS
    // AMOUNT: 3
    execute(
        &mut machine,
        &owner,
        ExecuteMsg::AddBeverage { name: b("AMERICANO"), amount: 3, price: 40 },
    )
    .unwrap();

    // Set price for AMERICANO
    // PRICE: 50 COFFEE-TOKENS
    execute(&mut machine, &owner, ExecuteMsg::SetPrice { name: b("AMERICANO"), price: 50 })
        .unwrap();

    // Fill Up AMERICANO
    // AMOUNT: 3+7=10
    execute(&mut machine, &owner, ExecuteMsg::FillUpBeverage { name: b("AMERICANO"), amount: 7 })
        .unwrap();

    // Give tokens to owner
    // Tokens: 60
    execute(&mut machine, &owner, ExecuteMsg::GiveTokens { address: b("owner"), tokens: 60 })
        .unwrap();
    assert_eq!(balance_of(&machine, "owner"), 60);

    // Buy AMERICANO
    // AMOUNT: 10 - 1 = 9
    execute(&mut machine, &owner, ExecuteMsg::BuyBeverage { name: b("AMERICANO") }).unwrap();
    // the owner pays the price to the seller, which is the owner itself
    assert_eq!(balance_of(&machine, "owner"), 60);

    // Withdraw supply
    execute(&mut machine, &owner, ExecuteMsg::Withdraw { amount: 30 }).unwrap();
    assert_eq!(balance_of(&machine, "owner"), 30);
    match &machine.config.treasury {
        Treasury::SelfIssued { total_supply, .. } => assert_eq!(*total_supply, 30),
        Treasury::External { .. } => panic!("not a self-issued treasury"),
    }

    // Query
    let listing = query(&machine, QueryMsg::BeverageList { offset: None, limit: None });
    for beverage in listing.beverages {
        match beverage.name.as_slice() {
            b"AMERICANO" => {
                assert_eq!(beverage.price, 50);
                assert_eq!(beverage.amount, 9)
            },
            _ => panic!("There is no other coffee than AMERICANO"),
        }
    }
}

#[test]
fn vending_machine_test() {
    let owner = b("owner");
    let token = b("coffee_token");
    let mut owner_balance: u128 = 3000;

    let mut machine = instantiate(
        b("owner"),
        InstantiateMsg { treasury: TreasurySetup::External { token_addr: b("coffee_token") } },
    )
    .unwrap();

    let collected = |m: &VendingMachine| -> u128 {
        match &m.config.treasury {
            Treasury::External { collected, .. } => *collected,
            Treasury::SelfIssued { .. } => panic!("not an external treasury"),
        }
    };
    assert_eq!(collected(&machine), 0);

    // Add beverage test
    // NAME: Americano
    // PRICE: 2 COFFEE-TOKENS
    // AMOUNT: 3
    execute(
        &mut machine,
        &owner,
        ExecuteMsg::AddBeverage { name: b("Americano"), amount: 3, price: 2 },
    )
    .unwrap();

    // Set price for Americano
    // PRICE: 3 COFFEE-TOKENS
    execute(&mut machine, &owner, ExecuteMsg::SetPrice { name: b("Americano"), price: 3 })
        .unwrap();

    // Fill Up Americano
    // AMOUNT: 3+7=10
    execute(&mut machine, &owner, ExecuteMsg::FillUpBeverage { name: b("Americano"), amount: 7 })
        .unwrap();

    // Buy Americano: the owner sends 3 tokens through the token contract
    owner_balance -= 3;
    execute(
        &mut machine,
        &token,
        ExecuteMsg::Receive {
            sender: b("owner"),
            amount: 3,
            msg: ReceiveMsg::BuyBeverage { name: b("Americano") },
        },
    )
    .unwrap();

    assert_eq!(owner_balance, 2997);
    assert_eq!(collected(&machine), 3);

    // Withdraw 2 Coffee tokens
    let r = execute(&mut machine, &owner, ExecuteMsg::Withdraw { amount: 2 }).unwrap();
    match r {
        Response::Withdrawn { amount, transfer } => {
            assert_eq!(amount, 2);
            let instr = transfer.expect("a transfer instruction is attached");
            assert_eq!(instr.token_addr, b("coffee_token"));
            assert_eq!(instr.recipient, b("owner"));
            assert_eq!(instr.amount, 2);
            owner_balance += instr.amount;
        },
        _ => panic!("expected a withdrawal outcome"),
    }

    assert_eq!(owner_balance, 2999);
    assert_eq!(collected(&machine), 1);

    let listing = query(&machine, QueryMsg::BeverageList { limit: None, offset: None });
    for beverage in listing.beverages {
        match beverage.name.as_slice() {
            b"Americano" => {
                assert_eq!(beverage.price, 3);
                assert_eq!(beverage.amount, 9)
            },
            _ => (),
        }
    }
}
