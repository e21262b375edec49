//! Full buying sessions: one over each treasury mode, and the serialized
//! double purchase of the last unit.

use vending_machine::contract::{execute, instantiate};
use vending_machine::error::ContractError;
use vending_machine::ledger::Treasury;
use vending_machine::msg::{ExecuteMsg, InstantiateMsg, ReceiveMsg, TreasurySetup};
use vending_machine::state::VendingMachine;

fn b(s: &str) -> Vec<u8> {
    s.as_bytes().to_vec()
}

fn stock_of(m: &VendingMachine, name: &str) -> u64 {
    m.get_beverage(&b(name)).unwrap().amount
}

fn balance_of(m: &VendingMachine, addr: &str) -> u128 {
    match &m.config.treasury {
        Treasury::SelfIssued { balances, .. } => balances.balance(&b(addr)),
        Treasury::External { .. } => panic!("not a self-issued treasury"),
    }
}

#[test]
fn americano_session_over_the_balance_ledger() {
    let owner = b("owner");
    let mut m = instantiate(
        b("owner"),
        InstantiateMsg { treasury: TreasurySetup::SelfIssued { supply_cap: 10000 } },
    )
    .unwrap();

    execute(&mut m, &owner, ExecuteMsg::AddBeverage { name: b("Americano"), amount: 3, price: 2 })
        .unwrap();
    execute(&mut m, &owner, ExecuteMsg::SetPrice { name: b("Americano"), price: 3 }).unwrap();
    execute(&mut m, &owner, ExecuteMsg::FillUpBeverage { name: b("Americano"), amount: 7 })
        .unwrap();
    assert_eq!(stock_of(&m, "Americano"), 10);
    assert_eq!(m.get_beverage(&b("Americano")).unwrap().price, 3);

    execute(&mut m, &owner, ExecuteMsg::GiveTokens { address: b("buyer"), tokens: 5 }).unwrap();
    assert_eq!(balance_of(&m, "buyer"), 5);

    execute(&mut m, &b("buyer"), ExecuteMsg::BuyBeverage { name: b("Americano") }).unwrap();
    assert_eq!(stock_of(&m, "Americano"), 9);
    assert_eq!(balance_of(&m, "buyer"), 2);
    assert_eq!(balance_of(&m, "owner"), 3);

    execute(&mut m, &owner, ExecuteMsg::Withdraw { amount: 2 }).unwrap();
    assert_eq!(balance_of(&m, "owner"), 1);
    match &m.config.treasury {
        Treasury::SelfIssued { total_supply, .. } => assert_eq!(*total_supply, 3),
        Treasury::External { .. } => panic!("not a self-issued treasury"),
    }
}

#[test]
fn cap_exceeded_leaves_supply_and_balances_unchanged() {
    let owner = b("owner");
    let mut m = instantiate(
        b("owner"),
        InstantiateMsg { treasury: TreasurySetup::SelfIssued { supply_cap: 100 } },
    )
    .unwrap();
    execute(&mut m, &owner, ExecuteMsg::GiveTokens { address: b("alice"), tokens: 60 }).unwrap();
    assert_eq!(
        execute(&mut m, &owner, ExecuteMsg::GiveTokens { address: b("bob"), tokens: 41 }),
        Err(ContractError::CannotExceedCap)
    );
    match &m.config.treasury {
        Treasury::SelfIssued { balances, total_supply, supply_cap } => {
            assert_eq!(*total_supply, 60);
            assert_eq!(*supply_cap, 100);
            assert_eq!(balances.balance(&b("alice")), 60);
            assert_eq!(balances.balance(&b("bob")), 0);
        },
        Treasury::External { .. } => panic!("not a self-issued treasury"),
    }
    // filling the cap exactly is allowed
    execute(&mut m, &owner, ExecuteMsg::GiveTokens { address: b("bob"), tokens: 40 }).unwrap();
    assert_eq!(balance_of(&m, "bob"), 40);
}

#[test]
fn two_buyers_for_the_last_unit() {
    let token = b("coffee_token");
    let mut m = instantiate(
        b("owner"),
        InstantiateMsg { treasury: TreasurySetup::External { token_addr: b("coffee_token") } },
    )
    .unwrap();
    execute(&mut m, &b("owner"), ExecuteMsg::AddBeverage { name: b("Flat"), amount: 1, price: 4 })
        .unwrap();

    // two purchases arrive; the host executes them one after the other
    let first = execute(
        &mut m,
        &token,
        ExecuteMsg::Receive {
            sender: b("alice"),
            amount: 4,
            msg: ReceiveMsg::BuyBeverage { name: b("Flat") },
        },
    );
    assert!(first.is_ok());
    assert_eq!(stock_of(&m, "Flat"), 0);

    let second = execute(
        &mut m,
        &token,
        ExecuteMsg::Receive {
            sender: b("bob"),
            amount: 4,
            msg: ReceiveMsg::BuyBeverage { name: b("Flat") },
        },
    );
    assert_eq!(second, Err(ContractError::OutOfStock));
    assert_eq!(stock_of(&m, "Flat"), 0);
    // exactly one price was collected
    match &m.config.treasury {
        Treasury::External { collected, .. } => assert_eq!(*collected, 4),
        Treasury::SelfIssued { .. } => panic!("not an external treasury"),
    }
}
