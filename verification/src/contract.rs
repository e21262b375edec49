//! The transition engine: every state-changing operation of the
//! machine, with its exact outcome stated as a predicate over the state
//! before, the state after, and the returned result.
//!
//! Each operation either commits all of its writes and returns `Ok`, or
//! commits nothing and returns the one error its predicate names for
//! the given input: failure atomicity is part of every contract.

use vstd::prelude::*;

use crate::error::ContractError;
use crate::ledger::{Balances, Treasury};
use crate::msg::{ExecuteMsg, InstantiateMsg, Payment, ReceiveMsg, Response, TransferInstruction,
    TreasurySetup};
use crate::order::{bytes_eq, copy_bytes};
use crate::state::{cut_lt, entry_ok, Beverage, BeverageInfo, Catalog, ContractConfig,
    VendingMachine, MAX_AMOUNT};

verus! {

/// The catalog after an insertion of `name` with record `info` at its
/// ordered position; all other entries keep their places.
pub open spec fn catalog_inserted(
    pre: Catalog,
    post: Catalog,
    name: Seq<u8>,
    info: BeverageInfo,
) -> bool {
    let p = cut_lt(pre.entries@, name);
    &&& post.entries@.len() == pre.entries@.len() + 1
    &&& post.entries@[p].name@ == name
    &&& post.entries@[p].info == info
    &&& forall|j: int| 0 <= j < p ==> post.entries@[j] == pre.entries@[j]
    &&& forall|j: int| p < j < post.entries@.len() ==> post.entries@[j] == pre.entries@[j - 1]
}

/// The catalog after the record at index `i` was overwritten with
/// `info`; names and all other entries are untouched.
pub open spec fn catalog_updated(pre: Catalog, post: Catalog, i: int, info: BeverageInfo) -> bool {
    &&& 0 <= i < pre.entries@.len()
    &&& post.entries@.len() == pre.entries@.len()
    &&& post.entries@[i].name@ == pre.entries@[i].name@
    &&& post.entries@[i].info == info
    &&& forall|j: int| 0 <= j < pre.entries@.len() && j != i ==> post.entries@[j] == pre.entries@[j]
}

/// Outcome of adding a catalog entry.
pub open spec fn add_beverage_post(
    pre: VendingMachine,
    post: VendingMachine,
    r: Result<Response, ContractError>,
    sender: Seq<u8>,
    name: Seq<u8>,
    amount: u64,
    price: u128,
) -> bool {
    if sender != pre.config.admin_addr@ {
        r == Err::<Response, ContractError>(ContractError::Unauthorized) && post == pre
    } else if price == 0 {
        r == Err::<Response, ContractError>(ContractError::InvalidZeroPrice) && post == pre
    } else if amount > MAX_AMOUNT {
        r == Err::<Response, ContractError>(ContractError::AmountTooBig) && post == pre
    } else if name.len() == 0 {
        r == Err::<Response, ContractError>(ContractError::InvalidName) && post == pre
    } else if pre.catalog.has(name) {
        r == Err::<Response, ContractError>(ContractError::IsAlreadyInVendingMachine) && post == pre
    } else {
        &&& (r matches Ok(Response::Added { name: rn, amount: ra, price: rp }) && rn@ == name && ra
            == amount && rp == price)
        &&& post.config == pre.config
        &&& catalog_inserted(pre.catalog, post.catalog, name, BeverageInfo { amount, price })
    }
}

/// Outcome of repricing a catalog entry.
pub open spec fn set_price_post(
    pre: VendingMachine,
    post: VendingMachine,
    r: Result<Response, ContractError>,
    sender: Seq<u8>,
    name: Seq<u8>,
    price: u128,
) -> bool {
    if sender != pre.config.admin_addr@ {
        r == Err::<Response, ContractError>(ContractError::Unauthorized) && post == pre
    } else if price == 0 {
        r == Err::<Response, ContractError>(ContractError::InvalidZeroAmount) && post == pre
    } else if !pre.catalog.has(name) {
        r == Err::<Response, ContractError>(ContractError::BeverageNotFound) && post == pre
    } else {
        &&& (r matches Ok(Response::Repriced { name: rn, price: rp }) && rn@ == name && rp == price)
        &&& post.config == pre.config
        &&& catalog_updated(
            pre.catalog,
            post.catalog,
            pre.catalog.index_of(name),
            BeverageInfo { amount: pre.catalog.info_of(name).amount, price },
        )
    }
}

/// Outcome of restocking a catalog entry.
pub open spec fn fill_up_beverage_post(
    pre: VendingMachine,
    post: VendingMachine,
    r: Result<Response, ContractError>,
    sender: Seq<u8>,
    name: Seq<u8>,
    amount: u64,
) -> bool {
    if sender != pre.config.admin_addr@ {
        r == Err::<Response, ContractError>(ContractError::Unauthorized) && post == pre
    } else if amount == 0 {
        r == Err::<Response, ContractError>(ContractError::InvalidZeroAmount) && post == pre
    } else if !pre.catalog.has(name) {
        r == Err::<Response, ContractError>(ContractError::BeverageNotFound) && post == pre
    } else if pre.catalog.info_of(name).amount + amount > MAX_AMOUNT {
        r == Err::<Response, ContractError>(ContractError::AmountTooBig) && post == pre
    } else {
        let stocked = (pre.catalog.info_of(name).amount + amount) as u64;
        &&& (r matches Ok(Response::Refilled { name: rn, amount: ra }) && rn@ == name && ra
            == stocked)
        &&& post.config == pre.config
        &&& catalog_updated(
            pre.catalog,
            post.catalog,
            pre.catalog.index_of(name),
            BeverageInfo { amount: stocked, price: pre.catalog.info_of(name).price },
        )
    }
}

/// Creates a machine: the sender becomes the immutable administrator
/// and the treasury mode is fixed.
pub fn instantiate(sender: Vec<u8>, msg: InstantiateMsg) -> (r: Result<
    VendingMachine,
    ContractError,
>)
    ensures
        ({
            let bad = sender@.len() == 0 || (msg.treasury matches TreasurySetup::External {
                token_addr,
            } && token_addr@.len() == 0);
            match r {
                Ok(m) => {
                    &&& !bad
                    &&& m.wf()
                    &&& m.config.admin_addr@ == sender@
                    &&& m.catalog.entries@.len() == 0
                    &&& match msg.treasury {
                        TreasurySetup::External { token_addr } => m.config.treasury
                            == Treasury::External { token_addr, collected: 0u128 },
                        TreasurySetup::SelfIssued { supply_cap } => (m.config.treasury
                            matches Treasury::SelfIssued {
                            balances,
                            total_supply,
                            supply_cap: cap,
                        } && balances.entries@.len() == 0 && total_supply == 0 && cap == supply_cap),
                    }
                },
                Err(e) => bad && e == ContractError::InvalidRecipient,
            }
        }),
{
    if sender.len() == 0 {
        return Err(ContractError::InvalidRecipient);
    }
    let treasury = match msg.treasury {
        TreasurySetup::External { token_addr } => {
            if token_addr.len() == 0 {
                return Err(ContractError::InvalidRecipient);
            }
            Treasury::External { token_addr, collected: 0 }
        },
        TreasurySetup::SelfIssued { supply_cap } => {
            let balances = Balances { entries: Vec::new() };
            proof {
                assert(balances.total() == 0);
            }
            Treasury::SelfIssued { balances, total_supply: 0, supply_cap }
        },
    };
    let m = VendingMachine {
        config: ContractConfig { admin_addr: sender, treasury },
        catalog: Catalog { entries: Vec::new() },
    };
    Ok(m)
}

/// Adds a beverage to the vending machine.
pub fn add_beverage(
    m: &mut VendingMachine,
    sender: &Vec<u8>,
    name: Vec<u8>,
    amount: u64,
    price: u128,
) -> (r: Result<Response, ContractError>)
    requires
        old(m).wf(),
    ensures
        final(m).wf(),
        add_beverage_post(*old(m), *final(m), r, sender@, name@, amount, price),
{
    if !bytes_eq(sender, &m.config.admin_addr) {
        return Err(ContractError::Unauthorized);
    }
    if price == 0 {
        return Err(ContractError::InvalidZeroPrice);
    }
    if amount > MAX_AMOUNT {
        return Err(ContractError::AmountTooBig);
    }
    if name.len() == 0 {
        return Err(ContractError::InvalidName);
    }
    if let Some(_) = m.catalog.find(&name) {
        return Err(ContractError::IsAlreadyInVendingMachine);
    }
    let resp_name = copy_bytes(&name);
    let info = BeverageInfo { amount, price };
    let ghost s0 = m.catalog.entries@;
    let bev = Beverage { name, info };
    let ghost b0 = bev;
    proof {
        assert(entry_ok(bev));
    }
    m.catalog.insert_sorted(bev);
    proof {
        crate::state::lemma_cut_lt_char(s0, b0.name@);
        s0.insert_ensures(cut_lt(s0, b0.name@), b0);
    }
    Ok(Response::Added { name: resp_name, amount, price })
}

/// Sets the price of a beverage.
pub fn set_price(m: &mut VendingMachine, sender: &Vec<u8>, name: Vec<u8>, price: u128) -> (r:
    Result<Response, ContractError>)
    requires
        old(m).wf(),
    ensures
        final(m).wf(),
        set_price_post(*old(m), *final(m), r, sender@, name@, price),
{
    if !bytes_eq(sender, &m.config.admin_addr) {
        return Err(ContractError::Unauthorized);
    }
    if price == 0 {
        return Err(ContractError::InvalidZeroAmount);
    }
    match m.catalog.find(&name) {
        None => Err(ContractError::BeverageNotFound),
        Some(i) => {
            proof {
                m.catalog.lemma_at_index(i as int);
            }
            let amount = m.catalog.entries[i].info.amount;
            m.catalog.update_info(i, BeverageInfo { amount, price });
            Ok(Response::Repriced { name, price })
        },
    }
}

/// Fills up the stock of a beverage.
pub fn fill_up_beverage(m: &mut VendingMachine, sender: &Vec<u8>, name: Vec<u8>, amount: u64) -> (r:
    Result<Response, ContractError>)
    requires
        old(m).wf(),
    ensures
        final(m).wf(),
        fill_up_beverage_post(*old(m), *final(m), r, sender@, name@, amount),
{
    if !bytes_eq(sender, &m.config.admin_addr) {
        return Err(ContractError::Unauthorized);
    }
    if amount == 0 {
        return Err(ContractError::InvalidZeroAmount);
    }
    match m.catalog.find(&name) {
        None => Err(ContractError::BeverageNotFound),
        Some(i) => {
            proof {
                m.catalog.lemma_at_index(i as int);
            }
            let cur = m.catalog.entries[i].info;
            if (cur.amount as u128) + (amount as u128) > MAX_AMOUNT as u128 {
                return Err(ContractError::AmountTooBig);
            }
            let stocked = cur.amount + amount;
            m.catalog.update_info(i, BeverageInfo { amount: stocked, price: cur.price });
            Ok(Response::Refilled { name, amount: stocked })
        },
    }
}

/// Spec view of tendered funds: the token and the amount sent.
pub open spec fn payment_view(p: Option<Payment>) -> Option<(Seq<u8>, u128)> {
    match p {
        Option::None => Option::None,
        Option::Some(x) => Option::Some((x.token_addr@, x.amount)),
    }
}

/// Outcome of purchasing one unit of a beverage. A purchase decrements
/// the stock by exactly one and moves exactly the price: into the
/// collected counter in external mode, from the buyer's balance to the
/// administrator's in self-issued mode.
pub open spec fn buy_beverage_post(
    pre: VendingMachine,
    post: VendingMachine,
    r: Result<Response, ContractError>,
    buyer: Seq<u8>,
    name: Seq<u8>,
    pay: Option<(Seq<u8>, u128)>,
) -> bool {
    let admin = pre.config.admin_addr@;
    if !pre.catalog.has(name) {
        r == Err::<Response, ContractError>(ContractError::BeverageNotFound) && post == pre
    } else {
        let i = pre.catalog.index_of(name);
        let info = pre.catalog.info_of(name);
        if info.amount == 0 {
            r == Err::<Response, ContractError>(ContractError::OutOfStock) && post == pre
        } else {
            match pre.config.treasury {
                Treasury::External { token_addr, collected } => match pay {
                    Option::None => r == Err::<Response, ContractError>(ContractError::WrongToken)
                        && post == pre,
                    Option::Some(p) => {
                        if p.0 != token_addr@ {
                            r == Err::<Response, ContractError>(ContractError::WrongToken) && post
                                == pre
                        } else if p.1 < info.price {
                            r == Err::<Response, ContractError>(ContractError::NotEnoughTokens)
                                && post == pre
                        } else if collected + info.price > u128::MAX {
                            r == Err::<Response, ContractError>(ContractError::Overflow) && post
                                == pre
                        } else {
                            &&& (r matches Ok(Response::Purchased { name: rn }) && rn@ == name)
                            &&& catalog_updated(
                                pre.catalog,
                                post.catalog,
                                i,
                                BeverageInfo { amount: (info.amount - 1) as u64, price: info.price },
                            )
                            &&& post.config.admin_addr == pre.config.admin_addr
                            &&& post.config.treasury == Treasury::External {
                                token_addr,
                                collected: (collected + info.price) as u128,
                            }
                        }
                    },
                },
                Treasury::SelfIssued { balances, total_supply, supply_cap } => {
                    if pay is Some {
                        r == Err::<Response, ContractError>(ContractError::WrongToken) && post
                            == pre
                    } else if balances.balance_of(buyer) < info.price {
                        r == Err::<Response, ContractError>(ContractError::NotEnoughTokens) && post
                            == pre
                    } else {
                        &&& (r matches Ok(Response::Purchased { name: rn }) && rn@ == name)
                        &&& catalog_updated(
                            pre.catalog,
                            post.catalog,
                            i,
                            BeverageInfo { amount: (info.amount - 1) as u64, price: info.price },
                        )
                        &&& post.config.admin_addr == pre.config.admin_addr
                        &&& (post.config.treasury matches Treasury::SelfIssued {
                            balances: b2,
                            total_supply: t2,
                            supply_cap: c2,
                        } && t2 == total_supply && c2 == supply_cap && b2.uniq() && (if buyer
                            == admin {
                            b2.balance_of(buyer) == balances.balance_of(buyer)
                        } else {
                            b2.balance_of(buyer) == balances.balance_of(buyer) - info.price
                                && b2.balance_of(admin) == balances.balance_of(admin) + info.price
                        }) && (forall|a: Seq<u8>|
                            a != buyer && a != admin ==> b2.balance_of(a) == balances.balance_of(
                                a,
                            )))
                    }
                },
            }
        }
    }
}

/// Sells one unit of a beverage against tendered funds (external mode)
/// or the buyer's recorded balance (self-issued mode).
pub fn buy_beverage(
    m: &mut VendingMachine,
    buyer: &Vec<u8>,
    name: Vec<u8>,
    payment: Option<Payment>,
) -> (r: Result<Response, ContractError>)
    requires
        old(m).wf(),
    ensures
        final(m).wf(),
        buy_beverage_post(*old(m), *final(m), r, buyer@, name@, payment_view(payment)),
{
    let i = match m.catalog.find(&name) {
        None => {
            return Err(ContractError::BeverageNotFound);
        },
        Some(i) => i,
    };
    proof {
        m.catalog.lemma_at_index(i as int);
    }
    let info = m.catalog.entries[i].info;
    if info.amount == 0 {
        return Err(ContractError::OutOfStock);
    }
    match &mut m.config.treasury {
        Treasury::External { token_addr, collected } => {
            match payment {
                None => {
                    return Err(ContractError::WrongToken);
                },
                Some(p) => {
                    if !bytes_eq(&p.token_addr, token_addr) {
                        return Err(ContractError::WrongToken);
                    }
                    if p.amount < info.price {
                        return Err(ContractError::NotEnoughTokens);
                    }
                    if *collected > u128::MAX - info.price {
                        return Err(ContractError::Overflow);
                    }
                    *collected = *collected + info.price;
                },
            }
        },
        Treasury::SelfIssued { balances, .. } => {
            if payment.is_some() {
                return Err(ContractError::WrongToken);
            }
            let bal = balances.balance(buyer);
            if bal < info.price {
                return Err(ContractError::NotEnoughTokens);
            }
            balances.debit(buyer, info.price);
            balances.credit(&m.config.admin_addr, info.price);
        },
    }
    m.catalog.update_info(i, BeverageInfo { amount: info.amount - 1, price: info.price });
    Ok(Response::Purchased { name })
}

/// Outcome of a withdrawal. In external mode the collected counter goes
/// down and a transfer instruction to the administrator is attached; in
/// self-issued mode the administrator's balance and the total supply go
/// down together.
pub open spec fn withdraw_post(
    pre: VendingMachine,
    post: VendingMachine,
    r: Result<Response, ContractError>,
    sender: Seq<u8>,
    amount: u128,
) -> bool {
    let admin = pre.config.admin_addr@;
    if sender != admin {
        r == Err::<Response, ContractError>(ContractError::Unauthorized) && post == pre
    } else {
        match pre.config.treasury {
            Treasury::External { token_addr, collected } => {
                if amount > collected {
                    r == Err::<Response, ContractError>(ContractError::NotEnoughTokens) && post
                        == pre
                } else {
                    &&& (r matches Ok(Response::Withdrawn { amount: ra, transfer: t }) && ra
                        == amount && (t matches Some(ti) && ti.token_addr@ == token_addr@
                        && ti.recipient@ == admin && ti.amount == amount))
                    &&& post.catalog == pre.catalog
                    &&& post.config.admin_addr == pre.config.admin_addr
                    &&& post.config.treasury == Treasury::External {
                        token_addr,
                        collected: (collected - amount) as u128,
                    }
                }
            },
            Treasury::SelfIssued { balances, total_supply, supply_cap } => {
                if amount > balances.balance_of(admin) {
                    r == Err::<Response, ContractError>(ContractError::NotEnoughTokens) && post
                        == pre
                } else {
                    &&& (r matches Ok(Response::Withdrawn { amount: ra, transfer: t }) && ra
                        == amount && t is None)
                    &&& post.catalog == pre.catalog
                    &&& post.config.admin_addr == pre.config.admin_addr
                    &&& (post.config.treasury matches Treasury::SelfIssued {
                        balances: b2,
                        total_supply: t2,
                        supply_cap: c2,
                    } && c2 == supply_cap && t2 == total_supply - amount && b2.uniq()
                        && b2.balance_of(admin) == balances.balance_of(admin) - amount && (forall|
                        a: Seq<u8>,
                    |
                        a != admin ==> b2.balance_of(a) == balances.balance_of(a)))
                }
            },
        }
    }
}

/// Withdraws collected funds (external mode) or burns part of the
/// administrator's own holding (self-issued mode).
pub fn withdraw(m: &mut VendingMachine, sender: &Vec<u8>, amount: u128) -> (r: Result<
    Response,
    ContractError,
>)
    requires
        old(m).wf(),
    ensures
        final(m).wf(),
        withdraw_post(*old(m), *final(m), r, sender@, amount),
{
    if !bytes_eq(sender, &m.config.admin_addr) {
        return Err(ContractError::Unauthorized);
    }
    match &mut m.config.treasury {
        Treasury::External { token_addr, collected } => {
            if amount > *collected {
                return Err(ContractError::NotEnoughTokens);
            }
            *collected = *collected - amount;
            let transfer = TransferInstruction {
                token_addr: copy_bytes(token_addr),
                recipient: copy_bytes(&m.config.admin_addr),
                amount,
            };
            Ok(Response::Withdrawn { amount, transfer: Some(transfer) })
        },
        Treasury::SelfIssued { balances, total_supply, .. } => {
            let bal = balances.balance(&m.config.admin_addr);
            if amount > bal {
                return Err(ContractError::NotEnoughTokens);
            }
            proof {
                balances.lemma_balance_le_total(m.config.admin_addr@);
            }
            balances.debit(&m.config.admin_addr, amount);
            *total_supply = *total_supply - amount;
            Ok(Response::Withdrawn { amount, transfer: None })
        },
    }
}

/// Outcome of issuing self-issued tokens to an account.
pub open spec fn give_tokens_post(
    pre: VendingMachine,
    post: VendingMachine,
    r: Result<Response, ContractError>,
    sender: Seq<u8>,
    address: Seq<u8>,
    tokens: u128,
) -> bool {
    if sender != pre.config.admin_addr@ {
        r == Err::<Response, ContractError>(ContractError::Unauthorized) && post == pre
    } else {
        match pre.config.treasury {
            Treasury::External { .. } => r == Err::<Response, ContractError>(
                ContractError::WrongMode,
            ) && post == pre,
            Treasury::SelfIssued { balances, total_supply, supply_cap } => {
                if total_supply + tokens > supply_cap {
                    r == Err::<Response, ContractError>(ContractError::CannotExceedCap) && post
                        == pre
                } else if address.len() == 0 {
                    r == Err::<Response, ContractError>(ContractError::InvalidRecipient) && post
                        == pre
                } else {
                    &&& (r matches Ok(Response::Granted { address: ra, balance: rb }) && ra@
                        == address && rb == balances.balance_of(address) + tokens)
                    &&& post.catalog == pre.catalog
                    &&& post.config.admin_addr == pre.config.admin_addr
                    &&& (post.config.treasury matches Treasury::SelfIssued {
                        balances: b2,
                        total_supply: t2,
                        supply_cap: c2,
                    } && c2 == supply_cap && t2 == total_supply + tokens && b2.uniq()
                        && b2.balance_of(address) == balances.balance_of(address) + tokens && (
                    forall|a: Seq<u8>|
                        a != address ==> b2.balance_of(a) == balances.balance_of(a)))
                }
            },
        }
    }
}

/// Issues new tokens to `address`, bounded by the supply cap.
pub fn give_tokens(
    m: &mut VendingMachine,
    sender: &Vec<u8>,
    address: Vec<u8>,
    tokens: u128,
) -> (r: Result<Response, ContractError>)
    requires
        old(m).wf(),
    ensures
        final(m).wf(),
        give_tokens_post(*old(m), *final(m), r, sender@, address@, tokens),
{
    if !bytes_eq(sender, &m.config.admin_addr) {
        return Err(ContractError::Unauthorized);
    }
    match &mut m.config.treasury {
        Treasury::External { .. } => Err(ContractError::WrongMode),
        Treasury::SelfIssued { balances, total_supply, supply_cap } => {
            if tokens > *supply_cap - *total_supply {
                return Err(ContractError::CannotExceedCap);
            }
            if address.len() == 0 {
                return Err(ContractError::InvalidRecipient);
            }
            let bal = balances.balance(&address);
            proof {
                balances.lemma_balance_le_total(address@);
            }
            *total_supply = *total_supply + tokens;
            balances.credit(&address, tokens);
            Ok(Response::Granted { address, balance: bal + tokens })
        },
    }
}

/// Applies the hook message carried by an inbound token transfer: the
/// caller is the token contract, `buyer` the account that sent it.
pub fn receive(
    m: &mut VendingMachine,
    sender: &Vec<u8>,
    buyer: Vec<u8>,
    amount: u128,
    msg: ReceiveMsg,
) -> (r: Result<Response, ContractError>)
    requires
        old(m).wf(),
    ensures
        final(m).wf(),
        match msg {
            ReceiveMsg::BuyBeverage { name } => buy_beverage_post(
                *old(m),
                *final(m),
                r,
                buyer@,
                name@,
                Some((sender@, amount)),
            ),
        },
{
    match msg {
        ReceiveMsg::BuyBeverage { name } => {
            let payment = Payment { token_addr: copy_bytes(sender), amount };
            buy_beverage(m, &buyer, name, Some(payment))
        },
    }
}

/// Operations reserved to the administrator.
pub open spec fn is_management(msg: ExecuteMsg) -> bool {
    match msg {
        ExecuteMsg::AddBeverage { .. } => true,
        ExecuteMsg::SetPrice { .. } => true,
        ExecuteMsg::FillUpBeverage { .. } => true,
        ExecuteMsg::BuyBeverage { .. } => false,
        ExecuteMsg::Receive { .. } => false,
        ExecuteMsg::Withdraw { .. } => true,
        ExecuteMsg::GiveTokens { .. } => true,
    }
}

/// Outcome of one dispatched operation.
pub open spec fn execute_post(
    pre: VendingMachine,
    post: VendingMachine,
    r: Result<Response, ContractError>,
    sender: Seq<u8>,
    msg: ExecuteMsg,
) -> bool {
    match msg {
        ExecuteMsg::AddBeverage { name, amount, price } => add_beverage_post(
            pre,
            post,
            r,
            sender,
            name@,
            amount,
            price,
        ),
        ExecuteMsg::SetPrice { name, price } => set_price_post(pre, post, r, sender, name@, price),
        ExecuteMsg::FillUpBeverage { name, amount } => fill_up_beverage_post(
            pre,
            post,
            r,
            sender,
            name@,
            amount,
        ),
        ExecuteMsg::BuyBeverage { name } => buy_beverage_post(
            pre,
            post,
            r,
            sender,
            name@,
            Option::None,
        ),
        ExecuteMsg::Receive { sender: buyer, amount, msg: rmsg } => match rmsg {
            ReceiveMsg::BuyBeverage { name } => buy_beverage_post(
                pre,
                post,
                r,
                buyer@,
                name@,
                Some((sender, amount)),
            ),
        },
        ExecuteMsg::Withdraw { amount } => withdraw_post(pre, post, r, sender, amount),
        ExecuteMsg::GiveTokens { address, tokens } => give_tokens_post(
            pre,
            post,
            r,
            sender,
            address@,
            tokens,
        ),
    }
}

/// Dispatches one operation. Every management operation invoked by a
/// caller other than the administrator fails with `Unauthorized` and
/// leaves the state unchanged.
pub fn execute(m: &mut VendingMachine, sender: &Vec<u8>, msg: ExecuteMsg) -> (r: Result<
    Response,
    ContractError,
>)
    requires
        old(m).wf(),
    ensures
        final(m).wf(),
        execute_post(*old(m), *final(m), r, sender@, msg),
        is_management(msg) && sender@ != old(m).config.admin_addr@ ==> r == Err::<
            Response,
            ContractError,
        >(ContractError::Unauthorized) && *final(m) == *old(m),
{
    match msg {
        ExecuteMsg::AddBeverage { name, amount, price } => add_beverage(
            m,
            sender,
            name,
            amount,
            price,
        ),
        ExecuteMsg::SetPrice { name, price } => set_price(m, sender, name, price),
        ExecuteMsg::FillUpBeverage { name, amount } => fill_up_beverage(m, sender, name, amount),
        ExecuteMsg::BuyBeverage { name } => buy_beverage(m, sender, name, None),
        ExecuteMsg::Receive { sender: buyer, amount, msg: rmsg } => receive(
            m,
            sender,
            buyer,
            amount,
            rmsg,
        ),
        ExecuteMsg::Withdraw { amount } => withdraw(m, sender, amount),
        ExecuteMsg::GiveTokens { address, tokens } => give_tokens(m, sender, address, tokens),
    }
}

/// Every catalog entry of a well-formed machine keeps its stock between
/// zero and the maximum and its price positive; since every transition
/// preserves well-formedness, this holds at every observation point.
pub proof fn lemma_stock_bounds(m: VendingMachine)
    requires
        m.wf(),
    ensures
        forall|i: int|
            0 <= i < m.catalog.entries@.len() ==> (#[trigger] m.catalog.entries@[i]).info.amount
                <= MAX_AMOUNT && m.catalog.entries@[i].info.price > 0,
{
    assert forall|i: int|
        0 <= i < m.catalog.entries@.len() implies (#[trigger] m.catalog.entries@[i]).info.amount
        <= MAX_AMOUNT && m.catalog.entries@[i].info.price > 0 by {
        assert(entry_ok(m.catalog.entries@[i]));
    }
}

/// In a well-formed self-issued treasury the balances sum exactly to
/// the total supply, which never exceeds the cap; with every transition
/// preserving well-formedness, this holds at every observation point.
pub proof fn lemma_supply_invariant(m: VendingMachine)
    requires
        m.wf(),
    ensures
        m.config.treasury matches Treasury::SelfIssued { balances, total_supply, supply_cap }
            ==> balances.total() == total_supply && total_supply <= supply_cap,
{
}

/// Purchasing a beverage with stock `s` moves the stock to exactly
/// `s - 1`, never less; purchasing with stock zero fails with
/// `OutOfStock` and leaves the state unchanged.
pub proof fn lemma_purchase_decrements(
    pre: VendingMachine,
    post: VendingMachine,
    r: Result<Response, ContractError>,
    buyer: Seq<u8>,
    name: Seq<u8>,
    pay: Option<(Seq<u8>, u128)>,
)
    requires
        pre.wf(),
        post.wf(),
        buy_beverage_post(pre, post, r, buyer, name, pay),
    ensures
        r is Ok ==> pre.catalog.has(name) && pre.catalog.info_of(name).amount >= 1
            && post.catalog.has(name) && post.catalog.info_of(name).amount == pre.catalog.info_of(
            name,
        ).amount - 1,
        pre.catalog.has(name) && pre.catalog.info_of(name).amount == 0 ==> r == Err::<
            Response,
            ContractError,
        >(ContractError::OutOfStock) && post == pre,
{
    if r is Ok {
        let i = pre.catalog.index_of(name);
        assert(post.catalog.entries@[i].name@ == name);
        post.catalog.lemma_at_index(i);
    }
}

/// An issuance that would push the total supply above the cap fails
/// with `CannotExceedCap` and leaves the supply and every balance
/// unchanged.
pub proof fn lemma_cap_enforced(
    pre: VendingMachine,
    post: VendingMachine,
    r: Result<Response, ContractError>,
    sender: Seq<u8>,
    address: Seq<u8>,
    tokens: u128,
)
    requires
        pre.wf(),
        post.wf(),
        give_tokens_post(pre, post, r, sender, address, tokens),
        sender == pre.config.admin_addr@,
        pre.config.treasury is SelfIssued,
        pre.config.treasury.spec_total_supply() + tokens > pre.config.treasury.spec_supply_cap(),
    ensures
        r == Err::<Response, ContractError>(ContractError::CannotExceedCap),
        post == pre,
        post.config.treasury.spec_total_supply() == pre.config.treasury.spec_total_supply(),
        forall|a: Seq<u8>|
            post.config.treasury.spec_balance(a) == pre.config.treasury.spec_balance(a),
{
}

} // verus!
