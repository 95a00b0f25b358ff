//! The accounts on the other side of payments in and out.
//!
//! The platform has counter-accounts of its own for each currency. There are two
//! of them, so that a payment on one of the counter-accounts has another account
//! on its other side.
use vstd::prelude::*;

use crate::domain::Currency;
use crate::ident::Uuid;
use crate::text::same_text;

verus! {

/// The counter-accounts for one currency: the usual one, and the one that stands
/// in for it. They differ.
#[derive(Debug, PartialEq, Eq, Structural)]
pub struct CounterAccounts {
    usual: Uuid,
    reserve: Uuid,
}

impl Clone for CounterAccounts {
    fn clone(&self) -> (r: Self)
        ensures
            r == *self,
            r.valid(),
    {
        proof {
            use_type_invariant(self);
        }
        CounterAccounts { usual: self.usual, reserve: self.reserve }
    }
}

impl Copy for CounterAccounts {

}

impl CounterAccounts {
    #[verifier::type_invariant]
    spec fn differ(self) -> bool {
        self.usual != self.reserve
    }

    /// The usual counter-account.
    pub closed spec fn usual(self) -> Uuid {
        self.usual
    }

    /// The counter-account that stands in for the usual one.
    pub closed spec fn reserve(self) -> Uuid {
        self.reserve
    }

    /// Whether the two differ, as they always do.
    pub open spec fn valid(self) -> bool {
        self.usual() != self.reserve()
    }

    /// The account on the other side of a payment on `account`.
    pub open spec fn facing(self, account: Uuid) -> Uuid {
        if account == self.usual() {
            self.reserve()
        } else {
            self.usual()
        }
    }

    /// Counter-accounts, if the two differ.
    pub fn new(usual: Uuid, reserve: Uuid) -> (r: Option<CounterAccounts>)
        ensures
            r is Some <==> usual != reserve,
            r matches Some(c) ==> c.usual() == usual && c.reserve() == reserve,
    {
        if usual == reserve {
            None
        } else {
            Some(CounterAccounts { usual, reserve })
        }
    }

    /// The account on the other side of a payment on `account`. It is another
    /// one.
    pub fn face(&self, account: Uuid) -> (r: Uuid)
        ensures
            r == self.facing(account),
            r != account,
            self.valid(),
    {
        proof {
            use_type_invariant(self);
        }
        if account == self.usual {
            self.reserve
        } else {
            self.usual
        }
    }
}

/// The configured counter-accounts, each with the code of its currency.
pub open spec fn accounts_view(accounts: Seq<(String, Uuid)>) -> Seq<(Seq<char>, Uuid)> {
    accounts.map_values(|account: (String, Uuid)| (account.0@, account.1))
}

/// The first account with a currency, other than a given one.
pub open spec fn first_account(
    accounts: Seq<(Seq<char>, Uuid)>,
    currency: Seq<char>,
    except: Option<Uuid>,
) -> Option<Uuid>
    decreases accounts.len(),
{
    if accounts.len() == 0 {
        None
    } else if accounts[0].0 == currency && except != Some(accounts[0].1) {
        Some(accounts[0].1)
    } else {
        first_account(accounts.skip(1), currency, except)
    }
}

/// Whether a currency has two counter-accounts.
pub open spec fn is_served(accounts: Seq<(Seq<char>, Uuid)>, currency: Seq<char>) -> bool {
    &&& first_account(accounts, currency, None) is Some
    &&& first_account(accounts, currency, first_account(accounts, currency, None)) is Some
}

fn find_account(currency: &str, accounts: &Vec<(String, Uuid)>, except: Option<Uuid>) -> (r: Option<
    Uuid,
>)
    ensures
        r == first_account(accounts_view(accounts@), currency@, except),
{
    let ghost all = accounts_view(accounts@);
    let mut i: usize = 0;
    assert(all.skip(0) =~= all);
    while i < accounts.len()
        invariant
            i <= accounts@.len(),
            all == accounts_view(accounts@),
            first_account(all, currency@, except) == first_account(
                all.skip(i as int),
                currency@,
                except,
            ),
        decreases accounts@.len() - i,
    {
        let id = accounts[i].1;
        assert(all.skip(i as int)[0] == (accounts@[i as int].0@, id));
        assert(all.skip(i as int).skip(1) =~= all.skip(i + 1));
        let excepted = match except {
            Some(other) => other == id,
            None => false,
        };
        if !excepted && same_text(accounts[i].0.as_str(), currency) {
            return Some(id);
        }
        i = i + 1;
    }
    None
}

/// The usual counter-account for a currency: the first that is configured for it,
/// and `None` exactly where there is none.
pub fn counter_account(currency: &str, accounts: &Vec<(String, Uuid)>) -> (r: Option<Uuid>)
    ensures
        r == first_account(accounts_view(accounts@), currency@, None),
{
    find_account(currency, accounts, None)
}

/// The counter-accounts for a currency: the first that is configured for it, and
/// the first that differs from that one. There are none where fewer than two are
/// configured.
pub fn counter_accounts(currency: &str, accounts: &Vec<(String, Uuid)>) -> (r: Option<
    CounterAccounts,
>)
    ensures
        r is Some <==> is_served(accounts_view(accounts@), currency@),
        r matches Some(c) ==> {
            let all = accounts_view(accounts@);
            &&& Some(c.usual()) == first_account(all, currency@, None)
            &&& Some(c.reserve()) == first_account(all, currency@, Some(c.usual()))
        },
{
    let usual = counter_account(currency, accounts)?;
    let reserve = find_account(currency, accounts, Some(usual))?;
    proof {
        law_excepted_account_is_not_found(accounts_view(accounts@), currency@, usual);
    }
    CounterAccounts::new(usual, reserve)
}

/// A currency that payments cannot be made in, as it has fewer than two
/// counter-accounts; `None` where every currency has them.
pub fn unserved_currency(accounts: &Vec<(String, Uuid)>) -> (r: Option<Currency>)
    ensures
        r is None <==> forall|c: Currency|
            is_served(accounts_view(accounts@), #[trigger] c.code()),
        r matches Some(c) ==> !is_served(accounts_view(accounts@), c.code()),
{
    let currencies = [
        Currency::Usd,
        Currency::Eur,
        Currency::Gbp,
        Currency::Jpy,
        Currency::Chf,
        Currency::Cad,
        Currency::Aud,
    ];
    let ghost all = accounts_view(accounts@);
    let mut i: usize = 0;
    while i < 7
        invariant
            i <= 7,
            all == accounts_view(accounts@),
            currencies@ == seq![
                Currency::Usd,
                Currency::Eur,
                Currency::Gbp,
                Currency::Jpy,
                Currency::Chf,
                Currency::Cad,
                Currency::Aud,
            ],
            forall|j: int| 0 <= j < i ==> is_served(all, (#[trigger] currencies@[j]).code()),
        decreases 7 - i,
    {
        if counter_accounts(currencies[i].as_str(), accounts).is_none() {
            return Some(currencies[i]);
        }
        i = i + 1;
    }
    proof {
        assert forall|c: Currency| is_served(all, #[trigger] c.code()) by {
            match c {
                Currency::Usd => assert(currencies@[0] == c),
                Currency::Eur => assert(currencies@[1] == c),
                Currency::Gbp => assert(currencies@[2] == c),
                Currency::Jpy => assert(currencies@[3] == c),
                Currency::Chf => assert(currencies@[4] == c),
                Currency::Cad => assert(currencies@[5] == c),
                Currency::Aud => assert(currencies@[6] == c),
            }
        }
    }
    None
}

/// What is found is one of the accounts with the currency, and not the excepted
/// one.
pub proof fn law_excepted_account_is_not_found(
    accounts: Seq<(Seq<char>, Uuid)>,
    currency: Seq<char>,
    except: Uuid,
)
    ensures
        first_account(accounts, currency, Some(except)) != Some(except),
        first_account(accounts, currency, Some(except)) matches Some(id) ==> accounts.contains(
            (currency, id),
        ),
    decreases accounts.len(),
{
    if accounts.len() > 0 {
        let rest = accounts.skip(1);
        law_excepted_account_is_not_found(rest, currency, except);
        if let Some(id) = first_account(accounts, currency, Some(except)) {
            if accounts[0] != (currency, id) {
                let k = rest.index_of((currency, id));
                assert(rest[k] == (currency, id));
                assert(accounts[k + 1] == (currency, id));
            }
        }
    }
}

/// A payment on any account, a counter-account too, has another account on its
/// other side.
pub proof fn law_counter_account_is_another(counters: CounterAccounts, account: Uuid)
    requires
        counters.valid(),
    ensures
        counters.facing(account) != account,
        counters.facing(account) == counters.usual() || counters.facing(account)
            == counters.reserve(),
{
}

/// What is found is the first account with the currency, the excepted one left out,
/// and nothing is found exactly where there is none.
pub proof fn law_first_account_is_found(
    accounts: Seq<(Seq<char>, Uuid)>,
    currency: Seq<char>,
    except: Option<Uuid>,
)
    ensures
        first_account(accounts, currency, except) is None <==> forall|i: int|
            0 <= i < accounts.len() ==> (#[trigger] accounts[i]).0 != currency || except == Some(
                accounts[i].1,
            ),
        first_account(accounts, currency, except) matches Some(id) ==> exists|i: int|
            0 <= i < accounts.len() && #[trigger] accounts[i] == (currency, id) && except != Some(
                id,
            ) && forall|j: int|
                0 <= j < i ==> (#[trigger] accounts[j]).0 != currency || except == Some(
                    accounts[j].1,
                ),
    decreases accounts.len(),
{
    if accounts.len() > 0 {
        let rest = accounts.skip(1);
        law_first_account_is_found(rest, currency, except);
        if accounts[0].0 == currency && except != Some(accounts[0].1) {
            assert(accounts[0] == (currency, accounts[0].1));
        } else {
            if let Some(id) = first_account(rest, currency, except) {
                let i = choose|i: int|
                    0 <= i < rest.len() && #[trigger] rest[i] == (currency, id) && except != Some(
                        id,
                    ) && forall|j: int|
                        0 <= j < i ==> (#[trigger] rest[j]).0 != currency || except == Some(
                            rest[j].1,
                        );
                assert(accounts[i + 1] == (currency, id));
                assert forall|j: int| 0 <= j < i + 1 implies (#[trigger] accounts[j]).0 != currency
                    || except == Some(accounts[j].1) by {
                    if j > 0 {
                        assert(rest[j - 1] == accounts[j]);
                    }
                }
            } else {
                assert forall|i: int| 0 <= i < accounts.len() implies (#[trigger] accounts[i]).0
                    != currency || except == Some(accounts[i].1) by {
                    if i > 0 {
                        assert(rest[i - 1] == accounts[i]);
                    }
                }
            }
            if first_account(rest, currency, except) is Some {
                let k = choose|k: int|
                    0 <= k < rest.len() && (#[trigger] rest[k]).0 == currency && except != Some(
                        rest[k].1,
                    );
                assert(accounts[k + 1] == rest[k]);
            }
        }
    }
}

/// A payment has the usual counter-account on its other side, unless it is a
/// payment on that one: then it has the reserve.
pub proof fn law_usual_counter_account_is_used(counters: CounterAccounts, account: Uuid)
    ensures
        account != counters.usual() ==> counters.facing(account) == counters.usual(),
        counters.facing(counters.usual()) == counters.reserve(),
{
}

/// A currency is served exactly where two different accounts are configured for it.
pub proof fn law_served_currencies_have_two_accounts(
    accounts: Seq<(Seq<char>, Uuid)>,
    currency: Seq<char>,
)
    ensures
        is_served(accounts, currency) <==> exists|i: int, j: int|
            0 <= i < accounts.len() && 0 <= j < accounts.len() && (#[trigger] accounts[i]).0
                == currency && (#[trigger] accounts[j]).0 == currency && accounts[i].1
                != accounts[j].1,
{
    let first = first_account(accounts, currency, None);
    law_first_account_is_found(accounts, currency, None);
    law_first_account_is_found(accounts, currency, first);
    if is_served(accounts, currency) {
        let second = first_account(accounts, currency, first)->0;
        let i = choose|i: int|
            0 <= i < accounts.len() && #[trigger] accounts[i] == (currency, first->0);
        let j = choose|j: int|
            0 <= j < accounts.len() && #[trigger] accounts[j] == (currency, second) && first
                != Some(second);
        assert(accounts[i].0 == currency && accounts[j].0 == currency && accounts[i].1
            != accounts[j].1);
    }
}

/// The configured accounts, as contracts see them, are those that are configured.
pub proof fn law_accounts_view_keeps_the_accounts(accounts: Seq<(String, Uuid)>, i: int)
    requires
        0 <= i < accounts.len(),
    ensures
        accounts_view(accounts).len() == accounts.len(),
        accounts_view(accounts)[i] == (accounts[i].0@, accounts[i].1),
{
}

} // verus!
