//! The accounts to check.

use crate::text;
use vstd::hash_set::StringHashSet;
use vstd::prelude::*;

verus! {

/// The items of a list that do not occur before, in the order of the list.
pub open spec fn first_occurrences(list: Seq<Seq<char>>) -> Seq<Seq<char>>
    decreases list.len(),
{
    if list.len() == 0 {
        Seq::empty()
    } else if list.drop_last().contains(list.last()) {
        first_occurrences(list.drop_last())
    } else {
        first_occurrences(list.drop_last()).push(list.last())
    }
}

/// The accounts of a list, each where it occurs first.
pub fn unique_accounts(all: &Vec<String>) -> (unique: Vec<String>)
    ensures
        text::views(unique@) == first_occurrences(text::views(all@)),
{
    let ghost list = text::views(all@);
    let mut seen = StringHashSet::new();
    let mut unique: Vec<String> = Vec::new();
    let mut i: usize = 0;
    assert(text::views(unique@) =~= first_occurrences(list.take(0)));
    while i < all.len()
        invariant
            i <= all.len(),
            list == text::views(all@),
            forall|item: Seq<char>| #[trigger]
                seen@.contains(item) <==> list.take(i as int).contains(item),
            text::views(unique@) == first_occurrences(list.take(i as int)),
        decreases all.len() - i,
    {
        let ghost shorter = list.take(i as int);
        let ghost longer = list.take(i + 1);
        let ghost before = text::views(unique@);
        let ghost known = seen@;
        assert(longer.drop_last() == shorter);
        assert(longer.last() == all@[i as int]@);
        if seen.insert(all[i].clone()) {
            unique.push(all[i].clone());
            assert(text::views(unique@) =~= before.push(all@[i as int]@));
        }
        assert forall|item: Seq<char>| #[trigger] seen@.contains(item) <==> longer.contains(item) by {
            if longer.contains(item) {
                let at = choose|at: int| 0 <= at < longer.len() && longer[at] == item;
                if at < i {
                    assert(shorter[at] == item);
                    assert(known.contains(item));
                }
            }
            if known.contains(item) {
                let at = choose|at: int| 0 <= at < shorter.len() && shorter[at] == item;
                assert(longer[at] == item);
            }
            assert(longer[i as int] == all@[i as int]@);
        }
        i += 1;
    }
    assert(list.take(i as int) == list);
    unique
}

/// Why there are no accounts to check.
#[derive(Debug)]
pub enum AccountsError {
    /// The list of accounts is not a JSON array of strings.
    Unreadable(String),
    /// No account was named.
    NoneGiven,
}

/// What a failure to collect accounts says.
pub enum AccountsErrorView {
    Unreadable(Seq<char>),
    NoneGiven,
}

impl View for AccountsError {
    type V = AccountsErrorView;

    open spec fn view(&self) -> AccountsErrorView {
        match self {
            AccountsError::Unreadable(failure) => AccountsErrorView::Unreadable(failure@),
            AccountsError::NoneGiven => AccountsErrorView::NoneGiven,
        }
    }
}

impl AccountsErrorView {
    /// The failure in words.
    pub open spec fn message(self) -> Seq<char> {
        match self {
            AccountsErrorView::Unreadable(failure) => failure,
            AccountsErrorView::NoneGiven => {
                "No accounts specified. Use --account or --accounts to specify at least one account."@
            },
        }
    }
}

impl AccountsError {
    /// The failure in words.
    pub fn message(&self) -> (message: String)
        ensures
            message@ == self@.message(),
    {
        match self {
            AccountsError::Unreadable(failure) => failure.clone(),
            AccountsError::NoneGiven => {
                "No accounts specified. Use --account or --accounts to specify at least one account.".to_owned()
            },
        }
    }
}

/// What an attempt to collect accounts says.
pub open spec fn accounts_view(accounts: Result<Vec<String>, AccountsError>) -> Result<
    Seq<Seq<char>>,
    AccountsErrorView,
> {
    match accounts {
        Ok(accounts) => Ok(text::views(accounts@)),
        Err(failure) => Err(failure@),
    }
}

/// The accounts to check, out of those named one by one and those listed; there
/// has to be one.
pub open spec fn merged(given: Seq<Seq<char>>, listed: Seq<Seq<char>>) -> Result<
    Seq<Seq<char>>,
    AccountsErrorView,
> {
    if given.len() + listed.len() == 0 {
        Err(AccountsErrorView::NoneGiven)
    } else {
        Ok(first_occurrences(given + listed))
    }
}

/// The accounts to check, out of those named one by one and those listed.
pub fn merge_accounts(given: &Vec<String>, listed: &Vec<String>) -> (accounts: Result<
    Vec<String>,
    AccountsError,
>)
    ensures
        accounts_view(accounts) == merged(text::views(given@), text::views(listed@)),
{
    let mut all: Vec<String> = Vec::new();
    let mut i: usize = 0;
    while i < given.len()
        invariant
            i <= given.len(),
            text::views(all@) == text::views(given@).take(i as int),
        decreases given.len() - i,
    {
        let ghost before = text::views(all@);
        all.push(given[i].clone());
        assert(text::views(all@) =~= before.push(given@[i as int]@));
        assert(text::views(given@).take(i + 1) =~= before.push(given@[i as int]@));
        i += 1;
    }
    let mut j: usize = 0;
    assert(text::views(all@) =~= text::views(given@) + text::views(listed@).take(0));
    while j < listed.len()
        invariant
            j <= listed.len(),
            text::views(all@) == text::views(given@) + text::views(listed@).take(j as int),
        decreases listed.len() - j,
    {
        let ghost before = text::views(all@);
        all.push(listed[j].clone());
        assert(text::views(all@) =~= before.push(listed@[j as int]@));
        assert(text::views(given@) + text::views(listed@).take(j + 1) =~= before.push(
            listed@[j as int]@,
        ));
        j += 1;
    }
    assert(text::views(all@) =~= text::views(given@) + text::views(listed@));
    let unique = unique_accounts(&all);
    proof {
        lemma_first_occurrences_empty(text::views(all@));
    }
    if unique.len() == 0 {
        return Err(AccountsError::NoneGiven);
    }
    Ok(unique)
}

/// What `serde_json::from_str` makes of a text as a list of strings: the
/// strings, or how the error reads.
pub uninterp spec fn json_strings(document: Seq<char>) -> Result<Seq<Seq<char>>, Seq<char>>;

/// Calls `serde_json::from_str` for a `Vec<String>`.
///
/// Trusted: the outcome depends on the text alone. Which strings a text lists,
/// and how the error reads, is left to `serde_json`.
#[verifier::external_body]
fn parse_strings(document: &str) -> (list: Result<Vec<String>, String>)
    ensures
        match list {
            Ok(list) => json_strings(document@) == Ok::<Seq<Seq<char>>, Seq<char>>(
                text::views(list@),
            ),
            Err(failure) => json_strings(document@) == Err::<Seq<Seq<char>>, Seq<char>>(failure@),
        },
{
    match serde_json::from_str::<Vec<String>>(document) {
        Ok(list) => Ok(list),
        Err(err) => Err(err.to_string()),
    }
}

/// The accounts to check, where the listed ones are the text of a JSON file.
pub open spec fn collected(given: Seq<Seq<char>>, listing: Option<Seq<char>>) -> Result<
    Seq<Seq<char>>,
    AccountsErrorView,
> {
    match listing {
        None => merged(given, Seq::empty()),
        Some(document) => match json_strings(document) {
            Ok(listed) => merged(given, listed),
            Err(failure) => Err(AccountsErrorView::Unreadable(failure)),
        },
    }
}

/// The accounts to check, out of those named one by one and those that a JSON
/// file lists.
pub fn collect_accounts(given: &Vec<String>, listing: Option<&String>) -> (accounts: Result<
    Vec<String>,
    AccountsError,
>)
    ensures
        accounts_view(accounts) == collected(
            text::views(given@),
            match listing {
                Some(document) => Some(document@),
                None => None,
            },
        ),
{
    match listing {
        None => {
            let none: Vec<String> = Vec::new();
            assert(text::views(none@) =~= Seq::empty());
            merge_accounts(given, &none)
        },
        Some(document) => match parse_strings(document.as_str()) {
            Ok(listed) => merge_accounts(given, &listed),
            Err(failure) => Err(AccountsError::Unreadable(failure)),
        },
    }
}

proof fn lemma_first_occurrences_empty(list: Seq<Seq<char>>)
    ensures
        first_occurrences(list).len() == 0 <==> list.len() == 0,
    decreases list.len(),
{
    if list.len() > 0 {
        lemma_first_occurrences_empty(list.drop_last());
    }
}

/// Removing duplicates keeps every account.
pub proof fn law_unique_keeps_accounts(list: Seq<Seq<char>>, account: Seq<char>)
    ensures
        first_occurrences(list).contains(account) <==> list.contains(account),
    decreases list.len(),
{
    if list.len() > 0 {
        let shorter = list.drop_last();
        let unique = first_occurrences(shorter);
        law_unique_keeps_accounts(shorter, account);
        assert(list[list.len() - 1] == list.last());
        if list.contains(account) && account != list.last() {
            let at = choose|at: int| 0 <= at < list.len() && list[at] == account;
            assert(shorter[at] == account);
        }
        if shorter.contains(account) {
            let at = choose|at: int| 0 <= at < shorter.len() && shorter[at] == account;
            assert(list[at] == account);
        }
        if unique.contains(account) {
            let at = choose|at: int| 0 <= at < unique.len() && unique[at] == account;
            assert(unique.push(list.last())[at] == account);
        }
        assert(unique.push(list.last())[unique.len() as int] == list.last());
    }
}

/// Removing duplicates leaves none.
pub proof fn law_unique_has_no_duplicates(list: Seq<Seq<char>>)
    ensures
        first_occurrences(list).no_duplicates(),
    decreases list.len(),
{
    if list.len() > 0 {
        law_unique_has_no_duplicates(list.drop_last());
        law_unique_keeps_accounts(list.drop_last(), list.last());
        let unique = first_occurrences(list.drop_last());
        assert forall|i: int| 0 <= i < unique.len() implies unique.contains(
            #[trigger] unique[i],
        ) by {}
    }
}

/// Removing duplicates changes nothing where there are none.
pub proof fn law_unique_is_idempotent(list: Seq<Seq<char>>)
    requires
        list.no_duplicates(),
    ensures
        first_occurrences(list) == list,
    decreases list.len(),
{
    if list.len() > 0 {
        let shorter = list.drop_last();
        law_unique_is_idempotent(shorter);
        if shorter.contains(list.last()) {
            let at = choose|at: int| 0 <= at < shorter.len() && shorter[at] == list.last();
            assert(list[at] == list[list.len() - 1]);
        }
        assert(shorter.push(list.last()) == list);
    }
}

/// Of two accounts that are left, the one that comes first also came first in
/// the list: it stands at a place up to which the other does not.
pub proof fn law_unique_keeps_order(list: Seq<Seq<char>>, i: int, j: int)
    requires
        0 <= i < j < first_occurrences(list).len(),
    ensures
        exists|at: int|
            0 <= at < list.len() && #[trigger] list[at] == first_occurrences(list)[i] && !list.take(
                at + 1,
            ).contains(first_occurrences(list)[j]),
    decreases list.len(),
{
    let shorter = list.drop_last();
    let unique = first_occurrences(shorter);
    if j < unique.len() {
        law_unique_keeps_order(shorter, i, j);
        let at = choose|at: int|
            0 <= at < shorter.len() && #[trigger] shorter[at] == unique[i] && !shorter.take(
                at + 1,
            ).contains(unique[j]);
        assert(list[at] == shorter[at]);
        assert(list.take(at + 1) == shorter.take(at + 1));
    } else {
        assert(unique.contains(unique[i]));
        law_unique_keeps_accounts(shorter, unique[i]);
        let at = choose|at: int| 0 <= at < shorter.len() && shorter[at] == unique[i];
        assert(list[at] == unique[i]);
        let head = list.take(at + 1);
        if head.contains(list.last()) {
            let place = choose|place: int| 0 <= place < head.len() && head[place] == list.last();
            assert(shorter[place] == list.last());
        }
    }
}

} // verus!
