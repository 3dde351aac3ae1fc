//! What holds of the state over time: of every state that a daemon can reach, and of every
//! step from one state to the next.

use crate::config::{account_named, has_name, names_distinct, names_of, AccountView};
use crate::server::state::{fresh_entry, AccountIdView, StateView, TokenState};
use vstd::prelude::*;

verus! {

/// One change of the state.
pub enum Step {
    /// A guard is handed out.
    Lock,
    /// A configuration replaces the one in use.
    Reload { accounts: Seq<AccountView> },
    /// A token state replaces that of the account `name`.
    Replace { name: Seq<char>, tokenstate: TokenState },
}

/// Whether `step` can be taken in the state `s`: a configuration has distinct names, and only
/// a configured account has a token state to replace.
pub open spec fn enabled(s: StateView, step: Step) -> bool {
    match step {
        Step::Lock => true,
        Step::Reload { accounts } => names_distinct(accounts),
        Step::Replace { name, .. } => has_name(s.accounts, name),
    }
}

/// The state after `step`.
pub open spec fn after(s: StateView, step: Step) -> StateView {
    match step {
        Step::Lock => s.opened(),
        Step::Reload { accounts } => s.reloaded(accounts),
        Step::Replace { name, tokenstate } => s.replaced(name, tokenstate),
    }
}

/// The state after `steps`, taken in order.
pub open spec fn run(s: StateView, steps: Seq<Step>) -> StateView
    decreases steps.len(),
{
    if steps.len() == 0 {
        s
    } else {
        after(run(s, steps.drop_last()), steps.last())
    }
}

/// Whether each of `steps` can be taken where it is taken.
pub open spec fn allowed(s: StateView, steps: Seq<Step>) -> bool
    decreases steps.len(),
{
    steps.len() == 0 || (allowed(s, steps.drop_last()) && enabled(
        run(s, steps.drop_last()),
        steps.last(),
    ))
}

/// A daemon starts with a token state for exactly the accounts of its configuration.
pub proof fn lemma_initial_inv(accounts: Seq<AccountView>)
    requires
        names_distinct(accounts),
    ensures
        StateView::initial(accounts).inv(),
{
}

/// A step keeps the names with a token state equal to the names of the configuration.
pub proof fn lemma_step_keeps_inv(s: StateView, step: Step)
    requires
        s.inv(),
        enabled(s, step),
    ensures
        after(s, step).inv(),
{
    if step is Replace {
        assert(after(s, step).tokens.dom() =~= names_of(s.accounts));
    }
}

/// Steps keep the names with a token state equal to the names of the configuration.
pub proof fn lemma_run_keeps_inv(s: StateView, steps: Seq<Step>)
    requires
        s.inv(),
        allowed(s, steps),
    ensures
        run(s, steps).inv(),
    decreases steps.len(),
{
    if steps.len() > 0 {
        lemma_run_keeps_inv(s, steps.drop_last());
        lemma_step_keeps_inv(run(s, steps.drop_last()), steps.last());
    }
}

/// In every state that a daemon reaches, whatever the steps, the accounts with a token
/// state are exactly the accounts of the configuration.
pub proof fn lemma_names_always_agree(accounts: Seq<AccountView>, steps: Seq<Step>)
    requires
        names_distinct(accounts),
        allowed(StateView::initial(accounts), steps),
    ensures
        run(StateView::initial(accounts), steps).inv(),
{
    lemma_initial_inv(accounts);
    lemma_run_keeps_inv(StateView::initial(accounts), steps);
}

/// A state with headroom has room for any one step: no counter overflows on it.
pub proof fn lemma_headroom_allows(s: StateView, step: Step)
    requires
        s.inv(),
        s.headroom(),
        enabled(s, step),
    ensures
        step is Lock ==> s.session < u128::MAX,
        step matches Step::Reload { accounts } ==> s.reload_fits(accounts),
        step matches Step::Replace { name, .. } ==> s.tokens[name].version < u128::MAX,
{
    match step {
        Step::Lock => {},
        Step::Reload { accounts } => {
            assert forall|name: Seq<char>| #[trigger] has_name(accounts, name) implies s.reload_entry(
                accounts,
                name,
            ).version <= u128::MAX by {
                if has_name(s.accounts, name) {
                    assert(s.tokens.contains_key(name));
                }
            }
        },
        Step::Replace { name, .. } => {
            assert(s.tokens.contains_key(name));
        },
    }
}

/// Whether `step` moves the version of the account `name` on: a replacement of its token
/// state does, and so does a reload that changes its content.
pub open spec fn bumps(s: StateView, step: Step, name: Seq<char>) -> bool {
    match step {
        Step::Lock => false,
        Step::Reload { accounts } => account_named(accounts, name) != account_named(
            s.accounts,
            name,
        ),
        Step::Replace { name: replaced, .. } => replaced == name,
    }
}

/// Over a step that keeps the account `name`, its version never goes down. It goes up, by
/// exactly one, on a replacement of its token state and on a reload that changes its
/// content, and on nothing else.
pub proof fn lemma_version_moves_by_step(s: StateView, step: Step, name: Seq<char>)
    requires
        s.inv(),
        enabled(s, step),
        has_name(s.accounts, name),
        has_name(after(s, step).accounts, name),
    ensures
        after(s, step).tokens.contains_key(name),
        bumps(s, step, name) ==> after(s, step).tokens[name].version == s.tokens[name].version + 1,
        !bumps(s, step, name) ==> after(s, step).tokens[name] == s.tokens[name],
{
}

/// Whether the account `name` is configured before `steps`, after them, and after each of
/// them.
pub open spec fn stays(s: StateView, steps: Seq<Step>, name: Seq<char>) -> bool {
    forall|k: int| 0 <= k <= steps.len() ==> has_name(#[trigger] run(s, steps.take(k)).accounts, name)
}

/// While an account stays configured its version never goes down, whatever the steps.
pub proof fn lemma_version_never_falls(s: StateView, steps: Seq<Step>, name: Seq<char>)
    requires
        s.inv(),
        allowed(s, steps),
        stays(s, steps, name),
    ensures
        s.tokens[name].version <= run(s, steps).tokens[name].version,
    decreases steps.len(),
{
    if steps.len() > 0 {
        let init = steps.drop_last();
        assert(stays(s, init, name)) by {
            assert forall|k: int| 0 <= k <= init.len() implies has_name(
                #[trigger] run(s, init.take(k)).accounts,
                name,
            ) by {
                assert(init.take(k) =~= steps.take(k));
            }
        }
        lemma_version_never_falls(s, init, name);
        lemma_run_keeps_inv(s, init);
        assert(steps.take(init.len() as int) =~= init);
        assert(steps.take(steps.len() as int) =~= steps);
        lemma_version_moves_by_step(run(s, init), steps.last(), name);
    }
}

/// An account that a reload brings in starts at version 0 with an empty token state,
/// whatever went before.
pub proof fn lemma_new_account_starts_afresh(
    s: StateView,
    accounts: Seq<AccountView>,
    name: Seq<char>,
)
    requires
        !has_name(s.accounts, name),
        has_name(accounts, name),
    ensures
        s.reloaded(accounts).tokens.contains_key(name),
        s.reloaded(accounts).tokens[name] == fresh_entry(),
{
}

/// Once a reload has dropped an account, its name validates to nothing, and so does every
/// identifier that names it.
pub proof fn lemma_dropped_account_is_gone(
    s: StateView,
    accounts: Seq<AccountView>,
    name: Seq<char>,
    id: AccountIdView,
)
    requires
        !has_name(accounts, name),
        id.name == name,
    ensures
        !s.reloaded(accounts).tokens.contains_key(name),
        s.reloaded(accounts).validated(name) is None,
        s.reloaded(accounts).revalidated(id) is None,
{
}

/// Steps never take the session or the generation back; a guard handed out moves the
/// session on, and a reload the generation.
pub proof fn lemma_counters_grow(s: StateView, steps: Seq<Step>)
    ensures
        run(s, steps).session >= s.session,
        run(s, steps).generation >= s.generation,
        (exists|i: int| 0 <= i < steps.len() && steps[i] is Lock) ==> run(s, steps).session
            > s.session,
        (exists|i: int| 0 <= i < steps.len() && steps[i] is Reload) ==> run(s, steps).generation
            > s.generation,
    decreases steps.len(),
{
    if steps.len() > 0 {
        let init = steps.drop_last();
        lemma_counters_grow(s, init);
        if exists|i: int| 0 <= i < steps.len() && steps[i] is Lock {
            let i = choose|i: int| 0 <= i < steps.len() && steps[i] is Lock;
            if i < init.len() {
                assert(init[i] is Lock);
            }
        }
        if exists|i: int| 0 <= i < steps.len() && steps[i] is Reload {
            let i = choose|i: int| 0 <= i < steps.len() && steps[i] is Reload;
            if i < init.len() {
                assert(init[i] is Reload);
            }
        }
    }
}

/// An identifier gives access under the guard that issued it and under no later one: once
/// another guard has been handed out, whatever else happened, it counts as issued no more.
pub proof fn lemma_identifier_ends_with_guard(s: StateView, steps: Seq<Step>, id: AccountIdView)
    requires
        s.issued(id),
        exists|i: int| 0 <= i < steps.len() && steps[i] is Lock,
    ensures
        !run(s, steps).issued(id),
{
    lemma_counters_grow(s, steps);
}

/// An identifier issued before a reload never validates again after it: the accounts of
/// the new configuration are other instances, even where their content is the same.
pub proof fn lemma_reload_outdates(s: StateView, steps: Seq<Step>, id: AccountIdView)
    requires
        id.generation <= s.generation,
        exists|i: int| 0 <= i < steps.len() && steps[i] is Reload,
    ensures
        run(s, steps).revalidated(id) is None,
{
    lemma_counters_grow(s, steps);
}

/// Once the token state of an account has been replaced, an identifier issued for the
/// account before that validates no more, whether or not the new token state differs.
pub proof fn lemma_replace_outdates(
    s: StateView,
    name: Seq<char>,
    tokenstate: TokenState,
    id: AccountIdView,
)
    requires
        s.still_valid(id),
        id.name == name,
    ensures
        s.replaced(name, tokenstate).revalidated(id) is None,
        s.replaced(name, tokenstate).revalidated(s.replaced(name, tokenstate).id_of(name)) is Some,
{
}

} // verus!
