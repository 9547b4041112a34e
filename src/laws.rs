//! Properties of the ledger across calls, stated over the models that the
//! operations' own contracts use and proved from them.
use vstd::prelude::*;

use crate::contract::{
    admin_check, admin_transferred, counter_reset, greeted, hello_check, initialize_check,
    initialized_with, limit_set, name_len, LedgerView, LIMITE_INICIAL,
};
use crate::error::Error;

verus! {

/// A call of one of the ledger's mutating operations, with identities as
/// their addresses.
pub enum Call {
    Initialize(Seq<char>),
    /// `hello(user, name)`.
    Hello(Seq<char>, Seq<char>),
    /// `reset_contador(caller)`.
    ResetContador(Seq<char>),
    /// `transfer_admin(caller, new_admin)`.
    TransferAdmin(Seq<char>, Seq<char>),
    /// `set_limite(caller, limit)`.
    SetLimite(Seq<char>, u32),
}

/// The ledger after `c` on `s`: what the operation's contract gives on
/// success, `s` itself on failure.
pub open spec fn step(s: LedgerView, c: Call) -> LedgerView {
    match c {
        Call::Initialize(admin) => if initialize_check(s) is None {
            initialized_with(s, admin)
        } else {
            s
        },
        Call::Hello(user, name) => if hello_check(s, name) is None {
            greeted(s, user, name)
        } else {
            s
        },
        Call::ResetContador(caller) => if admin_check(s, caller) is None {
            counter_reset(s)
        } else {
            s
        },
        Call::TransferAdmin(caller, new_admin) => if admin_check(s, caller) is None {
            admin_transferred(s, new_admin)
        } else {
            s
        },
        Call::SetLimite(caller, limit) => if admin_check(s, caller) is None {
            limit_set(s, limit)
        } else {
            s
        },
    }
}

/// Whether `c` may be made on `s` within its operation's `requires`.
pub open spec fn permitted(s: LedgerView, c: Call) -> bool {
    match c {
        Call::Hello(user, name) => hello_check(s, name) is None ==> s.counter() < u32::MAX
            && s.user_counter(user) < u32::MAX,
        _ => true,
    }
}

/// The ledger after `calls` on `s`, one after the other.
pub open spec fn run(s: LedgerView, calls: Seq<Call>) -> LedgerView
    decreases calls.len(),
{
    if calls.len() == 0 {
        s
    } else {
        step(run(s, calls.drop_last()), calls.last())
    }
}

/// Whether every call of `calls`, made in turn from `s`, is permitted.
pub open spec fn legal(s: LedgerView, calls: Seq<Call>) -> bool
    decreases calls.len(),
{
    calls.len() == 0 || (legal(s, calls.drop_last()) && permitted(
        run(s, calls.drop_last()),
        calls.last(),
    ))
}

/// Whether `c` on `s` is a successful greeting by `user`.
pub open spec fn greets_as(s: LedgerView, c: Call, user: Seq<char>) -> bool {
    match c {
        Call::Hello(u, name) => u == user && hello_check(s, name) is None,
        _ => false,
    }
}

/// Whether `c` on `s` is a successful greeting by anyone.
pub open spec fn greets(s: LedgerView, c: Call) -> bool {
    match c {
        Call::Hello(_, name) => hello_check(s, name) is None,
        _ => false,
    }
}

/// The number of successful greetings in `calls` made from `s`.
pub open spec fn greetings(s: LedgerView, calls: Seq<Call>) -> nat
    decreases calls.len(),
{
    if calls.len() == 0 {
        0
    } else {
        greetings(s, calls.drop_last()) + if greets(run(s, calls.drop_last()), calls.last()) {
            1nat
        } else {
            0nat
        }
    }
}

/// The number of successful greetings by `user` in `calls` made from `s`.
pub open spec fn greetings_by(s: LedgerView, calls: Seq<Call>, user: Seq<char>) -> nat
    decreases calls.len(),
{
    if calls.len() == 0 {
        0
    } else {
        greetings_by(s, calls.drop_last(), user) + if greets_as(
            run(s, calls.drop_last()),
            calls.last(),
            user,
        ) {
            1nat
        } else {
            0nat
        }
    }
}

/// The name of the last successful greeting by `user` in `calls` made
/// from `s`, if there is one.
pub open spec fn last_name_by(s: LedgerView, calls: Seq<Call>, user: Seq<char>) -> Option<
    Seq<char>,
>
    decreases calls.len(),
{
    if calls.len() == 0 {
        None
    } else if greets_as(run(s, calls.drop_last()), calls.last(), user) {
        match calls.last() {
            Call::Hello(_, name) => Some(name),
            _ => None,
        }
    } else {
        last_name_by(s, calls.drop_last(), user)
    }
}

/// Once `initialize` has succeeded, every later `initialize`, with any
/// admin and after any calls, fails with `YaInicializado`.
pub proof fn initialize_only_once(
    s: LedgerView,
    admin: Seq<char>,
    calls: Seq<Call>,
    other: Seq<char>,
)
    requires
        initialize_check(s) is None,
    ensures
        initialize_check(run(initialized_with(s, admin), calls)) == Some(Error::YaInicializado),
        step(run(initialized_with(s, admin), calls), Call::Initialize(other)) == run(
            initialized_with(s, admin),
            calls,
        ),
{
    stays_initialized(initialized_with(s, admin), calls);
}

/// No call takes the admin away once one is stored.
pub proof fn stays_initialized(s: LedgerView, calls: Seq<Call>)
    requires
        s.initialized(),
    ensures
        run(s, calls).initialized(),
    decreases calls.len(),
{
    if calls.len() > 0 {
        stays_initialized(s, calls.drop_last());
    }
}

/// Each identity's counter grows by one with each of its successful
/// greetings, and by nothing else.
pub proof fn user_counter_counts_greetings(s: LedgerView, calls: Seq<Call>, user: Seq<char>)
    requires
        legal(s, calls),
    ensures
        run(s, calls).user_counter(user) == s.user_counter(user) + greetings_by(s, calls, user),
    decreases calls.len(),
{
    if calls.len() > 0 {
        user_counter_counts_greetings(s, calls.drop_last(), user);
    }
}

/// Without `reset_contador` calls, and without `initialize` calls unless
/// the ledger is already initialized (where they change nothing), the
/// global counter grows by one with each successful greeting, and by
/// nothing else.
pub proof fn counter_counts_greetings(s: LedgerView, calls: Seq<Call>)
    requires
        legal(s, calls),
        forall|i: int| 0 <= i < calls.len() ==> !(#[trigger] calls[i] is ResetContador),
        s.initialized() || forall|i: int|
            0 <= i < calls.len() ==> !(#[trigger] calls[i] is Initialize),
    ensures
        run(s, calls).counter() == s.counter() + greetings(s, calls),
    decreases calls.len(),
{
    if calls.len() > 0 {
        let prev = calls.drop_last();
        assert forall|i: int| 0 <= i < prev.len() implies !(#[trigger] prev[i] is ResetContador) by {
            assert(prev[i] == calls[i]);
        }
        if !s.initialized() {
            assert forall|i: int| 0 <= i < prev.len() implies !(#[trigger] prev[i] is Initialize) by {
                assert(prev[i] == calls[i]);
            }
        } else {
            stays_initialized(s, prev);
        }
        counter_counts_greetings(s, prev);
    }
}

/// From a successful `initialize` on, and until a `reset_contador` call,
/// the global counter is the number of successful greetings.
pub proof fn counter_counts_from_initialize(s: LedgerView, admin: Seq<char>, calls: Seq<Call>)
    requires
        initialize_check(s) is None,
        legal(initialized_with(s, admin), calls),
        forall|i: int| 0 <= i < calls.len() ==> !(#[trigger] calls[i] is ResetContador),
    ensures
        run(initialized_with(s, admin), calls).counter() == greetings(
            initialized_with(s, admin),
            calls,
        ),
{
    counter_counts_greetings(initialized_with(s, admin), calls);
}

/// A successful `reset_contador` sets the global counter to 0 and leaves
/// every identity's counter and last greeting as they were.
pub proof fn reset_keeps_user_counters(s: LedgerView, caller: Seq<char>, user: Seq<char>)
    requires
        admin_check(s, caller) is None,
    ensures
        step(s, Call::ResetContador(caller)).counter() == 0,
        step(s, Call::ResetContador(caller)).user_counter(user) == s.user_counter(user),
        step(s, Call::ResetContador(caller)).last_greeting(user) == s.last_greeting(user),
{
}

/// An empty name always fails with `NombreVacio`; a non-empty one fails
/// with `NombreMuyLargo` exactly when it is longer than the current limit;
/// right after `initialize` the limit is `LIMITE_INICIAL`.
pub proof fn validation_rules(s: LedgerView, name: Seq<char>, admin: Seq<char>)
    ensures
        hello_check(s, Seq::empty()) == Some(Error::NombreVacio),
        name.len() > 0 ==> (hello_check(s, name) == Some(Error::NombreMuyLargo) <==> name_len(name)
            > s.limit()),
        name.len() > 0 ==> (hello_check(s, name) is None <==> name_len(name) <= s.limit()),
        initialize_check(s) is None ==> initialized_with(s, admin).limit() == LIMITE_INICIAL,
{
}

/// Without `set_limite` calls, and without `initialize` calls unless the
/// ledger is already initialized, the character limit stays as it was.
pub proof fn limit_stays_without_set_limite(s: LedgerView, calls: Seq<Call>)
    requires
        forall|i: int| 0 <= i < calls.len() ==> !(#[trigger] calls[i] is SetLimite),
        s.initialized() || forall|i: int|
            0 <= i < calls.len() ==> !(#[trigger] calls[i] is Initialize),
    ensures
        run(s, calls).limit() == s.limit(),
    decreases calls.len(),
{
    if calls.len() > 0 {
        let prev = calls.drop_last();
        assert forall|i: int| 0 <= i < prev.len() implies !(#[trigger] prev[i] is SetLimite) by {
            assert(prev[i] == calls[i]);
        }
        if !s.initialized() {
            assert forall|i: int| 0 <= i < prev.len() implies !(#[trigger] prev[i] is Initialize) by {
                assert(prev[i] == calls[i]);
            }
        } else {
            stays_initialized(s, prev);
        }
        limit_stays_without_set_limite(s, prev);
    }
}

/// Right after `initialize`, and until a `set_limite` call, the character
/// limit is `LIMITE_INICIAL`.
pub proof fn limit_is_initial_until_set_limite(s: LedgerView, admin: Seq<char>, calls: Seq<Call>)
    requires
        initialize_check(s) is None,
        forall|i: int| 0 <= i < calls.len() ==> !(#[trigger] calls[i] is SetLimite),
    ensures
        run(initialized_with(s, admin), calls).limit() == LIMITE_INICIAL,
{
    limit_stays_without_set_limite(initialized_with(s, admin), calls);
}

/// Each identity's last greeting is the name of its last successful
/// greeting, or what it was before where it has none.
pub proof fn last_greeting_is_last_write(s: LedgerView, calls: Seq<Call>, user: Seq<char>)
    ensures
        run(s, calls).last_greeting(user) == match last_name_by(s, calls, user) {
            Some(name) => Some(name),
            None => s.last_greeting(user),
        },
    decreases calls.len(),
{
    if calls.len() > 0 {
        last_greeting_is_last_write(s, calls.drop_last(), user);
    }
}

/// On a ledger that was never initialized, every admin operation fails
/// with `NoInicializado`; on one whose admin is not the caller, with
/// `NoAutorizado`.
pub proof fn admin_gating(s: LedgerView, calls: Seq<Call>, caller: Seq<char>)
    ensures
        s.admin() is None ==> admin_check(s, caller) == Some(Error::NoInicializado),
        s.admin() is Some && s.admin() != Some(caller) ==> admin_check(s, caller) == Some(
            Error::NoAutorizado,
        ),
        (forall|i: int| 0 <= i < calls.len() ==> !(#[trigger] calls[i] is Initialize))
            ==> admin_check(run(LedgerView::empty(), calls), caller) == Some(
            Error::NoInicializado,
        ),
{
    if forall|i: int| 0 <= i < calls.len() ==> !(#[trigger] calls[i] is Initialize) {
        never_initialized(calls);
    }
}

/// Without an `initialize` call, a ledger that starts empty has no admin.
pub proof fn never_initialized(calls: Seq<Call>)
    requires
        forall|i: int| 0 <= i < calls.len() ==> !(#[trigger] calls[i] is Initialize),
    ensures
        run(LedgerView::empty(), calls).admin() is None,
    decreases calls.len(),
{
    if calls.len() > 0 {
        let prev = calls.drop_last();
        assert forall|i: int| 0 <= i < prev.len() implies !(#[trigger] prev[i] is Initialize) by {
            assert(prev[i] == calls[i]);
        }
        never_initialized(prev);
    }
}

/// After a successful `transfer_admin(old_admin, new_admin)` to another
/// identity, and any later calls without a further transfer, admin
/// operations by `old_admin` fail with `NoAutorizado` and those by
/// `new_admin` pass.
pub proof fn transfer_moves_admin(
    s: LedgerView,
    old_admin: Seq<char>,
    new_admin: Seq<char>,
    calls: Seq<Call>,
)
    requires
        admin_check(s, old_admin) is None,
        old_admin != new_admin,
        forall|i: int| 0 <= i < calls.len() ==> !(#[trigger] calls[i] is TransferAdmin),
    ensures
        admin_check(
            run(step(s, Call::TransferAdmin(old_admin, new_admin)), calls),
            old_admin,
        ) == Some(Error::NoAutorizado),
        admin_check(run(step(s, Call::TransferAdmin(old_admin, new_admin)), calls), new_admin)
            is None,
{
    admin_stays_without_transfer(step(s, Call::TransferAdmin(old_admin, new_admin)), calls);
}

/// On an initialized ledger, calls other than `transfer_admin` leave the
/// admin as it is.
pub proof fn admin_stays_without_transfer(s: LedgerView, calls: Seq<Call>)
    requires
        s.initialized(),
        forall|i: int| 0 <= i < calls.len() ==> !(#[trigger] calls[i] is TransferAdmin),
    ensures
        run(s, calls).admin() == s.admin(),
    decreases calls.len(),
{
    if calls.len() > 0 {
        let prev = calls.drop_last();
        assert forall|i: int| 0 <= i < prev.len() implies !(#[trigger] prev[i] is TransferAdmin) by {
            assert(prev[i] == calls[i]);
        }
        admin_stays_without_transfer(s, prev);
        stays_initialized(s, prev);
    }
}

} // verus!
