//! The greeting ledger: initialization, the greeting operation, the read
//! accessors and the admin operations.
//!
//! Every operation here assumes that the host has already checked that the
//! identity it names as caller authorized the invocation, and that the host
//! rolls back the whole invocation when it fails; a failing operation leaves
//! the ledger as it was.
use vstd::prelude::*;

use crate::error::Error;
use crate::storage::{Address, DataKey, KeyView, Tier, TierView, Value, ValueView};

verus! {

/// The character limit a ledger starts with, and the one assumed while
/// none is stored.
pub const LIMITE_INICIAL: u32 = 32;

/// An entry whose time to live falls below this many ledgers is extended.
pub const TTL_UMBRAL: u32 = 100;

/// The time to live, in ledgers, that an extended entry gets.
pub const TTL_EXTENSION: u32 = 100;

/// The fixed acknowledgement that a successful greeting returns.
pub open spec fn greeting_reply() -> Seq<char> {
    "Hola Tiburona"@
}

/// The length of a name: the number of bytes of its UTF-8 encoding.
pub open spec fn name_len(name: Seq<char>) -> nat {
    vstd::utf8::encode_utf8(name).len()
}

/// The number stored under `key`, or `default` where there is none.
pub open spec fn number_or(values: Map<KeyView, ValueView>, key: KeyView, default: u32) -> u32 {
    match values.get(key) {
        Some(ValueView::Number(n)) => n,
        _ => default,
    }
}

/// The model of the ledger: its two storage tiers.
pub struct LedgerView {
    /// Contract-wide scalars: admin, global counter, character limit.
    pub instance: TierView,
    /// Per-identity entries: last greeting and counter.
    pub persistent: TierView,
}

impl LedgerView {
    /// A ledger on which nothing has been stored.
    pub open spec fn empty() -> LedgerView {
        LedgerView { instance: TierView::empty(), persistent: TierView::empty() }
    }

    /// Whether an admin has been stored, that is, whether `initialize` has
    /// succeeded.
    pub open spec fn initialized(self) -> bool {
        self.instance.values.contains_key(KeyView::Admin)
    }

    /// The current admin, if any.
    pub open spec fn admin(self) -> Option<Seq<char>> {
        match self.instance.values.get(KeyView::Admin) {
            Some(ValueView::Identity(a)) => Some(a),
            _ => None,
        }
    }

    /// The global greeting counter, 0 where unset.
    pub open spec fn counter(self) -> u32 {
        number_or(self.instance.values, KeyView::ContadorSaludos, 0)
    }

    /// The character limit, `LIMITE_INICIAL` where unset.
    pub open spec fn limit(self) -> u32 {
        number_or(self.instance.values, KeyView::LimiteCaracteres, LIMITE_INICIAL)
    }

    /// The number of greetings of `user`, 0 where unset.
    pub open spec fn user_counter(self, user: Seq<char>) -> u32 {
        number_or(self.persistent.values, KeyView::ContadorPorUsuario(user), 0)
    }

    /// The last name that `user` greeted with, if any.
    pub open spec fn last_greeting(self, user: Seq<char>) -> Option<Seq<char>> {
        match self.persistent.values.get(KeyView::UltimoSaludo(user)) {
            Some(ValueView::Text(t)) => Some(t),
            _ => None,
        }
    }
}

/// Why `initialize` fails on `s`, if it does.
pub open spec fn initialize_check(s: LedgerView) -> Option<Error> {
    if s.initialized() {
        Some(Error::YaInicializado)
    } else {
        None
    }
}

/// The ledger after a successful `initialize` with `admin`.
pub open spec fn initialized_with(s: LedgerView, admin: Seq<char>) -> LedgerView {
    LedgerView {
        instance: s.instance.set(KeyView::Admin, ValueView::Identity(admin)).set(
            KeyView::ContadorSaludos,
            ValueView::Number(0),
        ).set(KeyView::LimiteCaracteres, ValueView::Number(LIMITE_INICIAL)).extend_all(
            TTL_UMBRAL,
            TTL_EXTENSION,
        ),
        persistent: s.persistent,
    }
}

/// Why `hello` with `name` fails on `s`, if it does.
pub open spec fn hello_check(s: LedgerView, name: Seq<char>) -> Option<Error> {
    if name.len() == 0 {
        Some(Error::NombreVacio)
    } else if name_len(name) > s.limit() {
        Some(Error::NombreMuyLargo)
    } else {
        None
    }
}

/// The ledger after a successful `hello` of `user` with `name`.
pub open spec fn greeted(s: LedgerView, user: Seq<char>, name: Seq<char>) -> LedgerView {
    LedgerView {
        instance: s.instance.set(
            KeyView::ContadorSaludos,
            ValueView::Number((s.counter() + 1) as u32),
        ).extend_all(TTL_UMBRAL, TTL_EXTENSION),
        persistent: s.persistent.set(
            KeyView::ContadorPorUsuario(user),
            ValueView::Number((s.user_counter(user) + 1) as u32),
        ).set(KeyView::UltimoSaludo(user), ValueView::Text(name)).extend(
            KeyView::UltimoSaludo(user),
            TTL_UMBRAL,
            TTL_EXTENSION,
        ).extend(KeyView::ContadorPorUsuario(user), TTL_UMBRAL, TTL_EXTENSION),
    }
}

/// Why an admin operation called by `caller` fails on `s`, if it does.
pub open spec fn admin_check(s: LedgerView, caller: Seq<char>) -> Option<Error> {
    match s.admin() {
        None => Some(Error::NoInicializado),
        Some(a) => if a == caller {
            None
        } else {
            Some(Error::NoAutorizado)
        },
    }
}

/// The ledger after a successful `reset_contador`.
pub open spec fn counter_reset(s: LedgerView) -> LedgerView {
    LedgerView {
        instance: s.instance.set(KeyView::ContadorSaludos, ValueView::Number(0)),
        persistent: s.persistent,
    }
}

/// The ledger after a successful `transfer_admin` to `new_admin`.
pub open spec fn admin_transferred(s: LedgerView, new_admin: Seq<char>) -> LedgerView {
    LedgerView {
        instance: s.instance.set(KeyView::Admin, ValueView::Identity(new_admin)).extend_all(
            TTL_UMBRAL,
            TTL_EXTENSION,
        ),
        persistent: s.persistent,
    }
}

/// The ledger after a successful `set_limite` to `limit`.
pub open spec fn limit_set(s: LedgerView, limit: u32) -> LedgerView {
    LedgerView {
        instance: s.instance.set(KeyView::LimiteCaracteres, ValueView::Number(limit)).extend_all(
            TTL_UMBRAL,
            TTL_EXTENSION,
        ),
        persistent: s.persistent,
    }
}

/// The number stored under `key` in `tier`, or `default` where there is none.
fn stored_number(tier: &Tier, key: &DataKey, default: u32) -> (r: u32)
    requires
        tier.wf(),
    ensures
        r == number_or(tier@.values, key@, default),
{
    match tier.get(key) {
        Some(Value::Number(n)) => n,
        _ => default,
    }
}

/// The greeting ledger and its state.
pub struct HelloContract {
    instance: Tier,
    persistent: Tier,
}

impl View for HelloContract {
    type V = LedgerView;

    closed spec fn view(&self) -> LedgerView {
        LedgerView { instance: self.instance@, persistent: self.persistent@ }
    }
}

impl HelloContract {
    /// Both tiers are well formed.
    pub closed spec fn wf(&self) -> bool {
        self.instance.wf() && self.persistent.wf()
    }

    /// A ledger on which nothing has been stored yet.
    pub fn new() -> (r: HelloContract)
        ensures
            r.wf(),
            r@ == LedgerView::empty(),
    {
        HelloContract { instance: Tier::new(), persistent: Tier::new() }
    }

    /// A ledger over the given tiers, as the host has them stored.
    pub fn from_tiers(instance: Tier, persistent: Tier) -> (r: HelloContract)
        requires
            instance.wf(),
            persistent.wf(),
        ensures
            r.wf(),
            r@ == (LedgerView { instance: instance@, persistent: persistent@ }),
    {
        HelloContract { instance, persistent }
    }

    /// The tier of contract-wide scalars.
    pub fn instance(&self) -> (r: &Tier)
        requires
            self.wf(),
        ensures
            r.wf(),
            r@ == self@.instance,
    {
        &self.instance
    }

    /// The tier of per-identity entries.
    pub fn persistent(&self) -> (r: &Tier)
        requires
            self.wf(),
        ensures
            r.wf(),
            r@ == self@.persistent,
    {
        &self.persistent
    }

    /// Stores `admin` as the admin, the global counter at 0 and the
    /// character limit at `LIMITE_INICIAL`; fails if an admin is already
    /// stored.
    pub fn initialize(&mut self, admin: Address) -> (r: Result<(), Error>)
        requires
            old(self).wf(),
        ensures
            final(self).wf(),
            match initialize_check(old(self)@) {
                None => r == Ok::<(), Error>(()) && final(self)@ == initialized_with(
                    old(self)@,
                    admin@,
                ),
                Some(e) => r == Err::<(), Error>(e) && final(self)@ == old(self)@,
            },
    {
        if self.instance.has(&DataKey::Admin) {
            return Err(Error::YaInicializado);
        }
        self.instance.set(DataKey::Admin, Value::Identity(admin));
        self.instance.set(DataKey::ContadorSaludos, Value::Number(0));
        self.instance.set(DataKey::LimiteCaracteres, Value::Number(LIMITE_INICIAL));
        self.instance.extend_all(TTL_UMBRAL, TTL_EXTENSION);
        Ok(())
    }

    /// Why `hello` with `nombre` would fail on this ledger, if it would:
    /// an empty name, or one longer than the character limit.
    pub fn check_hello(&self, nombre: &String) -> (r: Option<Error>)
        requires
            self.wf(),
        ensures
            r == hello_check(self@, nombre@),
    {
        if nombre.as_str().is_empty() {
            return Some(Error::NombreVacio);
        }
        let limite = stored_number(&self.instance, &DataKey::LimiteCaracteres, LIMITE_INICIAL);
        let largo = nombre.as_str().as_bytes().len();
        if largo > limite as usize {
            return Some(Error::NombreMuyLargo);
        }
        None
    }

    /// Greets on behalf of `usuario` with `nombre`: checks the name against
    /// the limit, counts the greeting globally and for `usuario`, records
    /// `nombre` as the last greeting of `usuario`, and returns the fixed
    /// acknowledgement.
    pub fn hello(&mut self, usuario: Address, nombre: String) -> (r: Result<String, Error>)
        requires
            old(self).wf(),
            hello_check(old(self)@, nombre@) is None ==> old(self)@.counter() < u32::MAX
                && old(self)@.user_counter(usuario@) < u32::MAX,
        ensures
            final(self).wf(),
            match hello_check(old(self)@, nombre@) {
                None => r is Ok && r->Ok_0@ == greeting_reply() && final(self)@ == greeted(
                    old(self)@,
                    usuario@,
                    nombre@,
                ),
                Some(e) => r == Err::<String, Error>(e) && final(self)@ == old(self)@,
            },
    {
        if let Some(e) = self.check_hello(&nombre) {
            return Err(e);
        }
        let contador = stored_number(&self.instance, &DataKey::ContadorSaludos, 0);
        self.instance.set(DataKey::ContadorSaludos, Value::Number(contador + 1));

        let key_usuario = DataKey::ContadorPorUsuario(usuario.clone());
        let contador_usuario = stored_number(&self.persistent, &key_usuario, 0);
        self.persistent.set(key_usuario.clone(), Value::Number(contador_usuario + 1));

        let key_saludo = DataKey::UltimoSaludo(usuario);
        self.persistent.set(key_saludo.clone(), Value::Text(nombre));
        self.persistent.extend_ttl(&key_saludo, TTL_UMBRAL, TTL_EXTENSION);
        self.persistent.extend_ttl(&key_usuario, TTL_UMBRAL, TTL_EXTENSION);
        self.instance.extend_all(TTL_UMBRAL, TTL_EXTENSION);
        proof {
            reveal_strlit("Hola Tiburona");
        }
        Ok("Hola Tiburona".to_owned())
    }

    /// The global greeting counter, 0 before any is stored.
    pub fn get_contador(&self) -> (r: u32)
        requires
            self.wf(),
        ensures
            r == self@.counter(),
    {
        stored_number(&self.instance, &DataKey::ContadorSaludos, 0)
    }

    /// The last name that `usuario` greeted with, if any.
    pub fn get_ultimo_saludo(&self, usuario: Address) -> (r: Option<String>)
        requires
            self.wf(),
        ensures
            match r {
                Some(t) => self@.last_greeting(usuario@) == Some(t@),
                None => self@.last_greeting(usuario@) is None,
            },
    {
        match self.persistent.get(&DataKey::UltimoSaludo(usuario)) {
            Some(Value::Text(t)) => Some(t),
            _ => None,
        }
    }

    /// The number of greetings of `usuario`, 0 before any.
    pub fn get_contador_usuario(&self, usuario: Address) -> (r: u32)
        requires
            self.wf(),
        ensures
            r == self@.user_counter(usuario@),
    {
        stored_number(&self.persistent, &DataKey::ContadorPorUsuario(usuario), 0)
    }

    /// Passes when `caller` is the stored admin.
    fn require_admin(&self, caller: &Address) -> (r: Result<(), Error>)
        requires
            self.wf(),
        ensures
            match admin_check(self@, caller@) {
                None => r == Ok::<(), Error>(()),
                Some(e) => r == Err::<(), Error>(e),
            },
    {
        match self.instance.get(&DataKey::Admin) {
            Some(Value::Identity(admin)) => {
                if *caller == admin {
                    Ok(())
                } else {
                    Err(Error::NoAutorizado)
                }
            },
            _ => Err(Error::NoInicializado),
        }
    }

    /// Sets the global counter back to 0; the per-identity counters stay.
    /// Only the admin may do this.
    pub fn reset_contador(&mut self, caller: Address) -> (r: Result<(), Error>)
        requires
            old(self).wf(),
        ensures
            final(self).wf(),
            match admin_check(old(self)@, caller@) {
                None => r == Ok::<(), Error>(()) && final(self)@ == counter_reset(old(self)@),
                Some(e) => r == Err::<(), Error>(e) && final(self)@ == old(self)@,
            },
    {
        self.require_admin(&caller)?;
        self.instance.set(DataKey::ContadorSaludos, Value::Number(0));
        Ok(())
    }

    /// Hands the admin role from `caller` to `nuevo_admin`. Only the admin
    /// may do this.
    pub fn transfer_admin(&mut self, caller: Address, nuevo_admin: Address) -> (r: Result<
        (),
        Error,
    >)
        requires
            old(self).wf(),
        ensures
            final(self).wf(),
            match admin_check(old(self)@, caller@) {
                None => r == Ok::<(), Error>(()) && final(self)@ == admin_transferred(
                    old(self)@,
                    nuevo_admin@,
                ),
                Some(e) => r == Err::<(), Error>(e) && final(self)@ == old(self)@,
            },
    {
        self.require_admin(&caller)?;
        self.instance.set(DataKey::Admin, Value::Identity(nuevo_admin));
        self.instance.extend_all(TTL_UMBRAL, TTL_EXTENSION);
        Ok(())
    }

    /// Sets the character limit to `limite`, with no bound on it; 0 makes
    /// every non-empty name too long. Only the admin may do this.
    pub fn set_limite(&mut self, caller: Address, limite: u32) -> (r: Result<(), Error>)
        requires
            old(self).wf(),
        ensures
            final(self).wf(),
            match admin_check(old(self)@, caller@) {
                None => r == Ok::<(), Error>(()) && final(self)@ == limit_set(old(self)@, limite),
                Some(e) => r == Err::<(), Error>(e) && final(self)@ == old(self)@,
            },
    {
        self.require_admin(&caller)?;
        self.instance.set(DataKey::LimiteCaracteres, Value::Number(limite));
        self.instance.extend_all(TTL_UMBRAL, TTL_EXTENSION);
        Ok(())
    }
}

} // verus!
