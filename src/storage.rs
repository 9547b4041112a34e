//! The two-tier key-value store that holds the ledger's state.
//!
//! Both tiers map a `DataKey` to a `Value` and keep, for each entry, its
//! time to live: the number of ledgers for which the entry is still
//! guaranteed to be readable. An entry written for the first time has no
//! guaranteed horizon until it is extended.
use vstd::prelude::*;

verus! {

/// An identity that can call the ledger, held as its textual address.
pub struct Address {
    pub strkey: String,
}

impl View for Address {
    type V = Seq<char>;

    open spec fn view(&self) -> Seq<char> {
        self.strkey@
    }
}

impl Address {
    /// The identity with the given textual address.
    pub fn new(strkey: String) -> (r: Address)
        ensures
            r@ == strkey@,
    {
        Address { strkey }
    }

    /// The textual address of this identity.
    pub fn as_str(&self) -> (r: &str)
        ensures
            r@ == self@,
    {
        self.strkey.as_str()
    }
}

impl Clone for Address {
    fn clone(&self) -> (r: Self)
        ensures
            r@ == self@,
    {
        Address { strkey: self.strkey.clone() }
    }
}

impl PartialEq for Address {
    fn eq(&self, other: &Address) -> (r: bool) {
        self.strkey == other.strkey
    }
}

impl vstd::std_specs::cmp::PartialEqSpecImpl for Address {
    open spec fn obeys_eq_spec() -> bool {
        true
    }

    open spec fn eq_spec(&self, other: &Address) -> bool {
        self@ == other@
    }
}

/// The model of a storage key, with identities as their addresses.
pub enum KeyView {
    Admin,
    ContadorSaludos,
    UltimoSaludo(Seq<char>),
    ContadorPorUsuario(Seq<char>),
    LimiteCaracteres,
}

/// The keys of the store: three contract-wide scalars and two families of
/// per-identity entries.
pub enum DataKey {
    /// The admin identity (instance tier).
    Admin,
    /// The global greeting counter (instance tier).
    ContadorSaludos,
    /// The last name greeted by an identity (persistent tier).
    UltimoSaludo(Address),
    /// The number of greetings of an identity (persistent tier).
    ContadorPorUsuario(Address),
    /// The character limit on names (instance tier).
    LimiteCaracteres,
}

impl View for DataKey {
    type V = KeyView;

    open spec fn view(&self) -> KeyView {
        match self {
            DataKey::Admin => KeyView::Admin,
            DataKey::ContadorSaludos => KeyView::ContadorSaludos,
            DataKey::UltimoSaludo(a) => KeyView::UltimoSaludo(a@),
            DataKey::ContadorPorUsuario(a) => KeyView::ContadorPorUsuario(a@),
            DataKey::LimiteCaracteres => KeyView::LimiteCaracteres,
        }
    }
}

impl Clone for DataKey {
    fn clone(&self) -> (r: Self)
        ensures
            r@ == self@,
    {
        match self {
            DataKey::Admin => DataKey::Admin,
            DataKey::ContadorSaludos => DataKey::ContadorSaludos,
            DataKey::UltimoSaludo(a) => DataKey::UltimoSaludo(a.clone()),
            DataKey::ContadorPorUsuario(a) => DataKey::ContadorPorUsuario(a.clone()),
            DataKey::LimiteCaracteres => DataKey::LimiteCaracteres,
        }
    }
}

impl PartialEq for DataKey {
    fn eq(&self, other: &DataKey) -> (r: bool) {
        match (self, other) {
            (DataKey::Admin, DataKey::Admin) => true,
            (DataKey::ContadorSaludos, DataKey::ContadorSaludos) => true,
            (DataKey::UltimoSaludo(a), DataKey::UltimoSaludo(b)) => a.strkey == b.strkey,
            (DataKey::ContadorPorUsuario(a), DataKey::ContadorPorUsuario(b)) => a.strkey
                == b.strkey,
            (DataKey::LimiteCaracteres, DataKey::LimiteCaracteres) => true,
            _ => false,
        }
    }
}

impl vstd::std_specs::cmp::PartialEqSpecImpl for DataKey {
    open spec fn obeys_eq_spec() -> bool {
        true
    }

    open spec fn eq_spec(&self, other: &DataKey) -> bool {
        self@ == other@
    }
}

/// The model of a stored value.
pub enum ValueView {
    Number(u32),
    Identity(Seq<char>),
    Text(Seq<char>),
}

/// A value held in the store.
pub enum Value {
    Number(u32),
    Identity(Address),
    Text(String),
}

impl View for Value {
    type V = ValueView;

    open spec fn view(&self) -> ValueView {
        match self {
            Value::Number(n) => ValueView::Number(*n),
            Value::Identity(a) => ValueView::Identity(a@),
            Value::Text(s) => ValueView::Text(s@),
        }
    }
}

impl Clone for Value {
    fn clone(&self) -> (r: Self)
        ensures
            r@ == self@,
    {
        match self {
            Value::Number(n) => Value::Number(*n),
            Value::Identity(a) => Value::Identity(a.clone()),
            Value::Text(s) => Value::Text(s.clone()),
        }
    }
}

/// One entry of a tier.
pub struct Entry {
    pub key: DataKey,
    pub value: Value,
    pub ttl: u32,
}

/// The model of a tier: what each key holds and how long it lives.
pub struct TierView {
    pub values: Map<KeyView, ValueView>,
    pub ttls: Map<KeyView, u32>,
}

/// The time to live of an entry after an extension by `threshold` and
/// `extend_to`: a horizon below the threshold becomes `extend_to`, any
/// other stays.
pub open spec fn extended_ttl(ttl: u32, threshold: u32, extend_to: u32) -> u32 {
    if ttl < threshold {
        extend_to
    } else {
        ttl
    }
}

impl TierView {
    /// The empty tier.
    pub open spec fn empty() -> TierView {
        TierView { values: Map::empty(), ttls: Map::empty() }
    }

    /// The tier after `key` is set to `value`; a new key starts with no
    /// horizon, an existing one keeps its own.
    pub open spec fn set(self, key: KeyView, value: ValueView) -> TierView {
        TierView {
            values: self.values.insert(key, value),
            ttls: if self.ttls.contains_key(key) {
                self.ttls
            } else {
                self.ttls.insert(key, 0)
            },
        }
    }

    /// The tier after the entry under `key`, if any, is extended.
    pub open spec fn extend(self, key: KeyView, threshold: u32, extend_to: u32) -> TierView {
        TierView {
            values: self.values,
            ttls: if self.ttls.contains_key(key) {
                self.ttls.insert(key, extended_ttl(self.ttls[key], threshold, extend_to))
            } else {
                self.ttls
            },
        }
    }

    /// The tier after every entry in it is extended together.
    pub open spec fn extend_all(self, threshold: u32, extend_to: u32) -> TierView {
        TierView {
            values: self.values,
            ttls: Map::new(
                |k: KeyView| self.ttls.contains_key(k),
                |k: KeyView| extended_ttl(self.ttls[k], threshold, extend_to),
            ),
        }
    }
}

/// One tier of the store: a map from keys to values, each entry with its
/// own time to live.
pub struct Tier {
    entries: Vec<Entry>,
    model: Ghost<TierView>,
}

impl View for Tier {
    type V = TierView;

    closed spec fn view(&self) -> TierView {
        self.model@
    }
}

impl Tier {
    /// The entries hold each key once, and the model maps exactly their keys.
    pub closed spec fn wf(&self) -> bool {
        &&& forall|i: int, j: int|
            0 <= i < j < self.entries.len() ==> self.entries@[i].key@
                != self.entries@[j].key@
        &&& forall|i: int|
            0 <= i < self.entries.len() ==> {
                &&& #[trigger] self.model@.values.contains_key(self.entries@[i].key@)
                &&& self.model@.values[self.entries@[i].key@] == self.entries@[i].value@
                &&& self.model@.ttls[self.entries@[i].key@] == self.entries@[i].ttl
            }
        &&& forall|k: KeyView|
            #[trigger] self.model@.values.contains_key(k) ==> exists|i: int|
                0 <= i < self.entries.len() && self.entries@[i].key@ == k
        &&& self.model@.values.dom() == self.model@.ttls.dom()
    }

    /// An empty tier.
    pub fn new() -> (r: Tier)
        ensures
            r.wf(),
            r@ == TierView::empty(),
    {
        Tier { entries: Vec::new(), model: Ghost(TierView::empty()) }
    }

    /// The entries of the tier, each key once.
    pub fn entries(&self) -> (r: &Vec<Entry>)
        requires
            self.wf(),
        ensures
            forall|i: int|
                0 <= i < r.len() ==> {
                    &&& self@.values.contains_key((#[trigger] r@[i]).key@)
                    &&& self@.values[r@[i].key@] == r@[i].value@
                    &&& self@.ttls[r@[i].key@] == r@[i].ttl
                },
            forall|k: KeyView| #[trigger]
                self@.values.contains_key(k) ==> exists|i: int|
                    0 <= i < r.len() && r@[i].key@ == k,
    {
        assert forall|i: int| 0 <= i < self.entries.len() implies {
            &&& self@.values.contains_key((#[trigger] self.entries@[i]).key@)
            &&& self@.values[self.entries@[i].key@] == self.entries@[i].value@
            &&& self@.ttls[self.entries@[i].key@] == self.entries@[i].ttl
        } by {
            assert(self.model@.values.contains_key(self.entries@[i].key@));
        }
        &self.entries
    }

    /// The position of the entry under `key`, if there is one.
    fn find(&self, key: &DataKey) -> (r: Option<usize>)
        requires
            self.wf(),
        ensures
            match r {
                Some(i) => i < self.entries.len() && self.entries@[i as int].key@ == key@,
                None => !self@.values.contains_key(key@),
            },
    {
        let mut i: usize = 0;
        while i < self.entries.len()
            invariant
                self.wf(),
                i <= self.entries.len(),
                forall|j: int| 0 <= j < i ==> self.entries@[j].key@ != key@,
            decreases self.entries.len() - i,
        {
            if self.entries[i].key == *key {
                return Some(i);
            }
            i = i + 1;
        }
        None
    }

    /// Whether the tier holds an entry under `key`.
    pub fn has(&self, key: &DataKey) -> (r: bool)
        requires
            self.wf(),
        ensures
            r == self@.values.contains_key(key@),
    {
        match self.find(key) {
            Some(_) => true,
            None => false,
        }
    }

    /// The value under `key`, if there is one.
    pub fn get(&self, key: &DataKey) -> (r: Option<Value>)
        requires
            self.wf(),
        ensures
            match r {
                Some(v) => self@.values.contains_key(key@) && self@.values[key@] == v@,
                None => !self@.values.contains_key(key@),
            },
    {
        match self.find(key) {
            Some(i) => {
                let v = self.entries[i].value.clone();
                assert(v@ == self.entries@[i as int].value@);
                assert(self.model@.values.contains_key(self.entries@[i as int].key@));
                Some(v)
            },
            None => None,
        }
    }

    /// Writes `value` under `key`, replacing what was there.
    pub fn set(&mut self, key: DataKey, value: Value)
        requires
            old(self).wf(),
        ensures
            final(self).wf(),
            final(self)@ == old(self)@.set(key@, value@),
    {
        let ghost k = key@;
        let ghost v = value@;
        let ghost pre = self.model@;
        match self.find(&key) {
            Some(i) => {
                let ttl = self.entries[i].ttl;
                self.entries.set(i, Entry { key, value, ttl });
                self.model = Ghost(pre.set(k, v));
                assert forall|k2: KeyView| #[trigger]
                    self.model@.values.contains_key(k2) implies exists|j: int|
                    0 <= j < self.entries.len() && self.entries@[j].key@ == k2 by {
                    if k2 != k {
                        let j = choose|j: int|
                            0 <= j < old(self).entries.len() && old(self).entries@[j].key@
                                == k2;
                        assert(self.entries@[j].key@ == k2);
                    } else {
                        assert(self.entries@[i as int].key@ == k2);
                    }
                }
            },
            None => {
                self.entries.push(Entry { key, value, ttl: 0 });
                self.model = Ghost(pre.set(k, v));
                let ghost n = self.entries.len() - 1;
                assert(self.entries@[n].key@ == k);
                assert forall|k2: KeyView| #[trigger]
                    self.model@.values.contains_key(k2) implies exists|j: int|
                    0 <= j < self.entries.len() && self.entries@[j].key@ == k2 by {
                    if k2 != k {
                        let j = choose|j: int|
                            0 <= j < old(self).entries.len() && old(self).entries@[j].key@
                                == k2;
                        assert(self.entries@[j].key@ == k2);
                    } else {
                        assert(self.entries@[n].key@ == k2);
                    }
                }
            },
        }
        assert(self.model@.values.dom() =~= self.model@.ttls.dom());
    }

    /// Extends the time to live of the entry under `key`, if there is one:
    /// a horizon below `threshold` ledgers becomes `extend_to`.
    pub fn extend_ttl(&mut self, key: &DataKey, threshold: u32, extend_to: u32)
        requires
            old(self).wf(),
        ensures
            final(self).wf(),
            final(self)@ == old(self)@.extend(key@, threshold, extend_to),
    {
        let ghost pre = self.model@;
        match self.find(key) {
            Some(i) => {
                if self.entries[i].ttl < threshold {
                    let k = self.entries[i].key.clone();
                    let v = self.entries[i].value.clone();
                    self.entries.set(i, Entry { key: k, value: v, ttl: extend_to });
                }
                self.model = Ghost(pre.extend(key@, threshold, extend_to));
                assert forall|j: int| 0 <= j < self.entries.len() implies {
                    &&& #[trigger] self.model@.values.contains_key(self.entries@[j].key@)
                    &&& self.model@.values[self.entries@[j].key@] == self.entries@[j].value@
                    &&& self.model@.ttls[self.entries@[j].key@] == self.entries@[j].ttl
                } by {
                    assert(old(self).model@.values.contains_key(old(self).entries@[j].key@));
                    if j != i {
                        assert(old(self).entries@[j].key@ != old(self).entries@[i as int].key@);
                    }
                }
                assert forall|k2: KeyView| #[trigger]
                    self.model@.values.contains_key(k2) implies exists|j: int|
                    0 <= j < self.entries.len() && self.entries@[j].key@ == k2 by {
                    let j = choose|j: int|
                        0 <= j < old(self).entries.len() && old(self).entries@[j].key@ == k2;
                    assert(self.entries@[j].key@ == k2);
                }
                assert(self.model@.values.dom() =~= self.model@.ttls.dom());
            },
            None => {
                self.model = Ghost(pre.extend(key@, threshold, extend_to));
            },
        }
    }

    /// Extends every entry of the tier together, as `extend_ttl` does one.
    pub fn extend_all(&mut self, threshold: u32, extend_to: u32)
        requires
            old(self).wf(),
        ensures
            final(self).wf(),
            final(self)@ == old(self)@.extend_all(threshold, extend_to),
    {
        let ghost pre = self.model@;
        let ghost target = pre.extend_all(threshold, extend_to);
        let mut i: usize = 0;
        while i < self.entries.len()
            invariant
                0 <= i <= self.entries.len(),
                self.entries.len() == old(self).entries.len(),
                self.model@ == pre,
                pre == old(self)@,
                old(self).wf(),
                target == pre.extend_all(threshold, extend_to),
                forall|j: int|
                    0 <= j < self.entries.len() ==> (#[trigger] self.entries@[j]).key@
                        == old(self).entries@[j].key@ && self.entries@[j].value@
                        == old(self).entries@[j].value@,
                forall|j: int|
                    0 <= j < i ==> (#[trigger] self.entries@[j]).ttl == extended_ttl(
                        old(self).entries@[j].ttl,
                        threshold,
                        extend_to,
                    ),
                forall|j: int|
                    i <= j < self.entries.len() ==> (#[trigger] self.entries@[j]).ttl
                        == old(self).entries@[j].ttl,
            decreases self.entries.len() - i,
        {
            if self.entries[i].ttl < threshold {
                let k = self.entries[i].key.clone();
                let v = self.entries[i].value.clone();
                self.entries.set(i, Entry { key: k, value: v, ttl: extend_to });
            }
            i = i + 1;
        }
        self.model = Ghost(target);
        assert forall|k2: KeyView| #[trigger]
            self.model@.values.contains_key(k2) implies exists|j: int|
            0 <= j < self.entries.len() && self.entries@[j].key@ == k2 by {
            let j = choose|j: int|
                0 <= j < old(self).entries.len() && old(self).entries@[j].key@ == k2;
            assert(self.entries@[j].key@ == k2);
        }
        assert(self.model@.values.dom() =~= self.model@.ttls.dom());
    }
}

} // verus!
