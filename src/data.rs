use vstd::prelude::*;

verus! {

/// A typed value stored as application state.
///
/// Equality is structural; there is no coercion between `U64` and `I64`.
#[derive(Debug, PartialEq, Eq)]
pub enum Data {
    /// No data.
    Empty,
    /// A boolean.
    Bool(bool),
    /// An unsigned integer.
    U64(u64),
    /// A signed integer.
    I64(i64),
    /// A byte string.
    Bytes(Vec<u8>),
    /// A string.
    String(String),
    /// A list of values.
    List(Vec<Data>),
    /// String keys with their values, the keys in increasing order.
    Dict(Vec<(String, Data)>),
}

impl Data {
    /// Whether this is the `Empty` variant.
    pub fn is_empty(&self) -> (r: bool)
        ensures
            r == (*self is Empty),
    {
        match self {
            Data::Empty => true,
            _ => false,
        }
    }

    /// The integer of a `U64` value.
    pub fn as_u64(&self) -> (r: Option<u64>)
        ensures
            r == data_u64(*self),
    {
        match self {
            Data::U64(v) => Some(*v),
            _ => None,
        }
    }

    /// The bytes of a `Bytes` value.
    pub fn as_bytes(&self) -> (r: Option<&[u8]>)
        ensures
            match *self {
                Data::Bytes(v) => r is Some && r->0@ == v@,
                _ => r is None,
            },
    {
        match self {
            Data::Bytes(v) => Some(v.as_slice()),
            _ => None,
        }
    }

    /// The text of a `String` value.
    pub fn as_str(&self) -> (r: Option<&str>)
        ensures
            match *self {
                Data::String(s) => r is Some && r->0@ == s@,
                _ => r is None,
            },
    {
        match self {
            Data::String(s) => Some(s.as_str()),
            _ => None,
        }
    }
}

/// The integer held by a `U64` value.
pub open spec fn data_u64(d: Data) -> Option<u64> {
    match d {
        Data::U64(v) => Some(v),
        _ => None,
    }
}

/// The bytes held by a `Bytes` value.
pub open spec fn data_bytes(d: Data) -> Option<Seq<u8>> {
    match d {
        Data::Bytes(v) => Some(v@),
        _ => None,
    }
}

/// Two values hold the same variant and the same contents; byte strings,
/// strings and lists are compared by their contents.
pub open spec fn data_eq(a: Data, b: Data) -> bool
    decreases a,
{
    match a {
        Data::Empty => b is Empty,
        Data::Bool(x) => b is Bool && b->Bool_0 == x,
        Data::U64(x) => b is U64 && b->U64_0 == x,
        Data::I64(x) => b is I64 && b->I64_0 == x,
        Data::Bytes(x) => b is Bytes && b->Bytes_0@ == x@,
        Data::String(x) => b is String && b->String_0@ == x@,
        Data::List(x) => {
            &&& b is List
            &&& b->List_0@.len() == x@.len()
            &&& forall|i: int|
                0 <= i < x@.len() ==> data_eq(#[trigger] x@[i], b->List_0@[i])
        },
        Data::Dict(x) => {
            &&& b is Dict
            &&& b->Dict_0@.len() == x@.len()
            &&& forall|i: int|
                0 <= i < x@.len() ==> {
                    &&& b->Dict_0@[i].0@ == (#[trigger] x@[i]).0@
                    &&& data_eq(x@[i].1, b->Dict_0@[i].1)
                }
        },
    }
}

/// A copy of a value, equal to it.
pub fn copy_data(d: &Data) -> (r: Data)
    ensures
        data_eq(*d, r),
    decreases d,
{
    match d {
        Data::Empty => Data::Empty,
        Data::Bool(b) => Data::Bool(*b),
        Data::U64(v) => Data::U64(*v),
        Data::I64(v) => Data::I64(*v),
        Data::Bytes(b) => Data::Bytes(b.clone()),
        Data::String(s) => Data::String(s.clone()),
        Data::List(items) => {
            let mut out: Vec<Data> = Vec::new();
            let mut i: usize = 0;
            while i < items.len()
                invariant
                    *d == Data::List(*items),
                    i <= items@.len(),
                    out@.len() == i,
                    forall|j: int| 0 <= j < i ==> data_eq(#[trigger] items@[j], out@[j]),
                decreases items@.len() - i,
            {
                proof {
                    assert(decreases_to!(*d => (*d)->List_0));
                    assert(decreases_to!(*items => items@));
                    assert(decreases_to!(items@ => items@[i as int]));
                }
                out.push(copy_data(&items[i]));
                i += 1;
            }
            Data::List(out)
        },
        Data::Dict(entries) => {
            let mut out: Vec<(String, Data)> = Vec::new();
            let mut i: usize = 0;
            while i < entries.len()
                invariant
                    *d == Data::Dict(*entries),
                    i <= entries@.len(),
                    out@.len() == i,
                    forall|j: int|
                        0 <= j < i ==> {
                            &&& out@[j].0@ == (#[trigger] entries@[j]).0@
                            &&& data_eq(entries@[j].1, out@[j].1)
                        },
                decreases entries@.len() - i,
            {
                proof {
                    let entry = entries@[i as int];
                    assert(decreases_to!(*d => (*d)->Dict_0));
                    assert(decreases_to!(*entries => entries@));
                    assert(decreases_to!(entries@ => entry));
                    assert(decreases_to!(entry => entry.1));
                }
                let key = entries[i].0.clone();
                let value = copy_data(&entries[i].1);
                out.push((key, value));
                i += 1;
            }
            Data::Dict(out)
        },
    }
}

impl Clone for Data {
    fn clone(&self) -> (r: Data)
        ensures
            data_eq(*self, r),
    {
        copy_data(self)
    }
}

impl Default for Data {
    fn default() -> (r: Data)
        ensures
            r is Empty,
    {
        Data::Empty
    }
}

/// An application definition: its tag, the hash of its verification key,
/// and its parameters.
#[derive(Debug, Clone, PartialEq, Eq)]
pub struct App {
    /// Selects the family of rules (the text before `:`) and names the
    /// application instance (the rest).
    pub tag: String,
    /// Hash of the application's verification key.
    pub vk_hash: [u8; 32],
    /// Application-specific parameters.
    pub params: Data,
}

impl App {
    /// An application with no parameters.
    pub fn new(tag: &str, vk_hash: [u8; 32]) -> (r: App)
        ensures
            r.tag@ == tag@,
            r.vk_hash@ == vk_hash@,
            r.params is Empty,
    {
        App { tag: tag.to_owned(), vk_hash, params: Data::Empty }
    }

    /// An application with the given parameters.
    pub fn with_params(tag: &str, vk_hash: [u8; 32], params: Data) -> (r: App)
        ensures
            r.tag@ == tag@,
            r.vk_hash@ == vk_hash@,
            r.params == params,
    {
        App { tag: tag.to_owned(), vk_hash, params }
    }
}

/// A reference to a spendable output of an earlier transaction.
#[derive(Debug, Clone, PartialEq, Eq)]
pub struct UtxoRef {
    /// Id of the transaction that created the output.
    pub txid: [u8; 32],
    /// Index of the output within that transaction.
    pub vout: u32,
}

/// The value of a key in a list of entries: the last entry with that key.
pub open spec fn lookup(entries: Seq<(String, Data)>, key: Seq<char>) -> Option<Data>
    decreases entries.len(),
{
    if entries.len() == 0 {
        None
    } else if entries.last().0@ == key {
        Some(entries.last().1)
    } else {
        lookup(entries.drop_last(), key)
    }
}

/// The keys of a list of entries with their values.
pub open spec fn entries_view(entries: Seq<(String, Data)>) -> Map<Seq<char>, Data> {
    Map::new(|k: Seq<char>| lookup(entries, k) is Some, |k: Seq<char>| lookup(entries, k)->0)
}

/// `a` comes before `b` in the order of their characters (by code point),
/// a proper prefix first.
pub open spec fn key_lt(a: Seq<char>, b: Seq<char>) -> bool
    decreases a.len(),
{
    if b.len() == 0 {
        false
    } else if a.len() == 0 {
        true
    } else if a[0] != b[0] {
        (a[0] as int) < (b[0] as int)
    } else {
        key_lt(a.drop_first(), b.drop_first())
    }
}

/// Of two different keys, one comes first.
proof fn lemma_key_lt_total(a: Seq<char>, b: Seq<char>)
    requires
        a != b,
    ensures
        key_lt(a, b) || key_lt(b, a),
    decreases a.len(),
{
    if a.len() > 0 && b.len() > 0 && a[0] == b[0] {
        if a.drop_first() == b.drop_first() {
            assert(a =~= seq![a[0]] + a.drop_first());
            assert(b =~= seq![b[0]] + b.drop_first());
        }
        lemma_key_lt_total(a.drop_first(), b.drop_first());
    } else if a.len() > 0 && b.len() > 0 {
        assert((a[0] as int) != (b[0] as int));
    } else if a.len() == 0 && b.len() == 0 {
        assert(a =~= b);
    }
}

/// Whether `a` comes before `b` in the order of their characters.
pub fn key_less(a: &str, b: &str) -> (r: bool)
    ensures
        r == key_lt(a@, b@),
{
    let n = a.unicode_len();
    let m = b.unicode_len();
    let mut i: usize = 0;
    assert(a@.skip(0) =~= a@ && b@.skip(0) =~= b@);
    while i < n && i < m
        invariant
            n == a@.len(),
            m == b@.len(),
            i <= n && i <= m,
            key_lt(a@, b@) == key_lt(a@.skip(i as int), b@.skip(i as int)),
        decreases n - i,
    {
        let x = a.get_char(i);
        let y = b.get_char(i);
        assert(a@.skip(i as int)[0] == x && b@.skip(i as int)[0] == y);
        if x != y {
            return (x as u32) < (y as u32);
        }
        assert(a@.skip(i as int).drop_first() =~= a@.skip(i + 1));
        assert(b@.skip(i as int).drop_first() =~= b@.skip(i + 1));
        i += 1;
    }
    assert(a@.skip(i as int).len() == n - i && b@.skip(i as int).len() == m - i);
    i < m
}

/// No key comes before itself.
proof fn lemma_key_lt_irreflexive(a: Seq<char>)
    ensures
        !key_lt(a, a),
    decreases a.len(),
{
    if a.len() > 0 {
        lemma_key_lt_irreflexive(a.drop_first());
    }
}

/// The order of keys is transitive.
proof fn lemma_key_lt_transitive(a: Seq<char>, b: Seq<char>, c: Seq<char>)
    requires
        key_lt(a, b),
        key_lt(b, c),
    ensures
        key_lt(a, c),
    decreases a.len(),
{
    if a.len() > 0 && b.len() > 0 && c.len() > 0 && a[0] == b[0] && b[0] == c[0] {
        lemma_key_lt_transitive(a.drop_first(), b.drop_first(), c.drop_first());
    }
}

/// Each key comes before the next.
pub open spec fn keys_sorted(entries: Seq<(String, Data)>) -> bool {
    forall|i: int| 0 <= i < entries.len() - 1 ==> key_lt(#[trigger] entries[i].0@, entries[i + 1].0@)
}

/// In sorted entries each key comes before every later one.
proof fn lemma_sorted_before(entries: Seq<(String, Data)>, i: int, j: int)
    requires
        keys_sorted(entries),
        0 <= i < j < entries.len(),
    ensures
        key_lt(entries[i].0@, entries[j].0@),
    decreases j - i,
{
    if j > i + 1 {
        lemma_sorted_before(entries, i, j - 1);
        lemma_key_lt_transitive(entries[i].0@, entries[j - 1].0@, entries[j].0@);
    }
}

/// Sorted entries have no repeated key.
pub proof fn lemma_sorted_keys_unique(entries: Seq<(String, Data)>)
    requires
        keys_sorted(entries),
    ensures
        keys_unique(entries),
{
    assert forall|i: int, j: int| 0 <= i < j < entries.len() implies #[trigger] entries[i].0@
        != #[trigger] entries[j].0@ by {
        lemma_sorted_before(entries, i, j);
        lemma_key_lt_irreflexive(entries[i].0@);
    }
}

/// Every `Dict` within a value has its keys in increasing order, so no key
/// repeats.
pub open spec fn data_wf(d: Data) -> bool
    decreases d,
{
    match d {
        Data::List(x) => forall|i: int| 0 <= i < x@.len() ==> data_wf(#[trigger] x@[i]),
        Data::Dict(x) => {
            &&& keys_sorted(x@)
            &&& forall|i: int| 0 <= i < x@.len() ==> data_wf((#[trigger] x@[i]).1)
        },
        _ => true,
    }
}

/// No two entries have the same key.
pub open spec fn keys_unique(entries: Seq<(String, Data)>) -> bool {
    forall|i: int, j: int|
        0 <= i < j < entries.len() ==> #[trigger] entries[i].0@ != #[trigger] entries[j].0@
}

/// Replacing the value of an entry whose key is unique changes the value of
/// that key and no other.
proof fn lemma_lookup_update(entries: Seq<(String, Data)>, i: int, entry: (String, Data), key: Seq<char>)
    requires
        keys_unique(entries),
        0 <= i < entries.len(),
        entries[i].0@ == entry.0@,
    ensures
        lookup(entries.update(i, entry), key) == if key == entry.0@ {
            Some(entry.1)
        } else {
            lookup(entries, key)
        },
    decreases entries.len(),
{
    let updated = entries.update(i, entry);
    if i == entries.len() - 1 {
        assert(updated.drop_last() =~= entries.drop_last());
        if key != entry.0@ {
            assert(entries.last().0@ != key);
        }
    } else {
        assert(updated.drop_last() =~= entries.drop_last().update(i, entry));
        assert(entries.last().0@ != entry.0@);
        lemma_lookup_update(entries.drop_last(), i, entry, key);
    }
}

/// Inserting an entry whose key is new gives that key its value and changes
/// no other.
proof fn lemma_lookup_insert(entries: Seq<(String, Data)>, p: int, entry: (String, Data), key: Seq<char>)
    requires
        0 <= p <= entries.len(),
        forall|j: int| 0 <= j < entries.len() ==> (#[trigger] entries[j]).0@ != entry.0@,
    ensures
        lookup(entries.insert(p, entry), key) == if key == entry.0@ {
            Some(entry.1)
        } else {
            lookup(entries, key)
        },
    decreases entries.len(),
{
    let inserted = entries.insert(p, entry);
    if p == entries.len() {
        assert(inserted.drop_last() =~= entries);
    } else {
        assert(inserted.drop_last() =~= entries.drop_last().insert(p, entry));
        assert(inserted.last() == entries.last());
        assert(entries.last().0@ != entry.0@);
        lemma_lookup_insert(entries.drop_last(), p, entry, key);
    }
}

/// The application state attached to an output: the value of each
/// application tag.
///
/// Each tag has at most one entry, and the entries are kept in the order of
/// their tags, so two states with the same tags and values are equal
/// however they were built.
#[derive(Debug, Clone, PartialEq, Eq)]
pub struct CharmState {
    /// The tags with their values.
    pub apps: Vec<(String, Data)>,
}

impl View for CharmState {
    type V = Map<Seq<char>, Data>;

    open spec fn view(&self) -> Map<Seq<char>, Data> {
        entries_view(self.apps@)
    }
}

impl CharmState {
    /// Each tag has at most one entry, and the tags are in increasing order.
    pub open spec fn wf(&self) -> bool {
        keys_unique(self.apps@) && keys_sorted(self.apps@)
    }

    /// A state with no entries.
    pub fn new() -> (r: CharmState)
        ensures
            r.wf(),
            r@ == Map::<Seq<char>, Data>::empty(),
    {
        let r = CharmState { apps: Vec::new() };
        assert(r@ =~= Map::<Seq<char>, Data>::empty());
        r
    }

    /// This state with `tag` set to `state`, replacing an earlier value.
    pub fn with_app(self, tag: &str, state: Data) -> (r: CharmState)
        requires
            self.wf(),
        ensures
            r.wf(),
            r@ == self@.insert(tag@, state),
    {
        let ghost old_apps = self.apps@;
        let ghost old_view = entries_view(old_apps);
        let mut apps = self.apps;
        let key = tag.to_owned();
        let mut i: usize = 0;
        while i < apps.len()
            invariant
                apps@ == old_apps,
                old_view == entries_view(old_apps),
                self@ == old_view,
                keys_unique(old_apps),
                keys_sorted(old_apps),
                key@ == tag@,
                i <= apps@.len(),
                forall|j: int| 0 <= j < i ==> (#[trigger] apps@[j]).0@ != key@,
            decreases apps@.len() - i,
        {
            if apps[i].0 == key {
                let ghost before = apps@;
                apps.set(i, (key, state));
                proof {
                    assert forall|k: Seq<char>|
                        lookup(apps@, k) == if k == tag@ {
                            Some(state)
                        } else {
                            lookup(before, k)
                        } by {
                        lemma_lookup_update(before, i as int, (key, state), k);
                    }
                    assert forall|j: int| 0 <= j < apps@.len() implies (#[trigger] apps@[j]).0@
                        == before[j].0@ by {}
                    assert(keys_unique(apps@));
                    assert(keys_sorted(apps@));
                }
                let r = CharmState { apps };
                assert(r@ =~= old_view.insert(tag@, state));
                return r;
            }
            i += 1;
        }
        let mut p: usize = 0;
        while p < apps.len() && !key_less(key.as_str(), apps[p].0.as_str())
            invariant
                apps@ == old_apps,
                key@ == tag@,
                p <= apps@.len(),
                forall|j: int| 0 <= j < apps@.len() ==> (#[trigger] apps@[j]).0@ != key@,
                forall|j: int| 0 <= j < p ==> !key_lt(key@, (#[trigger] apps@[j]).0@),
            decreases apps@.len() - p,
        {
            p += 1;
        }
        let ghost before = apps@;
        apps.insert(p, (key, state));
        proof {
            assert forall|k: Seq<char>|
                lookup(apps@, k) == if k == tag@ {
                    Some(state)
                } else {
                    lookup(before, k)
                } by {
                lemma_lookup_insert(before, p as int, (key, state), k);
            }
            assert forall|a: int, b: int|
                0 <= a < b < apps@.len() implies #[trigger] apps@[a].0@ != #[trigger] apps@[b].0@ by {
                if a < p && b > p {
                    assert(before[a] == apps@[a] && before[b - 1] == apps@[b]);
                } else if b < p {
                    assert(before[a] == apps@[a] && before[b] == apps@[b]);
                } else if a > p {
                    assert(before[a - 1] == apps@[a] && before[b - 1] == apps@[b]);
                } else if a == p {
                    assert(before[b - 1] == apps@[b]);
                } else {
                    assert(before[a] == apps@[a]);
                }
            }
            assert forall|j: int| 0 <= j < apps@.len() - 1 implies key_lt(
                #[trigger] apps@[j].0@,
                apps@[j + 1].0@,
            ) by {
                if j + 1 < p {
                    assert(before[j] == apps@[j] && before[j + 1] == apps@[j + 1]);
                } else if j + 1 == p {
                    assert(before[j] == apps@[j]);
                    lemma_key_lt_total(before[j].0@, key@);
                } else if j == p {
                    assert(before[p as int] == apps@[j + 1]);
                } else {
                    assert(before[j - 1] == apps@[j] && before[j] == apps@[j + 1]);
                }
            }
        }
        let r = CharmState { apps };
        assert(r@ =~= old_view.insert(tag@, state));
        r
    }

    /// A state holding the given entries, in order; a later entry for a tag
    /// replaces an earlier one.
    pub fn from_entries(entries: Vec<(String, Data)>) -> (r: CharmState)
        ensures
            r.wf(),
            r@ == entries_view(entries@),
    {
        let ghost all = entries@;
        let n = entries.len();
        let mut r = CharmState::new();
        let mut i: usize = 0;
        let mut rest = entries;
        assert(r@ =~= entries_view(all.subrange(0, 0)));
        while rest.len() > 0
            invariant
                i + rest@.len() == all.len(),
                all.len() == n,
                rest@ == all.subrange(i as int, all.len() as int),
                r.wf(),
                r@ == entries_view(all.subrange(0, i as int)),
            decreases rest@.len(),
        {
            let (key, value) = rest.remove(0);
            proof {
                let next = all.subrange(0, i + 1);
                assert(next.drop_last() =~= all.subrange(0, i as int));
                assert(next.last() == all[i as int]);
                assert(entries_view(next) =~= entries_view(all.subrange(0, i as int)).insert(key@, value));
            }
            r = r.with_app(key.as_str(), value);
            i += 1;
        }
        assert(all.subrange(0, i as int) =~= all);
        r
    }

    /// The value of `tag`, if it has one.
    pub fn get(&self, tag: &str) -> (r: Option<&Data>)
        ensures
            match r {
                Some(d) => self@.contains_key(tag@) && self@[tag@] == *d,
                None => !self@.contains_key(tag@),
            },
    {
        let key = tag.to_owned();
        let mut i: usize = self.apps.len();
        assert(self.apps@.subrange(0, i as int) =~= self.apps@);
        while i > 0
            invariant
                key@ == tag@,
                i <= self.apps@.len(),
                lookup(self.apps@, key@) == lookup(self.apps@.subrange(0, i as int), key@),
            decreases i,
        {
            let ghost prefix = self.apps@.subrange(0, i as int);
            assert(prefix.drop_last() =~= self.apps@.subrange(0, i - 1));
            if self.apps[i - 1].0 == key {
                assert(prefix.last() == self.apps@[i - 1]);
                return Some(&self.apps[i - 1].1);
            }
            i -= 1;
        }
        None
    }
}

impl Default for CharmState {
    fn default() -> (r: CharmState)
        ensures
            r.wf(),
            r@ == Map::<Seq<char>, Data>::empty(),
    {
        CharmState::new()
    }
}

/// A transaction input: the output it spends and that output's state.
#[derive(Debug, Clone, PartialEq, Eq)]
pub struct TxInput {
    /// The output being spent.
    pub utxo_ref: UtxoRef,
    /// Application state attached to the spent output, if any.
    pub charm_state: Option<CharmState>,
}

/// A transaction output.
#[derive(Debug, Clone, PartialEq, Eq)]
pub struct TxOutput {
    /// Identity of the output within its transaction.
    pub index: u32,
    /// Amount of the underlying currency, in its smallest unit.
    pub value: u64,
    /// Locking script.
    pub script_pubkey: Vec<u8>,
    /// Application state attached to this output, if any.
    pub charm_state: Option<CharmState>,
}

/// A transaction with the application state of its inputs and outputs.
#[derive(Debug, Clone, PartialEq, Eq)]
pub struct Transaction {
    /// Transaction id.
    pub txid: [u8; 32],
    /// Inputs, in order.
    pub inputs: Vec<TxInput>,
    /// Outputs, in order.
    pub outputs: Vec<TxOutput>,
    /// The spell carried by the transaction, if any.
    pub spell: Option<NormalizedSpell>,
}

impl Transaction {
    /// A transaction with no inputs, no outputs and no spell.
    pub fn new(txid: [u8; 32]) -> (r: Transaction)
        ensures
            r.txid@ == txid@,
            r.inputs@.len() == 0,
            r.outputs@.len() == 0,
            r.spell is None,
    {
        Transaction { txid, inputs: Vec::new(), outputs: Vec::new(), spell: None }
    }

    /// Appends an input.
    pub fn add_input(&mut self, input: TxInput)
        ensures
            final(self).inputs@ == old(self).inputs@.push(input),
            final(self).outputs@ == old(self).outputs@,
            final(self).txid == old(self).txid,
            final(self).spell == old(self).spell,
    {
        self.inputs.push(input);
    }

    /// Appends an output.
    pub fn add_output(&mut self, output: TxOutput)
        ensures
            final(self).outputs@ == old(self).outputs@.push(output),
            final(self).inputs@ == old(self).inputs@,
            final(self).txid == old(self).txid,
            final(self).spell == old(self).spell,
    {
        self.outputs.push(output);
    }

    /// Whether the spell, if there is one, is well formed.
    pub fn verify_spell(&self) -> (r: bool)
        ensures
            r == match self.spell {
                Some(spell) => spell.well_formed(),
                None => true,
            },
    {
        match &self.spell {
            Some(spell) => spell.verify(),
            None => true,
        }
    }
}

/// The application state that a spell declares, normalized for checking.
#[derive(Debug, Clone, PartialEq, Eq)]
pub struct NormalizedSpell {
    /// Protocol version.
    pub version: u32,
    /// Declared inputs.
    pub ins: Vec<SpellInput>,
    /// Declared outputs.
    pub outs: Vec<SpellOutput>,
}

impl NormalizedSpell {
    /// A positive version and at least one declared input and one declared
    /// output.
    pub open spec fn well_formed(self) -> bool {
        self.version > 0 && self.ins@.len() > 0 && self.outs@.len() > 0
    }

    /// A spell with no inputs and no outputs.
    pub fn new(version: u32) -> (r: NormalizedSpell)
        ensures
            r.version == version,
            r.ins@.len() == 0,
            r.outs@.len() == 0,
    {
        NormalizedSpell { version, ins: Vec::new(), outs: Vec::new() }
    }

    /// Whether the spell is well formed.
    pub fn verify(&self) -> (r: bool)
        ensures
            r == self.well_formed(),
    {
        self.version > 0 && !self.ins.is_empty() && !self.outs.is_empty()
    }
}

/// An input declared by a spell.
#[derive(Debug, Clone, PartialEq, Eq)]
pub struct SpellInput {
    /// The output being spent.
    pub utxo_ref: UtxoRef,
    /// Its declared application state.
    pub charms: Option<CharmState>,
}

/// An output declared by a spell.
#[derive(Debug, Clone, PartialEq, Eq)]
pub struct SpellOutput {
    /// Identity of the output within its transaction.
    pub index: u32,
    /// Its declared application state.
    pub charms: Option<CharmState>,
}

/// The value stored under `tag` in an optional state.
pub open spec fn tagged_value(state: Option<CharmState>, tag: Seq<char>) -> Option<Data> {
    match state {
        Some(s) => lookup(s.apps@, tag),
        None => None,
    }
}

/// The value stored under `tag` by each input, in input order.
pub open spec fn input_values(tx: Transaction, tag: Seq<char>) -> Seq<Option<Data>> {
    tx.inputs@.map_values(|i: TxInput| tagged_value(i.charm_state, tag))
}

/// The value stored under `tag` by each output, in output order.
pub open spec fn output_values(tx: Transaction, tag: Seq<char>) -> Seq<Option<Data>> {
    tx.outputs@.map_values(|o: TxOutput| tagged_value(o.charm_state, tag))
}

/// The value stored under `tag` in an optional state.
pub fn tagged<'a>(state: &'a Option<CharmState>, tag: &str) -> (r: Option<&'a Data>)
    ensures
        match r {
            Some(d) => tagged_value(*state, tag@) == Some(*d),
            None => tagged_value(*state, tag@) is None,
        },
{
    match state {
        Some(s) => s.get(tag),
        None => None,
    }
}

} // verus!
