//! The form of the data model on a cross-language boundary, where byte
//! strings travel as hexadecimal text.
use vstd::prelude::*;
use vstd::string::*;
use vstd::array::*;
use crate::data::{
    data_eq, data_wf, entries_view, key_less, key_lt, keys_sorted, App, CharmState, Data, NormalizedSpell, SpellInput, SpellOutput,
    Transaction, TxInput, TxOutput, UtxoRef,
};

verus! {

/// The lowercase hexadecimal digit of a value below 16.
pub open spec fn hex_digit(n: int) -> char {
    if n < 10 {
        ((n + 48) as u8) as char
    } else {
        ((n + 87) as u8) as char
    }
}

/// Two lowercase hexadecimal digits for each byte, high digit first.
pub open spec fn hex_of(b: Seq<u8>) -> Seq<char>
    decreases b.len(),
{
    if b.len() == 0 {
        Seq::empty()
    } else {
        hex_of(b.drop_last()).push(hex_digit(b.last() as int / 16)).push(hex_digit(b.last() as int % 16))
    }
}

/// The hexadecimal digit of a value below 16, as text.
pub(crate) fn digit_text(n: u8) -> (r: &'static str)
    requires
        n < 16,
    ensures
        r@ == seq![hex_digit(n as int)],
{
    if n == 0 {
        proof {
            reveal_strlit("0");
        }
        "0"
    } else if n == 1 {
        proof {
            reveal_strlit("1");
        }
        "1"
    } else if n == 2 {
        proof {
            reveal_strlit("2");
        }
        "2"
    } else if n == 3 {
        proof {
            reveal_strlit("3");
        }
        "3"
    } else if n == 4 {
        proof {
            reveal_strlit("4");
        }
        "4"
    } else if n == 5 {
        proof {
            reveal_strlit("5");
        }
        "5"
    } else if n == 6 {
        proof {
            reveal_strlit("6");
        }
        "6"
    } else if n == 7 {
        proof {
            reveal_strlit("7");
        }
        "7"
    } else if n == 8 {
        proof {
            reveal_strlit("8");
        }
        "8"
    } else if n == 9 {
        proof {
            reveal_strlit("9");
        }
        "9"
    } else if n == 10 {
        proof {
            reveal_strlit("a");
        }
        "a"
    } else if n == 11 {
        proof {
            reveal_strlit("b");
        }
        "b"
    } else if n == 12 {
        proof {
            reveal_strlit("c");
        }
        "c"
    } else if n == 13 {
        proof {
            reveal_strlit("d");
        }
        "d"
    } else if n == 14 {
        proof {
            reveal_strlit("e");
        }
        "e"
    } else {
        proof {
            reveal_strlit("f");
        }
        "f"
    }
}

/// The lowercase hexadecimal text of a byte string.
pub fn hex_encode(b: &[u8]) -> (r: String)
    ensures
        r@ == hex_of(b@),
{
    let mut r = String::new();
    let mut i: usize = 0;
    while i < b.len()
        invariant
            i <= b@.len(),
            r@ == hex_of(b@.subrange(0, i as int)),
        decreases b@.len() - i,
    {
        let byte = b[i];
        r.append(digit_text(byte / 16));
        r.append(digit_text(byte % 16));
        assert(b@.subrange(0, i + 1).drop_last() =~= b@.subrange(0, i as int));
        i += 1;
    }
    assert(b@.subrange(0, i as int) =~= b@);
    r
}

/// The value of a hexadecimal digit of either case.
pub open spec fn hex_value(c: char) -> Option<u8> {
    if '0' <= c && c <= '9' {
        Some((c as u32 - 48) as u8)
    } else if 'a' <= c && c <= 'f' {
        Some((c as u32 - 87) as u8)
    } else if 'A' <= c && c <= 'F' {
        Some((c as u32 - 55) as u8)
    } else {
        None
    }
}

/// The bytes that hexadecimal text spells, two digits for each byte, high
/// digit first; `None` for text of odd length or with a character that is
/// not a digit.
pub open spec fn hex_bytes(s: Seq<char>) -> Option<Seq<u8>>
    decreases s.len(),
{
    if s.len() == 0 {
        Some(Seq::empty())
    } else if s.len() == 1 {
        None
    } else {
        match (
            hex_bytes(s.subrange(0, s.len() - 2)),
            hex_value(s[s.len() - 2]),
            hex_value(s[s.len() - 1]),
        ) {
            (Some(b), Some(h), Some(l)) => Some(b.push((h * 16 + l) as u8)),
            _ => None,
        }
    }
}

/// Hexadecimal text that spells bytes spells them in each of its prefixes of
/// even length.
proof fn lemma_hex_prefix(s: Seq<char>, k: int)
    requires
        0 <= k <= s.len(),
        k % 2 == 0,
        hex_bytes(s) is Some,
    ensures
        hex_bytes(s.subrange(0, k)) is Some,
        hex_bytes(s.subrange(0, k))->0.len() == k / 2,
    decreases s.len(),
{
    lemma_hex_odd(s);
    if s.len() >= 2 {
        let init = s.subrange(0, s.len() - 2);
        if k == s.len() {
            assert(s.subrange(0, k) =~= s);
            lemma_hex_prefix(init, k - 2);
            assert(init.subrange(0, k - 2) =~= init);
        } else {
            lemma_hex_prefix(init, k);
            assert(init.subrange(0, k) =~= s.subrange(0, k));
        }
    } else {
        assert(s.subrange(0, k) =~= Seq::<char>::empty());
    }
}

/// Reading back the text of bytes gives the same bytes.
pub proof fn lemma_hex_round_trip(b: Seq<u8>)
    ensures
        hex_bytes(hex_of(b)) == Some(b),
    decreases b.len(),
{
    if b.len() > 0 {
        let s = hex_of(b);
        let x = b.last();
        lemma_hex_round_trip(b.drop_last());
        assert(s.subrange(0, s.len() - 2) =~= hex_of(b.drop_last()));
        assert(hex_value(hex_digit(x as int / 16)) == Some((x / 16) as u8));
        assert(hex_value(hex_digit(x as int % 16)) == Some((x % 16) as u8));
        assert(b.drop_last().push(x) =~= b);
    }
}

/// The value of a hexadecimal digit of either case.
fn digit_value(c: char) -> (r: Option<u8>)
    ensures
        r == hex_value(c),
{
    if '0' <= c && c <= '9' {
        Some((c as u32 - 48) as u8)
    } else if 'a' <= c && c <= 'f' {
        Some((c as u32 - 87) as u8)
    } else if 'A' <= c && c <= 'F' {
        Some((c as u32 - 55) as u8)
    } else {
        None
    }
}

/// The bytes that hexadecimal text spells, if it spells any.
pub fn hex_decode(s: &str) -> (r: Option<Vec<u8>>)
    ensures
        match r {
            Some(v) => hex_bytes(s@) == Some(v@),
            None => hex_bytes(s@) is None,
        },
{
    let n = s.unicode_len();
    let mut out: Vec<u8> = Vec::new();
    let mut i: usize = 0;
    assert(s@.subrange(0, 0) =~= Seq::<char>::empty());
    while i + 1 < n
        invariant
            n == s@.len(),
            i <= n,
            i % 2 == 0,
            hex_bytes(s@.subrange(0, i as int)) == Some(out@),
        decreases n - i,
    {
        let ghost prefix = s@.subrange(0, i + 2);
        assert(prefix.subrange(0, i as int) =~= s@.subrange(0, i as int));
        let high = digit_value(s.get_char(i));
        let low = digit_value(s.get_char(i + 1));
        match (high, low) {
            (Some(h), Some(l)) => {
                out.push(h * 16 + l);
            },
            _ => {
                proof {
                    if hex_bytes(s@) is Some {
                        lemma_hex_prefix(s@, i + 2);
                    }
                }
                return None;
            },
        }
        i += 2;
    }
    if i < n {
        proof {
            if hex_bytes(s@) is Some {
                lemma_hex_prefix(s@, i as int);
            }
            lemma_hex_odd(s@);
        }
        return None;
    }
    assert(s@.subrange(0, i as int) =~= s@);
    Some(out)
}

/// Text of odd length spells no bytes.
proof fn lemma_hex_odd(s: Seq<char>)
    ensures
        s.len() % 2 == 1 ==> hex_bytes(s) is None,
    decreases s.len(),
{
    if s.len() >= 2 {
        lemma_hex_odd(s.subrange(0, s.len() - 2));
    }
}

/// A value as it crosses the boundary: as `Data`, with each byte string
/// written as hexadecimal text.
#[derive(Debug, PartialEq, Eq)]
pub enum WasmData {
    Empty,
    Bool(bool),
    U64(u64),
    I64(i64),
    /// Hexadecimal text of the bytes.
    Bytes(String),
    String(String),
    List(Vec<WasmData>),
    Dict(Vec<(String, WasmData)>),
}

/// `w` is the boundary form of `d`: the same variants and contents, byte
/// strings as lowercase hexadecimal text.
pub open spec fn encodes(d: Data, w: WasmData) -> bool
    decreases d,
{
    match d {
        Data::Empty => w is Empty,
        Data::Bool(x) => w is Bool && w->Bool_0 == x,
        Data::U64(x) => w is U64 && w->U64_0 == x,
        Data::I64(x) => w is I64 && w->I64_0 == x,
        Data::Bytes(x) => w is Bytes && w->Bytes_0@ == hex_of(x@),
        Data::String(x) => w is String && w->String_0@ == x@,
        Data::List(x) => {
            &&& w is List
            &&& w->List_0@.len() == x@.len()
            &&& forall|i: int|
                0 <= i < x@.len() ==> encodes(#[trigger] x@[i], w->List_0@[i])
        },
        Data::Dict(x) => {
            &&& w is Dict
            &&& w->Dict_0@.len() == x@.len()
            &&& forall|i: int|
                0 <= i < x@.len() ==> {
                    &&& w->Dict_0@[i].0@ == (#[trigger] x@[i]).0@
                    &&& encodes(x@[i].1, w->Dict_0@[i].1)
                }
        },
    }
}

/// `d` is read from the boundary form `w`: the same variants and contents,
/// byte strings read from hexadecimal text.
pub open spec fn decodes(w: WasmData, d: Data) -> bool
    decreases w,
{
    match w {
        WasmData::Empty => d is Empty,
        WasmData::Bool(x) => d is Bool && d->Bool_0 == x,
        WasmData::U64(x) => d is U64 && d->U64_0 == x,
        WasmData::I64(x) => d is I64 && d->I64_0 == x,
        WasmData::Bytes(x) => d is Bytes && hex_bytes(x@) == Some(d->Bytes_0@),
        WasmData::String(x) => d is String && d->String_0@ == x@,
        WasmData::List(x) => {
            &&& d is List
            &&& d->List_0@.len() == x@.len()
            &&& forall|i: int|
                0 <= i < x@.len() ==> decodes(#[trigger] x@[i], d->List_0@[i])
        },
        WasmData::Dict(x) => {
            &&& d is Dict
            &&& d->Dict_0@.len() == x@.len()
            &&& forall|i: int|
                0 <= i < x@.len() ==> {
                    &&& d->Dict_0@[i].0@ == (#[trigger] x@[i]).0@
                    &&& decodes(x@[i].1, d->Dict_0@[i].1)
                }
        },
    }
}

/// Each key of a dictionary comes before the next.
pub open spec fn wasm_keys_sorted(x: Seq<(String, WasmData)>) -> bool {
    forall|i: int| 0 <= i < x.len() - 1 ==> key_lt(#[trigger] x[i].0@, x[i + 1].0@)
}

/// Every byte string in `w` is valid hexadecimal text, and the keys of every
/// dictionary are in increasing order.
pub open spec fn decodable(w: WasmData) -> bool
    decreases w,
{
    match w {
        WasmData::Bytes(x) => hex_bytes(x@) is Some,
        WasmData::List(x) => forall|i: int| 0 <= i < x@.len() ==> decodable(#[trigger] x@[i]),
        WasmData::Dict(x) => {
            &&& wasm_keys_sorted(x@)
            &&& forall|i: int| 0 <= i < x@.len() ==> decodable((#[trigger] x@[i]).1)
        },
        _ => true,
    }
}

/// The boundary form of a value.
pub fn to_wasm_data(d: &Data) -> (r: WasmData)
    ensures
        encodes(*d, r),
    decreases d,
{
    match d {
        Data::Empty => WasmData::Empty,
        Data::Bool(b) => WasmData::Bool(*b),
        Data::U64(v) => WasmData::U64(*v),
        Data::I64(v) => WasmData::I64(*v),
        Data::Bytes(b) => WasmData::Bytes(hex_encode(b.as_slice())),
        Data::String(s) => WasmData::String(s.clone()),
        Data::List(items) => {
            let mut out: Vec<WasmData> = Vec::new();
            let mut i: usize = 0;
            while i < items.len()
                invariant
                    *d == Data::List(*items),
                    i <= items@.len(),
                    out@.len() == i,
                    forall|j: int| 0 <= j < i ==> encodes(#[trigger] items@[j], out@[j]),
                decreases items@.len() - i,
            {
                proof {
                    assert(decreases_to!(*d => (*d)->List_0));
                    assert(decreases_to!(*items => items@));
                    assert(decreases_to!(items@ => items@[i as int]));
                }
                out.push(to_wasm_data(&items[i]));
                i += 1;
            }
            WasmData::List(out)
        },
        Data::Dict(entries) => {
            let mut out: Vec<(String, WasmData)> = Vec::new();
            let mut i: usize = 0;
            while i < entries.len()
                invariant
                    *d == Data::Dict(*entries),
                    i <= entries@.len(),
                    out@.len() == i,
                    forall|j: int|
                        0 <= j < i ==> {
                            &&& out@[j].0@ == (#[trigger] entries@[j]).0@
                            &&& encodes(entries@[j].1, out@[j].1)
                        },
                decreases entries@.len() - i,
            {
                proof {
                    let entry = entries@[i as int];
                    assert(decreases_to!(*d => (*d)->Dict_0));
                    assert(decreases_to!(*entries => entries@));
                    assert(decreases_to!(entries@ => entry));
                    assert(decreases_to!(entry => entry.1));
                }
                let key = entries[i].0.clone();
                let value = to_wasm_data(&entries[i].1);
                out.push((key, value));
                i += 1;
            }
            WasmData::Dict(out)
        },
    }
}

/// The value that a boundary form holds; `None` when a byte string is not
/// valid hexadecimal text or the keys of a dictionary are out of order.
pub fn from_wasm_data(w: &WasmData) -> (r: Option<Data>)
    ensures
        match r {
            Some(d) => decodes(*w, d) && data_wf(d),
            None => !decodable(*w),
        },
    decreases w,
{
    match w {
        WasmData::Empty => Some(Data::Empty),
        WasmData::Bool(b) => Some(Data::Bool(*b)),
        WasmData::U64(v) => Some(Data::U64(*v)),
        WasmData::I64(v) => Some(Data::I64(*v)),
        WasmData::Bytes(s) => match hex_decode(s.as_str()) {
            Some(b) => Some(Data::Bytes(b)),
            None => None,
        },
        WasmData::String(s) => Some(Data::String(s.clone())),
        WasmData::List(items) => {
            let mut out: Vec<Data> = Vec::new();
            let mut i: usize = 0;
            while i < items.len()
                invariant
                    *w == WasmData::List(*items),
                    i <= items@.len(),
                    out@.len() == i,
                    forall|j: int| 0 <= j < i ==> decodes(#[trigger] items@[j], out@[j]),
                    forall|j: int| 0 <= j < i ==> data_wf(#[trigger] out@[j]),
                decreases items@.len() - i,
            {
                proof {
                    assert(decreases_to!(*w => (*w)->List_0));
                    assert(decreases_to!(*items => items@));
                    assert(decreases_to!(items@ => items@[i as int]));
                }
                match from_wasm_data(&items[i]) {
                    Some(d) => out.push(d),
                    None => return None,
                }
                i += 1;
            }
            let r = Data::List(out);
            assert(data_wf(r));
            Some(r)
        },
        WasmData::Dict(entries) => {
            let mut k: usize = 1;
            while k < entries.len()
                invariant
                    *w == WasmData::Dict(*entries),
                    1 <= k,
                    forall|j: int|
                        0 <= j < k - 1 && j < entries@.len() - 1 ==> key_lt(
                            #[trigger] entries@[j].0@,
                            entries@[j + 1].0@,
                        ),
                decreases entries@.len() - k,
            {
                if !key_less(entries[k - 1].0.as_str(), entries[k].0.as_str()) {
                    assert(!key_lt(entries@[k - 1].0@, entries@[(k - 1) + 1].0@));
                    assert(!wasm_keys_sorted(entries@));
                    return None;
                }
                k += 1;
            }
            assert(wasm_keys_sorted(entries@));
            let mut out: Vec<(String, Data)> = Vec::new();
            let mut i: usize = 0;
            while i < entries.len()
                invariant
                    *w == WasmData::Dict(*entries),
                    wasm_keys_sorted(entries@),
                    i <= entries@.len(),
                    out@.len() == i,
                    forall|j: int|
                        0 <= j < i ==> {
                            &&& out@[j].0@ == (#[trigger] entries@[j]).0@
                            &&& decodes(entries@[j].1, out@[j].1)
                        },
                    forall|j: int| 0 <= j < i ==> data_wf((#[trigger] out@[j]).1),
                decreases entries@.len() - i,
            {
                proof {
                    let entry = entries@[i as int];
                    assert(decreases_to!(*w => (*w)->Dict_0));
                    assert(decreases_to!(*entries => entries@));
                    assert(decreases_to!(entries@ => entry));
                    assert(decreases_to!(entry => entry.1));
                }
                let key = entries[i].0.clone();
                match from_wasm_data(&entries[i].1) {
                    Some(d) => {
                        out.push((key, d));
                    },
                    None => return None,
                }
                i += 1;
            }
            assert forall|j: int| 0 <= j < out@.len() - 1 implies key_lt(
                #[trigger] out@[j].0@,
                out@[j + 1].0@,
            ) by {
                assert(out@[j].0@ == entries@[j].0@ && out@[j + 1].0@ == entries@[j + 1].0@);
            }
            assert(keys_sorted(out@));
            let r = Data::Dict(out);
            assert(data_wf(r));
            Some(r)
        },
    }
}

/// The boundary form of a well-formed value can always be read back.
pub proof fn lemma_encoded_decodable(d: Data, w: WasmData)
    requires
        data_wf(d),
        encodes(d, w),
    ensures
        decodable(w),
    decreases d,
{
    match d {
        Data::Bytes(x) => {
            lemma_hex_round_trip(x@);
        },
        Data::List(x) => {
            let wl = w->List_0;
            assert forall|i: int| 0 <= i < wl@.len() implies decodable(#[trigger] wl@[i]) by {
                assert(decreases_to!(d => d->List_0));
                assert(decreases_to!(x => x@));
                assert(decreases_to!(x@ => x@[i]));
                lemma_encoded_decodable(x@[i], wl@[i]);
            }
        },
        Data::Dict(x) => {
            let wl = w->Dict_0;
            assert forall|i: int| 0 <= i < wl@.len() - 1 implies key_lt(
                #[trigger] wl@[i].0@,
                wl@[i + 1].0@,
            ) by {
                assert(wl@[i].0@ == x@[i].0@ && wl@[i + 1].0@ == x@[i + 1].0@);
            }
            assert forall|i: int| 0 <= i < wl@.len() implies decodable((#[trigger] wl@[i]).1) by {
                let entry = x@[i];
                assert(decreases_to!(d => d->Dict_0));
                assert(decreases_to!(x => x@));
                assert(decreases_to!(x@ => entry));
                assert(decreases_to!(entry => entry.1));
                lemma_encoded_decodable(x@[i].1, wl@[i].1);
            }
        },
        _ => {},
    }
}

/// Writing a value in boundary form and reading it back gives the same
/// variant with the same contents.
pub proof fn lemma_data_round_trip(d: Data, w: WasmData, e: Data)
    requires
        encodes(d, w),
        decodes(w, e),
    ensures
        data_eq(d, e),
    decreases d,
{
    match d {
        Data::Bytes(x) => {
            lemma_hex_round_trip(x@);
        },
        Data::List(x) => {
            let wl = w->List_0;
            let el = e->List_0;
            assert forall|i: int| 0 <= i < x@.len() implies data_eq(#[trigger] x@[i], el@[i]) by {
                assert(decreases_to!(d => d->List_0));
                assert(decreases_to!(x => x@));
                assert(decreases_to!(x@ => x@[i]));
                assert(decodes(wl@[i], el@[i]));
                lemma_data_round_trip(x@[i], wl@[i], el@[i]);
            }
        },
        Data::Dict(x) => {
            let wl = w->Dict_0;
            let el = e->Dict_0;
            assert forall|i: int| 0 <= i < x@.len() implies {
                &&& el@[i].0@ == (#[trigger] x@[i]).0@
                &&& data_eq(x@[i].1, el@[i].1)
            } by {
                let entry = x@[i];
                assert(decreases_to!(d => d->Dict_0));
                assert(decreases_to!(x => x@));
                assert(decreases_to!(x@ => entry));
                assert(decreases_to!(entry => entry.1));
                assert(decodes(wl@[i].1, el@[i].1));
                lemma_data_round_trip(x@[i].1, wl@[i].1, el@[i].1);
            }
        },
        _ => {},
    }
}

/// Exactly 32 bytes spelled by hexadecimal text.
pub open spec fn hex32(s: Seq<char>) -> Option<Seq<u8>> {
    match hex_bytes(s) {
        Some(b) => if b.len() == 32 {
            Some(b)
        } else {
            None
        },
        None => None,
    }
}

/// The 32 bytes that hexadecimal text spells, if it spells exactly 32.
pub fn bytes32_from_hex(s: &str) -> (r: Option<[u8; 32]>)
    ensures
        match r {
            Some(a) => hex32(s@) == Some(a@),
            None => hex32(s@) is None,
        },
{
    let v = match hex_decode(s) {
        Some(v) => v,
        None => return None,
    };
    if v.len() != 32 {
        return None;
    }
    let mut a = [0u8; 32];
    let mut i: usize = 0;
    while i < 32
        invariant
            v@.len() == 32,
            a@.len() == 32,
            i <= 32,
            forall|j: int| 0 <= j < i ==> a@[j] == v@[j],
        decreases 32 - i,
    {
        a.set(i, v[i]);
        i += 1;
    }
    assert(a@ =~= v@);
    Some(a)
}

/// An application as it crosses the boundary.
#[derive(Debug)]
pub struct WasmApp {
    pub tag: String,
    /// Hexadecimal text of the 32-byte hash.
    pub vk_hash: String,
    /// The parameters; none stands for `Empty`.
    pub params: Option<WasmData>,
}

/// A reference to an output as it crosses the boundary.
#[derive(Debug)]
pub struct WasmUtxoRef {
    /// Hexadecimal text of the 32-byte id.
    pub txid: String,
    pub vout: u32,
}

/// Application state as it crosses the boundary.
#[derive(Debug)]
pub struct WasmCharmState {
    pub apps: Vec<(String, WasmData)>,
}

/// A transaction input as it crosses the boundary.
#[derive(Debug)]
pub struct WasmTxInput {
    pub utxo_ref: WasmUtxoRef,
    pub charm_state: Option<WasmCharmState>,
}

/// A transaction output as it crosses the boundary.
#[derive(Debug)]
pub struct WasmTxOutput {
    pub index: u32,
    pub value: u64,
    /// Hexadecimal text of the script.
    pub script_pubkey: String,
    pub charm_state: Option<WasmCharmState>,
}

/// A transaction as it crosses the boundary.
#[derive(Debug)]
pub struct WasmTransaction {
    /// Hexadecimal text of the 32-byte id.
    pub txid: String,
    pub inputs: Vec<WasmTxInput>,
    pub outputs: Vec<WasmTxOutput>,
    pub spell: Option<WasmNormalizedSpell>,
}

/// A declared spell input as it crosses the boundary.
#[derive(Debug)]
pub struct WasmSpellInput {
    pub utxo_ref: WasmUtxoRef,
    pub charms: Option<WasmCharmState>,
}

/// A declared spell output as it crosses the boundary.
#[derive(Debug)]
pub struct WasmSpellOutput {
    pub index: u32,
    pub charms: Option<WasmCharmState>,
}

/// A spell as it crosses the boundary.
#[derive(Debug)]
pub struct WasmNormalizedSpell {
    pub version: u32,
    pub ins: Vec<WasmSpellInput>,
    pub outs: Vec<WasmSpellOutput>,
}

/// `ds` is read entry by entry from `ws`: the same keys, each value read
/// from its boundary form.
pub open spec fn entries_decode(ws: Seq<(String, WasmData)>, ds: Seq<(String, Data)>) -> bool {
    &&& ws.len() == ds.len()
    &&& forall|i: int|
        0 <= i < ws.len() ==> {
            &&& ds[i].0@ == (#[trigger] ws[i]).0@
            &&& decodes(ws[i].1, ds[i].1)
        }
}

/// `s` is the state read from `w`.
pub open spec fn state_decodes(w: WasmCharmState, s: CharmState) -> bool {
    &&& s.wf()
    &&& exists|ds: Seq<(String, Data)>| entries_decode(w.apps@, ds) && s@ == entries_view(ds)
}

/// Every value of `w` can be read.
pub open spec fn state_decodable(w: WasmCharmState) -> bool {
    forall|i: int| 0 <= i < w.apps@.len() ==> decodable((#[trigger] w.apps@[i]).1)
}

/// `s` is the optional state read from `w`.
pub open spec fn opt_state_decodes(w: Option<WasmCharmState>, s: Option<CharmState>) -> bool {
    match w {
        Some(ws) => s matches Some(st) && state_decodes(ws, st),
        None => s is None,
    }
}

/// The optional state `w` can be read.
pub open spec fn opt_state_decodable(w: Option<WasmCharmState>) -> bool {
    match w {
        Some(ws) => state_decodable(ws),
        None => true,
    }
}

/// `u` is the reference read from `w`.
pub open spec fn utxo_ref_decodes(w: WasmUtxoRef, u: UtxoRef) -> bool {
    hex32(w.txid@) == Some(u.txid@) && u.vout == w.vout
}

/// `i` is the input read from `w`.
pub open spec fn input_decodes(w: WasmTxInput, i: TxInput) -> bool {
    utxo_ref_decodes(w.utxo_ref, i.utxo_ref) && opt_state_decodes(w.charm_state, i.charm_state)
}

/// The input `w` can be read.
pub open spec fn input_decodable(w: WasmTxInput) -> bool {
    hex32(w.utxo_ref.txid@) is Some && opt_state_decodable(w.charm_state)
}

/// `o` is the output read from `w`.
pub open spec fn output_decodes(w: WasmTxOutput, o: TxOutput) -> bool {
    &&& o.index == w.index
    &&& o.value == w.value
    &&& hex_bytes(w.script_pubkey@) == Some(o.script_pubkey@)
    &&& opt_state_decodes(w.charm_state, o.charm_state)
}

/// The output `w` can be read.
pub open spec fn output_decodable(w: WasmTxOutput) -> bool {
    hex_bytes(w.script_pubkey@) is Some && opt_state_decodable(w.charm_state)
}

/// `t` is the transaction read from `w`.
pub open spec fn transaction_decodes(w: WasmTransaction, t: Transaction) -> bool {
    &&& hex32(w.txid@) == Some(t.txid@)
    &&& t.inputs@.len() == w.inputs@.len()
    &&& forall|i: int| 0 <= i < w.inputs@.len() ==> input_decodes(#[trigger] w.inputs@[i], t.inputs@[i])
    &&& t.outputs@.len() == w.outputs@.len()
    &&& forall|i: int|
        0 <= i < w.outputs@.len() ==> output_decodes(#[trigger] w.outputs@[i], t.outputs@[i])
    &&& opt_spell_decodes(w.spell, t.spell)
}

/// The transaction `w` can be read.
pub open spec fn transaction_decodable(w: WasmTransaction) -> bool {
    &&& hex32(w.txid@) is Some
    &&& forall|i: int| 0 <= i < w.inputs@.len() ==> input_decodable(#[trigger] w.inputs@[i])
    &&& forall|i: int| 0 <= i < w.outputs@.len() ==> output_decodable(#[trigger] w.outputs@[i])
    &&& opt_spell_decodable(w.spell)
}

/// `s` is the declared input read from `w`.
pub open spec fn spell_input_decodes(w: WasmSpellInput, s: SpellInput) -> bool {
    utxo_ref_decodes(w.utxo_ref, s.utxo_ref) && opt_state_decodes(w.charms, s.charms)
}

/// The declared input `w` can be read.
pub open spec fn spell_input_decodable(w: WasmSpellInput) -> bool {
    hex32(w.utxo_ref.txid@) is Some && opt_state_decodable(w.charms)
}

/// `s` is the declared output read from `w`.
pub open spec fn spell_output_decodes(w: WasmSpellOutput, s: SpellOutput) -> bool {
    s.index == w.index && opt_state_decodes(w.charms, s.charms)
}

/// `s` is the spell read from `w`.
pub open spec fn spell_decodes(w: WasmNormalizedSpell, s: NormalizedSpell) -> bool {
    &&& s.version == w.version
    &&& s.ins@.len() == w.ins@.len()
    &&& forall|i: int| 0 <= i < w.ins@.len() ==> spell_input_decodes(#[trigger] w.ins@[i], s.ins@[i])
    &&& s.outs@.len() == w.outs@.len()
    &&& forall|i: int|
        0 <= i < w.outs@.len() ==> spell_output_decodes(#[trigger] w.outs@[i], s.outs@[i])
}

/// The spell `w` can be read.
pub open spec fn spell_decodable(w: WasmNormalizedSpell) -> bool {
    &&& forall|i: int| 0 <= i < w.ins@.len() ==> spell_input_decodable(#[trigger] w.ins@[i])
    &&& forall|i: int| 0 <= i < w.outs@.len() ==> opt_state_decodable(#[trigger] w.outs@[i].charms)
}

/// `s` is the optional spell read from `w`.
pub open spec fn opt_spell_decodes(w: Option<WasmNormalizedSpell>, s: Option<NormalizedSpell>) -> bool {
    match w {
        Some(ws) => s matches Some(sp) && spell_decodes(ws, sp),
        None => s is None,
    }
}

/// The optional spell `w` can be read.
pub open spec fn opt_spell_decodable(w: Option<WasmNormalizedSpell>) -> bool {
    match w {
        Some(ws) => spell_decodable(ws),
        None => true,
    }
}

/// `a` is the application read from `w`.
pub open spec fn app_decodes(w: WasmApp, a: App) -> bool {
    &&& a.tag@ == w.tag@
    &&& hex32(w.vk_hash@) == Some(a.vk_hash@)
    &&& match w.params {
        Some(p) => decodes(p, a.params),
        None => a.params is Empty,
    }
}

/// The application `w` can be read.
pub open spec fn app_decodable(w: WasmApp) -> bool {
    &&& hex32(w.vk_hash@) is Some
    &&& match w.params {
        Some(p) => decodable(p),
        None => true,
    }
}

/// The state that a boundary form holds; `None` when a value cannot be
/// read.
pub fn charm_state_from_wasm(w: &WasmCharmState) -> (r: Option<CharmState>)
    ensures
        match r {
            Some(s) => state_decodes(*w, s),
            None => !state_decodable(*w),
        },
{
    let mut ds: Vec<(String, Data)> = Vec::new();
    let mut i: usize = 0;
    while i < w.apps.len()
        invariant
            i <= w.apps@.len(),
            entries_decode(w.apps@.subrange(0, i as int), ds@),
        decreases w.apps@.len() - i,
    {
        match from_wasm_data(&w.apps[i].1) {
            Some(d) => {
                let ghost before = ds@;
                ds.push((w.apps[i].0.clone(), d));
                assert forall|j: int| 0 <= j <= i implies {
                    &&& ds@[j].0@ == (#[trigger] w.apps@.subrange(0, i + 1)[j]).0@
                    &&& decodes(w.apps@.subrange(0, i + 1)[j].1, ds@[j].1)
                } by {
                    if j < i {
                        assert(w.apps@.subrange(0, i + 1)[j] == w.apps@.subrange(0, i as int)[j]);
                    }
                }
            },
            None => {
                return None;
            },
        }
        i += 1;
    }
    assert(w.apps@.subrange(0, i as int) =~= w.apps@);
    let ghost dv = ds@;
    let s = CharmState::from_entries(ds);
    assert(entries_decode(w.apps@, dv));
    Some(s)
}

/// The optional state that a boundary form holds; `None` when it cannot be
/// read.
pub fn opt_charm_state_from_wasm(w: &Option<WasmCharmState>) -> (r: Option<Option<CharmState>>)
    ensures
        match r {
            Some(s) => opt_state_decodes(*w, s),
            None => !opt_state_decodable(*w),
        },
{
    match w {
        Some(ws) => match charm_state_from_wasm(ws) {
            Some(s) => Some(Some(s)),
            None => None,
        },
        None => Some(None),
    }
}

/// The reference that a boundary form holds; `None` when its id is not 32
/// bytes of hexadecimal text.
pub fn utxo_ref_from_wasm(w: &WasmUtxoRef) -> (r: Option<UtxoRef>)
    ensures
        match r {
            Some(u) => utxo_ref_decodes(*w, u),
            None => hex32(w.txid@) is None,
        },
{
    match bytes32_from_hex(w.txid.as_str()) {
        Some(txid) => Some(UtxoRef { txid, vout: w.vout }),
        None => None,
    }
}

/// The input that a boundary form holds, if it can be read.
pub fn input_from_wasm(w: &WasmTxInput) -> (r: Option<TxInput>)
    ensures
        match r {
            Some(i) => input_decodes(*w, i),
            None => !input_decodable(*w),
        },
{
    let utxo_ref = match utxo_ref_from_wasm(&w.utxo_ref) {
        Some(u) => u,
        None => return None,
    };
    match opt_charm_state_from_wasm(&w.charm_state) {
        Some(charm_state) => Some(TxInput { utxo_ref, charm_state }),
        None => None,
    }
}

/// The output that a boundary form holds, if it can be read.
pub fn output_from_wasm(w: &WasmTxOutput) -> (r: Option<TxOutput>)
    ensures
        match r {
            Some(o) => output_decodes(*w, o),
            None => !output_decodable(*w),
        },
{
    let script_pubkey = match hex_decode(w.script_pubkey.as_str()) {
        Some(s) => s,
        None => return None,
    };
    match opt_charm_state_from_wasm(&w.charm_state) {
        Some(charm_state) => Some(
            TxOutput { index: w.index, value: w.value, script_pubkey, charm_state },
        ),
        None => None,
    }
}

/// The transaction that a boundary form holds, if it can be read.
pub fn transaction_from_wasm(w: &WasmTransaction) -> (r: Option<Transaction>)
    ensures
        match r {
            Some(t) => transaction_decodes(*w, t),
            None => !transaction_decodable(*w),
        },
{
    let txid = match bytes32_from_hex(w.txid.as_str()) {
        Some(t) => t,
        None => return None,
    };
    let mut inputs: Vec<TxInput> = Vec::new();
    let mut i: usize = 0;
    while i < w.inputs.len()
        invariant
            i <= w.inputs@.len(),
            inputs@.len() == i,
            forall|j: int| 0 <= j < i ==> input_decodes(#[trigger] w.inputs@[j], inputs@[j]),
        decreases w.inputs@.len() - i,
    {
        match input_from_wasm(&w.inputs[i]) {
            Some(input) => inputs.push(input),
            None => return None,
        }
        i += 1;
    }
    let mut outputs: Vec<TxOutput> = Vec::new();
    let mut k: usize = 0;
    while k < w.outputs.len()
        invariant
            k <= w.outputs@.len(),
            outputs@.len() == k,
            forall|j: int| 0 <= j < k ==> output_decodes(#[trigger] w.outputs@[j], outputs@[j]),
        decreases w.outputs@.len() - k,
    {
        match output_from_wasm(&w.outputs[k]) {
            Some(output) => outputs.push(output),
            None => return None,
        }
        k += 1;
    }
    let spell = match &w.spell {
        Some(ws) => match spell_from_wasm(ws) {
            Some(sp) => Some(sp),
            None => return None,
        },
        None => None,
    };
    Some(Transaction { txid, inputs, outputs, spell })
}

/// The spell that a boundary form holds, if it can be read.
pub fn spell_from_wasm(w: &WasmNormalizedSpell) -> (r: Option<NormalizedSpell>)
    ensures
        match r {
            Some(s) => spell_decodes(*w, s),
            None => !spell_decodable(*w),
        },
{
    let mut ins: Vec<SpellInput> = Vec::new();
    let mut i: usize = 0;
    while i < w.ins.len()
        invariant
            i <= w.ins@.len(),
            ins@.len() == i,
            forall|j: int| 0 <= j < i ==> spell_input_decodes(#[trigger] w.ins@[j], ins@[j]),
        decreases w.ins@.len() - i,
    {
        let input = &w.ins[i];
        let utxo_ref = match utxo_ref_from_wasm(&input.utxo_ref) {
            Some(u) => u,
            None => return None,
        };
        match opt_charm_state_from_wasm(&input.charms) {
            Some(charms) => ins.push(SpellInput { utxo_ref, charms }),
            None => return None,
        }
        i += 1;
    }
    let mut outs: Vec<SpellOutput> = Vec::new();
    let mut k: usize = 0;
    while k < w.outs.len()
        invariant
            k <= w.outs@.len(),
            outs@.len() == k,
            forall|j: int| 0 <= j < k ==> spell_output_decodes(#[trigger] w.outs@[j], outs@[j]),
        decreases w.outs@.len() - k,
    {
        let output = &w.outs[k];
        match opt_charm_state_from_wasm(&output.charms) {
            Some(charms) => outs.push(SpellOutput { index: output.index, charms }),
            None => return None,
        }
        k += 1;
    }
    Some(NormalizedSpell { version: w.version, ins, outs })
}

/// The application that a boundary form holds, if it can be read.
pub fn app_from_wasm(w: &WasmApp) -> (r: Option<App>)
    ensures
        match r {
            Some(a) => app_decodes(*w, a),
            None => !app_decodable(*w),
        },
{
    let vk_hash = match bytes32_from_hex(w.vk_hash.as_str()) {
        Some(h) => h,
        None => return None,
    };
    let params = match &w.params {
        Some(p) => match from_wasm_data(p) {
            Some(d) => d,
            None => return None,
        },
        None => Data::Empty,
    };
    Some(App { tag: w.tag.clone(), vk_hash, params })
}

impl WasmNormalizedSpell {
    /// A positive version and at least one declared input and one declared
    /// output.
    pub fn verify(&self) -> (r: bool)
        ensures
            r == (self.version > 0 && self.ins@.len() > 0 && self.outs@.len() > 0),
    {
        self.version > 0 && self.ins.len() > 0 && self.outs.len() > 0
    }
}

/// `w` is the boundary form of the state `s`, entry by entry.
pub open spec fn state_encodes(s: CharmState, w: WasmCharmState) -> bool {
    &&& w.apps@.len() == s.apps@.len()
    &&& forall|i: int|
        0 <= i < s.apps@.len() ==> {
            &&& w.apps@[i].0@ == (#[trigger] s.apps@[i]).0@
            &&& encodes(s.apps@[i].1, w.apps@[i].1)
        }
}

/// `w` is the boundary form of the optional state `s`.
pub open spec fn opt_state_encodes(s: Option<CharmState>, w: Option<WasmCharmState>) -> bool {
    match s {
        Some(st) => w matches Some(ws) && state_encodes(st, ws),
        None => w is None,
    }
}

/// The boundary form of a state.
pub fn charm_state_to_wasm(s: &CharmState) -> (r: WasmCharmState)
    ensures
        state_encodes(*s, r),
{
    let mut apps: Vec<(String, WasmData)> = Vec::new();
    let mut i: usize = 0;
    while i < s.apps.len()
        invariant
            i <= s.apps@.len(),
            apps@.len() == i,
            forall|j: int|
                0 <= j < i ==> {
                    &&& apps@[j].0@ == (#[trigger] s.apps@[j]).0@
                    &&& encodes(s.apps@[j].1, apps@[j].1)
                },
        decreases s.apps@.len() - i,
    {
        apps.push((s.apps[i].0.clone(), to_wasm_data(&s.apps[i].1)));
        i += 1;
    }
    WasmCharmState { apps }
}

/// The boundary form of an optional state.
pub fn opt_charm_state_to_wasm(s: &Option<CharmState>) -> (r: Option<WasmCharmState>)
    ensures
        opt_state_encodes(*s, r),
{
    match s {
        Some(st) => Some(charm_state_to_wasm(st)),
        None => None,
    }
}

/// `w` is the boundary form of the transaction `t`.
pub open spec fn transaction_encodes(t: Transaction, w: WasmTransaction) -> bool {
    &&& w.txid@ == hex_of(t.txid@)
    &&& w.inputs@.len() == t.inputs@.len()
    &&& forall|i: int|
        0 <= i < t.inputs@.len() ==> {
            &&& (#[trigger] w.inputs@[i]).utxo_ref.txid@ == hex_of(t.inputs@[i].utxo_ref.txid@)
            &&& w.inputs@[i].utxo_ref.vout == t.inputs@[i].utxo_ref.vout
            &&& opt_state_encodes(t.inputs@[i].charm_state, w.inputs@[i].charm_state)
        }
    &&& w.outputs@.len() == t.outputs@.len()
    &&& forall|i: int|
        0 <= i < t.outputs@.len() ==> {
            &&& (#[trigger] w.outputs@[i]).index == t.outputs@[i].index
            &&& w.outputs@[i].value == t.outputs@[i].value
            &&& w.outputs@[i].script_pubkey@ == hex_of(t.outputs@[i].script_pubkey@)
            &&& opt_state_encodes(t.outputs@[i].charm_state, w.outputs@[i].charm_state)
        }
    &&& opt_spell_encodes(t.spell, w.spell)
}

/// `w` is the boundary form of the spell `s`.
pub open spec fn spell_encodes(s: NormalizedSpell, w: WasmNormalizedSpell) -> bool {
    &&& w.version == s.version
    &&& w.ins@.len() == s.ins@.len()
    &&& forall|i: int|
        0 <= i < s.ins@.len() ==> {
            &&& (#[trigger] w.ins@[i]).utxo_ref.txid@ == hex_of(s.ins@[i].utxo_ref.txid@)
            &&& w.ins@[i].utxo_ref.vout == s.ins@[i].utxo_ref.vout
            &&& opt_state_encodes(s.ins@[i].charms, w.ins@[i].charms)
        }
    &&& w.outs@.len() == s.outs@.len()
    &&& forall|i: int|
        0 <= i < s.outs@.len() ==> {
            &&& (#[trigger] w.outs@[i]).index == s.outs@[i].index
            &&& opt_state_encodes(s.outs@[i].charms, w.outs@[i].charms)
        }
}

/// `w` is the boundary form of the optional spell `s`.
pub open spec fn opt_spell_encodes(s: Option<NormalizedSpell>, w: Option<WasmNormalizedSpell>) -> bool {
    match s {
        Some(sp) => w matches Some(ws) && spell_encodes(sp, ws),
        None => w is None,
    }
}

/// The boundary form of a spell.
pub fn spell_to_wasm(s: &NormalizedSpell) -> (r: WasmNormalizedSpell)
    ensures
        spell_encodes(*s, r),
{
    let mut ins: Vec<WasmSpellInput> = Vec::new();
    let mut i: usize = 0;
    while i < s.ins.len()
        invariant
            i <= s.ins@.len(),
            ins@.len() == i,
            forall|j: int|
                0 <= j < i ==> {
                    &&& (#[trigger] ins@[j]).utxo_ref.txid@ == hex_of(s.ins@[j].utxo_ref.txid@)
                    &&& ins@[j].utxo_ref.vout == s.ins@[j].utxo_ref.vout
                    &&& opt_state_encodes(s.ins@[j].charms, ins@[j].charms)
                },
        decreases s.ins@.len() - i,
    {
        let input = &s.ins[i];
        ins.push(
            WasmSpellInput {
                utxo_ref: WasmUtxoRef {
                    txid: hex_encode(input.utxo_ref.txid.as_slice()),
                    vout: input.utxo_ref.vout,
                },
                charms: opt_charm_state_to_wasm(&input.charms),
            },
        );
        i += 1;
    }
    let mut outs: Vec<WasmSpellOutput> = Vec::new();
    let mut k: usize = 0;
    while k < s.outs.len()
        invariant
            k <= s.outs@.len(),
            outs@.len() == k,
            forall|j: int|
                0 <= j < k ==> {
                    &&& (#[trigger] outs@[j]).index == s.outs@[j].index
                    &&& opt_state_encodes(s.outs@[j].charms, outs@[j].charms)
                },
        decreases s.outs@.len() - k,
    {
        let output = &s.outs[k];
        outs.push(
            WasmSpellOutput { index: output.index, charms: opt_charm_state_to_wasm(&output.charms) },
        );
        k += 1;
    }
    WasmNormalizedSpell { version: s.version, ins, outs }
}

/// The boundary form of a transaction.
pub fn transaction_to_wasm(t: &Transaction) -> (r: WasmTransaction)
    ensures
        transaction_encodes(*t, r),
{
    let mut inputs: Vec<WasmTxInput> = Vec::new();
    let mut i: usize = 0;
    while i < t.inputs.len()
        invariant
            i <= t.inputs@.len(),
            inputs@.len() == i,
            forall|j: int|
                0 <= j < i ==> {
                    &&& (#[trigger] inputs@[j]).utxo_ref.txid@ == hex_of(t.inputs@[j].utxo_ref.txid@)
                    &&& inputs@[j].utxo_ref.vout == t.inputs@[j].utxo_ref.vout
                    &&& opt_state_encodes(t.inputs@[j].charm_state, inputs@[j].charm_state)
                },
        decreases t.inputs@.len() - i,
    {
        let input = &t.inputs[i];
        inputs.push(
            WasmTxInput {
                utxo_ref: WasmUtxoRef {
                    txid: hex_encode(input.utxo_ref.txid.as_slice()),
                    vout: input.utxo_ref.vout,
                },
                charm_state: opt_charm_state_to_wasm(&input.charm_state),
            },
        );
        i += 1;
    }
    let mut outputs: Vec<WasmTxOutput> = Vec::new();
    let mut k: usize = 0;
    while k < t.outputs.len()
        invariant
            k <= t.outputs@.len(),
            outputs@.len() == k,
            forall|j: int|
                0 <= j < k ==> {
                    &&& (#[trigger] outputs@[j]).index == t.outputs@[j].index
                    &&& outputs@[j].value == t.outputs@[j].value
                    &&& outputs@[j].script_pubkey@ == hex_of(t.outputs@[j].script_pubkey@)
                    &&& opt_state_encodes(t.outputs@[j].charm_state, outputs@[j].charm_state)
                },
        decreases t.outputs@.len() - k,
    {
        let output = &t.outputs[k];
        outputs.push(
            WasmTxOutput {
                index: output.index,
                value: output.value,
                script_pubkey: hex_encode(output.script_pubkey.as_slice()),
                charm_state: opt_charm_state_to_wasm(&output.charm_state),
            },
        );
        k += 1;
    }
    let spell = match &t.spell {
        Some(sp) => Some(spell_to_wasm(sp)),
        None => None,
    };
    WasmTransaction { txid: hex_encode(t.txid.as_slice()), inputs, outputs, spell }
}

/// The boundary form of an application; `Empty` parameters are left out.
pub fn app_to_wasm(a: &App) -> (r: WasmApp)
    ensures
        r.tag@ == a.tag@,
        r.vk_hash@ == hex_of(a.vk_hash@),
        match a.params {
            Data::Empty => r.params is None,
            _ => r.params matches Some(p) && encodes(a.params, p),
        },
{
    let params = match &a.params {
        Data::Empty => None,
        p => Some(to_wasm_data(p)),
    };
    WasmApp { tag: a.tag.clone(), vk_hash: hex_encode(a.vk_hash.as_slice()), params }
}

} // verus!
