//! JSON values as the library reads them (the shape of `serde_json::Value`).
//!
//! Numbers keep the three forms `serde_json` stores: non-negative integers,
//! negative integers, and floating-point numbers, which are held by the bits
//! of their IEEE-754 double.  Object entries are in key order, each key once.
use vstd::prelude::*;

use crate::text::str_eq;

verus! {

/// A JSON value.
#[derive(Debug)]
pub enum Json {
    Null,
    Bool(bool),
    /// A non-negative integer.
    PosInt(u64),
    /// A negative integer.
    NegInt(i64),
    /// A finite floating-point number, by the bits of its IEEE-754 double.
    Float(u64),
    Str(String),
    Array(Vec<Json>),
    Object(Vec<(String, Json)>),
}

/// No key occurs twice among the entries.
pub open spec fn keys_unique(entries: Seq<(String, Json)>) -> bool {
    forall|i: int, j: int| 0 <= i < j < entries.len() ==> entries[i].0@ != entries[j].0@
}

/// Every object within `v` has each key once, as every `serde_json` value
/// does.
pub open spec fn json_wf(v: Json) -> bool
    decreases v,
{
    match v {
        Json::Object(es) => {
            proof {
                assert(decreases_to!(v => v->Object_0));
                assert(decreases_to!(es => es@));
            }
            keys_unique(es@) && entries_wf(es@)
        },
        Json::Array(xs) => {
            proof {
                assert(decreases_to!(v => v->Array_0));
                assert(decreases_to!(xs => xs@));
            }
            items_wf(xs@)
        },
        _ => true,
    }
}

/// Every item is well formed.
pub open spec fn items_wf(xs: Seq<Json>) -> bool
    decreases xs,
{
    if xs.len() == 0 {
        true
    } else {
        proof {
            assert(decreases_to!(xs => xs.drop_last()));
            assert(decreases_to!(xs => xs[xs.len() - 1]));
        }
        items_wf(xs.drop_last()) && json_wf(xs[xs.len() - 1])
    }
}

/// Every entry's value is well formed.
pub open spec fn entries_wf(es: Seq<(String, Json)>) -> bool
    decreases es,
{
    if es.len() == 0 {
        true
    } else {
        proof {
            assert(decreases_to!(es => es.drop_last()));
            assert(decreases_to!(es => es[es.len() - 1]));
            assert(decreases_to!(es[es.len() - 1] => es[es.len() - 1].1));
        }
        entries_wf(es.drop_last()) && json_wf(es[es.len() - 1].1)
    }
}

/// Position of the first entry with key `key`.
pub open spec fn entry_position(entries: Seq<(String, Json)>, key: Seq<char>) -> Option<int>
    decreases entries.len(),
{
    if entries.len() == 0 {
        None
    } else {
        match entry_position(entries.drop_last(), key) {
            Some(i) => Some(i),
            None => if entries.last().0@ == key { Some(entries.len() - 1) } else { None },
        }
    }
}

/// `value.get(key)`: the value of `key` when `value` is an object that has it.
pub open spec fn json_get(value: Json, key: Seq<char>) -> Option<Json> {
    match value {
        Json::Object(entries) => match entry_position(entries@, key) {
            Some(i) => Some(entries@[i].1),
            None => None,
        },
        _ => None,
    }
}

/// `value.as_str()`.
pub open spec fn json_str(value: Json) -> Option<Seq<char>> {
    match value {
        Json::Str(s) => Some(s@),
        _ => None,
    }
}

/// `value.get(key).and_then(as_str)`.
pub open spec fn str_field(value: Json, key: Seq<char>) -> Option<Seq<char>> {
    match json_get(value, key) {
        Some(v) => json_str(v),
        None => None,
    }
}

/// `value.get(key).and_then(as_array)`.
pub open spec fn array_field(value: Json, key: Seq<char>) -> Option<Seq<Json>> {
    match json_get(value, key) {
        Some(Json::Array(items)) => Some(items@),
        _ => None,
    }
}

/// `value.as_i64()`: integers that fit in an `i64`.
pub open spec fn json_i64(value: Json) -> Option<i64> {
    match value {
        Json::PosInt(n) => if n <= i64::MAX { Some(n as i64) } else { None },
        Json::NegInt(n) => Some(n),
        _ => None,
    }
}

/// Whether `value` is a number (`value.as_f64()` is some).
pub open spec fn json_is_number(value: Json) -> bool {
    value is PosInt || value is NegInt || value is Float
}

/// Whether a number is at most zero.
pub open spec fn json_number_at_most_zero(value: Json) -> bool {
    match value {
        Json::PosInt(n) => n == 0,
        Json::NegInt(_) => true,
        Json::Float(bits) => bits >= 0x8000_0000_0000_0000u64 || bits == 0,
        _ => false,
    }
}

impl Json {
    /// `Value::get`: the value of `key` in an object.
    pub fn get(&self, key: &str) -> (r: Option<&Json>)
        ensures
            match r {
                Some(v) => json_get(*self, key@) == Some(*v),
                None => json_get(*self, key@) is None,
            },
    {
        match self {
            Json::Object(entries) => {
                let mut i: usize = 0;
                while i < entries.len()
                    invariant
                        i <= entries@.len(),
                        *self == Json::Object(*entries),
                        entry_position(entries@.take(i as int), key@) is None,
                    decreases entries.len() - i,
                {
                    assert(entries@.take(i + 1).drop_last() =~= entries@.take(i as int));
                    if str_eq(entries[i].0.as_str(), key) {
                        proof {
                            assert(entries@.take(i + 1).last() == entries@[i as int]);
                            assert(entry_position(entries@.take(i + 1), key@) == Some(i as int));
                            lemma_entry_position_prefix(entries@, i + 1, key@);
                        }
                        return Some(&entries[i].1);
                    }
                    i = i + 1;
                }
                assert(entries@.take(i as int) =~= entries@);
                None
            },
            _ => None,
        }
    }

    /// `Value::as_str`.
    pub fn as_str(&self) -> (r: Option<&str>)
        ensures
            match r {
                Some(s) => json_str(*self) == Some(s@),
                None => json_str(*self) is None,
            },
    {
        match self {
            Json::Str(s) => Some(s.as_str()),
            _ => None,
        }
    }

    /// `Value::as_array`.
    pub fn as_array(&self) -> (r: Option<&Vec<Json>>)
        ensures
            match r {
                Some(v) => *self == Json::Array(*v),
                None => !(*self is Array),
            },
    {
        match self {
            Json::Array(v) => Some(v),
            _ => None,
        }
    }

    /// `Value::as_i64`.
    pub fn as_i64(&self) -> (r: Option<i64>)
        ensures
            r == json_i64(*self),
    {
        match self {
            Json::PosInt(n) => if *n <= i64::MAX as u64 { Some(*n as i64) } else { None },
            Json::NegInt(n) => Some(*n),
            _ => None,
        }
    }

    /// Whether the value is a number.
    pub fn is_number(&self) -> (r: bool)
        ensures
            r == json_is_number(*self),
    {
        match self {
            Json::PosInt(_) | Json::NegInt(_) | Json::Float(_) => true,
            _ => false,
        }
    }

    /// Whether the value is a string.
    pub fn is_string(&self) -> (r: bool)
        ensures
            r == (*self is Str),
    {
        match self {
            Json::Str(_) => true,
            _ => false,
        }
    }

    /// Whether a number is at most zero (`as_f64() <= 0.0`).
    pub fn number_at_most_zero(&self) -> (r: bool)
        ensures
            r == json_number_at_most_zero(*self),
    {
        match self {
            Json::PosInt(n) => *n == 0,
            Json::NegInt(_) => true,
            Json::Float(bits) => *bits >= 0x8000_0000_0000_0000u64 || *bits == 0,
            _ => false,
        }
    }
}

proof fn lemma_entry_position_prefix(entries: Seq<(String, Json)>, k: int, key: Seq<char>)
    requires
        0 <= k <= entries.len(),
        entry_position(entries.take(k), key) is Some,
    ensures
        entry_position(entries, key) == entry_position(entries.take(k), key),
    decreases entries.len() - k,
{
    if k < entries.len() {
        assert(entries.take(k + 1).drop_last() =~= entries.take(k));
        lemma_entry_position_prefix(entries, k + 1, key);
    } else {
        assert(entries.take(k) =~= entries);
    }
}

/// `value.get(key).and_then(as_str)`.
pub fn get_str<'a>(value: &'a Json, key: &str) -> (r: Option<&'a str>)
    ensures
        match r {
            Some(s) => str_field(*value, key@) == Some(s@),
            None => str_field(*value, key@) is None,
        },
{
    match value.get(key) {
        Some(v) => v.as_str(),
        None => None,
    }
}

/// `value.get(key).and_then(as_array)`.
pub fn get_array<'a>(value: &'a Json, key: &str) -> (r: Option<&'a Vec<Json>>)
    ensures
        match r {
            Some(v) => array_field(*value, key@) == Some(v@),
            None => array_field(*value, key@) is None,
        },
{
    match value.get(key) {
        Some(v) => v.as_array(),
        None => None,
    }
}

/// Whether the bits of a double are those of a zero (of either sign).
pub open spec fn float_bits_zero(bits: u64) -> bool {
    bits == 0 || bits == 0x8000_0000_0000_0000u64
}

/// `==` on two finite doubles given by their bits: zeros of either sign are
/// equal, other values are equal when their bits are.
pub open spec fn float_bits_eq(x: u64, y: u64) -> bool {
    (float_bits_zero(x) && float_bits_zero(y)) || x == y
}

/// `==` on JSON values, as `serde_json::Value` compares them: variant by
/// variant, arrays item by item, objects entry by entry (both in key order).
pub open spec fn json_same(a: Json, b: Json) -> bool
    decreases a,
{
    match a {
        Json::Null => b is Null,
        Json::Bool(x) => b matches Json::Bool(y) && x == y,
        Json::PosInt(x) => b matches Json::PosInt(y) && x == y,
        Json::NegInt(x) => b matches Json::NegInt(y) && x == y,
        Json::Float(x) => b matches Json::Float(y) && float_bits_eq(x, y),
        Json::Str(x) => b matches Json::Str(y) && x@ == y@,
        Json::Array(xs) => b matches Json::Array(ys) && xs@.len() == ys@.len() && items_same(xs@, ys@),
        Json::Object(es) => b matches Json::Object(fs) && es@.len() == fs@.len() && entries_same(es@, fs@),
    }
}

/// Items equal position by position (over the length of `xs`).
pub open spec fn items_same(xs: Seq<Json>, ys: Seq<Json>) -> bool
    decreases xs,
{
    if xs.len() == 0 {
        true
    } else {
        &&& items_same(xs.drop_last(), ys)
        &&& json_same(xs.last(), ys[xs.len() - 1])
    }
}

/// Entries equal position by position, keys and values (over the length
/// of `es`).
pub open spec fn entries_same(es: Seq<(String, Json)>, fs: Seq<(String, Json)>) -> bool
    decreases es,
{
    if es.len() == 0 {
        true
    } else {
        &&& entries_same(es.drop_last(), fs)
        &&& es.last().0@ == fs[es.len() - 1].0@
        &&& json_same(es.last().1, fs[es.len() - 1].1)
    }
}

/// `==` on doubles given by their bits.
pub fn float_eq(x: u64, y: u64) -> (r: bool)
    ensures
        r == float_bits_eq(x, y),
{
    let zx = x == 0 || x == 0x8000_0000_0000_0000u64;
    let zy = y == 0 || y == 0x8000_0000_0000_0000u64;
    (zx && zy) || x == y
}

/// `==` on JSON values.
pub fn json_eq(a: &Json, b: &Json) -> (r: bool)
    ensures
        r == json_same(*a, *b),
    decreases *a,
{
    match (a, b) {
        (Json::Null, Json::Null) => true,
        (Json::Bool(x), Json::Bool(y)) => *x == *y,
        (Json::PosInt(x), Json::PosInt(y)) => *x == *y,
        (Json::NegInt(x), Json::NegInt(y)) => *x == *y,
        (Json::Float(x), Json::Float(y)) => float_eq(*x, *y),
        (Json::Str(x), Json::Str(y)) => str_eq(x.as_str(), y.as_str()),
        (Json::Array(xs), Json::Array(ys)) => {
            if xs.len() != ys.len() {
                return false;
            }
            let mut i: usize = 0;
            while i < xs.len()
                invariant
                    i <= xs@.len(),
                    xs@.len() == ys@.len(),
                    *a == Json::Array(*xs),
                    *b == Json::Array(*ys),
                    items_same(xs@.take(i as int), ys@),
                decreases xs.len() - i,
            {
                assert(xs@.take(i + 1).drop_last() =~= xs@.take(i as int));
                proof {
                    assert(decreases_to!(*a => (*a)->Array_0));
                    assert(decreases_to!(*xs => xs@));
                    assert(decreases_to!(xs@ => xs@[i as int]));
                }
                if !json_eq(&xs[i], &ys[i]) {
                    proof {
                        if items_same(xs@, ys@) {
                            lemma_items_same_prefix(xs@, ys@, i + 1);
                            assert(xs@.take(i + 1).last() == xs@[i as int]);
                        }
                    }
                    return false;
                }
                i = i + 1;
            }
            assert(xs@.take(i as int) =~= xs@);
            true
        },
        (Json::Object(es), Json::Object(fs)) => {
            if es.len() != fs.len() {
                return false;
            }
            let mut i: usize = 0;
            while i < es.len()
                invariant
                    i <= es@.len(),
                    es@.len() == fs@.len(),
                    *a == Json::Object(*es),
                    *b == Json::Object(*fs),
                    entries_same(es@.take(i as int), fs@),
                decreases es.len() - i,
            {
                assert(es@.take(i + 1).drop_last() =~= es@.take(i as int));
                proof {
                    assert(decreases_to!(*a => (*a)->Object_0));
                    assert(decreases_to!(*es => es@));
                    assert(decreases_to!(es@ => es@[i as int]));
                    assert(decreases_to!(es@[i as int] => es@[i as int].1));
                }
                if !str_eq(es[i].0.as_str(), fs[i].0.as_str()) || !json_eq(&es[i].1, &fs[i].1) {
                    proof {
                        if entries_same(es@, fs@) {
                            lemma_entries_same_prefix(es@, fs@, i + 1);
                            assert(es@.take(i + 1).last() == es@[i as int]);
                        }
                    }
                    return false;
                }
                i = i + 1;
            }
            assert(es@.take(i as int) =~= es@);
            true
        },
        _ => false,
    }
}

/// A prefix of pairwise-equal items is pairwise equal.
proof fn lemma_items_same_prefix(xs: Seq<Json>, ys: Seq<Json>, k: int)
    requires
        0 <= k <= xs.len(),
        items_same(xs, ys),
    ensures
        items_same(xs.take(k), ys),
    decreases xs.len() - k,
{
    if k < xs.len() {
        lemma_items_same_prefix(xs, ys, k + 1);
        assert(xs.take(k + 1).drop_last() =~= xs.take(k));
    } else {
        assert(xs.take(k) =~= xs);
    }
}

/// A prefix of pairwise-equal entries is pairwise equal.
proof fn lemma_entries_same_prefix(es: Seq<(String, Json)>, fs: Seq<(String, Json)>, k: int)
    requires
        0 <= k <= es.len(),
        entries_same(es, fs),
    ensures
        entries_same(es.take(k), fs),
    decreases es.len() - k,
{
    if k < es.len() {
        lemma_entries_same_prefix(es, fs, k + 1);
        assert(es.take(k + 1).drop_last() =~= es.take(k));
    } else {
        assert(es.take(k) =~= es);
    }
}

/// A copy of a JSON value (`Clone`), equal to it.
pub fn json_clone(v: &Json) -> (r: Json)
    ensures
        json_same(*v, r),
    decreases *v,
{
    match v {
        Json::Null => Json::Null,
        Json::Bool(x) => Json::Bool(*x),
        Json::PosInt(x) => Json::PosInt(*x),
        Json::NegInt(x) => Json::NegInt(*x),
        Json::Float(x) => Json::Float(*x),
        Json::Str(x) => Json::Str(x.clone()),
        Json::Array(xs) => {
            let mut out: Vec<Json> = Vec::new();
            let mut i: usize = 0;
            while i < xs.len()
                invariant
                    i <= xs@.len(),
                    out@.len() == i,
                    *v == Json::Array(*xs),
                    items_same(xs@.take(i as int), out@),
                decreases xs.len() - i,
            {
                proof {
                    assert(decreases_to!(*v => (*v)->Array_0));
                    assert(decreases_to!(*xs => xs@));
                    assert(decreases_to!(xs@ => xs@[i as int]));
                }
                let c = json_clone(&xs[i]);
                let ghost before = out@;
                out.push(c);
                proof {
                    assert(xs@.take(i + 1).drop_last() =~= xs@.take(i as int));
                    lemma_items_same_extend(xs@.take(i as int), before, c);
                }
                i = i + 1;
            }
            assert(xs@.take(i as int) =~= xs@);
            Json::Array(out)
        },
        Json::Object(es) => {
            let mut out: Vec<(String, Json)> = Vec::new();
            let mut i: usize = 0;
            while i < es.len()
                invariant
                    i <= es@.len(),
                    out@.len() == i,
                    *v == Json::Object(*es),
                    entries_same(es@.take(i as int), out@),
                decreases es.len() - i,
            {
                proof {
                    assert(decreases_to!(*v => (*v)->Object_0));
                    assert(decreases_to!(*es => es@));
                    assert(decreases_to!(es@ => es@[i as int]));
                    assert(decreases_to!(es@[i as int] => es@[i as int].1));
                }
                let c = json_clone(&es[i].1);
                let k = es[i].0.clone();
                let ghost before = out@;
                out.push((k, c));
                proof {
                    assert(es@.take(i + 1).drop_last() =~= es@.take(i as int));
                    lemma_entries_same_extend(es@.take(i as int), before, (k, c));
                }
                i = i + 1;
            }
            assert(es@.take(i as int) =~= es@);
            Json::Object(out)
        },
    }
}

/// Pairwise equality is kept when the compared sequence grows at the end.
proof fn lemma_items_same_extend(xs: Seq<Json>, ys: Seq<Json>, y: Json)
    requires
        xs.len() <= ys.len(),
        items_same(xs, ys),
    ensures
        items_same(xs, ys.push(y)),
    decreases xs.len(),
{
    if xs.len() > 0 {
        lemma_items_same_extend(xs.drop_last(), ys, y);
    }
}

/// Entry-wise equality is kept when the compared sequence grows at the end.
proof fn lemma_entries_same_extend(es: Seq<(String, Json)>, fs: Seq<(String, Json)>, f: (String, Json))
    requires
        es.len() <= fs.len(),
        entries_same(es, fs),
    ensures
        entries_same(es, fs.push(f)),
    decreases es.len(),
{
    if es.len() > 0 {
        lemma_entries_same_extend(es.drop_last(), fs, f);
    }
}

/// `json_same` does not depend on the order of its arguments.
pub proof fn lemma_json_same_symmetric(a: Json, b: Json)
    ensures
        json_same(a, b) == json_same(b, a),
    decreases a,
{
    match a {
        Json::Array(xs) => match b {
            Json::Array(ys) => if xs@.len() == ys@.len() {
                lemma_items_same_symmetric(a, xs@, ys@, xs@.len() as int);
                assert(xs@.take(xs@.len() as int) =~= xs@);
                assert(ys@.take(ys@.len() as int) =~= ys@);
            },
            _ => {},
        },
        Json::Object(es) => match b {
            Json::Object(fs) => if es@.len() == fs@.len() {
                lemma_entries_same_symmetric(a, es@, fs@, es@.len() as int);
                assert(es@.take(es@.len() as int) =~= es@);
                assert(fs@.take(fs@.len() as int) =~= fs@);
            },
            _ => {},
        },
        _ => {},
    }
}

proof fn lemma_items_same_symmetric(v: Json, xs: Seq<Json>, ys: Seq<Json>, k: int)
    requires
        v matches Json::Array(items) && items@ == xs,
        xs.len() == ys.len(),
        0 <= k <= xs.len(),
    ensures
        items_same(xs.take(k), ys) == items_same(ys.take(k), xs),
    decreases v, k,
{
    if k > 0 {
        assert(xs.take(k).drop_last() =~= xs.take(k - 1));
        assert(ys.take(k).drop_last() =~= ys.take(k - 1));
        lemma_items_same_symmetric(v, xs, ys, k - 1);
        let items = v->Array_0;
        assert(decreases_to!(v => items));
        assert(decreases_to!(items => items@));
        assert(decreases_to!(xs => xs[k - 1]));
        lemma_json_same_symmetric(xs[k - 1], ys[k - 1]);
    }
}

proof fn lemma_entries_same_symmetric(v: Json, es: Seq<(String, Json)>, fs: Seq<(String, Json)>, k: int)
    requires
        v matches Json::Object(entries) && entries@ == es,
        es.len() == fs.len(),
        0 <= k <= es.len(),
    ensures
        entries_same(es.take(k), fs) == entries_same(fs.take(k), es),
    decreases v, k,
{
    if k > 0 {
        assert(es.take(k).drop_last() =~= es.take(k - 1));
        assert(fs.take(k).drop_last() =~= fs.take(k - 1));
        lemma_entries_same_symmetric(v, es, fs, k - 1);
        let entries = v->Object_0;
        assert(decreases_to!(v => entries));
        assert(decreases_to!(entries => entries@));
        assert(decreases_to!(es => es[k - 1]));
        assert(decreases_to!(es[k - 1] => es[k - 1].1));
        lemma_json_same_symmetric(es[k - 1].1, fs[k - 1].1);
    }
}

/// Every JSON value equals itself.
pub proof fn lemma_json_same_reflexive(v: Json)
    ensures
        json_same(v, v),
    decreases v,
{
    match v {
        Json::Array(xs) => {
            lemma_items_same_reflexive(v, xs@, xs@.len() as int);
            assert(xs@.take(xs@.len() as int) =~= xs@);
        },
        Json::Object(es) => {
            lemma_entries_same_reflexive(v, es@, es@.len() as int);
            assert(es@.take(es@.len() as int) =~= es@);
        },
        _ => {},
    }
}

proof fn lemma_items_same_reflexive(v: Json, xs: Seq<Json>, k: int)
    requires
        v matches Json::Array(items) && items@ == xs,
        0 <= k <= xs.len(),
    ensures
        items_same(xs.take(k), xs),
    decreases v, k,
{
    if k > 0 {
        assert(xs.take(k).drop_last() =~= xs.take(k - 1));
        lemma_items_same_reflexive(v, xs, k - 1);
        let items = v->Array_0;
        assert(decreases_to!(v => items));
        assert(decreases_to!(items => items@));
        assert(decreases_to!(xs => xs[k - 1]));
        lemma_json_same_reflexive(xs[k - 1]);
    }
    if k == xs.len() {
        assert(xs.take(k) =~= xs);
    }
}

proof fn lemma_entries_same_reflexive(v: Json, es: Seq<(String, Json)>, k: int)
    requires
        v matches Json::Object(entries) && entries@ == es,
        0 <= k <= es.len(),
    ensures
        entries_same(es.take(k), es),
    decreases v, k,
{
    if k > 0 {
        assert(es.take(k).drop_last() =~= es.take(k - 1));
        lemma_entries_same_reflexive(v, es, k - 1);
        let entries = v->Object_0;
        assert(decreases_to!(v => entries));
        assert(decreases_to!(entries => entries@));
        assert(decreases_to!(es => es[k - 1]));
        assert(decreases_to!(es[k - 1] => es[k - 1].1));
        lemma_json_same_reflexive(es[k - 1].1);
    }
    if k == es.len() {
        assert(es.take(k) =~= es);
    }
}

} // verus!
