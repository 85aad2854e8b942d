//! The JSON values the LLM pipeline reads and builds, with their
//! mathematical model, field access as serde_json's `Value` offers it, and
//! the small readers built on top (required fields, `satisfied` flags, JSON
//! candidates inside model output, XML-style tool calls).
use vstd::prelude::*;
use crate::text::{
    chars_eq, chars_of, find, find_exec, find_from, find_from_exec, rfind_char, rfind_char_exec,
    find_char, find_char_exec, push_all, push_str, slice_chars, starts_with, starts_with_exec,
    string_of, trim, trim_chars, trim_range, unicode_lower, to_lowercase, eq_str, ends_with,
    ends_with_exec, shift,
};

verus! {

/// A JSON value. Numbers keep serde_json's three kinds: non-negative
/// integers, negative integers, and floats (kept as their decimal text).
pub enum Json {
    Null,
    Bool(bool),
    PosInt(u64),
    NegInt(i64),
    Float(String),
    Str(String),
    Arr(Vec<Json>),
    Obj(Vec<(String, Json)>),
}

/// The mathematical value of a JSON document: strings as character sequences.
pub enum JVal {
    Null,
    Bool(bool),
    PosInt(u64),
    NegInt(i64),
    Float(Seq<char>),
    Str(Seq<char>),
    Arr(Seq<JVal>),
    Obj(Seq<(Seq<char>, JVal)>),
}

/// The value of a JSON document.
pub open spec fn jv(j: Json) -> JVal
    decreases j, 0int,
{
    match j {
        Json::Null => JVal::Null,
        Json::Bool(b) => JVal::Bool(b),
        Json::PosInt(n) => JVal::PosInt(n),
        Json::NegInt(n) => JVal::NegInt(n),
        Json::Float(s) => JVal::Float(s@),
        Json::Str(s) => JVal::Str(s@),
        Json::Arr(v) => JVal::Arr(jv_items(v@, 0)),
        Json::Obj(f) => JVal::Obj(jv_fields(f@, 0)),
    }
}

/// Values of the items of `s` from index `i` on.
pub open spec fn jv_items(s: Seq<Json>, i: int) -> Seq<JVal>
    decreases s, s.len() - i,
{
    if 0 <= i < s.len() {
        seq![jv(s[i])] + jv_items(s, i + 1)
    } else {
        Seq::empty()
    }
}

/// Values of the fields of `f` from index `i` on.
pub open spec fn jv_fields(f: Seq<(String, Json)>, i: int) -> Seq<(Seq<char>, JVal)>
    decreases f, f.len() - i,
{
    if 0 <= i < f.len() {
        seq![(f[i].0@, jv(f[i].1))] + jv_fields(f, i + 1)
    } else {
        Seq::empty()
    }
}

impl View for Json {
    type V = JVal;

    open spec fn view(&self) -> JVal {
        jv(*self)
    }
}

/// Values of a sequence of documents.
pub open spec fn jvs(s: Seq<Json>) -> Seq<JVal> {
    s.map_values(|x: Json| x@)
}

/// Values of a sequence of fields.
pub open spec fn jfs(f: Seq<(String, Json)>) -> Seq<(Seq<char>, JVal)> {
    f.map_values(|p: (String, Json)| (p.0@, p.1@))
}

proof fn lemma_items_from(s: Seq<Json>, i: int)
    requires
        0 <= i <= s.len(),
    ensures
        jv_items(s, i) == jvs(s).skip(i),
    decreases s.len() - i,
{
    if i < s.len() {
        lemma_items_from(s, i + 1);
        assert(jv_items(s, i) =~= jvs(s).skip(i));
    } else {
        assert(jvs(s).skip(i) =~= Seq::<JVal>::empty());
    }
}

proof fn lemma_fields_from(f: Seq<(String, Json)>, i: int)
    requires
        0 <= i <= f.len(),
    ensures
        jv_fields(f, i) == jfs(f).skip(i),
    decreases f.len() - i,
{
    if i < f.len() {
        lemma_fields_from(f, i + 1);
        assert(jv_fields(f, i) =~= jfs(f).skip(i));
    } else {
        assert(jfs(f).skip(i) =~= Seq::<(Seq<char>, JVal)>::empty());
    }
}

/// The value of an array is the array of the values of its items.
pub proof fn lemma_arr_view(v: Vec<Json>)
    ensures
        Json::Arr(v)@ == JVal::Arr(jvs(v@)),
{
    lemma_items_from(v@, 0);
    assert(jvs(v@).skip(0) =~= jvs(v@));
}

/// The value of an object is the sequence of its keys and field values.
pub proof fn lemma_obj_view(f: Vec<(String, Json)>)
    ensures
        Json::Obj(f)@ == JVal::Obj(jfs(f@)),
{
    lemma_fields_from(f@, 0);
    assert(jfs(f@).skip(0) =~= jfs(f@));
}

// ---------------------------------------------------------------------------
// Field access on values
// ---------------------------------------------------------------------------

/// First index at or after `i` whose key is `key`.
pub open spec fn key_from(f: Seq<(Seq<char>, JVal)>, key: Seq<char>, i: int) -> Option<int>
    decreases f.len() - i,
{
    if i < 0 || i >= f.len() {
        None
    } else if f[i].0 == key {
        Some(i)
    } else {
        key_from(f, key, i + 1)
    }
}

/// First index whose key is `key`.
pub open spec fn key_pos(f: Seq<(Seq<char>, JVal)>, key: Seq<char>) -> Option<int> {
    key_from(f, key, 0)
}

/// `f` with the field `key` set to `v`: replaced in place, or appended.
pub open spec fn set_field(f: Seq<(Seq<char>, JVal)>, key: Seq<char>, v: JVal) -> Seq<
    (Seq<char>, JVal),
> {
    match key_pos(f, key) {
        Some(i) => f.update(i, (key, v)),
        None => f.push((key, v)),
    }
}

/// `f` without the field `key`.
pub open spec fn remove_field(f: Seq<(Seq<char>, JVal)>, key: Seq<char>) -> Seq<
    (Seq<char>, JVal),
> {
    match key_pos(f, key) {
        Some(i) => f.remove(i),
        None => f,
    }
}

proof fn lemma_key_from_range(f: Seq<(Seq<char>, JVal)>, key: Seq<char>, i: int)
    ensures
        key_from(f, key, i) matches Some(k) ==> i <= k < f.len() && f[k].0 == key,
    decreases f.len() - i,
{
    if 0 <= i < f.len() && f[i].0 != key {
        lemma_key_from_range(f, key, i + 1);
    }
}

impl JVal {
    /// `Value::get(key)`: the field of an object.
    pub open spec fn get(self, key: Seq<char>) -> Option<JVal> {
        match self {
            JVal::Obj(f) => match key_pos(f, key) {
                Some(i) => Some(f[i].1),
                None => None,
            },
            _ => None,
        }
    }

    /// `value[key]`: the field of an object, `Null` when absent.
    pub open spec fn field(self, key: Seq<char>) -> JVal {
        match self.get(key) {
            Some(v) => v,
            None => JVal::Null,
        }
    }

    /// `Value::get(i)`: the item of an array.
    pub open spec fn at(self, i: int) -> Option<JVal> {
        match self {
            JVal::Arr(a) => if 0 <= i < a.len() {
                Some(a[i])
            } else {
                None
            },
            _ => None,
        }
    }

    /// `value[i]`: the item of an array, `Null` when absent.
    pub open spec fn item(self, i: int) -> JVal {
        match self.at(i) {
            Some(v) => v,
            None => JVal::Null,
        }
    }

    pub open spec fn as_str(self) -> Option<Seq<char>> {
        match self {
            JVal::Str(s) => Some(s),
            _ => None,
        }
    }

    /// `Value::as_u64`: non-negative integers only.
    pub open spec fn as_u64(self) -> Option<u64> {
        match self {
            JVal::PosInt(n) => Some(n),
            _ => None,
        }
    }

    /// `Value::as_i64`: integers that fit `i64`.
    pub open spec fn as_i64(self) -> Option<i64> {
        match self {
            JVal::PosInt(n) => if n <= i64::MAX {
                Some(n as i64)
            } else {
                None
            },
            JVal::NegInt(n) => Some(n),
            _ => None,
        }
    }

    pub open spec fn as_arr(self) -> Option<Seq<JVal>> {
        match self {
            JVal::Arr(a) => Some(a),
            _ => None,
        }
    }

    pub open spec fn is_null(self) -> bool {
        self is Null
    }

    /// `value == "text"`: a string equal to `s`.
    pub open spec fn is_text(self, s: Seq<char>) -> bool {
        self == JVal::Str(s)
    }

    /// `value[key] = v` on an object, or on `null`, which becomes an object.
    pub open spec fn set(self, key: Seq<char>, v: JVal) -> JVal {
        match self {
            JVal::Obj(f) => JVal::Obj(set_field(f, key, v)),
            _ => JVal::Obj(seq![(key, v)]),
        }
    }

    /// `Map::remove(key)` on an object; other values are unchanged.
    pub open spec fn without(self, key: Seq<char>) -> JVal {
        match self {
            JVal::Obj(f) => JVal::Obj(remove_field(f, key)),
            _ => self,
        }
    }
}

/// No two fields of `f` share a key, as in serde_json's maps.
pub open spec fn distinct_keys(f: Seq<(Seq<char>, JVal)>) -> bool {
    forall|a: int, b: int| 0 <= a < b < f.len() ==> #[trigger] f[a].0 != #[trigger] f[b].0
}

/// Overwriting the value at a position whose key is `key` moves no key.
proof fn lemma_key_from_update(
    f: Seq<(Seq<char>, JVal)>,
    i: int,
    key: Seq<char>,
    v: JVal,
    k: Seq<char>,
    t: int,
)
    requires
        0 <= i < f.len(),
        f[i].0 == key,
        0 <= t,
    ensures
        key_from(f.update(i, (key, v)), k, t) == key_from(f, k, t),
    decreases f.len() - t,
{
    if t < f.len() {
        lemma_key_from_update(f, i, key, v, k, t + 1);
    }
}

/// Appending a field leaves every earlier match in place.
proof fn lemma_key_from_push(f: Seq<(Seq<char>, JVal)>, key: Seq<char>, v: JVal, k: Seq<char>, t: int)
    requires
        0 <= t <= f.len(),
    ensures
        key_from(f.push((key, v)), k, t) == (match key_from(f, k, t) {
            Some(p) => Some(p),
            None => if k == key {
                Some(f.len() as int)
            } else {
                None
            },
        }),
    decreases f.len() - t,
{
    let g = f.push((key, v));
    if t < f.len() {
        assert(g[t] == f[t]);
        lemma_key_from_push(f, key, v, k, t + 1);
    } else {
        assert(key_from(g, k, t + 1) is None);
        assert(g[t] == (key, v));
    }
}

/// A key that no field carries is found nowhere.
proof fn lemma_key_from_absent(f: Seq<(Seq<char>, JVal)>, k: Seq<char>, t: int)
    requires
        forall|j: int| 0 <= j < f.len() ==> #[trigger] f[j].0 != k,
    ensures
        key_from(f, k, t) is None,
    decreases f.len() - t,
{
    if 0 <= t < f.len() {
        lemma_key_from_absent(f, k, t + 1);
    }
}

/// Searching `f.remove(i)` from `t >= i` is searching `f` from `t + 1`, one
/// position to the left.
proof fn lemma_key_from_remove_after(f: Seq<(Seq<char>, JVal)>, i: int, k: Seq<char>, t: int)
    requires
        0 <= i <= t,
        i < f.len(),
    ensures
        key_from(f.remove(i), k, t) == shift(key_from(f, k, t + 1), -1),
    decreases f.len() - t,
{
    if t < f.len() - 1 {
        lemma_key_from_remove_after(f, i, k, t + 1);
    }
}

/// Searching `f.remove(i)` from `t <= i` for a key other than `f[i]`'s finds
/// the same field of `f`, one position to the left when it lies past `i`.
proof fn lemma_key_from_remove_before(f: Seq<(Seq<char>, JVal)>, i: int, k: Seq<char>, t: int)
    requires
        0 <= t <= i < f.len(),
        f[i].0 != k,
    ensures
        key_from(f.remove(i), k, t) == (match key_from(f, k, t) {
            Some(p) => Some(if p < i {
                p
            } else {
                p - 1
            }),
            None => None,
        }),
    decreases i - t,
{
    lemma_key_from_range(f, k, t);
    lemma_key_from_range(f, k, i + 1);
    if t == i {
        lemma_key_from_remove_after(f, i, k, i);
    } else {
        lemma_key_from_remove_before(f, i, k, t + 1);
    }
}

/// Reading a field back after setting it: once `value[key] = v` is done on
/// an object (or on `null`), `value.get(key)` gives `v`, and every other key
/// reads as it did before.
pub proof fn law_get_after_set(j: JVal, key: Seq<char>, v: JVal, other: Seq<char>)
    requires
        j is Obj || j is Null,
    ensures
        j.set(key, v).get(key) == Some(v),
        other != key ==> j.set(key, v).get(other) == j.get(other),
{
    match j {
        JVal::Obj(f) => {
            lemma_key_from_range(f, key, 0);
            match key_pos(f, key) {
                Some(i) => {
                    lemma_key_from_update(f, i, key, v, key, 0);
                    lemma_key_from_update(f, i, key, v, other, 0);
                    lemma_key_from_range(f, other, 0);
                },
                None => {
                    lemma_key_from_push(f, key, v, key, 0);
                    lemma_key_from_push(f, key, v, other, 0);
                    lemma_key_from_range(f, other, 0);
                },
            }
        },
        _ => {
            let s = seq![(key, v)];
            assert(key_from(s, key, 0) == Some(0int));
            if other != key {
                assert(key_from(s, other, 1) is None);
                assert(key_from(s, other, 0) is None);
            }
        },
    }
}

/// Reading a field back after removing it: an object whose keys are
/// distinct has no field `key` once `key` is removed, and every other key
/// reads as it did before.
pub proof fn law_get_after_remove(j: JVal, key: Seq<char>, other: Seq<char>)
    requires
        j matches JVal::Obj(f) ==> distinct_keys(f),
    ensures
        j is Obj ==> j.without(key).get(key) is None,
        other != key ==> j.without(key).get(other) == j.get(other),
{
    if let JVal::Obj(f) = j {
        lemma_key_from_range(f, key, 0);
        match key_pos(f, key) {
            Some(i) => {
                let g = f.remove(i);
                assert forall|q: int| 0 <= q < g.len() implies #[trigger] g[q].0 != key by {
                    if q < i {
                        assert(f[q].0 != f[i].0);
                    } else {
                        assert(f[i].0 != f[q + 1].0);
                    }
                }
                lemma_key_from_absent(g, key, 0);
                if other != key {
                    lemma_key_from_remove_before(f, i, other, 0);
                    lemma_key_from_range(f, other, 0);
                }
            },
            None => {},
        }
    }
}

/// A search that finds nothing from `t` on means no later field has the key.
proof fn lemma_key_from_none(f: Seq<(Seq<char>, JVal)>, k: Seq<char>, t: int)
    requires
        0 <= t,
        key_from(f, k, t) is None,
    ensures
        forall|j: int| t <= j < f.len() ==> #[trigger] f[j].0 != k,
    decreases f.len() - t,
{
    if t < f.len() {
        lemma_key_from_none(f, k, t + 1);
    }
}

/// Setting and removing fields keep an object's keys distinct.
pub proof fn law_edits_keep_keys_distinct(f: Seq<(Seq<char>, JVal)>, key: Seq<char>, v: JVal)
    requires
        distinct_keys(f),
    ensures
        distinct_keys(set_field(f, key, v)),
        distinct_keys(remove_field(f, key)),
{
    lemma_key_from_range(f, key, 0);
    match key_pos(f, key) {
        Some(i) => {
            let g = f.update(i, (key, v));
            assert forall|a: int, b: int| 0 <= a < b < g.len() implies #[trigger] g[a].0 != #[trigger] g[b].0 by {
                assert(g[a].0 == f[a].0 && g[b].0 == f[b].0);
            }
            let h = f.remove(i);
            assert forall|a: int, b: int| 0 <= a < b < h.len() implies #[trigger] h[a].0 != #[trigger] h[b].0 by {
                let a2 = if a < i { a } else { a + 1 };
                let b2 = if b < i { b } else { b + 1 };
                assert(h[a] == f[a2] && h[b] == f[b2]);
                assert(f[a2].0 != f[b2].0);
            }
        },
        None => {
            lemma_key_from_none(f, key, 0);
            let g = f.push((key, v));
            assert forall|a: int, b: int| 0 <= a < b < g.len() implies #[trigger] g[a].0 != #[trigger] g[b].0 by {
                if b == f.len() {
                    assert(g[a] == f[a]);
                    assert(f[a].0 != key);
                } else {
                    assert(g[a] == f[a] && g[b] == f[b]);
                }
            }
        },
    }
}

/// The value behind an optional reference.
pub open spec fn opt_view(o: Option<&Json>) -> Option<JVal> {
    match o {
        Some(x) => Some(x@),
        None => None,
    }
}

/// The characters behind an optional string slice.
pub open spec fn opt_chars(o: Option<&str>) -> Option<Seq<char>> {
    match o {
        Some(s) => Some(s@),
        None => None,
    }
}

/// Whether two string slices hold the same characters.
pub fn str_eq(a: &str, b: &str) -> (r: bool)
    ensures
        r == (a@ == b@),
{
    let av = chars_of(a);
    let bv = chars_of(b);
    chars_eq(av.as_slice(), bv.as_slice())
}

/// Index of the first field named `key`.
pub fn find_key(f: &Vec<(String, Json)>, key: &str) -> (r: Option<usize>)
    ensures
        r matches Some(i) ==> i < f@.len() && key_pos(jfs(f@), key@) == Some(i as int),
        r is None ==> key_pos(jfs(f@), key@) is None,
{
    let ghost fv = jfs(f@);
    let mut i: usize = 0;
    while i < f.len()
        invariant
            i <= f@.len(),
            fv == jfs(f@),
            key_pos(fv, key@) == key_from(fv, key@, i as int),
        decreases f@.len() - i,
    {
        if str_eq(f[i].0.as_str(), key) {
            proof {
                assert(fv[i as int].0 == key@);
            }
            return Some(i);
        }
        proof {
            assert(fv[i as int].0 != key@);
        }
        i = i + 1;
    }
    None
}

impl Json {
    /// `Value::get(key)`.
    pub fn get(&self, key: &str) -> (r: Option<&Json>)
        ensures
            opt_view(r) == self@.get(key@),
    {
        match self {
            Json::Obj(f) => {
                proof {
                    lemma_obj_view(*f);
                }
                match find_key(f, key) {
                    Some(i) => Some(&f[i].1),
                    None => None,
                }
            },
            _ => None,
        }
    }

    /// `Value::get(i)` on an array.
    pub fn at(&self, i: usize) -> (r: Option<&Json>)
        ensures
            opt_view(r) == self@.at(i as int),
    {
        match self {
            Json::Arr(v) => {
                proof {
                    lemma_arr_view(*v);
                }
                if i < v.len() {
                    Some(&v[i])
                } else {
                    None
                }
            },
            _ => None,
        }
    }

    /// `Value::as_str`.
    pub fn as_str(&self) -> (r: Option<&str>)
        ensures
            opt_chars(r) == self@.as_str(),
    {
        match self {
            Json::Str(s) => Some(s.as_str()),
            _ => None,
        }
    }

    /// `Value::as_u64`.
    pub fn as_u64(&self) -> (r: Option<u64>)
        ensures
            r == self@.as_u64(),
    {
        match self {
            Json::PosInt(n) => Some(*n),
            _ => None,
        }
    }

    /// `Value::as_i64`.
    pub fn as_i64(&self) -> (r: Option<i64>)
        ensures
            r == self@.as_i64(),
    {
        match self {
            Json::PosInt(n) => if *n <= 9223372036854775807u64 {
                Some(*n as i64)
            } else {
                None
            },
            Json::NegInt(n) => Some(*n),
            _ => None,
        }
    }

    /// `Value::as_array`.
    pub fn as_array(&self) -> (r: Option<&Vec<Json>>)
        ensures
            r matches Some(v) ==> self@.as_arr() == Some(jvs(v@)),
            r is None ==> self@.as_arr() is None,
    {
        match self {
            Json::Arr(v) => {
                proof {
                    lemma_arr_view(*v);
                }
                Some(v)
            },
            _ => None,
        }
    }

    /// `Value::is_null`.
    pub fn is_null(&self) -> (b: bool)
        ensures
            b == self@.is_null(),
    {
        match self {
            Json::Null => true,
            _ => false,
        }
    }

    /// `value == "text"`.
    pub fn is_text(&self, s: &str) -> (b: bool)
        ensures
            b == self@.is_text(s@),
    {
        match self {
            Json::Str(x) => str_eq(x.as_str(), s),
            _ => false,
        }
    }

    /// A string value.
    pub fn text(s: &str) -> (r: Json)
        ensures
            r@ == JVal::Str(s@),
    {
        Json::Str(s.to_owned())
    }

    /// An array value.
    pub fn array(v: Vec<Json>) -> (r: Json)
        ensures
            r@ == JVal::Arr(jvs(v@)),
    {
        proof {
            lemma_arr_view(v);
        }
        Json::Arr(v)
    }

    /// An object value with the given fields, in order.
    pub fn object(f: Vec<(String, Json)>) -> (r: Json)
        ensures
            r@ == JVal::Obj(jfs(f@)),
    {
        proof {
            lemma_obj_view(f);
        }
        Json::Obj(f)
    }

    /// A copy with the same value.
    pub fn copy(&self) -> (r: Json)
        ensures
            r@ == self@,
        decreases self,
    {
        match self {
            Json::Null => Json::Null,
            Json::Bool(b) => Json::Bool(*b),
            Json::PosInt(n) => Json::PosInt(*n),
            Json::NegInt(n) => Json::NegInt(*n),
            Json::Float(s) => Json::Float(s.clone()),
            Json::Str(s) => Json::Str(s.clone()),
            Json::Arr(v) => {
                let mut w: Vec<Json> = Vec::new();
                let mut i: usize = 0;
                while i < v.len()
                    invariant
                        i <= v@.len(),
                        w@.len() == i,
                        *self == Json::Arr(*v),
                        forall|k: int| 0 <= k < i ==> (#[trigger] w@[k])@ == v@[k]@,
                    decreases v@.len() - i,
                {
                    proof {
                        let ghost me: Json = *self;
                        assert(decreases_to!(me => me->Arr_0));
                        assert(decreases_to!(*v => v@));
                        assert(decreases_to!(v@ => v@[i as int]));
                    }
                    let c = v[i].copy();
                    w.push(c);
                    i = i + 1;
                }
                proof {
                    lemma_arr_view(*v);
                    lemma_arr_view(w);
                    assert(jvs(w@) =~= jvs(v@));
                }
                Json::Arr(w)
            },
            Json::Obj(f) => {
                let mut g: Vec<(String, Json)> = Vec::new();
                let mut i: usize = 0;
                while i < f.len()
                    invariant
                        i <= f@.len(),
                        g@.len() == i,
                        *self == Json::Obj(*f),
                        forall|k: int|
                            0 <= k < i ==> (#[trigger] g@[k]).0@ == f@[k].0@ && g@[k].1@
                                == f@[k].1@,
                    decreases f@.len() - i,
                {
                    proof {
                        let ghost me: Json = *self;
                        assert(decreases_to!(me => me->Obj_0));
                        assert(decreases_to!(*f => f@));
                        assert(decreases_to!(f@ => f@[i as int]));
                        assert(decreases_to!(f@[i as int] => f@[i as int].1));
                    }
                    let c = f[i].1.copy();
                    g.push((f[i].0.clone(), c));
                    i = i + 1;
                }
                proof {
                    lemma_obj_view(*f);
                    lemma_obj_view(g);
                    assert(jfs(g@) =~= jfs(f@));
                }
                Json::Obj(g)
            },
        }
    }

    /// `value[key] = v`: sets a field of an object; `null` becomes an object.
    pub fn insert(&mut self, key: &str, v: Json)
        requires
            old(self)@ is Obj || old(self)@ is Null,
        ensures
            final(self)@ == old(self)@.set(key@, v@),
    {
        match self {
            Json::Obj(f) => {
                proof {
                    lemma_obj_view(*f);
                }
                let ghost fv = jfs(f@);
                match find_key(f, key) {
                    Some(i) => {
                        f.set(i, (key.to_owned(), v));
                        proof {
                            lemma_obj_view(*f);
                            assert(jfs(f@) =~= fv.update(i as int, (key@, v@)));
                        }
                    },
                    None => {
                        f.push((key.to_owned(), v));
                        proof {
                            lemma_obj_view(*f);
                            assert(jfs(f@) =~= fv.push((key@, v@)));
                        }
                    },
                }
            },
            _ => {
                let mut f: Vec<(String, Json)> = Vec::new();
                f.push((key.to_owned(), v));
                proof {
                    lemma_obj_view(f);
                    assert(jfs(f@) =~= seq![(key@, v@)]);
                }
                *self = Json::Obj(f);
            },
        }
    }

    /// `Map::remove(key)` on an object; other values are left alone.
    pub fn remove(&mut self, key: &str)
        ensures
            final(self)@ == old(self)@.without(key@),
    {
        match self {
            Json::Obj(f) => {
                proof {
                    lemma_obj_view(*f);
                }
                let ghost fv = jfs(f@);
                match find_key(f, key) {
                    Some(i) => {
                        f.remove(i);
                        proof {
                            lemma_obj_view(*f);
                            assert(jfs(f@) =~= fv.remove(i as int));
                        }
                    },
                    None => {},
                }
            },
            _ => {},
        }
    }
}

// ---------------------------------------------------------------------------
// Readers
// ---------------------------------------------------------------------------

/// The items of a schema's `required` array (none when absent or not an array).
pub open spec fn required_items(schema: JVal) -> Seq<JVal> {
    match schema.get("required"@) {
        Some(JVal::Arr(a)) => a,
        _ => Seq::empty(),
    }
}

/// The first required name, from index `i` on, that `output` lacks or holds as `null`.
pub open spec fn first_missing_from(req: Seq<JVal>, output: JVal, i: int) -> Option<Seq<char>>
    decreases req.len() - i,
{
    if i < 0 || i >= req.len() {
        None
    } else {
        match req[i].as_str() {
            Some(n) => if output.field(n).is_null() {
                Some(n)
            } else {
                first_missing_from(req, output, i + 1)
            },
            None => first_missing_from(req, output, i + 1),
        }
    }
}

/// The first required field that `output` lacks.
pub open spec fn first_missing(output: JVal, schema: JVal) -> Option<Seq<char>> {
    first_missing_from(required_items(schema), output, 0)
}

/// `missing required field: '{name}'`.
pub open spec fn missing_message(name: Seq<char>) -> Seq<char> {
    "missing required field: '"@ + name + "'"@
}

/// Checks that `output` holds every field the schema's `required` list
/// names (string entries only), with a non-null value; reports the first
/// one that is missing.
pub fn validate_required_fields(output: &Json, schema: &Json) -> (r: Result<(), String>)
    ensures
        r is Ok <==> first_missing(output@, schema@) is None,
        r matches Err(e) ==> first_missing(output@, schema@) == Some(e@.subrange(
            25,
            e@.len() - 1,
        )) && e@ == missing_message(e@.subrange(25, e@.len() - 1)),
{
    let req = match schema.get("required") {
        Some(r) => match r.as_array() {
            Some(a) => a,
            None => {
                return Ok(());
            },
        },
        None => {
            return Ok(());
        },
    };
    let ghost items = jvs(req@);
    proof {
        assert(required_items(schema@) == items);
    }
    let mut i: usize = 0;
    while i < req.len()
        invariant
            i <= req@.len(),
            items == jvs(req@),
            required_items(schema@) == items,
            first_missing(output@, schema@) == first_missing_from(items, output@, i as int),
        decreases req@.len() - i,
    {
        match req[i].as_str() {
            Some(name) => {
                let missing = match output.get(name) {
                    Some(v) => v.is_null(),
                    None => true,
                };
                if missing {
                    let mut m: Vec<char> = Vec::new();
                    push_str(&mut m, "missing required field: '");
                    push_str(&mut m, name);
                    push_str(&mut m, "'");
                    proof {
                        reveal_strlit("missing required field: '");
                        reveal_strlit("'");
                        assert(m@.subrange(25, m@.len() - 1) =~= name@);
                        assert(m@ =~= missing_message(name@));
                    }
                    return Err(string_of(m.as_slice()));
                }
            },
            None => {},
        }
        i = i + 1;
    }
    Ok(())
}

/// Reads a `satisfied` flag defensively: a boolean as it is, a string when
/// it trims and lower-cases to `true`, an integer when it is non-zero.
pub open spec fn satisfied_flag(val: JVal) -> bool {
    match val.get("satisfied"@) {
        Some(JVal::Bool(b)) => b,
        Some(JVal::Str(s)) => unicode_lower(trim(s)) == "true"@,
        Some(JVal::PosInt(n)) => n != 0 && n <= i64::MAX,
        Some(JVal::NegInt(n)) => n != 0,
        _ => false,
    }
}

/// Parses the `satisfied` field of a critic's reply (bool, string or number).
pub fn parse_satisfied(val: &Json) -> (b: bool)
    ensures
        b == satisfied_flag(val@),
        match val@.get("satisfied"@) {
            Some(JVal::Str(s)) => crate::text::all_ascii(trim(s)) ==> b == (crate::text::ascii_lower(
                trim(s),
            ) == "true"@),
            _ => true,
        },
{
    match val.get("satisfied") {
        Some(Json::Bool(b)) => *b,
        Some(Json::Str(s)) => {
            let t = trim_chars(chars_of(s.as_str()).as_slice());
            let ts = string_of(t.as_slice());
            let l = to_lowercase(ts.as_str());
            str_eq(l.as_str(), "true")
        },
        Some(n) => match n.as_i64() {
            Some(x) => x != 0,
            None => false,
        },
        None => false,
    }
}

/// Drops the writer's `constraints` note from a CV object.
pub fn strip_cv_metadata(cv: &mut Json)
    ensures
        final(cv)@ == old(cv)@.without("constraints"@),
{
    cv.remove("constraints");
}

// ---------------------------------------------------------------------------
// JSON inside model output
// ---------------------------------------------------------------------------

/// A trimmed reply with a markdown code fence (```` ```json ```` or ```` ``` ````)
/// and its closing fence removed; the reply itself when not fenced.
pub open spec fn unfenced(t: Seq<char>) -> Seq<char> {
    let rest = if starts_with(t, "```json"@) {
        Some(t.skip(7))
    } else if starts_with(t, "```"@) {
        Some(t.skip(3))
    } else {
        None
    };
    match rest {
        Some(r) => {
            let u = trim(r);
            if ends_with(u, "```"@) {
                trim(u.take(u.len() - 3))
            } else {
                t
            }
        },
        None => t,
    }
}

/// The text from the first `{` to the last `}`, when the first comes first.
pub open spec fn brace_span(c: Seq<char>) -> Option<Seq<char>> {
    match (find_char(c, '{'), rfind_char(c, '}')) {
        (Some(s), Some(e)) => if s < e {
            Some(c.subrange(s, e + 1))
        } else {
            None
        },
        _ => None,
    }
}

/// The texts tried, in order, when looking for a JSON document in a model
/// reply: the trimmed reply, the reply without a code fence, and the span
/// between the outermost braces.
pub open spec fn json_candidates_of(c: Seq<char>) -> Seq<Seq<char>> {
    let t = trim(c);
    seq![t, unfenced(t)] + match brace_span(c) {
        Some(b) => seq![b],
        None => Seq::empty(),
    }
}

proof fn lemma_rfind_in_range(s: Seq<char>, c: char)
    ensures
        rfind_char(s, c) matches Some(k) ==> 0 <= k < s.len(),
    decreases s.len(),
{
    if s.len() > 0 {
        lemma_rfind_in_range(s.drop_last(), c);
    }
}

/// What `rfind_char` finds: the last occurrence.
proof fn lemma_rfind_char_last(s: Seq<char>, c: char)
    ensures
        rfind_char(s, c) matches Some(k) ==> 0 <= k < s.len() && s[k] == c && forall|j: int|
            k < j < s.len() ==> s[j] != c,
        rfind_char(s, c) is None ==> forall|j: int| 0 <= j < s.len() ==> s[j] != c,
    decreases s.len(),
{
    if s.len() > 0 {
        lemma_rfind_char_last(s.drop_last(), c);
        assert forall|j: int| 0 <= j < s.len() - 1 implies s.drop_last()[j] == s[j] by {}
    }
}

/// What `find_char` finds: the first occurrence.
proof fn lemma_find_char_first(s: Seq<char>, c: char)
    ensures
        find_char(s, c) matches Some(k) ==> 0 <= k < s.len() && s[k] == c && forall|j: int|
            0 <= j < k ==> s[j] != c,
        find_char(s, c) is None ==> forall|j: int| 0 <= j < s.len() ==> s[j] != c,
{
    crate::text::lemma_find_from_first(s, seq![c], 0);
    if let Some(k) = find_char(s, c) {
        assert(s.subrange(k, k + 1) =~= seq![c]);
        assert(s.subrange(k, k + 1)[0] == s[k]);
        assert forall|j: int| 0 <= j < k implies s[j] != c by {
            if s[j] == c {
                assert(s.subrange(j, j + 1) =~= seq![c]);
                assert(crate::text::occurs_at(s, seq![c], j));
            }
        }
    } else {
        assert forall|j: int| 0 <= j < s.len() implies s[j] != c by {
            if s[j] == c {
                assert(s.subrange(j, j + 1) =~= seq![c]);
                assert(crate::text::occurs_at(s, seq![c], j));
            }
        }
    }
}

/// The brace candidate spans the outermost braces: when some `{` comes
/// before some `}`, the third candidate runs from the first `{` of the reply
/// to its last `}` (no `}` follows it); otherwise there are only two
/// candidates.
pub proof fn law_brace_candidate_is_outermost(c: Seq<char>)
    ensures
        (exists|i: int, j: int| 0 <= i < j < c.len() && c[i] == '{' && c[j] == '}') ==> {
            &&& json_candidates_of(c).len() == 3
            &&& exists|s: int, e: int|
                0 <= s < e < c.len() && c[s] == '{' && c[e] == '}' && (forall|k: int|
                    0 <= k < s ==> c[k] != '{') && (forall|k: int| e < k < c.len() ==> c[k] != '}')
                    && json_candidates_of(c)[2] == c.subrange(s, e + 1)
        },
        !(exists|i: int, j: int| 0 <= i < j < c.len() && c[i] == '{' && c[j] == '}')
            ==> json_candidates_of(c).len() == 2,
{
    lemma_find_char_first(c, '{');
    lemma_rfind_char_last(c, '}');
    if exists|i: int, j: int| 0 <= i < j < c.len() && c[i] == '{' && c[j] == '}' {
        let (i, j) = choose|i: int, j: int| 0 <= i < j < c.len() && c[i] == '{' && c[j] == '}';
        let s = find_char(c, '{')->0;
        let e = rfind_char(c, '}')->0;
        assert(s <= i);
        assert(j <= e);
        assert(brace_span(c) == Some(c.subrange(s, e + 1)));
    } else {
        match (find_char(c, '{'), rfind_char(c, '}')) {
            (Some(s), Some(e)) => {
                if s < e {
                    assert(c[s] == '{' && c[e] == '}');
                }
            },
            _ => {},
        }
        assert(brace_span(c) is None);
    }
}

/// The texts, in order, that a JSON document is parsed from in a model
/// reply; the first that parses is the document.
pub fn json_candidates(content: &str) -> (r: Vec<String>)
    ensures
        crate::text::views(r@) == json_candidates_of(content@),
{
    let c = chars_of(content);
    let t = trim_chars(c.as_slice());
    let mut out: Vec<String> = Vec::new();
    out.push(string_of(t.as_slice()));
    let fence_len: usize = if starts_with_exec(t.as_slice(), chars_of("```json").as_slice()) {
        7
    } else if starts_with_exec(t.as_slice(), chars_of("```").as_slice()) {
        3
    } else {
        0
    };
    proof {
        reveal_strlit("```json");
        reveal_strlit("```");
    }
    let un: Vec<char> = if fence_len > 0 {
        let u = trim_range(t.as_slice(), fence_len, t.len());
        proof {
            assert(t@.subrange(fence_len as int, t@.len() as int) == t@.skip(fence_len as int));
        }
        if ends_with_exec(u.as_slice(), chars_of("```").as_slice()) {
            let r = trim_range(u.as_slice(), 0, u.len() - 3);
            proof {
                assert(u@.subrange(0, u@.len() - 3) == u@.take(u@.len() - 3));
            }
            r
        } else {
            slice_chars(t.as_slice(), 0, t.len())
        }
    } else {
        slice_chars(t.as_slice(), 0, t.len())
    };
    proof {
        assert(t@.subrange(0, t@.len() as int) =~= t@);
        assert(un@ == unfenced(t@));
    }
    out.push(string_of(un.as_slice()));
    proof {
        lemma_rfind_in_range(c@, '}');
    }
    match (find_char_exec(c.as_slice(), '{'), rfind_char_exec(c.as_slice(), '}')) {
        (Some(s), Some(e)) => {
            if s < e {
                out.push(string_of(slice_chars(c.as_slice(), s, e + 1).as_slice()));
            }
        },
        _ => {},
    }
    proof {
        assert(crate::text::views(out@) =~= json_candidates_of(content@));
    }
    out
}

// ---------------------------------------------------------------------------
// XML-style tool calls
// ---------------------------------------------------------------------------

/// The text between the first `<tool_call>` and the next `</tool_call>`.
pub open spec fn tool_call_body(c: Seq<char>) -> Option<Seq<char>> {
    match find(c, "<tool_call>"@) {
        Some(s) => {
            let rest = c.skip(s + 11);
            match find(rest, "</tool_call>"@) {
                Some(e) => Some(rest.take(e)),
                None => None,
            }
        },
        None => None,
    }
}

/// Where a parameter value ends in `rest`: before `</parameter>`, else before
/// the next `<parameter`, else before `</tool_call>`, else at the end.
pub open spec fn value_end(rest: Seq<char>) -> int {
    match find(rest, "</parameter>"@) {
        Some(e) => e,
        None => match find(rest, "<parameter"@) {
            Some(e) => e,
            None => match find(rest, "</tool_call>"@) {
                Some(e) => e,
                None => rest.len() as int,
            },
        },
    }
}

pub proof fn lemma_find_in_range(s: Seq<char>, pat: Seq<char>)
    ensures
        find(s, pat) matches Some(k) ==> 0 <= k && k + pat.len() <= s.len(),
{
    crate::text::lemma_find_from_first(s, pat, 0);
}

pub proof fn lemma_value_end_range(rest: Seq<char>)
    ensures
        0 <= value_end(rest) <= rest.len(),
{
    lemma_find_in_range(rest, "</parameter>"@);
    lemma_find_in_range(rest, "<parameter"@);
    lemma_find_in_range(rest, "</tool_call>"@);
}

/// The parameters `<parameter=key>value</parameter>` found in `inner` from
/// `pos` on, added to `acc` (a later key replaces an earlier one); `None`
/// when a parameter's key has no closing `>`.
pub open spec fn xml_params(inner: Seq<char>, pos: int, acc: Seq<(Seq<char>, JVal)>) -> Option<
    Seq<(Seq<char>, JVal)>,
>
    decreases inner.len() - pos,
{
    if pos < 0 || pos > inner.len() {
        Some(acc)
    } else {
        match find(inner.skip(pos), "<parameter="@) {
            None => Some(acc),
            Some(t) => {
                let abs = pos + t + 11;
                match find_char(inner.skip(abs), '>') {
                    None => None,
                    Some(ke) => {
                        let key = inner.skip(abs).take(ke);
                        let vs = abs + ke + 1;
                        let ve = value_end(inner.skip(vs));
                        let value = trim(inner.subrange(vs, vs + ve));
                        let next = if starts_with(inner.skip(vs + ve), "</parameter>"@) {
                            vs + ve + 12
                        } else {
                            vs + ve
                        };
                        proof {
                            reveal_strlit("<parameter=");
                            reveal_strlit("</parameter>");
                            lemma_find_in_range(inner.skip(pos), "<parameter="@);
                            lemma_find_in_range(inner.skip(abs), seq!['>']);
                            lemma_value_end_range(inner.skip(vs));
                        }
                        xml_params(inner, next, set_field(acc, key, JVal::Str(value)))
                    },
                }
            },
        }
    }
}

/// The tool call written as `<tool_call>` with `<parameter=key>value</parameter>`
/// entries: an object of the (trimmed) string values, or `None` when there is
/// no such call, a key is unterminated, or no parameter is found.
pub open spec fn xml_tool_call(c: Seq<char>) -> Option<JVal> {
    match tool_call_body(c) {
        Some(inner) => match xml_params(inner, 0, Seq::empty()) {
            Some(f) => if f.len() == 0 {
                None
            } else {
                Some(JVal::Obj(f))
            },
            None => None,
        },
        None => None,
    }
}

/// Parses the XML-style tool-call format that some reasoning models emit
/// in place of a native tool call.
pub fn extract_xml_tool_call(content: &str) -> (r: Option<Json>)
    ensures
        opt_view_owned(r) == xml_tool_call(content@),
{
    proof {
        reveal_strlit("<tool_call>");
        reveal_strlit("</tool_call>");
        reveal_strlit("<parameter=");
        reveal_strlit("</parameter>");
        reveal_strlit("<parameter");
    }
    let c = chars_of(content);
    let open_tag = chars_of("<tool_call>");
    let close_tag = chars_of("</tool_call>");
    let param_tag = chars_of("<parameter=");
    let param_close = chars_of("</parameter>");
    let param_any = chars_of("<parameter");
    let start = match find_exec(c.as_slice(), open_tag.as_slice()) {
        Some(s) => s,
        None => {
            return None;
        },
    };
    let rest = slice_chars(c.as_slice(), start + 11, c.len());
    proof {
        assert(rest@ =~= c@.skip(start + 11));
    }
    let end = match find_exec(rest.as_slice(), close_tag.as_slice()) {
        Some(e) => e,
        None => {
            return None;
        },
    };
    let inner = slice_chars(rest.as_slice(), 0, end);
    proof {
        assert(inner@ =~= rest@.take(end as int));
        assert(tool_call_body(content@) == Some(inner@));
    }
    let n = inner.len();
    let mut map = Json::object(Vec::new());
    let mut pos: usize = 0;
    proof {
        assert(jfs(Seq::<(String, Json)>::empty()) =~= Seq::<(Seq<char>, JVal)>::empty());
    }
    loop
        invariant
            pos <= n == inner@.len(),
            map@ is Obj,
            tool_call_body(content@) == Some(inner@),
            param_tag@.len() == 11,
            param_close@.len() == 12,
            xml_params(inner@, 0, Seq::empty()) == xml_params(inner@, pos as int, map@->Obj_0),
            open_tag@ == "<tool_call>"@,
            close_tag@ == "</tool_call>"@,
            param_tag@ == "<parameter="@,
            param_close@ == "</parameter>"@,
            param_any@ == "<parameter"@,
        ensures
            map@ is Obj,
            tool_call_body(content@) == Some(inner@),
            xml_params(inner@, 0, Seq::empty()) == Some(map@->Obj_0),
        decreases n - pos,
    {
        let tail = slice_chars(inner.as_slice(), pos, n);
        proof {
            assert(tail@ =~= inner@.skip(pos as int));
        }
        let t = match find_exec(tail.as_slice(), param_tag.as_slice()) {
            Some(t) => t,
            None => {
                break ;
            },
        };
        let abs = pos + t + 11;
        let after_key = slice_chars(inner.as_slice(), abs, n);
        proof {
            assert(after_key@ =~= inner@.skip(abs as int));
        }
        let ke = match find_char_exec(after_key.as_slice(), '>') {
            Some(k) => k,
            None => {
                return None;
            },
        };
        let key = slice_chars(after_key.as_slice(), 0, ke);
        let vs = abs + ke + 1;
        let vrest = slice_chars(inner.as_slice(), vs, n);
        proof {
            assert(key@ =~= inner@.skip(abs as int).take(ke as int));
            assert(vrest@ =~= inner@.skip(vs as int));
            lemma_value_end_range(vrest@);
        }
        let ve: usize = match find_exec(vrest.as_slice(), param_close.as_slice()) {
            Some(e) => e,
            None => match find_exec(vrest.as_slice(), param_any.as_slice()) {
                Some(e) => e,
                None => match find_exec(vrest.as_slice(), close_tag.as_slice()) {
                    Some(e) => e,
                    None => vrest.len(),
                },
            },
        };
        assert(ve == value_end(inner@.skip(vs as int)));
        let value = trim_range(inner.as_slice(), vs, vs + ve);
        let key_s = string_of(key.as_slice());
        let val_s = string_of(value.as_slice());
        let ghost acc = map@->Obj_0;
        map.insert(key_s.as_str(), Json::Str(val_s));
        let after = slice_chars(inner.as_slice(), vs + ve, n);
        proof {
            assert(after@ =~= inner@.skip(vs + ve));
        }
        let closed = starts_with_exec(after.as_slice(), param_close.as_slice());
        pos = if closed {
            proof {
                crate::text::lemma_find_from_first(vrest@, param_close@, 0);
                if vs + ve + 12 > n {
                    assert(!starts_with(inner@.skip(vs + ve), "</parameter>"@));
                }
            }
            vs + ve + 12
        } else {
            vs + ve
        };
    }
    match &map {
        Json::Obj(f) => {
            proof {
                lemma_obj_view(*f);
            }
            if f.len() == 0 {
                None
            } else {
                Some(map)
            }
        },
        _ => None,
    }
}

/// The value of an optional owned document.
pub open spec fn opt_view_owned(o: Option<Json>) -> Option<JVal> {
    match o {
        Some(x) => Some(x@),
        None => None,
    }
}

// ---------------------------------------------------------------------------
// JSON pointers
// ---------------------------------------------------------------------------

/// Decimal value of a digit string.
pub open spec fn digits_value(s: Seq<char>) -> nat
    decreases s.len(),
{
    if s.len() == 0 {
        0
    } else {
        digits_value(s.drop_last()) * 10 + ((s.last() as u32) - 48) as nat
    }
}

/// An array index written as a pointer token: decimal digits, without a
/// leading zero unless the token is `0`.
pub open spec fn index_token(t: Seq<char>) -> Option<nat> {
    if t.len() > 0 && (forall|i: int| 0 <= i < t.len() ==> '0' <= #[trigger] t[i] && t[i] <= '9')
        && (t[0] != '0' || t.len() == 1) {
        Some(digits_value(t))
    } else {
        None
    }
}

/// One pointer step: a field of an object, or an item of an array.
pub open spec fn jstep(v: JVal, t: Seq<char>) -> Option<JVal> {
    match v {
        JVal::Obj(_) => v.get(t),
        JVal::Arr(a) => match index_token(t) {
            Some(i) => v.at(i as int),
            None => None,
        },
        _ => None,
    }
}

/// `Value::pointer` for the tokens of a path.
pub open spec fn jptr(v: JVal, toks: Seq<Seq<char>>) -> Option<JVal>
    decreases toks.len(),
{
    if toks.len() == 0 {
        Some(v)
    } else {
        match jptr(v, toks.drop_last()) {
            Some(w) => jstep(w, toks.last()),
            None => None,
        }
    }
}

/// The index a pointer token names, when it names one below `len`.
fn token_index(t: &str, len: usize) -> (r: Option<usize>)
    ensures
        r matches Some(i) ==> index_token(t@) == Some(i as nat) && i < len,
        r is None ==> index_token(t@) is None || index_token(t@)->0 >= len,
{
    let c = chars_of(t);
    if len == 0 || c.len() == 0 || (c[0] == '0' && c.len() != 1) {
        return None;
    }
    let mut v: usize = 0;
    let mut i: usize = 0;
    while i < c.len()
        invariant
            i <= c@.len(),
            c@ == t@,
            c@.len() > 0,
            c@[0] != '0' || c@.len() == 1,
            forall|k: int| 0 <= k < i ==> '0' <= #[trigger] c@[k] && c@[k] <= '9',
            v == digits_value(c@.take(i as int)),
            v < len,
        decreases c@.len() - i,
    {
        let d = c[i];
        if d < '0' || d > '9' {
            return None;
        }
        proof {
            assert(c@.take(i + 1).drop_last() == c@.take(i as int));
        }
        let du = d as u32;
        let nv: u128 = (v as u128) * 10 + ((du - 48) as u128);
        if nv >= len as u128 {
            proof {
                assert(digits_value(c@.take(i + 1)) >= len);
                if forall|k: int| 0 <= k < c@.len() ==> '0' <= #[trigger] c@[k] && c@[k] <= '9' {
                    lemma_digits_prefix(c@, i + 1);
                }
            }
            return None;
        }
        v = nv as usize;
        i = i + 1;
    }
    proof {
        assert(c@.take(c@.len() as int) =~= c@);
    }
    Some(v)
}

/// A digit string is worth at least any of its prefixes.
proof fn lemma_digits_prefix(s: Seq<char>, n: int)
    requires
        0 <= n <= s.len(),
        forall|i: int| 0 <= i < s.len() ==> '0' <= #[trigger] s[i] && s[i] <= '9',
    ensures
        digits_value(s) >= digits_value(s.take(n)),
    decreases s.len() - n,
{
    if n < s.len() {
        lemma_digits_prefix(s, n + 1);
        assert(s.take(n + 1).drop_last() == s.take(n));
    } else {
        assert(s.take(n) =~= s);
    }
}

/// The views of a list of pointer tokens.
pub open spec fn tok_views(toks: Seq<&str>) -> Seq<Seq<char>> {
    toks.map_values(|t: &str| t@)
}

impl Json {
    /// One pointer step.
    pub fn step(&self, t: &str) -> (r: Option<&Json>)
        ensures
            opt_view(r) == jstep(self@, t@),
    {
        match self {
            Json::Obj(_) => self.get(t),
            Json::Arr(v) => {
                proof {
                    lemma_arr_view(*v);
                }
                match token_index(t, v.len()) {
                    Some(i) => self.at(i),
                    None => None,
                }
            },
            _ => None,
        }
    }

    /// `Value::pointer` along the given tokens.
    pub fn pointer(&self, toks: &[&str]) -> (r: Option<&Json>)
        ensures
            opt_view(r) == jptr(self@, tok_views(toks@)),
    {
        let mut cur: Option<&Json> = Some(self);
        let mut i: usize = 0;
        proof {
            assert(tok_views(toks@).take(0) =~= Seq::<Seq<char>>::empty());
        }
        while i < toks.len()
            invariant
                i <= toks@.len(),
                opt_view(cur) == jptr(self@, tok_views(toks@).take(i as int)),
            decreases toks@.len() - i,
        {
            proof {
                assert(tok_views(toks@).take(i + 1).drop_last() =~= tok_views(toks@).take(i as int));
            }
            cur = match cur {
                Some(c) => c.step(toks[i]),
                None => None,
            };
            i = i + 1;
        }
        proof {
            assert(tok_views(toks@).take(toks@.len() as int) =~= tok_views(toks@));
        }
        cur
    }
}

} // verus!
