//! A JSON value of the library's own, with the lookups the protocol code needs.
use vstd::prelude::*;

use serde_json::Value;

use crate::text::{all_digits, chars_of, digits_value, owned, parse_digits, slice_chars};

verus! {

/// A JSON number: a non-negative integer, a negative integer, or any other number
/// kept as its decimal text.
#[derive(Debug)]
pub enum JsonNumber {
    PosInt(u64),
    NegInt(i64),
    Float(String),
}

/// A JSON value.
#[derive(Debug)]
pub enum Json {
    Null,
    Bool(bool),
    Number(JsonNumber),
    Str(String),
    Array(Vec<Json>),
    Object(Vec<(String, Json)>),
}

/// The model of a number.
pub enum NumberModel {
    PosInt(u64),
    NegInt(i64),
    Float(Seq<char>),
}

/// The model of a JSON value: what it means, independent of how it is stored.
pub enum JsonModel {
    Null,
    Bool(bool),
    Number(NumberModel),
    Str(Seq<char>),
    Array(Seq<JsonModel>),
    Object(Seq<(Seq<char>, JsonModel)>),
}

pub open spec fn number_model(n: JsonNumber) -> NumberModel {
    match n {
        JsonNumber::PosInt(u) => NumberModel::PosInt(u),
        JsonNumber::NegInt(i) => NumberModel::NegInt(i),
        JsonNumber::Float(s) => NumberModel::Float(s@),
    }
}

pub open spec fn model_of(j: Json) -> JsonModel
    decreases j, 0nat,
{
    match j {
        Json::Null => JsonModel::Null,
        Json::Bool(b) => JsonModel::Bool(b),
        Json::Number(n) => JsonModel::Number(number_model(n)),
        Json::Str(s) => JsonModel::Str(s@),
        Json::Array(items) => JsonModel::Array(models_of(items@)),
        Json::Object(entries) => JsonModel::Object(entry_models_of(entries@)),
    }
}

pub open spec fn models_of(items: Seq<Json>) -> Seq<JsonModel>
    decreases items, 1nat,
{
    Seq::new(items.len(), |i: int| if 0 <= i < items.len() { model_of(items[i]) } else { JsonModel::Null })
}

pub open spec fn entry_models_of(entries: Seq<(String, Json)>) -> Seq<(Seq<char>, JsonModel)>
    decreases entries, 1nat,
{
    Seq::new(entries.len(), |i: int| if 0 <= i < entries.len() { (entries[i].0@, model_of(entries[i].1)) } else { (Seq::empty(), JsonModel::Null) })
}

impl View for Json {
    type V = JsonModel;

    open spec fn view(&self) -> JsonModel {
        model_of(*self)
    }
}


/// The model of a number as a mathematical integer, when it is one.
pub open spec fn number_int(n: NumberModel) -> Option<int> {
    match n {
        NumberModel::PosInt(u) => Some(u as int),
        NumberModel::NegInt(i) => Some(i as int),
        NumberModel::Float(_) => None,
    }
}

/// The value as a string (`Value::as_str`).
pub open spec fn str_of(m: JsonModel) -> Option<Seq<char>> {
    match m {
        JsonModel::Str(s) => Some(s),
        _ => None,
    }
}

/// The value as a boolean (`Value::as_bool`).
pub open spec fn bool_of(m: JsonModel) -> Option<bool> {
    match m {
        JsonModel::Bool(b) => Some(b),
        _ => None,
    }
}

/// The value as an `i64` (`Value::as_i64`).
pub open spec fn i64_of(m: JsonModel) -> Option<i64> {
    match m {
        JsonModel::Number(n) => match number_int(n) {
            Some(v) => if i64::MIN <= v <= i64::MAX {
                Some(v as i64)
            } else {
                None
            },
            None => None,
        },
        _ => None,
    }
}

/// The value as a `u64` (`Value::as_u64`).
pub open spec fn u64_of(m: JsonModel) -> Option<u64> {
    match m {
        JsonModel::Number(n) => match number_int(n) {
            Some(v) => if 0 <= v <= u64::MAX {
                Some(v as u64)
            } else {
                None
            },
            None => None,
        },
        _ => None,
    }
}

/// The first entry at or after `from` whose key is `key`, or -1.
pub open spec fn entry_from(entries: Seq<(Seq<char>, JsonModel)>, key: Seq<char>, from: int) -> int
    decreases entries.len() - from,
{
    if from < 0 || from >= entries.len() {
        -1
    } else if entries[from].0 == key {
        from
    } else {
        entry_from(entries, key, from + 1)
    }
}

/// The member `key` of an object (`Value::get` with a key).
pub open spec fn field(m: JsonModel, key: Seq<char>) -> Option<JsonModel> {
    match m {
        JsonModel::Object(entries) => {
            let i = entry_from(entries, key, 0);
            if i >= 0 {
                Some(entries[i].1)
            } else {
                None
            }
        },
        _ => None,
    }
}

/// The member `key`, read as a string.
pub open spec fn str_field(m: JsonModel, key: Seq<char>) -> Option<Seq<char>> {
    match field(m, key) {
        Some(v) => str_of(v),
        None => None,
    }
}

/// The member `key`, read as an `i64`.
pub open spec fn i64_field(m: JsonModel, key: Seq<char>) -> Option<i64> {
    match field(m, key) {
        Some(v) => i64_of(v),
        None => None,
    }
}

/// The next `/` at or after `from`, or -1.
pub open spec fn slash_from(s: Seq<char>, from: int) -> int
    decreases s.len() - from,
{
    if from < 0 || from >= s.len() {
        -1
    } else if s[from] == '/' {
        from
    } else {
        slash_from(s, from + 1)
    }
}

pub proof fn lemma_slash_from_bounds(s: Seq<char>, from: int)
    ensures
        slash_from(s, from) == -1 || (from <= slash_from(s, from) < s.len() && s[slash_from(s, from)] == '/'),
    decreases s.len() - from,
{
    if !(from < 0 || from >= s.len()) && s[from] != '/' {
        lemma_slash_from_bounds(s, from + 1);
    }
}

/// Every occurrence of `~` followed by `d`, scanning left to right, replaced by `by`.
pub open spec fn unescape_pass(s: Seq<char>, d: char, by: char) -> Seq<char>
    decreases s.len(),
{
    if s.len() == 0 {
        s
    } else if s.len() >= 2 && s[0] == '~' && s[1] == d {
        seq![by] + unescape_pass(s.skip(2), d, by)
    } else {
        seq![s[0]] + unescape_pass(s.skip(1), d, by)
    }
}

/// A pointer token with `~1` read as `/` and then `~0` read as `~`.
pub open spec fn unescape(token: Seq<char>) -> Seq<char> {
    unescape_pass(unescape_pass(token, '1', '/'), '0', '~')
}

/// An array index in a pointer: decimal digits, no sign, no leading zero.
pub open spec fn index_of_token(t: Seq<char>) -> Option<int> {
    if all_digits(t) && (t.len() == 1 || t[0] != '0') && digits_value(t) <= usize::MAX {
        Some(digits_value(t))
    } else {
        None
    }
}

/// One step of a pointer walk.
pub open spec fn step(m: JsonModel, token: Seq<char>) -> Option<JsonModel> {
    match m {
        JsonModel::Object(_) => field(m, token),
        JsonModel::Array(items) => match index_of_token(token) {
            Some(i) => if i < items.len() {
                Some(items[i])
            } else {
                None
            },
            None => None,
        },
        _ => None,
    }
}

/// The walk over the tokens of `path` that start at `from`.
pub open spec fn walk_from(m: JsonModel, path: Seq<char>, from: int) -> Option<JsonModel>
    decreases path.len() - from, 1int,
{
    let p = slash_from(path, from);
    proof {
        lemma_slash_from_bounds(path, from);
    }
    if from < 0 || from > path.len() {
        None
    } else if p < 0 {
        step(m, unescape(path.subrange(from, path.len() as int)))
    } else {
        match step(m, unescape(path.subrange(from, p))) {
            Some(next) => walk_from(next, path, p + 1),
            None => None,
        }
    }
}

/// JSON pointer lookup (`Value::pointer`).
pub open spec fn at_pointer(m: JsonModel, path: Seq<char>) -> Option<JsonModel> {
    if path.len() == 0 {
        Some(m)
    } else if path[0] != '/' {
        None
    } else {
        walk_from(m, path, 1)
    }
}

/// The value at `path`, read as a string.
pub open spec fn str_at(m: JsonModel, path: Seq<char>) -> Option<Seq<char>> {
    match at_pointer(m, path) {
        Some(v) => str_of(v),
        None => None,
    }
}

/// The value at `path`, read as an `i64`.
pub open spec fn i64_at(m: JsonModel, path: Seq<char>) -> Option<i64> {
    match at_pointer(m, path) {
        Some(v) => i64_of(v),
        None => None,
    }
}

impl JsonNumber {
    /// A copy of the number.
    pub fn duplicate(&self) -> (r: JsonNumber)
        ensures
            number_model(r) == number_model(*self),
    {
        match self {
            JsonNumber::PosInt(u) => JsonNumber::PosInt(*u),
            JsonNumber::NegInt(i) => JsonNumber::NegInt(*i),
            JsonNumber::Float(s) => JsonNumber::Float(s.clone()),
        }
    }
}

impl Json {
    /// A string value.
    pub fn string(s: &str) -> (j: Json)
        ensures
            j@ == JsonModel::Str(s@),
    {
        Json::Str(owned(s))
    }

    /// An integer value.
    pub fn integer(i: i64) -> (j: Json)
        ensures
            j@ == JsonModel::Number(
                if i >= 0 {
                    NumberModel::PosInt(i as u64)
                } else {
                    NumberModel::NegInt(i)
                },
            ),
            i64_of(j@) == Some(i),
    {
        if i >= 0 {
            Json::Number(JsonNumber::PosInt(i as u64))
        } else {
            Json::Number(JsonNumber::NegInt(i))
        }
    }

    /// A non-negative integer value.
    pub fn unsigned(u: u64) -> (j: Json)
        ensures
            j@ == JsonModel::Number(NumberModel::PosInt(u)),
            u64_of(j@) == Some(u),
    {
        Json::Number(JsonNumber::PosInt(u))
    }

    /// A deep copy.
    #[verifier::loop_isolation(false)]
    pub fn duplicate(&self) -> (r: Json)
        ensures
            r@ == self@,
        decreases self,
    {
        match self {
            Json::Null => Json::Null,
            Json::Bool(b) => Json::Bool(*b),
            Json::Number(n) => Json::Number(n.duplicate()),
            Json::Str(s) => Json::Str(s.clone()),
            Json::Array(items) => {
                let mut out: Vec<Json> = Vec::new();
                let mut i: usize = 0;
                while i < items.len()
                    invariant
                        i <= items@.len(),
                        out@.len() == i,
                        forall|k: int| 0 <= k < i ==> (#[trigger] out@[k])@ == items@[k]@,
                    decreases items@.len() - i,
                {
                    proof {
                        assert(decreases_to!(*self => (*self)->Array_0));
                        assert(decreases_to!(*items => items[i as int]));
                        assert(decreases_to!(self => items[i as int]));
                    }
                    out.push(items[i].duplicate());
                    i += 1;
                }
                let r = Json::Array(out);
                assert(models_of(out@) =~= models_of(items@));
                r
            },
            Json::Object(entries) => {
                let mut out: Vec<(String, Json)> = Vec::new();
                let mut i: usize = 0;
                while i < entries.len()
                    invariant
                        i <= entries@.len(),
                        out@.len() == i,
                        forall|k: int|
                            0 <= k < i ==> (#[trigger] out@[k]).0@ == entries@[k].0@ && out@[k].1@
                                == entries@[k].1@,
                    decreases entries@.len() - i,
                {
                    proof {
                        assert(decreases_to!(*self => (*self)->Object_0));
                        assert(decreases_to!(*entries => entries[i as int]));
                        assert(decreases_to!(entries[i as int] => entries[i as int].1));
                        assert(decreases_to!(self => entries[i as int].1));
                    }
                    let (k, v) = &entries[i];
                    out.push((k.clone(), v.duplicate()));
                    i += 1;
                }
                let r = Json::Object(out);
                assert(entry_models_of(out@) =~= entry_models_of(entries@));
                r
            },
        }
    }

    /// The value as a string.
    pub fn as_str(&self) -> (r: Option<&str>)
        ensures
            match r {
                Some(s) => str_of(self@) == Some(s@),
                None => str_of(self@) is None,
            },
    {
        match self {
            Json::Str(s) => Some(s.as_str()),
            _ => None,
        }
    }

    /// The value as a boolean.
    pub fn as_bool(&self) -> (r: Option<bool>)
        ensures
            r == bool_of(self@),
    {
        match self {
            Json::Bool(b) => Some(*b),
            _ => None,
        }
    }

    /// The value as an `i64`.
    pub fn as_i64(&self) -> (r: Option<i64>)
        ensures
            r == i64_of(self@),
    {
        match self {
            Json::Number(JsonNumber::PosInt(u)) => if *u <= i64::MAX as u64 {
                Some(*u as i64)
            } else {
                None
            },
            Json::Number(JsonNumber::NegInt(i)) => Some(*i),
            _ => None,
        }
    }

    /// The value as a `u64`.
    pub fn as_u64(&self) -> (r: Option<u64>)
        ensures
            r == u64_of(self@),
    {
        match self {
            Json::Number(JsonNumber::PosInt(u)) => Some(*u),
            Json::Number(JsonNumber::NegInt(i)) => if *i >= 0 {
                Some(*i as u64)
            } else {
                None
            },
            _ => None,
        }
    }

    /// The items of an array.
    pub fn as_array(&self) -> (r: Option<&Vec<Json>>)
        ensures
            match r {
                Some(items) => self@ == JsonModel::Array(models_of(items@)),
                None => !(self@ is Array),
            },
    {
        match self {
            Json::Array(items) => Some(items),
            _ => None,
        }
    }

    /// The member `key` of an object.
    pub fn get(&self, key: &str) -> (r: Option<&Json>)
        ensures
            match r {
                Some(v) => field(self@, key@) == Some(v@),
                None => field(self@, key@) is None,
            },
    {
        self.get_chars(&chars_of(key))
    }

    /// The member whose key has the characters `key`.
    #[verifier::loop_isolation(false)]
    pub fn get_chars(&self, key: &Vec<char>) -> (r: Option<&Json>)
        ensures
            match r {
                Some(v) => field(self@, key@) == Some(v@),
                None => field(self@, key@) is None,
            },
    {
        match self {
            Json::Object(entries) => {
                let ghost em = entry_models_of(entries@);
                let mut i: usize = 0;
                while i < entries.len()
                    invariant
                        i <= entries@.len(),
                        em == entry_models_of(entries@),
                        entry_from(em, key@, 0) == entry_from(em, key@, i as int),
                    decreases entries@.len() - i,
                {
                    let k = chars_of(entries[i].0.as_str());
                    assert(em[i as int].0 == entries@[i as int].0@);
                    if same_chars(&k, key) {
                        assert(em[i as int].1 == entries@[i as int].1@);
                        return Some(&entries[i].1);
                    }
                    i += 1;
                }
                None
            },
            _ => None,
        }
    }
}


/// Whether two character vectors are equal.
pub fn same_chars(a: &Vec<char>, b: &Vec<char>) -> (r: bool)
    ensures
        r == (a@ == b@),
{
    if a.len() != b.len() {
        return false;
    }
    let mut i: usize = 0;
    while i < a.len()
        invariant
            a@.len() == b@.len(),
            i <= a@.len(),
            forall|k: int| 0 <= k < i ==> a@[k] == b@[k],
        decreases a@.len() - i,
    {
        if a[i] != b[i] {
            return false;
        }
        i += 1;
    }
    assert(a@ =~= b@);
    true
}

/// One unescaping pass over a pointer token.
fn unescape_pass_exec(v: &Vec<char>, d: char, by: char) -> (r: Vec<char>)
    ensures
        r@ == unescape_pass(v@, d, by),
{
    let mut out: Vec<char> = Vec::new();
    let mut i: usize = 0;
    assert(v@.skip(0) =~= v@);
    while i < v.len()
        invariant
            i <= v@.len(),
            out@ + unescape_pass(v@.skip(i as int), d, by) == unescape_pass(v@, d, by),
        decreases v@.len() - i,
    {
        let ghost rest = v@.skip(i as int);
        if i + 1 < v.len() && v[i] == '~' && v[i + 1] == d {
            assert(rest.skip(2) =~= v@.skip(i + 2));
            assert(unescape_pass(rest, d, by) == seq![by] + unescape_pass(rest.skip(2), d, by));
            out.push(by);
            assert(out@ + unescape_pass(v@.skip(i + 2), d, by) =~= out@.drop_last() + (seq![by]
                + unescape_pass(rest.skip(2), d, by)));
            i += 2;
        } else {
            assert(rest.skip(1) =~= v@.skip(i + 1));
            assert(unescape_pass(rest, d, by) == seq![v@[i as int]] + unescape_pass(rest.skip(1), d, by));
            out.push(v[i]);
            assert(out@ + unescape_pass(v@.skip(i + 1), d, by) =~= out@.drop_last() + (seq![v@[i as int]]
                + unescape_pass(rest.skip(1), d, by)));
            i += 1;
        }
    }
    assert(v@.skip(i as int) =~= Seq::<char>::empty());
    assert(out@ + Seq::<char>::empty() =~= out@);
    out
}

/// The array index a pointer token names, if it names one.
fn token_index(t: &Vec<char>) -> (r: Option<usize>)
    ensures
        match r {
            Some(i) => index_of_token(t@) == Some(i as int),
            None => index_of_token(t@) is None,
        },
{
    if t.len() > 1 && t[0] == '0' {
        return None;
    }
    let bound: u64 = if usize::MAX as u64 <= u64::MAX {
        usize::MAX as u64
    } else {
        u64::MAX
    };
    assert(t@.subrange(0, t@.len() as int) =~= t@);
    match parse_digits(t, 0, t.len(), bound) {
        Some(n) => Some(n as usize),
        None => None,
    }
}

/// The next `/` at or after `from`.
fn find_slash(v: &Vec<char>, from: usize) -> (r: Option<usize>)
    requires
        from <= v@.len(),
    ensures
        match r {
            Some(p) => slash_from(v@, from as int) == p as int,
            None => slash_from(v@, from as int) == -1,
        },
    decreases v@.len() - from,
{
    if from >= v.len() {
        None
    } else if v[from] == '/' {
        Some(from)
    } else {
        find_slash(v, from + 1)
    }
}

impl Json {
    /// One step of a pointer walk.
    pub fn step(&self, token: &Vec<char>) -> (r: Option<&Json>)
        ensures
            match r {
                Some(v) => step(self@, token@) == Some(v@),
                None => step(self@, token@) is None,
            },
    {
        match self {
            Json::Object(_) => self.get_chars(token),
            Json::Array(items) => match token_index(token) {
                Some(i) => if i < items.len() {
                    Some(&items[i])
                } else {
                    None
                },
                None => None,
            },
            _ => None,
        }
    }

    fn walk(&self, path: &Vec<char>, from: usize) -> (r: Option<&Json>)
        requires
            from <= path@.len(),
        ensures
            match r {
                Some(v) => walk_from(self@, path@, from as int) == Some(v@),
                None => walk_from(self@, path@, from as int) is None,
            },
        decreases path@.len() - from,
    {
        proof {
            lemma_slash_from_bounds(path@, from as int);
        }
        let n = path.len();
        let p = find_slash(path, from);
        let end = match p {
            Some(p) => p,
            None => path.len(),
        };
        let raw = slice_chars(path, from, end);
        let token = unescape_pass_exec(&unescape_pass_exec(&raw, '1', '/'), '0', '~');
        match self.step(&token) {
            None => None,
            Some(next) => match p {
                None => Some(next),
                Some(p) => {
                    assert(p < n);
                    next.walk(path, p + 1)
                },
            },
        }
    }

    /// JSON pointer lookup: `""` is the value itself, and each `/`-separated token
    /// (with `~1` for `/` and `~0` for `~`) names an object member or an array index.
    pub fn pointer(&self, path: &str) -> (r: Option<&Json>)
        ensures
            match r {
                Some(v) => at_pointer(self@, path@) == Some(v@),
                None => at_pointer(self@, path@) is None,
            },
    {
        let v = chars_of(path);
        if v.len() == 0 {
            return Some(self);
        }
        if v[0] != '/' {
            return None;
        }
        self.walk(&v, 1)
    }

    /// The value at `path`, read as a string.
    pub fn str_at(&self, path: &str) -> (r: Option<&str>)
        ensures
            match r {
                Some(s) => str_at(self@, path@) == Some(s@),
                None => str_at(self@, path@) is None,
            },
    {
        match self.pointer(path) {
            Some(v) => v.as_str(),
            None => None,
        }
    }

    /// The value at `path`, read as an `i64`.
    pub fn i64_at(&self, path: &str) -> (r: Option<i64>)
        ensures
            r == i64_at(self@, path@),
    {
        match self.pointer(path) {
            Some(v) => v.as_i64(),
            None => None,
        }
    }
}


/// An object with one member.
pub fn object1(k: &str, v: Json) -> (j: Json)
    ensures
        j@ == JsonModel::Object(seq![(k@, v@)]),
{
    let ghost vm = v@;
    let j = Json::Object(vec![(owned(k), v)]);
    assert(entry_models_of(j->Object_0@) =~= seq![(k@, vm)]);
    j
}

/// An object with two members.
pub fn object2(k1: &str, v1: Json, k2: &str, v2: Json) -> (j: Json)
    ensures
        j@ == JsonModel::Object(seq![(k1@, v1@), (k2@, v2@)]),
{
    let ghost m1 = v1@;
    let ghost m2 = v2@;
    let j = Json::Object(vec![(owned(k1), v1), (owned(k2), v2)]);
    assert(entry_models_of(j->Object_0@) =~= seq![(k1@, m1), (k2@, m2)]);
    j
}

/// An object with three members.
pub fn object3(k1: &str, v1: Json, k2: &str, v2: Json, k3: &str, v3: Json) -> (j: Json)
    ensures
        j@ == JsonModel::Object(seq![(k1@, v1@), (k2@, v2@), (k3@, v3@)]),
{
    let ghost m1 = v1@;
    let ghost m2 = v2@;
    let ghost m3 = v3@;
    let j = Json::Object(vec![(owned(k1), v1), (owned(k2), v2), (owned(k3), v3)]);
    assert(entry_models_of(j->Object_0@) =~= seq![(k1@, m1), (k2@, m2), (k3@, m3)]);
    j
}


/// An object with four members.
pub fn object4(k1: &str, v1: Json, k2: &str, v2: Json, k3: &str, v3: Json, k4: &str, v4: Json) -> (j: Json)
    ensures
        j@ == JsonModel::Object(seq![(k1@, v1@), (k2@, v2@), (k3@, v3@), (k4@, v4@)]),
{
    let ghost m1 = v1@;
    let ghost m2 = v2@;
    let ghost m3 = v3@;
    let ghost m4 = v4@;
    let j = Json::Object(vec![(owned(k1), v1), (owned(k2), v2), (owned(k3), v3), (owned(k4), v4)]);
    assert(entry_models_of(j->Object_0@) =~= seq![(k1@, m1), (k2@, m2), (k3@, m3), (k4@, m4)]);
    j
}


/// An array of the given items.
pub fn array_of(items: Vec<Json>) -> (j: Json)
    ensures
        j@ == JsonModel::Array(models_of(items@)),
{
    Json::Array(items)
}

/// An empty array.
pub fn array0() -> (j: Json)
    ensures
        j@ == JsonModel::Array(Seq::empty()),
{
    let j = Json::Array(Vec::new());
    assert(models_of(j->Array_0@) =~= Seq::<JsonModel>::empty());
    j
}

/// An array of one item.
pub fn array1(a: Json) -> (j: Json)
    ensures
        j@ == JsonModel::Array(seq![a@]),
{
    let ghost ma = a@;
    let j = Json::Array(vec![a]);
    assert(models_of(j->Array_0@) =~= seq![ma]);
    j
}

/// An array of two items.
pub fn array2(a: Json, b: Json) -> (j: Json)
    ensures
        j@ == JsonModel::Array(seq![a@, b@]),
{
    let ghost ma = a@;
    let ghost mb = b@;
    let j = Json::Array(vec![a, b]);
    assert(models_of(j->Array_0@) =~= seq![ma, mb]);
    j
}


impl JsonNumber {
    /// Whether two numbers have the same model.
    pub fn same(&self, other: &JsonNumber) -> (r: bool)
        ensures
            r == (number_model(*self) == number_model(*other)),
    {
        match (self, other) {
            (JsonNumber::PosInt(a), JsonNumber::PosInt(b)) => *a == *b,
            (JsonNumber::NegInt(a), JsonNumber::NegInt(b)) => *a == *b,
            (JsonNumber::Float(a), JsonNumber::Float(b)) => *a == *b,
            _ => false,
        }
    }
}

impl Json {
    /// Whether two values have the same model: the same kind, and equal contents,
    /// members in the same order.
    #[verifier::loop_isolation(false)]
    pub fn same(&self, other: &Json) -> (r: bool)
        ensures
            r == (self@ == other@),
        decreases self,
    {
        match (self, other) {
            (Json::Null, Json::Null) => true,
            (Json::Bool(a), Json::Bool(b)) => *a == *b,
            (Json::Number(a), Json::Number(b)) => a.same(b),
            (Json::Str(a), Json::Str(b)) => *a == *b,
            (Json::Array(a), Json::Array(b)) => {
                let ghost ma = models_of(a@);
                let ghost mb = models_of(b@);
                if a.len() != b.len() {
                    assert(ma.len() != mb.len());
                    return false;
                }
                let mut i: usize = 0;
                while i < a.len()
                    invariant
                        i <= a@.len() == b@.len(),
                        ma == models_of(a@),
                        mb == models_of(b@),
                        forall|k: int| 0 <= k < i ==> ma[k] == mb[k],
                    decreases a@.len() - i,
                {
                    proof {
                        assert(decreases_to!(*self => (*self)->Array_0));
                        assert(decreases_to!(*a => a[i as int]));
                    }
                    if !a[i].same(&b[i]) {
                        assert(ma[i as int] != mb[i as int]);
                        return false;
                    }
                    i += 1;
                }
                assert(ma =~= mb);
                true
            },
            (Json::Object(a), Json::Object(b)) => {
                let ghost ma = entry_models_of(a@);
                let ghost mb = entry_models_of(b@);
                if a.len() != b.len() {
                    assert(ma.len() != mb.len());
                    return false;
                }
                let mut i: usize = 0;
                while i < a.len()
                    invariant
                        i <= a@.len() == b@.len(),
                        ma == entry_models_of(a@),
                        mb == entry_models_of(b@),
                        forall|k: int| 0 <= k < i ==> ma[k] == mb[k],
                    decreases a@.len() - i,
                {
                    proof {
                        assert(decreases_to!(*self => (*self)->Object_0));
                        assert(decreases_to!(*a => a[i as int]));
                        assert(decreases_to!(a[i as int] => a[i as int].1));
                    }
                    if a[i].0 != b[i].0 {
                        assert(ma[i as int].0 != mb[i as int].0);
                        return false;
                    }
                    if !a[i].1.same(&b[i].1) {
                        assert(ma[i as int].1 != mb[i as int].1);
                        return false;
                    }
                    i += 1;
                }
                assert(ma =~= mb);
                true
            },
            _ => false,
        }
    }
}


/// An empty object.
pub fn object0() -> (j: Json)
    ensures
        j@ == JsonModel::Object(Seq::empty()),
{
    let j = Json::Object(Vec::new());
    assert(entry_models_of(j->Object_0@) =~= Seq::<(Seq<char>, JsonModel)>::empty());
    j
}

/// An object with five members.
pub fn object5(
    k1: &str,
    v1: Json,
    k2: &str,
    v2: Json,
    k3: &str,
    v3: Json,
    k4: &str,
    v4: Json,
    k5: &str,
    v5: Json,
) -> (j: Json)
    ensures
        j@ == JsonModel::Object(seq![(k1@, v1@), (k2@, v2@), (k3@, v3@), (k4@, v4@), (k5@, v5@)]),
{
    let ghost m1 = v1@;
    let ghost m2 = v2@;
    let ghost m3 = v3@;
    let ghost m4 = v4@;
    let ghost m5 = v5@;
    let j = Json::Object(
        vec![(owned(k1), v1), (owned(k2), v2), (owned(k3), v3), (owned(k4), v4), (owned(k5), v5)],
    );
    assert(entry_models_of(j->Object_0@) =~= seq![(k1@, m1), (k2@, m2), (k3@, m3), (k4@, m4), (k5@, m5)]);
    j
}


/// `serde_json`'s value type, which the printer takes.
#[verifier::external_type_specification]
#[verifier::external_body]
pub struct ExSerdeValue(serde_json::Value);

/// The `serde_json::Value` with the same contents, member for member (a number kept as
/// text is read back as the JSON number it spells).
#[verifier::external_body]
fn serde_value(j: &Json) -> serde_json::Value {
    match j {
        Json::Null => serde_json::Value::Null,
        Json::Bool(b) => serde_json::Value::Bool(*b),
        Json::Number(JsonNumber::PosInt(u)) => serde_json::Value::from(*u),
        Json::Number(JsonNumber::NegInt(i)) => serde_json::Value::from(*i),
        Json::Number(JsonNumber::Float(t)) => serde_json::from_str(t).unwrap_or(serde_json::Value::Null),
        Json::Str(s) => serde_json::Value::String(s.clone()),
        Json::Array(items) => serde_json::Value::Array(items.iter().map(serde_value).collect()),
        Json::Object(entries) => serde_json::Value::Object(
            entries.iter().map(|(k, v)| (k.clone(), serde_value(v))).collect(),
        ),
    }
}

/// The pretty-printed JSON text of a value, as `serde_json::to_string_pretty` writes it.
pub uninterp spec fn pretty_text(v: JsonModel) -> Seq<char>;

/// Pretty-prints a value with `serde_json::to_string_pretty`; the text is named by
/// `pretty_text` and depends on the value's model alone.
#[verifier::external_body]
pub(crate) fn pretty_json(v: &Json) -> (s: String)
    ensures
        s@ == pretty_text(v@),
{
    serde_json::to_string_pretty(&serde_value(v)).unwrap_or_else(|_| String::from("[unavailable]"))
}

/// The compact JSON text of a value, as `serde_json::to_string` writes it.
pub uninterp spec fn compact_text(v: JsonModel) -> Seq<char>;

/// Writes a value as compact JSON text with `serde_json::to_string`; the text is named by
/// `compact_text` and depends on the value's model alone.  Writing a `serde_json::Value`
/// cannot fail, as its keys are strings; an error would give the empty text.
#[verifier::external_body]
pub(crate) fn compact_json(v: &Json) -> (s: String)
    ensures
        s@ == compact_text(v@),
{
    serde_json::to_string(&serde_value(v)).unwrap_or_default()
}

/// The library value with the same contents as a `serde_json::Value`, member for member
/// (a number that is neither a `u64` nor an `i64` is kept as its decimal text).
#[verifier::external_body]
fn json_of_value(v: &Value) -> Json {
    match v {
        Value::Null => Json::Null,
        Value::Bool(b) => Json::Bool(*b),
        Value::Number(n) => Json::Number(match (n.as_u64(), n.as_i64()) {
            (Some(u), _) => JsonNumber::PosInt(u),
            (None, Some(i)) => JsonNumber::NegInt(i),
            (None, None) => JsonNumber::Float(n.to_string()),
        }),
        Value::String(s) => Json::Str(s.clone()),
        Value::Array(items) => Json::Array(items.iter().map(json_of_value).collect()),
        Value::Object(map) => Json::Object(map.iter().map(|(k, v)| (k.clone(), json_of_value(v))).collect()),
    }
}

/// The value that `serde_json::from_str` parses from a text, if the text is JSON.
pub uninterp spec fn parsed_json(text: Seq<char>) -> Option<JsonModel>;

/// Parses a text with `serde_json::from_str` into a `serde_json::Value`; the outcome is
/// named by `parsed_json` and depends on the text alone.
#[verifier::external_body]
pub(crate) fn parse_json(text: &str) -> (r: Option<Json>)
    ensures
        match r {
            Some(j) => parsed_json(text@) == Some(j@),
            None => parsed_json(text@) is None,
        },
{
    serde_json::from_str::<serde_json::Value>(text).ok().map(|v| json_of_value(&v))
}

impl Json {
    /// The value as compact JSON text.
    pub fn to_text(&self) -> (s: String)
        ensures
            s@ == compact_text(self@),
    {
        compact_json(self)
    }
}

} // verus!
