//! Structured documents (JSON, and YAML read as the same data model) as
//! plain values, with the lookups that the manifests and payloads need.
use vstd::prelude::*;
use crate::text::{str_eq, views};

verus! {

/// A JSON (or YAML) value. Objects keep their members in document order;
/// a repeated key stands for its first occurrence.
#[derive(Debug)]
pub enum Json {
    Null,
    Bool(bool),
    /// A non-negative integer.
    UInt(u64),
    /// A negative integer.
    Int(i64),
    /// Any other number, in its decimal text.
    Float(String),
    Str(String),
    Array(Vec<Json>),
    Object(Vec<(String, Json)>),
}

/// A JSON value as mathematical data.
pub ghost enum JsonView {
    Null,
    Bool(bool),
    UInt(u64),
    Int(i64),
    Float(Seq<char>),
    Str(Seq<char>),
    Array(Seq<JsonView>),
    Object(Seq<(Seq<char>, JsonView)>),
}

/// The mathematical data of a JSON value.
pub open spec fn json_data(j: Json) -> JsonView
    decreases j,
{
    match j {
        Json::Null => JsonView::Null,
        Json::Bool(b) => JsonView::Bool(b),
        Json::UInt(n) => JsonView::UInt(n),
        Json::Int(n) => JsonView::Int(n),
        Json::Float(t) => JsonView::Float(t@),
        Json::Str(t) => JsonView::Str(t@),
        Json::Array(v) => JsonView::Array(
            Seq::new(
                v.len() as nat,
                |i: int|
                    if 0 <= i < v.len() {
                        json_data(v[i])
                    } else {
                        JsonView::Null
                    },
            ),
        ),
        Json::Object(m) => JsonView::Object(
            Seq::new(
                m.len() as nat,
                |i: int|
                    if 0 <= i < m.len() {
                        (m[i].0@, json_data(m[i].1))
                    } else {
                        (Seq::empty(), JsonView::Null)
                    },
            ),
        ),
    }
}

impl View for Json {
    type V = JsonView;

    open spec fn view(&self) -> JsonView {
        json_data(*self)
    }
}

/// Views of a sequence of values.
pub open spec fn json_views(v: Seq<Json>) -> Seq<JsonView> {
    v.map_values(|j: Json| j@)
}

/// The value of the first member named `k`.
pub open spec fn member(m: Seq<(Seq<char>, JsonView)>, k: Seq<char>) -> Option<JsonView>
    decreases m.len(),
{
    if m.len() == 0 {
        None
    } else if m[0].0 == k {
        Some(m[0].1)
    } else {
        member(m.drop_first(), k)
    }
}

/// The first member named `k` is at `i`.
pub proof fn lemma_member_at(m: Seq<(Seq<char>, JsonView)>, k: Seq<char>, i: int)
    requires
        0 <= i < m.len(),
        m[i].0 == k,
        forall|j: int| 0 <= j < i ==> (#[trigger] m[j]).0 != k,
    ensures
        member(m, k) == Some(m[i].1),
    decreases i,
{
    if i > 0 {
        let rest = m.drop_first();
        assert forall|j: int| 0 <= j < i - 1 implies (#[trigger] rest[j]).0 != k by {
            assert(rest[j] == m[j + 1]);
        }
        lemma_member_at(rest, k, i - 1);
        assert(m[0].0 != k);
    }
}

/// No member is named `k`.
pub proof fn lemma_member_none(m: Seq<(Seq<char>, JsonView)>, k: Seq<char>)
    requires
        forall|j: int| 0 <= j < m.len() ==> (#[trigger] m[j]).0 != k,
    ensures
        member(m, k) is None,
    decreases m.len(),
{
    if m.len() > 0 {
        let rest = m.drop_first();
        assert forall|j: int| 0 <= j < rest.len() implies (#[trigger] rest[j]).0 != k by {
            assert(rest[j] == m[j + 1]);
        }
        lemma_member_none(rest, k);
        assert(m[0].0 != k);
    }
}

/// Member `k` of an object; `None` for a missing key or a non-object.
pub open spec fn jget(j: JsonView, k: Seq<char>) -> Option<JsonView> {
    match j {
        JsonView::Object(m) => member(m, k),
        _ => None,
    }
}

/// The text of a string value.
pub open spec fn jstr(j: JsonView) -> Option<Seq<char>> {
    match j {
        JsonView::Str(s) => Some(s),
        _ => None,
    }
}

/// The items of an array value.
pub open spec fn jarray(j: JsonView) -> Option<Seq<JsonView>> {
    match j {
        JsonView::Array(v) => Some(v),
        _ => None,
    }
}

/// The members of an object value.
pub open spec fn jobject(j: JsonView) -> Option<Seq<(Seq<char>, JsonView)>> {
    match j {
        JsonView::Object(m) => Some(m),
        _ => None,
    }
}

/// The value of a non-negative integer.
pub open spec fn ju64(j: JsonView) -> Option<u64> {
    match j {
        JsonView::UInt(n) => Some(n),
        _ => None,
    }
}

/// The value of an integer that fits in `i64`.
pub open spec fn ji64(j: JsonView) -> Option<i64> {
    match j {
        JsonView::UInt(n) => if n <= i64::MAX {
            Some(n as i64)
        } else {
            None
        },
        JsonView::Int(n) => Some(n),
        _ => None,
    }
}

/// The value of a boolean.
pub open spec fn jbool(j: JsonView) -> Option<bool> {
    match j {
        JsonView::Bool(b) => Some(b),
        _ => None,
    }
}

/// Member `k` of an optional value.
pub open spec fn oget(j: Option<JsonView>, k: Seq<char>) -> Option<JsonView> {
    match j {
        Some(v) => jget(v, k),
        None => None,
    }
}

/// The text of an optional value.
pub open spec fn ostr(j: Option<JsonView>) -> Option<Seq<char>> {
    match j {
        Some(v) => jstr(v),
        None => None,
    }
}

/// The items of an optional value.
pub open spec fn oarray(j: Option<JsonView>) -> Option<Seq<JsonView>> {
    match j {
        Some(v) => jarray(v),
        None => None,
    }
}

/// `a`, or else `b`.
pub open spec fn or_else<T>(a: Option<T>, b: Option<T>) -> Option<T> {
    match a {
        Some(x) => Some(x),
        None => b,
    }
}

/// `a`, or else `d`.
pub open spec fn or_default<T>(a: Option<T>, d: T) -> T {
    match a {
        Some(x) => x,
        None => d,
    }
}

/// The texts of the string items of `v`, in order; other items are skipped.
pub open spec fn string_items(v: Seq<JsonView>) -> Seq<Seq<char>>
    decreases v.len(),
{
    if v.len() == 0 {
        Seq::empty()
    } else {
        match jstr(v.last()) {
            Some(s) => string_items(v.drop_last()).push(s),
            None => string_items(v.drop_last()),
        }
    }
}

/// The view of an optional borrowed value.
pub open spec fn oview(j: Option<&Json>) -> Option<JsonView> {
    match j {
        Some(v) => Some(v@),
        None => None,
    }
}

impl Json {
    /// A copy of the value.
    pub fn deep_copy(&self) -> (r: Json)
        ensures
            r@ == self@,
        decreases self,
    {
        match self {
            Json::Null => Json::Null,
            Json::Bool(b) => Json::Bool(*b),
            Json::UInt(n) => Json::UInt(*n),
            Json::Int(n) => Json::Int(*n),
            Json::Float(t) => Json::Float(t.clone()),
            Json::Str(t) => Json::Str(t.clone()),
            Json::Array(v) => {
                let mut r: Vec<Json> = Vec::new();
                let mut i: usize = 0;
                while i < v.len()
                    invariant
                        i <= v@.len(),
                        *self == Json::Array(*v),
                        r@.len() == i,
                        forall|j: int| 0 <= j < i ==> (#[trigger] r@[j])@ == v@[j]@,
                    decreases v@.len() - i,
                {
                    proof {
                        assert(decreases_to!(*self => (*self)->Array_0));
                        assert((*self)->Array_0 == *v);
                        assert(decreases_to!(*v => v[i as int]));
                    }
                    let c = v[i].deep_copy();
                    r.push(c);
                    i = i + 1;
                }
                let out = Json::Array(r);
                assert(out@ =~= self@) by {
                    assert(json_array(out@) =~= json_array(self@));
                }
                out
            },
            Json::Object(m) => {
                let mut r: Vec<(String, Json)> = Vec::new();
                let mut i: usize = 0;
                while i < m.len()
                    invariant
                        i <= m@.len(),
                        *self == Json::Object(*m),
                        r@.len() == i,
                        forall|j: int| 0 <= j < i ==> (#[trigger] r@[j]).0@ == m@[j].0@ && r@[j].1@ == m@[j].1@,
                    decreases m@.len() - i,
                {
                    proof {
                        assert(decreases_to!(*self => (*self)->Object_0));
                        assert((*self)->Object_0 == *m);
                        assert(decreases_to!(*m => m[i as int]));
                        assert(decreases_to!(m[i as int] => m[i as int].1));
                    }
                    let c = m[i].1.deep_copy();
                    r.push((m[i].0.clone(), c));
                    i = i + 1;
                }
                let out = Json::Object(r);
                assert(out@ =~= self@) by {
                    assert(json_object(out@) =~= json_object(self@));
                }
                out
            },
        }
    }

    /// Member `k` of an object.
    pub fn get(&self, k: &str) -> (r: Option<&Json>)
        ensures
            oview(r) == jget(self@, k@),
    {
        match self {
            Json::Object(m) => {
                let ghost mv = json_object(self@);
                let mut i: usize = 0;
                while i < m.len()
                    invariant
                        i <= m@.len(),
                        self@ == JsonView::Object(mv),
                        mv.len() == m@.len(),
                        forall|j: int| 0 <= j < m@.len() ==> (#[trigger] mv[j]) == (m@[j].0@, m@[j].1@),
                        forall|j: int| 0 <= j < i ==> (#[trigger] mv[j]).0 != k@,
                    decreases m@.len() - i,
                {
                    if str_eq(m[i].0.as_str(), k) {
                        proof {
                            lemma_member_at(mv, k@, i as int);
                        }
                        return Some(&m[i].1);
                    }
                    assert(mv[i as int].0 != k@);
                    i = i + 1;
                }
                proof {
                    lemma_member_none(mv, k@);
                }
                None
            },
            _ => None,
        }
    }

    /// The text of a string value.
    pub fn as_str(&self) -> (r: Option<&str>)
        ensures
            match r {
                Some(s) => jstr(self@) == Some(s@),
                None => jstr(self@) is None,
            },
    {
        match self {
            Json::Str(s) => Some(s.as_str()),
            _ => None,
        }
    }

    /// The items of an array value.
    pub fn as_array(&self) -> (r: Option<&Vec<Json>>)
        ensures
            match r {
                Some(v) => jarray(self@) == Some(json_views(v@)),
                None => jarray(self@) is None,
            },
    {
        match self {
            Json::Array(v) => {
                assert(json_array(self@) =~= json_views(v@));
                Some(v)
            },
            _ => None,
        }
    }

    /// The members of an object value.
    pub fn as_object(&self) -> (r: Option<&Vec<(String, Json)>>)
        ensures
            match r {
                Some(m) => jobject(self@) == Some(m@.map_values(|p: (String, Json)| (p.0@, p.1@))),
                None => jobject(self@) is None,
            },
    {
        match self {
            Json::Object(m) => {
                assert(json_object(self@) =~= m@.map_values(|p: (String, Json)| (p.0@, p.1@)));
                Some(m)
            },
            _ => None,
        }
    }

    /// The value of an integer that fits in `i64`.
    pub fn as_i64(&self) -> (r: Option<i64>)
        ensures
            r == ji64(self@),
    {
        match self {
            Json::UInt(n) => if *n <= 9223372036854775807u64 {
                Some(*n as i64)
            } else {
                None
            },
            Json::Int(n) => Some(*n),
            _ => None,
        }
    }

    /// The value of a boolean.
    pub fn as_bool(&self) -> (r: Option<bool>)
        ensures
            r == jbool(self@),
    {
        match self {
            Json::Bool(b) => Some(*b),
            _ => None,
        }
    }

    /// The value of a non-negative integer.
    pub fn as_u64(&self) -> (r: Option<u64>)
        ensures
            r == ju64(self@),
    {
        match self {
            Json::UInt(n) => Some(*n),
            _ => None,
        }
    }
}

/// The members of an object view (empty for other values).
pub open spec fn json_object(j: JsonView) -> Seq<(Seq<char>, JsonView)> {
    match j {
        JsonView::Object(m) => m,
        _ => Seq::empty(),
    }
}

/// The items of an array view (empty for other values).
pub open spec fn json_array(j: JsonView) -> Seq<JsonView> {
    match j {
        JsonView::Array(v) => v,
        _ => Seq::empty(),
    }
}

/// Member `k` of an optional value.
pub fn get_opt<'a>(j: Option<&'a Json>, k: &str) -> (r: Option<&'a Json>)
    ensures
        oview(r) == oget(oview(j), k@),
{
    match j {
        Some(v) => v.get(k),
        None => None,
    }
}

/// The text of an optional value.
pub fn str_opt<'a>(j: Option<&'a Json>) -> (r: Option<&'a str>)
    ensures
        match r {
            Some(s) => ostr(oview(j)) == Some(s@),
            None => ostr(oview(j)) is None,
        },
{
    match j {
        Some(v) => v.as_str(),
        None => None,
    }
}

/// The texts of the string items of `v`, in order.
pub fn collect_strings(v: &Vec<Json>) -> (r: Vec<String>)
    ensures
        views(r@) == string_items(json_views(v@)),
{
    let ghost jv = json_views(v@);
    let mut r: Vec<String> = Vec::new();
    let mut i: usize = 0;
    while i < v.len()
        invariant
            i <= v@.len(),
            jv == json_views(v@),
            views(r@) == string_items(jv.subrange(0, i as int)),
        decreases v@.len() - i,
    {
        proof {
            assert(jv.subrange(0, i + 1).drop_last() =~= jv.subrange(0, i as int));
            assert(jv.subrange(0, i + 1).last() == v@[i as int]@);
        }
        if let Some(s) = v[i].as_str() {
            let ghost before = r@;
            r.push(String::from_str(s));
            assert(views(r@) =~= views(before).push(s@));
        }
        i = i + 1;
    }
    assert(jv.subrange(0, v@.len() as int) =~= jv);
    r
}

/// An object holding the given members, in order.
pub fn object(members: Vec<(String, Json)>) -> (r: Json)
    ensures
        r@ == JsonView::Object(members@.map_values(|p: (String, Json)| (p.0@, p.1@))),
{
    let r = Json::Object(members);
    assert(json_object(r@) =~= members@.map_values(|p: (String, Json)| (p.0@, p.1@)));
    r
}

/// An array holding the given items, in order.
pub fn array(items: Vec<Json>) -> (r: Json)
    ensures
        r@ == JsonView::Array(json_views(items@)),
{
    let r = Json::Array(items);
    assert(json_array(r@) =~= json_views(items@));
    r
}

/// A string value.
pub fn string(s: &str) -> (r: Json)
    ensures
        r@ == JsonView::Str(s@),
{
    Json::Str(String::from_str(s))
}

/// Copies of a list of values.
pub fn copy_all(v: &Vec<Json>) -> (r: Vec<Json>)
    ensures
        json_views(r@) == json_views(v@),
{
    let mut r: Vec<Json> = Vec::new();
    let mut i: usize = 0;
    while i < v.len()
        invariant
            i <= v@.len(),
            r@.len() == i,
            forall|j: int| 0 <= j < i ==> (#[trigger] r@[j])@ == v@[j]@,
        decreases v@.len() - i,
    {
        let c = v[i].deep_copy();
        r.push(c);
        i = i + 1;
    }
    assert(json_views(r@) =~= json_views(v@));
    r
}

/// An integer value.
pub fn integer(n: u64) -> (r: Json)
    ensures
        r@ == JsonView::UInt(n),
{
    Json::UInt(n)
}

} // verus!
