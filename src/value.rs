use vstd::prelude::*;

verus! {

/// A datum as the interpreter sees it.
///
/// `Object` holds a handle: the index of a host object in the object table of
/// the `Context` that issued it, and means nothing in another context. Every
/// copy of such a value names the same object.
#[derive(Debug)]
pub enum Value {
    Undefined,
    Null,
    Bool(bool),
    Int(i64),
    String(String),
    Bytes(Vec<u8>),
    List(Vec<Value>),
    Dict(Vec<(Value, Value)>),
    Object(usize),
}

/// The mathematical model of a `Value`.
pub enum ValueView {
    Undefined,
    Null,
    Bool(bool),
    Int(int),
    String(Seq<char>),
    Bytes(Seq<u8>),
    List(Seq<ValueView>),
    Dict(Seq<(ValueView, ValueView)>),
    Object(nat),
}

impl View for Value {
    type V = ValueView;

    open spec fn view(&self) -> ValueView
        decreases self,
    {
        match self {
            Value::Undefined => ValueView::Undefined,
            Value::Null => ValueView::Null,
            Value::Bool(b) => ValueView::Bool(*b),
            Value::Int(i) => ValueView::Int(*i as int),
            Value::String(s) => ValueView::String(s@),
            Value::Bytes(b) => ValueView::Bytes(b@),
            Value::List(items) => ValueView::List(views_of(items@)),
            Value::Dict(entries) => ValueView::Dict(entry_views_of(entries@)),
            Value::Object(h) => ValueView::Object(*h as nat),
        }
    }
}

/// The models of a sequence of values, one for one.
pub open spec fn views_of(items: Seq<Value>) -> Seq<ValueView>
    decreases items,
{
    if items.len() == 0 {
        Seq::empty()
    } else {
        seq![items[0].view()] + views_of(items.subrange(1, items.len() as int))
    }
}

/// The models of a sequence of key/value entries, one for one.
pub open spec fn entry_views_of(entries: Seq<(Value, Value)>) -> Seq<(ValueView, ValueView)>
    decreases entries,
{
    if entries.len() == 0 {
        Seq::empty()
    } else {
        seq![(entries[0].0.view(), entries[0].1.view())] + entry_views_of(
            entries.subrange(1, entries.len() as int),
        )
    }
}

/// The value bound to the string key `key` in the entries of a map: the first
/// entry whose key is that string.
pub open spec fn map_lookup(entries: Seq<(ValueView, ValueView)>, key: Seq<char>) -> Option<ValueView>
    decreases entries.len(),
{
    if entries.len() == 0 {
        None
    } else if entries[0].0 == ValueView::String(key) {
        Some(entries[0].1)
    } else {
        map_lookup(entries.drop_first(), key)
    }
}

/// The boolean that a value holds, if it is one.
pub open spec fn bool_of(v: ValueView) -> Option<bool> {
    match v {
        ValueView::Bool(b) => Some(b),
        _ => None,
    }
}

/// The integer that a value holds, if it is one.
pub open spec fn int_of(v: ValueView) -> Option<int> {
    match v {
        ValueView::Int(i) => Some(i),
        _ => None,
    }
}

/// The text that a value holds, if it is a string.
pub open spec fn text_of(v: ValueView) -> Option<Seq<char>> {
    match v {
        ValueView::String(s) => Some(s),
        _ => None,
    }
}

/// The bytes that a value holds, if it is a byte sequence.
pub open spec fn bytes_of(v: ValueView) -> Option<Seq<u8>> {
    match v {
        ValueView::Bytes(b) => Some(b),
        _ => None,
    }
}

/// Wrapping a primitive into a value and reading it back gives the primitive.
pub proof fn lemma_primitive_round_trip(b: bool, i: i64, s: Seq<char>, bytes: Seq<u8>)
    ensures
        bool_of(ValueView::Bool(b)) == Some(b),
        int_of(ValueView::Int(i as int)) == Some(i as int),
        text_of(ValueView::String(s)) == Some(s),
        bytes_of(ValueView::Bytes(bytes)) == Some(bytes),
{
}

proof fn lemma_views_agree(a: Seq<Value>, b: Seq<Value>)
    requires
        a.len() == b.len(),
        forall|j: int| 0 <= j < a.len() ==> #[trigger] a[j]@ == b[j]@,
    ensures
        views_of(a) == views_of(b),
    decreases a.len(),
{
    if a.len() > 0 {
        let ta = a.subrange(1, a.len() as int);
        let tb = b.subrange(1, b.len() as int);
        assert forall|j: int| 0 <= j < ta.len() implies #[trigger] ta[j]@ == tb[j]@ by {
            assert(a[j + 1]@ == b[j + 1]@);
        }
        lemma_views_agree(ta, tb);
        assert(a[0]@ == b[0]@);
    }
}

proof fn lemma_entry_views_agree(a: Seq<(Value, Value)>, b: Seq<(Value, Value)>)
    requires
        a.len() == b.len(),
        forall|j: int| 0 <= j < a.len() ==> (#[trigger] a[j]).0@ == b[j].0@ && a[j].1@ == b[j].1@,
    ensures
        entry_views_of(a) == entry_views_of(b),
    decreases a.len(),
{
    if a.len() > 0 {
        let ta = a.subrange(1, a.len() as int);
        let tb = b.subrange(1, b.len() as int);
        assert forall|j: int| 0 <= j < ta.len() implies (#[trigger] ta[j]).0@ == tb[j].0@ && ta[j].1@ == tb[j].1@ by {
            assert(a[j + 1].0@ == b[j + 1].0@ && a[j + 1].1@ == b[j + 1].1@);
        }
        lemma_entry_views_agree(ta, tb);
        assert(a[0].0@ == b[0].0@ && a[0].1@ == b[0].1@);
    }
}

proof fn lemma_views_index(s: Seq<Value>)
    ensures
        views_of(s).len() == s.len(),
        forall|j: int| 0 <= j < s.len() ==> #[trigger] views_of(s)[j] == s[j]@,
    decreases s.len(),
{
    if s.len() > 0 {
        let t = s.subrange(1, s.len() as int);
        lemma_views_index(t);
        let x = views_of(s);
        assert(x == seq![s[0]@] + views_of(t));
        assert forall|j: int| 0 <= j < s.len() implies #[trigger] views_of(s)[j] == s[j]@ by {
            if j > 0 {
                assert(views_of(s)[j] == views_of(t)[j - 1]);
                assert(t[j - 1] == s[j]);
            }
        }
    }
}

proof fn lemma_entry_views_index(s: Seq<(Value, Value)>)
    ensures
        entry_views_of(s).len() == s.len(),
        forall|j: int| 0 <= j < s.len() ==> #[trigger] entry_views_of(s)[j] == (s[j].0@, s[j].1@),
    decreases s.len(),
{
    if s.len() > 0 {
        let t = s.subrange(1, s.len() as int);
        lemma_entry_views_index(t);
        let x = entry_views_of(s);
        assert(x == seq![(s[0].0@, s[0].1@)] + entry_views_of(t));
        assert forall|j: int| 0 <= j < s.len() implies #[trigger] entry_views_of(s)[j] == (s[j].0@, s[j].1@) by {
            if j > 0 {
                assert(entry_views_of(s)[j] == entry_views_of(t)[j - 1]);
                assert(t[j - 1] == s[j]);
            }
        }
    }
}

impl Value {
    /// A copy of the value; an object handle is copied, so the copy names the
    /// same object.
    pub fn copy(&self) -> (r: Value)
        ensures
            r@ == self@,
        decreases self,
    {
        match self {
            Value::Undefined => Value::Undefined,
            Value::Null => Value::Null,
            Value::Bool(b) => Value::Bool(*b),
            Value::Int(i) => Value::Int(*i),
            Value::String(s) => Value::String(s.clone()),
            Value::Bytes(b) => {
                let c = b.clone();
                assert(c@ =~= b@);
                Value::Bytes(c)
            },
            Value::List(items) => {
                let mut out: Vec<Value> = Vec::new();
                let mut i: usize = 0;
                while i < items.len()
                    invariant
                        self is List,
                        self->List_0 == *items,
                        i <= items.len(),
                        out.len() == i,
                        forall|j: int| 0 <= j < i ==> #[trigger] out[j]@ == items[j]@,
                    decreases items.len() - i,
                {
                    out.push(items[i].copy());
                    i += 1;
                }
                proof {
                    lemma_views_agree(out@, items@);
                }
                Value::List(out)
            },
            Value::Dict(entries) => {
                let mut out: Vec<(Value, Value)> = Vec::new();
                let mut i: usize = 0;
                while i < entries.len()
                    invariant
                        self is Dict,
                        self->Dict_0 == *entries,
                        i <= entries.len(),
                        out.len() == i,
                        forall|j: int|
                            0 <= j < i ==> (#[trigger] out@[j]).0@ == entries@[j].0@ && out@[j].1@ == entries@[j].1@,
                    decreases entries.len() - i,
                {
                    let k = entries[i].0.copy();
                    let v = entries[i].1.copy();
                    out.push((k, v));
                    proof {
                        assert(out[i as int].0@ == entries[i as int].0@ && out[i as int].1@ == entries[i as int].1@);
                    }
                    i += 1;
                }
                proof {
                    lemma_entry_views_agree(out@, entries@);
                }
                Value::Dict(out)
            },
            Value::Object(h) => Value::Object(*h),
        }
    }

    /// The item at position `i`, where this value is a list that long.
    pub fn get_index(&self, i: usize) -> (r: Option<Value>)
        ensures
            match self@ {
                ValueView::List(items) => if i < items.len() {
                    r matches Some(x) && x@ == items[i as int]
                } else {
                    r is None
                },
                _ => r is None,
            },
    {
        match self {
            Value::List(items) => {
                proof {
                    lemma_views_index(items@);
                }
                if i < items.len() {
                    Some(items[i].copy())
                } else {
                    None
                }
            },
            _ => None,
        }
    }

    /// The value under the string key `name`, where this value is a map.
    pub fn get_key(&self, name: &str) -> (r: Option<Value>)
        ensures
            match self@ {
                ValueView::Dict(es) => match map_lookup(es, name@) {
                    Some(v) => r matches Some(x) && x@ == v,
                    None => r is None,
                },
                _ => r is None,
            },
    {
        match self {
            Value::Dict(entries) => {
                let key = name.to_owned();
                let ghost views = entry_views_of(entries@);
                proof {
                    lemma_entry_views_index(entries@);
                    assert(views.subrange(0, views.len() as int) =~= views);
                }
                let mut i: usize = 0;
                while i < entries.len()
                    invariant
                        key@ == name@,
                        self@ == ValueView::Dict(views),
                        views == entry_views_of(entries@),
                        views.len() == entries.len(),
                        forall|j: int| 0 <= j < entries.len() ==> #[trigger] views[j] == (entries@[j].0@, entries@[j].1@),
                        i <= entries.len(),
                        map_lookup(views, name@) == map_lookup(views.subrange(i as int, views.len() as int), name@),
                    decreases entries.len() - i,
                {
                    let ghost rest = views.subrange(i as int, views.len() as int);
                    assert(rest.drop_first() =~= views.subrange(i + 1, views.len() as int));
                    assert(rest[0] == views[i as int]);
                    if let Value::String(k) = &entries[i].0 {
                        if *k == key {
                            assert(map_lookup(rest, name@) == Some(views[i as int].1));
                            return Some(entries[i].1.copy());
                        }
                    }
                    i += 1;
                }
                None
            },
            _ => None,
        }
    }

    pub fn from_bool(b: bool) -> (r: Value)
        ensures
            r@ == ValueView::Bool(b),
    {
        Value::Bool(b)
    }

    pub fn from_i64(i: i64) -> (r: Value)
        ensures
            r@ == ValueView::Int(i as int),
    {
        Value::Int(i)
    }

    pub fn from_string(s: String) -> (r: Value)
        ensures
            r@ == ValueView::String(s@),
    {
        Value::String(s)
    }

    pub fn from_str(s: &str) -> (r: Value)
        ensures
            r@ == ValueView::String(s@),
    {
        Value::String(s.to_owned())
    }

    pub fn from_bytes(b: Vec<u8>) -> (r: Value)
        ensures
            r@ == ValueView::Bytes(b@),
    {
        Value::Bytes(b)
    }

    /// Wraps the host object with handle `h`; the handle is kept as it is.
    pub fn from_object(h: usize) -> (r: Value)
        ensures
            r@ == ValueView::Object(h as nat),
    {
        Value::Object(h)
    }

    pub fn is_undefined(&self) -> (r: bool)
        ensures
            r == (self@ is Undefined),
    {
        match self {
            Value::Undefined => true,
            _ => false,
        }
    }

    pub fn is_null(&self) -> (r: bool)
        ensures
            r == (self@ is Null),
    {
        match self {
            Value::Null => true,
            _ => false,
        }
    }

    pub fn as_bool(&self) -> (r: Option<bool>)
        ensures
            r == bool_of(self@),
    {
        match self {
            Value::Bool(b) => Some(*b),
            _ => None,
        }
    }

    pub fn as_i64(&self) -> (r: Option<i64>)
        ensures
            r matches Some(i) ==> int_of(self@) == Some(i as int),
            r is None ==> int_of(self@) is None,
    {
        match self {
            Value::Int(i) => Some(*i),
            _ => None,
        }
    }

    pub fn as_str(&self) -> (r: Option<&str>)
        ensures
            r matches Some(s) ==> text_of(self@) == Some(s@),
            r is None ==> text_of(self@) is None,
    {
        match self {
            Value::String(s) => Some(s.as_str()),
            _ => None,
        }
    }

    pub fn as_bytes(&self) -> (r: Option<&[u8]>)
        ensures
            r matches Some(b) ==> bytes_of(self@) == Some(b@),
            r is None ==> bytes_of(self@) is None,
    {
        match self {
            Value::Bytes(b) => Some(b.as_slice()),
            _ => None,
        }
    }

    pub fn as_object(&self) -> (r: Option<usize>)
        ensures
            match self@ {
                ValueView::Object(h) => r is Some && r->0 as nat == h,
                _ => r is None,
            },
    {
        match self {
            Value::Object(h) => Some(*h),
            _ => None,
        }
    }
}

} // verus!
