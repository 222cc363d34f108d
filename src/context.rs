use vstd::prelude::*;

use crate::expr::attr_spec;
use crate::object::Object;
use crate::value::{Value, ValueView};

verus! {

/// The value bound to `name` in a list of bindings; a later binding of a name
/// hides an earlier one.
pub open spec fn lookup_binding(binds: Seq<(Seq<char>, ValueView)>, name: Seq<char>) -> Option<ValueView>
    decreases binds.len(),
{
    if binds.len() == 0 {
        None
    } else if binds.last().0 == name {
        Some(binds.last().1)
    } else {
        lookup_binding(binds.drop_last(), name)
    }
}

/// What an evaluation runs against: variables by name, and the table of host
/// objects that `Value::Object` handles point into. The table holds objects of
/// one type `O`; a host with several kinds of objects makes `O` an enum of
/// them. A handle means something only in the context that issued it.
pub struct Context<O> {
    vars: Vec<(String, Value)>,
    objects: Vec<O>,
}

impl<O> Context<O> {
    /// The bindings, oldest first.
    pub closed spec fn bindings(&self) -> Seq<(Seq<char>, ValueView)> {
        Seq::new(self.vars.len() as nat, |i: int| (self.vars[i].0@, self.vars[i].1@))
    }

    /// The object table; a handle is an index into it.
    pub closed spec fn objects(&self) -> Seq<O> {
        self.objects@
    }

    /// The value that `name` evaluates to, if it is bound.
    pub open spec fn var(&self, name: Seq<char>) -> Option<ValueView> {
        lookup_binding(self.bindings(), name)
    }

    pub fn new() -> (r: Context<O>)
        ensures
            r.bindings().len() == 0,
            r.objects().len() == 0,
    {
        Context { vars: Vec::new(), objects: Vec::new() }
    }

    /// Binds `name` to `value`, hiding any earlier binding of that name.
    pub fn set(&mut self, name: &str, value: Value)
        ensures
            final(self).bindings() == old(self).bindings().push((name@, value@)),
            final(self).objects() == old(self).objects(),
    {
        self.vars.push((name.to_owned(), value));
        assert(self.bindings() =~= old(self).bindings().push((name@, value@)));
    }

    /// Adds a host object to the table and returns the value that refers to it.
    pub fn add_object(&mut self, o: O) -> (r: Value)
        ensures
            final(self).objects() == old(self).objects().push(o),
            final(self).bindings() == old(self).bindings(),
            r@ == ValueView::Object(old(self).objects().len()),
    {
        let h = self.objects.len();
        self.objects.push(o);
        assert(self.bindings() =~= old(self).bindings());
        Value::Object(h)
    }

    /// The object that handle `h` refers to.
    pub fn object(&self, h: usize) -> (r: Option<&O>)
        ensures
            h < self.objects().len() ==> r == Some(&self.objects()[h as int]),
            h >= self.objects().len() ==> r is None,
    {
        if h < self.objects.len() {
            Some(&self.objects[h])
        } else {
            None
        }
    }

    /// A copy of the value bound to `name`.
    pub fn get(&self, name: &str) -> (r: Option<Value>)
        ensures
            r matches Some(v) ==> self.var(name@) == Some(v@),
            r is None ==> self.var(name@) is None,
    {
        let key = name.to_owned();
        let mut i: usize = self.vars.len();
        assert(self.bindings().subrange(0, i as int) =~= self.bindings());
        while i > 0
            invariant
                key@ == name@,
                i <= self.vars.len(),
                lookup_binding(self.bindings(), name@) == lookup_binding(self.bindings().subrange(0, i as int), name@),
            decreases i,
        {
            let ghost pre = self.bindings().subrange(0, i as int);
            assert(pre.drop_last() =~= self.bindings().subrange(0, i - 1));
            assert(pre.last() == (self.vars[i - 1].0@, self.vars[i - 1].1@));
            if self.vars[i - 1].0 == key {
                return Some(self.vars[i - 1].1.copy());
            }
            i -= 1;
        }
        None
    }
}

impl<O: Object> Context<O> {
    /// The attribute `name` of `v`, looked up the same way for every kind of
    /// value: a map's entry, or what the object that `v` refers to answers
    /// through `Object::get_attr`; absence, and every other kind of value,
    /// give `Undefined`.
    pub fn attr_of(&self, v: &Value, name: &str) -> (r: Value)
        ensures
            attr_spec(v@, name@, self.objects()) matches Some(Ok(x)) ==> r@ == x,
            v@ is Object && v@->Object_0 < self.objects().len() ==> exists|g: Option<Value>|
                #[trigger] call_ensures(O::get_attr, (&self.objects()[v@->Object_0 as int], name), g) && match g {
                    Some(x) => r@ == x@,
                    None => r@ == ValueView::Undefined,
                },
    {
        match v {
            Value::Dict(_) => match v.get_key(name) {
                Some(x) => x,
                None => Value::Undefined,
            },
            Value::Object(h) => match self.object(*h) {
                Some(o) => {
                    let g = o.get_attr(name);
                    let ghost gg = g;
                    let r = match g {
                        Some(x) => x,
                        None => Value::Undefined,
                    };
                    assert(call_ensures(O::get_attr, (&self.objects()[*h as int], name), gg));
                    r
                },
                None => Value::Undefined,
            },
            _ => Value::Undefined,
        }
    }
}

} // verus!
