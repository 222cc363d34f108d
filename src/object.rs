use vstd::prelude::*;

use crate::error::{join_text, Error, ErrorKind};
use crate::state::State;
use crate::value::{Value, ValueView};
use std::sync::Arc;

verus! {

/// The names that a list of strings holds, in order.
pub open spec fn names_of(v: Seq<String>) -> Seq<Seq<char>> {
    v.map_values(|s: String| s@)
}

/// A host-defined type that the interpreter can use as a value.
///
/// The engine reaches an object through four operations. Attribute access is
/// pure and cannot fail; method calls and direct calls receive the execution
/// state and may fail, and have defaults that fail with `InvalidOperation`.
/// Every implementation must be safe to share between threads; any interior
/// mutability is the type's own business. An object also has a display form
/// and a debug form.
///
/// Spec functions describe what an implementation offers. An implementation
/// that states its attributes sets `describes_attrs` and gives them in
/// `attr` and `attr_names`; then `get_attr` answers no attribute outside
/// `attr`, and a non-empty `attributes` list is `attr_names`. An implementation that states its methods, or that it cannot be
/// called, narrows `knows_method` or `is_callable`; by default every method
/// name may be known and every object may be callable, so nothing is claimed.
pub trait Object: std::fmt::Display + std::fmt::Debug + Send + Sync {
    /// Whether `attr` and `attr_names` state this object's attributes.
    open spec fn describes_attrs(&self) -> bool {
        false
    }

    /// The attribute of this name, if the object has one.
    open spec fn attr(&self, name: Seq<char>) -> Option<ValueView> {
        None
    }

    /// The names that `attributes` lists, in order.
    open spec fn attr_names(&self) -> Seq<Seq<char>> {
        Seq::empty()
    }

    /// Whether the object may recognize a method of this name.
    open spec fn knows_method(&self, name: Seq<char>) -> bool {
        true
    }

    /// Whether the object may be invoked directly.
    open spec fn is_callable(&self) -> bool {
        true
    }

    /// The attribute of this name; an attribute that the object lacks gives
    /// `None`, never an error. By default the object has no attributes.
    fn get_attr(&self, name: &str) -> (r: Option<Value>)
        ensures
            self.describes_attrs() && self.attr(name@) is None ==> r is None,
            self.describes_attrs() ==> (r matches Some(v) ==> self.attr(name@) == Some(v@)),
        default_ensures
            r is None,
    {
        None
    }

    /// The names of the attributes that the object is willing to enumerate.
    /// An object may have attributes that it does not list here, and may
    /// decline to list any: by default the list is empty.
    fn attributes(&self) -> (r: Vec<String>)
        ensures
            self.describes_attrs() ==> (r@.len() == 0 || names_of(r@) == self.attr_names()),
        default_ensures
            r@.len() == 0,
    {
        Vec::new()
    }

    /// Invokes the method `name`. An unrecognized name fails with
    /// `InvalidOperation`, whatever the arguments.
    fn call_method(&self, state: &State, name: &str, args: &[Value]) -> (r: Result<Value, Error>)
        ensures
            !self.knows_method(name@) ==> (r matches Err(e) && e.kind == ErrorKind::InvalidOperation),
        default_ensures
            r matches Err(e) && e.kind == ErrorKind::InvalidOperation && e.detail@ == "object has no method named "@ + name@,
    {
        Err(Error::new(ErrorKind::InvalidOperation, join_text("object has no method named ", name)))
    }

    /// Invokes the object itself. An object that cannot be called fails with
    /// `InvalidOperation`.
    fn call(&self, state: &State, args: &[Value]) -> (r: Result<Value, Error>)
        ensures
            !self.is_callable() ==> (r matches Err(e) && e.kind == ErrorKind::InvalidOperation),
        default_ensures
            r matches Err(e) && e.kind == ErrorKind::InvalidOperation && e.detail@ == "tried to call non callable object"@,
    {
        Err(Error::new(ErrorKind::InvalidOperation, "tried to call non callable object".to_owned()))
    }
}

/// A shared handle to an object is the object: every operation is forwarded
/// unchanged, with the same arguments, and returns what the wrapped object
/// returns; every spec function is the wrapped object's.
impl<T: Object> Object for Arc<T> {
    open spec fn describes_attrs(&self) -> bool {
        (**self).describes_attrs()
    }

    open spec fn attr(&self, name: Seq<char>) -> Option<ValueView> {
        (**self).attr(name)
    }

    open spec fn attr_names(&self) -> Seq<Seq<char>> {
        (**self).attr_names()
    }

    open spec fn knows_method(&self, name: Seq<char>) -> bool {
        (**self).knows_method(name)
    }

    open spec fn is_callable(&self) -> bool {
        (**self).is_callable()
    }

    fn get_attr(&self, name: &str) -> (r: Option<Value>)
        ensures
            call_ensures(T::get_attr, (&**self, name), r),
    {
        T::get_attr(self, name)
    }

    fn attributes(&self) -> (r: Vec<String>)
        ensures
            call_ensures(T::attributes, (&**self,), r),
    {
        T::attributes(self)
    }

    fn call_method(&self, state: &State, name: &str, args: &[Value]) -> (r: Result<Value, Error>)
        ensures
            call_ensures(T::call_method, (&**self, state, name, args), r),
    {
        T::call_method(self, state, name, args)
    }

    fn call(&self, state: &State, args: &[Value]) -> (r: Result<Value, Error>)
        ensures
            call_ensures(T::call, (&**self, state, args), r),
    {
        T::call(self, state, args)
    }
}

/// Wrapping an object in a shared handle changes none of what it offers: the
/// same attributes, listed the same way, the same recognized methods, the same
/// callability. Applied to `Arc<Arc<T>>` and further, it covers any number of
/// layers.
pub proof fn lemma_shared_is_transparent<T: Object>(o: Arc<T>)
    ensures
        o.describes_attrs() == (*o).describes_attrs(),
        forall|n: Seq<char>| #[trigger] o.attr(n) == (*o).attr(n),
        o.attr_names() == (*o).attr_names(),
        forall|n: Seq<char>| #[trigger] o.knows_method(n) == (*o).knows_method(n),
        o.is_callable() == (*o).is_callable(),
{
}

} // verus!
