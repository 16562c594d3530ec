//! Objects of a database: the ones that a caller fills and hands to sophia,
//! and the ones that sophia hands back as results.

use core::marker::PhantomData;
use vstd::prelude::*;
use vstd::string::StringSliceAdditionalSpecFns;

use crate::call::{
    c_path, c_string, copy_bytes, key_b_name, key_name, literal_path, no_nul, nul_terminated,
    order_name, prefix_name, set_string_call, setkey, setstring, setvalue, val_name, value_name,
    Call, CallView, Voidptr,
};

verus! {

/// An object that the caller fills with attributes (key, value, ...) and then
/// hands to a database or a transaction. It owns its C object until it is
/// handed over; a released object destroys it. It borrows the database that
/// made it, and remembers that database and its environment.
#[derive(Debug)]
pub struct DbObject<'a> {
    o: Voidptr,
    db: Voidptr,
    env: Voidptr,
    phantom: PhantomData<&'a ()>,
}

/// What a [`DbObject`] is: its C object, and the database and environment it belongs to.
pub struct ObjectView {
    pub handle: Voidptr,
    pub db: Voidptr,
    pub env: Voidptr,
}

impl<'a> View for DbObject<'a> {
    type V = ObjectView;

    closed spec fn view(&self) -> ObjectView {
        ObjectView { handle: self.o, db: self.db, env: self.env }
    }
}

/// The call that destroys the C object at `h`, unless `h` is null.
pub open spec fn release_call(h: Voidptr) -> Option<CallView> {
    if h == 0 {
        None
    } else {
        Some(CallView::Destroy { target: h })
    }
}

impl<'a> DbObject<'a> {
    /// The object that owns the C object at `o`, made by database `db` of environment `env`.
    pub(crate) fn own(o: Voidptr, db: Voidptr, env: Voidptr) -> (r: DbObject<'a>)
        ensures
            r@ == (ObjectView { handle: o, db, env }),
    {
        DbObject { o, db, env, phantom: PhantomData }
    }

    /// The address of the C object.
    pub fn handle(&self) -> (h: Voidptr)
        ensures
            h == self@.handle,
    {
        self.o
    }

    /// The database that made the object.
    pub fn database(&self) -> (h: Voidptr)
        ensures
            h == self@.db,
    {
        self.db
    }

    /// The environment of the database that made the object.
    pub fn environment(&self) -> (h: Voidptr)
        ensures
            h == self@.env,
    {
        self.env
    }

    /// Sets the string attribute named `path` to `data`. The name must hold no
    /// NUL byte and the data must not be empty.
    pub fn attr(&mut self, path: &str, data: &[u8]) -> (call: Call)
        requires
            no_nul(path.spec_bytes()),
            data@.len() > 0,
        ensures
            *final(self) == *old(self),
            call@ == set_string_call(old(self)@.handle, c_path(path.spec_bytes()), data@),
    {
        let path = c_string(path.as_bytes());
        setstring(self.o, path.as_slice(), data)
    }

    /// Sets the `key` attribute; the same as `attr("key", data)`.
    pub fn key(&mut self, data: &[u8]) -> (call: Call)
        requires
            data@.len() > 0,
        ensures
            *final(self) == *old(self),
            call@ == set_string_call(old(self)@.handle, c_path(key_name()), data@),
    {
        setkey(self.o, data)
    }

    /// Sets the `key_b` attribute, a secondary key; the same as `attr("key_b", data)`.
    pub fn key_b(&mut self, data: &[u8]) -> (call: Call)
        requires
            data@.len() > 0,
        ensures
            *final(self) == *old(self),
            call@ == set_string_call(old(self)@.handle, c_path(key_b_name()), data@),
    {
        proof {
            reveal_strlit("key_b");
        }
        let path = literal_path("key_b");
        assert(path@ =~= c_path(key_b_name()));
        setstring(self.o, path.as_slice(), data)
    }

    /// Sets the `value` attribute; the same as `attr("value", data)`.
    pub fn value(&mut self, data: &[u8]) -> (call: Call)
        requires
            data@.len() > 0,
        ensures
            *final(self) == *old(self),
            call@ == set_string_call(old(self)@.handle, c_path(value_name()), data@),
    {
        setvalue(self.o, data)
    }

    /// Sets the `val` attribute; the same as `attr("val", data)`.
    pub fn val(&mut self, data: &[u8]) -> (call: Call)
        requires
            data@.len() > 0,
        ensures
            *final(self) == *old(self),
            call@ == set_string_call(old(self)@.handle, c_path(val_name()), data@),
    {
        proof {
            reveal_strlit("val");
        }
        let path = literal_path("val");
        assert(path@ =~= c_path(val_name()));
        setstring(self.o, path.as_slice(), data)
    }

    /// Sets the `order` attribute; the same as `attr("order", data)`.
    pub fn order(&mut self, data: &[u8]) -> (call: Call)
        requires
            data@.len() > 0,
        ensures
            *final(self) == *old(self),
            call@ == set_string_call(old(self)@.handle, c_path(order_name()), data@),
    {
        proof {
            reveal_strlit("order");
        }
        let path = literal_path("order");
        assert(path@ =~= c_path(order_name()));
        setstring(self.o, path.as_slice(), data)
    }

    /// Sets the `prefix` attribute; the same as `attr("prefix", data)`.
    pub fn prefix(&mut self, data: &[u8]) -> (call: Call)
        requires
            data@.len() > 0,
        ensures
            *final(self) == *old(self),
            call@ == set_string_call(old(self)@.handle, c_path(prefix_name()), data@),
    {
        proof {
            reveal_strlit("prefix");
        }
        let path = literal_path("prefix");
        assert(path@ =~= c_path(prefix_name()));
        setstring(self.o, path.as_slice(), data)
    }

    /// Gives the C object up: the call that destroys it, unless the handle is null.
    pub fn release(self) -> (r: Option<Call>)
        ensures
            r matches Some(c) ==> release_call(self@.handle) == Some(c@),
            r is None <==> release_call(self@.handle) is None,
    {
        if self.o == 0 {
            None
        } else {
            Some(Call::Destroy { target: self.o })
        }
    }
}

/// An object that sophia returned from a lookup or a cursor step. It owns its C
/// object; a released result destroys it. It borrows the database, transaction
/// or cursor that answered it.
#[derive(Debug)]
pub struct DbResultObject<'a> {
    o: Voidptr,
    phantom: PhantomData<&'a ()>,
}

impl<'a> View for DbResultObject<'a> {
    type V = Voidptr;

    closed spec fn view(&self) -> Voidptr {
        self.o
    }
}

/// The call that reads the string attribute at C path `path` of object `o`.
pub open spec fn get_string_call(o: Voidptr, path: Seq<u8>) -> CallView {
    CallView::GetString { target: o, path }
}

impl<'a> DbResultObject<'a> {
    /// The result that owns the C object at `o`.
    pub(crate) fn own(o: Voidptr) -> (r: DbResultObject<'a>)
        ensures
            r@ == o,
    {
        DbResultObject { o, phantom: PhantomData }
    }

    /// The address of the C object.
    pub fn handle(&self) -> (h: Voidptr)
        ensures
            h == self@,
    {
        self.o
    }

    /// Reads the string attribute at `key`, which ends with a NUL byte. Sophia
    /// answers with no bytes (a null pointer) when the attribute is not there.
    fn get_(&self, key: &[u8]) -> (call: Call)
        requires
            nul_terminated(key@),
        ensures
            call@ == get_string_call(self@, key@),
    {
        Call::GetString { target: self.o, path: copy_bytes(key) }
    }

    /// Reads the `value` attribute.
    pub fn get_value(&self) -> (call: Call)
        ensures
            call@ == get_string_call(self@, c_path(value_name())),
    {
        proof {
            reveal_strlit("value");
        }
        let path = literal_path("value");
        assert(path@ =~= c_path(value_name()));
        self.get_(path.as_slice())
    }

    /// Reads the `key` attribute.
    pub fn get_key(&self) -> (call: Call)
        ensures
            call@ == get_string_call(self@, c_path(key_name())),
    {
        proof {
            reveal_strlit("key");
        }
        let path = literal_path("key");
        assert(path@ =~= c_path(key_name()));
        self.get_(path.as_slice())
    }

    /// Reads the `key_b` attribute.
    pub fn get_key_b(&self) -> (call: Call)
        ensures
            call@ == get_string_call(self@, c_path(key_b_name())),
    {
        proof {
            reveal_strlit("key_b");
        }
        let path = literal_path("key_b");
        assert(path@ =~= c_path(key_b_name()));
        self.get_(path.as_slice())
    }

    /// Gives the C object up: the call that destroys it, unless the handle is null.
    pub fn release(self) -> (r: Option<Call>)
        ensures
            r matches Some(c) ==> release_call(self@) == Some(c@),
            r is None <==> release_call(self@) is None,
    {
        if self.o == 0 {
            None
        } else {
            Some(Call::Destroy { target: self.o })
        }
    }
}

/// Each shortcut of [`DbObject`] has exactly the effect of `attr` with its
/// own name: for every object `o` and data `d`, the call in the contract of
/// `key(d)`, `key_b(d)`, `value(d)`, `val(d)`, `order(d)` and `prefix(d)` is the
/// call in the contract of `attr("key", d)`, `attr("key_b", d)`,
/// `attr("value", d)`, `attr("val", d)`, `attr("order", d)` and
/// `attr("prefix", d)`, and each name meets `attr`'s demand of no NUL byte.
pub proof fn lemma_shortcuts_are_attr(o: Voidptr, d: Seq<u8>)
    ensures
        no_nul("key".spec_bytes()),
        set_string_call(o, c_path(key_name()), d) == set_string_call(o, c_path("key".spec_bytes()), d),
        no_nul("key_b".spec_bytes()),
        set_string_call(o, c_path(key_b_name()), d) == set_string_call(o, c_path("key_b".spec_bytes()), d),
        no_nul("value".spec_bytes()),
        set_string_call(o, c_path(value_name()), d) == set_string_call(o, c_path("value".spec_bytes()), d),
        no_nul("val".spec_bytes()),
        set_string_call(o, c_path(val_name()), d) == set_string_call(o, c_path("val".spec_bytes()), d),
        no_nul("order".spec_bytes()),
        set_string_call(o, c_path(order_name()), d) == set_string_call(o, c_path("order".spec_bytes()), d),
        no_nul("prefix".spec_bytes()),
        set_string_call(o, c_path(prefix_name()), d) == set_string_call(o, c_path("prefix".spec_bytes()), d),
{
    lemma_name_bytes();
}

/// The bytes of the attribute names, as string literals.
pub proof fn lemma_name_bytes()
    ensures
        "key".spec_bytes() == key_name(),
        "key_b".spec_bytes() == key_b_name(),
        "value".spec_bytes() == value_name(),
        "val".spec_bytes() == val_name(),
        "order".spec_bytes() == order_name(),
        "prefix".spec_bytes() == prefix_name(),
        "db".spec_bytes() == crate::call::db_name(),
{
    reveal_strlit("key");
    reveal_strlit("key_b");
    reveal_strlit("value");
    reveal_strlit("val");
    reveal_strlit("order");
    reveal_strlit("prefix");
    reveal_strlit("db");
    vstd::string::is_ascii_spec_bytes("key");
    vstd::string::is_ascii_spec_bytes("key_b");
    vstd::string::is_ascii_spec_bytes("value");
    vstd::string::is_ascii_spec_bytes("val");
    vstd::string::is_ascii_spec_bytes("order");
    vstd::string::is_ascii_spec_bytes("prefix");
    vstd::string::is_ascii_spec_bytes("db");
    assert("key".spec_bytes() =~= key_name());
    assert("key_b".spec_bytes() =~= key_b_name());
    assert("value".spec_bytes() =~= value_name());
    assert("val".spec_bytes() =~= val_name());
    assert("order".spec_bytes() =~= order_name());
    assert("prefix".spec_bytes() =~= prefix_name());
    assert("db".spec_bytes() =~= crate::call::db_name());
}

/// A read of a string attribute goes to the object itself, every bit of its
/// address kept, with the path it is given.
pub proof fn lemma_get_string_call_targets_object(o: Voidptr, path: Seq<u8>)
    ensures
        get_string_call(o, path) matches CallView::GetString { target, path: p } && {
            &&& target == o
            &&& p.len() == path.len()
            &&& forall|i: int| 0 <= i < path.len() ==> p[i] == path[i]
        },
{
}

/// Reads of different objects, or of different paths, are different calls.
pub proof fn lemma_get_string_call_injective(o1: Voidptr, p1: Seq<u8>, o2: Voidptr, p2: Seq<u8>)
    requires
        get_string_call(o1, p1) == get_string_call(o2, p2),
    ensures
        o1 == o2,
        p1 == p2,
{
    lemma_get_string_call_targets_object(o1, p1);
    lemma_get_string_call_targets_object(o2, p2);
    assert(p1 =~= p2);
}

/// Releasing a handle destroys exactly that C object, and a null handle
/// destroys nothing.
pub proof fn lemma_release_destroys_own_handle(h: Voidptr)
    ensures
        release_call(h) is None <==> h == 0,
        release_call(h) matches Some(c) ==> (c matches CallView::Destroy { target } && target == h),
{
}

} // verus!
