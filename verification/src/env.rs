//! The environment, its databases, transactions and cursors.

use core::marker::PhantomData;
use vstd::prelude::*;
use vstd::string::StringSliceAdditionalSpecFns;

use crate::call::{
    c_contents, lemma_c_path_reads_back, c_path, c_string, db_name, db_prefix, literal_path, no_nul, set_string_call, setstring,
    Call, CallView, Voidptr,
};
use crate::object::{DbObject, DbResultObject, ObjectView};

verus! {

/// What a database and a transaction both offer: storing objects, looking
/// them up and opening cursors over them.
pub trait SetGetOps {
    /// The C object that the operations go to.
    spec fn backend_handle(&self) -> Voidptr;

    /// Whether an object belongs here: it was made by this database, or by a
    /// database of this transaction's environment.
    spec fn accepts(&self, pattern: ObjectView) -> bool;

    /// The C object that the operations go to.
    fn backend(&self) -> (b: Voidptr)
        ensures
            b == self.backend_handle(),
    ;

    /// Whether `pattern` belongs here.
    fn accepts_pattern(&self, pattern: &DbObject) -> (r: bool)
        ensures
            r == self.accepts(pattern@),
    ;

    /// Stores `obj`. Sophia takes the object over, so it is not destroyed here.
    fn set(&self, obj: DbObject) -> (call: Call)
        ensures
            call@ == (CallView::Store { backend: self.backend_handle(), object: obj@.handle }),
    {
        Call::Store { backend: self.backend(), object: obj.handle() }
    }

    /// The lookup of `pattern`. Whether the pattern belongs here is not
    /// checked: [`SetGetOps::accepts_pattern`] tells it.
    fn get_request(&self, pattern: &DbObject) -> (call: Call)
        ensures
            call@ == (CallView::Fetch { backend: self.backend_handle(), pattern: pattern@.handle }),
    {
        Call::Fetch { backend: self.backend(), pattern: pattern.handle() }
    }

    /// The outcome of the lookup of `pattern`, given the address `res` of the
    /// record that sophia answered. A null answer means nothing was found: the
    /// pattern comes back, still owning its C object, for the caller to
    /// release. Otherwise the result owns the record `res`, and the pattern,
    /// which sophia took over in the lookup, is given up without being destroyed.
    fn get<'a, 'b>(&'a self, pattern: DbObject<'b>, res: Voidptr) -> (r: Result<DbResultObject<'a>, DbObject<'b>>)
        ensures
            res == 0 ==> r == Err::<DbResultObject<'a>, DbObject<'b>>(pattern),
            res != 0 ==> (r matches Ok(found) && found@ == res),
    {
        if res == 0 {
            Err(pattern)
        } else {
            Ok(DbResultObject::own(res))
        }
    }

    /// The opening of a cursor from `pattern`.
    fn cursor_request(&self, pattern: &DbObject) -> (call: Call)
        ensures
            call@ == (CallView::OpenCursor { backend: self.backend_handle(), pattern: pattern@.handle }),
    {
        Call::OpenCursor { backend: self.backend(), pattern: pattern.handle() }
    }

    /// The cursor at `cursor`, which sophia answered and which is not null. The
    /// pattern is freed together with the cursor, so it is given up here.
    fn cursor<'a, 'b>(&'a self, pattern: DbObject<'b>, cursor: Voidptr) -> (c: Cursor<'a>)
        requires
            cursor != 0,
        ensures
            c@ == cursor,
    {
        Cursor { obj: cursor, phantom: PhantomData }
    }
}

/// A sophia environment: the configuration and the databases.
#[derive(Debug, Copy, Clone)]
pub struct Env {
    env: Voidptr,
}

impl View for Env {
    type V = Voidptr;

    closed spec fn view(&self) -> Voidptr {
        self.env
    }
}

/// The call that looks up the database named by the bytes `name` in environment `env`.
pub open spec fn get_db_call(env: Voidptr, name: Seq<u8>) -> CallView {
    CallView::GetObject { target: env, path: c_path(db_prefix() + name) }
}

impl Env {
    /// The creation of an environment.
    pub fn new_request() -> (call: Call)
        ensures
            call@ == CallView::NewEnv,
    {
        Call::NewEnv
    }

    /// The environment at `env`, which sophia answered.
    pub fn new(env: Voidptr) -> (e: Env)
        ensures
            e@ == env,
    {
        Env { env }
    }

    /// The address of the C object.
    pub fn handle(&self) -> (h: Voidptr)
        ensures
            h == self@,
    {
        self.env
    }

    /// Destroys the environment.
    pub fn destroy(self) -> (call: Call)
        ensures
            call@ == (CallView::Destroy { target: self@ }),
    {
        Call::Destroy { target: self.env }
    }

    /// Declares the database `dbname`, which must hold no NUL byte and not be empty.
    pub fn db(&mut self, dbname: &str) -> (call: Call)
        requires
            no_nul(dbname.spec_bytes()),
            dbname.spec_bytes().len() > 0,
        ensures
            *final(self) == *old(self),
            call@ == set_string_call(old(self)@, c_path(db_name()), dbname.spec_bytes()),
    {
        proof {
            reveal_strlit("db");
        }
        let path = literal_path("db");
        assert(path@ =~= c_path(db_name()));
        setstring(self.env, path.as_slice(), dbname.as_bytes())
    }

    /// Opens the environment.
    pub fn open(&mut self) -> (call: Call)
        ensures
            *final(self) == *old(self),
            call@ == (CallView::Open { target: old(self)@ }),
    {
        Call::Open { target: self.env }
    }

    /// The beginning of a transaction.
    pub fn begin_request(&self) -> (call: Call)
        ensures
            call@ == (CallView::Begin { env: self@ }),
    {
        Call::Begin { env: self.env }
    }

    /// The transaction at `tx`, which sophia answered and which is not null.
    pub fn begin<'a>(&'a self, tx: Voidptr) -> (t: Transaction<'a>)
        requires
            tx != 0,
        ensures
            t@ == (HandleView { handle: tx, env: self@ }),
    {
        Transaction { tx, env: self.env, phantom: PhantomData }
    }

    /// The lookup of the database `dbname`, which must hold no NUL byte; sophia
    /// lists it under the path `db.` followed by the name.
    pub fn get_db_request(&self, dbname: &str) -> (call: Call)
        requires
            no_nul(dbname.spec_bytes()),
        ensures
            call@ == get_db_call(self@, dbname.spec_bytes()),
    {
        let name = dbname.as_bytes();
        let mut dbstr: Vec<u8> = Vec::new();
        dbstr.push(100u8);
        dbstr.push(98u8);
        dbstr.push(46u8);
        let mut i: usize = 0;
        while i < name.len()
            invariant
                i <= name@.len(),
                dbstr@ == db_prefix() + name@.take(i as int),
            decreases name@.len() - i,
        {
            dbstr.push(name[i]);
            assert(name@.take(i as int + 1) =~= name@.take(i as int).push(name@[i as int]));
            i = i + 1;
        }
        assert(name@.take(i as int) =~= name@);
        assert forall|x: u8| dbstr@.contains(x) implies x != 0u8 by {
            let k = choose|k: int| 0 <= k < dbstr@.len() && dbstr@[k] == x;
            if k >= 3 {
                assert(name@[k - 3] == x);
            }
        }
        let attr = c_string(dbstr.as_slice());
        Call::GetObject { target: self.env, path: attr }
    }

    /// The database at `obj`, which sophia answered; none when it is null.
    pub fn get_db(&self, obj: Voidptr) -> (r: Option<Db>)
        ensures
            obj == 0 ==> r is None,
            obj != 0 ==> (r matches Some(d) && d@ == (HandleView { handle: obj, env: self@ })),
    {
        if obj == 0 {
            None
        } else {
            Some(Db { db: obj, env: self.env })
        }
    }

    /// Sets the configuration string at `key` to `val`. Neither may hold a NUL
    /// byte, and `val` must not be empty.
    pub fn setattr(&mut self, key: &str, val: &str) -> (call: Call)
        requires
            no_nul(key.spec_bytes()),
            no_nul(val.spec_bytes()),
            val.spec_bytes().len() > 0,
        ensures
            *final(self) == *old(self),
            call@ == set_string_call(old(self)@, c_path(key.spec_bytes()), val.spec_bytes()),
    {
        let key = c_string(key.as_bytes());
        setstring(self.env, key.as_slice(), val.as_bytes())
    }

    /// Sets the configuration integer at `key`, which may hold no NUL byte, to `val`.
    pub fn setintattr(&mut self, key: &str, val: i64) -> (call: Call)
        requires
            no_nul(key.spec_bytes()),
        ensures
            *final(self) == *old(self),
            call@ == (CallView::SetInt { target: old(self)@, path: c_path(key.spec_bytes()), value: val }),
    {
        let key = c_string(key.as_bytes());
        Call::SetInt { target: self.env, path: key, value: val }
    }
}

/// A database or a transaction as a handle: its C object and its environment.
pub struct HandleView {
    pub handle: Voidptr,
    pub env: Voidptr,
}

/// A database of an environment.
#[derive(Debug, Copy, Clone)]
pub struct Db {
    db: Voidptr,
    env: Voidptr,
}

impl View for Db {
    type V = HandleView;

    closed spec fn view(&self) -> HandleView {
        HandleView { handle: self.db, env: self.env }
    }
}

impl SetGetOps for Db {
    closed spec fn backend_handle(&self) -> Voidptr {
        self.db
    }

    /// A pattern belongs to the database that made it.
    open spec fn accepts(&self, pattern: ObjectView) -> bool {
        pattern.db == self@.handle
    }

    fn backend(&self) -> (b: Voidptr) {
        self.db
    }

    fn accepts_pattern(&self, pattern: &DbObject) -> (r: bool) {
        pattern.database() == self.db
    }
}

impl Db {
    /// The address of the C object.
    pub fn handle(&self) -> (h: Voidptr)
        ensures
            h == self@.handle,
            h == self.backend_handle(),
    {
        self.db
    }

    /// The creation of a new, empty object of this database.
    pub fn obj_request(&self) -> (call: Call)
        ensures
            call@ == (CallView::NewObject { parent: self@.handle }),
    {
        Call::NewObject { parent: self.db }
    }

    /// The object at `obj`, which sophia answered and which is not null; it
    /// belongs to this database.
    pub fn obj<'a>(&'a self, obj: Voidptr) -> (o: DbObject<'a>)
        requires
            obj != 0,
        ensures
            o@ == (ObjectView { handle: obj, db: self@.handle, env: self@.env }),
    {
        DbObject::own(obj, self.db, self.env)
    }
}

/// A transaction. Unless it is committed, releasing it rolls it back.
#[derive(Debug)]
pub struct Transaction<'a> {
    tx: Voidptr,
    env: Voidptr,
    phantom: PhantomData<&'a ()>,
}

impl<'a> View for Transaction<'a> {
    type V = HandleView;

    closed spec fn view(&self) -> HandleView {
        HandleView { handle: self.tx, env: self.env }
    }
}

impl<'a> SetGetOps for Transaction<'a> {
    closed spec fn backend_handle(&self) -> Voidptr {
        self.tx
    }

    /// A pattern belongs to a transaction of the environment of its database.
    open spec fn accepts(&self, pattern: ObjectView) -> bool {
        pattern.env == self@.env
    }

    fn backend(&self) -> (b: Voidptr) {
        self.tx
    }

    fn accepts_pattern(&self, pattern: &DbObject) -> (r: bool) {
        pattern.environment() == self.env
    }
}

impl<'a> Transaction<'a> {
    /// The address of the C object.
    pub fn handle(&self) -> (h: Voidptr)
        ensures
            h == self@.handle,
            h == self.backend_handle(),
    {
        self.tx
    }

    /// Commits the transaction; sophia answers with a status code, which is
    /// returned to the caller as it is. A committed transaction is not rolled back.
    pub fn commit(self) -> (call: Call)
        ensures
            call@ == (CallView::Commit { tx: self@.handle }),
    {
        Call::Commit { tx: self.tx }
    }

    /// Gives the transaction up without committing: the call that rolls it
    /// back, unless the handle is null.
    pub fn release(self) -> (r: Option<Call>)
        ensures
            r matches Some(c) ==> crate::object::release_call(self@.handle) == Some(c@),
            r is None <==> crate::object::release_call(self@.handle) is None,
    {
        if self.tx == 0 {
            None
        } else {
            Some(Call::Destroy { target: self.tx })
        }
    }
}

/// A cursor over the objects of a database that match a pattern.
pub struct Cursor<'a> {
    obj: Voidptr,
    phantom: PhantomData<&'a ()>,
}

impl<'a> View for Cursor<'a> {
    type V = Voidptr;

    closed spec fn view(&self) -> Voidptr {
        self.obj
    }
}

impl<'a> Cursor<'a> {
    /// The address of the C object.
    pub fn handle(&self) -> (h: Voidptr)
        ensures
            h == self@,
    {
        self.obj
    }

    /// The step to the next object.
    pub fn next_request(&self) -> (call: Call)
        ensures
            call@ == (CallView::Fetch { backend: self@, pattern: 0 }),
    {
        Call::Fetch { backend: self.obj, pattern: 0 }
    }

    /// The next object, given the address `res` that sophia answered; none
    /// when it is null, which ends the cursor.
    pub fn next<'b>(&'b self, res: Voidptr) -> (r: Option<DbResultObject<'b>>)
        ensures
            res == 0 ==> r is None,
            res != 0 ==> (r matches Some(o) && o@ == res),
    {
        if res == 0 {
            None
        } else {
            Some(DbResultObject::own(res))
        }
    }

    /// Gives the cursor up: the call that destroys it, together with its pattern.
    pub fn release(self) -> (call: Call)
        ensures
            call@ == (CallView::Destroy { target: self@ }),
    {
        Call::Destroy { target: self.obj }
    }
}

/// `env.db(n)` has exactly the effect of `env.setattr("db", n)`: for every
/// environment and name, the call in `db`'s contract is the call in
/// `setattr`'s contract for the key `db`, whose bytes hold no NUL byte, so
/// both demand the same of the name.
pub proof fn lemma_db_is_setattr(env: Voidptr, n: Seq<u8>)
    ensures
        no_nul("db".spec_bytes()),
        set_string_call(env, c_path(db_name()), n) == set_string_call(env, c_path("db".spec_bytes()), n),
{
    crate::object::lemma_name_bytes();
}

/// The lookup of a database by a NUL-free name goes to the environment, under
/// the path made of the bytes `d`, `b`, `.`, then every byte of the name, then
/// one NUL; C reads it back as `db.` followed by the whole name.
pub proof fn lemma_get_db_path(env: Voidptr, name: Seq<u8>)
    requires
        no_nul(name),
    ensures
        get_db_call(env, name) matches CallView::GetObject { target, path } && {
            &&& target == env
            &&& path.len() == name.len() + 4
            &&& path[0] == 100u8 && path[1] == 98u8 && path[2] == 46u8
            &&& forall|i: int| 0 <= i < name.len() ==> path[3 + i] == name[i]
            &&& path[name.len() + 3int] == 0u8
            &&& c_contents(path) == seq![100u8, 98u8, 46u8] + name
        },
{
    let full = db_prefix() + name;
    assert forall|x: u8| full.contains(x) implies x != 0u8 by {
        let k = choose|k: int| 0 <= k < full.len() && full[k] == x;
        if k >= 3 {
            assert(name[k - 3] == x);
        }
    }
    lemma_c_path_reads_back(full);
    assert(full =~= seq![100u8, 98u8, 46u8] + name);
}

/// Lookups of databases with different names, of whatever lengths, are
/// different calls: no name is cut or changed.
pub proof fn lemma_get_db_call_injective(env1: Voidptr, n1: Seq<u8>, env2: Voidptr, n2: Seq<u8>)
    requires
        get_db_call(env1, n1) == get_db_call(env2, n2),
    ensures
        env1 == env2,
        n1 == n2,
{
    let p1 = c_path(db_prefix() + n1);
    let p2 = c_path(db_prefix() + n2);
    assert(p1 == p2);
    assert(p1.len() == n1.len() + 4);
    assert forall|i: int| 0 <= i < n1.len() implies n1[i] == n2[i] by {
        assert(p1[3 + i] == n1[i]);
        assert(p2[3 + i] == n2[i]);
    }
    assert(n1 =~= n2);
}

} // verus!
