//! The C calls that the binding issues, described as plain values.

use vstd::prelude::*;
use vstd::string::StringSliceAdditionalSpecFns;

verus! {

/// The address of a C object owned by the sophia library; `0` is the null pointer.
pub type Voidptr = usize;

/// True when `s` holds no NUL byte.
pub open spec fn no_nul(s: Seq<u8>) -> bool {
    !s.contains(0u8)
}

/// The NUL-terminated form of `s`, as C reads a path.
pub open spec fn c_path(s: Seq<u8>) -> Seq<u8> {
    s.push(0u8)
}

/// True when `s` is a well-formed C string: a NUL byte at the end and nowhere else.
pub open spec fn is_c_string(s: Seq<u8>) -> bool {
    &&& s.len() > 0
    &&& s.last() == 0u8
    &&& no_nul(s.drop_last())
}

/// True when `s` ends with a NUL byte, so that C finds where the string ends.
pub open spec fn nul_terminated(s: Seq<u8>) -> bool {
    s.len() > 0 && s.last() == 0u8
}

/// Whether `bytes` holds a NUL byte (such bytes cannot become a C string).
pub fn contains_nul(bytes: &[u8]) -> (r: bool)
    ensures
        r == !no_nul(bytes@),
{
    let mut i: usize = 0;
    while i < bytes.len()
        invariant
            i <= bytes@.len(),
            no_nul(bytes@.take(i as int)),
        decreases bytes@.len() - i,
    {
        if bytes[i] == 0 {
            assert(bytes@[i as int] == 0u8);
            return true;
        }
        assert(bytes@.take(i as int + 1) =~= bytes@.take(i as int).push(bytes@[i as int]));
        i = i + 1;
    }
    assert(bytes@.take(i as int) =~= bytes@);
    false
}

/// The NUL-terminated copy of `bytes`.
pub fn c_string(bytes: &[u8]) -> (r: Vec<u8>)
    requires
        no_nul(bytes@),
    ensures
        r@ == c_path(bytes@),
        is_c_string(r@),
{
    let mut r: Vec<u8> = Vec::new();
    let mut i: usize = 0;
    while i < bytes.len()
        invariant
            i <= bytes@.len(),
            r@ == bytes@.take(i as int),
        decreases bytes@.len() - i,
    {
        r.push(bytes[i]);
        assert(bytes@.take(i as int + 1) =~= bytes@.take(i as int).push(bytes@[i as int]));
        i = i + 1;
    }
    assert(bytes@.take(i as int) =~= bytes@);
    r.push(0u8);
    assert(r@.drop_last() =~= bytes@);
    r
}

/// The bytes that C reads from `s` as a string: everything before the first NUL.
pub open spec fn c_contents(s: Seq<u8>) -> Seq<u8>
    decreases s.len(),
{
    if s.len() == 0 || s[0] == 0u8 {
        Seq::empty()
    } else {
        seq![s[0]] + c_contents(s.drop_first())
    }
}

/// C reads back from the NUL-terminated form of a NUL-free byte string exactly
/// that byte string: a path handed to sophia is the path the caller named.
pub proof fn lemma_c_path_reads_back(s: Seq<u8>)
    requires
        no_nul(s),
    ensures
        c_contents(c_path(s)) == s,
    decreases s.len(),
{
    if s.len() == 0 {
        assert(c_path(s) =~= seq![0u8]);
    } else {
        assert(c_path(s)[0] == s[0]);
        assert(s.contains(s[0]) ==> s[0] != 0u8);
        assert(s.contains(s[0]));
        assert(c_path(s).drop_first() =~= c_path(s.drop_first()));
        assert forall|x: u8| s.drop_first().contains(x) implies s.contains(x) by {
            let k = choose|k: int| 0 <= k < s.drop_first().len() && s.drop_first()[k] == x;
            assert(s[k + 1] == x);
        }
        lemma_c_path_reads_back(s.drop_first());
        assert(s =~= seq![s[0]] + s.drop_first());
    }
}

/// A call into the sophia C library, with its arguments as plain values.
/// Paths are NUL-terminated byte strings; `data` is handed over with its length.
#[derive(Debug, PartialEq, Eq)]
pub enum Call {
    /// `sp_env()`: create an environment.
    NewEnv,
    /// `sp_object(parent)`: create an object of a database.
    NewObject { parent: Voidptr },
    /// `sp_open(target)`.
    Open { target: Voidptr },
    /// `sp_destroy(target)`.
    Destroy { target: Voidptr },
    /// `sp_setstring(target, path, data, data.len())`.
    SetString { target: Voidptr, path: Vec<u8>, data: Vec<u8> },
    /// `sp_setint(target, path, value)`.
    SetInt { target: Voidptr, path: Vec<u8>, value: i64 },
    /// `sp_getobject(target, path)`.
    GetObject { target: Voidptr, path: Vec<u8> },
    /// `sp_getstring(target, path, &size)`.
    GetString { target: Voidptr, path: Vec<u8> },
    /// `sp_set(backend, object)`: store an object; sophia takes it over.
    Store { backend: Voidptr, object: Voidptr },
    /// `sp_get(backend, pattern)`: look up; a null pattern steps a cursor.
    Fetch { backend: Voidptr, pattern: Voidptr },
    /// `sp_cursor(backend, pattern)`.
    OpenCursor { backend: Voidptr, pattern: Voidptr },
    /// `sp_begin(env)`.
    Begin { env: Voidptr },
    /// `sp_commit(tx)`.
    Commit { tx: Voidptr },
}

/// The mathematical content of a [`Call`].
pub enum CallView {
    NewEnv,
    NewObject { parent: Voidptr },
    Open { target: Voidptr },
    Destroy { target: Voidptr },
    SetString { target: Voidptr, path: Seq<u8>, data: Seq<u8> },
    SetInt { target: Voidptr, path: Seq<u8>, value: i64 },
    GetObject { target: Voidptr, path: Seq<u8> },
    GetString { target: Voidptr, path: Seq<u8> },
    Store { backend: Voidptr, object: Voidptr },
    Fetch { backend: Voidptr, pattern: Voidptr },
    OpenCursor { backend: Voidptr, pattern: Voidptr },
    Begin { env: Voidptr },
    Commit { tx: Voidptr },
}

impl View for Call {
    type V = CallView;

    open spec fn view(&self) -> CallView {
        match self {
            Call::NewEnv => CallView::NewEnv,
            Call::NewObject { parent } => CallView::NewObject { parent: *parent },
            Call::Open { target } => CallView::Open { target: *target },
            Call::Destroy { target } => CallView::Destroy { target: *target },
            Call::SetString { target, path, data } => CallView::SetString {
                target: *target,
                path: path@,
                data: data@,
            },
            Call::SetInt { target, path, value } => CallView::SetInt {
                target: *target,
                path: path@,
                value: *value,
            },
            Call::GetObject { target, path } => CallView::GetObject { target: *target, path: path@ },
            Call::GetString { target, path } => CallView::GetString { target: *target, path: path@ },
            Call::Store { backend, object } => CallView::Store { backend: *backend, object: *object },
            Call::Fetch { backend, pattern } => CallView::Fetch { backend: *backend, pattern: *pattern },
            Call::OpenCursor { backend, pattern } => CallView::OpenCursor {
                backend: *backend,
                pattern: *pattern,
            },
            Call::Begin { env } => CallView::Begin { env: *env },
            Call::Commit { tx } => CallView::Commit { tx: *tx },
        }
    }
}

/// A copy of `bytes`.
pub fn copy_bytes(bytes: &[u8]) -> (r: Vec<u8>)
    ensures
        r@ == bytes@,
{
    let mut r: Vec<u8> = Vec::new();
    let mut i: usize = 0;
    while i < bytes.len()
        invariant
            i <= bytes@.len(),
            r@ == bytes@.take(i as int),
        decreases bytes@.len() - i,
    {
        r.push(bytes[i]);
        assert(bytes@.take(i as int + 1) =~= bytes@.take(i as int).push(bytes@[i as int]));
        i = i + 1;
    }
    assert(bytes@.take(i as int) =~= bytes@);
    r
}

/// The call that sets the string attribute at C path `b` of object `a` to `c`.
pub open spec fn set_string_call(a: Voidptr, b: Seq<u8>, c: Seq<u8>) -> CallView {
    CallView::SetString { target: a, path: b, data: c }
}

/// Sets the string attribute at path `b`, which must end with a NUL byte, of
/// object `a` to the bytes `c`, which must not be empty.
pub fn setstring(a: Voidptr, b: &[u8], c: &[u8]) -> (call: Call)
    requires
        nul_terminated(b@),
        c@.len() > 0,
    ensures
        call@ == set_string_call(a, b@, c@),
{
    Call::SetString { target: a, path: copy_bytes(b), data: copy_bytes(c) }
}

/// `key` as the bytes of an attribute name.
pub open spec fn key_name() -> Seq<u8> {
    seq![107u8, 101u8, 121u8]
}

/// `value` as the bytes of an attribute name.
pub open spec fn value_name() -> Seq<u8> {
    seq![118u8, 97u8, 108u8, 117u8, 101u8]
}

/// `val` as the bytes of an attribute name.
pub open spec fn val_name() -> Seq<u8> {
    seq![118u8, 97u8, 108u8]
}

/// `key_b` as the bytes of an attribute name.
pub open spec fn key_b_name() -> Seq<u8> {
    seq![107u8, 101u8, 121u8, 95u8, 98u8]
}

/// `order` as the bytes of an attribute name.
pub open spec fn order_name() -> Seq<u8> {
    seq![111u8, 114u8, 100u8, 101u8, 114u8]
}

/// `prefix` as the bytes of an attribute name.
pub open spec fn prefix_name() -> Seq<u8> {
    seq![112u8, 114u8, 101u8, 102u8, 105u8, 120u8]
}

/// `db` as the bytes of an attribute name.
pub open spec fn db_name() -> Seq<u8> {
    seq![100u8, 98u8]
}

/// `db.`, the prefix of the path under which sophia lists a database.
pub open spec fn db_prefix() -> Seq<u8> {
    seq![100u8, 98u8, 46u8]
}

/// The NUL-terminated bytes of a string literal that holds only ASCII characters.
pub(crate) fn literal_path(s: &str) -> (r: Vec<u8>)
    requires
        vstd::string::is_ascii(s),
        forall|i: int| 0 <= i < s@.len() ==> s@[i] != '\0',
    ensures
        r@ == c_path(s.spec_bytes()),
        s.spec_bytes() =~= Seq::new(s@.len(), |i| s@[i] as u8),
{
    proof {
        vstd::string::is_ascii_spec_bytes(s);
    }
    let b = s.as_bytes();
    assert forall|x: u8| b@.contains(x) implies x != 0u8 by {
        let k = choose|k: int| 0 <= k < b@.len() && b@[k] == x;
        assert(s@[k] != '\0');
    }
    c_string(b)
}

/// Sets the `key` attribute of object `o` to `key`.
pub fn setkey(o: Voidptr, key: &[u8]) -> (call: Call)
    requires
        key@.len() > 0,
    ensures
        call@ == set_string_call(o, c_path(key_name()), key@),
{
    proof {
        reveal_strlit("key");
    }
    let path = literal_path("key");
    assert(path@ =~= c_path(key_name()));
    setstring(o, path.as_slice(), key)
}

/// Sets the `value` attribute of object `o` to `value`.
pub fn setvalue(o: Voidptr, value: &[u8]) -> (call: Call)
    requires
        value@.len() > 0,
    ensures
        call@ == set_string_call(o, c_path(value_name()), value@),
{
    proof {
        reveal_strlit("value");
    }
    let path = literal_path("value");
    assert(path@ =~= c_path(value_name()));
    setstring(o, path.as_slice(), value)
}

/// `setkey(o, key)` makes the call of `setstring(o, b"key\0", key)`, and
/// `setvalue(o, value)` that of `setstring(o, b"value\0", value)`; both paths
/// end with a NUL byte, as `setstring` asks.
pub proof fn lemma_setkey_setvalue_are_setstring(o: Voidptr, data: Seq<u8>)
    ensures
        nul_terminated(seq![107u8, 101u8, 121u8, 0u8]),
        set_string_call(o, c_path(key_name()), data) == set_string_call(o, seq![107u8, 101u8, 121u8, 0u8], data),
        nul_terminated(seq![118u8, 97u8, 108u8, 117u8, 101u8, 0u8]),
        set_string_call(o, c_path(value_name()), data)
            == set_string_call(o, seq![118u8, 97u8, 108u8, 117u8, 101u8, 0u8], data),
{
    assert(c_path(key_name()) =~= seq![107u8, 101u8, 121u8, 0u8]);
    assert(c_path(value_name()) =~= seq![118u8, 97u8, 108u8, 117u8, 101u8, 0u8]);
}

/// The length of a string that sophia answered, from the size it reported:
/// none when the size is negative, which no string can have.
pub fn reply_length(size: i32) -> (r: Option<usize>)
    ensures
        size < 0 ==> r is None,
        size >= 0 ==> r == Some(size as usize),
{
    if size < 0 {
        None
    } else {
        Some(size as usize)
    }
}

/// A set-string call goes to the object it names, with the path it is given,
/// and carries the caller's data unchanged: every byte, and no byte more.
pub proof fn lemma_set_string_call_carries_data(a: Voidptr, b: Seq<u8>, c: Seq<u8>)
    ensures
        set_string_call(a, b, c) matches CallView::SetString { target, path, data } && {
            &&& target == a
            &&& path.len() == b.len()
            &&& forall|i: int| 0 <= i < b.len() ==> path[i] == b[i]
            &&& data.len() == c.len()
            &&& forall|i: int| 0 <= i < c.len() ==> data[i] == c[i]
        },
{
}

/// Set-string calls that differ in object, path or data are different calls:
/// no two data, of whatever lengths, are stored alike.
pub proof fn lemma_set_string_call_injective(
    a1: Voidptr,
    b1: Seq<u8>,
    c1: Seq<u8>,
    a2: Voidptr,
    b2: Seq<u8>,
    c2: Seq<u8>,
)
    requires
        set_string_call(a1, b1, c1) == set_string_call(a2, b2, c2),
    ensures
        a1 == a2,
        b1 == b2,
        c1 == c2,
{
    lemma_set_string_call_carries_data(a1, b1, c1);
    lemma_set_string_call_carries_data(a2, b2, c2);
    assert(b1 =~= b2);
    assert(c1 =~= c2);
}

} // verus!
