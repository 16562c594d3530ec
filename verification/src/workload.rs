//! The workload of the benchmark programs: a writer that stores every key
//! `0 .. n` as its own value, and a reader that looks up random keys of that
//! range and checks that each one holds itself.

use vstd::prelude::*;
use vstd::utf8::valid_utf8;

verus! {

/// How many keys the benchmark writes.
pub const N_KEYS: usize = 100_000_000;

/// How many random lookups each reader makes.
pub const REPEAT: usize = 10_000_000;

/// The decimal digits of `n`, in ASCII, most significant first, without leading zeros.
pub open spec fn decimal(n: nat) -> Seq<u8>
    decreases n,
{
    if n < 10 {
        seq![(48 + n) as u8]
    } else {
        decimal(n / 10).push((48 + n % 10) as u8)
    }
}

/// The key that the lookup drawn as `i` reads, out of `n` keys.
pub open spec fn read_key(i: nat, n: nat) -> Seq<u8> {
    decimal(i % n)
}

fn push_decimal(n: usize, out: &mut Vec<u8>)
    ensures
        final(out)@ == old(out)@ + decimal(n as nat),
    decreases n,
{
    if n >= 10 {
        push_decimal(n / 10, out);
    }
    let digit: u8 = (n % 10) as u8;
    out.push(48u8 + digit);
    assert(final(out)@ =~= old(out)@ + decimal(n as nat));
}

/// The decimal form of `n`, as the benchmark writes and reads its keys.
pub fn decimal_key(n: usize) -> (r: Vec<u8>)
    ensures
        r@ == decimal(n as nat),
{
    let mut r: Vec<u8> = Vec::new();
    push_decimal(n, &mut r);
    assert(r@ =~= decimal(n as nat));
    r
}

/// The decimal form of a number has at least one digit and only ASCII digits.
pub proof fn lemma_decimal_digits(n: nat)
    ensures
        decimal(n).len() >= 1,
        forall|k: int| 0 <= k < decimal(n).len() ==> 48 <= #[trigger] decimal(n)[k] <= 57,
    decreases n,
{
    if n >= 10 {
        lemma_decimal_digits(n / 10);
    }
}

/// The decimal form of a number is valid UTF-8 text.
pub proof fn lemma_decimal_utf8(n: nat)
    ensures
        valid_utf8(decimal(n)),
    decreases n,
{
    let d: u8 = (48 + n % 10) as u8;
    let single = seq![d];
    assert(valid_utf8(single)) by {
        reveal_with_fuel(valid_utf8, 2);
        assert(vstd::utf8::pop_first_scalar(single) =~= Seq::<u8>::empty());
    }
    if n >= 10 {
        lemma_decimal_utf8(n / 10);
        vstd::utf8::valid_utf8_concat(decimal(n / 10), single);
        assert(decimal(n / 10) + single =~= decimal(n));
    } else {
        assert(single =~= decimal(n));
    }
}

/// Distinct numbers have distinct decimal forms, so the writer never writes
/// one key twice.
pub proof fn lemma_decimal_injective(a: nat, b: nat)
    requires
        decimal(a) == decimal(b),
    ensures
        a == b,
    decreases a,
{
    lemma_decimal_digits(a / 10);
    lemma_decimal_digits(b / 10);
    if a < 10 && b < 10 {
        assert(decimal(a)[0] == decimal(b)[0]);
        assert(decimal(a)[0] == 48 + a);
        assert(decimal(b)[0] == 48 + b);
    } else if a >= 10 && b >= 10 {
        assert(decimal(a).last() == decimal(b).last());
        assert(0 <= a % 10 < 10 && 0 <= b % 10 < 10);
        assert(decimal(a).last() == 48 + a % 10);
        assert(decimal(b).last() == 48 + b % 10);
        assert(decimal(a).drop_last() =~= decimal(a / 10));
        assert(decimal(b).drop_last() =~= decimal(b / 10));
        lemma_decimal_injective(a / 10, b / 10);
        assert(a == 10 * (a / 10) + a % 10);
        assert(b == 10 * (b / 10) + b % 10);
    } else if a < 10 {
        assert(decimal(a).len() == 1);
        assert(decimal(b).len() == decimal(b / 10).len() + 1);
    } else {
        assert(decimal(b).len() == 1);
        assert(decimal(a).len() == decimal(a / 10).len() + 1);
    }
}

/// What a lookup of `key` that answered `value` shows.
#[derive(Debug, PartialEq, Eq)]
pub enum Verdict {
    /// The value is the key itself.
    Match,
    /// The value is not UTF-8 text, so it is not compared.
    NotText,
    /// The object holds no value.
    NotFound,
    /// The value is text and differs from the key: the store is wrong.
    Mismatch,
}

/// The verdict on a lookup of `key` whose object held `value` (none when it held no value).
pub open spec fn verdict(key: Seq<u8>, value: Option<Seq<u8>>) -> Verdict {
    match value {
        None => Verdict::NotFound,
        Some(v) => if !valid_utf8(v) {
            Verdict::NotText
        } else if v == key {
            Verdict::Match
        } else {
            Verdict::Mismatch
        },
    }
}

/// `std::str::from_utf8`: whether the bytes are valid UTF-8, which the
/// contract takes to be exactly vstd's `valid_utf8`.
#[verifier::external_body]
fn is_utf8(bytes: &[u8]) -> (r: bool)
    ensures
        r == valid_utf8(bytes@),
{
    match std::str::from_utf8(bytes) {
        Ok(_) => true,
        Err(_) => false,
    }
}

/// Whether two byte strings are equal.
pub fn bytes_equal(a: &[u8], b: &[u8]) -> (r: bool)
    ensures
        r == (a@ == b@),
{
    if a.len() != b.len() {
        return false;
    }
    let mut i: usize = 0;
    while i < a.len()
        invariant
            a@.len() == b@.len(),
            i <= a@.len(),
            a@.take(i as int) == b@.take(i as int),
        decreases a@.len() - i,
    {
        if a[i] != b[i] {
            assert(a@[i as int] != b@[i as int]);
            return false;
        }
        assert(a@.take(i as int + 1) =~= a@.take(i as int).push(a@[i as int]));
        assert(b@.take(i as int + 1) =~= b@.take(i as int).push(b@[i as int]));
        i = i + 1;
    }
    assert(a@.take(i as int) =~= a@);
    assert(b@.take(i as int) =~= b@);
    true
}

/// The optional bytes of an optional slice.
pub open spec fn slice_value(value: Option<&[u8]>) -> Option<Seq<u8>> {
    match value {
        None => None,
        Some(v) => Some(v@),
    }
}

/// The verdict on a lookup of `key` whose object held `value`.
pub fn check_value(key: &[u8], value: Option<&[u8]>) -> (r: Verdict)
    ensures
        r == verdict(key@, slice_value(value)),
        r == Verdict::NotFound <==> value is None,
        r == Verdict::Match ==> (value matches Some(v) && v@ == key@),
        (value matches Some(v) && v@ == key@ && valid_utf8(key@)) ==> r == Verdict::Match,
        r == Verdict::NotText <==> (value matches Some(v) && !valid_utf8(v@)),
        r == Verdict::Mismatch <==> (value matches Some(v) && valid_utf8(v@) && v@ != key@),
{
    match value {
        None => Verdict::NotFound,
        Some(v) => {
            if !is_utf8(v) {
                Verdict::NotText
            } else if bytes_equal(v, key) {
                Verdict::Match
            } else {
                Verdict::Mismatch
            }
        },
    }
}

/// The writer's next step: store a key with its value, or stop.
pub enum WriteAction {
    Store { key: Vec<u8>, value: Vec<u8> },
    Finished,
}

/// The mathematical content of a [`WriteAction`].
pub enum WriteStep {
    Store(Seq<u8>, Seq<u8>),
    Finished,
}

impl View for WriteAction {
    type V = WriteStep;

    open spec fn view(&self) -> WriteStep {
        match self {
            WriteAction::Store { key, value } => WriteStep::Store(key@, value@),
            WriteAction::Finished => WriteStep::Finished,
        }
    }
}

/// The writer, which stores the keys `0 .. total` in turn, each as its own value.
pub struct KeyWriter {
    next: usize,
    total: usize,
}

/// The state of a writer: the index of the next key, and how many it stores.
pub struct WriterView {
    pub next: nat,
    pub total: nat,
}

impl View for KeyWriter {
    type V = WriterView;

    closed spec fn view(&self) -> WriterView {
        WriterView { next: self.next as nat, total: self.total as nat }
    }
}

/// One step of the writer: while keys are left, it stores the next one with
/// the key itself as the value and moves on; then it stops, and stays stopped.
pub open spec fn write_step(w: WriterView) -> (WriterView, WriteStep) {
    if w.next < w.total {
        (WriterView { next: w.next + 1, total: w.total }, WriteStep::Store(decimal(w.next), decimal(w.next)))
    } else {
        (w, WriteStep::Finished)
    }
}

/// The actions of `k` steps of the writer from state `w`.
pub open spec fn write_run(w: WriterView, k: nat) -> Seq<WriteStep>
    decreases k,
{
    if k == 0 {
        Seq::empty()
    } else {
        seq![write_step(w).1] + write_run(write_step(w).0, (k - 1) as nat)
    }
}

impl KeyWriter {
    /// A writer of the keys `0 .. total`.
    pub fn new(total: usize) -> (w: KeyWriter)
        ensures
            w@ == (WriterView { next: 0, total: total as nat }),
    {
        KeyWriter { next: 0, total }
    }
}

/// The writer's next step (see [`write_step`]).
pub fn write_keys(writer: &mut KeyWriter) -> (a: WriteAction)
    ensures
        (final(writer)@, a@) == write_step(old(writer)@),
{
    if writer.next >= writer.total {
        return WriteAction::Finished;
    }
    let key = decimal_key(writer.next);
    let value = decimal_key(writer.next);
    writer.next = writer.next + 1;
    WriteAction::Store { key, value }
}

/// A writer run from its start stores the keys `0 .. total` in order, each
/// exactly once and each as its own value, and then finishes.
pub proof fn lemma_writer_run(total: nat)
    ensures
        write_run(WriterView { next: 0, total }, total + 1) == Seq::new(
            total,
            |j: int| WriteStep::Store(decimal(j as nat), decimal(j as nat)),
        ).push(WriteStep::Finished),
{
    lemma_writer_run_from(0, total);
}

proof fn lemma_writer_run_from(next: nat, total: nat)
    requires
        next <= total,
    ensures
        write_run(WriterView { next, total }, (total - next + 1) as nat) == Seq::new(
            (total - next) as nat,
            |j: int| WriteStep::Store(decimal((next + j) as nat), decimal((next + j) as nat)),
        ).push(WriteStep::Finished),
    decreases total - next,
{
    let w = WriterView { next, total };
    let expected = Seq::new(
        (total - next) as nat,
        |j: int| WriteStep::Store(decimal((next + j) as nat), decimal((next + j) as nat)),
    ).push(WriteStep::Finished);
    if next == total {
        assert(write_run(w, 0) =~= Seq::<WriteStep>::empty());
        assert(write_run(w, 1) =~= expected);
    } else {
        lemma_writer_run_from(next + 1, total);
        let rest = Seq::new(
            (total - (next + 1)) as nat,
            |j: int| WriteStep::Store(decimal((next + 1 + j) as nat), decimal((next + 1 + j) as nat)),
        ).push(WriteStep::Finished);
        assert(write_run(w, (total - next + 1) as nat) == seq![
            WriteStep::Store(decimal(next), decimal(next)),
        ] + rest);
        assert(seq![WriteStep::Store(decimal(next), decimal(next))] + rest =~= expected);
    }
}

/// `rand::random::<usize>()`: a number drawn from the thread's random number
/// generator. Nothing is stated of it: any `usize` may come back.
#[verifier::external_body]
fn random_index() -> usize {
    rand::random::<usize>()
}

/// The key that the lookup drawn as `i` reads, out of `n_keys` keys.
pub fn key_for_draw(i: usize, n_keys: usize) -> (r: Vec<u8>)
    requires
        n_keys > 0,
    ensures
        r@ == read_key(i as nat, n_keys as nat),
{
    decimal_key(i % n_keys)
}

/// What happened since the reader's last step.
pub enum ReadEvent {
    /// Nothing to report: the reader asked for no lookup.
    Ready,
    /// The answer to the lookup the reader asked for: none when the store
    /// found no object, else the object's value, when it held one.
    Fetched(Option<Option<Vec<u8>>>),
}

/// The optional value of an answered lookup, as bytes.
pub open spec fn answer_value(v: Option<Vec<u8>>) -> Option<Seq<u8>> {
    match v {
        None => None,
        Some(b) => Some(b@),
    }
}

/// The answer that an event carries, as bytes (none for [`ReadEvent::Ready`]).
pub open spec fn event_answer(e: ReadEvent) -> Option<Option<Seq<u8>>> {
    match e {
        ReadEvent::Ready => None,
        ReadEvent::Fetched(None) => None,
        ReadEvent::Fetched(Some(v)) => Some(answer_value(v)),
    }
}

/// The reader's next step.
pub enum ReadAction {
    /// Look the key up, and report the answer.
    Lookup(Vec<u8>),
    /// The lookup found an object, with this verdict.
    Checked(Verdict),
    /// The lookup found no object at all.
    NoResult,
    /// All lookups are done.
    Finished,
}

/// The mathematical content of a [`ReadAction`].
pub enum ReadStep {
    Lookup(Seq<u8>),
    Checked(Verdict),
    NoResult,
    Finished,
}

impl View for ReadAction {
    type V = ReadStep;

    open spec fn view(&self) -> ReadStep {
        match self {
            ReadAction::Lookup(k) => ReadStep::Lookup(k@),
            ReadAction::Checked(v) => ReadStep::Checked(*v),
            ReadAction::NoResult => ReadStep::NoResult,
            ReadAction::Finished => ReadStep::Finished,
        }
    }
}

/// The reader, which looks up `repeat` random keys out of `0 .. n_keys`.
pub struct KeyReader {
    n_keys: usize,
    repeat: usize,
    done: usize,
    pending: Option<Vec<u8>>,
}

/// The state of a reader: how many keys it chooses from, how many lookups it
/// makes, how many are answered, and the key of the lookup awaiting its answer.
pub struct ReaderView {
    pub n_keys: nat,
    pub repeat: nat,
    pub done: nat,
    pub pending: Option<Seq<u8>>,
}

impl View for KeyReader {
    type V = ReaderView;

    closed spec fn view(&self) -> ReaderView {
        ReaderView {
            n_keys: self.n_keys as nat,
            repeat: self.repeat as nat,
            done: self.done as nat,
            pending: match self.pending {
                None => None,
                Some(k) => Some(k@),
            },
        }
    }
}

/// The reader's invariant: there is a key to choose, a lookup is pending only
/// while lookups are left to make, and a pending key is one a draw can give.
pub open spec fn reader_ok(r: ReaderView) -> bool {
    &&& r.n_keys > 0
    &&& r.done <= r.repeat
    &&& r.pending is Some ==> r.done < r.repeat
    &&& r.pending matches Some(k) ==> exists|i: nat| k == #[trigger] read_key(i, r.n_keys)
}

/// One step of the reader, given the answer to its pending lookup and the
/// number it would draw. With no lookup pending, it stops after `repeat`
/// lookups, and otherwise looks up the key `draw % n_keys`. With a lookup
/// pending, it counts it as done and reports the answer: no object at all, or
/// the verdict on the object's value.
pub open spec fn read_step(r: ReaderView, answer: Option<Option<Seq<u8>>>, draw: nat) -> (ReaderView, ReadStep) {
    match r.pending {
        None => if r.done >= r.repeat {
            (r, ReadStep::Finished)
        } else {
            let k = read_key(draw, r.n_keys);
            (ReaderView { pending: Some(k), ..r }, ReadStep::Lookup(k))
        },
        Some(key) => {
            let after = ReaderView { done: r.done + 1, pending: None, ..r };
            match answer {
                None => (after, ReadStep::NoResult),
                Some(v) => (after, ReadStep::Checked(verdict(key, v))),
            }
        },
    }
}

/// The actions of a reader from an idle state `r`, where the draws are
/// `draws` in turn and each lookup of a key `k` is answered `store(k)`; after
/// the draws it takes one more step.
pub open spec fn read_run(
    r: ReaderView,
    store: spec_fn(Seq<u8>) -> Option<Option<Seq<u8>>>,
    draws: Seq<nat>,
) -> Seq<ReadStep>
    decreases draws.len(),
{
    if draws.len() == 0 {
        seq![read_step(r, None, 0).1]
    } else {
        let (r1, a1) = read_step(r, None, draws[0]);
        match a1 {
            ReadStep::Lookup(k) => {
                let (r2, a2) = read_step(r1, store(k), 0);
                seq![a1, a2] + read_run(r2, store, draws.drop_first())
            },
            _ => seq![a1],
        }
    }
}

impl KeyReader {
    /// A reader that makes `repeat` lookups among `n_keys` keys.
    pub fn new(repeat: usize, n_keys: usize) -> (r: KeyReader)
        requires
            n_keys > 0,
        ensures
            r@ == (ReaderView { n_keys: n_keys as nat, repeat: repeat as nat, done: 0, pending: None }),
            reader_ok(r@),
    {
        KeyReader { n_keys, repeat, done: 0, pending: None }
    }

    /// Whether the reader awaits the answer to a lookup.
    pub fn awaits_answer(&self) -> (r: bool)
        ensures
            r == self@.pending is Some,
    {
        self.pending.is_some()
    }
}

/// The reader's lookup for the number `i` that was drawn: the key `i % n_keys`,
/// which becomes the pending key.
pub fn lookup_drawn(reader: &mut KeyReader, i: usize) -> (key: Vec<u8>)
    requires
        reader_ok(old(reader)@),
        old(reader)@.pending is None,
        old(reader)@.done < old(reader)@.repeat,
    ensures
        reader_ok(final(reader)@),
        (final(reader)@, ReadStep::Lookup(key@)) == read_step(old(reader)@, None, i as nat),
{
    let key = key_for_draw(i, reader.n_keys);
    let lookup = copy_key(&key);
    reader.pending = Some(key);
    proof {
        assert(lookup@ == read_key(i as nat, final(reader)@.n_keys));
    }
    lookup
}

/// The reader's next step (see [`read_step`]). When a lookup is due, the
/// number is drawn at random, so of the key only this is known: it is the key
/// of some draw. When the answer is the pending key itself, the verdict is `Match`.
pub fn read_keys(reader: &mut KeyReader, event: ReadEvent) -> (a: ReadAction)
    requires
        reader_ok(old(reader)@),
        old(reader)@.pending is None <==> event is Ready,
    ensures
        reader_ok(final(reader)@),
        exists|i: usize| (final(reader)@, a@) == #[trigger] read_step(old(reader)@, event_answer(event), i as nat),
        old(reader)@.pending matches Some(key) && event_answer(event) == Some(Some(key))
            ==> a@ == ReadStep::Checked(Verdict::Match),
{
    let ghost ans = event_answer(event);
    let ghost start = reader@;
    match event {
        ReadEvent::Ready => {
            if reader.done >= reader.repeat {
                let a = ReadAction::Finished;
                assert((reader@, a@) == read_step(start, ans, 0));
                return a;
            }
            let i = random_index();
            let key = lookup_drawn(reader, i);
            let a = ReadAction::Lookup(key);
            assert((reader@, a@) == read_step(start, ans, i as nat));
            a
        },
        ReadEvent::Fetched(answer) => {
            let ghost n = reader@.n_keys;
            let key = match reader.pending.take() {
                Some(k) => k,
                None => Vec::new(),
            };
            proof {
                let i = choose|i: nat| key@ == #[trigger] read_key(i, n);
                lemma_decimal_utf8(i % n);
            }
            reader.done = reader.done + 1;
            let a = match answer {
                None => ReadAction::NoResult,
                Some(v) => {
                    let verdict = match &v {
                        None => check_value(key.as_slice(), None),
                        Some(bytes) => check_value(key.as_slice(), Some(bytes.as_slice())),
                    };
                    ReadAction::Checked(verdict)
                },
            };
            assert((reader@, a@) == read_step(start, ans, 0));
            a
        },
    }
}

fn copy_key(key: &Vec<u8>) -> (r: Vec<u8>)
    ensures
        r@ == key@,
{
    crate::call::copy_bytes(key.as_slice())
}

/// Every key that the reader looks up is one that the writer of the same
/// `n` keys stores, at index `i % n`, with the key itself as its value; so
/// against a store that the writer filled, every lookup's verdict is `Match`.
pub proof fn lemma_reads_find_written_keys(i: nat, n: nat)
    requires
        n > 0,
    ensures
        i % n < n,
        read_key(i, n) == decimal(i % n),
        verdict(read_key(i, n), Some(decimal(i % n))) == Verdict::Match,
{
    lemma_decimal_utf8(i % n);
}

/// True when `store` answers the lookup of each key that a writer of `n`
/// keys stores with an object whose value is that key.
pub open spec fn filled_by_writer(store: spec_fn(Seq<u8>) -> Option<Option<Seq<u8>>>, n: nat) -> bool {
    forall|j: nat| j < n ==> #[trigger] store(decimal(j)) == Some(Some(decimal(j)))
}

/// A reader run from its start against a store that the writer of the same
/// `n` keys filled, with draws `r_0 .. r_(repeat-1)`, makes exactly `repeat`
/// lookups, the `j`-th of the key `r_j % n`, finds each key holding itself
/// (verdict `Match`), and then finishes.
pub proof fn lemma_reader_run(
    n: nat,
    repeat: nat,
    store: spec_fn(Seq<u8>) -> Option<Option<Seq<u8>>>,
    draws: Seq<nat>,
)
    requires
        n > 0,
        draws.len() == repeat,
        filled_by_writer(store, n),
    ensures
        ({
            let run = read_run(ReaderView { n_keys: n, repeat, done: 0, pending: None }, store, draws);
            &&& run.len() == 2 * repeat + 1
            &&& forall|j: int| 0 <= j < repeat ==> run[2 * j] == ReadStep::Lookup(read_key(#[trigger] draws[j], n))
            &&& forall|j: int| 0 <= j < repeat ==> #[trigger] run[2 * j + 1] == ReadStep::Checked(Verdict::Match)
            &&& run[2 * repeat as int] == ReadStep::Finished
        }),
{
    lemma_reader_run_from(n, repeat, 0, store, draws);
}

proof fn lemma_reader_run_from(
    n: nat,
    repeat: nat,
    done: nat,
    store: spec_fn(Seq<u8>) -> Option<Option<Seq<u8>>>,
    draws: Seq<nat>,
)
    requires
        n > 0,
        done <= repeat,
        draws.len() == repeat - done,
        filled_by_writer(store, n),
    ensures
        ({
            let run = read_run(ReaderView { n_keys: n, repeat, done, pending: None }, store, draws);
            &&& run.len() == 2 * draws.len() + 1
            &&& forall|j: int| 0 <= j < draws.len() ==> run[2 * j] == ReadStep::Lookup(read_key(#[trigger] draws[j], n))
            &&& forall|j: int| 0 <= j < draws.len() ==> #[trigger] run[2 * j + 1] == ReadStep::Checked(Verdict::Match)
            &&& run[2 * draws.len() as int] == ReadStep::Finished
        }),
    decreases draws.len(),
{
    let r = ReaderView { n_keys: n, repeat, done, pending: None };
    let run = read_run(r, store, draws);
    if draws.len() == 0 {
        assert(run =~= seq![ReadStep::Finished]);
    } else {
        let k = read_key(draws[0], n);
        let r1 = ReaderView { pending: Some(k), ..r };
        lemma_reads_find_written_keys(draws[0], n);
        assert(store(decimal(draws[0] % n)) == Some(Some(decimal(draws[0] % n))));
        let r2 = ReaderView { n_keys: n, repeat, done: done + 1, pending: None };
        assert(read_step(r1, store(k), 0) == (r2, ReadStep::Checked(Verdict::Match)));
        let rest = read_run(r2, store, draws.drop_first());
        lemma_reader_run_from(n, repeat, done + 1, store, draws.drop_first());
        assert(run == seq![ReadStep::Lookup(k), ReadStep::Checked(Verdict::Match)] + rest);
        assert forall|j: int| 0 <= j < draws.len() implies run[2 * j] == ReadStep::Lookup(read_key(#[trigger] draws[j], n)) by {
            if j > 0 {
                assert(run[2 * j] == rest[2 * (j - 1)]);
                assert(draws.drop_first()[j - 1] == draws[j]);
            }
        }
        assert forall|j: int| 0 <= j < draws.len() implies #[trigger] run[2 * j + 1] == ReadStep::Checked(Verdict::Match) by {
            if j > 0 {
                assert(run[2 * j + 1] == rest[2 * (j - 1) + 1]);
            }
        }
    }
}

/// A lookup's verdict is `Match` exactly when the value is, byte for byte and
/// of the same length, the key (which then is text); a text value that
/// differs in any way, even one that only starts with the key, is a `Mismatch`;
/// a value that is not text is never compared; a missing value is `NotFound`.
pub proof fn lemma_verdict_compares_whole_value(k: Seq<u8>, v: Seq<u8>)
    ensures
        verdict(k, Some(v)) == Verdict::Match <==> (v == k && valid_utf8(k)),
        valid_utf8(v) && v != k ==> verdict(k, Some(v)) == Verdict::Mismatch,
        valid_utf8(v) && v.len() > k.len() && v.take(k.len() as int) == k
            ==> verdict(k, Some(v)) == Verdict::Mismatch,
        !valid_utf8(v) ==> verdict(k, Some(v)) == Verdict::NotText,
        verdict(k, None) == Verdict::NotFound,
{
    if v.len() > k.len() {
        assert(v != k);
    }
}

/// The number that a decimal form denotes, read most significant digit first.
pub open spec fn decimal_value(s: Seq<u8>) -> nat
    decreases s.len(),
{
    if s.len() == 0 {
        0
    } else {
        10 * decimal_value(s.drop_last()) + (s.last() - 48) as nat
    }
}

/// The decimal form of a number reads back as that number, and has no
/// leading zero: the keys are the ordinary decimal names of their indices.
pub proof fn lemma_decimal_reads_back(n: nat)
    ensures
        decimal_value(decimal(n)) == n,
        decimal(n)[0] == 48u8 ==> n == 0,
    decreases n,
{
    if n >= 10 {
        lemma_decimal_reads_back(n / 10);
        lemma_decimal_digits(n / 10);
        assert(decimal(n).drop_last() =~= decimal(n / 10));
        assert(decimal(n)[0] == decimal(n / 10)[0]);
        assert(0 <= n % 10 < 10);
        assert(decimal(n).last() == 48 + n % 10);
        assert(n == 10 * (n / 10) + n % 10);
        assert(decimal_value(decimal(n)) == 10 * decimal_value(decimal(n / 10)) + n % 10);
    } else {
        assert(decimal(n).drop_last() =~= Seq::<u8>::empty());
        assert(decimal(n).last() == 48 + n);
        assert(decimal_value(Seq::<u8>::empty()) == 0);
    }
}

/// The key that the lookup drawn as `i` reads names the index `i % n`, one of
/// the indices `0 .. n` that the writer stores.
pub proof fn lemma_read_key_names_draw(i: nat, n: nat)
    requires
        n > 0,
    ensures
        decimal_value(read_key(i, n)) == i % n,
        decimal_value(read_key(i, n)) < n,
{
    lemma_decimal_reads_back(i % n);
}

} // verus!
