//! Tasks: their identifiers, their status, the traits that a task
//! implements, and the state that a task shares with its runs.
use vstd::prelude::*;

use std::collections::hash_map::DefaultHasher;
use std::hash::Hasher;
use std::sync::{Arc, RwLock};

use crate::recurrence::{Recurrence, RecurrenceUnit};
use crate::time::Timestamp;
use vstd::std_specs::hash::DefaultHasherAdditionalSpecFns;
use vstd::utf8::encode_utf8;

verus! {

/// The identifier of a scheduled task.
pub type TaskId = u64;

/// Whether a task runs, is paused, or is cancelled.
#[derive(Debug, Clone, Copy, PartialEq, Eq, Structural)]
pub enum TaskStatus {
    Paused,
    Running,
    Abort,
}

impl Default for TaskStatus {
    fn default() -> (r: TaskStatus)
        ensures
            r == TaskStatus::Running,
    {
        TaskStatus::Running
    }
}

/// The word that displays a status.
pub open spec fn status_text(s: TaskStatus) -> Seq<char> {
    match s {
        TaskStatus::Paused => "inactive"@,
        TaskStatus::Abort => "canceled"@,
        TaskStatus::Running => "active"@,
    }
}

impl TaskStatus {
    /// The word that displays the status.
    pub fn display_text(&self) -> (r: &'static str)
        ensures
            r@ == status_text(*self),
    {
        match self {
            TaskStatus::Paused => "inactive",
            TaskStatus::Abort => "canceled",
            TaskStatus::Running => "active",
        }
    }
}

/// Gives an instance of a task a salt, so that two instances of one task
/// type get two identifiers. The default salt is empty.
pub trait Salt {
    fn salt(&self) -> (r: String)
        default_ensures
            r@ == Seq::<char>::empty(),
    {
        String::new()
    }
}

/// A text that stands for the type `T`: std's `TypeId::of::<T>()`, written
/// with its `Debug` format. std documents a `TypeId` as a globally unique
/// identifier of a type within one build, and promises no format for its
/// text; a name for the text would need a type parameter, so nothing is
/// stated of it.
#[verifier::external_body]
pub fn type_key_of<T: ?Sized + 'static>() -> String {
    format!("{:?}", core::any::TypeId::of::<T>())
}

/// The identifier of a task instance: derived from the task's type, its
/// recurrence and its salt.
pub trait UniqueId: Salt where Self: 'static {
    fn unique_id(&self, recurrence: Recurrence) -> (id: TaskId)
        default_ensures
            exists|type_key: String, salt: String|
                call_ensures(type_key_of::<Self>, (), type_key) && call_ensures(
                    Self::salt,
                    (self,),
                    salt,
                ) && id == #[trigger] spec_task_id(type_key@, recurrence, salt@),
    {
        let type_key = type_key_of::<Self>();
        let salt = self.salt();
        let id = task_id(type_key.as_str(), &recurrence, salt.as_str());
        assert(id == spec_task_id(type_key@, recurrence, salt@));
        assert(call_ensures(type_key_of::<Self>, (), type_key));
        id
    }
}

/// A unit of work that can be scheduled. The default title is empty.
pub trait Task: UniqueId {
    fn title(&self) -> (r: String)
        default_ensures
            r@ == Seq::<char>::empty(),
    {
        String::new()
    }
}

/// A task whose work is a plain call.
pub trait SyncTaskHandler: Task + Send {
    fn run(&self);
}

/// What a scheduler tells of one of its tasks.
#[derive(Debug)]
pub struct TaskDetails {
    pub id: TaskId,
    pub label: String,
    pub recurrence: Recurrence,
    pub status: TaskStatus,
    pub created_at: Timestamp,
}

/// The bytes of `x` in little-endian order, `n` of them.
pub open spec fn le_bytes(x: nat, n: nat) -> Seq<u8>
    decreases n,
{
    if n == 0 {
        Seq::empty()
    } else {
        seq![(x % 256) as u8] + le_bytes(x / 256, (n - 1) as nat)
    }
}

/// The two's complement of `x` as an unsigned 64-bit number.
pub open spec fn twos_complement(x: i64) -> nat {
    if x >= 0 {
        x as nat
    } else {
        (x + 0x1_0000_0000_0000_0000) as nat
    }
}

/// The bytes of an optional 64-bit number: a tag byte, then the number.
pub open spec fn option_bytes(o: Option<u64>) -> Seq<u8> {
    match o {
        None => seq![0u8],
        Some(x) => seq![1u8] + le_bytes(x as nat, 8),
    }
}

/// The bytes of an optional instant: a tag byte, then its seconds and nanoseconds.
pub open spec fn instant_bytes(o: Option<Timestamp>) -> Seq<u8> {
    match o {
        None => seq![0u8],
        Some(t) => seq![1u8] + le_bytes(twos_complement(t.spec_secs()), 8) + le_bytes(
            t.spec_nanos() as nat,
            4,
        ),
    }
}

/// The bytes that stand for a recurrence in its task's identifier.
pub open spec fn recurrence_bytes(r: Recurrence) -> Seq<u8> {
    le_bytes(r.unit@ as nat, 8) + seq![if r.run_after { 1u8 } else { 0u8 }] + option_bytes(r.count)
        + option_bytes(
        match r.limit {
            None => None,
            Some(u) => Some(u@),
        },
    ) + instant_bytes(r.limit_datetime)
}

/// 256 to the power `n`: one more than the largest number that `n` bytes hold.
pub open spec fn byte_bound(n: nat) -> nat
    decreases n,
{
    if n == 0 {
        1
    } else {
        256 * byte_bound((n - 1) as nat)
    }
}

/// `n` little-endian bytes are `n` long.
pub proof fn lemma_le_bytes_len(x: nat, n: nat)
    ensures
        le_bytes(x, n).len() == n,
    decreases n,
{
    if n > 0 {
        lemma_le_bytes_len(x / 256, (n - 1) as nat);
    }
}

/// `n` little-endian bytes determine a number below `256^n`.
pub proof fn lemma_le_bytes_injective(x: nat, y: nat, n: nat)
    requires
        x < byte_bound(n),
        y < byte_bound(n),
        le_bytes(x, n) == le_bytes(y, n),
    ensures
        x == y,
    decreases n,
{
    if n > 0 {
        let b = byte_bound((n - 1) as nat);
        lemma_le_bytes_len(x / 256, (n - 1) as nat);
        lemma_le_bytes_len(y / 256, (n - 1) as nat);
        let lx = le_bytes(x, n);
        let ly = le_bytes(y, n);
        assert(lx[0] == ly[0]);
        assert(lx.drop_first() =~= le_bytes(x / 256, (n - 1) as nat));
        assert(ly.drop_first() =~= le_bytes(y / 256, (n - 1) as nat));
        assert(x / 256 < b) by (nonlinear_arith)
            requires
                x < 256 * b,
        ;
        assert(y / 256 < b) by (nonlinear_arith)
            requires
                y < 256 * b,
        ;
        lemma_le_bytes_injective(x / 256, y / 256, (n - 1) as nat);
        assert(((x % 256) as u8) as int == x % 256);
        assert(((y % 256) as u8) as int == y % 256);
        assert(x == 256 * (x / 256) + x % 256) by (nonlinear_arith);
        assert(y == 256 * (y / 256) + y % 256) by (nonlinear_arith);
    }
}

/// Two joined sequences that agree and whose first parts have one length
/// agree part by part.
pub proof fn lemma_split_equal<A>(a: Seq<A>, b: Seq<A>, c: Seq<A>, d: Seq<A>)
    requires
        a + b == c + d,
        a.len() == c.len(),
    ensures
        a == c,
        b == d,
{
    assert(a =~= (a + b).subrange(0, a.len() as int));
    assert(c =~= (c + d).subrange(0, c.len() as int));
    assert(b =~= (a + b).subrange(a.len() as int, (a + b).len() as int));
    assert(d =~= (c + d).subrange(c.len() as int, (c + d).len() as int));
}

proof fn lemma_bounds()
    ensures
        byte_bound(8) == 0x1_0000_0000_0000_0000,
        byte_bound(4) == 0x1_0000_0000,
{
    reveal_with_fuel(byte_bound, 9);
}

/// The bytes of an optional number, then anything, determine the number and
/// what follows.
proof fn lemma_option_bytes_determine(o1: Option<u64>, o2: Option<u64>, t1: Seq<u8>, t2: Seq<u8>)
    requires
        option_bytes(o1) + t1 == option_bytes(o2) + t2,
    ensures
        o1 == o2,
        t1 == t2,
{
    lemma_bounds();
    let s1 = option_bytes(o1) + t1;
    let s2 = option_bytes(o2) + t2;
    assert(s1[0] == option_bytes(o1)[0]);
    assert(s2[0] == option_bytes(o2)[0]);
    match (o1, o2) {
        (Some(x), Some(y)) => {
            lemma_le_bytes_len(x as nat, 8);
            lemma_le_bytes_len(y as nat, 8);
            assert(option_bytes(o1) + t1 =~= seq![1u8] + (le_bytes(x as nat, 8) + t1));
            assert(option_bytes(o2) + t2 =~= seq![1u8] + (le_bytes(y as nat, 8) + t2));
            lemma_split_equal(seq![1u8], le_bytes(x as nat, 8) + t1, seq![1u8], le_bytes(y as nat, 8) + t2);
            lemma_split_equal(le_bytes(x as nat, 8), t1, le_bytes(y as nat, 8), t2);
            lemma_le_bytes_injective(x as nat, y as nat, 8);
        },
        (None, None) => {
            lemma_split_equal(option_bytes(o1), t1, option_bytes(o2), t2);
        },
        _ => {},
    }
}

/// The bytes of an optional instant determine it.
proof fn lemma_instant_bytes_determine(o1: Option<Timestamp>, o2: Option<Timestamp>)
    requires
        instant_bytes(o1) == instant_bytes(o2),
    ensures
        o1 == o2,
{
    lemma_bounds();
    assert(instant_bytes(o1)[0] == instant_bytes(o2)[0]);
    match (o1, o2) {
        (Some(a), Some(b)) => {
            let (sa, sb) = (twos_complement(a.spec_secs()), twos_complement(b.spec_secs()));
            let (na, nb) = (a.spec_nanos() as nat, b.spec_nanos() as nat);
            lemma_le_bytes_len(sa, 8);
            lemma_le_bytes_len(sb, 8);
            assert(instant_bytes(o1) =~= seq![1u8] + (le_bytes(sa, 8) + le_bytes(na, 4)));
            assert(instant_bytes(o2) =~= seq![1u8] + (le_bytes(sb, 8) + le_bytes(nb, 4)));
            lemma_split_equal(seq![1u8], le_bytes(sa, 8) + le_bytes(na, 4), seq![1u8], le_bytes(sb, 8) + le_bytes(nb, 4));
            lemma_split_equal(le_bytes(sa, 8), le_bytes(na, 4), le_bytes(sb, 8), le_bytes(nb, 4));
            lemma_le_bytes_injective(sa, sb, 8);
            lemma_le_bytes_injective(na, nb, 4);
            assert(a.spec_secs() == b.spec_secs());
            assert(a.spec_nanos() == b.spec_nanos());
            Timestamp::lemma_parts_determine(a, b);
            assert(a == b);
        },
        (Some(a), None) => {
            assert(instant_bytes(o1)[0] == 1u8);
        },
        (None, Some(b)) => {
            assert(instant_bytes(o2)[0] == 1u8);
        },
        (None, None) => {},
    }
}

/// The bytes that stand for a recurrence determine it: two recurrences that
/// differ in any field (span, run-after, count, span limit or last instant)
/// feed the hasher different bytes.
/// The run-after byte of a recurrence.
pub open spec fn run_after_bytes(r: Recurrence) -> Seq<u8> {
    seq![if r.run_after { 1u8 } else { 0u8 }]
}

/// A recurrence's bytes, taken apart from the front.
proof fn lemma_recurrence_bytes_shape(r: Recurrence)
    ensures
        recurrence_bytes(r) == le_bytes(r.unit@ as nat, 8) + (run_after_bytes(r) + (option_bytes(
            r.count,
        ) + (option_bytes(limit_secs(r)) + instant_bytes(r.limit_datetime)))),
        le_bytes(r.unit@ as nat, 8).len() == 8,
{
    lemma_le_bytes_len(r.unit@ as nat, 8);
    assert(recurrence_bytes(r) =~= le_bytes(r.unit@ as nat, 8) + (run_after_bytes(r) + (
    option_bytes(r.count) + (option_bytes(limit_secs(r)) + instant_bytes(r.limit_datetime)))));
}

/// The bytes that stand for a recurrence determine it: two recurrences that
/// differ in any field (span, run-after, count, span limit or last instant)
/// feed the hasher different bytes.
pub proof fn recurrence_bytes_determine(r1: Recurrence, r2: Recurrence)
    requires
        recurrence_bytes(r1) == recurrence_bytes(r2),
    ensures
        r1 == r2,
{
    lemma_bounds();
    lemma_recurrence_bytes_shape(r1);
    lemma_recurrence_bytes_shape(r2);
    let t1 = option_bytes(limit_secs(r1)) + instant_bytes(r1.limit_datetime);
    let t2 = option_bytes(limit_secs(r2)) + instant_bytes(r2.limit_datetime);
    let u1 = le_bytes(r1.unit@ as nat, 8);
    let u2 = le_bytes(r2.unit@ as nat, 8);
    lemma_split_equal(
        u1,
        run_after_bytes(r1) + (option_bytes(r1.count) + t1),
        u2,
        run_after_bytes(r2) + (option_bytes(r2.count) + t2),
    );
    lemma_le_bytes_injective(r1.unit@ as nat, r2.unit@ as nat, 8);
    RecurrenceUnit::lemma_view_determines(r1.unit, r2.unit);
    lemma_split_equal(
        run_after_bytes(r1),
        option_bytes(r1.count) + t1,
        run_after_bytes(r2),
        option_bytes(r2.count) + t2,
    );
    assert(run_after_bytes(r1)[0] == run_after_bytes(r2)[0]);
    lemma_option_bytes_determine(r1.count, r2.count, t1, t2);
    lemma_limits_determine(r1, r2);
}

/// Two tasks of one type and one salt whose recurrences differ feed the
/// hasher different inputs.
pub proof fn distinct_recurrences_feed_distinct_bytes(
    type_key: Seq<char>,
    salt: Seq<char>,
    r1: Recurrence,
    r2: Recurrence,
)
    requires
        r1 != r2,
    ensures
        seq![encode_utf8(type_key), recurrence_bytes(r1), encode_utf8(salt)] != seq![
            encode_utf8(type_key),
            recurrence_bytes(r2),
            encode_utf8(salt),
        ],
{
    let a = seq![encode_utf8(type_key), recurrence_bytes(r1), encode_utf8(salt)];
    let b = seq![encode_utf8(type_key), recurrence_bytes(r2), encode_utf8(salt)];
    if a == b {
        assert(a[1] == b[1]);
        recurrence_bytes_determine(r1, r2);
    }
}

/// The bytes of the span limit and the last instant determine them.
proof fn lemma_limits_determine(r1: Recurrence, r2: Recurrence)
    requires
        option_bytes(limit_secs(r1)) + instant_bytes(r1.limit_datetime) == option_bytes(
            limit_secs(r2),
        ) + instant_bytes(r2.limit_datetime),
    ensures
        r1.limit == r2.limit,
        r1.limit_datetime == r2.limit_datetime,
{
    lemma_option_bytes_determine(
        limit_secs(r1),
        limit_secs(r2),
        instant_bytes(r1.limit_datetime),
        instant_bytes(r2.limit_datetime),
    );
    match (r1.limit, r2.limit) {
        (Some(u1), Some(u2)) => RecurrenceUnit::lemma_view_determines(u1, u2),
        _ => {},
    }
    lemma_instant_bytes_determine(r1.limit_datetime, r2.limit_datetime);
}

/// The span limit of a recurrence, in seconds.
pub open spec fn limit_secs(r: Recurrence) -> Option<u64> {
    match r.limit {
        None => None,
        Some(u) => Some(u@),
    }
}

/// The identifier of the task of the named type with the recurrence and the
/// salt: what the default hasher finishes after it is fed the type name's
/// UTF-8 bytes, the recurrence's bytes, then the salt's UTF-8 bytes.
pub open spec fn spec_task_id(type_key: Seq<char>, r: Recurrence, salt: Seq<char>) -> TaskId {
    DefaultHasher::spec_finish(seq![encode_utf8(type_key), recurrence_bytes(r), encode_utf8(salt)])
}

fn push_le_bytes(v: &mut Vec<u8>, x: u64, n: usize)
    requires
        n <= 8,
    ensures
        final(v)@ == old(v)@ + le_bytes(x as nat, n as nat),
    decreases n,
{
    if n > 0 {
        v.push((x % 256) as u8);
        push_le_bytes(v, x / 256, n - 1);
        assert(final(v)@ =~= old(v)@ + le_bytes(x as nat, n as nat));
    } else {
        assert(final(v)@ =~= old(v)@ + le_bytes(x as nat, n as nat));
    }
}

fn push_option_bytes(v: &mut Vec<u8>, o: Option<u64>)
    ensures
        final(v)@ == old(v)@ + option_bytes(o),
{
    match o {
        None => {
            v.push(0u8);
            assert(final(v)@ =~= old(v)@ + option_bytes(o));
        },
        Some(x) => {
            v.push(1u8);
            push_le_bytes(v, x, 8);
            assert(final(v)@ =~= old(v)@ + option_bytes(o));
        },
    }
}

fn push_instant_bytes(v: &mut Vec<u8>, o: Option<Timestamp>)
    ensures
        final(v)@ == old(v)@ + instant_bytes(o),
{
    match o {
        None => {
            v.push(0u8);
            assert(final(v)@ =~= old(v)@ + instant_bytes(o));
        },
        Some(t) => {
            v.push(1u8);
            let secs = t.secs();
            let bits: u64 = if secs >= 0 {
                secs as u64
            } else {
                u64::MAX - ((-(secs + 1)) as u64)
            };
            assert(bits as nat == twos_complement(secs));
            push_le_bytes(v, bits, 8);
            push_le_bytes(v, t.nanos() as u64, 4);
            assert(final(v)@ =~= old(v)@ + instant_bytes(o));
        },
    }
}

/// The bytes that stand for the recurrence in its task's identifier.
pub fn recurrence_bytes_of(r: &Recurrence) -> (v: Vec<u8>)
    ensures
        v@ == recurrence_bytes(*r),
{
    let mut v: Vec<u8> = Vec::new();
    push_le_bytes(&mut v, r.unit.as_secs(), 8);
    v.push(if r.run_after { 1u8 } else { 0u8 });
    push_option_bytes(&mut v, r.count);
    let limit: Option<u64> = match r.limit {
        None => None,
        Some(u) => Some(u.as_secs()),
    };
    push_option_bytes(&mut v, limit);
    push_instant_bytes(&mut v, r.limit_datetime);
    assert(v@ =~= recurrence_bytes(*r));
    v
}

/// The identifier of the task of the named type with the recurrence and the salt.
pub fn task_id(type_key: &str, recurrence: &Recurrence, salt: &str) -> (id: TaskId)
    ensures
        id == spec_task_id(type_key@, *recurrence, salt@),
{
    let bytes = recurrence_bytes_of(recurrence);
    let mut hasher = DefaultHasher::new();
    hasher.write(type_key.as_bytes());
    hasher.write(bytes.as_slice());
    hasher.write(salt.as_bytes());
    let id = hasher.finish();
    assert(hasher@ =~= seq![encode_utf8(type_key@), recurrence_bytes(*recurrence), encode_utf8(salt@)]);
    id
}

/// A piece of a task's state, shared between the task and its runs.
#[derive(Debug, Clone)]
#[verifier::reject_recursive_types(T)]
pub struct TaskState<T>(Arc<RwLock<T>>);

impl<T> TaskState<T> {
    /// The shared lock that the state holds.
    pub closed spec fn shared(&self) -> Arc<RwLock<T>> {
        self.0
    }

    /// Wraps `data` for sharing.
    pub fn new(data: T) -> (r: TaskState<T>) {
        TaskState(Arc::new(RwLock::new(data)))
    }
}

impl<T> core::ops::Deref for TaskState<T> {
    type Target = Arc<RwLock<T>>;

    fn deref(&self) -> (r: &Arc<RwLock<T>>)
        ensures
            *r == self.shared(),
    {
        &self.0
    }
}

} // verus!
