use vstd::prelude::*;

use crate::model::{after_get_or_init, after_init, init_stores, stored};

verus! {

/// One write call on a map: `get_or_init` or `init` on a key, with the value
/// that its initializer yields.
pub enum Call<V> {
    GetOrInit(u64, V),
    Init(u64, V),
}

impl<V> Call<V> {
    pub open spec fn key(self) -> u64 {
        match self {
            Call::GetOrInit(k, _) => k,
            Call::Init(k, _) => k,
        }
    }

    pub open spec fn value(self) -> V {
        match self {
            Call::GetOrInit(_, v) => v,
            Call::Init(_, v) => v,
        }
    }
}

/// The state after one call.
pub open spec fn apply<V>(m: Option<Map<u64, V>>, c: Call<V>) -> Option<Map<u64, V>> {
    match c {
        Call::GetOrInit(k, v) => after_get_or_init(m, k, v),
        Call::Init(k, v) => after_init(m, k, v),
    }
}

/// The state after the calls, made one after another from `m`.
pub open spec fn run<V>(m: Option<Map<u64, V>>, calls: Seq<Call<V>>) -> Option<Map<u64, V>>
    decreases calls.len(),
{
    if calls.len() == 0 {
        m
    } else {
        apply(run(m, calls.drop_last()), calls.last())
    }
}

/// Running the first `i + 1` calls is running the first `i`, then call `i`.
pub proof fn lemma_run_step<V>(m: Option<Map<u64, V>>, calls: Seq<Call<V>>, i: int)
    requires
        0 <= i < calls.len(),
    ensures
        run(m, calls.take(i + 1)) == apply(run(m, calls.take(i)), calls[i]),
{
    assert(calls.take(i + 1).drop_last() =~= calls.take(i));
}

/// A key that no call writes and that had no value has none afterwards, so
/// `get` on it finds nothing.
pub proof fn lemma_unwritten_key_stays_absent<V>(m: Option<Map<u64, V>>, calls: Seq<Call<V>>, k: u64)
    requires
        !stored(m).contains_key(k),
        forall|i: int| 0 <= i < calls.len() ==> (#[trigger] calls[i]).key() != k,
    ensures
        !stored(run(m, calls)).contains_key(k),
    decreases calls.len(),
{
    if calls.len() > 0 {
        lemma_unwritten_key_stays_absent(m, calls.drop_last(), k);
        assert(calls.last() == calls[calls.len() - 1]);
    }
}

/// Once a key has a value, no later call changes or removes it: every later
/// `get` of the key returns that same value.
pub proof fn lemma_value_is_permanent<V>(m: Option<Map<u64, V>>, calls: Seq<Call<V>>, k: u64)
    requires
        stored(m).contains_key(k),
    ensures
        stored(run(m, calls)).contains_key(k),
        stored(run(m, calls))[k] == stored(m)[k],
    decreases calls.len(),
{
    if calls.len() > 0 {
        lemma_value_is_permanent(m, calls.drop_last(), k);
    }
}

/// The value that a `get_or_init` stores is the one every later `get` of
/// that key returns, whatever calls come between.
pub proof fn lemma_initialized_value_is_seen<V>(
    m: Option<Map<u64, V>>,
    k: u64,
    v: V,
    calls: Seq<Call<V>>,
)
    requires
        !stored(m).contains_key(k),
    ensures
        stored(run(after_get_or_init(m, k, v), calls)).contains_key(k),
        stored(run(after_get_or_init(m, k, v), calls))[k] == v,
{
    lemma_value_is_permanent(after_get_or_init(m, k, v), calls, k);
}

/// Of calls `get_or_init(k, ..)` made one after another on a key with no
/// value, only the first runs its initializer and stores; every later one
/// finds the first one's value, which is the value in the end.
pub proof fn lemma_get_or_init_stores_once<V>(m: Option<Map<u64, V>>, k: u64, calls: Seq<Call<V>>)
    requires
        !stored(m).contains_key(k),
        calls.len() > 0,
        forall|i: int| 0 <= i < calls.len() ==> #[trigger] calls[i] == Call::GetOrInit(k, calls[i].value()),
    ensures
        forall|i: int| 0 <= i < calls.len() ==>
            (!stored(#[trigger] run(m, calls.take(i))).contains_key(k)) == (i == 0),
        forall|i: int| 0 < i < calls.len() ==>
            stored(#[trigger] run(m, calls.take(i)))[k] == calls[0].value(),
        stored(run(m, calls))[k] == calls[0].value(),
{
    assert(calls.take(0) =~= Seq::<Call<V>>::empty());
    lemma_run_step(m, calls, 0);
    let first = run(m, calls.take(1));
    assert(stored(first).contains_key(k) && stored(first)[k] == calls[0].value());
    assert forall|i: int| 0 < i <= calls.len() implies
        stored(#[trigger] run(m, calls.take(i))).contains_key(k)
        && stored(run(m, calls.take(i)))[k] == calls[0].value() by {
        lemma_value_is_permanent(first, calls.subrange(1, i), k);
        lemma_run_split(m, calls.take(i), 1);
        assert(calls.take(i).take(1) =~= calls.take(1));
        assert(calls.take(i).subrange(1, i) =~= calls.subrange(1, i));
    }
    assert(calls.take(calls.len() as int) =~= calls);
}

/// What a run of `init` calls leaves: the table exists exactly when it did
/// before, and a key has a value when it had one before or, on a created
/// table, when one of the calls wrote it.
proof fn lemma_init_run_keys<V>(m: Option<Map<u64, V>>, calls: Seq<Call<V>>, i: int)
    requires
        0 <= i <= calls.len(),
        forall|j: int| 0 <= j < calls.len() ==> #[trigger] calls[j] == Call::Init(calls[j].key(), calls[j].value()),
    ensures
        run(m, calls.take(i)) is Some == m is Some,
        forall|x: u64| #[trigger] stored(run(m, calls.take(i))).contains_key(x) == (stored(m).contains_key(x)
            || (m is Some && exists|j: int| 0 <= j < i && (#[trigger] calls[j]).key() == x)),
    decreases i,
{
    if i == 0 {
        assert(calls.take(0) =~= Seq::<Call<V>>::empty());
    } else {
        lemma_init_run_keys(m, calls, i - 1);
        lemma_run_step(m, calls, i - 1);
        let c = calls[i - 1];
        assert(c == Call::Init(c.key(), c.value()));
        assert forall|x: u64| #[trigger] stored(run(m, calls.take(i))).contains_key(x) == (stored(m).contains_key(x)
            || (m is Some && exists|j: int| 0 <= j < i && (#[trigger] calls[j]).key() == x)) by {
            if m is Some && exists|j: int| 0 <= j < i && (#[trigger] calls[j]).key() == x {
                let j = choose|j: int| 0 <= j < i && (#[trigger] calls[j]).key() == x;
                if j < i - 1 {
                    assert(exists|j2: int| 0 <= j2 < i - 1 && (#[trigger] calls[j2]).key() == x);
                }
            }
            if m is Some && exists|j: int| 0 <= j < i - 1 && (#[trigger] calls[j]).key() == x {
                let j = choose|j: int| 0 <= j < i - 1 && (#[trigger] calls[j]).key() == x;
                assert(0 <= j < i && calls[j].key() == x);
            }
        }
    }
}

/// Of `init` calls made one after another, call `i` stores its value exactly
/// when the table exists, the key had no value, and no earlier call was on
/// the same key. So on a created table each absent key is stored by exactly
/// one call, the first on it, and every other call on it returns `false`.
pub proof fn lemma_init_first_call_stores<V>(m: Option<Map<u64, V>>, calls: Seq<Call<V>>)
    requires
        forall|j: int| 0 <= j < calls.len() ==> #[trigger] calls[j] == Call::Init(calls[j].key(), calls[j].value()),
    ensures
        forall|i: int| 0 <= i < calls.len() ==>
            init_stores(#[trigger] run(m, calls.take(i)), calls[i].key()) == (m is Some
                && !stored(m).contains_key(calls[i].key())
                && forall|j: int| 0 <= j < i ==> calls[j].key() != calls[i].key()),
{
    assert forall|i: int| 0 <= i < calls.len() implies
        init_stores(#[trigger] run(m, calls.take(i)), calls[i].key()) == (m is Some
            && !stored(m).contains_key(calls[i].key())
            && forall|j: int| 0 <= j < i ==> calls[j].key() != calls[i].key()) by {
        lemma_init_run_keys(m, calls, i);
        let x = calls[i].key();
        assert(stored(run(m, calls.take(i))).contains_key(x) == (stored(m).contains_key(x)
            || (m is Some && exists|j: int| 0 <= j < i && (#[trigger] calls[j]).key() == x)));
    }
}

/// Running calls from `m` is running the first `j` of them, then the rest.
pub proof fn lemma_run_split<V>(m: Option<Map<u64, V>>, calls: Seq<Call<V>>, j: int)
    requires
        0 <= j <= calls.len(),
    ensures
        run(m, calls) == run(run(m, calls.take(j)), calls.subrange(j, calls.len() as int)),
    decreases calls.len(),
{
    if calls.len() == j {
        assert(calls.take(j) =~= calls);
        assert(calls.subrange(j, calls.len() as int) =~= Seq::<Call<V>>::empty());
    } else {
        lemma_run_split(m, calls.drop_last(), j);
        assert(calls.drop_last().take(j) =~= calls.take(j));
        let rest = calls.subrange(j, calls.len() as int);
        assert(rest.drop_last() =~= calls.drop_last().subrange(j, calls.drop_last().len() as int));
        assert(rest.last() == calls.last());
    }
}

} // verus!
