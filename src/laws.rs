//! Properties of the store stated over the index model, proved once for all
//! inputs.
use vstd::prelude::*;
use crate::command::{Cmd, record_at, value_of};
use crate::error::KvsError;
use crate::store::{
    CommandPos, IndexMap, KvStore, next_generation_of, remove_outcome, replay, step,
    strictly_increasing,
};

verus! {

/// A `Set` of `k` to `v` at bytes `start..end` points `k` at exactly that
/// record, and reading a record that decodes as that `Set` gives back `v`.
pub proof fn law_set_then_get(
    m: IndexMap,
    gen: u64,
    start: u64,
    end: u64,
    k: Seq<char>,
    v: Seq<char>,
    rec: Seq<u8>,
)
    requires
        start <= end,
        record_at(rec) matches Some((Ok(c), _)) && c == Cmd::SetValue(k, v),
    ensures
        step(m, gen, start as nat, Cmd::SetValue(k, v), end as nat) matches Ok(m2) && m2.contains_key(k)
            && m2[k] == (CommandPos { gen, pos: start, len: (end - start) as u64 }),
        value_of(rec) == Ok::<Seq<char>, KvsError>(v),
{
}

/// Two `Set`s of one key leave the key pointing at the second record only.
pub proof fn law_overwrite(
    m: IndexMap,
    gen: u64,
    s1: u64,
    e1: u64,
    s2: u64,
    e2: u64,
    k: Seq<char>,
    v1: Seq<char>,
    v2: Seq<char>,
)
    requires
        s1 <= e1 <= s2 <= e2,
    ensures
        step(m, gen, s1 as nat, Cmd::SetValue(k, v1), e1 as nat) matches Ok(m1) && step(
            m1,
            gen,
            s2 as nat,
            Cmd::SetValue(k, v2),
            e2 as nat,
        ) matches Ok(m2) && m2.contains_key(k) && m2[k] == (CommandPos {
            gen,
            pos: s2,
            len: (e2 - s2) as u64,
        }),
{
}

/// A `Set` then a `Remove` of one key leave the key without a value, and a
/// second `Remove` of it is refused with `KeyNotFound`.
pub proof fn law_delete(m: IndexMap, gen: u64, s1: u64, e1: u64, s2: u64, e2: u64, k: Seq<char>, v: Seq<char>)
    requires
        s1 <= e1 <= s2 <= e2,
    ensures
        step(m, gen, s1 as nat, Cmd::SetValue(k, v), e1 as nat) matches Ok(m1) && step(
            m1,
            gen,
            s2 as nat,
            Cmd::Remove(k),
            e2 as nat,
        ) matches Ok(m2) && !m2.contains_key(k) && remove_outcome(m2, k) == Err::<(), KvsError>(
            KvsError::KeyNotFound,
        ),
{
}

/// A key that no command names never gets a value: a fresh engine has none,
/// and commands on other keys do not give it one.
pub proof fn law_absent(m: IndexMap, gen: u64, start: nat, c: Cmd, end: nat, k: Seq<char>)
    requires
        !m.contains_key(k),
        c.key() != k,
    ensures
        !Map::<Seq<char>, CommandPos>::empty().contains_key(k),
        step(m, gen, start, c, end) matches Ok(m2) ==> !m2.contains_key(k),
{
}

/// The index that a run of commands builds when they are applied as they
/// are written: each entry is a command and the bytes it occupies.
pub open spec fn apply_all(m: IndexMap, gen: u64, ops: Seq<(Cmd, nat, nat)>) -> Result<IndexMap, KvsError>
    decreases ops.len(),
{
    if ops.len() == 0 {
        Ok(m)
    } else {
        match step(m, gen, ops[0].1, ops[0].0, ops[0].2) {
            Ok(m2) => apply_all(m2, gen, ops.drop_first()),
            Err(e) => Err(e),
        }
    }
}

/// The segment `b` holds, from `pos` to its end, exactly the records of
/// `ops`, back to back, each decoding as its command.
pub open spec fn holds_records(b: Seq<u8>, pos: nat, ops: Seq<(Cmd, nat, nat)>) -> bool {
    &&& pos <= b.len()
    &&& record_at(b.subrange(b.len() as int, b.len() as int)) is None
    &&& (ops.len() == 0 ==> pos == b.len())
    &&& (ops.len() > 0 ==> ops[0].1 == pos && ops.last().2 == b.len())
    &&& forall|i: int| 0 <= i < ops.len() - 1 ==> #[trigger] ops[i].2 == ops[i + 1].1
    &&& forall|i: int|
        0 <= i < ops.len() ==> #[trigger] ops[i].1 < ops[i].2 && ops[i].2 <= b.len() && record_at(
            b.subrange(ops[i].1 as int, b.len() as int),
        ) == Some((Ok::<Cmd, KvsError>(ops[i].0), (ops[i].2 - ops[i].1) as nat))
}

/// Replaying a segment that holds the records written by a run of commands
/// rebuilds the very index that applying those commands built.
pub proof fn law_replay_reproduces(m: IndexMap, gen: u64, b: Seq<u8>, pos: nat, ops: Seq<(Cmd, nat, nat)>)
    requires
        holds_records(b, pos, ops),
    ensures
        replay(m, gen, b, pos) == apply_all(m, gen, ops),
    decreases ops.len(),
{
    if ops.len() > 0 {
        assert(record_at(b.subrange(pos as int, b.len() as int)) == Some(
            (Ok::<Cmd, KvsError>(ops[0].0), (ops[0].2 - ops[0].1) as nat),
        ));
        match step(m, gen, ops[0].1, ops[0].0, ops[0].2) {
            Ok(m2) => {
                let rest = ops.drop_first();
                assert forall|i: int| 0 <= i < rest.len() - 1 implies #[trigger] rest[i].2 == rest[i
                    + 1].1 by {
                    assert(ops[i + 1].2 == ops[i + 2].1);
                }
                assert forall|i: int| 0 <= i < rest.len() implies #[trigger] rest[i].1 < rest[i].2
                    && rest[i].2 <= b.len() && record_at(b.subrange(rest[i].1 as int, b.len() as int))
                    == Some((Ok::<Cmd, KvsError>(rest[i].0), (rest[i].2 - rest[i].1) as nat)) by {
                    assert(ops[i + 1].1 < ops[i + 1].2);
                }
                if rest.len() > 0 {
                    assert(ops[0].2 == ops[1].1);
                }
                law_replay_reproduces(m2, gen, b, ops[0].2, rest);
            },
            Err(_) => {},
        }
    }
}

/// The generation opened after an increasing list of existing ones is
/// larger than all of them, so each reopening adds a strictly larger one.
pub proof fn law_generation_increases(s: Seq<u64>)
    requires
        strictly_increasing(s),
    ensures
        next_generation_of(s) matches Some(g) ==> (forall|i: int| 0 <= i < s.len() ==> s[i] < g)
            && strictly_increasing(s.push(g)) && (next_generation_of(s.push(g)) matches Some(h)
            ==> g < h),
{
    if let Some(g) = next_generation_of(s) {
        assert forall|i: int| 0 <= i < s.len() implies s[i] < g by {
            if i < s.len() - 1 {
                assert(s[i] < s[s.len() - 1]);
            }
        }
        assert(s.push(g).last() == g);
    }
}

/// A fresh engine holds no key.
pub proof fn law_fresh_store_is_empty(s: KvStore, k: Seq<char>)
    requires
        s.index() == Map::<Seq<char>, CommandPos>::empty(),
    ensures
        !s.index().contains_key(k),
{
}

} // verus!
