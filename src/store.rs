//! The store's engine: the index from keys to record locations, its
//! rebuilding by replay of segment bytes, and the updates that follow each
//! durable append. Opening, appending and reading files is left to the
//! caller, which hands the engine the bytes and lengths involved.
use vstd::prelude::*;
use vstd::hash_map::StringHashMap;
use crate::command::{Cmd, Command, decode_at, record_at};
use crate::error::KvsError;
use crate::filename::{generation_of, generation_of_name};

verus! {

/// Where a `Set` record lies: its segment's generation, its first byte's
/// offset, and its length in bytes.
#[derive(Debug, Clone, Copy, PartialEq, Eq, Structural)]
pub struct CommandPos {
    pub gen: u64,
    pub pos: u64,
    pub len: u64,
}

impl CommandPos {
    /// The location of the bytes `start..end` of generation `gen`.
    pub fn from_range(gen: u64, start: u64, end: u64) -> (r: CommandPos)
        requires
            start <= end,
        ensures
            r == (CommandPos { gen, pos: start, len: (end - start) as u64 }),
    {
        CommandPos { gen, pos: start, len: end - start }
    }
}

/// The index: each live key and the location of its latest `Set`.
pub type IndexMap = Map<Seq<char>, CommandPos>;

/// One command of generation `gen` at bytes `start..end`, applied to the
/// index: a `Set` points the key at the record, a `Remove` deletes a key
/// that must be present.
pub open spec fn step(m: IndexMap, gen: u64, start: nat, c: Cmd, end: nat) -> Result<
    IndexMap,
    KvsError,
> {
    match c {
        Cmd::SetValue(k, _) => Ok(
            m.insert(k, CommandPos { gen, pos: start as u64, len: (end - start) as u64 }),
        ),
        Cmd::Remove(k) => if m.contains_key(k) {
            Ok(m.remove(k))
        } else {
            Err(KvsError::ReplayInconsistency)
        },
    }
}

/// The index after replaying the records of segment `b` of generation
/// `gen` from offset `pos` on.
pub open spec fn replay(m: IndexMap, gen: u64, b: Seq<u8>, pos: nat) -> Result<IndexMap, KvsError>
    decreases b.len() - pos,
{
    if pos > b.len() {
        Ok(m)
    } else {
        match record_at(b.subrange(pos as int, b.len() as int)) {
            None => Ok(m),
            Some((Err(e), _)) => Err(e),
            Some((Ok(c), n)) => if n == 0 || pos + n > b.len() {
                Err(KvsError::CorruptLog)
            } else {
                match step(m, gen, pos, c, pos + n) {
                    Ok(m2) => replay(m2, gen, b, pos + n),
                    Err(e) => Err(e),
                }
            },
        }
    }
}

/// Whether a `Remove` of `k` may be written to a store with index `m`.
pub open spec fn remove_outcome(m: IndexMap, k: Seq<char>) -> Result<(), KvsError> {
    if m.contains_key(k) {
        Ok(())
    } else {
        Err(KvsError::KeyNotFound)
    }
}

/// Generations named by the file names `names`.
pub open spec fn named_generations(names: Seq<Seq<char>>) -> Set<u64> {
    Set::new(|g: u64| exists|i: int| 0 <= i < names.len() && generation_of(names[i]) == Some(g))
}

pub open spec fn strictly_increasing(s: Seq<u64>) -> bool {
    forall|i: int, j: int| 0 <= i < j < s.len() ==> s[i] < s[j]
}

/// The generation that follows those of the increasing list `s`: one past
/// the largest, or `1` when there is none; `None` when the largest is the
/// last `u64`.
pub open spec fn next_generation_of(s: Seq<u64>) -> Option<u64> {
    if s.len() == 0 {
        Some(1)
    } else if s.last() == u64::MAX {
        None
    } else {
        Some((s.last() + 1) as u64)
    }
}

/// The generations named by segment file names, ascending and without
/// repeats. Names that are not segment names are passed over.
pub fn sorted_gen_list(names: &Vec<String>) -> (r: Vec<u64>)
    ensures
        strictly_increasing(r@),
        r@.to_set() == named_generations(names@.map_values(|s: String| s@)),
{
    let ghost views = names@.map_values(|s: String| s@);
    let mut out: Vec<u64> = Vec::new();
    let mut k: usize = 0;
    while k < names.len()
        invariant
            k <= names@.len(),
            views == names@.map_values(|s: String| s@),
            strictly_increasing(out@),
            forall|g: u64|
                out@.contains(g) <==> exists|i: int| 0 <= i < k && generation_of(views[i]) == Some(g),
        decreases names@.len() - k,
    {
        let found = generation_of_name(names[k].as_str());
        assert(views[k as int] == names@[k as int]@);
        let ghost old_out = out@;
        if let Some(g) = found {
            let mut i: usize = 0;
            while i < out.len() && out[i] < g
                invariant
                    i <= out@.len(),
                    strictly_increasing(out@),
                    forall|j: int| 0 <= j < i ==> out@[j] < g,
                decreases out@.len() - i,
            {
                i = i + 1;
            }
            if i == out.len() || out[i] != g {
                let ghost before = out@;
                assert(i < before.len() ==> before[i as int] > g);
                out.insert(i, g);
                assert(out@ == before.insert(i as int, g));
                assert forall|a: int, b: int| 0 <= a < b < out@.len() implies out@[a] < out@[b] by {
                    if b < i {
                        assert(out@[a] == before[a] && out@[b] == before[b]);
                    } else if b == i {
                        assert(out@[a] == before[a] && out@[b] == g);
                    } else if a == i {
                        assert(out@[a] == g && out@[b] == before[b - 1]);
                        assert(before[i as int] <= before[b - 1]);
                    } else if a < i {
                        assert(out@[a] == before[a] && out@[b] == before[b - 1]);
                    } else {
                        assert(out@[a] == before[a - 1] && out@[b] == before[b - 1]);
                    }
                }
                assert forall|x: u64| out@.contains(x) <==> (before.contains(x) || x == g) by {
                    if out@.contains(x) {
                        let j = choose|j: int| 0 <= j < out@.len() && out@[j] == x;
                        if j < i {
                            assert(before[j] == x);
                        } else if j > i {
                            assert(before[j - 1] == x);
                        }
                    }
                    if before.contains(x) {
                        let j = choose|j: int| 0 <= j < before.len() && before[j] == x;
                        if j < i {
                            assert(out@[j] == x);
                        } else {
                            assert(out@[j + 1] == x);
                        }
                    }
                    if x == g {
                        assert(out@[i as int] == x);
                    }
                }
            } else {
                assert(out@[i as int] == g);
            }
        }
        assert(forall|x: u64| #[trigger] out@.contains(x) <==> (old_out.contains(x) || found == Some(x)));
        assert(found == generation_of(views[k as int]));
        assert forall|g: u64|
            out@.contains(g) <==> exists|i: int| 0 <= i < k + 1 && generation_of(views[i]) == Some(g)
        by {
            if generation_of(views[k as int]) == Some(g) {
                assert(out@.contains(g));
            }
            if exists|i: int| 0 <= i < k && generation_of(views[i]) == Some(g) {
                assert(old_out.contains(g));
            }
            if out@.contains(g) && !old_out.contains(g) {
                assert(found == generation_of(views[k as int]));
                assert(generation_of(views[k as int]) == Some(g));
            }
        }
        k = k + 1;
    }
    assert forall|g: u64| out@.to_set().contains(g) <==> named_generations(views).contains(g) by {
        assert(out@.to_set().contains(g) == out@.contains(g));
    }
    assert(out@.to_set() =~= named_generations(views));
    out
}

/// The generation to open for appends, after the existing ones `gens`.
pub fn next_generation(gens: &Vec<u64>) -> (r: Option<u64>)
    ensures
        r == next_generation_of(gens@),
{
    if gens.len() == 0 {
        Some(1)
    } else {
        let last = gens[gens.len() - 1];
        if last == u64::MAX {
            None
        } else {
            Some(last + 1)
        }
    }
}

/// The engine of a store: the index, the active generation, and the
/// length of the active segment, which is where the next record goes.
pub struct KvStore {
    index: StringHashMap<CommandPos>,
    current_generation: u64,
    log_pos: u64,
}

impl KvStore {
    /// Each live key and the location of its latest `Set`.
    pub closed spec fn index(&self) -> IndexMap {
        self.index@
    }

    /// The generation that appends go to.
    pub closed spec fn generation(&self) -> u64 {
        self.current_generation
    }

    /// Length of the active segment: the offset of the next record.
    pub closed spec fn position(&self) -> u64 {
        self.log_pos
    }

    /// An engine with an empty index and no active generation yet.
    pub fn new() -> (r: KvStore)
        ensures
            r.index() == Map::<Seq<char>, CommandPos>::empty(),
            r.generation() == 0,
            r.position() == 0,
    {
        KvStore { index: StringHashMap::new(), current_generation: 0, log_pos: 0 }
    }

    /// Replays the segment bytes of generation `gen` into the index.
    pub fn load(&mut self, gen: u64, bytes: &[u8]) -> (r: Result<(), KvsError>)
        ensures
            final(self).generation() == old(self).generation(),
            final(self).position() == old(self).position(),
            match replay(old(self).index(), gen, bytes@, 0) {
                Ok(m) => r is Ok && final(self).index() == m,
                Err(e) => r == Err::<(), KvsError>(e),
            },
    {
        let mut pos: usize = 0;
        loop
            invariant
                pos <= bytes@.len(),
                self.generation() == old(self).generation(),
                self.position() == old(self).position(),
                replay(old(self).index(), gen, bytes@, 0) == replay(self.index(), gen, bytes@, pos as nat),
            decreases bytes@.len() - pos,
        {
            match decode_at(bytes, pos) {
                None => {
                    return Ok(());
                },
                Some((Err(e), _)) => {
                    return Err(e);
                },
                Some((Ok(cmd), end)) => {
                    match cmd {
                        Command::SetValue { key, .. } => {
                            let p = CommandPos::from_range(gen, pos as u64, end as u64);
                            self.index.insert(key, p);
                        },
                        Command::Remove { key } => {
                            if !self.index.contains_key(key.as_str()) {
                                return Err(KvsError::ReplayInconsistency);
                            }
                            self.index.remove(key.as_str());
                        },
                    }
                    pos = end;
                },
            }
        }
    }

    /// Makes `gen` the active generation, whose segment is `log_pos` bytes
    /// long.
    pub fn activate(&mut self, gen: u64, log_pos: u64)
        ensures
            final(self).index() == old(self).index(),
            final(self).generation() == gen,
            final(self).position() == log_pos,
    {
        self.current_generation = gen;
        self.log_pos = log_pos;
    }

    /// Location of the latest `Set` of `key`, or `None` for a key with no
    /// value.
    pub fn lookup(&self, key: &str) -> (r: Option<CommandPos>)
        ensures
            r == (if self.index().contains_key(key@) {
                Some(self.index()[key@])
            } else {
                None::<CommandPos>
            }),
    {
        match self.index.get(key) {
            Some(p) => Some(*p),
            None => None,
        }
    }

    /// Whether a `Remove` of `key` may be written: `KeyNotFound` when the
    /// key has no value.
    pub fn check_remove(&self, key: &str) -> (r: Result<(), KvsError>)
        ensures
            r == remove_outcome(self.index(), key@),
    {
        if self.index.contains_key(key) {
            Ok(())
        } else {
            Err(KvsError::KeyNotFound)
        }
    }

    /// Records that `cmd`, `len` bytes long, was appended to the active
    /// segment and flushed: the index takes the same step that replay takes
    /// for that record.
    pub fn apply(&mut self, cmd: Command, len: u64)
        requires
            old(self).position() + len <= u64::MAX,
            cmd@ is Remove ==> old(self).index().contains_key(cmd@.key()),
        ensures
            step(
                old(self).index(),
                old(self).generation(),
                old(self).position() as nat,
                cmd@,
                (old(self).position() + len) as nat,
            ) == Ok::<IndexMap, KvsError>(final(self).index()),
            final(self).generation() == old(self).generation(),
            final(self).position() == old(self).position() + len,
    {
        match cmd {
            Command::SetValue { key, .. } => {
                let p = CommandPos { gen: self.current_generation, pos: self.log_pos, len };
                self.index.insert(key, p);
            },
            Command::Remove { key } => {
                self.index.remove(key.as_str());
            },
        }
        self.log_pos = self.log_pos + len;
    }
}

} // verus!
