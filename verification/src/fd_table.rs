//! Per-stream byte buffers keyed by a small integer stream id.

use std::collections::HashMap;
use vstd::prelude::*;
use vstd::std_specs::hash::spec_keys_iter;
use vstd::std_specs::iter::IteratorSpec;

verus! {

broadcast use vstd::std_specs::hash::group_hash_axioms;

/// Identifies one standard stream (0 for input, 1 for output, 2 for error, ...).
pub type Fd = i32;

/// The mathematical content of a table: the bytes buffered for every registered stream.
pub type Streams = Map<Fd, Seq<u8>>;

/// True when no registered stream holds a byte.
pub open spec fn all_empty(t: Streams) -> bool {
    forall|fd: Fd| t.dom().contains(fd) ==> (#[trigger] t[fd]).len() == 0
}

/// The table with the same registered streams, each of them empty.
pub open spec fn drained(t: Streams) -> Streams {
    Map::new(|fd: Fd| t.dom().contains(fd), |fd: Fd| Seq::<u8>::empty())
}

/// The table `t` after the bytes of every stream of `src` were appended to
/// the stream of the same id.
pub open spec fn appended(t: Streams, src: Streams) -> Streams {
    Map::new(
        |fd: Fd| t.dom().contains(fd),
        |fd: Fd| if src.dom().contains(fd) { t[fd] + src[fd] } else { t[fd] },
    )
}

/// The table reached from `t` by appending every table of `srcs`, first to last.
pub open spec fn appended_all(t: Streams, srcs: Seq<Streams>) -> Streams
    decreases srcs.len(),
{
    if srcs.len() == 0 {
        t
    } else {
        appended(appended_all(t, srcs.drop_last()), srcs.last())
    }
}

/// The bytes that the tables of `srcs` hold for stream `fd`, joined first to last.
pub open spec fn concatenated(srcs: Seq<Streams>, fd: Fd) -> Seq<u8>
    decreases srcs.len(),
{
    if srcs.len() == 0 {
        Seq::<u8>::empty()
    } else if srcs.last().dom().contains(fd) {
        concatenated(srcs.drop_last(), fd) + srcs.last()[fd]
    } else {
        concatenated(srcs.drop_last(), fd)
    }
}

/// The content of a table whose buffers are `contents`.
spec fn table_of(contents: Map<Fd, Vec<u8>>) -> Streams {
    Map::new(|fd: Fd| contents.contains_key(fd), |fd: Fd| contents[fd]@)
}

/// Every member of `fds` up to `i + 1` is a member up to `i` or is `fds[i]`,
/// and `fds[i]` is no member up to `i` where nothing occurs twice.
proof fn lemma_next_member(fds: Seq<Fd>, i: int)
    requires
        fds.no_duplicates(),
        0 <= i < fds.len(),
    ensures
        !fds.subrange(0, i).contains(fds[i]),
        forall|g: Fd| fds.subrange(0, i + 1).contains(g) <==> (g == fds[i] || fds.subrange(0, i).contains(g)),
{
    let before = fds.subrange(0, i);
    let after = fds.subrange(0, i + 1);
    if before.contains(fds[i]) {
        let k = choose|k: int| 0 <= k < before.len() && before[k] == fds[i];
        assert(fds[k] == fds[i]);
    }
    assert(after[i] == fds[i]);
    assert forall|g: Fd| after.contains(g) <==> (g == fds[i] || before.contains(g)) by {
        if before.contains(g) {
            let k = choose|k: int| 0 <= k < before.len() && before[k] == g;
            assert(after[k] == g);
        }
        if after.contains(g) && g != fds[i] {
            let k = choose|k: int| 0 <= k < after.len() && after[k] == g;
            assert(before[k] == g);
        }
    }
}

/// A set of byte buffers, one for each registered stream id.
#[derive(Debug)]
pub struct FdTable {
    contents: HashMap<Fd, Vec<u8>>,
}

impl View for FdTable {
    type V = Streams;

    closed spec fn view(&self) -> Streams {
        table_of(self.contents@)
    }
}

impl FdTable {
    /// The table holds finitely many streams.
    pub closed spec fn wf(&self) -> bool {
        self.contents@.dom().finite()
    }

    /// A table without any stream.
    pub fn new() -> (t: Self)
        ensures
            t.wf(),
            t@ == Map::<Fd, Seq<u8>>::empty(),
    {
        let t = FdTable { contents: HashMap::new() };
        assert(t@ =~= Map::<Fd, Seq<u8>>::empty());
        t
    }

    /// The registered stream ids, each once, in no particular order.
    fn registered(&self) -> (fds: Vec<Fd>)
        ensures
            fds@.no_duplicates(),
            forall|g: Fd| fds@.contains(g) <==> self.contents@.contains_key(g),
    {
        let mut fds: Vec<Fd> = Vec::new();
        for fd in iter: self.contents.keys()
            invariant
                fds@.len() == iter.index(),
                iter.seq() == spec_keys_iter(&self.contents).remaining(),
                forall|j: int| 0 <= j < fds@.len() ==> fds@[j] == *iter.seq()[j],
        {
            fds.push(*fd);
        }
        proof {
            let all = spec_keys_iter(&self.contents).remaining();
            assert(fds@ =~= all.unref());
            assert(fds@.to_set() == self.contents@.dom());
            assert forall|g: Fd| fds@.contains(g) <==> self.contents@.contains_key(g) by {
                assert(fds@.to_set().contains(g) <==> fds@.contains(g));
            }
        }
        fds
    }

    /// Registers the stream `fd` with `initial_vec` as its first bytes.
    pub fn add(&mut self, fd: Fd, initial_vec: Vec<u8>)
        requires
            old(self).wf(),
            !old(self)@.dom().contains(fd),
        ensures
            final(self).wf(),
            final(self)@ == old(self)@.insert(fd, initial_vec@),
    {
        self.contents.insert(fd, initial_vec);
        assert(self@ =~= old(self)@.insert(fd, initial_vec@));
    }

    /// Registers the stream `fd` with nothing buffered.
    pub fn add_empty(&mut self, fd: Fd)
        requires
            old(self).wf(),
            !old(self)@.dom().contains(fd),
        ensures
            final(self).wf(),
            final(self)@ == old(self)@.insert(fd, Seq::<u8>::empty()),
    {
        self.add(fd, Vec::new())
    }

    /// Moves the bytes of `bytes` to the end of stream `fd`.
    fn extend(&mut self, fd: Fd, bytes: &mut Vec<u8>)
        requires
            old(self).wf(),
            old(self)@.dom().contains(fd),
        ensures
            final(self).wf(),
            final(self)@ == old(self)@.insert(fd, old(self)@[fd] + old(bytes)@),
    {
        let mut buffer = self.contents.remove(&fd).unwrap();
        buffer.append(bytes);
        self.contents.insert(fd, buffer);
        assert(self@ =~= old(self)@.insert(fd, old(self)@[fd] + old(bytes)@));
    }

    /// Appends the bytes of every stream of `src` to the stream of the same id.
    pub fn append(&mut self, src: FdTable)
        requires
            old(self).wf(),
            src.wf(),
            src@.dom().subset_of(old(self)@.dom()),
        ensures
            final(self).wf(),
            final(self)@ == appended(old(self)@, src@),
    {
        let fds = src.registered();
        let ghost src0 = src.contents@;
        let mut src_contents = src.contents;
        proof {
            assert forall|k: int| 0 <= k < fds@.len() implies src0.contains_key(#[trigger] fds@[k]) by {
                assert(fds@.contains(fds@[k]));
            }
        }
        let mut i: usize = 0;
        while i < fds.len()
            invariant
                self.wf(),
                i <= fds@.len(),
                fds@.no_duplicates(),
                forall|g: Fd| fds@.contains(g) <==> src0.contains_key(g),
                forall|k: int|
                    i <= k < fds@.len() ==> src_contents@.contains_key(#[trigger] fds@[k]) && src_contents@[fds@[k]]
                        == src0[fds@[k]],
                table_of(src0).dom().subset_of(old(self)@.dom()),
                self@.dom() == old(self)@.dom(),
                forall|g: Fd| #[trigger]
                    self@.dom().contains(g) ==> self@[g] == if fds@.subrange(0, i as int).contains(g) {
                        old(self)@[g] + table_of(src0)[g]
                    } else {
                        old(self)@[g]
                    },
            decreases fds@.len() - i,
        {
            let fd = fds[i];
            proof {
                lemma_next_member(fds@, i as int);
                assert(fds@.contains(fd));
                assert(table_of(src0).dom().contains(fd));
            }
            let mut bytes = src_contents.remove(&fd).unwrap();
            self.extend(fd, &mut bytes);
            i += 1;
            proof {
                assert(self@.dom() =~= old(self)@.dom());
            }
        }
        proof {
            assert(fds@.subrange(0, fds@.len() as int) =~= fds@);
            assert(self@ =~= appended(old(self)@, table_of(src0)));
        }
    }

    /// Hands out everything that is buffered and leaves every stream empty.
    pub fn flush(&mut self) -> (r: FdTable)
        requires
            old(self).wf(),
        ensures
            final(self).wf(),
            r.wf(),
            r@ == old(self)@,
            final(self)@ == drained(old(self)@),
    {
        let fds = self.registered();
        let mut contents: HashMap<Fd, Vec<u8>> = HashMap::new();
        let mut i: usize = 0;
        while i < fds.len()
            invariant
                i <= fds@.len(),
                fds@.no_duplicates(),
                forall|g: Fd| contents@.contains_key(g) <==> fds@.subrange(0, i as int).contains(g),
                forall|g: Fd| contents@.contains_key(g) ==> (#[trigger] contents@[g])@ == Seq::<u8>::empty(),
            decreases fds@.len() - i,
        {
            proof {
                lemma_next_member(fds@, i as int);
            }
            contents.insert(fds[i], Vec::new());
            i += 1;
        }
        std::mem::swap(&mut self.contents, &mut contents);
        let result = FdTable { contents };
        proof {
            assert(fds@.subrange(0, fds@.len() as int) =~= fds@);
            assert(self@ =~= drained(old(self)@));
        }
        result
    }

    /// Whether every stream is empty.
    pub fn is_empty(&self) -> (b: bool)
        requires
            self.wf(),
        ensures
            b == all_empty(self@),
    {
        let fds = self.registered();
        let mut i: usize = 0;
        while i < fds.len()
            invariant
                i <= fds@.len(),
                forall|g: Fd| fds@.contains(g) <==> self.contents@.contains_key(g),
                forall|k: int| 0 <= k < i ==> (#[trigger] self@[fds@[k]]).len() == 0,
            decreases fds@.len() - i,
        {
            assert(fds@.contains(fds@[i as int]));
            match self.contents.get(&fds[i]) {
                Some(buffer) => {
                    if buffer.len() != 0 {
                        assert(self@.dom().contains(fds@[i as int]));
                        assert(self@[fds@[i as int]].len() != 0);
                        return false;
                    }
                },
                None => {},
            }
            i += 1;
        }
        proof {
            assert forall|g: Fd| self@.dom().contains(g) implies (#[trigger] self@[g]).len() == 0 by {
                assert(fds@.contains(g));
                let k = choose|k: int| 0 <= k < fds@.len() && fds@[k] == g;
                assert(self@[fds@[k]].len() == 0);
            }
        }
        true
    }

    /// Hands out the bytes of stream `fd` and leaves that stream empty.
    pub fn take(&mut self, fd: Fd) -> (bytes: Vec<u8>)
        requires
            old(self).wf(),
            old(self)@.dom().contains(fd),
        ensures
            final(self).wf(),
            bytes@ == old(self)@[fd],
            final(self)@ == old(self)@.insert(fd, Seq::<u8>::empty()),
    {
        let bytes = self.contents.remove(&fd).unwrap();
        self.contents.insert(fd, Vec::new());
        assert(self@ =~= old(self)@.insert(fd, Seq::<u8>::empty()));
        bytes
    }

    /// Whether every stream of `other` is registered here too, so that
    /// `other` can be appended.
    pub fn covers(&self, other: &FdTable) -> (b: bool)
        requires
            self.wf(),
            other.wf(),
        ensures
            b == other@.dom().subset_of(self@.dom()),
    {
        let fds = other.registered();
        let mut i: usize = 0;
        while i < fds.len()
            invariant
                i <= fds@.len(),
                forall|g: Fd| fds@.contains(g) <==> other.contents@.contains_key(g),
                forall|k: int| 0 <= k < i ==> self.contents@.contains_key(#[trigger] fds@[k]),
            decreases fds@.len() - i,
        {
            if !self.contents.contains_key(&fds[i]) {
                proof {
                    assert(fds@.contains(fds@[i as int]));
                    assert(other@.dom().contains(fds@[i as int]));
                    assert(!self@.dom().contains(fds@[i as int]));
                }
                return false;
            }
            i += 1;
        }
        proof {
            assert forall|g: Fd| other@.dom().contains(g) implies self@.dom().contains(g) by {
                assert(fds@.contains(g));
                let k = choose|k: int| 0 <= k < fds@.len() && fds@[k] == g;
                assert(self.contents@.contains_key(fds@[k]));
            }
        }
        true
    }

    /// Whether the stream `fd` is registered.
    pub fn contains(&self, fd: Fd) -> (b: bool)
        requires
            self.wf(),
        ensures
            b == self@.dom().contains(fd),
    {
        self.contents.contains_key(&fd)
    }
}

/// Appending a run of tables to a table whose streams are all empty, and then
/// flushing, hands out for each stream the appended bytes joined in order and
/// leaves the table empty.
pub proof fn lemma_flush_append_round_trip(t: Streams, srcs: Seq<Streams>, fd: Fd)
    requires
        t.dom().contains(fd),
        all_empty(t),
    ensures
        appended_all(t, srcs).dom() == t.dom(),
        appended_all(t, srcs)[fd] == concatenated(srcs, fd),
        all_empty(drained(appended_all(t, srcs))),
        drained(appended_all(t, srcs)) == drained(t),
    decreases srcs.len(),
{
    if srcs.len() == 0 {
        assert(t[fd] =~= Seq::<u8>::empty());
    } else {
        lemma_flush_append_round_trip(t, srcs.drop_last(), fd);
        assert(appended_all(t, srcs).dom() =~= t.dom());
    }
    assert(drained(appended_all(t, srcs)) =~= drained(t));
}

} // verus!
