//! The file-watch cache: canonical paths mapped to parsed G-code files,
//! invalidated by file-system events, with prefix-registered handlers.
//!
//! The worker that owns this cache lives outside: it receives path
//! requests and file-system events over channels, parses files, and calls
//! back registered handlers.  Everything it decides — which entry answers
//! a request, which entries an event drops, which handlers an event
//! reaches — is computed here.  Paths are byte strings.

use vstd::prelude::*;

use crate::gcode::GcodeFile;

verus! {

/// `p` is a prefix of `s`.
pub open spec fn is_path_prefix(p: Seq<u8>, s: Seq<u8>) -> bool {
    p.len() <= s.len() && s.subrange(0, p.len() as int) == p
}

/// Some event path is a prefix of `key`.
pub open spec fn key_affected(paths: Seq<Seq<u8>>, key: Seq<u8>) -> bool {
    exists|i: int| 0 <= i < paths.len() && is_path_prefix(paths[i], key)
}

/// A registered handler prefix matches when it is a prefix of some event
/// path.
pub open spec fn handler_matches(paths: Seq<Seq<u8>>, prefix: Seq<u8>) -> bool {
    exists|i: int| 0 <= i < paths.len() && is_path_prefix(prefix, paths[i])
}

/// Whether `p` is a prefix of `s`, executably.
fn check_prefix(p: &Vec<u8>, s: &Vec<u8>) -> (r: bool)
    ensures
        r == is_path_prefix(p@, s@),
{
    if p.len() > s.len() {
        return false;
    }
    let n = p.len();
    let mut i: usize = 0;
    while i < n
        invariant
            i <= n == p@.len(),
            n <= s@.len(),
            forall|j: int| 0 <= j < i ==> p@[j] == s@[j],
        decreases n - i,
    {
        if p[i] != s[i] {
            proof {
                assert(p@[i as int] != s@[i as int]);
                assert(!is_path_prefix(p@, s@)) by {
                    if is_path_prefix(p@, s@) {
                        assert(s@.subrange(0, p@.len() as int)[i as int] == s@[i as int]);
                    }
                };
            }
            return false;
        }
        i = i + 1;
    }
    proof {
        assert(s@.subrange(0, p@.len() as int) =~= p@);
    }
    true
}

/// Whether any event path is a prefix of `key`.
fn check_affected(paths: &Vec<Vec<u8>>, key: &Vec<u8>) -> (r: bool)
    ensures
        r == key_affected(paths@.map_values(|p: Vec<u8>| p@), key@),
{
    let ghost pviews = paths@.map_values(|p: Vec<u8>| p@);
    let n = paths.len();
    let mut i: usize = 0;
    while i < n
        invariant
            i <= n == paths@.len(),
            pviews == paths@.map_values(|p: Vec<u8>| p@),
            forall|j: int| 0 <= j < i ==> !is_path_prefix(pviews[j], key@),
        decreases n - i,
    {
        if check_prefix(&paths[i], key) {
            proof {
                assert(pviews[i as int] == paths@[i as int]@);
            }
            return true;
        }
        proof {
            assert(pviews[i as int] == paths@[i as int]@);
        }
        i = i + 1;
    }
    false
}

/// The cache and the handler registry.
pub struct FileWatchCache {
    /// Canonical path mapped to its parsed file, in insertion order.
    pub entries: Vec<(Vec<u8>, GcodeFile)>,
    /// Registered `(path_prefix, handler_id)` pairs.
    pub handlers: Vec<(Vec<u8>, u64)>,
    /// Source of fresh handler identifiers.
    pub next_handler_id: u64,
}

impl FileWatchCache {
    /// An empty cache.
    pub fn new() -> (c: FileWatchCache)
        ensures
            c.entries@.len() == 0,
            c.handlers@.len() == 0,
    {
        FileWatchCache { entries: Vec::new(), handlers: Vec::new(), next_handler_id: 0 }
    }

    /// The first entry holding this path, if any.
    pub fn lookup(&self, path: &Vec<u8>) -> (r: Option<usize>)
        ensures
            match r {
                Some(i) => 0 <= i < self.entries@.len() && self.entries@[i as int].0@ == path@,
                None => forall|j: int|
                    0 <= j < self.entries@.len() ==> self.entries@[j].0@ != path@,
            },
    {
        let n = self.entries.len();
        let mut i: usize = 0;
        while i < n
            invariant
                i <= n == self.entries@.len(),
                forall|j: int| 0 <= j < i ==> self.entries@[j].0@ != path@,
            decreases n - i,
        {
            if check_prefix(&self.entries[i].0, path) && self.entries[i].0.len() == path.len() {
                proof {
                    assert(path@.subrange(0, path@.len() as int) =~= path@);
                }
                return Some(i);
            }
            proof {
                if self.entries@[i as int].0@ == path@ {
                    assert(is_path_prefix(self.entries@[i as int].0@, path@)) by {
                        assert(path@.subrange(0, path@.len() as int) =~= path@);
                    };
                }
            }
            i = i + 1;
        }
        None
    }

    /// Record a parsed file under its canonical path.
    pub fn insert(&mut self, path: Vec<u8>, file: GcodeFile)
        ensures
            final(self).entries@.len() == old(self).entries@.len() + 1,
            final(self).entries@.last().0 == path,
            final(self).entries@.last().1 == file,
            forall|j: int|
                0 <= j < old(self).entries@.len() ==> final(self).entries@[j] == old(
                    self,
                ).entries@[j],
            final(self).handlers == old(self).handlers,
    {
        self.entries.push((path, file));
    }

    /// Drop every entry whose path an event path prefixes; everything
    /// else stays, in order.
    pub fn invalidate(&mut self, event_paths: &Vec<Vec<u8>>)
        ensures
            ({
                let pviews = event_paths@.map_values(|p: Vec<u8>| p@);
                final(self).entries@ == old(self).entries@.filter(
                    |e: (Vec<u8>, GcodeFile)| !key_affected(pviews, e.0@),
                )
            }),
            final(self).handlers == old(self).handlers,
    {
        let ghost pviews = event_paths@.map_values(|p: Vec<u8>| p@);
        let ghost pred = |e: (Vec<u8>, GcodeFile)| !key_affected(pviews, e.0@);
        let ghost orig = old(self).entries@;
        let mut i: usize = 0;
        let ghost mut j: int = 0;
        proof {
            assert(orig.take(0) =~= Seq::<(Vec<u8>, GcodeFile)>::empty());
            reveal(Seq::filter);
            assert(Seq::<(Vec<u8>, GcodeFile)>::empty().filter(pred) =~= Seq::<(
                Vec<u8>,
                GcodeFile,
            )>::empty());
            assert(orig.skip(0) =~= orig);
            assert(self.entries@ =~= orig.take(0).filter(pred) + orig.skip(0));
        }
        while i < self.entries.len()
            invariant
                0 <= j <= orig.len(),
                i as int == orig.take(j).filter(pred).len(),
                self.entries@ == orig.take(j).filter(pred) + orig.skip(j),
                self.handlers == old(self).handlers,
                pviews == event_paths@.map_values(|p: Vec<u8>| p@),
                pred == (|e: (Vec<u8>, GcodeFile)| !key_affected(pviews, e.0@)),
            decreases orig.len() - j,
        {
            proof {
                assert(self.entries@.len() == orig.take(j).filter(pred).len() + orig.skip(
                    j,
                ).len());
                assert(orig.skip(j).len() > 0);
                assert(j < orig.len());
                assert(orig.take(j + 1) =~= orig.take(j).push(orig[j]));
                orig.take(j).lemma_filter_push(orig[j], pred);
                assert(self.entries@[i as int] == orig.skip(j)[0]);
                assert(orig.skip(j)[0] == orig[j]);
            }
            let hit = check_affected(event_paths, &self.entries[i].0);
            if hit {
                proof {
                    assert(!pred(orig[j]));
                }
                self.entries.remove(i);
                proof {
                    assert(self.entries@ =~= orig.take(j + 1).filter(pred) + orig.skip(j + 1));
                    j = j + 1;
                }
            } else {
                proof {
                    assert(pred(orig[j]));
                    assert(self.entries@ =~= orig.take(j + 1).filter(pred) + orig.skip(j + 1));
                    j = j + 1;
                }
                i = i + 1;
            }
        }
        proof {
            assert(orig.skip(j).len() == 0);
            assert(j == orig.len());
            assert(orig.take(j) =~= orig);
            assert(self.entries@ =~= orig.filter(pred));
        }
    }

    /// Register a handler for a path prefix; its identifier is returned.
    pub fn watch(&mut self, prefix: Vec<u8>) -> (id: u64)
        ensures
            final(self).handlers@.len() == old(self).handlers@.len() + 1,
            final(self).handlers@.last().0 == prefix,
            final(self).handlers@.last().1 == id,
            forall|j: int|
                0 <= j < old(self).handlers@.len() ==> final(self).handlers@[j] == old(
                    self,
                ).handlers@[j],
            final(self).entries == old(self).entries,
    {
        let id = self.next_handler_id;
        self.next_handler_id = self.next_handler_id.wrapping_add(1);
        self.handlers.push((prefix, id));
        id
    }

    /// The identifiers of the handlers an event reaches: those whose
    /// prefix is a prefix of some event path, in registration order.
    pub fn handlers_to_invoke(&self, event_paths: &Vec<Vec<u8>>) -> (ids: Vec<u64>)
        ensures
            ({
                let pviews = event_paths@.map_values(|p: Vec<u8>| p@);
                ids@ == self.handlers@.filter(
                    |h: (Vec<u8>, u64)| handler_matches(pviews, h.0@),
                ).map_values(|h: (Vec<u8>, u64)| h.1)
            }),
    {
        let ghost pviews = event_paths@.map_values(|p: Vec<u8>| p@);
        let ghost pred = |h: (Vec<u8>, u64)| handler_matches(pviews, h.0@);
        let mut ids: Vec<u64> = Vec::new();
        let n = self.handlers.len();
        let mut i: usize = 0;
        proof {
            assert(self.handlers@.take(0) =~= Seq::<(Vec<u8>, u64)>::empty());
            reveal(Seq::filter);
            assert(Seq::<(Vec<u8>, u64)>::empty().filter(pred) =~= Seq::<(Vec<u8>, u64)>::empty());
            assert(ids@ =~= self.handlers@.take(0).filter(pred).map_values(
                |h: (Vec<u8>, u64)| h.1,
            ));
        }
        while i < n
            invariant
                i <= n == self.handlers@.len(),
                pviews == event_paths@.map_values(|p: Vec<u8>| p@),
                pred == (|h: (Vec<u8>, u64)| handler_matches(pviews, h.0@)),
                ids@ == self.handlers@.take(i as int).filter(pred).map_values(
                    |h: (Vec<u8>, u64)| h.1,
                ),
            decreases n - i,
        {
            let ghost prefix = self.handlers@.take(i as int);
            proof {
                assert(self.handlers@.take(i + 1) =~= prefix.push(self.handlers@[i as int]));
                prefix.lemma_filter_push(self.handlers@[i as int], pred);
            }
            let mut matched: bool = false;
            let m = event_paths.len();
            let mut k: usize = 0;
            while k < m
                invariant
                    k <= m == event_paths@.len(),
                    pviews == event_paths@.map_values(|p: Vec<u8>| p@),
                    i < self.handlers@.len(),
                    matched ==> handler_matches(pviews, self.handlers@[i as int].0@),
                    !matched ==> forall|j: int|
                        0 <= j < k ==> !is_path_prefix(self.handlers@[i as int].0@, pviews[j]),
                decreases m - k,
            {
                if !matched && check_prefix(&self.handlers[i].0, &event_paths[k]) {
                    proof {
                        assert(pviews[k as int] == event_paths@[k as int]@);
                    }
                    matched = true;
                }
                proof {
                    assert(pviews[k as int] == event_paths@[k as int]@);
                }
                k = k + 1;
            }
            if matched {
                ids.push(self.handlers[i].1);
                proof {
                    assert(pred(self.handlers@[i as int]));
                    assert(ids@ =~= self.handlers@.take(i + 1).filter(pred).map_values(
                        |h: (Vec<u8>, u64)| h.1,
                    ));
                }
            } else {
                proof {
                    assert(!pred(self.handlers@[i as int]));
                    assert(ids@ =~= self.handlers@.take(i + 1).filter(pred).map_values(
                        |h: (Vec<u8>, u64)| h.1,
                    ));
                }
            }
            i = i + 1;
        }
        proof {
            assert(self.handlers@.take(n as int) =~= self.handlers@);
        }
        ids
    }

    /// Drop the handler with this identifier (a callback returned
    /// "do not retain").
    pub fn unregister(&mut self, id: u64)
        ensures
            final(self).handlers@ == old(self).handlers@.filter(|h: (Vec<u8>, u64)| h.1 != id),
            final(self).entries == old(self).entries,
    {
        let ghost pred = |h: (Vec<u8>, u64)| h.1 != id;
        let ghost orig = old(self).handlers@;
        let mut i: usize = 0;
        let ghost mut j: int = 0;
        proof {
            assert(orig.take(0) =~= Seq::<(Vec<u8>, u64)>::empty());
            reveal(Seq::filter);
            assert(Seq::<(Vec<u8>, u64)>::empty().filter(pred) =~= Seq::<(Vec<u8>, u64)>::empty());
            assert(orig.skip(0) =~= orig);
            assert(self.handlers@ =~= orig.take(0).filter(pred) + orig.skip(0));
        }
        while i < self.handlers.len()
            invariant
                0 <= j <= orig.len(),
                i as int == orig.take(j).filter(pred).len(),
                self.handlers@ == orig.take(j).filter(pred) + orig.skip(j),
                self.entries == old(self).entries,
                pred == (|h: (Vec<u8>, u64)| h.1 != id),
            decreases orig.len() - j,
        {
            proof {
                assert(orig.skip(j).len() > 0);
                assert(j < orig.len());
                assert(orig.take(j + 1) =~= orig.take(j).push(orig[j]));
                orig.take(j).lemma_filter_push(orig[j], pred);
                assert(self.handlers@[i as int] == orig.skip(j)[0]);
                assert(orig.skip(j)[0] == orig[j]);
            }
            if self.handlers[i].1 == id {
                proof {
                    assert(!pred(orig[j]));
                }
                self.handlers.remove(i);
                proof {
                    assert(self.handlers@ =~= orig.take(j + 1).filter(pred) + orig.skip(j + 1));
                    j = j + 1;
                }
            } else {
                proof {
                    assert(pred(orig[j]));
                    assert(self.handlers@ =~= orig.take(j + 1).filter(pred) + orig.skip(j + 1));
                    j = j + 1;
                }
                i = i + 1;
            }
        }
        proof {
            assert(orig.skip(j).len() == 0);
            assert(j == orig.len());
            assert(orig.take(j) =~= orig);
            assert(self.handlers@ =~= orig.filter(pred));
        }
    }
}

} // verus!
