//! Cursor-based pagination over an ordered key domain.
//!
//! The cursor is the caller-held key of the last row of the previous
//! page, not server-side state, so listing stays replay-safe and
//! correct under concurrent inserts: the window is bounded by key, not
//! by snapshot. Keys are 128-bit values (a UUID read as a fixed-width
//! big-endian number), a total order in which no two distinct keys
//! compare equal, so the ordering of a page is deterministic.

use vstd::prelude::*;

verus! {

/// Largest page size the server hands out in one response; requested
/// limits above it are clamped down to this bound.
pub const MAX_PAGE_SIZE: u64 = 100;

/// Rejection of a malformed page request (a zero limit).
#[derive(PartialEq, Eq, Structural, Debug, Clone, Copy)]
pub enum PageError {
    BadRequest,
}

/// One page of keys, together with the information the caller needs to
/// fetch the next page.
#[derive(Debug)]
pub struct CursorPage {
    /// The keys of this page, ascending.
    pub items: Vec<u128>,
    /// Whether further keys exist past this page.
    pub has_more: bool,
    /// The cursor to hand back for the next page; present exactly when
    /// `has_more` holds.
    pub next_cursor: Option<u128>,
}

/// True when the sequence is sorted strictly ascending (and hence free
/// of duplicates).
pub open spec fn strictly_ascending(s: Seq<u128>) -> bool {
    forall|i: int, j: int| 0 <= i < j < s.len() ==> s[i] < s[j]
}

/// Index of the first element strictly greater than the cursor: the
/// start of the window that a page request selects. `None` means no
/// lower bound.
pub open spec fn window_start(s: Seq<u128>, cursor: Option<u128>) -> int
    decreases s.len(),
{
    match cursor {
        Option::None => 0,
        Option::Some(c) => if s.len() == 0 {
            0
        } else if s[0] > c {
            0
        } else {
            1 + window_start(s.drop_first(), cursor)
        },
    }
}

/// The requested limit after the server-side clamp.
pub open spec fn clamped_limit(limit: u64) -> u64 {
    if limit > MAX_PAGE_SIZE {
        MAX_PAGE_SIZE
    } else {
        limit
    }
}

/// The window start is an index into the sequence.
pub proof fn lemma_window_start_bounds(s: Seq<u128>, cursor: Option<u128>)
    ensures
        0 <= window_start(s, cursor) <= s.len(),
    decreases s.len(),
{
    match cursor {
        Option::None => {},
        Option::Some(c) => {
            if s.len() == 0 || s[0] > c {
            } else {
                lemma_window_start_bounds(s.drop_first(), cursor);
            }
        },
    }
}

/// An index that splits the sequence into a prefix at most the cursor
/// and (if anything follows) a first element above it is the window
/// start.
pub proof fn lemma_window_start_agrees(s: Seq<u128>, c: u128, j: int)
    requires
        0 <= j <= s.len(),
        forall|i: int| 0 <= i < j ==> #[trigger] s[i] <= c,
        j < s.len() ==> s[j] > c,
    ensures
        j == window_start(s, Option::Some(c)),
    decreases s.len(),
{
    if s.len() == 0 {
    } else if j == 0 {
    } else {
        assert(s[0] <= c);
        lemma_window_start_agrees(s.drop_first(), c, j - 1);
    }
}

/// A strictly ascending listing holds each key at most once: two
/// distinct positions never carry the same key. Together with
/// `scan_all`'s contract — the walk returns exactly the collection's
/// key sequence — this makes the paginated walk visit every key
/// exactly once before it terminates.
pub proof fn lemma_walk_visits_each_key_once(table: KeyTable)
    requires
        table.wf(),
    ensures
        forall|i: int, j: int|
            0 <= i < j < table.keys@.len() ==> table.keys@[i] != table.keys@[j],
{
}

/// The backing ordered-key collection: the set of keys of an
/// append-only listing (comics, chapters), held sorted strictly
/// ascending. It stands for the relational collaborator that answers
/// bounded range queries ordered by key.
pub struct KeyTable {
    /// The keys, sorted strictly ascending.
    pub keys: Vec<u128>,
}

impl KeyTable {
    /// The collection invariant: keys sorted strictly ascending.
    pub open spec fn wf(&self) -> bool {
        strictly_ascending(self.keys@)
    }

    /// The keys as a set, ignoring order.
    pub open spec fn key_set(&self) -> Set<u128> {
        self.keys@.to_set()
    }

    /// An empty collection.
    pub fn new() -> (r: KeyTable)
        ensures
            r.wf(),
            r.keys@ == Seq::<u128>::empty(),
    {
        KeyTable { keys: Vec::new() }
    }

    /// Whether the key is present.
    pub fn contains(&self, key: u128) -> (r: bool)
        requires
            self.wf(),
        ensures
            r == self.keys@.contains(key),
    {
        let mut i: usize = 0;
        while i < self.keys.len()
            invariant
                0 <= i <= self.keys.len(),
                forall|k: int| 0 <= k < i ==> self.keys@[k] != key,
            decreases self.keys.len() - i,
        {
            if self.keys[i] == key {
                return true;
            }
            i += 1;
        }
        false
    }

    /// Insert a key, keeping the order; inserting a key already present
    /// leaves the collection unchanged. Returns whether the key was new.
    pub fn insert(&mut self, key: u128) -> (added: bool)
        requires
            old(self).wf(),
        ensures
            final(self).wf(),
            added == !old(self).keys@.contains(key),
            final(self).keys@ == if old(self).keys@.contains(key) {
                old(self).keys@
            } else {
                old(self).keys@.insert(window_start(old(self).keys@, Option::Some(key)), key)
            },
            final(self).key_set() == old(self).key_set().insert(key),
    {
        let ghost s = self.keys@;
        let mut p: usize = 0;
        while p < self.keys.len() && self.keys[p] < key
            invariant
                self.keys@ == s,
                0 <= p <= s.len(),
                forall|i: int| 0 <= i < p ==> #[trigger] s[i] < key,
            decreases self.keys.len() - p,
        {
            p += 1;
        }
        if p < self.keys.len() && self.keys[p] == key {
            // Already present.
            proof {
                assert(s.contains(key));
                assert(self.key_set() =~= self.key_set().insert(key));
            }
            false
        } else {
            proof {
                assert forall|i: int| 0 <= i < s.len() implies #[trigger] s[i] != key by {
                    if i < p {
                    } else if old(self).wf() && p < i {
                        assert(s[p as int] < s[i]);
                    }
                }
                assert(!s.contains(key));
                lemma_window_start_agrees(s, key, p as int);
            }
            self.keys.insert(p, key);
            proof {
                let t = self.keys@;
                assert(t == s.insert(p as int, key));
                s.insert_ensures(p as int, key);
                assert forall|i: int, j: int| 0 <= i < j < t.len() implies t[i] < t[j] by {
                    if j < p {
                        assert(s[i] < s[j]);
                    } else if i < p && j == p {
                        assert(s[i] < key);
                    } else if i < p && j > p {
                        assert(s[i] < key);
                        assert(s[p as int] > key || p == s.len());
                        assert(t[j] == s[j - 1]);
                        if j - 1 == p {
                            assert(s[p as int] > key);
                        } else {
                            assert(s[p as int] <= s[j - 1]);
                        }
                    } else if i == p {
                        assert(t[j] == s[j - 1]);
                        assert(s[j - 1] > key || j - 1 == p);
                        if j - 1 == p {
                            assert(s[p as int] > key);
                        }
                    } else {
                        assert(t[i] == s[i - 1] && t[j] == s[j - 1]);
                        assert(s[i - 1] < s[j - 1]);
                    }
                }
                assert forall|x: u128| t.contains(x) <==> (s.contains(x) || x == key) by {
                    if t.contains(x) {
                        let w = choose|w: int| 0 <= w < t.len() && t[w] == x;
                        if w < p {
                            assert(s[w] == x);
                        } else if w == p {
                        } else {
                            assert(s[w - 1] == x);
                        }
                    }
                    if s.contains(x) {
                        let w = choose|w: int| 0 <= w < s.len() && s[w] == x;
                        if w < p {
                            assert(t[w] == x);
                        } else {
                            assert(t[w + 1] == x);
                        }
                    }
                    if x == key {
                        assert(t[p as int] == x);
                    }
                }
                assert(t.to_set() =~= s.to_set().insert(key));
            }
            true
        }
    }

    /// The bounded range query of the backing collection: up to `count`
    /// keys strictly greater than the cursor, ascending.
    pub fn query_after(&self, cursor: Option<u128>, count: usize) -> (r: Vec<u128>)
        requires
            self.wf(),
        ensures
            ({
                let s = self.keys@;
                let start = window_start(s, cursor);
                r@ == if s.len() - start <= count {
                    s.subrange(start, s.len() as int)
                } else {
                    s.subrange(start, start + count)
                }
            }),
    {
        let ghost s = self.keys@;
        let len = self.keys.len();
        let mut start: usize = 0;
        match cursor {
            Option::None => {},
            Option::Some(c) => {
                while start < len && self.keys[start] <= c
                    invariant
                        self.keys@ == s,
                        len == s.len(),
                        0 <= start <= len,
                        forall|i: int| 0 <= i < start ==> #[trigger] s[i] <= c,
                    decreases len - start,
                {
                    start += 1;
                }
                proof {
                    lemma_window_start_agrees(s, c, start as int);
                }
            },
        }
        let end: usize = if len - start <= count {
            len
        } else {
            start + count
        };
        let mut out: Vec<u128> = Vec::new();
        let mut j: usize = start;
        while j < end
            invariant
                self.keys@ == s,
                len == s.len(),
                start <= j <= end <= len,
                out@ == s.subrange(start as int, j as int),
            decreases end - j,
        {
            out.push(self.keys[j]);
            proof {
                assert(out@ =~= s.subrange(start as int, j + 1));
            }
            j += 1;
        }
        out
    }
}

/// Translate a page request into a bounded query over the collection
/// and compute the next cursor.
///
/// A zero limit is rejected as a bad request; a limit above
/// `MAX_PAGE_SIZE` is clamped. The page holds the first `limit` keys
/// above the cursor, ascending; `has_more` and `next_cursor` are set
/// exactly when further keys exist, the cursor being the last retained
/// key. An empty page is a valid, terminal response, not an error.
pub fn paginate(table: &KeyTable, cursor: Option<u128>, limit: u64) -> (r: Result<
    CursorPage,
    PageError,
>)
    requires
        table.wf(),
    ensures
        r is Err <==> limit == 0,
        ({
            let s = table.keys@;
            let eff = clamped_limit(limit) as int;
            let start = window_start(s, cursor);
            match r {
                Result::Ok(page) => {
                    &&& if s.len() - start > eff {
                        &&& page.items@ == s.subrange(start, start + eff)
                        &&& page.has_more
                        &&& page.next_cursor == Option::Some(s[start + eff - 1])
                    } else {
                        &&& page.items@ == s.subrange(start, s.len() as int)
                        &&& !page.has_more
                        &&& page.next_cursor is None
                    }
                },
                Result::Err(e) => e == PageError::BadRequest,
            }
        }),
{
    let ghost s = table.keys@;
    let ghost start = window_start(s, cursor);
    proof {
        lemma_window_start_bounds(s, cursor);
    }
    if limit == 0 {
        return Result::Err(PageError::BadRequest);
    }
    let eff: u64 = if limit > MAX_PAGE_SIZE {
        MAX_PAGE_SIZE
    } else {
        limit
    };
    let fetch: usize = (eff + 1) as usize;
    let mut rows = table.query_after(cursor, fetch);
    if rows.len() == fetch {
        // One row past the window: drop it; its predecessor is the cursor.
        rows.pop();
        let next = rows[rows.len() - 1];
        proof {
            assert(rows@ =~= s.subrange(start, start + eff as int));
        }
        Result::Ok(CursorPage { items: rows, has_more: true, next_cursor: Option::Some(next) })
    } else {
        proof {
            assert(rows@ =~= s.subrange(start, s.len() as int));
        }
        Result::Ok(CursorPage { items: rows, has_more: false, next_cursor: Option::None })
    }
}

/// Walking the paginator from the null cursor, feeding each response's
/// `next_cursor` back in, visits every key of the collection exactly
/// once, in ascending order, and terminates with `has_more` false.
pub fn scan_all(table: &KeyTable, limit: u64) -> (all: Vec<u128>)
    requires
        table.wf(),
        1 <= limit,
    ensures
        all@ == table.keys@,
{
    let ghost s = table.keys@;
    let mut all: Vec<u128> = Vec::new();
    let mut cursor: Option<u128> = Option::None;
    let mut more = true;
    while more
        invariant
            table.wf(),
            1 <= limit,
            s == table.keys@,
            all.len() <= s.len(),
            all@ == s.subrange(0, all.len() as int),
            more ==> (if all.len() == 0 {
                cursor is None
            } else {
                cursor == Option::Some(s[all.len() - 1])
            }),
            !more ==> all.len() == s.len(),
        decreases s.len() - all.len(), (if more {
            1int
        } else {
            0int
        }),
    {
        let ghost visited = all@.len() as int;
        proof {
            match cursor {
                Option::None => {
                    assert(window_start(s, cursor) == visited);
                },
                Option::Some(c) => {
                    assert forall|i: int| 0 <= i < visited implies #[trigger] s[i] <= c by {
                        if i < visited - 1 {
                            assert(s[i] < s[visited - 1]);
                        }
                    }
                    lemma_window_start_agrees(s, c, visited);
                },
            }
        }
        match paginate(table, cursor, limit) {
            Result::Ok(mut page) => {
                let ghost got = page.items@.len() as int;
                all.append(&mut page.items);
                proof {
                    assert(all@ =~= s.subrange(0, visited + got));
                }
                if page.has_more {
                    cursor = page.next_cursor;
                } else {
                    more = false;
                }
            },
            Result::Err(_) => {
                proof {
                    assert(false);
                }
                more = false;
            },
        }
    }
    proof {
        assert(all@ =~= s);
    }
    all
}

} // verus!
