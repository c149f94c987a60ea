use vstd::prelude::*;
use vstd::string::*;
use crate::text::str_eq;

verus! {

// The router configuration: four optional byte ceilings and a routing table
// that maps an exact inbound host to a replacement host.  It is built once
// and then only read by relays.

/// The position of the first table entry whose key is `key`, or `t.len()`
/// when no entry has it.
pub open spec fn table_index(t: Seq<(Seq<char>, Seq<char>)>, key: Seq<char>) -> int
    decreases t.len(),
{
    if t.len() == 0 {
        0
    } else if t[0].0 == key {
        0
    } else {
        1 + table_index(t.skip(1), key)
    }
}

/// The replacement host the table holds for `key`, if any entry has it.
pub open spec fn table_lookup(t: Seq<(Seq<char>, Seq<char>)>, key: Seq<char>) -> Option<Seq<char>> {
    if table_index(t, key) < t.len() {
        Some(t[table_index(t, key)].1)
    } else {
        None
    }
}

/// The table after a mapping is set: the first entry with the key is
/// replaced, or one new entry is appended.
pub open spec fn table_upsert(
    t: Seq<(Seq<char>, Seq<char>)>,
    key: Seq<char>,
    value: Seq<char>,
) -> Seq<(Seq<char>, Seq<char>)> {
    if table_index(t, key) < t.len() {
        t.update(table_index(t, key), (key, value))
    } else {
        t.push((key, value))
    }
}

/// The table after a mapping is removed: the first entry with the key is
/// deleted, or the table is unchanged.
pub open spec fn table_remove(t: Seq<(Seq<char>, Seq<char>)>, key: Seq<char>) -> Seq<
    (Seq<char>, Seq<char>),
> {
    if table_index(t, key) < t.len() {
        t.remove(table_index(t, key))
    } else {
        t
    }
}

/// True when no two table entries share a key.
pub open spec fn table_keys_unique(t: Seq<(Seq<char>, Seq<char>)>) -> bool {
    forall|i: int, j: int|
        0 <= i < j < t.len() ==> (#[trigger] t[i]).0 != (#[trigger] t[j]).0
}

/// `table_index` points at the first entry with the key: it stays within
/// bounds, the entry there has the key when one exists, and no earlier
/// entry has it.
pub proof fn lemma_table_index(t: Seq<(Seq<char>, Seq<char>)>, key: Seq<char>)
    ensures
        0 <= table_index(t, key) <= t.len(),
        table_index(t, key) < t.len() ==> t[table_index(t, key)].0 == key,
        forall|j: int| 0 <= j < table_index(t, key) ==> (#[trigger] t[j]).0 != key,
    decreases t.len(),
{
    if t.len() == 0 {
    } else if t[0].0 == key {
    } else {
        lemma_table_index(t.skip(1), key);
        assert forall|j: int| 0 <= j < table_index(t, key) implies (#[trigger] t[j]).0 != key by {
            if j > 0 {
                assert(t.skip(1)[j - 1] == t[j]);
            }
        }
    }
}

/// Setting a mapping makes it the one the table yields for that key, and
/// keeps the keys distinct when they were distinct.
pub proof fn lemma_table_upsert(t: Seq<(Seq<char>, Seq<char>)>, key: Seq<char>, value: Seq<char>)
    ensures
        table_lookup(table_upsert(t, key, value), key) == Some(value),
        table_keys_unique(t) ==> table_keys_unique(table_upsert(t, key, value)),
{
    lemma_table_index(t, key);
    let up = table_upsert(t, key, value);
    let mi = table_index(t, key);
    lemma_table_index(up, key);
    assert(up[mi].0 == key);
    if table_index(up, key) < mi {
        assert(up[table_index(up, key)] == t[table_index(up, key)]);
    }
    assert(table_index(up, key) == mi);
    if table_keys_unique(t) {
        assert forall|i: int, j: int|
            0 <= i < j < up.len() implies (#[trigger] up[i]).0 != (#[trigger] up[j]).0 by {
            if mi < t.len() {
                if i == mi {
                    assert(t[mi].0 == key);
                    assert(up[j] == t[j]);
                } else if j == mi {
                    assert(t[mi].0 == key);
                    assert(up[i] == t[i]);
                } else {
                    assert(up[i] == t[i] && up[j] == t[j]);
                }
            } else {
                if j == t.len() {
                    assert(up[i] == t[i]);
                } else {
                    assert(up[i] == t[i] && up[j] == t[j]);
                }
            }
        }
    }
}

/// Removing a mapping from a table with distinct keys leaves no mapping
/// for that key, and keeps the keys distinct.
pub proof fn lemma_table_remove(t: Seq<(Seq<char>, Seq<char>)>, key: Seq<char>)
    requires
        table_keys_unique(t),
    ensures
        table_lookup(table_remove(t, key), key) is None,
        table_keys_unique(table_remove(t, key)),
{
    lemma_table_index(t, key);
    let mi = table_index(t, key);
    let rem = table_remove(t, key);
    if mi < t.len() {
        assert forall|j: int| 0 <= j < rem.len() implies (#[trigger] rem[j]).0 != key by {
            if j < mi {
                assert(rem[j] == t[j]);
            } else {
                assert(rem[j] == t[j + 1]);
                assert(t[mi].0 == key);
            }
        }
        assert forall|i: int, j: int|
            0 <= i < j < rem.len() implies (#[trigger] rem[i]).0 != (#[trigger] rem[j]).0 by {
            assert(rem[i] == if i < mi { t[i] } else { t[i + 1] });
            assert(rem[j] == if j < mi { t[j] } else { t[j + 1] });
        }
        lemma_table_index(rem, key);
        if table_index(rem, key) < rem.len() {
            assert(rem[table_index(rem, key)].0 == key);
        }
    }
}

/// Shared, read-only configuration for relays: four optional byte ceilings
/// (requests and responses, head and body; absent meaning unlimited) and
/// the host routing table.
pub struct RouterOptions {
    request_headers_size_limit: Option<usize>,
    request_body_size_limit: Option<usize>,
    response_headers_size_limit: Option<usize>,
    response_body_size_limit: Option<usize>,
    targets: Vec<(String, String)>,
}

impl RouterOptions {
    /// The four ceilings: request head, request body, response head,
    /// response body.
    pub closed spec fn limits(&self) -> (
        Option<usize>,
        Option<usize>,
        Option<usize>,
        Option<usize>,
    ) {
        (
            self.request_headers_size_limit,
            self.request_body_size_limit,
            self.response_headers_size_limit,
            self.response_body_size_limit,
        )
    }

    /// The routing table as key and value text, in entry order.
    pub closed spec fn table(&self) -> Seq<(Seq<char>, Seq<char>)> {
        Seq::new(self.targets@.len(), |i: int| (self.targets@[i].0@, self.targets@[i].1@))
    }

    /// The table's well-formedness: every key maps to at most one host.
    /// The constructor establishes it and every operation keeps it.
    pub open spec fn wf(&self) -> bool {
        table_keys_unique(self.table())
    }

    /// A configuration with no ceilings and an empty routing table.
    pub fn default() -> (r: Self)
        ensures
            r.limits() == (
                None::<usize>,
                None::<usize>,
                None::<usize>,
                None::<usize>,
            ),
            r.table().len() == 0,
            r.wf(),
    {
        RouterOptions {
            request_headers_size_limit: None,
            request_body_size_limit: None,
            response_headers_size_limit: None,
            response_body_size_limit: None,
            targets: Vec::new(),
        }
    }

    /// The request head ceiling.
    pub fn request_headers_size_limit(&self) -> (r: &Option<usize>)
        ensures
            r == self.limits().0,
    {
        &self.request_headers_size_limit
    }

    /// The request body ceiling.
    pub fn request_body_size_limit(&self) -> (r: &Option<usize>)
        ensures
            r == self.limits().1,
    {
        &self.request_body_size_limit
    }

    /// The response head ceiling.
    pub fn response_headers_size_limit(&self) -> (r: &Option<usize>)
        ensures
            r == self.limits().2,
    {
        &self.response_headers_size_limit
    }

    /// The response body ceiling.
    pub fn response_body_size_limit(&self) -> (r: &Option<usize>)
        ensures
            r == self.limits().3,
    {
        &self.response_body_size_limit
    }

    /// The position of the first table entry for `source`, if any.
    fn find_target_index(&self, source: &str) -> (r: Option<usize>)
        ensures
            match r {
                Some(i) => i < self.table().len() && table_index(self.table(), source@) == i,
                None => table_index(self.table(), source@) == self.table().len(),
            },
    {
        proof {
            lemma_table_index(self.table(), source@);
        }
        let n = self.targets.len();
        let mut i: usize = 0;
        while i < n
            invariant
                i <= n,
                n == self.targets.len(),
                self.table().len() == n,
                forall|j: int| 0 <= j < i ==> (#[trigger] self.table()[j]).0 != source@,
                0 <= table_index(self.table(), source@) <= n,
                table_index(self.table(), source@) < n ==> self.table()[table_index(
                    self.table(),
                    source@,
                )].0 == source@,
                forall|j: int|
                    0 <= j < table_index(self.table(), source@) ==> (
                    #[trigger] self.table()[j]).0 != source@,
            decreases n - i,
        {
            let hit = str_eq(self.targets[i].0.as_str(), source);
            proof {
                assert(self.table()[i as int].0 == self.targets@[i as int].0@);
            }
            if hit {
                return Some(i);
            }
            i += 1;
        }
        None
    }

    /// The replacement host configured for `source`, if one is.
    pub fn target(&self, source: &str) -> (r: Option<&String>)
        ensures
            match r {
                Some(v) => table_lookup(self.table(), source@) == Some(v@),
                None => table_lookup(self.table(), source@) is None,
            },
    {
        match self.find_target_index(source) {
            Some(i) => {
                proof {
                    assert(self.table()[i as int].1 == self.targets@[i as int].1@);
                }
                Some(&self.targets[i].1)
            },
            None => None,
        }
    }

    /// True when a replacement host is configured for `source`.
    pub fn has_target(&self, source: &str) -> (r: bool)
        ensures
            r == (table_lookup(self.table(), source@) is Some),
    {
        match self.find_target_index(source) {
            Some(_) => true,
            None => false,
        }
    }

    /// Sets the request head ceiling, touching nothing else.
    pub fn set_request_headers_size_limit(&mut self, limit: usize)
        ensures
            final(self).limits() == (
                Some(limit),
                old(self).limits().1,
                old(self).limits().2,
                old(self).limits().3,
            ),
            final(self).table() == old(self).table(),
    {
        self.request_headers_size_limit = Some(limit);
    }

    /// Sets the request body ceiling, touching nothing else.
    pub fn set_request_body_size_limit(&mut self, limit: usize)
        ensures
            final(self).limits() == (
                old(self).limits().0,
                Some(limit),
                old(self).limits().2,
                old(self).limits().3,
            ),
            final(self).table() == old(self).table(),
    {
        self.request_body_size_limit = Some(limit);
    }

    /// Sets the response head ceiling, touching nothing else.
    pub fn set_response_headers_size_limit(&mut self, limit: usize)
        ensures
            final(self).limits() == (
                old(self).limits().0,
                old(self).limits().1,
                Some(limit),
                old(self).limits().3,
            ),
            final(self).table() == old(self).table(),
    {
        self.response_headers_size_limit = Some(limit);
    }

    /// Sets the response body ceiling, touching nothing else.
    pub fn set_response_body_size_limit(&mut self, limit: usize)
        ensures
            final(self).limits() == (
                old(self).limits().0,
                old(self).limits().1,
                old(self).limits().2,
                Some(limit),
            ),
            final(self).table() == old(self).table(),
    {
        self.response_body_size_limit = Some(limit);
    }

    /// Maps `source` to `target` in the routing table: the first entry for
    /// `source` is replaced in place, or one new entry is appended.
    pub fn set_target(&mut self, source: &str, target: &str)
        ensures
            final(self).table() == table_upsert(old(self).table(), source@, target@),
            final(self).limits() == old(self).limits(),
            table_lookup(final(self).table(), source@) == Some(target@),
            old(self).wf() ==> final(self).wf(),
    {
        proof {
            lemma_table_upsert(self.table(), source@, target@);
        }
        let ghost t0 = self.table();
        let entry = (String::from_str(source), String::from_str(target));
        match self.find_target_index(source) {
            Some(i) => {
                self.targets.remove(i);
                self.targets.insert(i, entry);
                proof {
                    assert(self.table() =~~= t0.update(i as int, (source@, target@)));
                }
            },
            None => {
                self.targets.push(entry);
                proof {
                    assert(self.table() =~~= t0.push((source@, target@)));
                }
            },
        }
    }

    /// Clears the request head ceiling, touching nothing else.
    pub fn remove_request_headers_size_limit(&mut self)
        ensures
            final(self).limits() == (
                None::<usize>,
                old(self).limits().1,
                old(self).limits().2,
                old(self).limits().3,
            ),
            final(self).table() == old(self).table(),
    {
        self.request_headers_size_limit = None;
    }

    /// Clears the request body ceiling, touching nothing else.
    pub fn remove_request_body_size_limit(&mut self)
        ensures
            final(self).limits() == (
                old(self).limits().0,
                None::<usize>,
                old(self).limits().2,
                old(self).limits().3,
            ),
            final(self).table() == old(self).table(),
    {
        self.request_body_size_limit = None;
    }

    /// Clears the response head ceiling, touching nothing else.
    pub fn remove_response_headers_size_limit(&mut self)
        ensures
            final(self).limits() == (
                old(self).limits().0,
                old(self).limits().1,
                None::<usize>,
                old(self).limits().3,
            ),
            final(self).table() == old(self).table(),
    {
        self.response_headers_size_limit = None;
    }

    /// Clears the response body ceiling, touching nothing else.
    pub fn remove_response_body_size_limit(&mut self)
        ensures
            final(self).limits() == (
                old(self).limits().0,
                old(self).limits().1,
                old(self).limits().2,
                None::<usize>,
            ),
            final(self).table() == old(self).table(),
    {
        self.response_body_size_limit = None;
    }

    /// Unmaps `source` from the routing table: the first entry for it is
    /// deleted, or nothing changes.
    pub fn remove_target(&mut self, source: &str)
        ensures
            final(self).table() == table_remove(old(self).table(), source@),
            final(self).limits() == old(self).limits(),
            old(self).wf() ==> final(self).wf() && table_lookup(
                final(self).table(),
                source@,
            ) is None,
    {
        proof {
            if self.wf() {
                lemma_table_remove(self.table(), source@);
            }
        }
        let ghost t0 = self.table();
        match self.find_target_index(source) {
            Some(i) => {
                self.targets.remove(i);
                proof {
                    assert(self.table() =~~= t0.remove(i as int));
                }
            },
            None => {},
        }
    }
}

} // verus!
