//! The small registries the bot keeps beside the cache: the country
//! names known for snipe commands, keyed by country code, and the set
//! of message ids still waiting to be processed.

use vstd::prelude::*;

verus! {

/// Pairwise-distinct country codes, compared by content.
pub open spec fn codes_distinct(s: Seq<(String, String)>) -> bool {
    forall|i: int, j: int| 0 <= i < j < s.len() ==> s[i].0@ != s[j].0@
}

pub open spec fn msgs_distinct(s: Seq<u64>) -> bool {
    forall|i: int, j: int| 0 <= i < j < s.len() ==> s[i] != s[j]
}

/// Whether some entry of `s` carries the code `c`.
pub open spec fn has_code(s: Seq<(String, String)>, c: Seq<char>) -> bool {
    exists|k: int| 0 <= k < s.len() && s[k].0@ == c
}

/// The index of the entry carrying the code `c`; meaningful only when
/// the codes are distinct and some entry carries `c`.
pub open spec fn code_index(s: Seq<(String, String)>, c: Seq<char>) -> int {
    choose|k: int| 0 <= k < s.len() && s[k].0@ == c
}

/// With distinct codes, the entry carrying a code is unique, so
/// `code_index` returns exactly the index of any matching entry.
pub proof fn lemma_code_index(s: Seq<(String, String)>, c: Seq<char>, i: int)
    requires
        codes_distinct(s),
        0 <= i < s.len(),
        s[i].0@ == c,
    ensures
        has_code(s, c),
        code_index(s, c) == i,
{
    assert(has_code(s, c));
    let k = code_index(s, c);
    if k != i {
        if k < i {
            assert(s[k].0@ != s[i].0@);
        } else {
            assert(s[i].0@ != s[k].0@);
        }
    }
}

/// The bot's in-process registries.
pub struct Context {
    countries: Vec<(String, String)>,
    msgs_to_process: Vec<u64>,
}

impl Context {
    /// Internal consistency: country codes and message ids are stored
    /// once each.
    pub closed spec fn wf(self) -> bool {
        &&& codes_distinct(self.countries@)
        &&& msgs_distinct(self.msgs_to_process@)
    }

    /// The country names known, keyed by code.
    pub closed spec fn countries(self) -> Map<Seq<char>, Seq<char>> {
        Map::new(
            |c: Seq<char>| has_code(self.countries@, c),
            |c: Seq<char>| self.countries@[code_index(self.countries@, c)].1@,
        )
    }

    /// The ids of the messages still waiting to be processed.
    pub closed spec fn msgs(self) -> Set<u64> {
        self.msgs_to_process@.to_set()
    }

    /// A fresh context with nothing registered.
    pub fn new() -> (c: Context)
        ensures
            c.wf(),
            c.countries() == Map::<Seq<char>, Seq<char>>::empty(),
            c.msgs() == Set::<u64>::empty(),
    {
        let c = Context { countries: Vec::new(), msgs_to_process: Vec::new() };
        proof {
            assert(c.countries() =~= Map::<Seq<char>, Seq<char>>::empty());
            assert(c.msgs() =~= Set::<u64>::empty());
        }
        c
    }

    /// Registers a country name under its code, replacing any earlier
    /// name under the same code.
    pub fn add_country(&mut self, country: String, code: String)
        requires
            old(self).wf(),
        ensures
            final(self).wf(),
            final(self).countries() == old(self).countries().insert(code@, country@),
            final(self).msgs() == old(self).msgs(),
    {
        let n: usize = self.countries.len();
        let mut i: usize = 0;
        while i < n
            invariant
                old(self).wf(),
                *self == *old(self),
                n == self.countries@.len(),
                i <= n,
                forall|j: int| 0 <= j < i ==> self.countries@[j].0@ != code@,
            decreases n - i,
        {
            if self.countries[i].0 == code {
                let ghost pre = self.countries@;
                self.countries[i] = (code, country);
                proof {
                    let post = self.countries@;
                    assert(codes_distinct(post)) by {
                        assert(forall|k: int|
                            0 <= k < post.len() ==> post[k].0@ == #[trigger] pre[k].0@);
                    }
                    assert(final(self).countries() =~= old(self).countries().insert(
                        code@,
                        country@,
                    )) by {
                        assert forall|c: Seq<char>| #[trigger]
                            has_code(post, c) == (has_code(pre, c) || c == code@) by {
                            assert(forall|k: int|
                                0 <= k < post.len() ==> post[k].0@ == #[trigger] pre[k].0@);
                        }
                        assert forall|c: Seq<char>|
                            has_code(post, c) implies #[trigger] post[code_index(post, c)].1@ == (
                        if c == code@ {
                            country@
                        } else {
                            pre[code_index(pre, c)].1@
                        }) by {
                            if c == code@ {
                                lemma_code_index(post, c, i as int);
                            } else {
                                let k = choose|k: int| 0 <= k < post.len() && post[k].0@ == c;
                                assert(post[k].0@ == pre[k].0@);
                                lemma_code_index(post, c, k);
                                lemma_code_index(pre, c, k);
                            }
                        }
                    }
                    assert(final(self).msgs() == old(self).msgs());
                }
                return ;
            }
            i = i + 1;
        }
        let ghost pre = self.countries@;
        self.countries.push((code, country));
        proof {
            let post = self.countries@;
            assert(post == pre.push((code, country)));
            assert(codes_distinct(post));
            assert(final(self).countries() =~= old(self).countries().insert(code@, country@)) by {
                assert forall|c: Seq<char>| #[trigger]
                    has_code(post, c) == (has_code(pre, c) || c == code@) by {
                    assert(post[pre.len() as int].0@ == code@);
                    if has_code(pre, c) {
                        let k = choose|k: int| 0 <= k < pre.len() && pre[k].0@ == c;
                        assert(post[k].0@ == c);
                    }
                    if has_code(post, c) {
                        let k = choose|k: int| 0 <= k < post.len() && post[k].0@ == c;
                        if k < pre.len() {
                            assert(pre[k].0@ == c);
                        }
                    }
                }
                assert forall|c: Seq<char>| has_code(post, c) implies #[trigger] post[code_index(
                    post,
                    c,
                )].1@ == (
                if c == code@ {
                    country@
                } else {
                    pre[code_index(pre, c)].1@
                }) by {
                    if c == code@ {
                        lemma_code_index(post, c, pre.len() as int);
                    } else {
                        let k = choose|k: int| 0 <= k < post.len() && post[k].0@ == c;
                        assert(k < pre.len());
                        lemma_code_index(post, c, k);
                        lemma_code_index(pre, c, k);
                    }
                }
            }
        }
    }

    /// Whether a country is registered under `code`.
    pub fn contains_country(&self, code: &String) -> (r: bool)
        requires
            self.wf(),
        ensures
            r == self.countries().contains_key(code@),
    {
        let n: usize = self.countries.len();
        let mut i: usize = 0;
        while i < n
            invariant
                n == self.countries@.len(),
                i <= n,
                forall|j: int| 0 <= j < i ==> self.countries@[j].0@ != code@,
            decreases n - i,
        {
            if self.countries[i].0 == *code {
                return true;
            }
            i = i + 1;
        }
        proof {
            assert(!has_code(self.countries@, code@));
        }
        false
    }

    /// The country name registered under `code`, when there is one.
    pub fn get_country(&self, code: &String) -> (r: Option<String>)
        requires
            self.wf(),
        ensures
            r is Some <==> self.countries().contains_key(code@),
            r matches Some(name) ==> name@ == self.countries()[code@],
    {
        let n: usize = self.countries.len();
        let mut i: usize = 0;
        while i < n
            invariant
                self.wf(),
                n == self.countries@.len(),
                i <= n,
                forall|j: int| 0 <= j < i ==> self.countries@[j].0@ != code@,
            decreases n - i,
        {
            if self.countries[i].0 == *code {
                proof {
                    lemma_code_index(self.countries@, code@, i as int);
                }
                return Some(self.countries[i].1.clone());
            }
            i = i + 1;
        }
        proof {
            assert(!has_code(self.countries@, code@));
        }
        None
    }

    /// Remembers a message id to process later.
    pub fn store_msg(&mut self, msg: u64)
        requires
            old(self).wf(),
        ensures
            final(self).wf(),
            final(self).msgs() == old(self).msgs().insert(msg),
            final(self).countries() == old(self).countries(),
    {
        let n: usize = self.msgs_to_process.len();
        let mut i: usize = 0;
        while i < n
            invariant
                old(self).wf(),
                *self == *old(self),
                n == self.msgs_to_process@.len(),
                i <= n,
                forall|j: int| 0 <= j < i ==> self.msgs_to_process@[j] != msg,
            decreases n - i,
        {
            if self.msgs_to_process[i] == msg {
                proof {
                    assert(old(self).msgs().contains(msg));
                    assert(final(self).msgs() =~= old(self).msgs().insert(msg));
                }
                return ;
            }
            i = i + 1;
        }
        let ghost pre = self.msgs_to_process@;
        self.msgs_to_process.push(msg);
        proof {
            let post = self.msgs_to_process@;
            assert(msgs_distinct(post));
            assert(final(self).msgs() =~= old(self).msgs().insert(msg)) by {
                assert forall|e: u64| #[trigger] post.contains(e) == (pre.contains(e) || e == msg)
                by {
                    assert(post[pre.len() as int] == msg);
                    if pre.contains(e) {
                        let k = choose|k: int| 0 <= k < pre.len() && pre[k] == e;
                        assert(post[k] == e);
                    }
                    if post.contains(e) {
                        let k = choose|k: int| 0 <= k < post.len() && post[k] == e;
                        if k < pre.len() {
                            assert(pre[k] == e);
                        }
                    }
                }
            }
        }
    }

    /// Forgets a message id; reports whether it was known.
    pub fn remove_msg(&mut self, msg: u64) -> (r: bool)
        requires
            old(self).wf(),
        ensures
            final(self).wf(),
            r == old(self).msgs().contains(msg),
            final(self).msgs() == old(self).msgs().remove(msg),
            final(self).countries() == old(self).countries(),
    {
        let n: usize = self.msgs_to_process.len();
        let mut i: usize = 0;
        while i < n
            invariant
                old(self).wf(),
                *self == *old(self),
                n == self.msgs_to_process@.len(),
                i <= n,
                forall|j: int| 0 <= j < i ==> self.msgs_to_process@[j] != msg,
            decreases n - i,
        {
            if self.msgs_to_process[i] == msg {
                let ghost pre = self.msgs_to_process@;
                self.msgs_to_process.swap_remove(i);
                proof {
                    let post = self.msgs_to_process@;
                    assert(post == pre.update(i as int, pre.last()).drop_last());
                    assert(msgs_distinct(post)) by {
                        assert(forall|k: int|
                            0 <= k < post.len() ==> #[trigger] post[k] == (
                            if k == i {
                                pre[pre.len() - 1]
                            } else {
                                pre[k]
                            }));
                    }
                    assert(final(self).msgs() =~= old(self).msgs().remove(msg)) by {
                        assert forall|e: u64| #[trigger]
                            post.contains(e) == (pre.contains(e) && e != msg) by {
                            if post.contains(e) {
                                let k = choose|k: int| 0 <= k < post.len() && post[k] == e;
                                if k == i {
                                    assert(pre[pre.len() - 1] == e);
                                } else {
                                    assert(pre[k] == e);
                                }
                                assert(e != msg) by {
                                    if k == i {
                                        if i < pre.len() - 1 {
                                            assert(pre[i as int] != pre[pre.len() - 1]);
                                        }
                                    } else {
                                        assert(pre[i as int] == msg);
                                    }
                                }
                            }
                            if pre.contains(e) && e != msg {
                                let k = choose|k: int| 0 <= k < pre.len() && pre[k] == e;
                                assert(pre[i as int] == msg);
                                assert(k != i);
                                if k == pre.len() - 1 {
                                    assert(post[i as int] == e);
                                } else {
                                    assert(post[k] == e);
                                }
                            }
                        }
                    }
                }
                return true;
            }
            i = i + 1;
        }
        proof {
            assert(!self.msgs_to_process@.contains(msg));
            assert(final(self).msgs() =~= old(self).msgs().remove(msg));
        }
        false
    }

    /// Drops every message id waiting to be processed.
    pub fn clear_msgs_to_process(&mut self)
        requires
            old(self).wf(),
        ensures
            final(self).wf(),
            final(self).msgs() == Set::<u64>::empty(),
            final(self).countries() == old(self).countries(),
    {
        self.msgs_to_process.clear();
        proof {
            assert(final(self).msgs() =~= Set::<u64>::empty());
        }
    }
}

} // verus!
