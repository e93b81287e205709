//! Process-wide set of live, fully authenticated omikron sessions, keyed
//! by omikron id.

use vstd::prelude::*;

use crate::presence::{contains_i64, lemma_filter_no_dup, lemma_filter_sub, not_omikron, remove_i64};

verus! {

broadcast use vstd::seq_lib::group_filter_ensures;

/// The ids of every omikron whose session reached the authenticated phase
/// and has not yet closed.
pub struct OmikronRegistry {
    pub ids: Vec<i64>,
}

impl OmikronRegistry {
    pub open spec fn wf(self) -> bool {
        self.ids@.no_duplicates()
    }

    /// Whether a live session for `omikron_id` is registered.
    pub open spec fn registered(self, omikron_id: i64) -> bool {
        self.ids@.contains(omikron_id)
    }

    pub fn new() -> (r: OmikronRegistry)
        ensures
            r.wf(),
            forall|o: i64| !(#[trigger] r.registered(o)),
    {
        OmikronRegistry { ids: Vec::new() }
    }

    /// Registers a session that has completed the handshake.
    pub fn add_omikron(&mut self, omikron_id: i64)
        requires
            old(self).wf(),
        ensures
            final(self).wf(),
            forall|o: i64|
                #[trigger] final(self).registered(o) <==> (old(self).registered(o) || o
                    == omikron_id),
    {
        if !contains_i64(&self.ids, omikron_id) {
            let ghost s0 = self.ids@;
            self.ids.push(omikron_id);
            proof {
                let s1 = self.ids@;
                assert forall|a: int, b: int|
                    0 <= a < s1.len() && 0 <= b < s1.len() && a != b implies s1[a] != s1[b] by {
                    if a < s0.len() && b < s0.len() {
                        assert(s0[a] != s0[b]);
                    } else if a == s0.len() {
                        assert(s1[b] == s0[b]);
                        if s0[b] == omikron_id {
                            assert(s0.contains(omikron_id));
                        }
                    } else {
                        assert(s1[a] == s0[a]);
                        if s0[a] == omikron_id {
                            assert(s0.contains(omikron_id));
                        }
                    }
                }
                assert forall|o: i64| #[trigger] final(self).registered(o) <==> (old(self).registered(o) || o == omikron_id) by {
                    if s1.contains(o) {
                        let w = choose|w: int| 0 <= w < s1.len() && s1[w] == o;
                        if w < s0.len() {
                            assert(s0[w] == o);
                        }
                    }
                    if s0.contains(o) {
                        let w = choose|w: int| 0 <= w < s0.len() && s0[w] == o;
                        assert(s1[w] == o);
                    }
                    if o == omikron_id {
                        assert(s1[s0.len() as int] == o);
                    }
                }
            }
        }
    }

    /// Drops the session registered for `omikron_id`, if any.
    pub fn remove_omikron(&mut self, omikron_id: i64)
        requires
            old(self).wf(),
        ensures
            final(self).wf(),
            forall|o: i64|
                #[trigger] final(self).registered(o) <==> (old(self).registered(o) && o
                    != omikron_id),
    {
        let ghost s0 = self.ids@;
        let kept = remove_i64(&self.ids, omikron_id);
        self.ids = kept;
        proof {
            lemma_filter_no_dup(s0, not_omikron(omikron_id));
            lemma_filter_sub(s0, not_omikron(omikron_id));
            let s1 = self.ids@;
            assert forall|o: i64| #[trigger] final(self).registered(o) <==> (old(self).registered(o) && o != omikron_id) by {
                if s1.contains(o) {
                    let w = choose|w: int| 0 <= w < s1.len() && s1[w] == o;
                    assert((not_omikron(omikron_id))(s1[w]));
                }
                if s0.contains(o) && o != omikron_id {
                    let w = choose|w: int| 0 <= w < s0.len() && s0[w] == o;
                    assert((not_omikron(omikron_id))(s0[w]));
                    assert(s1.contains(s0[w]));
                }
            }
        }
    }

    /// Whether `omikron_id` currently has a live session.
    pub fn get_omikron(&self, omikron_id: i64) -> (r: bool)
        ensures
            r == self.registered(omikron_id),
    {
        contains_i64(&self.ids, omikron_id)
    }

    pub fn len(&self) -> (r: usize)
        ensures
            r == self.ids@.len(),
    {
        self.ids.len()
    }

    /// Picks some live omikron, if any is registered.
    pub fn get_random_omikron(&self) -> (r: Option<i64>)
        ensures
            match r {
                Some(o) => self.registered(o),
                None => self.ids@.len() == 0,
            },
    {
        let n = self.ids.len();
        if n == 0 {
            None
        } else {
            let i = crate::entropy::rand_below(n);
            let o = self.ids[i];
            proof {
                assert(self.ids@[i as int] == o);
            }
            Some(o)
        }
    }
}

} // verus!
