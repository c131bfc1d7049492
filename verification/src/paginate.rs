//! Cursor pagination: a walker follows next-page cursors until the server
//! reports no more, guarding against cursor cycles, and accumulates items
//! all-or-nothing for the "fetch every page" variant.

use vstd::prelude::*;
use crate::client::copy_bytes;
use crate::encode::bytes_eq;
use crate::http::ClientError;

verus! {

/// Walks a paginated listing. `next_request` names the cursor to fetch;
/// each page's items and next cursor are fed back in. The walk ends when a
/// page carries no cursor, when a cursor repeats (a misbehaving server
/// would otherwise loop forever), or when a fetch fails. A finished or
/// failed walker is not restartable: a retry starts from a fresh walker.
pub struct Walker<T> {
    next: Option<Vec<u8>>,
    seen: Vec<Vec<u8>>,
    items: Vec<T>,
    failure: Option<ClientError>,
}

impl<T> Walker<T> {
    /// The cursor to request next; `None` once the walk is over.
    pub closed spec fn next_cursor(self) -> Option<Seq<u8>> {
        match self.next {
            Some(c) => Some(c@),
            None => None,
        }
    }

    /// Every cursor handed out so far, the initial one included.
    pub closed spec fn seen_cursors(self) -> Seq<Seq<u8>> {
        self.seen@.map_values(|c: Vec<u8>| c@)
    }

    /// The items accumulated, page after page, in order.
    pub closed spec fn items_seq(self) -> Seq<T> {
        self.items@
    }

    /// The first failure, if one was recorded.
    pub closed spec fn failure_spec(self) -> Option<ClientError> {
        self.failure
    }

    /// A walker that still has a page to fetch and has not failed.
    pub open spec fn in_progress(self) -> bool {
        self.next_cursor() is Some && self.failure_spec() is None
    }

    /// A fresh walk, starting from the initial cursor.
    pub fn new(initial: Vec<u8>) -> (w: Walker<T>)
        ensures
            w.next_cursor() == Some(initial@),
            w.seen_cursors() == seq![initial@],
            w.items_seq() == Seq::<T>::empty(),
            w.failure_spec() is None,
    {
        let first = copy_bytes(initial.as_slice());
        let mut seen: Vec<Vec<u8>> = Vec::new();
        seen.push(first);
        let w = Walker { next: Some(initial), seen, items: Vec::new(), failure: None };
        proof {
            assert(w.seen_cursors() =~= seq![initial@]);
        }
        w
    }

    fn cursor_seen(&self, c: &Vec<u8>) -> (r: bool)
        ensures
            r == self.seen_cursors().contains(c@),
    {
        let mut i: usize = 0;
        while i < self.seen.len()
            invariant
                0 <= i <= self.seen.len(),
                forall|k: int| 0 <= k < i ==> self.seen@[k]@ != c@,
            decreases self.seen.len() - i,
        {
            if bytes_eq(self.seen[i].as_slice(), c.as_slice()) {
                proof {
                    assert(self.seen_cursors()[i as int] == c@);
                }
                return true;
            }
            i = i + 1;
        }
        proof {
            assert forall|k: int| 0 <= k < self.seen_cursors().len() implies self.seen_cursors()[k]
                != c@ by {
                assert(self.seen_cursors()[k] == self.seen@[k]@);
            }
        }
        false
    }

    /// The request to issue next, if the walk is not over.
    pub fn next_request(&self) -> (r: Option<Vec<u8>>)
        ensures
            match r {
                Some(c) => self.next_cursor() == Some(c@),
                None => self.next_cursor() is None,
            },
    {
        match &self.next {
            Some(c) => Some(copy_bytes(c.as_slice())),
            None => None,
        }
    }

    /// Follow the cursor a fetched page reported. An absent or empty
    /// cursor ends the walk; a cursor already handed out ends it too
    /// (cycle guard) rather than looping; a fresh cursor becomes the next
    /// request.
    pub fn advance(&mut self, next_cursor: Option<Vec<u8>>)
        requires
            old(self).in_progress(),
        ensures
            final(self).items_seq() == old(self).items_seq(),
            final(self).failure_spec() is None,
            match next_cursor {
                None => final(self).next_cursor() is None && final(self).seen_cursors() == old(
                    self,
                ).seen_cursors(),
                Some(c) => {
                    if c@.len() == 0 || old(self).seen_cursors().contains(c@) {
                        final(self).next_cursor() is None && final(self).seen_cursors() == old(
                            self,
                        ).seen_cursors()
                    } else {
                        final(self).next_cursor() == Some(c@) && final(self).seen_cursors() == old(
                            self,
                        ).seen_cursors().push(c@)
                    }
                },
            },
    {
        match next_cursor {
            None => {
                self.next = None;
            },
            Some(c) => {
                if c.len() == 0 {
                    self.next = None;
                } else if self.cursor_seen(&c) {
                    self.next = None;
                } else {
                    let recorded = copy_bytes(c.as_slice());
                    self.seen.push(recorded);
                    self.next = Some(c);
                    proof {
                        assert(self.seen_cursors() =~= old(self).seen_cursors().push(
                            self.next_cursor()->Some_0,
                        ));
                    }
                }
            },
        }
    }

    /// Feed one fetched page: append its items in order, then follow its
    /// cursor as `advance` does.
    pub fn on_page(&mut self, page: Vec<T>, next_cursor: Option<Vec<u8>>)
        requires
            old(self).in_progress(),
        ensures
            final(self).items_seq() == old(self).items_seq() + page@,
            final(self).failure_spec() is None,
            match next_cursor {
                None => final(self).next_cursor() is None && final(self).seen_cursors() == old(
                    self,
                ).seen_cursors(),
                Some(c) => {
                    if c@.len() == 0 || old(self).seen_cursors().contains(c@) {
                        final(self).next_cursor() is None && final(self).seen_cursors() == old(
                            self,
                        ).seen_cursors()
                    } else {
                        final(self).next_cursor() == Some(c@) && final(self).seen_cursors() == old(
                            self,
                        ).seen_cursors().push(c@)
                    }
                },
            },
    {
        let mut page = page;
        self.items.append(&mut page);
        self.advance(next_cursor);
    }

    /// Record a failed page fetch: the walk is over and, for the
    /// all-or-nothing variant, everything accumulated is discarded.
    pub fn on_failure(&mut self, e: ClientError)
        requires
            old(self).in_progress(),
        ensures
            final(self).next_cursor() is None,
            final(self).failure_spec() == Some(e),
            final(self).items_seq() == Seq::<T>::empty(),
            final(self).seen_cursors() == old(self).seen_cursors(),
    {
        self.next = None;
        self.failure = Some(e);
        self.items = Vec::new();
    }

    /// The all-or-nothing outcome: every item of every page, or the first
    /// failure with nothing else.
    pub fn into_result(self) -> (r: Result<Vec<T>, ClientError>)
        ensures
            match self.failure_spec() {
                Some(e) => r matches Err(e2) && e2 == e,
                None => r matches Ok(v) && v@ == self.items_seq(),
            },
    {
        match self.failure {
            Some(e) => Err(e),
            None => Ok(self.items),
        }
    }
}

} // verus!
