//! The rows of a list-typed member. Each row is named by a `#`-prefixed key
//! (`answer_choices.#0.text`), and a key is an identity rather than a
//! position: a row can be inserted mid-list or removed without renaming its
//! neighbours, so every leaf beneath them keeps its path.
use vstd::prelude::*;

use crate::error::FormAccessError;
use crate::text::{decimal, owned, push_str, usize_to_string};

verus! {

/// A row's path segment for key `key`.
pub open spec fn row_segment_of(key: nat) -> Seq<char> {
    seq!['#'] + decimal(key)
}

/// A row's path segment: `#` and its key.
pub fn row_segment(key: usize) -> (r: String)
    ensures
        r@ == row_segment_of(key as nat),
{
    let mut r = owned("#");
    let digits = usize_to_string(key);
    push_str(&mut r, digits.as_str());
    proof {
        reveal_strlit("#");
    }
    r
}

/// The rows of a list, in display order, each with its key.
pub struct Rows<R> {
    rows: Vec<(usize, R)>,
    next_key: usize,
}

/// A key is an identity: no two rows share one, and every key is below the
/// one the next row will get.
pub open spec fn keys_unique<R>(rows: Seq<(usize, R)>, next_key: nat) -> bool {
    &&& forall|i: int, j: int| 0 <= i < j < rows.len() ==> #[trigger] rows[i].0 != #[trigger] rows[j].0
    &&& forall|i: int| 0 <= i < rows.len() ==> #[trigger] rows[i].0 < next_key
}

/// The message for an insertion position past the end.
pub open spec fn insert_error_message(at: nat, path: Seq<char>, len: nat) -> Seq<char> {
    "cannot insert at "@ + decimal(at) + " in "@ + path + ": it has "@ + decimal(len) + " rows"@
}

/// The message for a row index past the end.
pub open spec fn remove_error_message(index: nat, path: Seq<char>, len: nat) -> Seq<char> {
    "cannot remove row "@ + decimal(index) + " from "@ + path + ": it has "@ + decimal(len)
        + " rows"@
}

impl<R> View for Rows<R> {
    type V = Seq<(usize, R)>;

    closed spec fn view(&self) -> Self::V {
        self.rows@
    }
}

impl<R> Rows<R> {
    /// Every key is below the next one to hand out, and no two rows share one.
    #[verifier::type_invariant]
    closed spec fn keys_fresh(self) -> bool {
        &&& forall|i: int| 0 <= i < self.rows@.len() ==> #[trigger] self.rows@[i].0 < self.next_key
        &&& forall|i: int, j: int|
            0 <= i < j < self.rows@.len() ==> #[trigger] self.rows@[i].0 != #[trigger] self.rows@[j].0
    }

    /// The key the next row will get.
    pub closed spec fn next_key(self) -> nat {
        self.next_key as nat
    }

    /// No rows yet; the first row gets key 0.
    pub fn new() -> (r: Self)
        ensures
            r@ == Seq::<(usize, R)>::empty(),
            r.next_key() == 0,
            keys_unique(r@, r.next_key()),
    {
        Rows { rows: Vec::new(), next_key: 0 }
    }

    /// How many rows there are.
    pub fn len(&self) -> (r: usize)
        ensures
            r == self@.len(),
            keys_unique(self@, self.next_key()),
    {
        proof {
            use_type_invariant(self);
        }
        self.rows.len()
    }

    /// Put `row` before position `before`, or on the end, under a fresh key.
    pub fn add_row(&mut self, my_path: &str, before: Option<usize>, row: R) -> (r: Result<usize, FormAccessError>)
        requires
            old(self).next_key() < usize::MAX,
        ensures
            ({
                let at = match before {
                    Some(b) => b as int,
                    None => old(self)@.len() as int,
                };
                if at <= old(self)@.len() {
                    &&& r == Ok::<usize, FormAccessError>(old(self).next_key() as usize)
                    &&& final(self)@ == old(self)@.insert(at, (old(self).next_key() as usize, row))
                    &&& final(self).next_key() == old(self).next_key() + 1
                } else {
                    &&& r matches Err(e) && e.0@ == insert_error_message(
                        at as nat,
                        my_path@,
                        old(self)@.len(),
                    )
                    &&& final(self)@ == old(self)@
                    &&& final(self).next_key() == old(self).next_key()
                }
            }),
            keys_unique(final(self)@, final(self).next_key()),
    {
        proof {
            use_type_invariant(&*self);
        }
        let len = self.rows.len();
        let at = match before {
            Some(b) => b,
            None => len,
        };
        if at > len {
            let mut m = owned("cannot insert at ");
            let a = usize_to_string(at);
            push_str(&mut m, a.as_str());
            push_str(&mut m, " in ");
            push_str(&mut m, my_path);
            push_str(&mut m, ": it has ");
            let n = usize_to_string(len);
            push_str(&mut m, n.as_str());
            push_str(&mut m, " rows");
            return Err(FormAccessError(m));
        }
        let key = self.next_key;
        let ghost before_rows = self.rows@;
        let mut rows = Vec::new();
        std::mem::swap(&mut rows, &mut self.rows);
        rows.insert(at, (key, row));
        proof {
            assert(rows@ == before_rows.insert(at as int, (key, row)));
            assert forall|i: int| 0 <= i < rows@.len() implies #[trigger] rows@[i].0 < key + 1 by {
                if i < at {
                    assert(rows@[i] == before_rows[i]);
                } else if i > at {
                    assert(rows@[i] == before_rows[i - 1]);
                }
            }
            assert forall|i: int, j: int| 0 <= i < j < rows@.len() implies #[trigger] rows@[i].0
                != #[trigger] rows@[j].0 by {
                if i < at && j < at {
                    assert(rows@[i] == before_rows[i] && rows@[j] == before_rows[j]);
                } else if i < at && j == at {
                    assert(rows@[i] == before_rows[i]);
                } else if i < at && j > at {
                    assert(rows@[i] == before_rows[i] && rows@[j] == before_rows[j - 1]);
                } else if i == at {
                    assert(rows@[j] == before_rows[j - 1]);
                } else {
                    assert(rows@[i] == before_rows[i - 1] && rows@[j] == before_rows[j - 1]);
                }
            }
        }
        *self = Rows { rows, next_key: key + 1 };
        Ok(key)
    }

    /// Drop the row at `index`. The rows that stay keep their keys: nothing is
    /// renumbered.
    pub fn remove_row(&mut self, my_path: &str, index: usize) -> (r: Result<(), FormAccessError>)
        ensures
            index < old(self)@.len() ==> {
                &&& r is Ok
                &&& final(self)@ == old(self)@.remove(index as int)
                &&& final(self).next_key() == old(self).next_key()
            },
            index >= old(self)@.len() ==> {
                &&& r matches Err(e) && e.0@ == remove_error_message(index as nat, my_path@, old(self)@.len())
                &&& final(self)@ == old(self)@
                &&& final(self).next_key() == old(self).next_key()
            },
            keys_unique(final(self)@, final(self).next_key()),
    {
        proof {
            use_type_invariant(&*self);
        }
        let len = self.rows.len();
        if index >= len {
            let mut m = owned("cannot remove row ");
            let a = usize_to_string(index);
            push_str(&mut m, a.as_str());
            push_str(&mut m, " from ");
            push_str(&mut m, my_path);
            push_str(&mut m, ": it has ");
            let n = usize_to_string(len);
            push_str(&mut m, n.as_str());
            push_str(&mut m, " rows");
            return Err(FormAccessError(m));
        }
        let key = self.next_key;
        let ghost before_rows = self.rows@;
        let mut rows = Vec::new();
        std::mem::swap(&mut rows, &mut self.rows);
        let _gone = rows.remove(index);
        proof {
            assert(rows@ == before_rows.remove(index as int));
            assert forall|i: int| 0 <= i < rows@.len() implies #[trigger] rows@[i].0 < key by {
                if i < index {
                    assert(rows@[i] == before_rows[i]);
                } else {
                    assert(rows@[i] == before_rows[i + 1]);
                }
            }
            assert forall|i: int, j: int| 0 <= i < j < rows@.len() implies #[trigger] rows@[i].0
                != #[trigger] rows@[j].0 by {
                let bi = if i < index { i } else { i + 1 };
                let bj = if j < index { j } else { j + 1 };
                assert(rows@[i] == before_rows[bi]);
                assert(rows@[j] == before_rows[bj]);
            }
        }
        *self = Rows { rows, next_key: key };
        Ok(())
    }

    /// The rows, in display order.
    pub fn rows(&self) -> (r: &Vec<(usize, R)>)
        ensures
            r@ == self@,
            keys_unique(self@, self.next_key()),
    {
        proof {
            use_type_invariant(self);
        }
        &self.rows
    }
}

} // verus!
