//! `field.sub[].leaf` — the dotted path a `form!` entry is keyed by.
use vstd::prelude::*;

use crate::text::{join, push_str};

verus! {

/// One segment of a spec path.
pub struct Segment {
    pub ident: String,
    /// Whether the segment was written `name[]`: every element of the list,
    /// not the list itself.
    pub each: bool,
}

/// The segment as it reads inside a key: the name, then `[]` for a row.
pub open spec fn segment_text(s: Segment) -> Seq<char> {
    if s.each {
        s.ident@ + "[]"@
    } else {
        s.ident@
    }
}

/// A dotted path, where any segment may be followed by `[]`.
pub struct SpecPath {
    pub segments: Vec<Segment>,
}

/// The map key for these segments: dotted, with `[]` kept on the segment it
/// followed, so a list and its rows stay distinct.
pub open spec fn path_key(segments: Seq<Segment>) -> Seq<char> {
    join(segments.map_values(|s: Segment| segment_text(s)), "."@)
}

impl SpecPath {
    /// The map key: dotted, with `[]` kept as part of the segment it followed.
    pub fn key(&self) -> (r: String)
        ensures
            r@ == path_key(self.segments@),
    {
        let ghost texts = self.segments@.map_values(|s: Segment| segment_text(s));
        let mut r = String::new();
        let mut i: usize = 0;
        while i < self.segments.len()
            invariant
                i <= self.segments@.len(),
                texts == self.segments@.map_values(|s: Segment| segment_text(s)),
                r@ == join(texts.take(i as int), "."@),
            decreases self.segments.len() - i,
        {
            proof {
                assert(texts.take(i + 1).drop_last() =~= texts.take(i as int));
            }
            if i != 0 {
                push_str(&mut r, ".");
            } else {
                proof {
                    assert(r@ =~= Seq::<char>::empty());
                }
            }
            let seg = &self.segments[i];
            push_str(&mut r, seg.ident.as_str());
            if seg.each {
                push_str(&mut r, "[]");
            }
            proof {
                assert(texts.take(i + 1).last() == segment_text(self.segments@[i as int]));
            }
            i = i + 1;
        }
        proof {
            assert(texts.take(self.segments@.len() as int) =~= texts);
        }
        r
    }
}

/// What a bracket after a segment means: empty brackets are "every row"; an
/// index is refused, since a spec describes every row, not one of them.
pub fn bracket_each(brackets_empty: bool) -> (r: Result<bool, String>)
    ensures
        brackets_empty ==> r == Ok::<bool, String>(true),
        !brackets_empty ==> (r matches Err(m) && m@
            == "`[]` must be empty \u{2014} a spec applies to every row, not one index"@),
{
    if brackets_empty {
        Ok(true)
    } else {
        Err(crate::text::owned("`[]` must be empty \u{2014} a spec applies to every row, not one index"))
    }
}

/// What an identifier can be as far as keys care: not empty, and free of
/// the characters a key spells its structure with.
pub open spec fn plain_ident(s: Seq<char>) -> bool {
    &&& s.len() > 0
    &&& forall|i: int| 0 <= i < s.len() ==> s[i] != '.' && s[i] != '[' && s[i] != ']'
}

/// No character of `s` is a dot.
pub open spec fn dot_free(s: Seq<char>) -> bool {
    forall|i: int| 0 <= i < s.len() ==> s[i] != '.'
}

proof fn lemma_segment_text(s: Segment)
    requires
        plain_ident(s.ident@),
    ensures
        dot_free(segment_text(s)),
        segment_text(s).len() > 0,
        segment_text(s).last() == ']' <==> s.each,
{
    reveal_strlit("[]");
    let t = segment_text(s);
    if s.each {
        assert(t[t.len() - 1] == ']');
        assert forall|i: int| 0 <= i < t.len() implies t[i] != '.' by {
            if i < s.ident@.len() {
                assert(t[i] == s.ident@[i]);
            }
        }
    } else {
        assert(s.ident@[s.ident@.len() - 1] != ']');
    }
}

proof fn lemma_segment_text_identifies(a: Segment, b: Segment)
    requires
        plain_ident(a.ident@),
        plain_ident(b.ident@),
        segment_text(a) == segment_text(b),
    ensures
        a.ident@ == b.ident@,
        a.each == b.each,
{
    reveal_strlit("[]");
    lemma_segment_text(a);
    lemma_segment_text(b);
    if a.each && b.each {
        let ta = segment_text(a);
        assert(a.ident@.len() == b.ident@.len());
        assert forall|i: int| 0 <= i < a.ident@.len() implies a.ident@[i] == b.ident@[i] by {
            assert(ta[i] == a.ident@[i]);
            assert(segment_text(b)[i] == b.ident@[i]);
        }
        assert(a.ident@ =~= b.ident@);
    }
}

/// Where `x.t` and `y.u` are one string and neither `t` nor `u` has a dot,
/// the last dot is the same dot: `t` is `u` and `x` is `y`.
proof fn lemma_split_at_last_dot(x: Seq<char>, t: Seq<char>, y: Seq<char>, u: Seq<char>)
    requires
        x + seq!['.'] + t == y + seq!['.'] + u,
        dot_free(t),
        dot_free(u),
    ensures
        t == u,
        x == y,
{
    let l = x + seq!['.'] + t;
    let r = y + seq!['.'] + u;
    assert(l.len() == r.len());
    let yd = y + seq!['.'];
    let xd = x + seq!['.'];
    assert(l == xd + t);
    assert(r == yd + u);
    if t.len() < u.len() {
        let k = x.len() as int;
        assert(xd[k] == '.');
        assert(l[k] == '.');
        assert(k >= yd.len());
        assert(r[k] == u[k - yd.len()]);
    } else if u.len() < t.len() {
        let k = y.len() as int;
        assert(yd[k] == '.');
        assert(r[k] == '.');
        assert(k >= xd.len());
        assert(l[k] == t[k - xd.len()]);
    }
    assert(x.len() == y.len());
    assert forall|i: int| 0 <= i < t.len() implies t[i] == u[i] by {
        assert(l[xd.len() + i] == t[i]);
        assert(r[yd.len() + i] == u[i]);
    }
    assert forall|i: int| 0 <= i < x.len() implies x[i] == y[i] by {
        assert(xd[i] == x[i]);
        assert(yd[i] == y[i]);
        assert(l[i] == xd[i]);
        assert(r[i] == yd[i]);
    }
    assert(t =~= u);
    assert(x =~= y);
}

/// The texts of the segments, in order.
pub open spec fn segment_texts(segments: Seq<Segment>) -> Seq<Seq<char>> {
    segments.map_values(|s: Segment| segment_text(s))
}

proof fn lemma_key_shape(segments: Seq<Segment>)
    requires
        forall|i: int| 0 <= i < segments.len() ==> plain_ident(#[trigger] segments[i].ident@),
    ensures
        segments.len() == 0 ==> path_key(segments).len() == 0,
        segments.len() == 1 ==> path_key(segments) == segment_text(segments[0]) && dot_free(path_key(segments)),
        segments.len() >= 2 ==> path_key(segments) == path_key(segments.drop_last()) + seq!['.']
            + segment_text(segments.last()),
        segments.len() > 0 ==> path_key(segments).len() > 0,
{
    reveal_strlit(".");
    let ts = segment_texts(segments);
    if segments.len() == 1 {
        lemma_segment_text(segments[0]);
    }
    if segments.len() >= 2 {
        assert(ts.drop_last() =~= segment_texts(segments.drop_last()));
        lemma_segment_text(segments.last());
    }
}

/// A key names one path: two paths of plain identifiers with the same key
/// have the same segments, so checking keys for repeats checks paths.
pub proof fn lemma_key_identifies_path(a: Seq<Segment>, b: Seq<Segment>)
    requires
        forall|i: int| 0 <= i < a.len() ==> plain_ident(#[trigger] a[i].ident@),
        forall|i: int| 0 <= i < b.len() ==> plain_ident(#[trigger] b[i].ident@),
        path_key(a) == path_key(b),
    ensures
        a.len() == b.len(),
        forall|i: int| 0 <= i < a.len() ==> a[i].ident@ == b[i].ident@ && a[i].each == b[i].each,
    decreases a.len(),
{
    lemma_key_shape(a);
    lemma_key_shape(b);
    if a.len() == 1 && b.len() == 1 {
        lemma_segment_text_identifies(a[0], b[0]);
    } else if a.len() == 1 && b.len() >= 2 {
        let k = path_key(b.drop_last()).len() as int;
        assert(path_key(b)[k] == '.');
    } else if b.len() == 1 && a.len() >= 2 {
        let k = path_key(a.drop_last()).len() as int;
        assert(path_key(a)[k] == '.');
    } else if a.len() >= 2 && b.len() >= 2 {
        lemma_segment_text(a.last());
        lemma_segment_text(b.last());
        lemma_split_at_last_dot(
            path_key(a.drop_last()),
            segment_text(a.last()),
            path_key(b.drop_last()),
            segment_text(b.last()),
        );
        lemma_segment_text_identifies(a.last(), b.last());
        lemma_key_identifies_path(a.drop_last(), b.drop_last());
        assert forall|i: int| 0 <= i < a.len() implies a[i].ident@ == b[i].ident@ && a[i].each == b[i].each by {
            if i < a.len() - 1 {
                assert(a.drop_last()[i] == a[i]);
                assert(b.drop_last()[i] == b[i]);
            }
        }
    }
}

} // verus!
