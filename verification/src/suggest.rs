//! "Did you mean": how a name the macros do not know is answered.
use vstd::prelude::*;

use crate::text::{chars_of, contains_str, join, join_strs, owned, push_str, str_eq, string_of, views};

verus! {

/// What `char::is_uppercase` answers for `c` (the Unicode `Uppercase` property).
pub uninterp spec fn char_is_uppercase(c: char) -> bool;

/// The characters `char::to_lowercase` yields for `c` (Unicode lowercase mapping).
pub uninterp spec fn char_lowercase(c: char) -> Seq<char>;

/// `char::is_uppercase`; the contract claims only that the answer is a
/// function of the character.
#[verifier::external_body]
fn is_uppercase(c: char) -> (r: bool)
    ensures
        r == char_is_uppercase(c),
{
    c.is_uppercase()
}

/// `char::to_lowercase`, collected; the contract claims only that the result
/// is a function of the character.
#[verifier::external_body]
fn to_lowercase(c: char) -> (r: Vec<char>)
    ensures
        r@ == char_lowercase(c),
{
    c.to_lowercase().collect()
}

/// `DatetimeLocal` -> `datetime_local`: every uppercase character becomes its
/// lowercase form, preceded by `_` unless it is the first character.
pub open spec fn snake(s: Seq<char>) -> Seq<char>
    decreases s.len(),
{
    if s.len() == 0 {
        Seq::empty()
    } else {
        let c = s.last();
        let head = snake(s.drop_last());
        if char_is_uppercase(c) {
            if s.len() == 1 {
                char_lowercase(c)
            } else {
                head.push('_') + char_lowercase(c)
            }
        } else {
            head.push(c)
        }
    }
}

/// A name with no uppercase character is already snake case: `to_snake`
/// gives it back unchanged, so it is never reported as a case mistake.
pub proof fn lemma_snake_keeps_lowercase(s: Seq<char>)
    requires
        forall|i: int| 0 <= i < s.len() ==> !char_is_uppercase(#[trigger] s[i]),
    ensures
        snake(s) == s,
    decreases s.len(),
{
    if s.len() > 0 {
        assert(!char_is_uppercase(s[s.len() - 1]));
        lemma_snake_keeps_lowercase(s.drop_last());
        assert(s =~= s.drop_last().push(s.last()));
    }
}

/// `DatetimeLocal` -> `datetime_local`. Only good enough to recognise the
/// enum-shaped spellings an author might copy.
pub fn to_snake(s: &str) -> (r: String)
    ensures
        r@ == snake(s@),
{
    let cs = chars_of(s);
    let mut out: Vec<char> = Vec::new();
    let mut i: usize = 0;
    while i < cs.len()
        invariant
            cs@ == s@,
            i <= cs.len(),
            out@ == snake(cs@.take(i as int)),
        decreases cs.len() - i,
    {
        let c = cs[i];
        proof {
            assert(cs@.take(i + 1).drop_last() =~= cs@.take(i as int));
            assert(cs@.take(i + 1).last() == c);
        }
        if is_uppercase(c) {
            if i != 0 {
                out.push('_');
            }
            let mut low = to_lowercase(c);
            proof {
                if i == 0 {
                    assert(out@ =~= Seq::<char>::empty());
                    assert(out@ + low@ =~= low@);
                }
            }
            out.append(&mut low);
        } else {
            out.push(c);
        }
        i = i + 1;
    }
    proof {
        assert(cs@.take(cs@.len() as int) =~= cs@);
    }
    string_of(&out)
}

/// The smaller of two naturals.
pub open spec fn min_nat(x: nat, y: nat) -> nat {
    if x <= y { x } else { y }
}

/// Levenshtein distance: the fewest single-character insertions, deletions
/// and substitutions that turn `a` into `b`.
pub open spec fn levenshtein(a: Seq<char>, b: Seq<char>) -> nat
    decreases a.len() + b.len(),
{
    if a.len() == 0 {
        b.len()
    } else if b.len() == 0 {
        a.len()
    } else {
        let cost: nat = if a.last() == b.last() { 0 } else { 1 };
        min_nat(
            min_nat(
                levenshtein(a.drop_last(), b.drop_last()) + cost,
                levenshtein(a.drop_last(), b) + 1,
            ),
            levenshtein(a, b.drop_last()) + 1,
        )
    }
}

/// The distance never exceeds the longer of the two lengths.
pub proof fn lemma_levenshtein_bounded(a: Seq<char>, b: Seq<char>)
    ensures
        levenshtein(a, b) <= if a.len() >= b.len() { a.len() } else { b.len() },
    decreases a.len() + b.len(),
{
    if a.len() > 0 && b.len() > 0 {
        lemma_levenshtein_bounded(a.drop_last(), b.drop_last());
    }
}

/// A name is no edits away from itself and only from itself.
pub proof fn lemma_levenshtein_zero(a: Seq<char>, b: Seq<char>)
    ensures
        levenshtein(a, b) == 0 <==> a == b,
    decreases a.len() + b.len(),
{
    if a.len() > 0 && b.len() > 0 {
        lemma_levenshtein_zero(a.drop_last(), b.drop_last());
        if a == b {
            assert(a.drop_last() == b.drop_last());
        }
        if levenshtein(a, b) == 0 {
            assert(a.last() == b.last());
            assert(a =~= a.drop_last().push(a.last()));
            assert(b =~= b.drop_last().push(b.last()));
        }
    } else if a.len() == 0 && b.len() == 0 {
        assert(a =~= b);
    }
}

/// The distance from `a` to `b` is the distance from `b` to `a`.
pub proof fn lemma_levenshtein_symmetric(a: Seq<char>, b: Seq<char>)
    ensures
        levenshtein(a, b) == levenshtein(b, a),
    decreases a.len() + b.len(),
{
    if a.len() > 0 && b.len() > 0 {
        lemma_levenshtein_symmetric(a.drop_last(), b.drop_last());
        lemma_levenshtein_symmetric(a.drop_last(), b);
        lemma_levenshtein_symmetric(a, b.drop_last());
    }
}

/// The distance is at least the difference of the two lengths: every
/// character one has over the other takes an edit.
pub proof fn lemma_levenshtein_at_least_length_difference(a: Seq<char>, b: Seq<char>)
    ensures
        levenshtein(a, b) >= if a.len() >= b.len() { a.len() - b.len() } else { b.len() - a.len() },
    decreases a.len() + b.len(),
{
    if a.len() > 0 && b.len() > 0 {
        lemma_levenshtein_at_least_length_difference(a.drop_last(), b.drop_last());
        lemma_levenshtein_at_least_length_difference(a.drop_last(), b);
        lemma_levenshtein_at_least_length_difference(a, b.drop_last());
    }
}

/// Levenshtein distance, for "did you mean". Small inputs, so the simple
/// two-row version is plenty.
pub fn edit_distance(a: &str, b: &str) -> (r: usize)
    ensures
        r == levenshtein(a@, b@),
{
    let av = chars_of(a);
    let bv = chars_of(b);
    let m = bv.len();
    // prev[j] == levenshtein(a[..i], b[..j])
    let mut prev: Vec<usize> = Vec::new();
    let mut j: usize = 0;
    while j <= m
        invariant
            m == bv@.len(),
            m < usize::MAX,
            j <= m + 1,
            prev@.len() == j,
            forall|k: int| 0 <= k < j ==> prev@[k] == levenshtein(Seq::<char>::empty(), bv@.take(k)),
        decreases m + 1 - j,
    {
        prev.push(j);
        j = j + 1;
    }
    let mut i: usize = 0;
    while i < av.len()
        invariant
            av@ == a@,
            bv@ == b@,
            m == bv@.len(),
            m < usize::MAX,
            av@.len() < usize::MAX,
            i <= av.len(),
            prev@.len() == m + 1,
            forall|k: int| 0 <= k <= m ==> prev@[k] == levenshtein(av@.take(i as int), #[trigger] bv@.take(k)),
        decreases av.len() - i,
    {
        let ca = av[i];
        let ghost ai = av@.take(i as int);
        let ghost ai1 = av@.take(i + 1);
        proof {
            assert(ai1.drop_last() =~= ai);
            assert(ai1.last() == ca);
        }
        let mut cur: Vec<usize> = Vec::new();
        cur.push(i + 1);
        proof {
            assert(levenshtein(ai1, bv@.take(0)) == i + 1);
        }
        let mut j: usize = 0;
        while j < m
            invariant
                av@.len() < usize::MAX,
                i < av@.len(),
                ai1 == av@.take(i + 1),
                ai == av@.take(i as int),
                ai1.drop_last() == ai,
                ai1.last() == ca,
                ai1.len() == i + 1,
                ai.len() == i,
                m == bv@.len(),
                m < usize::MAX,
                j <= m,
                prev@.len() == m + 1,
                cur@.len() == j + 1,
                forall|k: int| 0 <= k <= m ==> prev@[k] == levenshtein(ai, #[trigger] bv@.take(k)),
                forall|k: int| 0 <= k <= j ==> cur@[k] == levenshtein(ai1, #[trigger] bv@.take(k)),
            decreases m - j,
        {
            let cb = bv[j];
            let ghost bj1 = bv@.take(j + 1);
            proof {
                assert(bj1.drop_last() =~= bv@.take(j as int));
                assert(bj1.last() == cb);
                lemma_levenshtein_bounded(ai, bv@.take(j as int));
                lemma_levenshtein_bounded(ai, bj1);
                lemma_levenshtein_bounded(ai1, bv@.take(j as int));
                assert(prev@[j + 1] == levenshtein(ai, bv@.take(j + 1)));
                assert(prev@[j as int] == levenshtein(ai, bv@.take(j as int)));
                assert(cur@[j as int] == levenshtein(ai1, bv@.take(j as int)));
            }
            let cost: usize = if ca == cb { 0 } else { 1 };
            let diag = prev[j] + cost;
            let up = prev[j + 1] + 1;
            let left = cur[j] + 1;
            let mut best = diag;
            if up < best {
                best = up;
            }
            if left < best {
                best = left;
            }
            proof {
                assert(levenshtein(ai1, bj1) == min_nat(
                    min_nat(levenshtein(ai, bv@.take(j as int)) + (cost as nat), levenshtein(ai, bj1) + 1),
                    levenshtein(ai1, bv@.take(j as int)) + 1,
                ));
            }
            cur.push(best);
            j = j + 1;
        }
        prev = cur;
        i = i + 1;
    }
    proof {
        assert(av@.take(av@.len() as int) =~= av@);
        assert(bv@.take(m as int) =~= bv@);
    }
    prev[m]
}

/// `names[k]` is the first of the names closest to `lowered`, among those no
/// more than two edits away.
pub open spec fn is_first_nearest(lowered: Seq<char>, names: Seq<Seq<char>>, k: int) -> bool {
    &&& 0 <= k < names.len()
    &&& levenshtein(lowered, names[k]) <= 2
    &&& forall|j: int|
        0 <= j < names.len() && levenshtein(lowered, names[j]) <= 2 ==> {
            &&& levenshtein(lowered, names[k]) <= levenshtein(lowered, #[trigger] names[j])
            &&& j < k ==> levenshtein(lowered, names[k]) < levenshtein(lowered, names[j])
        }
}

/// The closest name within two edits, the first one on a tie; `None` when no
/// name is that close.
pub open spec fn nearest(lowered: Seq<char>, names: Seq<Seq<char>>) -> Option<int> {
    if exists|k: int| is_first_nearest(lowered, names, k) {
        Some(choose|k: int| is_first_nearest(lowered, names, k))
    } else {
        None
    }
}

proof fn lemma_first_nearest_unique(lowered: Seq<char>, names: Seq<Seq<char>>, k: int)
    requires
        is_first_nearest(lowered, names, k),
    ensures
        nearest(lowered, names) == Some(k),
{
    let c = choose|k: int| is_first_nearest(lowered, names, k);
    assert(is_first_nearest(lowered, names, c));
    if c < k {
        assert(levenshtein(lowered, names[k]) < levenshtein(lowered, names[c]));
    } else if k < c {
        assert(levenshtein(lowered, names[c]) < levenshtein(lowered, names[k]));
    }
}

/// The closest of `names` to `lowered`, as `filter(d <= 2).min_by_key(d)` finds it.
pub fn nearest_name(lowered: &str, names: &Vec<&str>) -> (r: Option<usize>)
    ensures
        match nearest(lowered@, views(names@)) {
            Some(k) => r == Some(k as usize),
            None => r is None,
        },
        r matches Some(k) ==> k < names@.len() && nearest(lowered@, views(names@)) == Some(k as int),
{
    let ghost ns = views(names@);
    let mut best: Option<usize> = None;
    let mut best_d: usize = 0;
    let mut i: usize = 0;
    while i < names.len()
        invariant
            i <= names.len(),
            ns == views(names@),
            match best {
                None => forall|j: int| 0 <= j < i ==> levenshtein(lowered@, #[trigger] ns[j]) > 2,
                Some(k) => {
                    &&& k < i
                    &&& best_d == levenshtein(lowered@, ns[k as int])
                    &&& best_d <= 2
                    &&& forall|j: int|
                        0 <= j < i && levenshtein(lowered@, ns[j]) <= 2 ==> {
                            &&& best_d <= levenshtein(lowered@, #[trigger] ns[j])
                            &&& j < k ==> best_d < levenshtein(lowered@, ns[j])
                        }
                },
            },
        decreases names.len() - i,
    {
        let d = edit_distance(lowered, names[i]);
        if d <= 2 {
            match best {
                None => {
                    best = Some(i);
                    best_d = d;
                },
                Some(_) => {
                    if d < best_d {
                        best = Some(i);
                        best_d = d;
                    }
                },
            }
        }
        i = i + 1;
    }
    match best {
        None => {
            proof {
                if exists|k: int| is_first_nearest(lowered@, ns, k) {
                    let k = choose|k: int| is_first_nearest(lowered@, ns, k);
                    assert(levenshtein(lowered@, ns[k]) > 2);
                }
            }
        },
        Some(k) => {
            proof {
                assert(is_first_nearest(lowered@, ns, k as int));
                lemma_first_nearest_unique(lowered@, ns, k as int);
            }
        },
    }
    best
}

/// The message for a name that is not in the table `names`, in three cases,
/// in order of how likely the author is to have meant them: a name that is in
/// the table under a different case, a near miss, and no idea.
pub open spec fn unknown_name_message(
    noun: Seq<char>,
    names_word: Seq<char>,
    written: Seq<char>,
    names: Seq<Seq<char>>,
    tail: Seq<char>,
) -> Seq<char> {
    let lowered = snake(written);
    let lead = "unknown "@ + noun + " `"@ + written + "` \u{2014} "@;
    if lowered != written && names.contains(lowered) {
        lead + names_word + " names are lowercase, write `"@ + lowered + "`"@
    } else {
        match nearest(lowered, names) {
            Some(k) => lead + "did you mean `"@ + names[k] + "`?"@,
            None => lead + "expected one of "@ + join(names, ", "@) + tail,
        }
    }
}

/// Builds [`unknown_name_message`].
pub fn unknown_name(
    noun: &str,
    names_word: &str,
    written: &str,
    names: &Vec<&str>,
    tail: &str,
) -> (r: String)
    ensures
        r@ == unknown_name_message(noun@, names_word@, written@, views(names@), tail@),
{
    let lowered = to_snake(written);
    let mut lead = owned("unknown ");
    push_str(&mut lead, noun);
    push_str(&mut lead, " `");
    push_str(&mut lead, written);
    push_str(&mut lead, "` \u{2014} ");
    let ghost lead0 = lead@;
    proof {
        assert(lead0 == "unknown "@ + noun@ + " `"@ + written@ + "` \u{2014} "@);
        assert(lowered@ == snake(written@));
    }
    if !str_eq(lowered.as_str(), written) && contains_str(names, lowered.as_str()) {
        push_str(&mut lead, names_word);
        push_str(&mut lead, " names are lowercase, write `");
        push_str(&mut lead, lowered.as_str());
        push_str(&mut lead, "`");
        return lead;
    }
    match nearest_name(lowered.as_str(), names) {
        Some(k) => {
            proof {
                assert(views(names@)[k as int] == names@[k as int]@);
            }
            push_str(&mut lead, "did you mean `");
            push_str(&mut lead, names[k]);
            push_str(&mut lead, "`?");
            proof {
                assert(!(lowered@ != written@ && views(names@).contains(lowered@)));
                assert(nearest(snake(written@), views(names@)) == Some(k as int));
                assert(lead@ == lead0 + "did you mean `"@ + views(names@)[k as int] + "`?"@);
            }
            lead
        },
        None => {
            push_str(&mut lead, "expected one of ");
            let all = join_strs(names, ", ");
            push_str(&mut lead, all.as_str());
            push_str(&mut lead, tail);
            lead
        },
    }
}

} // verus!
