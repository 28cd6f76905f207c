//! The member tree of a built form, as plain values: fields, nested field
//! sets, lists of rows and enum variants. Every leaf has a qualified path
//! (`venue.city`, `venues.#0.city`, `shape.$Circle.radius`), and that path is
//! what crosses the wire: the leaves go out as `(path, value)` pairs, values
//! come back in by path, and errors are routed back onto the member a path
//! names.
use vstd::prelude::*;

use crate::error::{FieldError, FormAccessError, FormError, FormErrors};
use crate::fields::error_messages;
use crate::text::{chars_of, owned, push_str, str_eq};

verus! {

/// One member of a form's tree.
pub enum Member {
    /// One input: its raw text and its errors.
    Field { name: String, errors: Vec<FieldError>, raw: String },
    /// A nested struct, whose members sit below its name.
    FieldSet { name: String, errors: Vec<FormError>, members: Vec<Member> },
    /// A list, whose rows sit below its name, each named by its key (`#0`).
    ListSet { name: String, errors: Vec<FormError>, rows: Vec<Member> },
    /// An enum: the chosen variant's members sit below its name and a
    /// `$Variant` segment; unchosen, it has none.
    VariantSet { name: String, errors: Vec<FieldError>, chosen: Option<String>, members: Vec<Member> },
}

/// The member's own name, the last segment of its path.
pub open spec fn name_of(m: Member) -> Seq<char> {
    match m {
        Member::Field { name, .. } => name@,
        Member::FieldSet { name, .. } => name@,
        Member::ListSet { name, .. } => name@,
        Member::VariantSet { name, .. } => name@,
    }
}

/// `name` below `prefix`: the prefix, a dot and the name, or the name alone
/// at the root.
pub open spec fn qualify(prefix: Seq<char>, name: Seq<char>) -> Seq<char> {
    if prefix.len() == 0 {
        name
    } else {
        prefix + seq!['.'] + name
    }
}

/// The segment a chosen variant's members sit under.
pub open spec fn variant_segment(variant: Seq<char>) -> Seq<char> {
    seq!['$'] + variant
}

/// Whether the member at `owner` owns `path`: it is that path, or `path`
/// lies below it.
pub open spec fn owns(owner: Seq<char>, path: Seq<char>) -> bool {
    path == owner || (path.len() > owner.len() && path.subrange(0, owner.len() as int) == owner
        && path[owner.len() as int] == '.')
}

/// The message for a path that names no member able to take it.
pub open spec fn no_such_path_message(path: Seq<char>) -> Seq<char> {
    "no field at `"@ + path + "`"@
}

/// `qualify`, as a `String`.
pub fn qualify_path(prefix: &str, name: &str) -> (r: String)
    ensures
        r@ == qualify(prefix@, name@),
{
    proof {
        reveal_strlit(".");
    }
    if str_eq(prefix, "") {
        proof {
            reveal_strlit("");
            assert(""@ =~= Seq::<char>::empty());
        }
        owned(name)
    } else {
        proof {
            reveal_strlit("");
            assert(""@ =~= Seq::<char>::empty());
            if prefix@.len() == 0 {
                assert(prefix@ =~= Seq::<char>::empty());
            }
        }
        let mut r = owned(prefix);
        push_str(&mut r, ".");
        push_str(&mut r, name);
        r
    }
}

/// `variant_segment`, as a `String`.
fn variant_path(prefix: &str, name: &str, variant: &str) -> (r: String)
    ensures
        r@ == qualify(qualify(prefix@, name@), variant_segment(variant@)),
{
    let mine = qualify_path(prefix, name);
    let mut seg = owned("$");
    push_str(&mut seg, variant);
    proof {
        reveal_strlit("$");
    }
    qualify_path(mine.as_str(), seg.as_str())
}

/// `owns`, computed.
pub fn owns_path(owner: &str, path: &str) -> (r: bool)
    ensures
        r == owns(owner@, path@),
{
    let o = chars_of(owner);
    let p = chars_of(path);
    if p.len() < o.len() {
        return false;
    }
    let mut i: usize = 0;
    while i < o.len()
        invariant
            o@ == owner@,
            p@ == path@,
            o@.len() <= p@.len(),
            i <= o@.len(),
            forall|k: int| 0 <= k < i ==> o@[k] == p@[k],
        decreases o.len() - i,
    {
        if o[i] != p[i] {
            proof {
                assert(path@.subrange(0, owner@.len() as int)[i as int] != owner@[i as int]);
            }
            return false;
        }
        i = i + 1;
    }
    proof {
        assert(path@.subrange(0, owner@.len() as int) =~= owner@);
    }
    if p.len() == o.len() {
        proof {
            assert(path@ =~= owner@);
        }
        true
    } else {
        p[o.len()] == '.'
    }
}

// ── Leaves ──────────────────────────────────────────────────────────────

/// The `(path, raw value)` of every field under `m`, in tree order. An
/// unchosen variant has none.
pub open spec fn leaves_of(m: Member, prefix: Seq<char>) -> Seq<(Seq<char>, Seq<char>)>
    decreases m,
{
    match m {
        Member::Field { name, raw, .. } => seq![(qualify(prefix, name@), raw@)],
        Member::FieldSet { name, members, .. } => leaves_in(members@, qualify(prefix, name@)),
        Member::ListSet { name, rows, .. } => leaves_in(rows@, qualify(prefix, name@)),
        Member::VariantSet { name, chosen, members, .. } => match chosen {
            None => Seq::empty(),
            Some(v) => leaves_in(members@, qualify(qualify(prefix, name@), variant_segment(v@))),
        },
    }
}

/// The leaves of each member in turn.
pub open spec fn leaves_in(ms: Seq<Member>, prefix: Seq<char>) -> Seq<(Seq<char>, Seq<char>)>
    decreases ms,
{
    if ms.len() == 0 {
        Seq::empty()
    } else {
        leaves_in(ms.drop_last(), prefix) + leaves_of(ms.last(), prefix)
    }
}

/// A list of string pairs, as values.
pub open spec fn pair_views(v: Seq<(String, String)>) -> Seq<(Seq<char>, Seq<char>)> {
    v.map_values(|p: (String, String)| (p.0@, p.1@))
}

fn push_pair(out: &mut Vec<(String, String)>, a: String, b: String)
    ensures
        pair_views(final(out)@) == pair_views(old(out)@).push((a@, b@)),
{
    out.push((a, b));
    proof {
        assert(pair_views(final(out)@) =~= pair_views(old(out)@).push((a@, b@)));
    }
}

fn collect_leaves_member(m: &Member, prefix: &str, out: &mut Vec<(String, String)>)
    ensures
        pair_views(final(out)@) == pair_views(old(out)@) + leaves_of(*m, prefix@),
    decreases m,
{
    match m {
        Member::Field { name, raw, .. } => {
            let path = qualify_path(prefix, name.as_str());
            push_pair(out, path, owned(raw.as_str()));
            proof {
                assert(seq![(qualify(prefix@, name@), raw@)] =~= leaves_of(*m, prefix@));
            }
        },
        Member::FieldSet { name, members, .. } => {
            let nested = qualify_path(prefix, name.as_str());
            collect_leaves_in(members, nested.as_str(), out);
        },
        Member::ListSet { name, rows, .. } => {
            let nested = qualify_path(prefix, name.as_str());
            collect_leaves_in(rows, nested.as_str(), out);
        },
        Member::VariantSet { name, chosen, members, .. } => match chosen {
            None => {
                proof {
                    assert(pair_views(old(out)@) + leaves_of(*m, prefix@) =~= pair_views(old(out)@));
                }
            },
            Some(v) => {
                let nested = variant_path(prefix, name.as_str(), v.as_str());
                collect_leaves_in(members, nested.as_str(), out);
            },
        },
    }
}

fn collect_leaves_in(ms: &Vec<Member>, prefix: &str, out: &mut Vec<(String, String)>)
    ensures
        pair_views(final(out)@) == pair_views(old(out)@) + leaves_in(ms@, prefix@),
    decreases ms,
{
    let ghost start = pair_views(out@);
    let mut i: usize = 0;
    proof {
        assert(ms@.take(0) =~= Seq::<Member>::empty());
        assert(start + leaves_in(ms@.take(0), prefix@) =~= start);
    }
    while i < ms.len()
        invariant
            i <= ms@.len(),
            pair_views(out@) == start + leaves_in(ms@.take(i as int), prefix@),
        decreases ms.len() - i,
    {
        proof {
            assert(ms@.take(i + 1).drop_last() =~= ms@.take(i as int));
            assert(ms@.take(i + 1).last() == ms@[i as int]);
            assert(decreases_to!(ms => ms@));
        }
        collect_leaves_member(&ms[i], prefix, out);
        proof {
            assert(start + leaves_in(ms@.take(i + 1), prefix@) =~= start + leaves_in(ms@.take(i as int), prefix@)
                + leaves_of(ms@[i as int], prefix@));
        }
        i = i + 1;
    }
    proof {
        assert(ms@.take(ms@.len() as int) =~= ms@);
    }
}

/// Every field's `(qualified path, raw value)`, in tree order: what goes out
/// over the wire.
pub fn leaves(members: &Vec<Member>) -> (r: Vec<(String, String)>)
    ensures
        pair_views(r@) == leaves_in(members@, Seq::empty()),
{
    let mut out: Vec<(String, String)> = Vec::new();
    proof {
        assert(pair_views(out@) =~= Seq::<(Seq<char>, Seq<char>)>::empty());
        reveal_strlit("");
    }
    collect_leaves_in(members, "", &mut out);
    proof {
        assert(Seq::<(Seq<char>, Seq<char>)>::empty() + leaves_in(members@, ""@) =~= leaves_in(members@, ""@));
        assert(""@ =~= Seq::<char>::empty());
    }
    out
}

// ── Errors ──────────────────────────────────────────────────────────────

/// The messages of a list of form-level errors.
pub open spec fn form_messages(errors: Seq<FormError>) -> Seq<Seq<char>> {
    errors.map_values(|e: FormError| e.0@)
}

/// `(path, messages)` for one member that has errors, if `errors` has any.
pub open spec fn own_errors(path: Seq<char>, errors: Seq<FieldError>) -> Seq<(Seq<char>, Seq<Seq<char>>)> {
    if errors.len() > 0 {
        seq![(path, error_messages(errors))]
    } else {
        Seq::empty()
    }
}

/// The field errors under `m`, by qualified path, in tree order: a field's
/// own, and a variant's own (at the variant's path, before its members').
/// Members without errors contribute nothing.
pub open spec fn errors_of(m: Member, prefix: Seq<char>) -> Seq<(Seq<char>, Seq<Seq<char>>)>
    decreases m,
{
    match m {
        Member::Field { name, errors, .. } => own_errors(qualify(prefix, name@), errors@),
        Member::FieldSet { name, members, .. } => errors_in(members@, qualify(prefix, name@)),
        Member::ListSet { name, rows, .. } => errors_in(rows@, qualify(prefix, name@)),
        Member::VariantSet { name, errors, chosen, members } => own_errors(qualify(prefix, name@), errors@)
            + match chosen {
            None => Seq::empty(),
            Some(v) => errors_in(members@, qualify(qualify(prefix, name@), variant_segment(v@))),
        },
    }
}

/// The field errors of each member in turn.
pub open spec fn errors_in(ms: Seq<Member>, prefix: Seq<char>) -> Seq<(Seq<char>, Seq<Seq<char>>)>
    decreases ms,
{
    if ms.len() == 0 {
        Seq::empty()
    } else {
        errors_in(ms.drop_last(), prefix) + errors_of(ms.last(), prefix)
    }
}

/// A list of `(path, errors)` entries, as values.
pub open spec fn entry_views(v: Seq<(String, Vec<FieldError>)>) -> Seq<(Seq<char>, Seq<Seq<char>>)> {
    v.map_values(|e: (String, Vec<FieldError>)| (e.0@, error_messages(e.1@)))
}

fn copy_field_errors(errors: &Vec<FieldError>) -> (r: Vec<FieldError>)
    ensures
        error_messages(r@) == error_messages(errors@),
{
    let mut out: Vec<FieldError> = Vec::new();
    let mut i: usize = 0;
    while i < errors.len()
        invariant
            i <= errors@.len(),
            error_messages(out@) == error_messages(errors@.take(i as int)),
        decreases errors.len() - i,
    {
        let ghost before = out@;
        out.push(FieldError(owned(errors[i].0.as_str())));
        proof {
            assert(error_messages(out@) =~= error_messages(before).push(errors@[i as int].0@));
            assert(error_messages(errors@.take(i + 1)) =~= error_messages(errors@.take(i as int)).push(errors@[i as int].0@));
        }
        i = i + 1;
    }
    proof {
        assert(errors@.take(errors@.len() as int) =~= errors@);
    }
    out
}

fn copy_form_errors(errors: &Vec<FormError>) -> (r: Vec<FormError>)
    ensures
        form_messages(r@) == form_messages(errors@),
{
    let mut out: Vec<FormError> = Vec::new();
    let mut i: usize = 0;
    while i < errors.len()
        invariant
            i <= errors@.len(),
            form_messages(out@) == form_messages(errors@.take(i as int)),
        decreases errors.len() - i,
    {
        let ghost before = out@;
        out.push(FormError(owned(errors[i].0.as_str())));
        proof {
            assert(form_messages(out@) =~= form_messages(before).push(errors@[i as int].0@));
            assert(form_messages(errors@.take(i + 1)) =~= form_messages(errors@.take(i as int)).push(errors@[i as int].0@));
        }
        i = i + 1;
    }
    proof {
        assert(errors@.take(errors@.len() as int) =~= errors@);
    }
    out
}

fn push_own_errors(path: String, errors: &Vec<FieldError>, out: &mut Vec<(String, Vec<FieldError>)>)
    ensures
        entry_views(final(out)@) == entry_views(old(out)@) + own_errors(path@, errors@),
{
    if errors.len() > 0 {
        let copy = copy_field_errors(errors);
        out.push((path, copy));
        proof {
            assert(entry_views(final(out)@) =~= entry_views(old(out)@) + own_errors(path@, errors@));
        }
    } else {
        proof {
            assert(entry_views(old(out)@) + own_errors(path@, errors@) =~= entry_views(old(out)@));
        }
    }
}

fn collect_errors_member(m: &Member, prefix: &str, out: &mut Vec<(String, Vec<FieldError>)>)
    ensures
        entry_views(final(out)@) == entry_views(old(out)@) + errors_of(*m, prefix@),
    decreases m,
{
    match m {
        Member::Field { name, errors, .. } => {
            let path = qualify_path(prefix, name.as_str());
            push_own_errors(path, errors, out);
        },
        Member::FieldSet { name, members, .. } => {
            let nested = qualify_path(prefix, name.as_str());
            collect_errors_in(members, nested.as_str(), out);
        },
        Member::ListSet { name, rows, .. } => {
            let nested = qualify_path(prefix, name.as_str());
            collect_errors_in(rows, nested.as_str(), out);
        },
        Member::VariantSet { name, errors, chosen, members } => {
            let mine = qualify_path(prefix, name.as_str());
            push_own_errors(mine, errors, out);
            let ghost mid = entry_views(out@);
            match chosen {
                None => {
                    proof {
                        assert(mid + Seq::<(Seq<char>, Seq<Seq<char>>)>::empty() =~= mid);
                    }
                },
                Some(v) => {
                    let nested = variant_path(prefix, name.as_str(), v.as_str());
                    collect_errors_in(members, nested.as_str(), out);
                },
            }
            proof {
                assert(entry_views(out@) =~= entry_views(old(out)@) + errors_of(*m, prefix@));
            }
        },
    }
}

fn collect_errors_in(ms: &Vec<Member>, prefix: &str, out: &mut Vec<(String, Vec<FieldError>)>)
    ensures
        entry_views(final(out)@) == entry_views(old(out)@) + errors_in(ms@, prefix@),
    decreases ms,
{
    let ghost start = entry_views(out@);
    let mut i: usize = 0;
    proof {
        assert(ms@.take(0) =~= Seq::<Member>::empty());
        assert(start + errors_in(ms@.take(0), prefix@) =~= start);
    }
    while i < ms.len()
        invariant
            i <= ms@.len(),
            entry_views(out@) == start + errors_in(ms@.take(i as int), prefix@),
        decreases ms.len() - i,
    {
        proof {
            assert(ms@.take(i + 1).drop_last() =~= ms@.take(i as int));
            assert(ms@.take(i + 1).last() == ms@[i as int]);
            assert(decreases_to!(ms => ms@));
        }
        collect_errors_member(&ms[i], prefix, out);
        proof {
            assert(start + errors_in(ms@.take(i + 1), prefix@) =~= start + errors_in(ms@.take(i as int), prefix@)
                + errors_of(ms@[i as int], prefix@));
        }
        i = i + 1;
    }
    proof {
        assert(ms@.take(ms@.len() as int) =~= ms@);
    }
}

/// Every error the form holds: the form-level ones as given, and each
/// field's by its qualified path, in tree order. Only members with errors
/// appear, so a failure of a cross-field check leaves the field list empty.
pub fn collect_errors(members: &Vec<Member>, form: &Vec<FormError>) -> (r: FormErrors)
    ensures
        form_messages(r.form@) == form_messages(form@),
        entry_views(r.fields@) == errors_in(members@, Seq::empty()),
{
    let mut fields: Vec<(String, Vec<FieldError>)> = Vec::new();
    proof {
        assert(entry_views(fields@) =~= Seq::<(Seq<char>, Seq<Seq<char>>)>::empty());
        reveal_strlit("");
    }
    collect_errors_in(members, "", &mut fields);
    proof {
        assert(Seq::<(Seq<char>, Seq<Seq<char>>)>::empty() + errors_in(members@, ""@) =~= errors_in(members@, ""@));
        assert(""@ =~= Seq::<char>::empty());
    }
    FormErrors { form: copy_form_errors(form), fields }
}

// ── Placing a field error by path ───────────────────────────────────────

/// The position of the first of `ms` (below `prefix`) that owns `path`.
pub open spec fn first_owner(ms: Seq<Member>, prefix: Seq<char>, path: Seq<char>) -> Option<int>
    decreases ms.len(),
{
    if ms.len() == 0 {
        None
    } else {
        match first_owner(ms.drop_last(), prefix, path) {
            Some(i) => Some(i),
            None => if owns(qualify(prefix, name_of(ms.last())), path) {
                Some(ms.len() - 1)
            } else {
                None
            },
        }
    }
}

/// Whether a field error at `path` has a place under `m`: a field at that
/// path, or a variant (its own errors sit at its own path) — reached through
/// the first member on the way that owns the path.
pub open spec fn places_member(m: Member, prefix: Seq<char>, path: Seq<char>) -> bool
    decreases m,
{
    match m {
        Member::Field { name, .. } => path == qualify(prefix, name@),
        Member::FieldSet { name, members, .. } => places_in(members@, qualify(prefix, name@), path),
        Member::ListSet { name, rows, .. } => places_in(rows@, qualify(prefix, name@), path),
        Member::VariantSet { name, chosen, members, .. } => path == qualify(prefix, name@) || match chosen {
            None => false,
            Some(v) => places_in(members@, qualify(qualify(prefix, name@), variant_segment(v@)), path),
        },
    }
}

/// Whether the first of `ms` that owns `path` has a place for an error there.
pub open spec fn places_in(ms: Seq<Member>, prefix: Seq<char>, path: Seq<char>) -> bool
    decreases ms,
{
    if ms.len() == 0 {
        false
    } else if first_owner(ms.drop_last(), prefix, path) is Some {
        places_in(ms.drop_last(), prefix, path)
    } else if owns(qualify(prefix, name_of(ms.last())), path) {
        places_member(ms.last(), prefix, path)
    } else {
        false
    }
}

/// `new` has `errors` with one more error, whose message is `msg`.
pub open spec fn gained(errors: Seq<FieldError>, new: Seq<FieldError>, msg: Seq<char>) -> bool {
    new.len() == errors.len() + 1 && new.drop_last() == errors && new.last().0@ == msg
}

/// `new` is `old` with an error `msg` placed at `path`, and nothing else
/// changed.
pub open spec fn pushed_member(old: Member, new: Member, prefix: Seq<char>, path: Seq<char>, msg: Seq<char>) -> bool
    decreases old,
{
    match old {
        Member::Field { name, errors, raw } => match new {
            Member::Field { name: n2, errors: e2, raw: r2 } => n2 == name && r2 == raw && path == qualify(
                prefix,
                name@,
            ) && gained(errors@, e2@, msg),
            _ => false,
        },
        Member::FieldSet { name, errors, members } => match new {
            Member::FieldSet { name: n2, errors: e2, members: m2 } => n2 == name && e2 == errors
                && pushed_in(members@, m2@, qualify(prefix, name@), path, msg),
            _ => false,
        },
        Member::ListSet { name, errors, rows } => match new {
            Member::ListSet { name: n2, errors: e2, rows: r2 } => n2 == name && e2 == errors
                && pushed_in(rows@, r2@, qualify(prefix, name@), path, msg),
            _ => false,
        },
        Member::VariantSet { name, errors, chosen, members } => match new {
            Member::VariantSet { name: n2, errors: e2, chosen: c2, members: m2 } => n2 == name && c2
                == chosen && if path == qualify(prefix, name@) {
                gained(errors@, e2@, msg) && m2 == members
            } else {
                e2 == errors && match chosen {
                    None => false,
                    Some(v) => pushed_in(
                        members@,
                        m2@,
                        qualify(qualify(prefix, name@), variant_segment(v@)),
                        path,
                        msg,
                    ),
                }
            },
            _ => false,
        },
    }
}

/// `new` is `old` with the first member that owns `path` given the error,
/// and every other member unchanged.
pub open spec fn pushed_in(old: Seq<Member>, new: Seq<Member>, prefix: Seq<char>, path: Seq<char>, msg: Seq<char>) -> bool
    decreases old,
{
    if old.len() == 0 {
        false
    } else if first_owner(old.drop_last(), prefix, path) is Some {
        new.len() == old.len() && new.last() == old.last() && pushed_in(
            old.drop_last(),
            new.drop_last(),
            prefix,
            path,
            msg,
        )
    } else {
        new.len() == old.len() && new.drop_last() == old.drop_last() && owns(
            qualify(prefix, name_of(old.last())),
            path,
        ) && pushed_member(old.last(), new.last(), prefix, path, msg)
    }
}

/// Where the first owner of `path` is at `i`, it is the member that decides
/// whether an error has a place, and the one member an error changes.
proof fn lemma_owner_at(ms: Seq<Member>, prefix: Seq<char>, path: Seq<char>, i: int)
    requires
        0 <= i < ms.len(),
        first_owner(ms.take(i), prefix, path) is None,
        owns(qualify(prefix, name_of(ms[i])), path),
    ensures
        first_owner(ms, prefix, path) == Some(i),
        places_in(ms, prefix, path) == places_member(ms[i], prefix, path),
        forall|y: Member, msg: Seq<char>|
            pushed_member(ms[i], y, prefix, path, msg) ==> #[trigger] pushed_in(ms, ms.update(i, y), prefix, path, msg),
    decreases ms.len(),
{
    if ms.len() == i + 1 {
        assert(ms.drop_last() =~= ms.take(i));
        assert forall|y: Member, msg: Seq<char>|
            pushed_member(ms[i], y, prefix, path, msg) implies #[trigger] pushed_in(ms, ms.update(i, y), prefix, path, msg) by {
            assert(ms.update(i, y).drop_last() =~= ms.drop_last());
            assert(ms.update(i, y).last() == y);
        }
    } else {
        let d = ms.drop_last();
        assert(d.take(i) =~= ms.take(i));
        assert(d[i] == ms[i]);
        lemma_owner_at(d, prefix, path, i);
        assert forall|y: Member, msg: Seq<char>|
            pushed_member(ms[i], y, prefix, path, msg) implies #[trigger] pushed_in(ms, ms.update(i, y), prefix, path, msg) by {
            assert(ms.update(i, y).drop_last() =~= d.update(i, y));
            assert(pushed_in(d, d.update(i, y), prefix, path, msg));
        }
    }
}

fn places_member_exec(m: &Member, prefix: &str, path: &str) -> (r: bool)
    ensures
        r == places_member(*m, prefix@, path@),
    decreases m,
{
    match m {
        Member::Field { name, .. } => {
            let mine = qualify_path(prefix, name.as_str());
            str_eq(path, mine.as_str())
        },
        Member::FieldSet { name, members, .. } => {
            let nested = qualify_path(prefix, name.as_str());
            places_in_exec(members, nested.as_str(), path)
        },
        Member::ListSet { name, rows, .. } => {
            let nested = qualify_path(prefix, name.as_str());
            places_in_exec(rows, nested.as_str(), path)
        },
        Member::VariantSet { name, chosen, members, .. } => {
            let mine = qualify_path(prefix, name.as_str());
            if str_eq(path, mine.as_str()) {
                return true;
            }
            match chosen {
                None => false,
                Some(v) => {
                    let nested = variant_path(prefix, name.as_str(), v.as_str());
                    places_in_exec(members, nested.as_str(), path)
                },
            }
        },
    }
}

/// The first of `ms` that owns `path`, found by walking them in order.
fn find_owner(ms: &Vec<Member>, prefix: &str, path: &str) -> (r: Option<usize>)
    ensures
        match r {
            Some(i) => i < ms@.len() && first_owner(ms@.take(i as int), prefix@, path@) is None && owns(
                qualify(prefix@, name_of(ms@[i as int])),
                path@,
            ),
            None => first_owner(ms@, prefix@, path@) is None,
        },
{
    let mut i: usize = 0;
    proof {
        assert(ms@.take(0) =~= Seq::<Member>::empty());
    }
    while i < ms.len()
        invariant
            i <= ms@.len(),
            first_owner(ms@.take(i as int), prefix@, path@) is None,
        decreases ms.len() - i,
    {
        let name = match &ms[i] {
            Member::Field { name, .. } => name,
            Member::FieldSet { name, .. } => name,
            Member::ListSet { name, .. } => name,
            Member::VariantSet { name, .. } => name,
        };
        let mine = qualify_path(prefix, name.as_str());
        if owns_path(mine.as_str(), path) {
            return Some(i);
        }
        proof {
            assert(ms@.take(i + 1).drop_last() =~= ms@.take(i as int));
            assert(ms@.take(i + 1).last() == ms@[i as int]);
        }
        i = i + 1;
    }
    proof {
        assert(ms@.take(ms@.len() as int) =~= ms@);
    }
    None
}

fn places_in_exec(ms: &Vec<Member>, prefix: &str, path: &str) -> (r: bool)
    ensures
        r == places_in(ms@, prefix@, path@),
    decreases ms,
{
    match find_owner(ms, prefix, path) {
        None => {
            proof {
                if ms@.len() > 0 {
                    assert(first_owner(ms@.drop_last(), prefix@, path@) is None);
                }
            }
            false
        },
        Some(i) => {
            proof {
                lemma_owner_at(ms@, prefix@, path@, i as int);
                assert(decreases_to!(ms => ms@));
            }
            places_member_exec(&ms[i], prefix, path)
        },
    }
}

fn push_member(m: Member, prefix: &str, path: &str, msg: &str) -> (r: Member)
    requires
        places_member(m, prefix@, path@),
    ensures
        pushed_member(m, r, prefix@, path@, msg@),
    decreases m,
{
    match m {
        Member::Field { name, errors, raw } => {
            let mut errors = errors;
            let ghost before = errors@;
            errors.push(FieldError(owned(msg)));
            proof {
                assert(errors@.drop_last() =~= before);
            }
            Member::Field { name, errors, raw }
        },
        Member::FieldSet { name, errors, members } => {
            let nested = qualify_path(prefix, name.as_str());
            let members = push_in(members, nested.as_str(), path, msg);
            Member::FieldSet { name, errors, members }
        },
        Member::ListSet { name, errors, rows } => {
            let nested = qualify_path(prefix, name.as_str());
            let rows = push_in(rows, nested.as_str(), path, msg);
            Member::ListSet { name, errors, rows }
        },
        Member::VariantSet { name, errors, chosen, members } => {
            let mine = qualify_path(prefix, name.as_str());
            if str_eq(path, mine.as_str()) {
                let mut errors = errors;
                let ghost before = errors@;
                errors.push(FieldError(owned(msg)));
                proof {
                    assert(errors@.drop_last() =~= before);
                }
                Member::VariantSet { name, errors, chosen, members }
            } else {
                let nested = match &chosen {
                    Some(v) => variant_path(prefix, name.as_str(), v.as_str()),
                    None => {
                        proof {
                            assert(false);
                        }
                        String::new()
                    },
                };
                let members = push_in(members, nested.as_str(), path, msg);
                Member::VariantSet { name, errors, chosen, members }
            }
        },
    }
}

fn push_in(ms: Vec<Member>, prefix: &str, path: &str, msg: &str) -> (r: Vec<Member>)
    requires
        places_in(ms@, prefix@, path@),
    ensures
        pushed_in(ms@, r@, prefix@, path@, msg@),
    decreases ms,
{
    let ghost orig = ms@;
    proof {
        assert(decreases_to!(ms => ms@));
    }
    match find_owner(&ms, prefix, path) {
        None => {
            proof {
                assert(first_owner(orig.drop_last(), prefix@, path@) is None);
            }
            ms
        },
        Some(i) => {
            proof {
                lemma_owner_at(orig, prefix@, path@, i as int);
            }
            let mut ms = ms;
            let x = ms.remove(i);
            proof {
                assert(x == orig[i as int]);
            }
            let y = push_member(x, prefix, path, msg);
            ms.insert(i, y);
            proof {
                assert(ms@ =~= orig.update(i as int, y));
            }
            ms
        },
    }
}

/// Attach an error to the field at `path`. The error goes to the field at
/// exactly that path, or to the enum at that path (beside its chooser); a
/// path with no such member is the caller's mistake, and changes nothing.
pub fn push_field_error(members: &mut Vec<Member>, path: &str, message: &str) -> (r: Result<(), FormAccessError>)
    ensures
        places_in(old(members)@, Seq::empty(), path@) ==> r is Ok && pushed_in(
            old(members)@,
            final(members)@,
            Seq::empty(),
            path@,
            message@,
        ),
        !places_in(old(members)@, Seq::empty(), path@) ==> (r matches Err(e) && e.0@
            == no_such_path_message(path@)) && final(members)@ == old(members)@,
{
    proof {
        reveal_strlit("");
        assert(""@ =~= Seq::<char>::empty());
    }
    if !places_in_exec(members, "", path) {
        let mut m = owned("no field at `");
        push_str(&mut m, path);
        push_str(&mut m, "`");
        return Err(FormAccessError(m));
    }
    let mut taken: Vec<Member> = Vec::new();
    std::mem::swap(&mut taken, members);
    let pushed = push_in(taken, "", path, message);
    *members = pushed;
    Ok(())
}

// ── Taking values back in ───────────────────────────────────────────────

/// The value given for `key`: the last pair with that key, as a map built
/// from the pairs keeps the last.
pub open spec fn lookup(values: Seq<(Seq<char>, Seq<char>)>, key: Seq<char>) -> Option<Seq<char>>
    decreases values.len(),
{
    if values.len() == 0 {
        None
    } else if values.last().0 == key {
        Some(values.last().1)
    } else {
        lookup(values.drop_last(), key)
    }
}

/// Each leaf with the value given for its path, or its own where none is.
pub open spec fn applied(
    leaves: Seq<(Seq<char>, Seq<char>)>,
    values: Seq<(Seq<char>, Seq<char>)>,
) -> Seq<(Seq<char>, Seq<char>)> {
    leaves.map_values(
        |l: (Seq<char>, Seq<char>)|
            (
                l.0,
                match lookup(values, l.0) {
                    Some(v) => v,
                    None => l.1,
                },
            ),
    )
}

/// The value given for `key`, if any.
fn lookup_value(values: &Vec<(String, String)>, key: &str) -> (r: Option<String>)
    ensures
        match lookup(pair_views(values@), key@) {
            Some(v) => r matches Some(s) && s@ == v,
            None => r is None,
        },
{
    let ghost vs = pair_views(values@);
    let mut i: usize = values.len();
    proof {
        assert(vs.take(i as int) =~= vs);
    }
    while i > 0
        invariant
            i <= values@.len(),
            vs == pair_views(values@),
            lookup(vs, key@) == lookup(vs.take(i as int), key@),
        decreases i,
    {
        let ghost t = vs.take(i as int);
        proof {
            assert(t.last() == (values@[i - 1].0@, values@[i - 1].1@));
            assert(t.drop_last() =~= vs.take(i - 1));
        }
        if str_eq(values[i - 1].0.as_str(), key) {
            return Some(owned(values[i - 1].1.as_str()));
        }
        i = i - 1;
    }
    None
}

proof fn lemma_applied_concat(a: Seq<(Seq<char>, Seq<char>)>, b: Seq<(Seq<char>, Seq<char>)>, values: Seq<(Seq<char>, Seq<char>)>)
    ensures
        applied(a + b, values) == applied(a, values) + applied(b, values),
{
    assert(applied(a + b, values) =~= applied(a, values) + applied(b, values));
}

fn apply_member(m: Member, prefix: &str, values: &Vec<(String, String)>) -> (r: Member)
    ensures
        leaves_of(r, prefix@) == applied(leaves_of(m, prefix@), pair_views(values@)),
        errors_of(r, prefix@) == errors_of(m, prefix@),
        name_of(r) == name_of(m),
    decreases m,
{
    match m {
        Member::Field { name, errors, raw } => {
            let mine = qualify_path(prefix, name.as_str());
            let raw = match lookup_value(values, mine.as_str()) {
                Some(v) => v,
                None => raw,
            };
            let r = Member::Field { name, errors, raw };
            proof {
                assert(leaves_of(r, prefix@) =~= applied(leaves_of(m, prefix@), pair_views(values@)));
            }
            r
        },
        Member::FieldSet { name, errors, members } => {
            let nested = qualify_path(prefix, name.as_str());
            proof {
                assert(decreases_to!(members => members@));
            }
            let members = apply_in(members, nested.as_str(), values);
            Member::FieldSet { name, errors, members }
        },
        Member::ListSet { name, errors, rows } => {
            let nested = qualify_path(prefix, name.as_str());
            proof {
                assert(decreases_to!(rows => rows@));
            }
            let rows = apply_in(rows, nested.as_str(), values);
            Member::ListSet { name, errors, rows }
        },
        Member::VariantSet { name, errors, chosen, members } => {
            match &chosen {
                None => {
                    let r = Member::VariantSet { name, errors, chosen, members };
                    proof {
                        assert(applied(Seq::<(Seq<char>, Seq<char>)>::empty(), pair_views(values@)) =~= Seq::<
                            (Seq<char>, Seq<char>),
                        >::empty());
                    }
                    r
                },
                Some(v) => {
                    let nested = variant_path(prefix, name.as_str(), v.as_str());
                    proof {
                        assert(decreases_to!(members => members@));
                    }
                    let members = apply_in(members, nested.as_str(), values);
                    Member::VariantSet { name, errors, chosen, members }
                },
            }
        },
    }
}

fn apply_in(ms: Vec<Member>, prefix: &str, values: &Vec<(String, String)>) -> (r: Vec<Member>)
    ensures
        leaves_in(r@, prefix@) == applied(leaves_in(ms@, prefix@), pair_views(values@)),
        errors_in(r@, prefix@) == errors_in(ms@, prefix@),
        r@.len() == ms@.len(),
    decreases ms@,
{
    let ghost orig = ms@;
    let mut ms = ms;
    if ms.len() == 0 {
        proof {
            assert(applied(Seq::<(Seq<char>, Seq<char>)>::empty(), pair_views(values@)) =~= Seq::<
                (Seq<char>, Seq<char>),
            >::empty());
        }
        return ms;
    }
    let last = ms.pop().unwrap();
    proof {
        assert(ms@ == orig.drop_last());
        assert(last == orig.last());
    }
    let mut rest = apply_in(ms, prefix, values);
    let y = apply_member(last, prefix, values);
    let ghost rest_view = rest@;
    rest.push(y);
    proof {
        assert(rest@.drop_last() =~= rest_view);
        assert(rest@.last() == y);
        lemma_applied_concat(leaves_in(orig.drop_last(), prefix@), leaves_of(orig.last(), prefix@), pair_views(values@));
    }
    rest
}

/// Take values back in by path: each field whose qualified path has a value
/// takes it (the last pair for a path wins); every other field, and every
/// error, stays as it was.
pub fn apply(members: &mut Vec<Member>, values: &Vec<(String, String)>)
    ensures
        leaves_in(final(members)@, Seq::empty()) == applied(leaves_in(old(members)@, Seq::empty()), pair_views(values@)),
        errors_in(final(members)@, Seq::empty()) == errors_in(old(members)@, Seq::empty()),
        final(members)@.len() == old(members)@.len(),
{
    proof {
        reveal_strlit("");
        assert(""@ =~= Seq::<char>::empty());
    }
    let mut taken: Vec<Member> = Vec::new();
    std::mem::swap(&mut taken, members);
    let applied_members = apply_in(taken, "", values);
    *members = applied_members;
}

/// No two leaves share a path.
pub open spec fn paths_distinct(leaves: Seq<(Seq<char>, Seq<char>)>) -> bool {
    forall|i: int, j: int| 0 <= i < j < leaves.len() ==> #[trigger] leaves[i].0 != #[trigger] leaves[j].0
}

proof fn lemma_lookup_own(ls: Seq<(Seq<char>, Seq<char>)>, k: int)
    requires
        0 <= k < ls.len(),
        paths_distinct(ls),
    ensures
        lookup(ls, ls[k].0) == Some(ls[k].1),
    decreases ls.len(),
{
    if k < ls.len() - 1 {
        assert(ls.last() == ls[ls.len() - 1]);
        let d = ls.drop_last();
        assert(d[k] == ls[k]);
        assert forall|i: int, j: int| 0 <= i < j < d.len() implies #[trigger] d[i].0 != #[trigger] d[j].0 by {
            assert(d[i] == ls[i] && d[j] == ls[j]);
        }
        lemma_lookup_own(d, k);
    }
}

/// Taking a form's own leaves back in changes none of them: what goes out
/// over the wire comes back as it was, as long as no two leaves share a path.
pub proof fn lemma_leaves_round_trip(leaves: Seq<(Seq<char>, Seq<char>)>)
    requires
        paths_distinct(leaves),
    ensures
        applied(leaves, leaves) == leaves,
{
    assert forall|k: int| 0 <= k < leaves.len() implies #[trigger] applied(leaves, leaves)[k] == leaves[k] by {
        lemma_lookup_own(leaves, k);
    }
    assert(applied(leaves, leaves) =~= leaves);
}

} // verus!
