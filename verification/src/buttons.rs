//! What a form's buttons are, and which handler each one is owed.
//!
//! A [`ButtonSpec`] is static knowledge — which buttons exist, in what order,
//! how each renders, whether it validates first. A [`ButtonFn`] is behaviour,
//! supplied at the render call site; [`Fns`] holds them by button name and
//! [`Fns::reconcile`] is the check that the two halves agree.
use vstd::prelude::*;
use vstd::std_specs::cmp::PartialEqSpecImpl;

use crate::label_case::{label_cased, LabelCase, ToCase};
use crate::text::{chars_lt, join, join_strs, lemma_chars_lt_asymmetric, lemma_chars_lt_total,
    lemma_chars_lt_transitive, owned, push_str, str_eq, str_lt, views};

verus! {

/// One button, as declared in `form!`'s `buttons:` block.
#[derive(Clone, Debug)]
pub struct ButtonSpec {
    /// The author's name for it, which is also the key a handler is supplied
    /// under. Not rendered — that's `text`.
    pub name: String,
    pub ty: ButtonType,
    /// Explicit label; `None` falls back to the name.
    pub text: Option<String>,
    /// `None` means "whatever the type implies".
    pub invocation: Option<Invocation>,
}

/// Two optional texts say the same thing.
pub open spec fn same_text(a: Option<String>, b: Option<String>) -> bool {
    match (a, b) {
        (Some(x), Some(y)) => x@ == y@,
        (None, None) => true,
        _ => false,
    }
}

impl PartialEq for ButtonSpec {
    fn eq(&self, other: &Self) -> (r: bool) {
        let texts = match (&self.text, &other.text) {
            (Some(x), Some(y)) => str_eq(x.as_str(), y.as_str()),
            (None, None) => true,
            _ => false,
        };
        str_eq(self.name.as_str(), other.name.as_str()) && self.ty == other.ty && texts
            && self.invocation == other.invocation
    }
}

impl PartialEqSpecImpl for ButtonSpec {
    open spec fn obeys_eq_spec() -> bool {
        true
    }

    open spec fn eq_spec(&self, other: &Self) -> bool {
        &&& self.name@ == other.name@
        &&& self.ty == other.ty
        &&& same_text(self.text, other.text)
        &&& self.invocation == other.invocation
    }
}

/// The five kinds of button `form!` accepts.
#[derive(Clone, Copy, Debug, PartialEq, Eq, Structural)]
pub enum ButtonType {
    Submit,
    Reset,
    Cancel,
    Destructive,
    Button,
}

/// Whether the model must pass validation before the handler is reached.
#[derive(Clone, Copy, Debug, PartialEq, Eq, Structural)]
pub enum Invocation {
    /// Validate first; the handler receives the model and never runs if it fails.
    IfModelValidates,
    /// Run regardless, with no model.
    Unconditional,
}

/// Whether a derive-declared handler runs only on a validated model.
#[derive(Clone, Copy, Debug, PartialEq, Eq, Structural)]
pub enum HandlerKind {
    /// Call the handler only if validation succeeds; it receives the model.
    Validated,
    /// Call the handler unconditionally, with no model.
    Unchecked,
}

/// Where a button of this type sits in the button row: destructive first,
/// then reset, cancel, plain buttons, and submit last.
pub open spec fn display_order_of(ty: ButtonType) -> u8 {
    match ty {
        ButtonType::Destructive => 0,
        ButtonType::Reset => 10,
        ButtonType::Cancel => 11,
        ButtonType::Button => 12,
        ButtonType::Submit => 13,
    }
}

/// The handler kind a button of this type gets when it declares none; the
/// same split as [`default_invocation_of`].
pub open spec fn default_handler_kind_of(ty: ButtonType) -> HandlerKind {
    match ty {
        ButtonType::Submit | ButtonType::Button => HandlerKind::Validated,
        _ => HandlerKind::Unchecked,
    }
}

/// The `type` attribute a button of this type renders with.
pub open spec fn html_type_of(ty: ButtonType) -> Seq<char> {
    match ty {
        ButtonType::Submit => "submit"@,
        ButtonType::Reset => "reset"@,
        _ => "button"@,
    }
}

/// The class a button of this type renders with.
pub open spec fn default_class_of(ty: ButtonType) -> Seq<char> {
    match ty {
        ButtonType::Submit => "primary"@,
        ButtonType::Reset => "outline danger"@,
        ButtonType::Cancel => "outline secondary"@,
        ButtonType::Destructive => "danger"@,
        ButtonType::Button => "secondary"@,
    }
}

/// `Submit` and `Button` act on the model, so they validate it first; the
/// others are escape hatches that must work on an invalid form.
pub open spec fn default_invocation_of(ty: ButtonType) -> Invocation {
    match ty {
        ButtonType::Submit | ButtonType::Button => Invocation::IfModelValidates,
        _ => Invocation::Unconditional,
    }
}

/// A button's default handler and its default invocation make the same
/// split: the handler runs only on a validated model exactly when the button
/// validates before it is handled. So `Submit` and `Button` receive the
/// validated model, and only `Reset`, `Cancel` and `Destructive`, which must
/// work on an invalid form, run unconditionally.
pub proof fn lemma_default_handler_follows_invocation(ty: ButtonType)
    ensures
        default_handler_kind_of(ty) == HandlerKind::Validated <==> default_invocation_of(ty)
            == Invocation::IfModelValidates,
        default_handler_kind_of(ty) == HandlerKind::Unchecked <==> default_invocation_of(ty)
            == Invocation::Unconditional,
        default_handler_kind_of(ButtonType::Submit) == HandlerKind::Validated,
        default_handler_kind_of(ButtonType::Button) == HandlerKind::Validated,
        default_handler_kind_of(ButtonType::Reset) == HandlerKind::Unchecked,
        default_handler_kind_of(ButtonType::Cancel) == HandlerKind::Unchecked,
        default_handler_kind_of(ButtonType::Destructive) == HandlerKind::Unchecked,
{
}

impl ButtonType {
    /// The `type` attribute. Only `submit` and `reset` have native behaviour
    /// worth keeping; everything else is an ordinary `button`.
    pub fn html_type(&self) -> (r: &'static str)
        ensures
            r@ == html_type_of(*self),
    {
        match self {
            ButtonType::Submit => "submit",
            ButtonType::Reset => "reset",
            ButtonType::Cancel | ButtonType::Destructive | ButtonType::Button => "button",
        }
    }

    pub fn default_class(&self) -> (r: &'static str)
        ensures
            r@ == default_class_of(*self),
    {
        match self {
            ButtonType::Submit => "primary",
            ButtonType::Reset => "outline danger",
            ButtonType::Cancel => "outline secondary",
            ButtonType::Destructive => "danger",
            ButtonType::Button => "secondary",
        }
    }

    /// Where a button of this type sits in the button row.
    pub fn display_order(&self) -> (r: u8)
        ensures
            r == display_order_of(*self),
    {
        match self {
            ButtonType::Destructive => 0,
            ButtonType::Reset => 10,
            ButtonType::Cancel => 11,
            ButtonType::Button => 12,
            ButtonType::Submit => 13,
        }
    }

    /// `Submit` and `Button` want the model; `Cancel`, `Reset` and
    /// `Destructive` must work on an invalid form, so they skip validation.
    pub fn default_handler_kind(&self) -> (r: HandlerKind)
        ensures
            r == default_handler_kind_of(*self),
    {
        match self {
            ButtonType::Submit | ButtonType::Button => HandlerKind::Validated,
            ButtonType::Cancel | ButtonType::Reset | ButtonType::Destructive => {
                HandlerKind::Unchecked
            },
        }
    }

    /// Which invocation a button of this type gets when it declares none.
    pub fn default_invocation(&self) -> (r: Invocation)
        ensures
            r == default_invocation_of(*self),
    {
        match self {
            ButtonType::Submit | ButtonType::Button => Invocation::IfModelValidates,
            ButtonType::Cancel | ButtonType::Reset | ButtonType::Destructive => {
                Invocation::Unconditional
            },
        }
    }
}

/// What a button reads: its explicit text, else its name in title case.
pub open spec fn label_of(b: ButtonSpec) -> Seq<char> {
    match b.text {
        Some(t) => t@,
        None => label_cased(b.name@, LabelCase::Title),
    }
}

/// The invocation a button declared, else the one its type implies.
pub open spec fn invocation_of(b: ButtonSpec) -> Invocation {
    match b.invocation {
        Some(i) => i,
        None => default_invocation_of(b.ty),
    }
}

impl ButtonSpec {
    pub fn new(name: &str, ty: ButtonType) -> (r: Self)
        ensures
            r.name@ == name@,
            r.ty == ty,
            r.text is None,
            r.invocation is None,
    {
        ButtonSpec { name: owned(name), ty, text: None, invocation: None }
    }

    pub fn with_text(self, text: &str) -> (r: Self)
        ensures
            r.name@ == self.name@,
            r.ty == self.ty,
            r.text matches Some(t) && t@ == text@,
            r.invocation == self.invocation,
    {
        let mut s = self;
        s.text = Some(owned(text));
        s
    }

    pub fn with_invocation(self, invocation: Invocation) -> (r: Self)
        ensures
            r.name@ == self.name@,
            r.ty == self.ty,
            r.text == self.text,
            r.invocation == Some(invocation),
    {
        let mut s = self;
        s.invocation = Some(invocation);
        s
    }

    /// What the button reads. Explicit `text` wins; otherwise the name in
    /// title case, so `sign_in` reads "Sign In" — the fallback a field label gets.
    pub fn label(&self) -> (r: String)
        ensures
            r@ == label_of(*self),
    {
        match &self.text {
            Some(t) => owned(t.as_str()),
            None => self.name.as_str().to_case(LabelCase::Title),
        }
    }

    /// The `invocation` if one was given, else what the type implies.
    pub fn invocation(&self) -> (r: Invocation)
        ensures
            r == invocation_of(*self),
    {
        match self.invocation {
            Some(i) => i,
            None => self.ty.default_invocation(),
        }
    }
}

/// What a button does, supplied at the render call site: `H` is a handler
/// that takes the validated model, `G` one that takes nothing.
///
/// Which variant a closure becomes is decided by `using_fns!` from the
/// closure's arity: `|m| …` is `Validated`, `|| …` is `Unchecked`.
pub enum ButtonFn<H, G> {
    Validated(H),
    Unchecked(G),
}

/// The handlers for one render, keyed by button name and kept in name order.
pub struct Fns<H, G> {
    fns: Vec<(String, ButtonFn<H, G>)>,
}

/// The names of a list of entries.
pub open spec fn entry_names<H, G>(entries: Seq<(Seq<char>, ButtonFn<H, G>)>) -> Seq<Seq<char>> {
    entries.map_values(|e: (Seq<char>, ButtonFn<H, G>)| e.0)
}

/// Names strictly increasing: sorted, and so each name at most once.
pub open spec fn names_sorted(names: Seq<Seq<char>>) -> bool {
    forall|i: int, j: int| 0 <= i < j < names.len() ==> chars_lt(names[i], names[j])
}

/// The entry for `name`, if there is one.
pub open spec fn lookup<H, G>(entries: Seq<(Seq<char>, ButtonFn<H, G>)>, name: Seq<char>) -> Option<ButtonFn<H, G>>
    decreases entries.len(),
{
    if entries.len() == 0 {
        None
    } else if entries.last().0 == name {
        Some(entries.last().1)
    } else {
        lookup(entries.drop_last(), name)
    }
}

impl<H, G> View for Fns<H, G> {
    /// Name and handler of every entry, in name order.
    type V = Seq<(Seq<char>, ButtonFn<H, G>)>;

    closed spec fn view(&self) -> Self::V {
        self.fns@.map_values(|e: (String, ButtonFn<H, G>)| (e.0@, e.1))
    }
}

proof fn lemma_lookup_found<H, G>(entries: Seq<(Seq<char>, ButtonFn<H, G>)>, k: int)
    requires
        0 <= k < entries.len(),
        names_sorted(entry_names(entries)),
    ensures
        lookup(entries, entries[k].0) == Some(entries[k].1),
    decreases entries.len(),
{
    if k < entries.len() - 1 {
        assert(entry_names(entries)[k] == entries[k].0);
        let last = entries.len() - 1;
        assert(entry_names(entries)[last] == entries[last].0);
        lemma_chars_lt_asymmetric(entries[k].0, entries[k].0);
        assert(entries.last().0 != entries[k].0);
        assert(names_sorted(entry_names(entries.drop_last()))) by {
            assert forall|i: int, j: int| 0 <= i < j < entries.len() - 1 implies chars_lt(
                entry_names(entries.drop_last())[i],
                entry_names(entries.drop_last())[j],
            ) by {
                assert(entry_names(entries.drop_last())[i] == entry_names(entries)[i]);
                assert(entry_names(entries.drop_last())[j] == entry_names(entries)[j]);
            }
        }
        assert(entries.drop_last()[k] == entries[k]);
        lemma_lookup_found(entries.drop_last(), k);
    }
}

proof fn lemma_lookup_absent<H, G>(entries: Seq<(Seq<char>, ButtonFn<H, G>)>, name: Seq<char>)
    requires
        forall|k: int| 0 <= k < entries.len() ==> entries[k].0 != name,
    ensures
        lookup(entries, name) is None,
    decreases entries.len(),
{
    if entries.len() > 0 {
        assert(entries.last() == entries[entries.len() - 1]);
        lemma_lookup_absent(entries.drop_last(), name);
    }
}

impl<H, G> Fns<H, G> {
    #[verifier::type_invariant]
    closed spec fn sorted(self) -> bool {
        names_sorted(entry_names(self@))
    }

    /// The names of every handler, in name order.
    pub closed spec fn names(self) -> Seq<Seq<char>> {
        entry_names(self@)
    }

    /// The handler supplied for `name`, if any.
    pub open spec fn handler(self, name: Seq<char>) -> Option<ButtonFn<H, G>> {
        lookup(self@, name)
    }

    pub fn new() -> (r: Self)
        ensures
            r@ == Seq::<(Seq<char>, ButtonFn<H, G>)>::empty(),
            names_sorted(entry_names(r@)),
    {
        let r = Fns { fns: Vec::new() };
        proof {
            assert(r@ =~= Seq::<(Seq<char>, ButtonFn<H, G>)>::empty());
        }
        r
    }

    /// Add one, replacing any handler already supplied under `name`. Used by
    /// `using_fns!`, which emits one call per entry.
    pub fn with(self, name: &str, f: ButtonFn<H, G>) -> (r: Self)
        ensures
            r.handler(name@) == Some(f),
            forall|other: Seq<char>| other != name@ ==> r.handler(other) == self.handler(other),
            forall|k: int| 0 <= k < r@.len() ==> (#[trigger] r@[k]).0 == name@
                || lookup(self@, r@[k].0) == Some(r@[k].1),
            self.handler(name@) is None ==> r@.len() == self@.len() + 1,
            self.handler(name@) is Some ==> r@.len() == self@.len(),
            names_sorted(entry_names(r@)),
    {
        proof {
            use_type_invariant(&self);
        }
        let ghost old_view = self@;
        let mut fns = self.fns;
        let mut i: usize = 0;
        while i < fns.len()
            invariant
                i <= fns.len(),
                fns@.map_values(|e: (String, ButtonFn<H, G>)| (e.0@, e.1)) == old_view,
                names_sorted(entry_names(old_view)),
                forall|k: int| 0 <= k < i ==> chars_lt(#[trigger] old_view[k].0, name@),
            ensures
                i <= fns.len(),
                fns@.map_values(|e: (String, ButtonFn<H, G>)| (e.0@, e.1)) == old_view,
                forall|k: int| 0 <= k < i ==> chars_lt(#[trigger] old_view[k].0, name@),
                i < fns.len() ==> !chars_lt(old_view[i as int].0, name@),
            decreases fns.len() - i,
        {
            proof {
                assert(old_view[i as int] == (fns@[i as int].0@, fns@[i as int].1));
            }
            if !str_lt(fns[i].0.as_str(), name) {
                break;
            }
            i = i + 1;
        }
        let ghost pos = i as int;
        assert(old_view.len() == fns@.len());
        if i < fns.len() && str_eq(fns[i].0.as_str(), name) {
            proof {
                assert(old_view[pos].0 == name@);
            }
            fns.set(i, (owned(name), f));
            proof {
                let nv = fns@.map_values(|e: (String, ButtonFn<H, G>)| (e.0@, e.1));
                assert(nv =~= old_view.update(pos, (name@, f)));
                assert(entry_names(nv) =~= entry_names(old_view));
            }
            let r = Fns { fns };
            proof {
                use_type_invariant(&r);
                assert(r@ =~= old_view.update(pos, (name@, f)));
                lemma_lookup_found(r@, pos);
                assert forall|other: Seq<char>| other != name@ implies lookup(r@, other) == lookup(old_view, other) by {
                    let found = exists|k: int| 0 <= k < old_view.len() && old_view[k].0 == other;
                    if found {
                        let k = choose|k: int| 0 <= k < old_view.len() && old_view[k].0 == other;
                        assert(entry_names(old_view)[k] == other);
                        lemma_lookup_found(old_view, k);
                        assert(k != pos);
                        assert(r@[k] == old_view[k]);
                        lemma_lookup_found(r@, k);
                    } else {
                        lemma_lookup_absent(old_view, other);
                        assert forall|k: int| 0 <= k < r@.len() implies r@[k].0 != other by {
                            if k != pos {
                                assert(r@[k] == old_view[k]);
                            }
                        }
                        lemma_lookup_absent(r@, other);
                    }
                }
                assert forall|k: int| 0 <= k < r@.len() implies (#[trigger] r@[k]).0 == name@
                    || lookup(old_view, r@[k].0) == Some(r@[k].1) by {
                    if k != pos {
                        assert(r@[k] == old_view[k]);
                        lemma_lookup_found(old_view, k);
                    }
                }
                lemma_lookup_found(old_view, pos);
            }
            r
        } else {
            proof {
                // Every name before `pos` sorts before `name`; every name from
                // `pos` on sorts after it.
                assert forall|k: int| pos <= k < old_view.len() implies chars_lt(name@, #[trigger] old_view[k].0) by {
                    assert(entry_names(old_view)[pos] == old_view[pos].0);
                    assert(!chars_lt(old_view[pos].0, name@));
                    assert(old_view[pos].0 != name@);
                    lemma_chars_lt_total(old_view[pos].0, name@);
                    if k > pos {
                        assert(entry_names(old_view)[k] == old_view[k].0);
                        lemma_chars_lt_transitive(name@, old_view[pos].0, old_view[k].0);
                    }
                }
            }
            fns.insert(i, (owned(name), f));
            proof {
                let nv = fns@.map_values(|e: (String, ButtonFn<H, G>)| (e.0@, e.1));
                assert(nv =~= old_view.insert(pos, (name@, f)));
                assert(names_sorted(entry_names(nv))) by {
                    assert forall|a: int, b: int| 0 <= a < b < nv.len() implies chars_lt(
                        entry_names(nv)[a],
                        entry_names(nv)[b],
                    ) by {
                        assert(entry_names(nv)[a] == nv[a].0);
                        assert(entry_names(nv)[b] == nv[b].0);
                        if a < pos && b < pos {
                            assert(entry_names(old_view)[a] == old_view[a].0);
                            assert(entry_names(old_view)[b] == old_view[b].0);
                        } else if a < pos && b == pos {
                        } else if a < pos && b > pos {
                            assert(chars_lt(old_view[a].0, name@));
                            assert(chars_lt(name@, old_view[b - 1].0));
                            lemma_chars_lt_transitive(old_view[a].0, name@, old_view[b - 1].0);
                        } else if a == pos {
                        } else {
                            assert(entry_names(old_view)[a - 1] == old_view[a - 1].0);
                            assert(entry_names(old_view)[b - 1] == old_view[b - 1].0);
                        }
                    }
                }
            }
            let r = Fns { fns };
            proof {
                use_type_invariant(&r);
                assert(r@ =~= old_view.insert(pos, (name@, f)));
                lemma_lookup_found(r@, pos);
                assert forall|other: Seq<char>| other != name@ implies lookup(r@, other) == lookup(old_view, other) by {
                    let found = exists|k: int| 0 <= k < old_view.len() && old_view[k].0 == other;
                    if found {
                        let k = choose|k: int| 0 <= k < old_view.len() && old_view[k].0 == other;
                        lemma_lookup_found(old_view, k);
                        if k < pos {
                            assert(r@[k] == old_view[k]);
                            lemma_lookup_found(r@, k);
                        } else {
                            assert(r@[k + 1] == old_view[k]);
                            lemma_lookup_found(r@, k + 1);
                        }
                    } else {
                        lemma_lookup_absent(old_view, other);
                        assert forall|k: int| 0 <= k < r@.len() implies r@[k].0 != other by {
                            if k < pos {
                                assert(r@[k] == old_view[k]);
                            } else if k > pos {
                                assert(r@[k] == old_view[k - 1]);
                            }
                        }
                        lemma_lookup_absent(r@, other);
                    }
                }
                assert forall|k: int| 0 <= k < r@.len() implies (#[trigger] r@[k]).0 == name@
                    || lookup(old_view, r@[k].0) == Some(r@[k].1) by {
                    if k < pos {
                        assert(r@[k] == old_view[k]);
                        lemma_lookup_found(old_view, k);
                    } else if k > pos {
                        assert(r@[k] == old_view[k - 1]);
                        lemma_lookup_found(old_view, k - 1);
                    }
                }
                assert forall|k: int| 0 <= k < old_view.len() implies old_view[k].0 != name@ by {
                    lemma_chars_lt_asymmetric(name@, name@);
                }
                lemma_lookup_absent(old_view, name@);
            }
            r
        }
    }

    /// The handler supplied for `name`, if any.
    pub fn get(&self, name: &str) -> (r: Option<&ButtonFn<H, G>>)
        ensures
            match self.handler(name@) {
                Some(f) => r == Some(&f),
                None => r is None,
            },
            names_sorted(entry_names(self@)),
    {
        proof {
            use_type_invariant(self);
        }
        let mut i: usize = 0;
        while i < self.fns.len()
            invariant
                i <= self.fns.len(),
                names_sorted(entry_names(self@)),
                forall|k: int| 0 <= k < i ==> (#[trigger] self@[k]).0 != name@,
            decreases self.fns.len() - i,
        {
            if str_eq(self.fns[i].0.as_str(), name) {
                proof {
                    assert(self@[i as int] == (self.fns@[i as int].0@, self.fns@[i as int].1));
                    lemma_lookup_found(self@, i as int);
                }
                return Some(&self.fns[i].1);
            }
            proof {
                assert(self@[i as int] == (self.fns@[i as int].0@, self.fns@[i as int].1));
            }
            i = i + 1;
        }
        proof {
            lemma_lookup_absent(self@, name@);
        }
        None
    }

    pub fn is_empty(&self) -> (r: bool)
        ensures
            r == (self@.len() == 0),
            names_sorted(entry_names(self@)),
    {
        proof {
            use_type_invariant(self);
        }
        self.fns.len() == 0
    }
}

impl<H, G> Default for Fns<H, G> {
    fn default() -> (r: Self)
        ensures
            r@ == Seq::<(Seq<char>, ButtonFn<H, G>)>::empty(),
            names_sorted(entry_names(r@)),
    {
        Fns::new()
    }
}

/// Whether a handler of this shape can serve a button that is invoked this way.
pub open spec fn fits<H, G>(invocation: Invocation, f: ButtonFn<H, G>) -> bool {
    match f {
        ButtonFn::Validated(_) => invocation == Invocation::IfModelValidates,
        ButtonFn::Unchecked(_) => invocation == Invocation::Unconditional,
    }
}

/// The message for a button with no handler at all.
pub open spec fn missing_fn_message(name: Seq<char>) -> Seq<char> {
    "button `"@ + name + "` has no fn supplied"@
}

/// The message for a validating button handed a handler that takes no model.
pub open spec fn wants_model_message(name: Seq<char>) -> Seq<char> {
    "button `"@ + name
        + "` validates its model, so its fn must take it \u{2014} write `|m| \u{2026}`, or declare `invocation: unconditional`"@
}

/// The message for an unconditional button handed a handler that takes the model.
pub open spec fn wants_nothing_message(name: Seq<char>) -> Seq<char> {
    "button `"@ + name
        + "` runs unconditionally, so its fn takes no model \u{2014} write `|| \u{2026}`, or declare `invocation: if_model_validates`"@
}

/// The message for a handler whose name no button has.
pub open spec fn undeclared_message(name: Seq<char>) -> Seq<char> {
    "`"@ + name + "` is not a button this form declares"@
}

/// The message for a form declaring more than one submit button.
pub open spec fn two_submits_message(names: Seq<Seq<char>>) -> Seq<char> {
    "a form can have one submit button; this one declares "@ + join(names, ", "@)
}

/// What is wrong, if anything, with one button given the handler supplied for it.
pub open spec fn problem_for<H, G>(b: ButtonSpec, f: Option<ButtonFn<H, G>>) -> Seq<Seq<char>> {
    match f {
        None => seq![missing_fn_message(b.name@)],
        Some(f) => if fits(invocation_of(b), f) {
            Seq::empty()
        } else {
            match f {
                ButtonFn::Unchecked(_) => seq![wants_model_message(b.name@)],
                ButtonFn::Validated(_) => seq![wants_nothing_message(b.name@)],
            }
        },
    }
}

/// Every button's problem, in declaration order.
pub open spec fn button_problems<H, G>(
    buttons: Seq<ButtonSpec>,
    entries: Seq<(Seq<char>, ButtonFn<H, G>)>,
) -> Seq<Seq<char>>
    decreases buttons.len(),
{
    if buttons.len() == 0 {
        Seq::empty()
    } else {
        button_problems(buttons.drop_last(), entries) + problem_for(
            buttons.last(),
            lookup(entries, buttons.last().name@),
        )
    }
}

/// Whether some button is named `name`.
pub open spec fn declares(buttons: Seq<ButtonSpec>, name: Seq<char>) -> bool {
    exists|k: int| 0 <= k < buttons.len() && buttons[k].name@ == name
}

/// One message per handler whose name no button has, in name order.
pub open spec fn undeclared_problems<H, G>(
    entries: Seq<(Seq<char>, ButtonFn<H, G>)>,
    buttons: Seq<ButtonSpec>,
) -> Seq<Seq<char>>
    decreases entries.len(),
{
    if entries.len() == 0 {
        Seq::empty()
    } else {
        undeclared_problems(entries.drop_last(), buttons) + if declares(buttons, entries.last().0) {
            Seq::empty()
        } else {
            seq![undeclared_message(entries.last().0)]
        }
    }
}

/// The names of the handlers no button declares, in handler-table order.
pub open spec fn undeclared_names<H, G>(
    entries: Seq<(Seq<char>, ButtonFn<H, G>)>,
    buttons: Seq<ButtonSpec>,
) -> Seq<Seq<char>>
    decreases entries.len(),
{
    if entries.len() == 0 {
        Seq::empty()
    } else if declares(buttons, entries.last().0) {
        undeclared_names(entries.drop_last(), buttons)
    } else {
        undeclared_names(entries.drop_last(), buttons).push(entries.last().0)
    }
}

/// The handlers no button declares are reported one message each, for
/// exactly the handler names no button has, in strictly ascending name
/// order (a handler table always keeps its names so).
pub proof fn lemma_undeclared_in_name_order<H, G>(
    entries: Seq<(Seq<char>, ButtonFn<H, G>)>,
    buttons: Seq<ButtonSpec>,
)
    requires
        names_sorted(entry_names(entries)),
    ensures
        undeclared_problems(entries, buttons) == undeclared_names(entries, buttons).map_values(
            |n: Seq<char>| undeclared_message(n),
        ),
        forall|i: int, j: int|
            0 <= i < j < undeclared_names(entries, buttons).len() ==> chars_lt(
                #[trigger] undeclared_names(entries, buttons)[i],
                #[trigger] undeclared_names(entries, buttons)[j],
            ),
        forall|n: Seq<char>|
            #[trigger] undeclared_names(entries, buttons).contains(n) <==> (exists|k: int|
                0 <= k < entries.len() && entries[k].0 == n) && !declares(buttons, n),
    decreases entries.len(),
{
    if entries.len() > 0 {
        let d = entries.drop_last();
        assert(names_sorted(entry_names(d))) by {
            assert forall|i: int, j: int| 0 <= i < j < d.len() implies chars_lt(
                entry_names(d)[i],
                entry_names(d)[j],
            ) by {
                assert(entry_names(d)[i] == entry_names(entries)[i]);
                assert(entry_names(d)[j] == entry_names(entries)[j]);
            }
        }
        lemma_undeclared_in_name_order(d, buttons);
        let un = undeclared_names(d, buttons);
        let last = entries.last().0;
        assert(entries.last() == entries[entries.len() - 1]);
        assert(entry_names(entries)[entries.len() - 1] == last);
        // Every earlier name sorts before the last one.
        assert forall|n: Seq<char>| un.contains(n) implies chars_lt(n, last) by {
            let k = choose|k: int| 0 <= k < d.len() && d[k].0 == n;
            assert(d[k] == entries[k]);
            assert(entry_names(entries)[k] == n);
        }
        assert forall|n: Seq<char>|
            #[trigger] undeclared_names(entries, buttons).contains(n) <==> (exists|k: int|
                0 <= k < entries.len() && entries[k].0 == n) && !declares(buttons, n) by {
            if exists|k: int| 0 <= k < d.len() && d[k].0 == n {
                let k = choose|k: int| 0 <= k < d.len() && d[k].0 == n;
                assert(entries[k] == d[k]);
            }
            if exists|k: int| 0 <= k < entries.len() && entries[k].0 == n {
                let k = choose|k: int| 0 <= k < entries.len() && entries[k].0 == n;
                if k < entries.len() - 1 {
                    assert(d[k] == entries[k]);
                }
            }
            if !declares(buttons, last) {
                assert(un.push(last)[un.len() as int] == last);
                if un.push(last).contains(n) && n != last {
                    let i = choose|i: int| 0 <= i < un.push(last).len() && un.push(last)[i] == n;
                    assert(un[i] == n);
                }
                if un.contains(n) {
                    let i = choose|i: int| 0 <= i < un.len() && un[i] == n;
                    assert(un.push(last)[i] == n);
                }
            }
        }
        if !declares(buttons, last) {
            assert forall|i: int, j: int| 0 <= i < j < un.push(last).len() implies chars_lt(
                #[trigger] un.push(last)[i],
                #[trigger] un.push(last)[j],
            ) by {
                if j < un.len() {
                    assert(un.push(last)[i] == un[i] && un.push(last)[j] == un[j]);
                } else {
                    assert(un.push(last)[i] == un[i]);
                    assert(un.contains(un[i]));
                }
            }
            assert(undeclared_problems(entries, buttons) =~= un.push(last).map_values(
                |n: Seq<char>| undeclared_message(n),
            ));
        } else {
            assert(undeclared_problems(entries, buttons) =~= un.map_values(
                |n: Seq<char>| undeclared_message(n),
            ));
        }
    } else {
        assert(undeclared_problems(entries, buttons) =~= undeclared_names(entries, buttons).map_values(
            |n: Seq<char>| undeclared_message(n),
        ));
    }
}

/// The names of the submit buttons, in declaration order.
pub open spec fn submit_names(buttons: Seq<ButtonSpec>) -> Seq<Seq<char>>
    decreases buttons.len(),
{
    if buttons.len() == 0 {
        Seq::empty()
    } else if buttons.last().ty == ButtonType::Submit {
        submit_names(buttons.drop_last()).push(buttons.last().name@)
    } else {
        submit_names(buttons.drop_last())
    }
}

/// Everything `reconcile` reports: per-button problems in declaration order,
/// then handlers no button declares in name order, then a second submit.
pub open spec fn reconcile_problems<H, G>(
    entries: Seq<(Seq<char>, ButtonFn<H, G>)>,
    buttons: Seq<ButtonSpec>,
) -> Seq<Seq<char>> {
    button_problems(buttons, entries) + undeclared_problems(entries, buttons) + if submit_names(
        buttons,
    ).len() > 1 {
        seq![two_submits_message(submit_names(buttons))]
    } else {
        Seq::empty()
    }
}

/// The views of a list of messages.
pub open spec fn message_views(v: Seq<String>) -> Seq<Seq<char>> {
    v.map_values(|s: String| s@)
}

fn push_message(out: &mut Vec<String>, m: String)
    ensures
        message_views(final(out)@) == message_views(old(out)@).push(m@),
{
    out.push(m);
    proof {
        assert(message_views(final(out)@) =~= message_views(old(out)@).push(m@));
    }
}

impl<H, G> Fns<H, G> {
    /// Check these handlers against the buttons a spec declares, returning one
    /// message per mismatch.
    ///
    /// A missing handler is a dead button the user can click; an unknown name
    /// is a handler that will never run; a second submit button would never
    /// fire, since two submit buttons share one `onsubmit`.
    pub fn reconcile(&self, buttons: &[ButtonSpec]) -> (r: Vec<String>)
        ensures
            message_views(r@) == reconcile_problems(self@, buttons@),
            names_sorted(entry_names(self@)),
    {
        proof {
            use_type_invariant(self);
        }
        let mut problems: Vec<String> = Vec::new();
        let mut i: usize = 0;
        while i < buttons.len()
            invariant
                i <= buttons@.len(),
                message_views(problems@) == button_problems(buttons@.take(i as int), self@),
            decreases buttons.len() - i,
        {
            let b = &buttons[i];
            proof {
                assert(buttons@.take(i + 1).drop_last() =~= buttons@.take(i as int));
                assert(buttons@.take(i + 1).last() == *b);
            }
            match self.get(b.name.as_str()) {
                None => {
                    let mut m = owned("button `");
                    push_str(&mut m, b.name.as_str());
                    push_str(&mut m, "` has no fn supplied");
                    push_message(&mut problems, m);
                },
                Some(f) => {
                    let inv = b.invocation();
                    match (inv, f) {
                        (Invocation::IfModelValidates, ButtonFn::Unchecked(_)) => {
                            let mut m = owned("button `");
                            push_str(&mut m, b.name.as_str());
                            push_str(
                                &mut m,
                                "` validates its model, so its fn must take it \u{2014} write `|m| \u{2026}`, or declare `invocation: unconditional`",
                            );
                            push_message(&mut problems, m);
                        },
                        (Invocation::Unconditional, ButtonFn::Validated(_)) => {
                            let mut m = owned("button `");
                            push_str(&mut m, b.name.as_str());
                            push_str(
                                &mut m,
                                "` runs unconditionally, so its fn takes no model \u{2014} write `|| \u{2026}`, or declare `invocation: if_model_validates`",
                            );
                            push_message(&mut problems, m);
                        },
                        _ => {
                            proof {
                                assert(message_views(problems@) + Seq::<Seq<char>>::empty()
                                    =~= message_views(problems@));
                            }
                        },
                    }
                },
            }
            i = i + 1;
        }
        proof {
            assert(buttons@.take(buttons@.len() as int) =~= buttons@);
            use_type_invariant(self);
        }
        let ghost before = message_views(problems@);
        let mut k: usize = 0;
        while k < self.fns.len()
            invariant
                k <= self.fns@.len(),
                self@.len() == self.fns@.len(),
                message_views(problems@) == before + undeclared_problems(
                    self@.take(k as int),
                    buttons@,
                ),
            decreases self.fns.len() - k,
        {
            let name = self.fns[k].0.as_str();
            proof {
                assert(self@[k as int].0 == name@);
                assert(self@.take(k + 1).drop_last() =~= self@.take(k as int));
                assert(self@.take(k + 1).last() == self@[k as int]);
            }
            let mut declared = false;
            let mut j: usize = 0;
            while j < buttons.len()
                invariant
                    j <= buttons@.len(),
                    declared == exists|t: int| 0 <= t < j && buttons@[t].name@ == name@,
                decreases buttons.len() - j,
            {
                if str_eq(buttons[j].name.as_str(), name) {
                    declared = true;
                }
                j = j + 1;
            }
            if !declared {
                let mut m = owned("`");
                push_str(&mut m, name);
                push_str(&mut m, "` is not a button this form declares");
                push_message(&mut problems, m);
                proof {
                    assert(before + undeclared_problems(self@.take(k + 1), buttons@) =~= before
                        + undeclared_problems(self@.take(k as int), buttons@) + seq![
                        undeclared_message(name@),
                    ]);
                }
            } else {
                proof {
                    assert(before + undeclared_problems(self@.take(k + 1), buttons@) =~= before
                        + undeclared_problems(self@.take(k as int), buttons@));
                }
            }
            k = k + 1;
        }
        proof {
            assert(self@.take(self@.len() as int) =~= self@);
        }
        let mut submits: Vec<&str> = Vec::new();
        let mut t: usize = 0;
        while t < buttons.len()
            invariant
                t <= buttons@.len(),
                views(submits@) == submit_names(buttons@.take(t as int)),
            decreases buttons.len() - t,
        {
            proof {
                assert(buttons@.take(t + 1).drop_last() =~= buttons@.take(t as int));
                assert(buttons@.take(t + 1).last() == buttons@[t as int]);
            }
            if buttons[t].ty == ButtonType::Submit {
                submits.push(buttons[t].name.as_str());
                proof {
                    assert(views(submits@) =~= submit_names(buttons@.take(t as int)).push(
                        buttons@[t as int].name@,
                    ));
                }
            }
            t = t + 1;
        }
        proof {
            assert(buttons@.take(buttons@.len() as int) =~= buttons@);
        }
        if submits.len() > 1 {
            let mut m = owned("a form can have one submit button; this one declares ");
            let all = join_strs(&submits, ", ");
            push_str(&mut m, all.as_str());
            push_message(&mut problems, m);
        } else {
            proof {
                assert(message_views(problems@) + Seq::<Seq<char>>::empty() =~= message_views(
                    problems@,
                ));
            }
        }
        problems
    }
}

/// Every button has a handler that fits how it is invoked.
pub open spec fn every_button_served<H, G>(
    buttons: Seq<ButtonSpec>,
    entries: Seq<(Seq<char>, ButtonFn<H, G>)>,
) -> bool {
    forall|k: int|
        0 <= k < buttons.len() ==> (#[trigger] lookup(entries, buttons[k].name@) matches Some(f)
            && fits(invocation_of(buttons[k]), f))
}

/// Every handler is named after some button.
pub open spec fn every_handler_declared<H, G>(
    entries: Seq<(Seq<char>, ButtonFn<H, G>)>,
    buttons: Seq<ButtonSpec>,
) -> bool {
    forall|k: int| 0 <= k < entries.len() ==> declares(buttons, #[trigger] entries[k].0)
}

proof fn lemma_button_problems_empty<H, G>(
    buttons: Seq<ButtonSpec>,
    entries: Seq<(Seq<char>, ButtonFn<H, G>)>,
)
    ensures
        button_problems(buttons, entries).len() == 0 <==> every_button_served(buttons, entries),
    decreases buttons.len(),
{
    if buttons.len() > 0 {
        let init = buttons.drop_last();
        lemma_button_problems_empty(init, entries);
        let last = buttons.len() - 1;
        assert(buttons[last] == buttons.last());
        if every_button_served(buttons, entries) {
            assert forall|k: int| 0 <= k < init.len() implies (#[trigger] lookup(
                entries,
                init[k].name@,
            ) matches Some(f) && fits(invocation_of(init[k]), f)) by {
                assert(init[k] == buttons[k]);
            }
            assert(lookup(entries, buttons[last].name@) matches Some(f) && fits(
                invocation_of(buttons[last]),
                f,
            ));
        }
        if button_problems(buttons, entries).len() == 0 {
            assert forall|k: int| 0 <= k < buttons.len() implies (#[trigger] lookup(
                entries,
                buttons[k].name@,
            ) matches Some(f) && fits(invocation_of(buttons[k]), f)) by {
                if k < last {
                    assert(init[k] == buttons[k]);
                }
            }
        }
    }
}

proof fn lemma_undeclared_empty<H, G>(
    entries: Seq<(Seq<char>, ButtonFn<H, G>)>,
    buttons: Seq<ButtonSpec>,
)
    ensures
        undeclared_problems(entries, buttons).len() == 0 <==> every_handler_declared(
            entries,
            buttons,
        ),
    decreases entries.len(),
{
    if entries.len() > 0 {
        let init = entries.drop_last();
        lemma_undeclared_empty(init, buttons);
        let last = entries.len() - 1;
        assert(entries[last] == entries.last());
        if every_handler_declared(entries, buttons) {
            assert forall|k: int| 0 <= k < init.len() implies declares(buttons, #[trigger] init[k].0) by {
                assert(init[k] == entries[k]);
                assert(declares(buttons, entries[k].0));
            }
            assert(declares(buttons, entries[last].0));
        }
        if undeclared_problems(entries, buttons).len() == 0 {
            assert forall|k: int| 0 <= k < entries.len() implies declares(buttons, #[trigger] entries[k].0) by {
                if k < last {
                    assert(init[k] == entries[k]);
                    assert(declares(buttons, init[k].0));
                }
            }
        }
    }
}

/// `reconcile` finds nothing to report exactly when every button has a handler
/// of the shape its invocation needs, every handler belongs to a declared
/// button, and at most one button submits.
pub proof fn lemma_reconcile_clean<H, G>(fns: Fns<H, G>, buttons: Seq<ButtonSpec>)
    ensures
        reconcile_problems(fns@, buttons).len() == 0 <==> {
            &&& every_button_served(buttons, fns@)
            &&& every_handler_declared(fns@, buttons)
            &&& submit_names(buttons).len() <= 1
        },
{
    lemma_button_problems_empty(buttons, fns@);
    lemma_undeclared_empty(fns@, buttons);
}

// ── The button row ──────────────────────────────────────────────────────

/// What one rendered button shows and does.
pub struct ButtonView {
    /// The element's key: the button's name.
    pub key: String,
    pub html_type: &'static str,
    pub class: &'static str,
    /// A button with no handler is shown but inert, so the mistake stays
    /// visible and a live submit cannot reload the page.
    pub disabled: bool,
    /// Whether a click runs the handler. The submit button never does: a
    /// click on it submits the form, and the form's submit runs it once.
    pub runs_on_click: bool,
    pub label: String,
}

/// Whether `v` is how button `b` renders with these handlers.
pub open spec fn renders_as<H, G>(v: ButtonView, b: ButtonSpec, fns: Seq<(Seq<char>, ButtonFn<H, G>)>) -> bool {
    &&& v.key@ == b.name@
    &&& v.html_type@ == html_type_of(b.ty)
    &&& v.class@ == default_class_of(b.ty)
    &&& v.disabled == (lookup(fns, b.name@) is None)
    &&& v.runs_on_click == (lookup(fns, b.name@) is Some && b.ty != ButtonType::Submit)
    &&& v.label@ == label_of(b)
}

/// The button row, in declaration order.
pub fn button_views<H, G>(fns: &Fns<H, G>, buttons: &[ButtonSpec]) -> (r: Vec<ButtonView>)
    ensures
        r@.len() == buttons@.len(),
        forall|i: int| 0 <= i < buttons@.len() ==> renders_as(#[trigger] r@[i], buttons@[i], fns@),
{
    let mut out: Vec<ButtonView> = Vec::new();
    let mut i: usize = 0;
    while i < buttons.len()
        invariant
            i <= buttons@.len(),
            out@.len() == i,
            forall|k: int| 0 <= k < i ==> renders_as(#[trigger] out@[k], buttons@[k], fns@),
        decreases buttons.len() - i,
    {
        let b = &buttons[i];
        let f = fns.get(b.name.as_str());
        let found = f.is_some();
        let is_submit = b.ty == ButtonType::Submit;
        let v = ButtonView {
            key: owned(b.name.as_str()),
            html_type: b.ty.html_type(),
            class: b.ty.default_class(),
            disabled: !found,
            runs_on_click: found && !is_submit,
            label: b.label(),
        };
        out.push(v);
        i = i + 1;
    }
    out
}

/// The position of the first submit button, if any.
pub open spec fn first_submit(buttons: Seq<ButtonSpec>) -> Option<int> {
    if exists|i: int| 0 <= i < buttons.len() && buttons[i].ty == ButtonType::Submit {
        Some(
            choose|i: int|
                0 <= i < buttons.len() && buttons[i].ty == ButtonType::Submit && forall|k: int|
                    0 <= k < i ==> buttons[k].ty != ButtonType::Submit,
        )
    } else {
        None
    }
}

/// What the form's own submit runs: the handler of the first submit button,
/// if it has one.
pub fn submit_handler<'a, H, G>(fns: &'a Fns<H, G>, buttons: &[ButtonSpec]) -> (r: Option<&'a ButtonFn<H, G>>)
    ensures
        match first_submit(buttons@) {
            None => r is None,
            Some(i) => match fns.handler(buttons@[i].name@) {
                Some(f) => r == Some(&f),
                None => r is None,
            },
        },
{
    let mut i: usize = 0;
    while i < buttons.len()
        invariant
            i <= buttons@.len(),
            forall|k: int| 0 <= k < i ==> buttons@[k].ty != ButtonType::Submit,
        decreases buttons.len() - i,
    {
        if buttons[i].ty == ButtonType::Submit {
            proof {
                assert(0 <= i < buttons@.len() && buttons@[i as int].ty == ButtonType::Submit && forall|k: int|
                    0 <= k < i ==> buttons@[k].ty != ButtonType::Submit);
                let w = first_submit(buttons@)->0;
                if w < i {
                } else if w > i {
                }
                assert(w == i);
            }
            return fns.get(buttons[i].name.as_str());
        }
        i = i + 1;
    }
    None
}

} // verus!
