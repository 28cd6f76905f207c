//! Buttons declared with `#[form(button(...))]` on a derived form: which
//! declarations are accepted, which handler each button gets, and the order
//! the button row renders them in.
use vstd::prelude::*;

use crate::buttons::{default_class_of, default_handler_kind_of, display_order_of, ButtonType, HandlerKind};
use crate::grammar::name_repeats;
use crate::text::{decimal, owned, push_str, str_eq, usize_to_string};

verus! {

/// One `#[form(button(name = …, type = …, …))]`.
#[derive(Clone, Debug)]
pub struct ButtonInfo {
    pub name: String,
    pub ty: ButtonType,
    pub text: Option<String>,
    pub class: Option<String>,
    pub handler: Option<HandlerKind>,
}

/// The handler kind a button declared, else the one its type implies.
pub open spec fn handler_kind_of(b: ButtonInfo) -> HandlerKind {
    match b.handler {
        Some(h) => h,
        None => default_handler_kind_of(b.ty),
    }
}

/// The class a button declared, else its type's.
pub open spec fn class_of(b: ButtonInfo) -> Seq<char> {
    match b.class {
        Some(c) => c@,
        None => default_class_of(b.ty),
    }
}

impl ButtonInfo {
    /// The declared `handler`, else what the type implies.
    pub fn handler_kind(&self) -> (r: HandlerKind)
        ensures
            r == handler_kind_of(*self),
    {
        match self.handler {
            Some(h) => h,
            None => self.ty.default_handler_kind(),
        }
    }

    /// The declared `class`, else the type's default class.
    pub fn class(&self) -> (r: String)
        ensures
            r@ == class_of(*self),
    {
        match &self.class {
            Some(c) => owned(c.as_str()),
            None => owned(self.ty.default_class()),
        }
    }
}

/// The types of the buttons, in declaration order.
pub open spec fn types_of(buttons: Seq<ButtonInfo>) -> Seq<ButtonType> {
    buttons.map_values(|b: ButtonInfo| b.ty)
}

/// The names of the buttons, in declaration order.
pub open spec fn names_of(buttons: Seq<ButtonInfo>) -> Seq<Seq<char>> {
    buttons.map_values(|b: ButtonInfo| b.name@)
}

/// The positions below `n` whose type is `t`, ascending.
pub open spec fn indices_of(types: Seq<ButtonType>, t: ButtonType, n: int) -> Seq<int>
    decreases n,
{
    if n <= 0 {
        Seq::empty()
    } else if types[n - 1] == t {
        indices_of(types, t, n - 1).push(n - 1)
    } else {
        indices_of(types, t, n - 1)
    }
}

/// How many buttons are submit buttons.
pub open spec fn submit_count(types: Seq<ButtonType>) -> nat {
    indices_of(types, ButtonType::Submit, types.len() as int).len()
}

/// The message for a form without exactly one submit button.
pub open spec fn submit_count_message(count: nat) -> Seq<char> {
    "a form must declare exactly one `#[form(button(type = submit, ...))]` (found "@ + decimal(
        count,
    ) + ") \u{2014} every button now needs an explicit handler, so the submit button is no longer synthesized automatically"@
}

/// The message for a button name declared twice.
pub open spec fn duplicate_button_message(name: Seq<char>) -> Seq<char> {
    "duplicate button name `"@ + name
        + "` \u{2014} button names must be unique, they become both the `\u{2026}Handlers` struct field and the local variable bound to it"@
}

/// The first position whose name repeats an earlier one, if any.
pub open spec fn first_repeat(names: Seq<Seq<char>>) -> Option<int> {
    if exists|i: int| 0 <= i < names.len() && name_repeats(names, i) {
        Some(
            choose|i: int|
                0 <= i < names.len() && name_repeats(names, i) && forall|i2: int|
                    0 <= i2 < i ==> !name_repeats(names, i2),
        )
    } else {
        None
    }
}

/// A form's buttons are accepted when exactly one is a submit button and no
/// name is declared twice; the submit count is checked first.
pub open spec fn buttons_verdict(buttons: Seq<ButtonInfo>) -> Result<(), Seq<char>> {
    let count = submit_count(types_of(buttons));
    if count != 1 {
        Err(submit_count_message(count))
    } else {
        match first_repeat(names_of(buttons)) {
            Some(i) => Err(duplicate_button_message(names_of(buttons)[i])),
            None => Ok(()),
        }
    }
}

/// Facts about `indices_of` that the ordering laws rest on.
proof fn lemma_indices_of(types: Seq<ButtonType>, t: ButtonType, n: int)
    requires
        0 <= n <= types.len(),
    ensures
        forall|k: int| 0 <= k < indices_of(types, t, n).len() ==> 0 <= #[trigger] indices_of(types, t, n)[k] < n
            && types[indices_of(types, t, n)[k]] == t,
        forall|j: int, k: int|
            0 <= j < k < indices_of(types, t, n).len() ==> #[trigger] indices_of(types, t, n)[j] < #[trigger] indices_of(types, t, n)[k],
        forall|i: int| 0 <= i < n && types[i] == t ==> #[trigger] indices_of(types, t, n).contains(i),
    decreases n,
{
    if n > 0 {
        lemma_indices_of(types, t, n - 1);
        let prev = indices_of(types, t, n - 1);
        if types[n - 1] == t {
            assert(prev.push(n - 1)[prev.len() as int] == n - 1);
            assert forall|i: int| 0 <= i < n && types[i] == t implies #[trigger] indices_of(types, t, n).contains(i) by {
                if i < n - 1 {
                    assert(prev.contains(i));
                    let k = choose|k: int| 0 <= k < prev.len() && prev[k] == i;
                    assert(prev.push(n - 1)[k] == i);
                } else {
                    assert(prev.push(n - 1)[prev.len() as int] == i);
                }
            }
        }
    }
}

/// How many positions below `n` each type has: one per position, so the
/// five groups together have `n`.
proof fn lemma_group_sizes(types: Seq<ButtonType>, n: int)
    requires
        0 <= n <= types.len(),
    ensures
        indices_of(types, ButtonType::Destructive, n).len() + indices_of(types, ButtonType::Reset, n).len()
            + indices_of(types, ButtonType::Cancel, n).len() + indices_of(types, ButtonType::Button, n).len()
            + indices_of(types, ButtonType::Submit, n).len() == n,
    decreases n,
{
    if n > 0 {
        lemma_group_sizes(types, n - 1);
    }
}

/// The order the button row renders: destructive buttons first, then the
/// rest by display order, keeping declaration order among equals.
pub open spec fn display_sequence(types: Seq<ButtonType>) -> Seq<int> {
    let n = types.len() as int;
    indices_of(types, ButtonType::Destructive, n) + indices_of(types, ButtonType::Reset, n)
        + indices_of(types, ButtonType::Cancel, n) + indices_of(types, ButtonType::Button, n)
        + indices_of(types, ButtonType::Submit, n)
}

/// Append the positions of the buttons of type `t`, in declaration order.
fn push_indices_of(buttons: &[ButtonInfo], t: ButtonType, out: &mut Vec<usize>)
    ensures
        final(out)@.map_values(|i: usize| i as int) == old(out)@.map_values(|i: usize| i as int)
            + indices_of(types_of(buttons@), t, buttons@.len() as int),
{
    let ghost start = old(out)@.map_values(|i: usize| i as int);
    let ghost types = types_of(buttons@);
    let mut i: usize = 0;
    while i < buttons.len()
        invariant
            i <= buttons@.len(),
            types == types_of(buttons@),
            out@.map_values(|i: usize| i as int) == start + indices_of(types, t, i as int),
        decreases buttons.len() - i,
    {
        let ghost before = out@.map_values(|i: usize| i as int);
        if buttons[i].ty == t {
            out.push(i);
            proof {
                assert(out@.map_values(|i: usize| i as int) =~= before.push(i as int));
                assert(start + indices_of(types, t, i + 1) =~= (start + indices_of(types, t, i as int)).push(
                    i as int,
                ));
            }
        } else {
            proof {
                assert(types[i as int] != t);
            }
        }
        i = i + 1;
    }
}

/// The positions of the buttons in the order the button row renders them.
fn button_order(buttons: &[ButtonInfo]) -> (r: Vec<usize>)
    ensures
        r@.map_values(|i: usize| i as int) == display_sequence(types_of(buttons@)),
{
    let mut out: Vec<usize> = Vec::new();
    proof {
        assert(out@.map_values(|i: usize| i as int) =~= Seq::<int>::empty());
    }
    push_indices_of(buttons, ButtonType::Destructive, &mut out);
    push_indices_of(buttons, ButtonType::Reset, &mut out);
    push_indices_of(buttons, ButtonType::Cancel, &mut out);
    push_indices_of(buttons, ButtonType::Button, &mut out);
    push_indices_of(buttons, ButtonType::Submit, &mut out);
    proof {
        let types = types_of(buttons@);
        let n = buttons@.len() as int;
        assert(out@.map_values(|i: usize| i as int) =~= display_sequence(types));
    }
    out
}

/// The button row shows every button exactly once, in display order, and
/// buttons of equal display order keep the order they were declared in.
pub proof fn lemma_button_order(types: Seq<ButtonType>)
    ensures
        display_sequence(types).len() == types.len(),
        forall|k: int|
            0 <= k < display_sequence(types).len() ==> 0 <= #[trigger] display_sequence(types)[k] < types.len(),
        forall|i: int| 0 <= i < types.len() ==> #[trigger] display_sequence(types).contains(i),
        forall|j: int, k: int|
            0 <= j < k < display_sequence(types).len() ==> display_order_of(
                types[#[trigger] display_sequence(types)[j]],
            ) <= display_order_of(types[#[trigger] display_sequence(types)[k]]),
        forall|j: int, k: int|
            0 <= j < k < display_sequence(types).len() && display_order_of(
                types[#[trigger] display_sequence(types)[j]],
            ) == display_order_of(types[#[trigger] display_sequence(types)[k]]) ==> display_sequence(types)[j]
                < display_sequence(types)[k],
{
    let n = types.len() as int;
    let d = indices_of(types, ButtonType::Destructive, n);
    let re = indices_of(types, ButtonType::Reset, n);
    let c = indices_of(types, ButtonType::Cancel, n);
    let b = indices_of(types, ButtonType::Button, n);
    let su = indices_of(types, ButtonType::Submit, n);
    lemma_indices_of(types, ButtonType::Destructive, n);
    lemma_indices_of(types, ButtonType::Reset, n);
    lemma_indices_of(types, ButtonType::Cancel, n);
    lemma_indices_of(types, ButtonType::Button, n);
    lemma_indices_of(types, ButtonType::Submit, n);
    lemma_group_sizes(types, n);
    let s = display_sequence(types);
    assert(s == d + re + c + b + su);
    // Position `k` of `s` lies in one group; name the group and its offset.
    let o1 = d.len() as int;
    let o2 = o1 + re.len();
    let o3 = o2 + c.len();
    let o4 = o3 + b.len();
    assert forall|k: int| 0 <= k < s.len() implies #[trigger] s[k] == (if k < o1 {
        d[k]
    } else if k < o2 {
        re[k - o1]
    } else if k < o3 {
        c[k - o2]
    } else if k < o4 {
        b[k - o3]
    } else {
        su[k - o4]
    }) by {}
    assert forall|k: int| 0 <= k < s.len() implies display_order_of(types[#[trigger] s[k]]) == (if k < o1 {
        0u8
    } else if k < o2 {
        10u8
    } else if k < o3 {
        11u8
    } else if k < o4 {
        12u8
    } else {
        13u8
    }) by {
        if k < o1 {
            assert(types[d[k]] == ButtonType::Destructive);
        } else if k < o2 {
            assert(types[re[k - o1]] == ButtonType::Reset);
        } else if k < o3 {
            assert(types[c[k - o2]] == ButtonType::Cancel);
        } else if k < o4 {
            assert(types[b[k - o3]] == ButtonType::Button);
        } else {
            assert(types[su[k - o4]] == ButtonType::Submit);
        }
    }
    assert forall|i: int| 0 <= i < types.len() implies #[trigger] s.contains(i) by {
        match types[i] {
            ButtonType::Destructive => {
                assert(d.contains(i));
                let k = choose|k: int| 0 <= k < d.len() && d[k] == i;
                assert(s[k] == i);
            },
            ButtonType::Reset => {
                assert(re.contains(i));
                let k = choose|k: int| 0 <= k < re.len() && re[k] == i;
                assert(s[k + o1] == i);
            },
            ButtonType::Cancel => {
                assert(c.contains(i));
                let k = choose|k: int| 0 <= k < c.len() && c[k] == i;
                assert(s[k + o2] == i);
            },
            ButtonType::Button => {
                assert(b.contains(i));
                let k = choose|k: int| 0 <= k < b.len() && b[k] == i;
                assert(s[k + o3] == i);
            },
            ButtonType::Submit => {
                assert(su.contains(i));
                let k = choose|k: int| 0 <= k < su.len() && su[k] == i;
                assert(s[k + o4] == i);
            },
        }
    }
    assert forall|j: int, k: int| 0 <= j < k < s.len() && display_order_of(types[#[trigger] s[j]])
        == display_order_of(types[#[trigger] s[k]]) implies s[j] < s[k] by {
        if k < o1 {
            assert(d[j] < d[k]);
        } else if k < o2 {
            assert(re[j - o1] < re[k - o1]);
        } else if k < o3 {
            assert(c[j - o2] < c[k - o2]);
        } else if k < o4 {
            assert(b[j - o3] < b[k - o3]);
        } else {
            assert(su[j - o4] < su[k - o4]);
        }
    }
}

/// Check a derived form's buttons: exactly one submit button, then no name
/// declared twice.
fn validate_buttons(buttons: &[ButtonInfo]) -> (r: Result<(), String>)
    ensures
        match buttons_verdict(buttons@) {
            Ok(()) => r is Ok,
            Err(m) => r matches Err(e) && e@ == m,
        },
{
    let ghost types = types_of(buttons@);
    let ghost names = names_of(buttons@);
    let mut submits: Vec<usize> = Vec::new();
    proof {
        assert(submits@.map_values(|i: usize| i as int) =~= Seq::<int>::empty());
    }
    push_indices_of(buttons, ButtonType::Submit, &mut submits);
    proof {
        assert(submits@.len() == submit_count(types));
    }
    let count = submits.len();
    if count != 1 {
        let mut m = owned("a form must declare exactly one `#[form(button(type = submit, ...))]` (found ");
        let n = usize_to_string(count);
        push_str(&mut m, n.as_str());
        push_str(
            &mut m,
            ") \u{2014} every button now needs an explicit handler, so the submit button is no longer synthesized automatically",
        );
        return Err(m);
    }
    let mut i: usize = 0;
    while i < buttons.len()
        invariant
            i <= buttons@.len(),
            names == names_of(buttons@),
            names.len() == buttons@.len(),
            submit_count(types_of(buttons@)) == 1,
            forall|i2: int| 0 <= i2 < i ==> !name_repeats(names, i2),
        decreases buttons.len() - i,
    {
        let mut j: usize = 0;
        while j < i
            invariant
                j <= i < buttons@.len(),
                names == names_of(buttons@),
                names.len() == buttons@.len(),
                submit_count(types_of(buttons@)) == 1,
                forall|i2: int| 0 <= i2 < i ==> !name_repeats(names, i2),
                forall|t: int| 0 <= t < j ==> names[t] != names[i as int],
            decreases i - j,
        {
            if str_eq(buttons[j].name.as_str(), buttons[i].name.as_str()) {
                let mut m = owned("duplicate button name `");
                push_str(&mut m, buttons[i].name.as_str());
                push_str(
                    &mut m,
                    "` \u{2014} button names must be unique, they become both the `\u{2026}Handlers` struct field and the local variable bound to it",
                );
                proof {
                    assert(names[j as int] == names[i as int]);
                    assert(name_repeats(names, i as int));
                    assert(0 <= i < names.len() && name_repeats(names, i as int) && forall|i2: int|
                        0 <= i2 < i ==> !name_repeats(names, i2));
                    assert(names[i as int] == buttons@[i as int].name@);
                    let w = first_repeat(names)->0;
                    assert(0 <= w < names.len() && name_repeats(names, w) && forall|i2: int|
                        0 <= i2 < w ==> !name_repeats(names, i2));
                    if w < i {
                    } else if w > i {
                        assert(!name_repeats(names, i as int));
                    }
                    assert(w == i);
                }
                return Err(m);
            }
            j = j + 1;
        }
        i = i + 1;
    }
    proof {
        assert(first_repeat(names) is None);
    }
    Ok(())
}

/// The one submit button's position, given that `validate_buttons` passed.
fn submit_button(buttons: &[ButtonInfo]) -> (r: usize)
    requires
        submit_count(types_of(buttons@)) == 1,
    ensures
        r < buttons@.len(),
        buttons@[r as int].ty == ButtonType::Submit,
{
    let mut submits: Vec<usize> = Vec::new();
    proof {
        assert(submits@.map_values(|i: usize| i as int) =~= Seq::<int>::empty());
    }
    push_indices_of(buttons, ButtonType::Submit, &mut submits);
    proof {
        lemma_indices_of(types_of(buttons@), ButtonType::Submit, buttons@.len() as int);
        assert(submits@.map_values(|i: usize| i as int)[0] == submits@[0] as int);
    }
    submits[0]
}

/// What a derived form declares about its buttons.
pub struct FormMeta {
    /// The `#[form(button(...))]` declarations, in declaration order.
    pub buttons: Vec<ButtonInfo>,
}

impl FormMeta {
    /// Check the buttons: exactly one submit button, then no name declared
    /// twice.
    pub fn validate(&self) -> (r: Result<(), String>)
        ensures
            match buttons_verdict(self.buttons@) {
                Ok(()) => r is Ok,
                Err(m) => r matches Err(e) && e@ == m,
            },
    {
        validate_buttons(self.buttons.as_slice())
    }

    /// The one submit button's position, once `validate` has passed.
    pub fn submit_button(&self) -> (r: usize)
        requires
            submit_count(types_of(self.buttons@)) == 1,
        ensures
            r < self.buttons@.len(),
            self.buttons@[r as int].ty == ButtonType::Submit,
    {
        submit_button(self.buttons.as_slice())
    }

    /// The positions of the buttons in the order the button row renders
    /// them: destructive first, then by display order, declaration order
    /// among equals.
    pub fn button_order(&self) -> (r: Vec<usize>)
        ensures
            r@.map_values(|i: usize| i as int) == display_sequence(types_of(self.buttons@)),
    {
        button_order(self.buttons.as_slice())
    }
}

} // verus!
