//! The decisions `form!` makes while it parses: which keys a block accepts,
//! what may appear twice, and what each mistake is called. The token-level
//! reading is done outside this crate; each decision here takes the words it
//! read and answers with the next state or the message to report.
use vstd::prelude::*;

use crate::buttons::{ButtonSpec, ButtonType, Invocation};
use crate::pattern::{regex_compiles, regex_error_text, Pattern};
use crate::text::{join, join_strs, owned, push_str, str_eq, views};
use crate::vocab::{button_type_names, button_type_names_spec, no_choices_message, reject_choices_unless_chooser, WidgetName};

verus! {

// ── One entry per attribute and per path ────────────────────────────────

/// One entry of a `form!` body, as far as duplicate checking cares.
pub enum EntryKind<'a> {
    Title,
    BrowserValidation,
    LabelCase,
    Validator,
    Buttons,
    /// A field entry, by its key (`venues[].city`).
    Field(&'a str),
}

/// The name an attribute entry is reported under.
pub open spec fn attribute_name(e: EntryKind) -> Seq<char> {
    match e {
        EntryKind::Title => "title"@,
        EntryKind::BrowserValidation => "browser_validation"@,
        EntryKind::LabelCase => "label_case"@,
        EntryKind::Validator => "validator"@,
        EntryKind::Buttons => "buttons"@,
        EntryKind::Field(key) => key@,
    }
}

/// Two entries say the same thing: the same attribute, or the same field path.
pub open spec fn same_entry(a: EntryKind, b: EntryKind) -> bool {
    match (a, b) {
        (EntryKind::Field(x), EntryKind::Field(y)) => x@ == y@,
        (EntryKind::Title, EntryKind::Title) => true,
        (EntryKind::BrowserValidation, EntryKind::BrowserValidation) => true,
        (EntryKind::LabelCase, EntryKind::LabelCase) => true,
        (EntryKind::Validator, EntryKind::Validator) => true,
        (EntryKind::Buttons, EntryKind::Buttons) => true,
        _ => false,
    }
}

/// The message for an entry given a second time.
pub open spec fn duplicate_entry_message(e: EntryKind) -> Seq<char> {
    match e {
        EntryKind::Field(key) => "`"@ + key@ + "` is specified twice \u{2014} merge the two bodies into one"@,
        _ => "`"@ + attribute_name(e) + "` is given twice"@,
    }
}

/// The entries seen so far: one flag per attribute, and the field keys.
pub struct EntryLog {
    title: bool,
    browser_validation: bool,
    label_case: bool,
    validator: bool,
    buttons: bool,
    fields: Vec<String>,
}

impl EntryLog {
    /// Whether an entry like `e` has been recorded.
    pub closed spec fn seen(self, e: EntryKind) -> bool {
        match e {
            EntryKind::Title => self.title,
            EntryKind::BrowserValidation => self.browser_validation,
            EntryKind::LabelCase => self.label_case,
            EntryKind::Validator => self.validator,
            EntryKind::Buttons => self.buttons,
            EntryKind::Field(key) => exists|k: int| 0 <= k < self.fields@.len() && self.fields@[k]@ == key@,
        }
    }

    pub fn new() -> (r: Self)
        ensures
            forall|e: EntryKind| !r.seen(e),
    {
        EntryLog {
            title: false,
            browser_validation: false,
            label_case: false,
            validator: false,
            buttons: false,
            fields: Vec::new(),
        }
    }

    /// Record `entry`, or report it if an entry like it was already recorded.
    pub fn check_duplicate(&mut self, entry: &EntryKind) -> (r: Result<(), String>)
        ensures
            old(self).seen(*entry) ==> (r matches Err(m) && m@ == duplicate_entry_message(*entry)),
            !old(self).seen(*entry) ==> r is Ok,
            forall|e: EntryKind| #[trigger] final(self).seen(e) == (old(self).seen(e) || same_entry(e, *entry)),
    {
        let seen = match entry {
            EntryKind::Title => self.title,
            EntryKind::BrowserValidation => self.browser_validation,
            EntryKind::LabelCase => self.label_case,
            EntryKind::Validator => self.validator,
            EntryKind::Buttons => self.buttons,
            EntryKind::Field(key) => {
                let mut found = false;
                let mut k: usize = 0;
                while k < self.fields.len()
                    invariant
                        k <= self.fields@.len(),
                        found == exists|t: int| 0 <= t < k && self.fields@[t]@ == key@,
                    decreases self.fields.len() - k,
                {
                    if str_eq(self.fields[k].as_str(), key) {
                        found = true;
                    }
                    k = k + 1;
                }
                found
            },
        };
        proof {
            lemma_seen_like(*self, *entry);
        }
        if seen {
            let mut m = owned("`");
            match entry {
                EntryKind::Field(key) => {
                    push_str(&mut m, key);
                    push_str(&mut m, "` is specified twice \u{2014} merge the two bodies into one");
                },
                EntryKind::Title => {
                    push_str(&mut m, "title");
                    push_str(&mut m, "` is given twice");
                },
                EntryKind::BrowserValidation => {
                    push_str(&mut m, "browser_validation");
                    push_str(&mut m, "` is given twice");
                },
                EntryKind::LabelCase => {
                    push_str(&mut m, "label_case");
                    push_str(&mut m, "` is given twice");
                },
                EntryKind::Validator => {
                    push_str(&mut m, "validator");
                    push_str(&mut m, "` is given twice");
                },
                EntryKind::Buttons => {
                    push_str(&mut m, "buttons");
                    push_str(&mut m, "` is given twice");
                },
            }
            return Err(m);
        }
        match entry {
            EntryKind::Title => {
                self.title = true;
            },
            EntryKind::BrowserValidation => {
                self.browser_validation = true;
            },
            EntryKind::LabelCase => {
                self.label_case = true;
            },
            EntryKind::Validator => {
                self.validator = true;
            },
            EntryKind::Buttons => {
                self.buttons = true;
            },
            EntryKind::Field(key) => {
                self.fields.push(owned(key));
            },
        }
        proof {
            assert forall|e: EntryKind| #[trigger] self.seen(e) == (old(self).seen(e) || same_entry(e, *entry)) by {
                match e {
                    EntryKind::Field(x) => {
                        let before = old(self).fields@;
                        if let EntryKind::Field(key) = *entry {
                            assert(self.fields@.len() == before.len() + 1);
                            if x@ == key@ {
                                assert(self.fields@[before.len() as int]@ == x@);
                            }
                            if old(self).seen(e) {
                                let t = choose|t: int| 0 <= t < before.len() && before[t]@ == x@;
                                assert(self.fields@[t] == before[t]);
                            }
                            if self.seen(e) && !(x@ == key@) {
                                let t = choose|t: int| 0 <= t < self.fields@.len() && self.fields@[t]@ == x@;
                                assert(t < before.len());
                                assert(self.fields@[t] == before[t]);
                            }
                        } else {
                            assert(self.fields@ == before);
                        }
                    },
                    _ => {},
                }
            }
        }
        Ok(())
    }
}

/// `entries[i]` repeats some earlier entry.
pub open spec fn repeats_earlier(entries: Seq<EntryKind>, i: int) -> bool {
    exists|j: int| 0 <= j < i && same_entry(entries[j], #[trigger] entries[i])
}

/// Check a whole `form!` body: every attribute at most once and every field
/// path at most once. The message names the first entry that repeats one
/// before it.
pub fn check_entries(entries: &[EntryKind]) -> (r: Result<(), String>)
    ensures
        r is Ok <==> forall|i: int| 0 <= i < entries@.len() ==> !repeats_earlier(entries@, i),
        r matches Err(m) ==> exists|i: int|
            0 <= i < entries@.len() && repeats_earlier(entries@, i)
                && (forall|i2: int| 0 <= i2 < i ==> !repeats_earlier(entries@, i2))
                && m@ == duplicate_entry_message(entries@[i]),
{
    let mut log = EntryLog::new();
    let mut i: usize = 0;
    while i < entries.len()
        invariant
            i <= entries@.len(),
            forall|i2: int| 0 <= i2 < i ==> !repeats_earlier(entries@, i2),
            forall|e: EntryKind| #[trigger] log.seen(e) == exists|j: int| 0 <= j < i && same_entry(e, entries@[j]),
        decreases entries.len() - i,
    {
        proof {
            assert(log.seen(entries@[i as int]) == repeats_earlier(entries@, i as int)) by {
                if log.seen(entries@[i as int]) {
                    let j = choose|j: int| 0 <= j < i && same_entry(entries@[i as int], entries@[j]);
                    lemma_same_entry_symmetric(entries@[i as int], entries@[j]);
                }
                if repeats_earlier(entries@, i as int) {
                    let j = choose|j: int| 0 <= j < i && same_entry(entries@[j], entries@[i as int]);
                    lemma_same_entry_symmetric(entries@[j], entries@[i as int]);
                }
            }
        }
        match log.check_duplicate(&entries[i]) {
            Err(m) => {
                return Err(m);
            },
            Ok(()) => {},
        }
        proof {
            assert forall|e: EntryKind| #[trigger] log.seen(e) == exists|j: int| 0 <= j < i + 1 && same_entry(e, entries@[j]) by {
                if same_entry(e, entries@[i as int]) {
                    assert(exists|j: int| 0 <= j < i + 1 && same_entry(e, entries@[j]));
                }
            }
        }
        i = i + 1;
    }
    Ok(())
}

proof fn lemma_seen_like(log: EntryLog, entry: EntryKind)
    ensures
        forall|e: EntryKind| same_entry(e, entry) && log.seen(entry) ==> #[trigger] log.seen(e),
{
    assert forall|e: EntryKind| same_entry(e, entry) && log.seen(entry) implies #[trigger] log.seen(e) by {
        match (e, entry) {
            (EntryKind::Field(x), EntryKind::Field(y)) => {
                let k = choose|k: int| 0 <= k < log.fields@.len() && log.fields@[k]@ == y@;
                assert(log.fields@[k]@ == x@);
            },
            _ => {},
        }
    }
}

proof fn lemma_same_entry_symmetric(a: EntryKind, b: EntryKind)
    ensures
        same_entry(a, b) == same_entry(b, a),
{
}

// ── A field's body: `path => { key: value, … }` ──────────────────────────

/// The keys a field body accepts.
#[derive(Clone, Copy, Debug, PartialEq, Eq, Structural)]
pub enum FieldKey {
    Widget,
    Label,
    Min,
    Max,
    MinLength,
    MaxLength,
    Pattern,
}

/// Every key a field body accepts, in declaration order.
pub open spec fn field_keys_spec() -> Seq<Seq<char>> {
    seq!["widget"@, "label"@, "min"@, "max"@, "min_length"@, "max_length"@, "pattern"@]
}

/// The key a word names, if it is one.
pub open spec fn field_key_named(name: Seq<char>) -> Option<FieldKey> {
    if name == "widget"@ {
        Some(FieldKey::Widget)
    } else if name == "label"@ {
        Some(FieldKey::Label)
    } else if name == "min"@ {
        Some(FieldKey::Min)
    } else if name == "max"@ {
        Some(FieldKey::Max)
    } else if name == "min_length"@ {
        Some(FieldKey::MinLength)
    } else if name == "max_length"@ {
        Some(FieldKey::MaxLength)
    } else if name == "pattern"@ {
        Some(FieldKey::Pattern)
    } else {
        None
    }
}

/// A word is a field key exactly when it is in the list an unknown key's
/// message offers.
pub proof fn lemma_field_key_table_agrees(name: Seq<char>)
    ensures
        field_key_named(name) is Some <==> field_keys_spec().contains(name),
{
    let keys = field_keys_spec();
    if field_key_named(name) is Some {
        if name == "widget"@ { assert(keys[0] == name); }
        else if name == "label"@ { assert(keys[1] == name); }
        else if name == "min"@ { assert(keys[2] == name); }
        else if name == "max"@ { assert(keys[3] == name); }
        else if name == "min_length"@ { assert(keys[4] == name); }
        else if name == "max_length"@ { assert(keys[5] == name); }
        else { assert(keys[6] == name); }
    }
}

/// The keys one field body has given so far.
pub struct FieldBodyKeys {
    seen: Vec<String>,
}

impl FieldBodyKeys {
    /// The keys given so far, in order.
    pub closed spec fn given(self) -> Seq<Seq<char>> {
        self.seen@.map_values(|s: String| s@)
    }

    pub fn new() -> (r: Self)
        ensures
            r.given() == Seq::<Seq<char>>::empty(),
    {
        let r = FieldBodyKeys { seen: Vec::new() };
        proof {
            assert(r.given() =~= Seq::<Seq<char>>::empty());
        }
        r
    }

    /// Take the next key: a second use of any key is reported first, then a
    /// word that is not a key.
    pub fn accept(&mut self, key: &str) -> (r: Result<FieldKey, String>)
        ensures
            old(self).given().contains(key@) ==> (r matches Err(m) && m@ == "`"@ + key@
                + "` is given twice"@),
            !old(self).given().contains(key@) ==> final(self).given() == old(self).given().push(key@)
                && match field_key_named(key@) {
                    Some(k) => r == Ok::<FieldKey, String>(k),
                    None => r matches Err(m) && m@ == "unknown key "@ + key@ + ", expected one of: "@
                        + join(field_keys_spec(), ", "@),
                },
    {
        let mut k: usize = 0;
        while k < self.seen.len()
            invariant
                k <= self.seen@.len(),
                forall|t: int| 0 <= t < k ==> self.given()[t] != key@,
            decreases self.seen.len() - k,
        {
            if str_eq(self.seen[k].as_str(), key) {
                proof {
                    assert(self.given()[k as int] == key@);
                }
                let mut m = owned("`");
                push_str(&mut m, key);
                push_str(&mut m, "` is given twice");
                return Err(m);
            }
            k = k + 1;
        }
        self.seen.push(owned(key));
        proof {
            assert(self.given() =~= old(self).given().push(key@));
        }
        if str_eq(key, "widget") {
            Ok(FieldKey::Widget)
        } else if str_eq(key, "label") {
            Ok(FieldKey::Label)
        } else if str_eq(key, "min") {
            Ok(FieldKey::Min)
        } else if str_eq(key, "max") {
            Ok(FieldKey::Max)
        } else if str_eq(key, "min_length") {
            Ok(FieldKey::MinLength)
        } else if str_eq(key, "max_length") {
            Ok(FieldKey::MaxLength)
        } else if str_eq(key, "pattern") {
            Ok(FieldKey::Pattern)
        } else {
            let keys: Vec<&str> = vec!["widget", "label", "min", "max", "min_length", "max_length", "pattern"];
            proof {
                assert(views(keys@) =~= field_keys_spec());
            }
            let mut m = owned("unknown key ");
            push_str(&mut m, key);
            push_str(&mut m, ", expected one of: ");
            let all = join_strs(&keys, ", ");
            push_str(&mut m, all.as_str());
            Err(m)
        }
    }

    /// Close the body: it must have had a key, and a `pattern` must compile
    /// both on its own and anchored, each with the `v` flag, as HTML compiles it.
    pub fn finish(&self, pattern: Option<&str>) -> (r: Result<(), String>)
        ensures
            self.given().len() == 0 ==> (r matches Err(m) && m@ == "empty field body"@),
            self.given().len() > 0 ==> match pattern {
                None => r is Ok,
                Some(p) => if !regex_compiles(p@, "v"@) {
                    r matches Err(m) && m@ == pattern_error_message(regex_error_text(p@, "v"@))
                } else if !regex_compiles(crate::fields::anchored(p@), "v"@) {
                    r matches Err(m) && m@ == pattern_error_message(
                        regex_error_text(crate::fields::anchored(p@), "v"@),
                    )
                } else {
                    r is Ok
                },
            },
    {
        if self.seen.len() == 0 {
            return Err(owned("empty field body"));
        }
        match pattern {
            None => Ok(()),
            Some(p) => {
                let bare = match Pattern::compile(p, "v") {
                    Ok(_) => None,
                    Err(e) => Some(e),
                };
                let anchored = if bare.is_some() {
                    None
                } else {
                    let mut wrapped = owned("^(?:");
                    push_str(&mut wrapped, p);
                    push_str(&mut wrapped, ")$");
                    match Pattern::compile(wrapped.as_str(), "v") {
                        Ok(_) => None,
                        Err(e) => Some(e),
                    }
                };
                pattern_verdict(bare, anchored)
            },
        }
    }
}

/// The message for a `pattern` that does not compile, with the compiler's reason.
pub open spec fn pattern_error_message(reason: Seq<char>) -> Seq<char> {
    "`pattern` is not a valid regular expression: "@ + reason
}

/// The verdict on a `pattern` from its two compilations: the error of the
/// bare pattern, if it failed, else that of the anchored one, if it failed.
pub fn pattern_verdict(bare: Option<String>, anchored: Option<String>) -> (r: Result<(), String>)
    ensures
        match (bare, anchored) {
            (Some(e), _) => r matches Err(m) && m@ == pattern_error_message(e@),
            (None, Some(e)) => r matches Err(m) && m@ == pattern_error_message(e@),
            (None, None) => r is Ok,
        },
{
    let reason = match (bare, anchored) {
        (Some(e), _) => e,
        (None, Some(e)) => e,
        (None, None) => {
            return Ok(());
        },
    };
    let mut m = owned("`pattern` is not a valid regular expression: ");
    push_str(&mut m, reason.as_str());
    Err(m)
}

// ── `form2!`'s field body: `control` and `label` ─────────────────────────

/// The two keys `form2!`'s field body accepts.
#[derive(Clone, Copy, Debug, PartialEq, Eq, Structural)]
pub enum Form2Key {
    Control,
    Label,
}

/// What a `form2!` field body has given so far.
pub struct Form2BodyKeys {
    pub control: bool,
    pub label: bool,
}

impl Form2BodyKeys {
    pub fn new() -> (r: Self)
        ensures
            !r.control && !r.label,
    {
        Form2BodyKeys { control: false, label: false }
    }

    /// Take the next key.
    pub fn accept(&mut self, key: &str) -> (r: Result<Form2Key, String>)
        ensures
            key@ == "control"@ ==> if old(self).control {
                r matches Err(m) && m@ == "duplicate control key"@
            } else {
                r == Ok::<Form2Key, String>(Form2Key::Control) && final(self).control && final(self).label == old(self).label
            },
            key@ == "label"@ ==> if old(self).label {
                r matches Err(m) && m@ == "duplicate label"@
            } else {
                r == Ok::<Form2Key, String>(Form2Key::Label) && final(self).label && final(self).control == old(self).control
            },
            key@ != "control"@ && key@ != "label"@ ==> (r matches Err(m) && m@ == "unknown key "@
                + key@ + ", expected control or label"@),
    {
        proof {
            reveal_strlit("control");
            reveal_strlit("label");
            assert("control"@.len() != "label"@.len());
        }
        if str_eq(key, "control") {
            if self.control {
                return Err(owned("duplicate control key"));
            }
            self.control = true;
            Ok(Form2Key::Control)
        } else if str_eq(key, "label") {
            if self.label {
                return Err(owned("duplicate label"));
            }
            self.label = true;
            Ok(Form2Key::Label)
        } else {
            let mut m = owned("unknown key ");
            push_str(&mut m, key);
            push_str(&mut m, ", expected control or label");
            Err(m)
        }
    }

    /// Close the body: it must have given a control or a label.
    pub fn finish(&self) -> (r: Result<(), String>)
        ensures
            (self.control || self.label) ==> r is Ok,
            !(self.control || self.label) ==> (r matches Err(m) && m@ == "empty field body"@),
    {
        if self.control || self.label {
            Ok(())
        } else {
            Err(owned("empty field body"))
        }
    }
}

// ── One button's body: `name: { type: …, text: …, invocation: … }` ───────

/// The keys a button body accepts.
#[derive(Clone, Copy, Debug, PartialEq, Eq, Structural)]
pub enum ButtonKey {
    Type,
    Text,
    Invocation,
}

/// What one button's body has declared so far.
pub struct ButtonBody {
    pub ty: Option<ButtonType>,
    pub text: Option<String>,
    pub invocation: Option<Invocation>,
}

impl ButtonBody {
    pub fn new() -> (r: Self)
        ensures
            r.ty is None && r.text is None && r.invocation is None,
    {
        ButtonBody { ty: None, text: None, invocation: None }
    }

    /// Which key `key` is, or why it cannot be given here.
    pub fn accept_key(&self, key: &str) -> (r: Result<ButtonKey, String>)
        ensures
            key@ == "type"@ ==> if self.ty is Some {
                r matches Err(m) && m@ == "duplicate type"@
            } else {
                r == Ok::<ButtonKey, String>(ButtonKey::Type)
            },
            key@ == "text"@ ==> if self.text is Some {
                r matches Err(m) && m@ == "duplicate text"@
            } else {
                r == Ok::<ButtonKey, String>(ButtonKey::Text)
            },
            key@ == "invocation"@ ==> if self.invocation is Some {
                r matches Err(m) && m@ == "duplicate invocation"@
            } else {
                r == Ok::<ButtonKey, String>(ButtonKey::Invocation)
            },
            key@ != "type"@ && key@ != "text"@ && key@ != "invocation"@ ==> (r matches Err(m)
                && m@ == "unknown key "@ + key@ + ", expected type, text, or invocation"@),
    {
        proof {
            reveal_strlit("type");
            reveal_strlit("text");
            reveal_strlit("invocation");
            assert("type"@ != "text"@) by {
                assert("type"@[1] != "text"@[1]);
            }
            assert("invocation"@.len() != "type"@.len());
            assert("invocation"@ != "type"@ && "invocation"@ != "text"@);
        }
        if str_eq(key, "type") {
            if self.ty.is_some() {
                return Err(owned("duplicate type"));
            }
            Ok(ButtonKey::Type)
        } else if str_eq(key, "text") {
            if self.text.is_some() {
                return Err(owned("duplicate text"));
            }
            Ok(ButtonKey::Text)
        } else if str_eq(key, "invocation") {
            if self.invocation.is_some() {
                return Err(owned("duplicate invocation"));
            }
            Ok(ButtonKey::Invocation)
        } else {
            let mut m = owned("unknown key ");
            push_str(&mut m, key);
            push_str(&mut m, ", expected type, text, or invocation");
            Err(m)
        }
    }

    /// The button this body declares. `type` is the one required key: every
    /// other key describes a button that already exists.
    pub fn finish(self, name: &str) -> (r: Result<ButtonSpec, String>)
        ensures
            match self.ty {
                None => r matches Err(m) && m@ == "`"@ + name@ + "` needs a `type` \u{2014} one of "@
                    + join(button_type_names_spec(), ", "@),
                Some(ty) => r matches Ok(b) && b.name@ == name@ && b.ty == ty && b.text == self.text
                    && b.invocation == self.invocation,
            },
    {
        match self.ty {
            None => {
                let mut m = owned("`");
                push_str(&mut m, name);
                push_str(&mut m, "` needs a `type` \u{2014} one of ");
                let names = button_type_names();
                let all = join_strs(&names, ", ");
                push_str(&mut m, all.as_str());
                Err(m)
            },
            Some(ty) => Ok(ButtonSpec { name: owned(name), ty, text: self.text, invocation: self.invocation }),
        }
    }
}

/// Whether some declared button is named `name`.
pub open spec fn button_declared(declared: Seq<ButtonSpec>, name: Seq<char>) -> bool {
    exists|k: int| 0 <= k < declared.len() && declared[k].name@ == name
}

/// A button name may appear once in a `buttons:` block.
pub fn check_button_name(declared: &[ButtonSpec], name: &str) -> (r: Result<(), String>)
    ensures
        button_declared(declared@, name@) ==> (r matches Err(m) && m@ == "`"@ + name@
            + "` is specified twice \u{2014} merge the two bodies into one"@),
        !button_declared(declared@, name@) ==> r is Ok,
{
    let mut k: usize = 0;
    while k < declared.len()
        invariant
            k <= declared@.len(),
            forall|t: int| 0 <= t < k ==> declared@[t].name@ != name@,
        decreases declared.len() - k,
    {
        if str_eq(declared[k].name.as_str(), name) {
            let mut m = owned("`");
            push_str(&mut m, name);
            push_str(&mut m, "` is specified twice \u{2014} merge the two bodies into one");
            return Err(m);
        }
        k = k + 1;
    }
    Ok(())
}

/// A `buttons:` block must declare at least one button.
pub fn finish_buttons(declared: &[ButtonSpec]) -> (r: Result<(), String>)
    ensures
        declared@.len() == 0 ==> (r matches Err(m) && m@ == "empty buttons block"@),
        declared@.len() > 0 ==> r is Ok,
{
    if declared.len() == 0 {
        Err(owned("empty buttons block"))
    } else {
        Ok(())
    }
}

// ── A widget's arguments: `widget: select { choices: … }` ───────────────

/// What a widget's argument block has given so far.
pub struct WidgetArgKeys {
    pub choices: bool,
}

impl WidgetArgKeys {
    pub fn new() -> (r: Self)
        ensures
            !r.choices,
    {
        WidgetArgKeys { choices: false }
    }

    /// Take the next key. `choices` may be given once, and only to a widget
    /// that chooses; nothing else is an argument.
    pub fn accept(&mut self, key: &str, widget: &WidgetName) -> (r: Result<(), String>)
        ensures
            key@ == "choices"@ ==> if old(self).choices {
                r matches Err(m) && m@ == "duplicate `choices`"@
            } else {
                match no_choices_message(*widget) {
                    None => r is Ok && final(self).choices,
                    Some(msg) => r matches Err(m) && m@ == msg,
                }
            },
            key@ != "choices"@ ==> (r matches Err(m) && m@ == "unknown widget argument `"@ + key@
                + "` \u{2014} expected `choices`"@),
    {
        if str_eq(key, "choices") {
            if self.choices {
                return Err(owned("duplicate `choices`"));
            }
            match reject_choices_unless_chooser(widget) {
                Err(m) => Err(m),
                Ok(()) => {
                    self.choices = true;
                    Ok(())
                },
            }
        } else {
            let mut m = owned("unknown widget argument `");
            push_str(&mut m, key);
            push_str(&mut m, "` \u{2014} expected `choices`");
            Err(m)
        }
    }

    /// Close the block: braces with nothing in them are a mistake.
    pub fn finish(&self) -> (r: Result<(), String>)
        ensures
            self.choices ==> r is Ok,
            !self.choices ==> (r matches Err(m) && m@
                == "empty widget arguments \u{2014} drop the braces if there are none"@),
    {
        if self.choices {
            Ok(())
        } else {
            Err(owned("empty widget arguments \u{2014} drop the braces if there are none"))
        }
    }
}

// ── `browser_validation: on | off` ──────────────────────────────────────

/// `on` or `off`, as a `bool`.
pub fn parse_switch(word: &str) -> (r: Result<bool, String>)
    ensures
        word@ == "on"@ ==> r == Ok::<bool, String>(true),
        word@ == "off"@ ==> r == Ok::<bool, String>(false),
        word@ != "on"@ && word@ != "off"@ ==> (r matches Err(m) && m@
            == "Expected `on` or `off` after `browser_validation`"@),
{
    proof {
        reveal_strlit("on");
        reveal_strlit("off");
        assert("on"@.len() != "off"@.len());
    }
    if str_eq(word, "on") {
        Ok(true)
    } else if str_eq(word, "off") {
        Ok(false)
    } else {
        Err(owned("Expected `on` or `off` after `browser_validation`"))
    }
}

// ── `using_fns!` ────────────────────────────────────────────────────────

/// Which kind of handler a closure becomes, read from its arity.
#[derive(Clone, Copy, Debug, PartialEq, Eq, Structural)]
pub enum HandlerShape {
    /// `|m| …`: takes the model, so the form validates first.
    Validated,
    /// `|| …`: takes nothing and runs regardless.
    Unchecked,
}

/// The handler kind for an entry whose value is a closure taking `arity`
/// arguments; `None` when the value is not a closure, whose arity cannot be
/// read, so no handler kind can be picked for it.
pub fn handler_shape(arity: Option<usize>) -> (r: Result<HandlerShape, String>)
    ensures
        arity == Some(0usize) ==> r == Ok::<HandlerShape, String>(HandlerShape::Unchecked),
        arity == Some(1usize) ==> r == Ok::<HandlerShape, String>(HandlerShape::Validated),
        arity matches Some(n) && n > 1 ==> (r matches Err(m) && m@
            == "a button fn takes the model or nothing, not "@ + crate::text::decimal(arity->0 as nat)
            + " arguments"@),
        arity is None ==> (r matches Err(m) && m@ == not_a_closure_message()),
{
    match arity {
        None => Err(owned(
            "expected a closure: `|m| async move { \u{2026} }` to validate the model first, or `|| async move { \u{2026} }` to run unconditionally. A named function needs one too \u{2014} `|m| save(m)`",
        )),
        Some(n) => if n == 0 {
            Ok(HandlerShape::Unchecked)
        } else if n == 1 {
            Ok(HandlerShape::Validated)
        } else {
            let mut m = owned("a button fn takes the model or nothing, not ");
            let digits = crate::text::usize_to_string(n);
            push_str(&mut m, digits.as_str());
            push_str(&mut m, " arguments");
            Err(m)
        },
    }
}

/// The message for an entry whose value is not a closure.
pub open spec fn not_a_closure_message() -> Seq<char> {
    "expected a closure: `|m| async move { \u{2026} }` to validate the model first, or `|| async move { \u{2026} }` to run unconditionally. A named function needs one too \u{2014} `|m| save(m)`"@
}

/// `names[i]` repeats an earlier name.
pub open spec fn name_repeats(names: Seq<Seq<char>>, i: int) -> bool {
    exists|j: int| 0 <= j < i && names[j] == names[i]
}

/// One fn per button: the first name given twice is reported.
pub fn check_fn_names(names: &Vec<&str>) -> (r: Result<(), String>)
    ensures
        r is Ok <==> forall|i: int| 0 <= i < names@.len() ==> !name_repeats(views(names@), i),
        r matches Err(m) ==> exists|i: int|
            0 <= i < names@.len() && name_repeats(views(names@), i) && (forall|i2: int|
                0 <= i2 < i ==> !name_repeats(views(names@), i2)) && m@ == "`"@ + names@[i]@
                + "` is given twice \u{2014} one fn per button"@,
{
    let ghost ns = views(names@);
    let mut i: usize = 0;
    while i < names.len()
        invariant
            i <= names@.len(),
            ns == views(names@),
            forall|i2: int| 0 <= i2 < i ==> !name_repeats(ns, i2),
        decreases names.len() - i,
    {
        proof {
            assert(ns.len() == names@.len());
        }
        let mut j: usize = 0;
        while j < i
            invariant
                j <= i < names@.len(),
                ns == views(names@),
                ns.len() == names@.len(),
                forall|i2: int| 0 <= i2 < i ==> !name_repeats(ns, i2),
                forall|t: int| 0 <= t < j ==> ns[t] != ns[i as int],
            decreases i - j,
        {
            if str_eq(names[j], names[i]) {
                let mut m = owned("`");
                push_str(&mut m, names[i]);
                push_str(&mut m, "` is given twice \u{2014} one fn per button");
                proof {
                    assert(ns[j as int] == ns[i as int]);
                    assert(name_repeats(ns, i as int));
                    assert(ns[i as int] == names@[i as int]@);
                    assert(m@ == "`"@ + names@[i as int]@
                        + "` is given twice \u{2014} one fn per button"@);
                }
                return Err(m);
            }
            j = j + 1;
        }
        i = i + 1;
    }
    Ok(())
}

} // verus!
