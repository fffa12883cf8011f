//! The resolution registry and the accessor synthesizer.
//!
//! [`KeyGenerators`] composes the built-in type table, the specialized
//! string and enum generators, and the caller-supplied override layer into
//! one priority-ordered lookup from an entry to a decision: generate with a
//! type mapping, skip, or unknown. [`KeyGenerator`] then synthesizes, for a
//! resolved entry, the accessor bundle: documentation text and the six
//! generated operations.

use vstd::prelude::*;

use crate::enumeration::{enum_context, enum_context_view};
use crate::idents::{parses_as_type, snake_of, to_snake_case, type_parses};
use crate::schema::{Enum, EnumView, Key, KeySignature, KeyView, SigView};

verus! {

broadcast use {
    vstd::seq_lib::group_seq_lib_default,
    vstd::prelude::Seq::lemma_push_map_commute,
};

/// A caller-supplied rule replacing or suppressing the default resolution
/// for one signature or one entry name.
pub enum Override {
    Define { arg_type: String, ret_type: String },
    Skip,
}

/// Ghost model of an [`Override`].
pub enum OverrideView {
    Define { arg_type: Seq<char>, ret_type: Seq<char> },
    Skip,
}

impl View for Override {
    type V = OverrideView;

    open spec fn view(&self) -> OverrideView {
        match self {
            Override::Define { arg_type, ret_type } => OverrideView::Define {
                arg_type: arg_type@,
                ret_type: ret_type@,
            },
            Override::Skip => OverrideView::Skip,
        }
    }
}

/// How to read and write an entry's value in the target type system: the
/// argument type accepted by the setters, the return type of the getter,
/// and an optional auxiliary declaration emitted alongside the bundle.
pub struct Context {
    arg_type: String,
    ret_type: String,
    auxiliary: Option<String>,
}

/// Ghost model of a [`Context`].
pub struct ContextView {
    pub arg_type: Seq<char>,
    pub ret_type: Seq<char>,
    pub auxiliary: Option<Seq<char>>,
}

impl View for Context {
    type V = ContextView;

    closed spec fn view(&self) -> ContextView {
        ContextView {
            arg_type: self.arg_type@,
            ret_type: self.ret_type@,
            auxiliary: match self.auxiliary {
                Some(ref a) => Some(a@),
                None => None,
            },
        }
    }
}

impl Context {
    /// A mapping whose argument and return type are the same.
    pub fn new(type_: &str) -> (r: Context)
        ensures
            r@ == (ContextView { arg_type: type_@, ret_type: type_@, auxiliary: None }),
    {
        Context::new_dissimilar(type_, type_)
    }

    /// A mapping whose argument and return type differ.
    pub fn new_dissimilar(arg_type: &str, ret_type: &str) -> (r: Context)
        ensures
            r@ == (ContextView { arg_type: arg_type@, ret_type: ret_type@, auxiliary: None }),
    {
        Context {
            arg_type: String::from_str(arg_type),
            ret_type: String::from_str(ret_type),
            auxiliary: None,
        }
    }

    /// A mapping with an auxiliary declaration to emit alongside the bundle.
    pub fn new_with_aux(type_: &str, auxiliary: String) -> (r: Context)
        ensures
            r@ == (ContextView {
                arg_type: type_@,
                ret_type: type_@,
                auxiliary: Some(auxiliary@),
            }),
    {
        Context {
            arg_type: String::from_str(type_),
            ret_type: String::from_str(type_),
            auxiliary: Some(auxiliary),
        }
    }

    /// An owned copy with the same view.
    fn duplicate(&self) -> (r: Context)
        ensures
            r@ == self@,
    {
        Context {
            arg_type: self.arg_type.clone(),
            ret_type: self.ret_type.clone(),
            auxiliary: match &self.auxiliary {
                Some(a) => Some(a.clone()),
                None => None,
            },
        }
    }
}

/// One recorded rule of a scope's table: a type mapping to generate with,
/// or an instruction to skip. A later rule for the same key replaces an
/// earlier one, whichever variants they are.
enum Rule {
    Define(Context),
    Skip,
}

/// Ghost model of a recorded rule.
pub enum RuleView {
    Define(ContextView),
    Skip,
}

impl View for Rule {
    type V = RuleView;

    closed spec fn view(&self) -> RuleView {
        match self {
            Rule::Define(c) => RuleView::Define(c@),
            Rule::Skip => RuleView::Skip,
        }
    }
}

/// A generation-time failure: a missing enum definition or a type-mapping
/// string that is no valid type expression.
#[derive(Debug)]
pub enum Error {
    MissingEnum { enum_name: String },
    InvalidType { type_string: String },
}

/// The view of a name-keyed table.
pub open spec fn named_view<V: View>(t: Seq<(String, V)>) -> Seq<(Seq<char>, V::V)> {
    t.map_values(|p: (String, V)| (p.0@, p.1@))
}

/// The view of the signature-keyed rule table.
spec fn sig_table_view(t: Seq<(KeySignature, Rule)>) -> Seq<(SigView, RuleView)> {
    t.map_values(|p: (KeySignature, Rule)| (p.0@, p.1@))
}

/// The value under key `k` in an association sequence, where a later entry
/// for the same key replaces an earlier one.
pub open spec fn assoc_last<K, V>(s: Seq<(K, V)>, k: K) -> Option<V>
    decreases s.len(),
{
    if s.len() == 0 {
        None
    } else if s.last().0 == k {
        Some(s.last().1)
    } else {
        assoc_last(s.drop_last(), k)
    }
}

/// Ghost model of the registry.
pub struct KeyGeneratorsView {
    pub signatures: Seq<(SigView, RuleView)>,
    pub key_names: Seq<(Seq<char>, RuleView)>,
    pub enums: Seq<(Seq<char>, EnumView)>,
}

/// The registry: built-in type table, specialized generators, and the
/// caller-supplied override layer, composed into one priority-ordered
/// lookup.
pub struct KeyGenerators {
    signatures: Vec<(KeySignature, Rule)>,
    key_names: Vec<(String, Rule)>,
    enums: Vec<(String, Enum)>,
}

impl View for KeyGenerators {
    type V = KeyGeneratorsView;

    closed spec fn view(&self) -> KeyGeneratorsView {
        KeyGeneratorsView {
            signatures: sig_table_view(self.signatures@),
            key_names: named_view(self.key_names@),
            enums: named_view(self.enums@),
        }
    }
}

/// A mapping whose argument and return type are the same, with no
/// auxiliary.
pub open spec fn plain_context(t: Seq<char>) -> ContextView {
    ContextView { arg_type: t, ret_type: t, auxiliary: None }
}

/// The type mapping the string generator resolves the string signature to:
/// a borrowed string view in, an owned string out.
pub open spec fn string_context_view() -> ContextView {
    ContextView { arg_type: "&str"@, ret_type: "String"@, auxiliary: None }
}

/// The built-in type table: boolean, the 32-bit and 64-bit signed and
/// unsigned integers, double-precision float, a pair of 32-bit integers,
/// and a sequence of strings that accepts a borrowed slice but returns an
/// owned sequence.
pub open spec fn builtin_signatures() -> Seq<(SigView, RuleView)> {
    seq![
        (SigView::Type("b"@), RuleView::Define(plain_context("bool"@))),
        (SigView::Type("i"@), RuleView::Define(plain_context("i32"@))),
        (SigView::Type("u"@), RuleView::Define(plain_context("u32"@))),
        (SigView::Type("x"@), RuleView::Define(plain_context("i64"@))),
        (SigView::Type("t"@), RuleView::Define(plain_context("u64"@))),
        (SigView::Type("d"@), RuleView::Define(plain_context("f64"@))),
        (SigView::Type("(ii)"@), RuleView::Define(plain_context("(i32, i32)"@))),
        (
            SigView::Type("as"@),
            RuleView::Define(
                ContextView { arg_type: "&[&str]"@, ret_type: "Vec<String>"@, auxiliary: None },
            ),
        ),
    ]
}

/// The rule an override records: a mapping without auxiliary, or a skip.
pub open spec fn rule_of(o: OverrideView) -> RuleView {
    match o {
        OverrideView::Define { arg_type, ret_type } => RuleView::Define(
            ContextView { arg_type, ret_type, auxiliary: None },
        ),
        OverrideView::Skip => RuleView::Skip,
    }
}

/// The rules an override sequence records, in order.
pub open spec fn rules_of<K>(ov: Seq<(K, OverrideView)>) -> Seq<(K, RuleView)> {
    ov.map_values(|p: (K, OverrideView)| (p.0, rule_of(p.1)))
}

/// The view of a sequence of signature-keyed overrides.
pub open spec fn sig_overrides_view(ov: Seq<(KeySignature, Override)>) -> Seq<
    (SigView, OverrideView),
> {
    ov.map_values(|p: (KeySignature, Override)| (p.0@, p.1@))
}

/// The view of a sequence of name-keyed overrides.
pub open spec fn name_overrides_view(ov: Seq<(String, Override)>) -> Seq<
    (Seq<char>, OverrideView),
> {
    ov.map_values(|p: (String, Override)| (p.0@, p.1@))
}

fn lookup_named<'a, V: View>(table: &'a Vec<(String, V)>, name: &String) -> (r: Option<&'a V>)
    ensures
        match r {
            Some(v) => assoc_last(named_view(table@), name@) == Some(v@),
            None => assoc_last(named_view(table@), name@) is None,
        },
{
    let ghost tv = named_view(table@);
    proof {
        assert(tv.take(table@.len() as int) =~= tv);
    }
    let mut i: usize = table.len();
    while i > 0
        invariant
            i <= table.len(),
            assoc_last(named_view(table@), name@) == assoc_last(
                named_view(table@).take(i as int),
                name@,
            ),
        decreases i,
    {
        let entry = &table[i - 1];
        proof {
            assert(named_view(table@).take(i as int).last() == (
                table@[i - 1].0@,
                table@[i - 1].1@,
            ));
        }
        if String::eq(&entry.0, name) {
            return Some(&entry.1);
        }
        proof {
            assert(named_view(table@).take(i as int).drop_last() =~= named_view(table@).take(
                i as int - 1,
            ));
        }
        i = i - 1;
    }
    None
}

fn lookup_signature<'a>(table: &'a Vec<(KeySignature, Rule)>, sig: &KeySignature) -> (r: Option<
    &'a Rule,
>)
    ensures
        match r {
            Some(v) => assoc_last(sig_table_view(table@), sig@) == Some(v@),
            None => assoc_last(sig_table_view(table@), sig@) is None,
        },
{
    let ghost tv = sig_table_view(table@);
    proof {
        assert(tv.take(table@.len() as int) =~= tv);
    }
    let mut i: usize = table.len();
    while i > 0
        invariant
            i <= table.len(),
            assoc_last(sig_table_view(table@), sig@) == assoc_last(
                sig_table_view(table@).take(i as int),
                sig@,
            ),
        decreases i,
    {
        let entry = &table[i - 1];
        proof {
            assert(sig_table_view(table@).take(i as int).last() == (
                table@[i - 1].0@,
                table@[i - 1].1@,
            ));
        }
        if entry.0.matches(sig) {
            return Some(&entry.1);
        }
        proof {
            assert(sig_table_view(table@).take(i as int).drop_last() =~= sig_table_view(
                table@,
            ).take(i as int - 1));
        }
        i = i - 1;
    }
    None
}

impl KeyGenerators {
    /// A registry over the given enum definitions, pre-seeded with the
    /// built-in type table and no overrides.
    pub fn with_defaults(enums: Vec<(String, Enum)>) -> (r: Self)
        ensures
            r@.signatures == builtin_signatures(),
            r@.key_names == Seq::<(Seq<char>, RuleView)>::empty(),
            r@.enums == named_view(enums@),
    {
        let mut this = KeyGenerators { signatures: Vec::new(), key_names: Vec::new(), enums };

        this.insert_type("b", Context::new("bool"));
        this.insert_type("i", Context::new("i32"));
        this.insert_type("u", Context::new("u32"));
        this.insert_type("x", Context::new("i64"));
        this.insert_type("t", Context::new("u64"));
        this.insert_type("d", Context::new("f64"));
        this.insert_type("(ii)", Context::new("(i32, i32)"));
        this.insert_type("as", Context::new_dissimilar("&[&str]", "Vec<String>"));

        proof {
            assert(this@.signatures =~= builtin_signatures());
            assert(this@.key_names =~= Seq::<(Seq<char>, RuleView)>::empty());
        }
        this
    }

    fn insert_type(&mut self, signature: &str, context: Context)
        ensures
            final(self)@.signatures == old(self)@.signatures.push(
                (SigView::Type(signature@), RuleView::Define(context@)),
            ),
            final(self)@.key_names == old(self)@.key_names,
            final(self)@.enums == old(self)@.enums,
    {
        self.signatures.push(
            (KeySignature::Type(String::from_str(signature)), Rule::Define(context)),
        );
        proof {
            assert(self@.signatures =~= old(self)@.signatures.push(
                (SigView::Type(signature@), RuleView::Define(context@)),
            ));
        }
    }

    /// Merge signature-scoped overrides: higher priority than the built-in
    /// defaults, lower than name-scoped mappings; within and across calls,
    /// a later rule for the same signature replaces an earlier one, a
    /// `Define` after a `Skip` as much as the other way round.
    pub fn add_signature_overrides(&mut self, overrides: Vec<(KeySignature, Override)>)
        ensures
            final(self)@.signatures == old(self)@.signatures + rules_of(
                sig_overrides_view(overrides@),
            ),
            final(self)@.key_names == old(self)@.key_names,
            final(self)@.enums == old(self)@.enums,
    {
        let ghost ov = sig_overrides_view(overrides@);
        let mut i: usize = 0;
        proof {
            assert(old(self)@.signatures + rules_of(ov.take(0)) =~= old(self)@.signatures);
        }
        while i < overrides.len()
            invariant
                i <= overrides.len(),
                ov == sig_overrides_view(overrides@),
                self@.signatures == old(self)@.signatures + rules_of(ov.take(i as int)),
                self@.key_names == old(self)@.key_names,
                self@.enums == old(self)@.enums,
            decreases overrides.len() - i,
        {
            let entry = &overrides[i];
            proof {
                assert(ov.take(i as int + 1) =~= ov.take(i as int).push((entry.0@, entry.1@)));
            }
            let rule = match &entry.1 {
                Override::Define { arg_type, ret_type } => Rule::Define(
                    Context::new_dissimilar(arg_type.as_str(), ret_type.as_str()),
                ),
                Override::Skip => Rule::Skip,
            };
            self.signatures.push((entry.0.duplicate(), rule));
            proof {
                assert(self@.signatures =~= old(self)@.signatures + rules_of(
                    ov.take(i as int + 1),
                ));
            }
            i = i + 1;
        }
        proof {
            assert(ov.take(overrides@.len() as int) =~= ov);
        }
    }

    /// Merge name-scoped overrides: the most specific scope of all; within
    /// and across calls, a later rule for the same name replaces an
    /// earlier one, a `Define` after a `Skip` as much as the other way
    /// round.
    pub fn add_key_name_overrides(&mut self, overrides: Vec<(String, Override)>)
        ensures
            final(self)@.key_names == old(self)@.key_names + rules_of(
                name_overrides_view(overrides@),
            ),
            final(self)@.signatures == old(self)@.signatures,
            final(self)@.enums == old(self)@.enums,
    {
        let ghost ov = name_overrides_view(overrides@);
        let mut i: usize = 0;
        proof {
            assert(old(self)@.key_names + rules_of(ov.take(0)) =~= old(self)@.key_names);
        }
        while i < overrides.len()
            invariant
                i <= overrides.len(),
                ov == name_overrides_view(overrides@),
                self@.key_names == old(self)@.key_names + rules_of(ov.take(i as int)),
                self@.signatures == old(self)@.signatures,
                self@.enums == old(self)@.enums,
            decreases overrides.len() - i,
        {
            let entry = &overrides[i];
            proof {
                assert(ov.take(i as int + 1) =~= ov.take(i as int).push((entry.0@, entry.1@)));
            }
            let rule = match &entry.1 {
                Override::Define { arg_type, ret_type } => Rule::Define(
                    Context::new_dissimilar(arg_type.as_str(), ret_type.as_str()),
                ),
                Override::Skip => Rule::Skip,
            };
            self.key_names.push((entry.0.clone(), rule));
            proof {
                assert(self@.key_names =~= old(self)@.key_names + rules_of(ov.take(i as int + 1)));
            }
            i = i + 1;
        }
        proof {
            assert(ov.take(overrides@.len() as int) =~= ov);
        }
    }
}

/// The outcome of resolving one entry.
pub enum Resolution {
    Generate(ContextView),
    Skip,
    Unknown,
    MissingEnum(Seq<char>),
}

/// The registry's decision for an entry. Within each scope the last rule
/// recorded for a key decides; across scopes the order is: a name-scoped
/// skip, then a signature-scoped skip, then a name-scoped mapping, then a
/// signature-scoped mapping (an override or a built-in), and last the
/// specialized string and enum generators.
pub open spec fn resolve(g: KeyGeneratorsView, key: KeyView) -> Resolution {
    let name_rule = assoc_last(g.key_names, key.name);
    let sig_rule = assoc_last(g.signatures, key.signature);
    if name_rule == Some(RuleView::Skip) {
        Resolution::Skip
    } else if sig_rule == Some(RuleView::Skip) {
        Resolution::Skip
    } else {
        match (name_rule, sig_rule) {
            (Some(RuleView::Define(c)), _) => Resolution::Generate(c),
            (_, Some(RuleView::Define(c))) => Resolution::Generate(c),
            _ => match key.signature {
                SigView::Type(t) => if t == "s"@ {
                    Resolution::Generate(string_context_view())
                } else {
                    Resolution::Unknown
                },
                SigView::Enum(enum_name) => match assoc_last(g.enums, enum_name) {
                    Some(e) => Resolution::Generate(enum_context_view(key.name, e)),
                    None => Resolution::MissingEnum(enum_name),
                },
            },
        }
    }
}

/// The outcome of asking the registry for an entry's generator.
pub enum GetResult {
    Generate(KeyGenerator),
    Skip,
    Unknown,
}

impl KeyGenerators {
    /// The registry's decision for one entry, as [`resolve`] states it: a
    /// generator carrying the resolved type mapping, a skip, an unknown
    /// signature, or the error naming the missing enum definition.
    pub fn get(&self, key: &Key) -> (r: Result<GetResult, Error>)
        ensures
            ({
                let decision = resolve(self@, key@);
                match r {
                    Ok(GetResult::Generate(kg)) => decision matches Resolution::Generate(c)
                        && kg@.key == key@ && kg@.context == c,
                    Ok(GetResult::Skip) => decision is Skip,
                    Ok(GetResult::Unknown) => decision is Unknown,
                    Err(Error::MissingEnum { enum_name }) => decision == Resolution::MissingEnum(
                        enum_name@,
                    ),
                    Err(Error::InvalidType { .. }) => false,
                }
            }),
    {
        let key_signature = key.signature();

        let name_rule = lookup_named(&self.key_names, &key.name);
        let sig_rule = lookup_signature(&self.signatures, key_signature);

        if let Some(Rule::Skip) = name_rule {
            return Ok(GetResult::Skip);
        }

        if let Some(Rule::Skip) = sig_rule {
            return Ok(GetResult::Skip);
        }

        if let Some(Rule::Define(context)) = name_rule {
            return Ok(GetResult::Generate(KeyGenerator::new(key.duplicate(), context.duplicate())));
        }

        if let Some(Rule::Define(context)) = sig_rule {
            return Ok(GetResult::Generate(KeyGenerator::new(key.duplicate(), context.duplicate())));
        }

        match key_signature {
            KeySignature::Type(type_) => {
                if String::eq(type_, &String::from_str("s")) {
                    Ok(
                        GetResult::Generate(
                            KeyGenerator::new(
                                key.duplicate(),
                                Context::new_dissimilar("&str", "String"),
                            ),
                        ),
                    )
                } else {
                    Ok(GetResult::Unknown)
                }
            },
            KeySignature::Enum(enum_name) => {
                match lookup_named(&self.enums, enum_name) {
                    Some(enum_) => Ok(
                        GetResult::Generate(
                            KeyGenerator::new(
                                key.duplicate(),
                                enum_context(key.name.as_str(), enum_),
                            ),
                        ),
                    ),
                    None => Err(Error::MissingEnum { enum_name: enum_name.clone() }),
                }
            },
        }
    }
}

/// The documentation's leading summary block: the summary and a line
/// break, when a non-empty summary is present.
pub open spec fn docs_summary_part(k: KeyView) -> Seq<char> {
    match k.summary {
        Some(s) => if s.len() > 0 {
            s + "\n"@
        } else {
            Seq::empty()
        },
        None => Seq::empty(),
    }
}

/// Whether an optional literal is present and non-empty.
pub open spec fn opt_nonempty(o: Option<Seq<char>>) -> bool {
    match o {
        Some(s) => s.len() > 0,
        None => false,
    }
}

/// The documentation's range block: a blank line, then the present bounds,
/// joined as `min: <min>; max: <max>` when both are present.
pub open spec fn docs_range_part(k: KeyView) -> Seq<char> {
    match k.range {
        Some(r) => {
            let min_is_some = opt_nonempty(r.min);
            let max_is_some = opt_nonempty(r.max);
            (if min_is_some || max_is_some {
                "\n\n"@
            } else {
                Seq::empty()
            }) + (if min_is_some {
                "min: "@ + r.min->0
            } else {
                Seq::empty()
            }) + (if min_is_some && max_is_some {
                "; "@
            } else {
                Seq::empty()
            }) + (if max_is_some {
                "max: "@ + r.max->0
            } else {
                Seq::empty()
            })
        },
        None => Seq::empty(),
    }
}

/// The documentation text of an entry: its summary when non-empty, a
/// blank line, `default: <default>`, and the range block.
pub open spec fn docs_of(k: KeyView) -> Seq<char> {
    docs_summary_part(k) + "\n"@ + "default: "@ + k.default + docs_range_part(k)
}

/// The generated getter: returns the entry's current value as the return
/// type.
pub open spec fn getter_text(name: Seq<char>, snake: Seq<char>, ret: Seq<char>) -> Seq<char> {
    "pub fn "@ + snake + "(&self) -> "@ + ret
        + " {\n    gio::prelude::SettingsExtManual::get(&self.0, \""@ + name + "\")\n}\n"@
}

/// The generated infallible setter: delegates to the fallible setter and
/// escalates a failure to an abort naming the entry and the error.
pub open spec fn setter_text(name: Seq<char>, snake: Seq<char>, arg: Seq<char>) -> Seq<char> {
    "pub fn set_"@ + snake + "(&self, value: "@ + arg + ") {\n    self.try_set_"@ + snake
        + "(value).unwrap_or_else(|err| panic!(\"failed to set value for key `"@ + name
        + "`: {:?}\", err))\n}\n"@
}

/// The generated fallible setter: returns the store's success or failure.
pub open spec fn try_setter_text(name: Seq<char>, snake: Seq<char>, arg: Seq<char>) -> Seq<char> {
    "pub fn try_set_"@ + snake + "(&self, value: "@ + arg
        + ") -> std::result::Result<(), gio::glib::BoolError> {\n    gio::prelude::SettingsExtManual::set(&self.0, \""@
        + name + "\", &value)\n}\n"@
}

/// The generated change subscription: registers a callback and returns the
/// handle to deregister it.
pub open spec fn connect_changed_text(name: Seq<char>, snake: Seq<char>) -> Seq<char> {
    "pub fn connect_"@ + snake
        + "_changed(&self, f: impl Fn(&gio::Settings) + 'static) -> gio::glib::SignalHandlerId {\n    gio::prelude::SettingsExt::connect_changed(&self.0, Some(\""@
        + name + "\"), move |settings, _| {\n        f(settings)\n    })\n}\n"@
}

/// The generated property binding: returns a builder for a live,
/// bidirectional-by-default binding to a named property of an object.
pub open spec fn bind_text(name: Seq<char>, snake: Seq<char>) -> Seq<char> {
    "pub fn bind_"@ + snake
        + "<'a>(&'a self, object: &'a impl gio::glib::object::IsA<gio::glib::Object>, property: &'a str) -> gio::BindingBuilder<'a> {\n    gio::prelude::SettingsExtManual::bind(&self.0, \""@
        + name + "\", object, property)\n}\n"@
}

/// The generated action constructor: exposes the entry as a named action.
pub open spec fn create_action_text(name: Seq<char>, snake: Seq<char>) -> Seq<char> {
    "pub fn create_"@ + snake + "_action(&self) -> gio::Action {\n    gio::prelude::SettingsExt::create_action(&self.0, \""@
        + name + "\")\n}\n"@
}

/// The synthesized output for one entry: its documentation text and the
/// six generated operations.
pub struct AccessorBundle {
    pub docs: String,
    pub getter: String,
    pub setter: String,
    pub try_setter: String,
    pub connect_changed: String,
    pub bind: String,
    pub create_action: String,
}

/// An entry together with its resolved type mapping, ready to synthesize
/// the entry's accessor bundle.
pub struct KeyGenerator {
    key: Key,
    context: Context,
}

/// Ghost model of a [`KeyGenerator`].
pub struct KeyGeneratorView {
    pub key: KeyView,
    pub context: ContextView,
}

impl View for KeyGenerator {
    type V = KeyGeneratorView;

    closed spec fn view(&self) -> KeyGeneratorView {
        KeyGeneratorView { key: self.key@, context: self.context@ }
    }
}

impl KeyGenerator {
    fn new(key: Key, context: Context) -> (r: KeyGenerator)
        ensures
            r@ == (KeyGeneratorView { key: key@, context: context@ }),
    {
        KeyGenerator { key, context }
    }

    /// The auxiliary declaration to emit alongside the bundle, if the
    /// resolved mapping carries one.
    pub fn auxiliary(&self) -> (r: Option<String>)
        ensures
            match r {
                Some(a) => self@.context.auxiliary == Some(a@),
                None => self@.context.auxiliary is None,
            },
    {
        match &self.context.auxiliary {
            Some(a) => Some(a.clone()),
            None => None,
        }
    }

    /// The entry's documentation text.
    pub fn docs(&self) -> (r: String)
        ensures
            r@ == docs_of(self@.key),
    {
        let mut buf = String::new();
        match &self.key.summary {
            Some(summary) => {
                if !summary.as_str().is_empty() {
                    buf.append(summary.as_str());
                    buf.append("\n");
                }
            },
            None => {},
        }

        buf.append("\n");
        buf.append("default: ");
        buf.append(self.key.default.as_str());

        match &self.key.range {
            Some(range) => {
                let min_is_some = match &range.min {
                    Some(min) => !min.as_str().is_empty(),
                    None => false,
                };
                let max_is_some = match &range.max {
                    Some(max) => !max.as_str().is_empty(),
                    None => false,
                };

                if min_is_some || max_is_some {
                    buf.append("\n\n");
                }
                if min_is_some {
                    buf.append("min: ");
                    match &range.min {
                        Some(min) => buf.append(min.as_str()),
                        None => {},
                    }
                }
                if min_is_some && max_is_some {
                    buf.append("; ");
                }
                if max_is_some {
                    buf.append("max: ");
                    match &range.max {
                        Some(max) => buf.append(max.as_str()),
                        None => {},
                    }
                }
            },
            None => {},
        }

        proof {
            assert(buf@ =~= docs_of(self@.key));
        }
        buf
    }

    /// The entry's accessor bundle, or the error naming the first of the
    /// mapping's two type strings that is no valid type expression (the
    /// return type is checked first).
    pub fn generate(&self) -> (r: Result<AccessorBundle, Error>)
        ensures
            ({
                let name = self@.key.name;
                let snake = snake_of(name);
                match r {
                    Ok(b) => {
                        &&& type_parses(self@.context.ret_type)
                        &&& type_parses(self@.context.arg_type)
                        &&& b.docs@ == docs_of(self@.key)
                        &&& b.getter@ == getter_text(name, snake, self@.context.ret_type)
                        &&& b.setter@ == setter_text(name, snake, self@.context.arg_type)
                        &&& b.try_setter@ == try_setter_text(name, snake, self@.context.arg_type)
                        &&& b.connect_changed@ == connect_changed_text(name, snake)
                        &&& b.bind@ == bind_text(name, snake)
                        &&& b.create_action@ == create_action_text(name, snake)
                    },
                    Err(Error::InvalidType { type_string }) => {
                        if !type_parses(self@.context.ret_type) {
                            type_string@ == self@.context.ret_type
                        } else {
                            &&& !type_parses(self@.context.arg_type)
                            &&& type_string@ == self@.context.arg_type
                        }
                    },
                    Err(Error::MissingEnum { .. }) => false,
                }
            }),
    {
        if !parses_as_type(self.context.ret_type.as_str()) {
            return Err(Error::InvalidType { type_string: self.context.ret_type.clone() });
        }
        if !parses_as_type(self.context.arg_type.as_str()) {
            return Err(Error::InvalidType { type_string: self.context.arg_type.clone() });
        }

        let name = self.key.name.as_str();
        let snake = to_snake_case(name);

        Ok(
            AccessorBundle {
                docs: self.docs(),
                getter: build_getter(name, snake.as_str(), self.context.ret_type.as_str()),
                setter: build_setter(name, snake.as_str(), self.context.arg_type.as_str()),
                try_setter: build_try_setter(
                    name,
                    snake.as_str(),
                    self.context.arg_type.as_str(),
                ),
                connect_changed: build_connect_changed(name, snake.as_str()),
                bind: build_bind(name, snake.as_str()),
                create_action: build_create_action(name, snake.as_str()),
            },
        )
    }
}

fn build_getter(name: &str, snake: &str, ret: &str) -> (r: String)
    ensures
        r@ == getter_text(name@, snake@, ret@),
{
    let mut buf = String::from_str("pub fn ");
    buf.append(snake);
    buf.append("(&self) -> ");
    buf.append(ret);
    buf.append(" {\n    gio::prelude::SettingsExtManual::get(&self.0, \"");
    buf.append(name);
    buf.append("\")\n}\n");
    proof {
        assert(buf@ =~= getter_text(name@, snake@, ret@));
    }
    buf
}

fn build_setter(name: &str, snake: &str, arg: &str) -> (r: String)
    ensures
        r@ == setter_text(name@, snake@, arg@),
{
    let mut buf = String::from_str("pub fn set_");
    buf.append(snake);
    buf.append("(&self, value: ");
    buf.append(arg);
    buf.append(") {\n    self.try_set_");
    buf.append(snake);
    buf.append("(value).unwrap_or_else(|err| panic!(\"failed to set value for key `");
    buf.append(name);
    buf.append("`: {:?}\", err))\n}\n");
    proof {
        assert(buf@ =~= setter_text(name@, snake@, arg@));
    }
    buf
}

fn build_try_setter(name: &str, snake: &str, arg: &str) -> (r: String)
    ensures
        r@ == try_setter_text(name@, snake@, arg@),
{
    let mut buf = String::from_str("pub fn try_set_");
    buf.append(snake);
    buf.append("(&self, value: ");
    buf.append(arg);
    buf.append(
        ") -> std::result::Result<(), gio::glib::BoolError> {\n    gio::prelude::SettingsExtManual::set(&self.0, \"",
    );
    buf.append(name);
    buf.append("\", &value)\n}\n");
    proof {
        assert(buf@ =~= try_setter_text(name@, snake@, arg@));
    }
    buf
}

fn build_connect_changed(name: &str, snake: &str) -> (r: String)
    ensures
        r@ == connect_changed_text(name@, snake@),
{
    let mut buf = String::from_str("pub fn connect_");
    buf.append(snake);
    buf.append(
        "_changed(&self, f: impl Fn(&gio::Settings) + 'static) -> gio::glib::SignalHandlerId {\n    gio::prelude::SettingsExt::connect_changed(&self.0, Some(\"",
    );
    buf.append(name);
    buf.append("\"), move |settings, _| {\n        f(settings)\n    })\n}\n");
    proof {
        assert(buf@ =~= connect_changed_text(name@, snake@));
    }
    buf
}

fn build_bind(name: &str, snake: &str) -> (r: String)
    ensures
        r@ == bind_text(name@, snake@),
{
    let mut buf = String::from_str("pub fn bind_");
    buf.append(snake);
    buf.append(
        "<'a>(&'a self, object: &'a impl gio::glib::object::IsA<gio::glib::Object>, property: &'a str) -> gio::BindingBuilder<'a> {\n    gio::prelude::SettingsExtManual::bind(&self.0, \"",
    );
    buf.append(name);
    buf.append("\", object, property)\n}\n");
    proof {
        assert(buf@ =~= bind_text(name@, snake@));
    }
    buf
}

fn build_create_action(name: &str, snake: &str) -> (r: String)
    ensures
        r@ == create_action_text(name@, snake@),
{
    let mut buf = String::from_str("pub fn create_");
    buf.append(snake);
    buf.append(
        "_action(&self) -> gio::Action {\n    gio::prelude::SettingsExt::create_action(&self.0, \"",
    );
    buf.append(name);
    buf.append("\")\n}\n");
    proof {
        assert(buf@ =~= create_action_text(name@, snake@));
    }
    buf
}

/// Law: an entry whose last name-scoped rule is a skip is never generated,
/// whatever overrides, built-ins or generators would otherwise apply.
pub proof fn lemma_name_skip_dominates(g: KeyGeneratorsView, k: KeyView)
    requires
        assoc_last(g.key_names, k.name) == Some(RuleView::Skip),
    ensures
        resolve(g, k) is Skip,
{
}

/// Law: an entry whose last signature-scoped rule is a skip is never
/// generated, even when a name-scoped mapping is configured for it.
pub proof fn lemma_signature_skip_dominates(g: KeyGeneratorsView, k: KeyView)
    requires
        assoc_last(g.signatures, k.signature) == Some(RuleView::Skip),
    ensures
        resolve(g, k) is Skip,
{
}

/// Law: outside the skips, a name-scoped mapping wins over every
/// signature-scoped rule, built-in or specialized generator.
pub proof fn lemma_name_override_precedence(g: KeyGeneratorsView, k: KeyView, c: ContextView)
    requires
        assoc_last(g.key_names, k.name) == Some(RuleView::Define(c)),
        assoc_last(g.signatures, k.signature) != Some(RuleView::Skip),
    ensures
        resolve(g, k) == Resolution::Generate(c),
{
}

/// Law: with no name-scoped rule and no signature-scoped skip, a
/// signature-scoped mapping (an override or a built-in) wins over the
/// specialized generators.
pub proof fn lemma_signature_override_precedence(g: KeyGeneratorsView, k: KeyView, c: ContextView)
    requires
        assoc_last(g.key_names, k.name) is None,
        assoc_last(g.signatures, k.signature) == Some(RuleView::Define(c)),
    ensures
        resolve(g, k) == Resolution::Generate(c),
{
}

/// Law: within one scope, a rule recorded later for a key replaces every
/// earlier rule for it, a `Define` after a `Skip` as much as the other way
/// round: resolution reads only the last rule.
pub proof fn lemma_later_rule_replaces<K, V>(t: Seq<(K, V)>, k: K, v: V)
    ensures
        assoc_last(t.push((k, v)), k) == Some(v),
{
}

/// Law: the rules of a later override call replace those of earlier calls
/// for every key the later call mentions, since the tables are appended in
/// call order and resolution reads the last rule.
pub proof fn lemma_later_call_replaces<K, V>(t: Seq<(K, V)>, u: Seq<(K, V)>, k: K)
    requires
        assoc_last(u, k) is Some,
    ensures
        assoc_last(t + u, k) == assoc_last(u, k),
    decreases u.len(),
{
    assert(u.len() > 0);
    assert((t + u).last() == u.last());
    if u.last().0 == k {
    } else {
        assert((t + u).drop_last() =~= t + u.drop_last());
        lemma_later_call_replaces(t, u.drop_last(), k);
    }
}

/// Law: for an entry carrying both a non-empty minimum and a non-empty
/// maximum, the documentation joins them on one line as
/// `min: <min>; max: <max>` after a blank line.
pub proof fn lemma_docs_min_max(k: KeyView, min: Seq<char>, max: Seq<char>)
    requires
        k.range matches Some(r) && r.min == Some(min) && r.max == Some(max),
        min.len() > 0,
        max.len() > 0,
    ensures
        docs_of(k) == docs_summary_part(k) + "\n"@ + "default: "@ + k.default + "\n\n"@ + "min: "@
            + min + "; "@ + "max: "@ + max,
{
    assert(docs_of(k) =~= docs_summary_part(k) + "\n"@ + "default: "@ + k.default + "\n\n"@
        + "min: "@ + min + "; "@ + "max: "@ + max);
}

} // verus!
