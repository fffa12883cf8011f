//! The enum generator: for an entry whose signature references a schema
//! enum, it produces a type mapping whose argument and return type is the
//! generated enum type's name, together with an auxiliary declaration: the
//! enum type itself and bidirectional conversion logic between each variant
//! and the nick under which the settings store holds it.

use vstd::prelude::*;

use crate::decimal::{dec_int, push_dec_i32};
use crate::generators::{Context, ContextView};
use crate::idents::{pascal_of, to_pascal_case};
use crate::schema::{enum_values_distinct, enum_wf, Enum, EnumVariantView, EnumView};

verus! {

/// The index of the first variant whose nick is `nick`, if any.
///
/// This is the meaning of the generated `from_nick` conversion, whose match
/// arms are tried in declaration order; the generated `to_nick` conversion
/// maps the variant at index `i` to `vs[i].nick`.
pub open spec fn nick_index(vs: Seq<EnumVariantView>, nick: Seq<char>) -> Option<int>
    decreases vs.len(),
{
    if vs.len() == 0 {
        None
    } else if vs.first().nick == nick {
        Some(0)
    } else {
        match nick_index(vs.drop_first(), nick) {
            Some(i) => Some(i + 1),
            None => None,
        }
    }
}

/// If the variant at index `i` carries nick `n` and no earlier variant
/// does, decoding `n` finds exactly index `i`.
pub proof fn lemma_nick_index_first(vs: Seq<EnumVariantView>, n: Seq<char>, i: int)
    requires
        0 <= i < vs.len(),
        vs[i].nick == n,
        forall|j: int| 0 <= j < i ==> vs[j].nick != n,
    ensures
        nick_index(vs, n) == Some(i),
    decreases i,
{
    if i == 0 {
        assert(vs.first() == vs[0]);
    } else {
        assert(vs[0].nick != n);
        let rest = vs.drop_first();
        assert(rest[i - 1] == vs[i]);
        assert(forall|j: int| 0 <= j < i - 1 ==> #[trigger] rest[j].nick == vs[j + 1].nick);
        lemma_nick_index_first(rest, n, i - 1);
    }
}

/// If no variant carries nick `n`, decoding `n` finds nothing.
pub proof fn lemma_nick_index_none(vs: Seq<EnumVariantView>, n: Seq<char>)
    requires
        forall|j: int| 0 <= j < vs.len() ==> vs[j].nick != n,
    ensures
        nick_index(vs, n) is None,
    decreases vs.len(),
{
    if vs.len() > 0 {
        assert(vs.first() == vs[0]);
        let rest = vs.drop_first();
        assert(forall|j: int| 0 <= j < rest.len() ==> #[trigger] rest[j].nick == vs[j + 1].nick);
        lemma_nick_index_none(rest, n);
    }
}

/// Round-trip law of the generated conversion logic: for every declared
/// variant of a well-formed enum, encoding the variant to its stored nick
/// and decoding that nick yields the same variant again.
pub proof fn lemma_variant_round_trip(e: EnumView, i: int)
    requires
        enum_wf(e),
        0 <= i < e.variants.len(),
    ensures
        nick_index(e.variants, e.variants[i].nick) == Some(i),
{
    lemma_nick_index_first(e.variants, e.variants[i].nick, i);
}

/// The stored representation of the variant at `index`: its nick.
pub fn variant_nick<'a>(e: &'a Enum, index: usize) -> (r: &'a str)
    requires
        index < e@.variants.len(),
    ensures
        r@ == e@.variants[index as int].nick,
{
    e.variants[index].nick.as_str()
}

/// The variant a stored nick decodes to: the first variant carrying that
/// nick, as the generated conversion's match arms are tried in order.
pub fn variant_index(e: &Enum, nick: &str) -> (r: Option<usize>)
    ensures
        match r {
            Some(i) => nick_index(e@.variants, nick@) == Some(i as int),
            None => nick_index(e@.variants, nick@) is None,
        },
{
    let target = String::from_str(nick);
    let mut i: usize = 0;
    while i < e.variants.len()
        invariant
            i <= e.variants.len(),
            target@ == nick@,
            forall|j: int| 0 <= j < i ==> #[trigger] e@.variants[j].nick != nick@,
        decreases e.variants.len() - i,
    {
        if String::eq(&e.variants[i].nick, &target) {
            proof {
                lemma_nick_index_first(e@.variants, nick@, i as int);
            }
            return Some(i);
        }
        i = i + 1;
    }
    proof {
        lemma_nick_index_none(e@.variants, nick@);
    }
    None
}

/// The index of the first variant whose numeric value is `value`, if any.
///
/// This is the meaning of the generated `from_value` conversion, whose
/// match arms are tried in declaration order; the generated `to_value`
/// conversion maps the variant at index `i` to `vs[i].value`.
pub open spec fn value_index(vs: Seq<EnumVariantView>, value: i32) -> Option<int>
    decreases vs.len(),
{
    if vs.len() == 0 {
        None
    } else if vs.first().value == value {
        Some(0)
    } else {
        match value_index(vs.drop_first(), value) {
            Some(i) => Some(i + 1),
            None => None,
        }
    }
}

/// If the variant at index `i` carries value `v` and no earlier variant
/// does, decoding `v` finds exactly index `i`.
pub proof fn lemma_value_index_first(vs: Seq<EnumVariantView>, v: i32, i: int)
    requires
        0 <= i < vs.len(),
        vs[i].value == v,
        forall|j: int| 0 <= j < i ==> vs[j].value != v,
    ensures
        value_index(vs, v) == Some(i),
    decreases i,
{
    if i == 0 {
        assert(vs.first() == vs[0]);
    } else {
        assert(vs[0].value != v);
        let rest = vs.drop_first();
        assert(rest[i - 1] == vs[i]);
        assert(forall|j: int| 0 <= j < i - 1 ==> #[trigger] rest[j].value == vs[j + 1].value);
        lemma_value_index_first(rest, v, i - 1);
    }
}

/// If no variant carries value `v`, decoding `v` finds nothing.
pub proof fn lemma_value_index_none(vs: Seq<EnumVariantView>, v: i32)
    requires
        forall|j: int| 0 <= j < vs.len() ==> vs[j].value != v,
    ensures
        value_index(vs, v) is None,
    decreases vs.len(),
{
    if vs.len() > 0 {
        assert(vs.first() == vs[0]);
        let rest = vs.drop_first();
        assert(forall|j: int| 0 <= j < rest.len() ==> #[trigger] rest[j].value == vs[j + 1].value);
        lemma_value_index_none(rest, v);
    }
}

/// Round-trip law of the generated numeric conversion: for every declared
/// variant of an enum with pairwise-distinct values, encoding the variant
/// to its value and decoding that value yields the same variant again.
pub proof fn lemma_value_round_trip(e: EnumView, i: int)
    requires
        enum_values_distinct(e),
        0 <= i < e.variants.len(),
    ensures
        value_index(e.variants, e.variants[i].value) == Some(i),
{
    lemma_value_index_first(e.variants, e.variants[i].value, i);
}

/// The numeric representation of the variant at `index`: its value.
pub fn variant_value(e: &Enum, index: usize) -> (r: i32)
    requires
        index < e@.variants.len(),
    ensures
        r == e@.variants[index as int].value,
{
    e.variants[index].value
}

/// The variant a stored numeric value decodes to: the first variant
/// carrying that value, as the generated conversion's match arms are
/// tried in order.
pub fn variant_by_value(e: &Enum, value: i32) -> (r: Option<usize>)
    ensures
        match r {
            Some(i) => value_index(e@.variants, value) == Some(i as int),
            None => value_index(e@.variants, value) is None,
        },
{
    let mut i: usize = 0;
    while i < e.variants.len()
        invariant
            i <= e.variants.len(),
            forall|j: int| 0 <= j < i ==> #[trigger] e@.variants[j].value != value,
        decreases e.variants.len() - i,
    {
        if e.variants[i].value == value {
            proof {
                lemma_value_index_first(e@.variants, value, i as int);
            }
            return Some(i);
        }
        i = i + 1;
    }
    proof {
        lemma_value_index_none(e@.variants, value);
    }
    None
}

/// One generated variant declaration line per variant, in order.
pub open spec fn variant_decl_lines(vs: Seq<EnumVariantView>) -> Seq<char>
    decreases vs.len(),
{
    if vs.len() == 0 {
        Seq::empty()
    } else {
        variant_decl_lines(vs.drop_last()) + "    "@ + pascal_of(vs.last().nick) + ",\n"@
    }
}

/// One generated `to_nick` match arm per variant, in order.
pub open spec fn to_nick_arms(enum_ident: Seq<char>, vs: Seq<EnumVariantView>) -> Seq<char>
    decreases vs.len(),
{
    if vs.len() == 0 {
        Seq::empty()
    } else {
        to_nick_arms(enum_ident, vs.drop_last()) + "            "@ + enum_ident + "::"@
            + pascal_of(vs.last().nick) + " => \""@ + vs.last().nick + "\",\n"@
    }
}

/// One generated `from_nick` match arm per variant, in order.
pub open spec fn from_nick_arms(enum_ident: Seq<char>, vs: Seq<EnumVariantView>) -> Seq<char>
    decreases vs.len(),
{
    if vs.len() == 0 {
        Seq::empty()
    } else {
        from_nick_arms(enum_ident, vs.drop_last()) + "            \""@ + vs.last().nick
            + "\" => std::option::Option::Some("@ + enum_ident + "::"@ + pascal_of(vs.last().nick)
            + "),\n"@
    }
}

/// One generated `to_value` match arm per variant, in order.
pub open spec fn to_value_arms(enum_ident: Seq<char>, vs: Seq<EnumVariantView>) -> Seq<char>
    decreases vs.len(),
{
    if vs.len() == 0 {
        Seq::empty()
    } else {
        to_value_arms(enum_ident, vs.drop_last()) + "            "@ + enum_ident + "::"@
            + pascal_of(vs.last().nick) + " => "@ + dec_int(vs.last().value as int) + ",\n"@
    }
}

/// One generated `from_value` match arm per variant, in order.
pub open spec fn from_value_arms(enum_ident: Seq<char>, vs: Seq<EnumVariantView>) -> Seq<char>
    decreases vs.len(),
{
    if vs.len() == 0 {
        Seq::empty()
    } else {
        from_value_arms(enum_ident, vs.drop_last()) + "            "@ + dec_int(
            vs.last().value as int,
        ) + " => std::option::Option::Some("@ + enum_ident + "::"@ + pascal_of(vs.last().nick)
            + "),\n"@
    }
}

/// The auxiliary declaration generated for an enum entry: the enum type
/// named after the entry, and the conversions between its variants and
/// their stored nick and numeric representations.
pub open spec fn enum_aux(key_name: Seq<char>, e: EnumView) -> Seq<char> {
    let enum_ident = pascal_of(key_name);
    "#[derive(Clone, Copy, PartialEq, Eq, Debug)]\npub enum "@ + enum_ident + " {\n"@
        + variant_decl_lines(e.variants) + "}\n\nimpl "@ + enum_ident
        + " {\n    pub fn to_nick(self) -> &'static str {\n        match self {\n"@ + to_nick_arms(
        enum_ident,
        e.variants,
    ) + "        }\n    }\n\n    pub fn from_nick(nick: &str) -> std::option::Option<"@ + enum_ident
        + "> {\n        match nick {\n"@ + from_nick_arms(enum_ident, e.variants)
        + "            _ => std::option::Option::None,\n        }\n    }\n\n    pub fn to_value(self) -> i32 {\n        match self {\n"@
        + to_value_arms(enum_ident, e.variants)
        + "        }\n    }\n\n    pub fn from_value(value: i32) -> std::option::Option<"@
        + enum_ident + "> {\n        match value {\n"@ + from_value_arms(enum_ident, e.variants)
        + "            _ => std::option::Option::None,\n        }\n    }\n}\n"@
}

/// The type mapping the enum generator resolves an enum entry to.
pub open spec fn enum_context_view(key_name: Seq<char>, e: EnumView) -> ContextView {
    ContextView {
        arg_type: pascal_of(key_name),
        ret_type: pascal_of(key_name),
        auxiliary: Some(enum_aux(key_name, e)),
    }
}

fn build_variant_decls(e: &Enum) -> (r: String)
    ensures
        r@ == variant_decl_lines(e@.variants),
{
    let mut buf = String::new();
    let mut i: usize = 0;
    while i < e.variants.len()
        invariant
            i <= e.variants.len(),
            buf@ == variant_decl_lines(e@.variants.take(i as int)),
        decreases e.variants.len() - i,
    {
        buf.append("    ");
        let p = to_pascal_case(e.variants[i].nick.as_str());
        buf.append(p.as_str());
        buf.append(",\n");
        i = i + 1;
        proof {
            assert(e@.variants.take(i as int).drop_last() =~= e@.variants.take(i as int - 1));
            assert(buf@ =~= variant_decl_lines(e@.variants.take(i as int)));
        }
    }
    proof {
        assert(e@.variants.take(e.variants@.len() as int) =~= e@.variants);
    }
    buf
}

fn build_to_nick_arms(enum_ident: &str, e: &Enum) -> (r: String)
    ensures
        r@ == to_nick_arms(enum_ident@, e@.variants),
{
    let mut buf = String::new();
    let mut i: usize = 0;
    while i < e.variants.len()
        invariant
            i <= e.variants.len(),
            buf@ == to_nick_arms(enum_ident@, e@.variants.take(i as int)),
        decreases e.variants.len() - i,
    {
        buf.append("            ");
        buf.append(enum_ident);
        buf.append("::");
        let p = to_pascal_case(e.variants[i].nick.as_str());
        buf.append(p.as_str());
        buf.append(" => \"");
        buf.append(e.variants[i].nick.as_str());
        buf.append("\",\n");
        i = i + 1;
        proof {
            assert(e@.variants.take(i as int).drop_last() =~= e@.variants.take(i as int - 1));
            assert(buf@ =~= to_nick_arms(enum_ident@, e@.variants.take(i as int)));
        }
    }
    proof {
        assert(e@.variants.take(e.variants@.len() as int) =~= e@.variants);
    }
    buf
}

fn build_from_nick_arms(enum_ident: &str, e: &Enum) -> (r: String)
    ensures
        r@ == from_nick_arms(enum_ident@, e@.variants),
{
    let mut buf = String::new();
    let mut i: usize = 0;
    while i < e.variants.len()
        invariant
            i <= e.variants.len(),
            buf@ == from_nick_arms(enum_ident@, e@.variants.take(i as int)),
        decreases e.variants.len() - i,
    {
        buf.append("            \"");
        buf.append(e.variants[i].nick.as_str());
        buf.append("\" => std::option::Option::Some(");
        buf.append(enum_ident);
        buf.append("::");
        let p = to_pascal_case(e.variants[i].nick.as_str());
        buf.append(p.as_str());
        buf.append("),\n");
        i = i + 1;
        proof {
            assert(e@.variants.take(i as int).drop_last() =~= e@.variants.take(i as int - 1));
            assert(buf@ =~= from_nick_arms(enum_ident@, e@.variants.take(i as int)));
        }
    }
    proof {
        assert(e@.variants.take(e.variants@.len() as int) =~= e@.variants);
    }
    buf
}

fn build_to_value_arms(enum_ident: &str, e: &Enum) -> (r: String)
    ensures
        r@ == to_value_arms(enum_ident@, e@.variants),
{
    let mut buf = String::new();
    let mut i: usize = 0;
    while i < e.variants.len()
        invariant
            i <= e.variants.len(),
            buf@ == to_value_arms(enum_ident@, e@.variants.take(i as int)),
        decreases e.variants.len() - i,
    {
        buf.append("            ");
        buf.append(enum_ident);
        buf.append("::");
        let p = to_pascal_case(e.variants[i].nick.as_str());
        buf.append(p.as_str());
        buf.append(" => ");
        push_dec_i32(&mut buf, e.variants[i].value);
        buf.append(",\n");
        i = i + 1;
        proof {
            assert(e@.variants.take(i as int).drop_last() =~= e@.variants.take(i as int - 1));
            assert(buf@ =~= to_value_arms(enum_ident@, e@.variants.take(i as int)));
        }
    }
    proof {
        assert(e@.variants.take(e.variants@.len() as int) =~= e@.variants);
    }
    buf
}

fn build_from_value_arms(enum_ident: &str, e: &Enum) -> (r: String)
    ensures
        r@ == from_value_arms(enum_ident@, e@.variants),
{
    let mut buf = String::new();
    let mut i: usize = 0;
    while i < e.variants.len()
        invariant
            i <= e.variants.len(),
            buf@ == from_value_arms(enum_ident@, e@.variants.take(i as int)),
        decreases e.variants.len() - i,
    {
        buf.append("            ");
        push_dec_i32(&mut buf, e.variants[i].value);
        buf.append(" => std::option::Option::Some(");
        buf.append(enum_ident);
        buf.append("::");
        let p = to_pascal_case(e.variants[i].nick.as_str());
        buf.append(p.as_str());
        buf.append("),\n");
        i = i + 1;
        proof {
            assert(e@.variants.take(i as int).drop_last() =~= e@.variants.take(i as int - 1));
            assert(buf@ =~= from_value_arms(enum_ident@, e@.variants.take(i as int)));
        }
    }
    proof {
        assert(e@.variants.take(e.variants@.len() as int) =~= e@.variants);
    }
    buf
}

/// The auxiliary declaration's text for an enum entry.
pub fn enum_auxiliary(key_name: &str, e: &Enum) -> (r: String)
    ensures
        r@ == enum_aux(key_name@, e@),
{
    let enum_ident = to_pascal_case(key_name);
    let mut buf = String::from_str("#[derive(Clone, Copy, PartialEq, Eq, Debug)]\npub enum ");
    buf.append(enum_ident.as_str());
    buf.append(" {\n");
    let decls = build_variant_decls(e);
    buf.append(decls.as_str());
    buf.append("}\n\nimpl ");
    buf.append(enum_ident.as_str());
    buf.append(" {\n    pub fn to_nick(self) -> &'static str {\n        match self {\n");
    let to_arms = build_to_nick_arms(enum_ident.as_str(), e);
    buf.append(to_arms.as_str());
    buf.append("        }\n    }\n\n    pub fn from_nick(nick: &str) -> std::option::Option<");
    buf.append(enum_ident.as_str());
    buf.append("> {\n        match nick {\n");
    let from_arms = build_from_nick_arms(enum_ident.as_str(), e);
    buf.append(from_arms.as_str());
    buf.append(
        "            _ => std::option::Option::None,\n        }\n    }\n\n    pub fn to_value(self) -> i32 {\n        match self {\n",
    );
    let to_val_arms = build_to_value_arms(enum_ident.as_str(), e);
    buf.append(to_val_arms.as_str());
    buf.append(
        "        }\n    }\n\n    pub fn from_value(value: i32) -> std::option::Option<",
    );
    buf.append(enum_ident.as_str());
    buf.append("> {\n        match value {\n");
    let from_val_arms = build_from_value_arms(enum_ident.as_str(), e);
    buf.append(from_val_arms.as_str());
    buf.append("            _ => std::option::Option::None,\n        }\n    }\n}\n");
    proof {
        assert(buf@ =~= enum_aux(key_name@, e@));
    }
    buf
}

/// The key generator's type mapping for an enum entry.
pub fn enum_context(key_name: &str, e: &Enum) -> (r: Context)
    ensures
        r@ == enum_context_view(key_name@, e@),
{
    let enum_ident = to_pascal_case(key_name);
    let aux = enum_auxiliary(key_name, e);
    Context::new_with_aux(enum_ident.as_str(), aux)
}

} // verus!
