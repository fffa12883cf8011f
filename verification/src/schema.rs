//! Data model of a parsed settings schema: entries (keys), their type
//! signatures, and named enum definitions.

use vstd::prelude::*;

verus! {

/// The classification of an entry's stored value: either a primitive type
/// code, or a reference to an enum defined elsewhere in the schema.
pub enum KeySignature {
    Type(String),
    Enum(String),
}

/// Ghost model of a [`KeySignature`].
pub enum SigView {
    Type(Seq<char>),
    Enum(Seq<char>),
}

impl View for KeySignature {
    type V = SigView;

    open spec fn view(&self) -> SigView {
        match self {
            KeySignature::Type(s) => SigView::Type(s@),
            KeySignature::Enum(s) => SigView::Enum(s@),
        }
    }
}

impl KeySignature {
    /// Structural equality of two signatures.
    pub fn matches(&self, other: &KeySignature) -> (r: bool)
        ensures
            r == (self@ == other@),
    {
        match (self, other) {
            (KeySignature::Type(a), KeySignature::Type(b)) => String::eq(a, b),
            (KeySignature::Enum(a), KeySignature::Enum(b)) => String::eq(a, b),
            _ => false,
        }
    }

    /// An owned copy with the same view.
    pub fn duplicate(&self) -> (r: KeySignature)
        ensures
            r@ == self@,
    {
        match self {
            KeySignature::Type(s) => KeySignature::Type(s.clone()),
            KeySignature::Enum(s) => KeySignature::Enum(s.clone()),
        }
    }
}

/// The optional numeric range metadata of an entry.
pub struct KeyRange {
    pub min: Option<String>,
    pub max: Option<String>,
}

/// Ghost model of a [`KeyRange`].
pub struct KeyRangeView {
    pub min: Option<Seq<char>>,
    pub max: Option<Seq<char>>,
}

impl View for KeyRange {
    type V = KeyRangeView;

    open spec fn view(&self) -> KeyRangeView {
        KeyRangeView {
            min: match self.min {
                Some(ref s) => Some(s@),
                None => None,
            },
            max: match self.max {
                Some(ref s) => Some(s@),
                None => None,
            },
        }
    }
}

impl KeyRange {
    /// An owned copy with the same view.
    pub fn duplicate(&self) -> (r: KeyRange)
        ensures
            r@ == self@,
    {
        KeyRange {
            min: match &self.min {
                Some(s) => Some(s.clone()),
                None => None,
            },
            max: match &self.max {
                Some(s) => Some(s.clone()),
                None => None,
            },
        }
    }
}

/// One named, typed value declared in a settings schema.
pub struct Key {
    pub name: String,
    pub signature: KeySignature,
    pub default: String,
    pub summary: Option<String>,
    pub range: Option<KeyRange>,
}

/// Ghost model of a [`Key`].
pub struct KeyView {
    pub name: Seq<char>,
    pub signature: SigView,
    pub default: Seq<char>,
    pub summary: Option<Seq<char>>,
    pub range: Option<KeyRangeView>,
}

impl View for Key {
    type V = KeyView;

    open spec fn view(&self) -> KeyView {
        KeyView {
            name: self.name@,
            signature: self.signature@,
            default: self.default@,
            summary: match self.summary {
                Some(ref s) => Some(s@),
                None => None,
            },
            range: match self.range {
                Some(ref r) => Some(r@),
                None => None,
            },
        }
    }
}

impl Key {
    /// The entry's signature.
    pub fn signature(&self) -> (r: &KeySignature)
        ensures
            r@ == self@.signature,
    {
        &self.signature
    }

    /// An owned copy with the same view.
    pub fn duplicate(&self) -> (r: Key)
        ensures
            r@ == self@,
    {
        Key {
            name: self.name.clone(),
            signature: self.signature.duplicate(),
            default: self.default.clone(),
            summary: match &self.summary {
                Some(s) => Some(s.clone()),
                None => None,
            },
            range: match &self.range {
                Some(r) => Some(r.duplicate()),
                None => None,
            },
        }
    }
}

/// One variant of a schema enum: its nick and its numeric value.
pub struct EnumVariant {
    pub nick: String,
    pub value: i32,
}

/// Ghost model of an [`EnumVariant`].
pub struct EnumVariantView {
    pub nick: Seq<char>,
    pub value: i32,
}

impl View for EnumVariant {
    type V = EnumVariantView;

    open spec fn view(&self) -> EnumVariantView {
        EnumVariantView { nick: self.nick@, value: self.value }
    }
}

/// An enum definition of the schema: an ordered sequence of variants.
pub struct Enum {
    pub variants: Vec<EnumVariant>,
}

/// Ghost model of an [`Enum`].
pub struct EnumView {
    pub variants: Seq<EnumVariantView>,
}

impl View for Enum {
    type V = EnumView;

    open spec fn view(&self) -> EnumView {
        EnumView { variants: self.variants@.map_values(|v: EnumVariant| v@) }
    }
}

/// Well-formedness of an enum definition: the variants' nicks are pairwise
/// distinct, so that a stored nick identifies at most one variant.
pub open spec fn enum_wf(e: EnumView) -> bool {
    forall|i: int, j: int|
        0 <= i < e.variants.len() && 0 <= j < e.variants.len() && i != j
            ==> e.variants[i].nick != e.variants[j].nick
}

/// Pairwise-distinct numeric values, so that a stored value identifies at
/// most one variant.
pub open spec fn enum_values_distinct(e: EnumView) -> bool {
    forall|i: int, j: int|
        0 <= i < e.variants.len() && 0 <= j < e.variants.len() && i != j
            ==> e.variants[i].value != e.variants[j].value
}

impl Enum {
    /// An owned copy with the same view.
    pub fn duplicate(&self) -> (r: Enum)
        ensures
            r@ == self@,
    {
        let mut variants: Vec<EnumVariant> = Vec::new();
        let mut i: usize = 0;
        while i < self.variants.len()
            invariant
                i <= self.variants.len(),
                variants@.len() == i,
                forall|k: int| 0 <= k < i ==> #[trigger] variants@[k]@ == self.variants@[k]@,
            decreases self.variants.len() - i,
        {
            let v = &self.variants[i];
            variants.push(EnumVariant { nick: v.nick.clone(), value: v.value });
            i = i + 1;
        }
        proof {
            assert(variants@.map_values(|v: EnumVariant| v@) =~= self@.variants);
        }
        Enum { variants }
    }
}

} // verus!
