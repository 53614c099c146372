//! How derived `Encode` and `Decode` impls lay out structs and enums.
//!
//! A derived impl writes the fields in declaration order; an enum first
//! writes the variant's index as a `u32`. Each field may carry
//! `#[zerec(...)]` options, gathered in [`FieldAttrs`], which decide how
//! that field is written ([`FieldAttrs::encode_plan`]) and read back
//! ([`FieldAttrs::decode_plan`]). The code generator turns these plans into
//! Rust code; the decisions themselves are made, and proved, here.

use vstd::prelude::*;

verus! {

/// Whether two string slices hold the same text.
fn same_text(a: &str, b: &str) -> (r: bool)
    ensures
        r == (a@ == b@),
{
    let x: String = a.to_owned();
    let y: String = b.to_owned();
    x == y
}

/// The options that a `#[zerec(...)]` attribute accepts.
#[derive(Debug, Clone, Copy, PartialEq, Eq, Structural)]
pub enum AttrKey {
    /// `skip`: leave the field off the wire and fill it with
    /// `Default::default()` on decode.
    Skip,
    /// `via = "AdapterType"`: route the field through an adapter.
    Via,
    /// `map_enc = "|v| expr"`: a closure that turns the field into what is written.
    MapEnc,
    /// `map_dec = "|dec| expr"`: a closure that reads the field back.
    MapDec,
}

/// The option that the name `name` stands for.
pub open spec fn attr_key_named(name: Seq<char>) -> Option<AttrKey> {
    if name == "skip"@ {
        Some(AttrKey::Skip)
    } else if name == "via"@ {
        Some(AttrKey::Via)
    } else if name == "map_enc"@ {
        Some(AttrKey::MapEnc)
    } else if name == "map_dec"@ {
        Some(AttrKey::MapDec)
    } else {
        None
    }
}

impl AttrKey {
    /// The option named `name`, or `None` for a name the attribute does not
    /// know (which the derive reports as an "unknown zerec attribute").
    pub fn from_name(name: &str) -> (k: Option<AttrKey>)
        ensures
            k == attr_key_named(name@),
    {
        if same_text(name, "skip") {
            Some(AttrKey::Skip)
        } else if same_text(name, "via") {
            Some(AttrKey::Via)
        } else if same_text(name, "map_enc") {
            Some(AttrKey::MapEnc)
        } else if same_text(name, "map_dec") {
            Some(AttrKey::MapDec)
        } else {
            None
        }
    }

    /// Whether the option is written `key = "value"` (all but `skip`).
    pub fn takes_value(&self) -> (b: bool)
        ensures
            b == !(*self is Skip),
    {
        match self {
            AttrKey::Skip => false,
            _ => true,
        }
    }
}

/// The `#[zerec(...)]` options found on one field.
pub struct FieldAttrs {
    /// `#[zerec(skip)]`
    ///
    /// Exclude this field from encode/decode. The field must implement
    /// `Default` so the decoder can fill it without reading any bytes.
    pub skip: bool,
    /// `#[zerec(via = "AdapterType")]`
    ///
    /// Route encode/decode through a type that implements
    /// `zerec::Adapter<FieldType>`.
    pub via: Option<String>,
    /// `#[zerec(map_enc = "|v| expr")]`
    ///
    /// A closure that converts `&FieldType` into any type that implements
    /// `Encode`. Inlined as-is into the generated code.
    pub map_enc: Option<String>,
    /// `#[zerec(map_dec = "|dec| expr")]`
    ///
    /// A closure that takes `&mut BufDecoder` and returns
    /// `Result<FieldType, DecodeError>`.
    pub map_dec: Option<String>,
}

/// Where a field stands: a named or positional field of a struct or of an
/// enum variant. Every position honours the options in the same way.
#[derive(Debug, Clone, Copy, PartialEq, Eq, Structural)]
pub enum FieldPosition {
    /// A named field of a struct.
    StructNamed,
    /// A positional field of a tuple struct.
    StructUnnamed,
    /// A named field of an enum variant.
    VariantNamed,
    /// A positional field of an enum variant.
    VariantUnnamed,
}

/// How a derived impl handles one field.
#[derive(Debug, Clone, PartialEq, Eq)]
pub enum FieldPlan {
    /// Nothing on the wire: encode writes nothing, decode fills in
    /// `Default::default()`.
    Skip,
    /// The field's own `Encode` / `Decode`.
    Plain,
    /// Through the closure with this source text.
    Closure(String),
    /// Through the adapter type with this name.
    Via(String),
}

/// The plan as a specification: its kind (0 skip, 1 plain, 2 closure,
/// 3 adapter) with the closure or adapter text.
pub open spec fn plan_view(p: FieldPlan) -> (int, Seq<char>) {
    match p {
        FieldPlan::Skip => (0, Seq::empty()),
        FieldPlan::Plain => (1, Seq::empty()),
        FieldPlan::Closure(s) => (2, s@),
        FieldPlan::Via(s) => (3, s@),
    }
}

impl FieldAttrs {
    /// The options of a field: none at all.
    pub fn new() -> (a: FieldAttrs)
        ensures
            !a.skip,
            a.via is None,
            a.map_enc is None,
            a.map_dec is None,
    {
        FieldAttrs { skip: false, via: None, map_enc: None, map_dec: None }
    }

    /// Records one option: `skip`, or a key with its string value. A later
    /// value for the same key replaces an earlier one.
    pub fn apply(&mut self, key: AttrKey, value: Option<String>)
        requires
            !(key is Skip) <==> value is Some,
        ensures
            final(self).skip == (old(self).skip || key is Skip),
            final(self).via == (if key is Via {
                value
            } else {
                old(self).via
            }),
            final(self).map_enc == (if key is MapEnc {
                value
            } else {
                old(self).map_enc
            }),
            final(self).map_dec == (if key is MapDec {
                value
            } else {
                old(self).map_dec
            }),
    {
        match key {
            AttrKey::Skip => {
                self.skip = true;
            },
            AttrKey::Via => {
                self.via = value;
            },
            AttrKey::MapEnc => {
                self.map_enc = value;
            },
            AttrKey::MapDec => {
                self.map_dec = value;
            },
        }
    }

    /// How derived `Encode` writes the field, as a specification.
    ///
    /// At every position the options are honoured in one order: `skip`
    /// (nothing written), then `map_enc`, then `via`, else the field's own
    /// `Encode`.
    pub open spec fn spec_encode_plan(&self, pos: FieldPosition) -> (int, Seq<char>) {
        if self.skip {
            (0, Seq::empty())
        } else if self.map_enc is Some {
            (2, self.map_enc->Some_0@)
        } else if self.via is Some {
            (3, self.via->Some_0@)
        } else {
            (1, Seq::empty())
        }
    }

    /// How derived `Decode` reads the field, as a specification.
    ///
    /// At every position the options are honoured in one order: `skip`
    /// (nothing read, `Default::default()` filled in), then `map_dec`, then
    /// `via`, else the field's own `Decode`.
    pub open spec fn spec_decode_plan(&self, pos: FieldPosition) -> (int, Seq<char>) {
        if self.skip {
            (0, Seq::empty())
        } else if self.map_dec is Some {
            (2, self.map_dec->Some_0@)
        } else if self.via is Some {
            (3, self.via->Some_0@)
        } else {
            (1, Seq::empty())
        }
    }

    /// How derived `Encode` writes the field.
    pub fn encode_plan(&self, pos: FieldPosition) -> (p: FieldPlan)
        ensures
            plan_view(p) == self.spec_encode_plan(pos),
    {
        if self.skip {
            FieldPlan::Skip
        } else if let Some(m) = &self.map_enc {
            FieldPlan::Closure(m.clone())
        } else if let Some(v) = &self.via {
            FieldPlan::Via(v.clone())
        } else {
            FieldPlan::Plain
        }
    }

    /// How derived `Decode` reads the field.
    pub fn decode_plan(&self, pos: FieldPosition) -> (p: FieldPlan)
        ensures
            plan_view(p) == self.spec_decode_plan(pos),
    {
        if self.skip {
            FieldPlan::Skip
        } else if let Some(m) = &self.map_dec {
            FieldPlan::Closure(m.clone())
        } else if let Some(v) = &self.via {
            FieldPlan::Via(v.clone())
        } else {
            FieldPlan::Plain
        }
    }
}

impl Default for FieldAttrs {
    fn default() -> (a: FieldAttrs)
        ensures
            !a.skip,
            a.via is None,
            a.map_enc is None,
            a.map_dec is None,
    {
        FieldAttrs::new()
    }
}

/// The `u32` written before the fields of the variant at `index` in
/// declaration order (cut to 32 bits).
pub fn variant_index(index: usize) -> (tag: u32)
    ensures
        tag == index as u32,
{
    index as u32
}

/// Derived `Encode` puts a field on the wire exactly when derived `Decode`
/// reads it back, at every position.
pub proof fn lemma_skip_agrees(attrs: FieldAttrs, pos: FieldPosition)
    ensures
        (attrs.spec_encode_plan(pos).0 == 0) == (attrs.spec_decode_plan(pos).0 == 0),
{
}

/// At every position, derived `Encode` and `Decode` handle a field the same
/// way: both skip it, both use the field's own impls, both use the same
/// adapter, or `map_enc` writes what `map_dec` reads. This holds when the
/// closures come as a pair; a field with only one of them is written
/// through the closure and read otherwise (or the other way round).
pub proof fn lemma_plans_agree(attrs: FieldAttrs, pos: FieldPosition)
    requires
        (attrs.map_enc is Some) == (attrs.map_dec is Some),
    ensures
        attrs.spec_encode_plan(pos).0 == attrs.spec_decode_plan(pos).0,
        attrs.spec_encode_plan(pos).0 == 3 ==> attrs.spec_encode_plan(pos).1
            == attrs.spec_decode_plan(pos).1,
        attrs.spec_encode_plan(pos).0 == 2 ==> attrs.spec_encode_plan(pos).1
            == attrs.map_enc->Some_0@ && attrs.spec_decode_plan(pos).1 == attrs.map_dec->Some_0@,
{
}

/// How a field's options decide its plan, at every position. A skipped
/// field is never on the wire. Otherwise a closure is used whenever one is
/// given for that direction, whatever `via` holds; the adapter only when no
/// closure is given; and the field's own impl when neither is set. (Kinds:
/// 0 skip, 1 plain, 2 closure, 3 adapter, as in [`plan_view`].)
pub proof fn lemma_plan_rules(a: FieldAttrs, pos: FieldPosition)
    ensures
        a.skip ==> a.spec_encode_plan(pos) == (0int, Seq::<char>::empty()),
        a.skip ==> a.spec_decode_plan(pos) == (0int, Seq::<char>::empty()),
        !a.skip && a.map_enc is Some ==> a.spec_encode_plan(pos) == (2int, a.map_enc->Some_0@),
        !a.skip && a.map_dec is Some ==> a.spec_decode_plan(pos) == (2int, a.map_dec->Some_0@),
        !a.skip && a.map_enc is None && a.via is Some ==> a.spec_encode_plan(pos) == (
            3int,
            a.via->Some_0@,
        ),
        !a.skip && a.map_dec is None && a.via is Some ==> a.spec_decode_plan(pos) == (
            3int,
            a.via->Some_0@,
        ),
        !a.skip && a.map_enc is None && a.via is None ==> a.spec_encode_plan(pos) == (
            1int,
            Seq::<char>::empty(),
        ),
        !a.skip && a.map_dec is None && a.via is None ==> a.spec_decode_plan(pos) == (
            1int,
            Seq::<char>::empty(),
        ),
{
}

} // verus!
