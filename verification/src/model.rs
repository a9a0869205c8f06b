//! The derive input as plain values: the enum's name, attributes, generic
//! parameter names and variants with their fields.

use vstd::prelude::*;

use crate::attrs::{attrs_view, AttrInput, AttrV};
use crate::generics::{strings_view, TypeRefs, TypeRefsV};

verus! {

/// One field of a variant.
pub struct FieldInput {
    /// The field's name; `None` for a field of a tuple variant.
    pub name: Option<String>,
    pub attrs: Vec<AttrInput>,
    /// What the field's type mentions.
    pub ty: TypeRefs,
}

/// The fields of a variant.
pub enum FieldsInput {
    Unit,
    Unnamed(Vec<FieldInput>),
    Named(Vec<FieldInput>),
}

/// One variant of the enum.
pub struct VariantInput {
    pub name: String,
    pub attrs: Vec<AttrInput>,
    pub fields: FieldsInput,
}

/// What the derive is applied to.
pub enum DataInput {
    Enum(Vec<VariantInput>),
    Struct,
    Union,
}

/// The item that the derive is applied to.
pub struct DeriveInput {
    pub name: String,
    pub attrs: Vec<AttrInput>,
    /// Names of the type parameters, in order.
    pub type_params: Vec<String>,
    /// Names of the lifetime parameters (without the `'`), in order.
    pub lifetime_params: Vec<String>,
    pub data: DataInput,
}

/// The mathematical value of [`FieldInput`].
pub struct FieldV {
    pub name: Option<Seq<char>>,
    pub attrs: Seq<AttrV>,
    pub ty: TypeRefsV,
}

/// The mathematical value of [`FieldsInput`].
pub enum FieldsV {
    Unit,
    Unnamed(Seq<FieldV>),
    Named(Seq<FieldV>),
}

/// The mathematical value of [`VariantInput`].
pub struct VariantV {
    pub name: Seq<char>,
    pub attrs: Seq<AttrV>,
    pub fields: FieldsV,
}

/// The mathematical value of [`DataInput`].
pub enum DataV {
    Enum(Seq<VariantV>),
    Struct,
    Union,
}

/// The mathematical value of [`DeriveInput`].
pub struct DeriveInputV {
    pub name: Seq<char>,
    pub attrs: Seq<AttrV>,
    pub type_params: Seq<Seq<char>>,
    pub lifetime_params: Seq<Seq<char>>,
    pub data: DataV,
}

impl View for FieldInput {
    type V = FieldV;

    open spec fn view(&self) -> FieldV {
        FieldV {
            name: match self.name {
                Some(s) => Some(s@),
                None => None,
            },
            attrs: attrs_view(self.attrs@),
            ty: self.ty@,
        }
    }
}

/// The values of a list of fields.
pub open spec fn fields_view(v: Seq<FieldInput>) -> Seq<FieldV> {
    v.map_values(|f: FieldInput| f@)
}

impl View for FieldsInput {
    type V = FieldsV;

    open spec fn view(&self) -> FieldsV {
        match self {
            FieldsInput::Unit => FieldsV::Unit,
            FieldsInput::Unnamed(fs) => FieldsV::Unnamed(fields_view(fs@)),
            FieldsInput::Named(fs) => FieldsV::Named(fields_view(fs@)),
        }
    }
}

impl View for VariantInput {
    type V = VariantV;

    open spec fn view(&self) -> VariantV {
        VariantV { name: self.name@, attrs: attrs_view(self.attrs@), fields: self.fields@ }
    }
}

/// The values of a list of variants.
pub open spec fn variants_view(v: Seq<VariantInput>) -> Seq<VariantV> {
    v.map_values(|x: VariantInput| x@)
}

impl View for DataInput {
    type V = DataV;

    open spec fn view(&self) -> DataV {
        match self {
            DataInput::Enum(vs) => DataV::Enum(variants_view(vs@)),
            DataInput::Struct => DataV::Struct,
            DataInput::Union => DataV::Union,
        }
    }
}

impl View for DeriveInput {
    type V = DeriveInputV;

    open spec fn view(&self) -> DeriveInputV {
        DeriveInputV {
            name: self.name@,
            attrs: attrs_view(self.attrs@),
            type_params: strings_view(self.type_params@),
            lifetime_params: strings_view(self.lifetime_params@),
            data: self.data@,
        }
    }
}

} // verus!
