//! What deriving `I18nError` for an enum comes to: for each variant the
//! translation key that its `i18n` attribute names, and the parameters that its
//! fields hand to the translation.
//!
//! The enum is described by plain values, and so is the implementation that is
//! derived from it: one arm per variant, as the two generated methods `get_key`
//! and `get_param` match on them. The arms can be rendered as code, or applied
//! to a value of the enum right away.

use vstd::prelude::*;
use crate::text::same_text;

verus! {

/// An attribute that stands on a variant, such as `#[i18n("error.not_found")]`.
#[derive(Debug, Clone, PartialEq, Eq)]
pub struct Attribute {
    /// The attribute's name, where its path is a single identifier.
    pub name: Option<String>,
    /// The text of the attribute's argument, where that is one string literal.
    pub literal: Option<String>,
}

/// The fields of a variant.
#[derive(Debug, Clone, PartialEq, Eq)]
pub enum Fields {
    /// No fields: `NotFound`.
    Unit,
    /// Fields without names, by their number: `OutOfRange(i32, i32)`.
    Unnamed(usize),
    /// Fields with names, in the order of their declaration:
    /// `MissingField { name: String }`.
    Named(Vec<String>),
}

/// A variant of the enum.
#[derive(Debug, Clone, PartialEq, Eq)]
pub struct Variant {
    pub ident: String,
    pub attrs: Vec<Attribute>,
    pub fields: Fields,
}

/// What kind of item the derive was put on.
#[derive(Debug, Clone, PartialEq, Eq)]
pub enum Data {
    Enum(Vec<Variant>),
    Struct,
    Union,
}

/// The item that the derive was put on.
#[derive(Debug, Clone, PartialEq, Eq)]
pub struct DeriveInput {
    pub ident: String,
    pub data: Data,
}

/// Why nothing can be derived.
#[derive(Debug, Clone, Copy, PartialEq, Eq)]
pub enum DeriveError {
    /// The item is a struct or a union.
    NotAnEnum,
    /// The variant at this position has no `i18n` attribute.
    MissingAttribute { variant: usize },
    /// The argument of the `i18n` attribute of the variant at this position is
    /// not a string literal.
    KeyNotLiteral { variant: usize },
}

/// The names that an arm binds the fields of its variant to.
#[derive(Debug, Clone, PartialEq, Eq)]
pub enum Binding {
    /// Nothing to bind: the variant has no fields, and no parameters.
    Unit,
    /// One variable for each unnamed field: `v0`, `v1`, and so on.
    Tuple(Vec<String>),
    /// The names of the named fields, in the order of their declaration.
    Struct(Vec<String>),
}

/// The arm of one variant, as both generated methods match on it.
#[derive(Debug, Clone, PartialEq, Eq)]
pub struct Arm {
    pub variant: String,
    /// What `get_key` gives for the variant.
    pub key: String,
    /// What `get_param` binds, and so what it gives for the variant.
    pub binding: Binding,
}

/// The derived implementation: the enum's name and one arm for each variant,
/// in the order of their declaration.
#[derive(Debug, Clone, PartialEq, Eq)]
pub struct I18nImpl {
    pub enum_name: String,
    pub arms: Vec<Arm>,
}

/// The parameters of a variant with fields: the values of the fields, with
/// their names where the fields have names.
#[derive(Debug, PartialEq, Eq)]
pub enum I18nParam<'a, T> {
    Tuple(Vec<T>),
    Struct(Vec<(&'a str, T)>),
}

/// Why a variant's name and field values are no value of the enum.
#[derive(Debug, Clone, Copy, PartialEq, Eq)]
pub enum ValueError {
    /// The enum has no variant of that name.
    UnknownVariant,
    /// The variant has another number of fields.
    FieldCount,
}

/// The character that stands for a digit below ten.
pub open spec fn digit_char(d: nat) -> char {
    (('0' as u8) + d) as char
}

/// A number in decimal notation, without leading zeros.
pub open spec fn decimal(n: nat) -> Seq<char>
    decreases n,
{
    if n < 10 {
        seq![digit_char(n)]
    } else {
        decimal(n / 10).push(digit_char(n % 10))
    }
}

/// The name of the variable that the unnamed field at `position` is bound to.
pub open spec fn var_name(position: nat) -> Seq<char> {
    seq!['v'] + decimal(position)
}

/// Whether the attribute is named `i18n`.
pub open spec fn is_i18n(a: Attribute) -> bool {
    a.name matches Some(name) && name@ == "i18n"@
}

/// Whether the attribute at position `i` is the first one named `i18n`.
pub open spec fn first_i18n_at(attrs: Seq<Attribute>, i: int) -> bool {
    &&& 0 <= i < attrs.len()
    &&& is_i18n(attrs[i])
    &&& forall|j: int| 0 <= j < i ==> !is_i18n(#[trigger] attrs[j])
}

/// Whether one of the attributes is named `i18n`.
pub open spec fn has_i18n(attrs: Seq<Attribute>) -> bool {
    exists|i: int| 0 <= i < attrs.len() && is_i18n(#[trigger] attrs[i])
}

/// The error that a variant at position `at` causes, if it causes one: its
/// first `i18n` attribute decides, and must hold a string literal.
pub open spec fn variant_error(v: Variant, at: usize) -> Option<DeriveError> {
    if !has_i18n(v.attrs@) {
        Some(DeriveError::MissingAttribute { variant: at })
    } else {
        let first = choose|i: int| first_i18n_at(v.attrs@, i);
        if v.attrs@[first].literal is None {
            Some(DeriveError::KeyNotLiteral { variant: at })
        } else {
            None
        }
    }
}

/// The translation key of a variant: the string literal in its first `i18n`
/// attribute.
pub open spec fn key_text(v: Variant) -> Seq<char> {
    let first = choose|i: int| first_i18n_at(v.attrs@, i);
    v.attrs@[first].literal.unwrap()@
}

/// Whether `binding` is what an arm binds for a variant with these fields.
pub open spec fn binding_for(binding: Binding, fields: Fields) -> bool {
    match fields {
        Fields::Unit => binding is Unit,
        Fields::Unnamed(count) => binding matches Binding::Tuple(vars) && vars.len() == count
            && forall|i: int| 0 <= i < count ==> (#[trigger] vars[i])@ == var_name(i as nat),
        Fields::Named(names) => binding matches Binding::Struct(bound) && bound.len()
            == names.len() && forall|i: int|
            0 <= i < names.len() ==> (#[trigger] bound[i])@ == names[i]@,
    }
}

/// Whether `arm` is the arm of the variant `v`.
pub open spec fn arm_for(arm: Arm, v: Variant) -> bool {
    &&& arm.variant@ == v.ident@
    &&& arm.key@ == key_text(v)
    &&& binding_for(arm.binding, v.fields)
}

/// Whether `imp` is the implementation derived for the enum `name` with these
/// variants: one arm for each variant, in the same order.
pub open spec fn derived_from(imp: I18nImpl, name: Seq<char>, variants: Seq<Variant>) -> bool {
    &&& imp.enum_name@ == name
    &&& imp.arms.len() == variants.len()
    &&& forall|i: int| 0 <= i < variants.len() ==> arm_for(#[trigger] imp.arms[i], variants[i])
}

/// Whether the variant at position `at` is the first one that causes an error.
pub open spec fn first_error_at(variants: Seq<Variant>, at: usize) -> bool {
    &&& at < variants.len()
    &&& variant_error(variants[at as int], at) is Some
    &&& forall|j: int| 0 <= j < at ==> variant_error(#[trigger] variants[j], j as usize) is None
}

/// What deriving gives for `input`: an error for an item that is no enum and
/// for the first variant without a usable `i18n` attribute, the derived
/// implementation otherwise.
pub open spec fn derive_result(input: DeriveInput, result: Result<I18nImpl, DeriveError>) -> bool {
    match input.data {
        Data::Enum(variants) => match result {
            Ok(imp) => derived_from(imp, input.ident@, variants@) && forall|j: int|
                0 <= j < variants.len() ==> variant_error(#[trigger] variants[j], j as usize)
                    is None,
            Err(e) => match e {
                DeriveError::NotAnEnum => false,
                DeriveError::MissingAttribute { variant } | DeriveError::KeyNotLiteral {
                    variant,
                } => first_error_at(variants@, variant) && Some(e) == variant_error(
                    variants[variant as int],
                    variant,
                ),
            },
        },
        _ => result == Err::<I18nImpl, DeriveError>(DeriveError::NotAnEnum),
    }
}

/// Whether the arm at position `i` is the first one for the variant `name`:
/// the arm that a `match` on a value of that variant takes.
pub open spec fn arm_taken(arms: Seq<Arm>, name: Seq<char>, i: int) -> bool {
    &&& 0 <= i < arms.len()
    &&& arms[i].variant@ == name
    &&& forall|j: int| 0 <= j < i ==> (#[trigger] arms[j]).variant@ != name
}

/// Whether one of the arms is for the variant `name`.
pub open spec fn has_arm(arms: Seq<Arm>, name: Seq<char>) -> bool {
    exists|i: int| 0 <= i < arms.len() && (#[trigger] arms[i]).variant@ == name
}

/// How many fields a value must have for the arm to bind them.
pub open spec fn field_count(binding: Binding) -> nat {
    match binding {
        Binding::Unit => 0,
        Binding::Tuple(vars) => vars@.len(),
        Binding::Struct(names) => names@.len(),
    }
}

/// Whether `param` is what an arm with this binding gives for these field
/// values: nothing for a variant without fields, the values in their order for
/// unnamed fields, each value with its field's name for named fields.
pub open spec fn param_for<T>(binding: Binding, fields: Seq<T>, param: Option<I18nParam<T>>) -> bool {
    match binding {
        Binding::Unit => param is None,
        Binding::Tuple(vars) => param matches Some(I18nParam::Tuple(values)) && values@ == fields,
        Binding::Struct(names) => param matches Some(I18nParam::Struct(pairs)) && pairs.len()
            == fields.len() && forall|i: int|
            0 <= i < fields.len() ==> (#[trigger] pairs[i]).0@ == names[i]@ && pairs[i].1
                == fields[i],
    }
}

/// Whether the variant at position `i` is the first one named `name`.
pub open spec fn first_variant_at(variants: Seq<Variant>, name: Seq<char>, i: int) -> bool {
    &&& 0 <= i < variants.len()
    &&& variants[i].ident@ == name
    &&& forall|j: int| 0 <= j < i ==> (#[trigger] variants[j]).ident@ != name
}

/// A value takes the arm that was derived from its variant: in the derived
/// implementation, the first arm for a name stands where the first variant of
/// that name stands, and holds that variant's key.
pub proof fn lemma_arm_taken_is_of_variant(
    imp: I18nImpl,
    name: Seq<char>,
    variants: Seq<Variant>,
    variant: Seq<char>,
    i: int,
)
    requires
        derived_from(imp, name, variants),
    ensures
        arm_taken(imp.arms@, variant, i) <==> first_variant_at(variants, variant, i),
        arm_taken(imp.arms@, variant, i) ==> imp.arms@[i].key@ == key_text(variants[i]),
        has_arm(imp.arms@, variant) <==> exists|j: int|
            0 <= j < variants.len() && (#[trigger] variants[j]).ident@ == variant,
{
    assert forall|j: int| 0 <= j < variants.len() implies (#[trigger] imp.arms@[j]).variant@
        == variants[j].ident@ by {
        assert(arm_for(imp.arms[j], variants[j]));
    }
    if arm_taken(imp.arms@, variant, i) {
        assert(arm_for(imp.arms[i], variants[i]));
        assert forall|j: int| 0 <= j < i implies (#[trigger] variants[j]).ident@ != variant by {
            assert(imp.arms@[j].variant@ == variants[j].ident@);
        }
    }
    if first_variant_at(variants, variant, i) {
        assert forall|j: int| 0 <= j < i implies (#[trigger] imp.arms@[j]).variant@ != variant by {
            assert(imp.arms@[j].variant@ == variants[j].ident@);
        }
    }
    if has_arm(imp.arms@, variant) {
        let j = choose|j: int| 0 <= j < imp.arms@.len() && (#[trigger] imp.arms@[j]).variant@ == variant;
        assert(variants[j].ident@ == variant);
    }
    if exists|j: int| 0 <= j < variants.len() && (#[trigger] variants[j]).ident@ == variant {
        let j = choose|j: int| 0 <= j < variants.len() && (#[trigger] variants[j]).ident@ == variant;
        assert(imp.arms@[j].variant@ == variant);
    }
}

/// Appends `n` in decimal notation to `out`.
pub fn push_decimal(out: &mut String, n: usize)
    ensures
        final(out)@ == old(out)@ + decimal(n as nat),
    decreases n,
{
    if n >= 10 {
        push_decimal(out, n / 10);
    }
    let digit = (n % 10) as u8;
    out.push((('0' as u8) + digit) as char);
    assert(out@ =~= old(out)@ + decimal(n as nat));
}

/// Names the variable for the unnamed field at `position`: `v0`, `v1`, ...
pub fn var_ident(position: usize) -> (name: String)
    ensures
        name@ == var_name(position as nat),
{
    let mut name = String::new();
    name.push('v');
    push_decimal(&mut name, position);
    assert(name@ =~= var_name(position as nat));
    name
}

/// Copies a list of names.
pub fn copy_names(names: &Vec<String>) -> (copy: Vec<String>)
    ensures
        copy.len() == names.len(),
        forall|i: int| 0 <= i < names.len() ==> (#[trigger] copy[i])@ == names[i]@,
{
    let mut copy: Vec<String> = Vec::new();
    let mut i: usize = 0;
    while i < names.len()
        invariant
            i <= names.len(),
            copy.len() == i,
            forall|j: int| 0 <= j < i ==> (#[trigger] copy[j])@ == names[j]@,
        decreases names.len() - i,
    {
        copy.push(names[i].clone());
        i = i + 1;
    }
    copy
}

/// Finds the first attribute that is named `i18n`.
pub fn find_i18n(attrs: &Vec<Attribute>) -> (found: Option<usize>)
    ensures
        match found {
            Some(i) => first_i18n_at(attrs@, i as int),
            None => !has_i18n(attrs@),
        },
{
    let mut i: usize = 0;
    while i < attrs.len()
        invariant
            i <= attrs.len(),
            forall|j: int| 0 <= j < i ==> !is_i18n(#[trigger] attrs@[j]),
        decreases attrs.len() - i,
    {
        let named = match &attrs[i].name {
            Some(name) => same_text(name.as_str(), "i18n"),
            None => false,
        };
        if named {
            return Some(i);
        }
        i = i + 1;
    }
    None
}

/// What an arm binds for a variant with these fields.
pub fn binding_of(fields: &Fields) -> (binding: Binding)
    ensures
        binding_for(binding, *fields),
{
    match fields {
        Fields::Unit => Binding::Unit,
        Fields::Unnamed(count) => {
            let mut vars: Vec<String> = Vec::new();
            let mut i: usize = 0;
            while i < *count
                invariant
                    i <= *count,
                    vars.len() == i,
                    forall|j: int| 0 <= j < i ==> (#[trigger] vars[j])@ == var_name(j as nat),
                decreases *count - i,
            {
                vars.push(var_ident(i));
                i = i + 1;
            }
            Binding::Tuple(vars)
        },
        Fields::Named(names) => Binding::Struct(copy_names(names)),
    }
}

/// Derives the arm of the variant at position `at`.
pub fn derive_arm(v: &Variant, at: usize) -> (result: Result<Arm, DeriveError>)
    ensures
        match result {
            Ok(arm) => variant_error(*v, at) is None && arm_for(arm, *v),
            Err(e) => variant_error(*v, at) == Some(e),
        },
{
    match find_i18n(&v.attrs) {
        Some(i) => {
            proof {
                let first = choose|k: int| first_i18n_at(v.attrs@, k);
                assert(first_i18n_at(v.attrs@, i as int));
                assert(first == i);
            }
            match &v.attrs[i].literal {
                Some(key) => Ok(
                    Arm { variant: v.ident.clone(), key: key.clone(), binding: binding_of(&v.fields) },
                ),
                None => Err(DeriveError::KeyNotLiteral { variant: at }),
            }
        },
        None => Err(DeriveError::MissingAttribute { variant: at }),
    }
}

/// Derives the implementation for the item `input`: one arm for each variant
/// of the enum, with the key of its `i18n` attribute and the binding of its
/// fields.
///
/// Fails for an item that is no enum, and at the first variant that has no
/// `i18n` attribute or whose `i18n` attribute holds no string literal.
pub fn derive_i18n_error(input: &DeriveInput) -> (result: Result<I18nImpl, DeriveError>)
    ensures
        derive_result(*input, result),
{
    match &input.data {
        Data::Enum(variants) => {
            let mut arms: Vec<Arm> = Vec::new();
            let mut i: usize = 0;
            while i < variants.len()
                invariant
                    input.data == Data::Enum(*variants),
                    i <= variants.len(),
                    arms.len() == i,
                    forall|j: int| 0 <= j < i ==> arm_for(#[trigger] arms[j], variants[j]),
                    forall|j: int|
                        0 <= j < i ==> variant_error(#[trigger] variants[j], j as usize) is None,
                decreases variants.len() - i,
            {
                match derive_arm(&variants[i], i) {
                    Ok(arm) => {
                        arms.push(arm);
                    },
                    Err(e) => {
                        assert(first_error_at(variants@, i));
                        return Err(e);
                    },
                }
                i = i + 1;
            }
            Ok(I18nImpl { enum_name: input.ident.clone(), arms })
        },
        _ => Err(DeriveError::NotAnEnum),
    }
}

impl I18nImpl {
    /// Finds the arm that a value of the variant `variant` takes.
    pub fn find_arm(&self, variant: &str) -> (found: Option<usize>)
        ensures
            match found {
                Some(i) => arm_taken(self.arms@, variant@, i as int),
                None => !has_arm(self.arms@, variant@),
            },
    {
        let mut i: usize = 0;
        while i < self.arms.len()
            invariant
                i <= self.arms.len(),
                forall|j: int| 0 <= j < i ==> (#[trigger] self.arms@[j]).variant@ != variant@,
            decreases self.arms.len() - i,
        {
            if same_text(self.arms[i].variant.as_str(), variant) {
                return Some(i);
            }
            i = i + 1;
        }
        None
    }

    /// The translation key of a value of the variant `variant`; nothing where
    /// the enum has no such variant.
    pub fn get_key(&self, variant: &str) -> (key: Option<&str>)
        ensures
            match key {
                Some(text) => exists|i: int|
                    arm_taken(self.arms@, variant@, i) && text@ == self.arms@[i].key@,
                None => !has_arm(self.arms@, variant@),
            },
    {
        match self.find_arm(variant) {
            Some(i) => Some(self.arms[i].key.as_str()),
            None => None,
        }
    }

    /// The parameters of a value of the variant `variant` whose fields hold
    /// `fields`: nothing for a variant without fields, the values in their
    /// order for unnamed fields, each value with the name of its field for
    /// named fields.
    ///
    /// Fails where the enum has no such variant, and where the variant has
    /// another number of fields.
    pub fn get_param<T>(&self, variant: &str, fields: Vec<T>) -> (result: Result<
        Option<I18nParam<'_, T>>,
        ValueError,
    >)
        ensures
            match result {
                Ok(param) => exists|i: int|
                    arm_taken(self.arms@, variant@, i) && field_count(self.arms@[i].binding)
                        == fields.len() && param_for(self.arms@[i].binding, fields@, param),
                Err(ValueError::UnknownVariant) => !has_arm(self.arms@, variant@),
                Err(ValueError::FieldCount) => exists|i: int|
                    arm_taken(self.arms@, variant@, i) && field_count(self.arms@[i].binding)
                        != fields.len(),
            },
    {
        let at = match self.find_arm(variant) {
            Some(i) => i,
            None => {
                return Err(ValueError::UnknownVariant);
            },
        };
        match &self.arms[at].binding {
            Binding::Unit => {
                if fields.len() != 0 {
                    return Err(ValueError::FieldCount);
                }
                Ok(None)
            },
            Binding::Tuple(vars) => {
                if fields.len() != vars.len() {
                    return Err(ValueError::FieldCount);
                }
                Ok(Some(I18nParam::Tuple(fields)))
            },
            Binding::Struct(names) => {
                if fields.len() != names.len() {
                    return Err(ValueError::FieldCount);
                }
                let mut pairs: Vec<(&str, T)> = Vec::new();
                let ghost given = fields@;
                for value in it: fields
                    invariant
                        it.seq() == given,
                        given.len() == names.len(),
                        pairs.len() == it.index(),
                        forall|j: int|
                            0 <= j < it.index() ==> (#[trigger] pairs[j]).0@ == names[j]@
                                && pairs[j].1 == given[j],
                {
                    let name = names[pairs.len()].as_str();
                    pairs.push((name, value));
                }
                Ok(Some(I18nParam::Struct(pairs)))
            },
        }
    }
}

} // verus!
