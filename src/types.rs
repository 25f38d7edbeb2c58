use vstd::prelude::*;

use crate::text::{push_nat_decimal, push_str, spec_nat_decimal};

verus! {

/// The primitive types of the language.
#[derive(Debug, Clone, Copy, PartialEq, Eq, Structural)]
pub enum BaseType {
    Int,
    Bool,
    Color,
    Float,
}

/// A type: a primitive or a fixed-size array, possibly const.
#[derive(Debug)]
pub struct Type {
    pub name: TypeName,
    pub is_const: bool,
}

/// The shape of a type. An array's element type is unknown (`None`) for the
/// empty array literal.
#[derive(Debug)]
pub enum TypeName {
    Primitive(BaseType),
    Array(Box<Option<Type>>, usize),
}

/// Assignability: anything between non-arrays; between arrays of equal size
/// when either element type is unknown, or both are known and assignable.
pub open spec fn spec_can_assign(target: Type, source: Type) -> bool
    decreases target,
{
    match target.name {
        TypeName::Array(t1, size1) => match source.name {
            TypeName::Array(t2, size2) => {
                if size1 != size2 {
                    false
                } else if t1.is_none() || t2.is_none() {
                    true
                } else {
                    spec_can_assign(t1.unwrap(), t2.unwrap())
                }
            },
            _ => false,
        },
        _ => true,
    }
}

impl Clone for TypeName {
    fn clone(&self) -> (r: Self)
        ensures
            r == *self,
        decreases self,
    {
        match self {
            TypeName::Primitive(b) => TypeName::Primitive(*b),
            TypeName::Array(inner, size) => {
                let inner_clone = match &**inner {
                    Some(t) => Some(t.clone()),
                    None => None,
                };
                TypeName::Array(Box::new(inner_clone), *size)
            },
        }
    }
}

impl Clone for Type {
    fn clone(&self) -> (r: Self)
        ensures
            r == *self,
        decreases self,
    {
        Type { name: self.name.clone(), is_const: self.is_const }
    }
}

impl PartialEq for TypeName {
    fn eq(&self, o: &TypeName) -> (r: bool)
        decreases self,
    {
        match (self, o) {
            (TypeName::Primitive(a), TypeName::Primitive(b)) => *a == *b,
            (TypeName::Array(t1, s1), TypeName::Array(t2, s2)) => {
                if *s1 != *s2 {
                    false
                } else {
                    match (&**t1, &**t2) {
                        (None, None) => true,
                        (Some(a), Some(b)) => a.eq(b),
                        _ => false,
                    }
                }
            },
            _ => false,
        }
    }
}

impl vstd::std_specs::cmp::PartialEqSpecImpl for TypeName {
    open spec fn obeys_eq_spec() -> bool {
        true
    }

    open spec fn eq_spec(&self, o: &TypeName) -> bool {
        *self == *o
    }
}

impl PartialEq for Type {
    fn eq(&self, o: &Type) -> (r: bool)
        decreases self,
    {
        self.is_const == o.is_const && self.name.eq(&o.name)
    }
}

impl vstd::std_specs::cmp::PartialEqSpecImpl for Type {
    open spec fn obeys_eq_spec() -> bool {
        true
    }

    open spec fn eq_spec(&self, o: &Type) -> bool {
        *self == *o
    }
}

impl Type {
    pub fn typ(t: BaseType) -> (r: Type)
        ensures
            r == (Type { name: TypeName::Primitive(t), is_const: false }),
    {
        Type { name: TypeName::Primitive(t), is_const: false }
    }

    pub fn can_assign(&self, t: &Type) -> (r: bool)
        ensures
            r == spec_can_assign(*self, *t),
        decreases self,
    {
        match &self.name {
            TypeName::Array(t1, size1) => match &t.name {
                TypeName::Array(t2, size2) => {
                    if *size1 != *size2 {
                        false
                    } else {
                        match (&**t1, &**t2) {
                            (_, None) => true,
                            (None, Some(_)) => true,
                            (Some(a), Some(b)) => a.can_assign(b),
                        }
                    }
                },
                _ => false,
            },
            _ => true,
        }
    }
}

/// The name of a primitive type.
pub open spec fn spec_base_str(b: BaseType) -> Seq<char> {
    match b {
        BaseType::Int => "int"@,
        BaseType::Bool => "bool"@,
        BaseType::Color => "color"@,
        BaseType::Float => "float"@,
    }
}

/// How a type shape is written: `int`, or `array<element,size>` with `()`
/// for an unknown element type.
pub open spec fn spec_type_name_str(t: TypeName) -> Seq<char>
    decreases t,
{
    match t {
        TypeName::Primitive(b) => spec_base_str(b),
        TypeName::Array(inner, size) => "array<"@ + match *inner {
            Some(i) => spec_type_str(i),
            None => "()"@,
        } + ","@ + spec_nat_decimal(size as nat) + ">"@,
    }
}

/// How a type is written: `const` or nothing, a space, then its shape.
pub open spec fn spec_type_str(t: Type) -> Seq<char>
    decreases t,
{
    (if t.is_const { "const"@ } else { ""@ }) + " "@ + spec_type_name_str(t.name)
}

impl BaseType {
    pub fn to_string(&self) -> (r: String)
        ensures
            r@ == spec_base_str(*self),
    {
        match self {
            BaseType::Int => String::from_str("int"),
            BaseType::Bool => String::from_str("bool"),
            BaseType::Color => String::from_str("color"),
            BaseType::Float => String::from_str("float"),
        }
    }
}

impl TypeName {
    pub fn to_string(&self) -> (r: String)
        ensures
            r@ == spec_type_name_str(*self),
        decreases self,
    {
        match self {
            TypeName::Primitive(b) => b.to_string(),
            TypeName::Array(inner, size) => {
                let mut s = String::from_str("array<");
                match &**inner {
                    Some(t) => {
                        let ts = t.to_string();
                        push_str(&mut s, ts.as_str());
                    },
                    None => push_str(&mut s, "()"),
                }
                push_str(&mut s, ",");
                push_nat_decimal(&mut s, *size as u64);
                push_str(&mut s, ">");
                proof {
                    assert(s@ =~= spec_type_name_str(*self));
                }
                s
            },
        }
    }
}

impl Type {
    pub fn to_string(&self) -> (r: String)
        ensures
            r@ == spec_type_str(*self),
        decreases self,
    {
        let mut s = if self.is_const { String::from_str("const") } else { String::new() };
        push_str(&mut s, " ");
        let n = self.name.to_string();
        push_str(&mut s, n.as_str());
        proof {
            reveal_strlit("");
            assert(s@ =~= spec_type_str(*self));
        }
        s
    }
}

} // verus!
