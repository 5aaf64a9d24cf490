use vstd::prelude::*;

use crate::ast::{
    element_type, rust_name, ArraySize, ArrayType, BasicType, Enum, EnumVariant, Node, Struct,
    StructField, Typedef, Union, UnionCase, UnionDefault,
};
use crate::emit::{aborted, done, emit_all, fail, seq_emit, wrote, Emit, Error, Fault, Outcome};
use crate::index::{AstType, ConstantIndex, GenericIndex, TypeIndex};
use crate::text::{decimal, parse_u32, push_decimal, push_safe_name, safe_name, u32_from_decimal};

verus! {

/// Whether a named type is decoded through its own `try_from`, or resolved
/// through the type index first.
pub enum TypeResolve {
    Skip,
    ChaseTypedefs,
}

impl TypeResolve {
    pub open spec fn skips(self) -> bool {
        self is Skip
    }

    fn skip_resolve(&self) -> (b: bool)
        ensures
            b == self.skips(),
    {
        match self {
            Self::Skip => true,
            Self::ChaseTypedefs => false,
        }
    }
}

// ---------------------------------------------------------------------------
// What is printed
// ---------------------------------------------------------------------------

/// The decoder expression for `t`, a named type decoded by its own `try_from`.
pub open spec fn basic_direct(t: BasicType) -> Seq<char> {
    match t {
        BasicType::U32 => "v.try_u32()"@,
        BasicType::U64 => "v.try_u64()"@,
        BasicType::I32 => "v.try_i32()"@,
        BasicType::I64 => "v.try_i64()"@,
        BasicType::F32 => "v.try_f32()"@,
        BasicType::F64 => "v.try_f64()"@,
        BasicType::Bool => "v.try_bool()"@,
        BasicType::String => "v.try_string(None)"@,
        BasicType::Opaque => "v.try_variable_bytes(None)"@,
        BasicType::Ident(c) => c@ + "::try_from(v)"@,
    }
}

/// The type a name is an alias of, where the index binds it to a basic type.
pub open spec fn alias_step(idx: Map<Seq<char>, AstType>, t: BasicType) -> Option<BasicType> {
    match t {
        BasicType::Ident(c) => if idx.contains_key(c@) {
            match idx[c@] {
                AstType::Basic(b) => Some(b),
                _ => None,
            }
        } else {
            None
        },
        _ => None,
    }
}

/// Follows basic-type aliases from `t` for at most `fuel` steps; `None` if
/// the chain is longer.
pub open spec fn chase(idx: Map<Seq<char>, AstType>, t: BasicType, fuel: nat) -> Option<BasicType>
    decreases fuel,
{
    match alias_step(idx, t) {
        None => Some(t),
        Some(b) => if fuel == 0 {
            None
        } else {
            chase(idx, b, (fuel - 1) as nat)
        },
    }
}

/// The chain of basic-type aliases from `t` ends (it has no cycle).
pub open spec fn chase_ends(idx: Map<Seq<char>, AstType>, t: BasicType) -> bool {
    exists|f: nat| #[trigger] chase(idx, t, f) is Some
}

/// Where the chain of basic-type aliases from `t` ends.
pub open spec fn chased(idx: Map<Seq<char>, AstType>, t: BasicType) -> BasicType {
    chase(idx, t, choose|f: nat| #[trigger] chase(idx, t, f) is Some).unwrap()
}

/// The decoder expression for `t`, resolved through the type index: aliases of
/// basic types are followed, and a typedef is decoded as its target (one level).
pub open spec fn decode_resolved(idx: Map<Seq<char>, AstType>, t: BasicType) -> Emit {
    if !chase_ends(idx, t) {
        aborted()
    } else {
        let r = chased(idx, t);
        match r {
            BasicType::Ident(c) => if idx.contains_key(c@) {
                match idx[c@] {
                    AstType::Struct(s) => done(s.name@ + "::try_from(v)"@),
                    AstType::Union(u) => done(u.name@ + "::try_from(v)"@),
                    AstType::Enum(e) => done(e.name@ + "::try_from(v)"@),
                    AstType::Typedef(td) => done(basic_direct(td.target)),
                    // The chase goes on past a basic alias, so never stops at one.
                    AstType::Basic(_) => aborted(),
                }
            } else {
                fail(Fault::Message("unresolvable type "@ + c@))
            },
            _ => done(basic_direct(r)),
        }
    }
}

/// What `print_decode_basic_type` writes.
pub open spec fn decode_basic(idx: Map<Seq<char>, AstType>, t: BasicType, resolve: TypeResolve) -> Emit {
    if resolve.skips() {
        done(basic_direct(t))
    } else {
        decode_resolved(idx, t)
    }
}

/// One element of a fixed-size array: its decoder and separator.
pub open spec fn fixed_element(idx: Map<Seq<char>, AstType>, t: BasicType) -> Emit {
    seq_emit(decode_resolved(idx, t), done("?,\n"@))
}

/// `n` element decoders of a fixed-size array.
pub open spec fn fixed_elements(idx: Map<Seq<char>, AstType>, t: BasicType, n: nat) -> Emit {
    emit_all(Seq::new(n, |i: int| t), |b: BasicType| fixed_element(idx, b))
}

/// The decoder of a fixed-size array of `size` elements of type `t`.
pub open spec fn fixed_out(idx: Map<Seq<char>, AstType>, t: BasicType, size: u32) -> Emit {
    match t {
        BasicType::Opaque => done("v.try_bytes("@ + decimal(size as nat) + ")?"@),
        // A fixed-length string has no decoder: the generator panics.
        BasicType::String => aborted(),
        _ => seq_emit(done("[\n"@), seq_emit(fixed_elements(idx, t, size as nat), done("]"@))),
    }
}

/// The bound argument of a variable-size decoder.
pub open spec fn bound_text(size: Option<u32>) -> Seq<char> {
    match size {
        Some(n) => "Some("@ + decimal(n as nat) + ")"@,
        None => "None"@,
    }
}

/// The element type argument of a variable-size array decoder: generic types
/// take `<Bytes>`.
pub open spec fn element_arg(gen: Set<Seq<char>>, t: BasicType) -> Seq<char> {
    if gen.contains(rust_name(t)) {
        rust_name(t) + "<Bytes>"@
    } else {
        rust_name(t)
    }
}

/// The decoder of a length-prefixed array (or string, or opaque) of elements
/// of type `t`, with an optional maximum length.
pub open spec fn variable_out(gen: Set<Seq<char>>, t: BasicType, size: Option<u32>) -> Seq<char> {
    match t {
        BasicType::Opaque => "v.try_variable_bytes("@ + bound_text(size) + ")?"@,
        BasicType::String => "v.try_string("@ + bound_text(size) + ")?"@,
        _ => "v.try_variable_array::<"@ + element_arg(gen, t) + ">("@ + bound_text(size) + ")?"@,
    }
}

/// What `print_decode_array` writes for a field of type `t`; a size named by
/// a constant is looked up in `consts` and read as a `u32`.
pub open spec fn array_out(
    idx: Map<Seq<char>, AstType>,
    consts: Map<Seq<char>, Seq<char>>,
    gen: Set<Seq<char>>,
    t: ArrayType,
) -> Emit {
    match t {
        ArrayType::Scalar(b) => seq_emit(decode_resolved(idx, b), done("?"@)),
        ArrayType::FixedSize(b, ArraySize::Known(n)) => fixed_out(idx, b, n),
        ArrayType::FixedSize(b, ArraySize::Constant(c)) => if !consts.contains_key(c@) {
            fail(Fault::Message("unknown constant "@ + c@))
        } else {
            match u32_from_decimal(consts[c@]) {
                Ok(n) => fixed_out(idx, b, n),
                Err(k) => fail(Fault::BadInteger(k)),
            }
        },
        ArrayType::VariableSize(b, Some(ArraySize::Known(n))) => done(variable_out(gen, b, Some(n))),
        ArrayType::VariableSize(b, Some(ArraySize::Constant(c))) => if !consts.contains_key(c@) {
            fail(Fault::Message("unknown constant"@))
        } else {
            match u32_from_decimal(consts[c@]) {
                Ok(n) => done(variable_out(gen, b, Some(n))),
                Err(k) => fail(Fault::BadInteger(k)),
            }
        },
        ArrayType::VariableSize(b, None) => done(variable_out(gen, b, None)),
    }
}

/// The typedef that the element type of a field names, if any.
pub open spec fn typedef_of(idx: Map<Seq<char>, AstType>, t: BasicType) -> Option<Typedef> {
    match t {
        BasicType::Ident(i) => if idx.contains_key(i@) {
            match idx[i@] {
                AstType::Typedef(td) => Some(td),
                _ => None,
            }
        } else {
            None
        },
        _ => None,
    }
}

/// The decoder of an optional field (`type *name`) whose element type is `t`.
pub open spec fn optional_text(t: BasicType) -> Seq<char> {
    "{ match v.try_u32()? {\n"@ + "0 => None,\n"@ + "1 => Some(Box::new("@ + rust_name(t)
        + "::try_from(v)?)),\n"@ + "d => return Err(Error::UnknownOptionVariant(d)),\n"@
        + "}},\n"@
}

/// One field initialiser of a struct decoder. A field whose element type names
/// a typedef is decoded through the typedef's own `try_from`.
pub open spec fn field_out(
    idx: Map<Seq<char>, AstType>,
    consts: Map<Seq<char>, Seq<char>>,
    gen: Set<Seq<char>>,
    f: StructField,
) -> Emit {
    seq_emit(
        done(safe_name(f.field_name@) + ": "@),
        if f.is_optional {
            done(optional_text(element_type(f.field_value)))
        } else {
            match typedef_of(idx, element_type(f.field_value)) {
                Some(td) => done(basic_direct(td.alias) + "?,\n"@),
                None => seq_emit(array_out(idx, consts, gen, f.field_value), done(",\n"@)),
            }
        },
    )
}

/// The body of the decoder of a struct.
pub open spec fn struct_body(
    idx: Map<Seq<char>, AstType>,
    consts: Map<Seq<char>, Seq<char>>,
    gen: Set<Seq<char>>,
    s: Struct,
) -> Emit {
    seq_emit(
        done("Ok("@ + s.name@ + " {\n"@),
        seq_emit(
            emit_all(s.fields@, |f: StructField| field_out(idx, consts, gen, f)),
            done("})\n"@),
        ),
    )
}

/// The pattern for a case value: a declared constant stands for its value.
pub open spec fn matcher(consts: Map<Seq<char>, Seq<char>>, value: Seq<char>) -> Seq<char> {
    if consts.contains_key(value) {
        consts[value]
    } else {
        value
    }
}

/// The match arm of one case value of a union arm.
pub open spec fn case_value_out(
    idx: Map<Seq<char>, AstType>,
    consts: Map<Seq<char>, Seq<char>>,
    gen: Set<Seq<char>>,
    c: UnionCase,
    value: String,
) -> Emit {
    seq_emit(
        done(safe_name(matcher(consts, value@)) + " => Self::"@ + c.field_name@ + "("@),
        seq_emit(array_out(idx, consts, gen, c.field_value), done("),\n"@)),
    )
}

/// The match arms of a union arm, one per case value.
pub open spec fn case_out(
    idx: Map<Seq<char>, AstType>,
    consts: Map<Seq<char>, Seq<char>>,
    gen: Set<Seq<char>>,
    c: UnionCase,
) -> Emit {
    emit_all(c.case_values@, |v: String| case_value_out(idx, consts, gen, c, v))
}

/// The match arm of a void case value; `default` becomes the wildcard.
pub open spec fn void_line(value: Seq<char>) -> Seq<char> {
    (if value == "default"@ {
        "_"@
    } else {
        value
    }) + " => Self::Void,\n"@
}

/// The last match arm of a union decoder: the default arm, or an error for an
/// unknown discriminant.
pub open spec fn default_out(
    idx: Map<Seq<char>, AstType>,
    consts: Map<Seq<char>, Seq<char>>,
    gen: Set<Seq<char>>,
    d: Option<UnionDefault>,
) -> Emit {
    match d {
        Some(d) => seq_emit(
            done("_ => Self::"@ + safe_name(d.field_name@) + "("@),
            seq_emit(array_out(idx, consts, gen, d.field_value), done("),\n"@)),
        ),
        None => done("d => return Err(Error::UnknownVariant(d as i32)),\n"@),
    }
}

/// The body of the decoder of a union.
pub open spec fn union_body(
    idx: Map<Seq<char>, AstType>,
    consts: Map<Seq<char>, Seq<char>>,
    gen: Set<Seq<char>>,
    u: Union,
) -> Emit {
    let var = safe_name(u.switch.var_name@);
    seq_emit(
        done("let "@ + var + " = "@),
        seq_emit(
            decode_resolved(idx, u.switch.var_type),
            seq_emit(
                done("?;\n"@ + "Ok(match "@ + var + " {\n"@),
                seq_emit(
                    emit_all(u.cases@, |c: UnionCase| case_out(idx, consts, gen, c)),
                    seq_emit(
                        emit_all(u.void_cases@, |v: String| done(void_line(v@))),
                        seq_emit(default_out(idx, consts, gen, u.default), done("})\n"@)),
                    ),
                ),
            ),
        ),
    )
}

/// The match arm of one enum variant.
pub open spec fn variant_line(v: EnumVariant) -> Seq<char> {
    v.value@ + " => Self::"@ + v.name@ + ",\n"@
}

/// The body of the decoder of an enum.
pub open spec fn enum_body(e: Enum) -> Emit {
    seq_emit(
        done("Ok(match v.try_i32()? {\n"@),
        seq_emit(
            emit_all(e.variants@, |v: EnumVariant| done(variant_line(v))),
            done("d => return Err(Error::UnknownVariant(d as i32)),\n})\n"@),
        ),
    )
}

/// The body of the decoder of a typedef: the aliased type's decoder, wrapped.
pub open spec fn typedef_body(idx: Map<Seq<char>, AstType>, td: Typedef) -> Emit {
    seq_emit(done("Ok(Self("@), seq_emit(decode_resolved(idx, td.alias), done("?))\n"@)))
}

/// The opening of the `impl TryFrom<Bytes>` block for the type `name`; a
/// generic type is implemented for `name<Bytes>`.
pub open spec fn try_from_header(gen: Set<Seq<char>>, name: Seq<char>) -> Seq<char> {
    "impl TryFrom<Bytes> for "@ + name + (if gen.contains(name) {
        "<Bytes>"@
    } else {
        Seq::empty()
    }) + " {\ntype Error = Error;\n\nfn try_from(mut v: Bytes) -> Result<Self, Self::Error> {\n"@
}

/// An `impl TryFrom<Bytes>` block around a decoder body.
pub open spec fn try_from_out(gen: Set<Seq<char>>, name: Seq<char>, body: Emit) -> Emit {
    seq_emit(done(try_from_header(gen, name)), seq_emit(body, done("}\n}\n"@)))
}

/// What `print_impl_from` writes for `item`: a decoder for each struct, union,
/// enum and typedef, in order; nothing for constants.
pub open spec fn impl_from_out(
    idx: Map<Seq<char>, AstType>,
    consts: Map<Seq<char>, Seq<char>>,
    gen: Set<Seq<char>>,
    item: Node,
) -> Emit
    decreases item,
{
    match item {
        Node::EOF => done(Seq::empty()),
        Node::Root(v) => items_out(idx, consts, gen, v@),
        Node::Struct(s) => try_from_out(gen, s.name@, struct_body(idx, consts, gen, s)),
        Node::Union(u) => try_from_out(gen, u.name@, union_body(idx, consts, gen, u)),
        Node::Enum(e) => try_from_out(gen, e.name@, enum_body(e)),
        Node::Typedef(td) => try_from_out(gen, rust_name(td.alias), typedef_body(idx, td)),
        Node::Constant(_) => done(Seq::empty()),
        // Parts of definitions are never printed on their own: the generator panics.
        _ => aborted(),
    }
}

/// What `print_impl_from` writes for the items of a root node, in order.
pub open spec fn items_out(
    idx: Map<Seq<char>, AstType>,
    consts: Map<Seq<char>, Seq<char>>,
    gen: Set<Seq<char>>,
    items: Seq<Node>,
) -> Emit
    decreases items,
{
    if items.len() == 0 {
        done(Seq::empty())
    } else {
        seq_emit(
            items_out(idx, consts, gen, items.drop_last()),
            impl_from_out(idx, consts, gen, items.last()),
        )
    }
}

/// The decoder body that `print_try_from` wraps in an `impl TryFrom<Bytes>`.
pub enum TryFromBody<'a> {
    Struct(&'a Struct),
    Union(&'a Union),
    Enum(&'a Enum),
    Typedef(&'a Typedef),
}

/// What the body printer of `b` writes.
pub open spec fn body_out(
    idx: Map<Seq<char>, AstType>,
    consts: Map<Seq<char>, Seq<char>>,
    gen: Set<Seq<char>>,
    b: TryFromBody,
) -> Emit {
    match b {
        TryFromBody::Struct(s) => struct_body(idx, consts, gen, *s),
        TryFromBody::Union(u) => union_body(idx, consts, gen, *u),
        TryFromBody::Enum(e) => enum_body(*e),
        TryFromBody::Typedef(td) => typedef_body(idx, *td),
    }
}

/// `items_out` is the run of `impl_from_out` over the items.
pub proof fn lemma_items_out_all(
    idx: Map<Seq<char>, AstType>,
    consts: Map<Seq<char>, Seq<char>>,
    gen: Set<Seq<char>>,
    items: Seq<Node>,
)
    ensures
        items_out(idx, consts, gen, items) == emit_all(
            items,
            |n: Node| impl_from_out(idx, consts, gen, n),
        ),
    decreases items.len(),
{
    if items.len() > 0 {
        lemma_items_out_all(idx, consts, gen, items.drop_last());
    }
}

// ---------------------------------------------------------------------------
// Printers
// ---------------------------------------------------------------------------

/// The end of the chain of basic-type aliases from `t`.
fn resolve_alias<'a>(t: &'a BasicType, type_index: &'a TypeIndex) -> (r: &'a BasicType)
    requires
        chase_ends(type_index@, *t),
    ensures
        *r == chased(type_index@, *t),
        alias_step(type_index@, *r) is None,
{
    let ghost target = chased(type_index@, *t);
    let ghost mut fuel: nat = choose|f: nat| #[trigger] chase(type_index@, *t, f) is Some;
    let mut cur: &BasicType = t;
    loop
        invariant
            chase(type_index@, *cur, fuel) == Some(target),
        ensures
            *cur == target,
            alias_step(type_index@, *cur) is None,
        decreases fuel,
    {
        match cur {
            BasicType::Ident(c) => match type_index.get(c.as_str()) {
                Some(AstType::Basic(b)) => {
                    cur = b;
                    proof {
                        fuel = (fuel - 1) as nat;
                    }
                },
                _ => {
                    break ;
                },
            },
            _ => {
                break ;
            },
        }
    }
    cur
}

/// Generates the template required to decode `t` from a variable called `v`
/// that implements the reader trait.
///
/// If `t` is a typedef alias, the typedef chain is resolved to the underlying
/// type.
fn print_decode_basic_type(
    w: &mut String,
    t: &BasicType,
    type_index: &TypeIndex,
    resolve_typedefs: TypeResolve,
) -> (r: Result<(), Error>)
    requires
        !(decode_basic(type_index@, *t, resolve_typedefs).1 is Aborted),
    ensures
        wrote(old(w)@, final(w)@, r, decode_basic(type_index@, *t, resolve_typedefs)),
    decreases
            if resolve_typedefs.skips() {
                0nat
            } else {
                1nat
            },
{
    let resolved = if resolve_typedefs.skip_resolve() {
        t
    } else {
        resolve_alias(t, type_index)
    };
    match resolved {
        BasicType::U32 => w.append("v.try_u32()"),
        BasicType::U64 => w.append("v.try_u64()"),
        BasicType::I32 => w.append("v.try_i32()"),
        BasicType::I64 => w.append("v.try_i64()"),
        BasicType::F32 => w.append("v.try_f32()"),
        BasicType::F64 => w.append("v.try_f64()"),
        BasicType::Bool => w.append("v.try_bool()"),
        BasicType::String => w.append("v.try_string(None)"),
        BasicType::Opaque => w.append("v.try_variable_bytes(None)"),
        BasicType::Ident(c) => {
            if resolve_typedefs.skip_resolve() {
                w.append(c.as_str());
                w.append("::try_from(v)");
            } else {
                match type_index.get(c.as_str()) {
                    Some(AstType::Struct(s)) => {
                        w.append(s.name.as_str());
                        w.append("::try_from(v)");
                    },
                    Some(AstType::Union(u)) => {
                        w.append(u.name.as_str());
                        w.append("::try_from(v)");
                    },
                    Some(AstType::Enum(e)) => {
                        w.append(e.name.as_str());
                        w.append("::try_from(v)");
                    },
                    Some(AstType::Typedef(td)) => {
                        return print_decode_basic_type(w, &td.target, type_index, TypeResolve::Skip);
                    },
                    Some(AstType::Basic(_)) => {
                        // `resolve_alias` went past every basic alias.
                        assert(false);
                    },
                    None => {
                        let mut m = String::from_str("unresolvable type ");
                        m.append(c.as_str());
                        return Err(Error::Message(m));
                    },
                }
            }
        },
    }
    assert(w@ =~= old(w)@ + decode_basic(type_index@, *t, resolve_typedefs).0);
    Ok(())
}


/// Prints a fixed-size array decoder.
fn print_fixed(w: &mut String, t: &BasicType, size: u32, type_index: &TypeIndex) -> (r: Result<(), Error>)
    requires
        !(fixed_out(type_index@, *t, size).1 is Aborted),
    ensures
        wrote(old(w)@, final(w)@, r, fixed_out(type_index@, *t, size)),
{
    match t {
        BasicType::Opaque => {
            w.append("v.try_bytes(");
            push_decimal(w, size);
            w.append(")?");
            assert(w@ =~= old(w)@ + fixed_out(type_index@, *t, size).0);
        },
        BasicType::String => {
            // unexpected fixed length string: excluded by the precondition
            assert(false);
        },
        _ => {
            let ghost idx = type_index@;
            let ghost elems = Seq::new(size as nat, |i: int| *t);
            let ghost f = |b: BasicType| fixed_element(idx, b);
            w.append("[\n");
            let ghost start = w@;
            let mut i: u32 = 0;
            assert(elems.take(0) =~= Seq::<BasicType>::empty());
            assert(w@ =~= start + emit_all(elems.take(0), f).0);
            while i < size
                invariant
                    idx == type_index@,
                    start == old(w)@ + "[\n"@,
                    elems == Seq::new(size as nat, |i: int| *t),
                    f == (|b: BasicType| fixed_element(idx, b)),
                    i <= size,
                    !(emit_all(elems, f).1 is Aborted),
                    emit_all(elems.take(i as int), f).1 is Done,
                    w@ == start + emit_all(elems.take(i as int), f).0,
                decreases size - i,
            {
                proof {
                    crate::emit::lemma_emit_all_step(elems, f, i as int);
                    if decode_resolved(idx, *t).1 is Aborted {
                        crate::emit::lemma_emit_all_element(elems, f, i as int);
                    }
                }
                let ghost before = w@;
                let res = print_decode_basic_type(w, t, type_index, TypeResolve::ChaseTypedefs);
                match res {
                    Err(e) => {
                        proof {
                            crate::emit::lemma_emit_all_stops(elems, f, i + 1);
                            assert(w@ =~= start + emit_all(elems, f).0);
                            assert(fixed_elements(type_index@, *t, size as nat) == emit_all(elems, f));
                        }
                        assert(w@ =~= old(w)@ + fixed_out(type_index@, *t, size).0);
                        return Err(e);
                    },
                    Ok(()) => {},
                }
                w.append("?,\n");
                assert(w@ =~= start + emit_all(elems.take(i + 1), f).0);
                i = i + 1;
            }
            assert(elems.take(size as int) =~= elems);
            w.append("]");
            assert(w@ =~= old(w)@ + fixed_out(type_index@, *t, size).0);
        },
    }
    Ok(())
}

/// Prints a length-prefixed variable sized array decoder, or a string or
/// opaque decoder with an optional maximum length.
fn print_variable(w: &mut String, t: &BasicType, size: Option<u32>, generic_index: &GenericIndex)
    ensures
        final(w)@ == old(w)@ + variable_out(generic_index@, *t, size),
{
    let type_str = t.as_str();
    let generic = generic_index.contains(type_str);
    match t {
        BasicType::Opaque => w.append("v.try_variable_bytes("),
        BasicType::String => w.append("v.try_string("),
        _ => {
            w.append("v.try_variable_array::<");
            w.append(type_str);
            if generic {
                w.append("<Bytes>");
            }
            w.append(">(");
        },
    }
    match size {
        Some(n) => {
            w.append("Some(");
            push_decimal(w, n);
            w.append(")");
        },
        None => w.append("None"),
    }
    w.append(")?");
    assert(w@ =~= old(w)@ + variable_out(generic_index@, *t, size));
}

/// Prints the decoder of a field of array type `t`.
fn print_decode_array(
    w: &mut String,
    t: &ArrayType,
    type_index: &TypeIndex,
    constant_index: &ConstantIndex,
    generic_index: &GenericIndex,
) -> (r: Result<(), Error>)
    requires
        !(array_out(type_index@, constant_index@, generic_index@, *t).1 is Aborted),
    ensures
        wrote(old(w)@, final(w)@, r, array_out(type_index@, constant_index@, generic_index@, *t)),
{
    match t {
        ArrayType::Scalar(b) => {
            let res = print_decode_basic_type(w, b, type_index, TypeResolve::ChaseTypedefs);
            match res {
                Err(e) => {
                    return Err(e);
                },
                Ok(()) => {},
            }
            w.append("?");
            assert(w@ =~= old(w)@ + array_out(type_index@, constant_index@, generic_index@, *t).0);
        },
        ArrayType::FixedSize(b, ArraySize::Known(size)) => {
            return print_fixed(w, b, *size, type_index);
        },
        ArrayType::FixedSize(b, ArraySize::Constant(c)) => {
            // Try and resolve the constant value
            let value = match constant_index.get(c.as_str()) {
                Some(v) => v,
                None => {
                    let mut m = String::from_str("unknown constant ");
                    m.append(c.as_str());
                    assert(w@ =~= old(w)@ + Seq::<char>::empty());
                    return Err(Error::Message(m));
                },
            };
            let size = match parse_u32(value.as_str()) {
                Ok(n) => n,
                Err(k) => {
                    assert(w@ =~= old(w)@ + Seq::<char>::empty());
                    return Err(Error::BadInteger(k));
                },
            };
            return print_fixed(w, b, size, type_index);
        },
        ArrayType::VariableSize(b, Some(ArraySize::Known(size))) => {
            print_variable(w, b, Some(*size), generic_index);
        },
        ArrayType::VariableSize(b, Some(ArraySize::Constant(c))) => {
            // Try and resolve the constant value
            let value = match constant_index.get(c.as_str()) {
                Some(v) => v,
                None => {
                    assert(w@ =~= old(w)@ + Seq::<char>::empty());
                    return Err(Error::Message(String::from_str("unknown constant")));
                },
            };
            let size = match parse_u32(value.as_str()) {
                Ok(n) => n,
                Err(k) => {
                    assert(w@ =~= old(w)@ + Seq::<char>::empty());
                    return Err(Error::BadInteger(k));
                },
            };
            print_variable(w, b, Some(size), generic_index);
        },
        ArrayType::VariableSize(b, None) => {
            print_variable(w, b, None, generic_index);
        },
    }
    Ok(())
}


/// Prints the initialiser of one struct field.
fn print_field(
    w: &mut String,
    f: &StructField,
    type_index: &TypeIndex,
    constant_index: &ConstantIndex,
    generic_index: &GenericIndex,
) -> (r: Result<(), Error>)
    requires
        !(field_out(type_index@, constant_index@, generic_index@, *f).1 is Aborted),
    ensures
        wrote(old(w)@, final(w)@, r, field_out(type_index@, constant_index@, generic_index@, *f)),
{
    push_safe_name(w, &f.field_name);
    w.append(": ");
    if f.is_optional {
        // This field is an optional field
        //
        // Outputs:
        // 		match v.try_i32()? {
        // 			0 => None,
        // 			1 => Some(Box::new(TYPE::try_from(v)?)),
        // 			d => return Err(Error::UnknownVariant(d as i32)),
        // 		}
        w.append("{ match v.try_u32()? {\n");
        w.append("0 => None,\n");
        w.append("1 => Some(Box::new(");
        w.append(f.field_value.unwrap_array().as_str());
        w.append("::try_from(v)?)),\n");
        w.append("d => return Err(Error::UnknownOptionVariant(d)),\n");
        w.append("}},\n");
        assert(w@ =~= old(w)@ + field_out(type_index@, constant_index@, generic_index@, *f).0);
        return Ok(());
    }
    // Struct fields that are typedefs should not be chased.
    if let BasicType::Ident(i) = f.field_value.unwrap_array() {
        if let Some(AstType::Typedef(td)) = type_index.get(i.as_str()) {
            let res = print_decode_basic_type(w, &td.alias, type_index, TypeResolve::Skip);
            assert(res is Ok);
            w.append("?,\n");
            assert(w@ =~= old(w)@ + field_out(type_index@, constant_index@, generic_index@, *f).0);
            return Ok(());
        }
    }
    let res = print_decode_array(w, &f.field_value, type_index, constant_index, generic_index);
    match res {
        Err(e) => {
            assert(w@ =~= old(w)@ + field_out(type_index@, constant_index@, generic_index@, *f).0);
            return Err(e);
        },
        Ok(()) => {},
    }
    w.append(",\n");
    assert(w@ =~= old(w)@ + field_out(type_index@, constant_index@, generic_index@, *f).0);
    Ok(())
}

/// Prints the body of the decoder of a struct.
fn print_struct_body(
    w: &mut String,
    v: &Struct,
    type_index: &TypeIndex,
    constant_index: &ConstantIndex,
    generic_index: &GenericIndex,
) -> (r: Result<(), Error>)
    requires
        !(struct_body(type_index@, constant_index@, generic_index@, *v).1 is Aborted),
    ensures
        wrote(old(w)@, final(w)@, r, struct_body(type_index@, constant_index@, generic_index@, *v)),
{
    let ghost idx = type_index@;
    let ghost consts = constant_index@;
    let ghost gen = generic_index@;
    let ghost g = |f: StructField| field_out(idx, consts, gen, f);
    let ghost fields = v.fields@;
    w.append("Ok(");
    w.append(v.name.as_str());
    w.append(" {\n");
    let ghost start = w@;
    assert(fields.take(0) =~= Seq::<StructField>::empty());
    assert(w@ =~= start + emit_all(fields.take(0), g).0);
    let mut i: usize = 0;
    while i < v.fields.len()
        invariant
            idx == type_index@,
            consts == constant_index@,
            gen == generic_index@,
            g == (|f: StructField| field_out(idx, consts, gen, f)),
            fields == v.fields@,
            start == old(w)@ + ("Ok("@ + v.name@ + " {\n"@),
            i <= fields.len(),
            !(emit_all(fields, g).1 is Aborted),
            emit_all(fields.take(i as int), g).1 is Done,
            w@ == start + emit_all(fields.take(i as int), g).0,
        decreases fields.len() - i,
    {
        proof {
            crate::emit::lemma_emit_all_step(fields, g, i as int);
            if g(fields[i as int]).1 is Aborted {
                crate::emit::lemma_emit_all_element(fields, g, i as int);
            }
        }
        let res = print_field(w, &v.fields[i], type_index, constant_index, generic_index);
        match res {
            Err(e) => {
                proof {
                    crate::emit::lemma_emit_all_stops(fields, g, i + 1);
                }
                assert(w@ =~= old(w)@ + struct_body(idx, consts, gen, *v).0);
                return Err(e);
            },
            Ok(()) => {},
        }
        assert(w@ =~= start + emit_all(fields.take(i + 1), g).0);
        i = i + 1;
    }
    assert(fields.take(fields.len() as int) =~= fields);
    w.append("})\n");
    assert(w@ =~= old(w)@ + struct_body(idx, consts, gen, *v).0);
    Ok(())
}


/// Prints the match arm of one case value of a union arm.
fn print_case_value(
    w: &mut String,
    c: &UnionCase,
    c_value: &String,
    type_index: &TypeIndex,
    constant_index: &ConstantIndex,
    generic_index: &GenericIndex,
) -> (r: Result<(), Error>)
    requires
        !(case_value_out(type_index@, constant_index@, generic_index@, *c, *c_value).1 is Aborted),
    ensures
        wrote(
            old(w)@,
            final(w)@,
            r,
            case_value_out(type_index@, constant_index@, generic_index@, *c, *c_value),
        ),
{
    // The case value may be a declared constant or enum value.
    //
    // Lookup the value in the `constant_index`.
    let matcher = match constant_index.get(c_value.as_str()) {
        Some(m) => m,
        None => c_value,
    };
    push_safe_name(w, matcher);
    w.append(" => Self::");
    w.append(c.field_name.as_str());
    w.append("(");
    let res = print_decode_array(w, &c.field_value, type_index, constant_index, generic_index);
    match res {
        Err(e) => {
            assert(w@ =~= old(w)@ + case_value_out(
                type_index@,
                constant_index@,
                generic_index@,
                *c,
                *c_value,
            ).0);
            return Err(e);
        },
        Ok(()) => {},
    }
    w.append("),\n");
    assert(w@ =~= old(w)@ + case_value_out(
        type_index@,
        constant_index@,
        generic_index@,
        *c,
        *c_value,
    ).0);
    Ok(())
}

/// Prints the match arms of a union arm: a single case statement may have
/// many case values tied to it if fallthrough values are used.
fn print_case(
    w: &mut String,
    c: &UnionCase,
    type_index: &TypeIndex,
    constant_index: &ConstantIndex,
    generic_index: &GenericIndex,
) -> (r: Result<(), Error>)
    requires
        !(case_out(type_index@, constant_index@, generic_index@, *c).1 is Aborted),
    ensures
        wrote(old(w)@, final(w)@, r, case_out(type_index@, constant_index@, generic_index@, *c)),
{
    let ghost idx = type_index@;
    let ghost consts = constant_index@;
    let ghost gen = generic_index@;
    let ghost g = |v: String| case_value_out(idx, consts, gen, *c, v);
    let ghost values = c.case_values@;
    assert(values.take(0) =~= Seq::<String>::empty());
    assert(w@ =~= old(w)@ + emit_all(values.take(0), g).0);
    let mut i: usize = 0;
    while i < c.case_values.len()
        invariant
            idx == type_index@,
            consts == constant_index@,
            gen == generic_index@,
            g == (|v: String| case_value_out(idx, consts, gen, *c, v)),
            values == c.case_values@,
            i <= values.len(),
            !(emit_all(values, g).1 is Aborted),
            emit_all(values.take(i as int), g).1 is Done,
            w@ == old(w)@ + emit_all(values.take(i as int), g).0,
        decreases values.len() - i,
    {
        proof {
            crate::emit::lemma_emit_all_step(values, g, i as int);
            if g(values[i as int]).1 is Aborted {
                crate::emit::lemma_emit_all_element(values, g, i as int);
            }
        }
        let res = print_case_value(
            w,
            c,
            &c.case_values[i],
            type_index,
            constant_index,
            generic_index,
        );
        match res {
            Err(e) => {
                proof {
                    crate::emit::lemma_emit_all_stops(values, g, i + 1);
                }
                assert(w@ =~= old(w)@ + emit_all(values, g).0);
                return Err(e);
            },
            Ok(()) => {},
        }
        assert(w@ =~= old(w)@ + emit_all(values.take(i + 1), g).0);
        i = i + 1;
    }
    assert(values.take(values.len() as int) =~= values);
    Ok(())
}

/// Prints the match arms of all arms of a union.
fn print_cases(
    w: &mut String,
    cases: &Vec<UnionCase>,
    type_index: &TypeIndex,
    constant_index: &ConstantIndex,
    generic_index: &GenericIndex,
) -> (r: Result<(), Error>)
    requires
        !(emit_all(
            cases@,
            |c: UnionCase| case_out(type_index@, constant_index@, generic_index@, c),
        ).1 is Aborted),
    ensures
        wrote(
            old(w)@,
            final(w)@,
            r,
            emit_all(
                cases@,
                |c: UnionCase| case_out(type_index@, constant_index@, generic_index@, c),
            ),
        ),
{
    let ghost idx = type_index@;
    let ghost consts = constant_index@;
    let ghost gen = generic_index@;
    let ghost g = |c: UnionCase| case_out(idx, consts, gen, c);
    let ghost all = cases@;
    assert(all.take(0) =~= Seq::<UnionCase>::empty());
    assert(w@ =~= old(w)@ + emit_all(all.take(0), g).0);
    let mut i: usize = 0;
    while i < cases.len()
        invariant
            idx == type_index@,
            consts == constant_index@,
            gen == generic_index@,
            g == (|c: UnionCase| case_out(idx, consts, gen, c)),
            all == cases@,
            i <= all.len(),
            !(emit_all(all, g).1 is Aborted),
            emit_all(all.take(i as int), g).1 is Done,
            w@ == old(w)@ + emit_all(all.take(i as int), g).0,
        decreases all.len() - i,
    {
        proof {
            crate::emit::lemma_emit_all_step(all, g, i as int);
            if g(all[i as int]).1 is Aborted {
                crate::emit::lemma_emit_all_element(all, g, i as int);
            }
        }
        let res = print_case(w, &cases[i], type_index, constant_index, generic_index);
        match res {
            Err(e) => {
                proof {
                    crate::emit::lemma_emit_all_stops(all, g, i + 1);
                }
                assert(w@ =~= old(w)@ + emit_all(all, g).0);
                return Err(e);
            },
            Ok(()) => {},
        }
        assert(w@ =~= old(w)@ + emit_all(all.take(i + 1), g).0);
        i = i + 1;
    }
    assert(all.take(all.len() as int) =~= all);
    Ok(())
}

/// Prints the match arms of the void cases of a union.
fn print_void_cases(w: &mut String, void_cases: &Vec<String>)
    ensures
        final(w)@ == old(w)@ + emit_all(void_cases@, |v: String| done(void_line(v@))).0,
        emit_all(void_cases@, |v: String| done(void_line(v@))).1 is Done,
{
    let ghost g = |v: String| done(void_line(v@));
    let ghost values = void_cases@;
    assert(values.take(0) =~= Seq::<String>::empty());
    assert(w@ =~= old(w)@ + emit_all(values.take(0), g).0);
    let default_name = String::from_str("default");
    let mut i: usize = 0;
    while i < void_cases.len()
        invariant
            g == (|v: String| done(void_line(v@))),
            values == void_cases@,
            default_name@ == "default"@,
            i <= values.len(),
            emit_all(values.take(i as int), g).1 is Done,
            w@ == old(w)@ + emit_all(values.take(i as int), g).0,
        decreases values.len() - i,
    {
        proof {
            crate::emit::lemma_emit_all_step(values, g, i as int);
        }
        let c = &void_cases[i];
        if *c == default_name {
            w.append("_");
        } else {
            w.append(c.as_str());
        }
        w.append(" => Self::Void,\n");
        assert(w@ =~= old(w)@ + emit_all(values.take(i + 1), g).0);
        i = i + 1;
    }
    assert(values.take(values.len() as int) =~= values);
}

/// Prints the last match arm of a union decoder: the default arm if present,
/// else a catch all arm that returns an error.
fn print_default(
    w: &mut String,
    default: &Option<UnionDefault>,
    type_index: &TypeIndex,
    constant_index: &ConstantIndex,
    generic_index: &GenericIndex,
) -> (r: Result<(), Error>)
    requires
        !(default_out(type_index@, constant_index@, generic_index@, *default).1 is Aborted),
    ensures
        wrote(
            old(w)@,
            final(w)@,
            r,
            default_out(type_index@, constant_index@, generic_index@, *default),
        ),
{
    match default {
        Some(d) => {
            w.append("_ => Self::");
            push_safe_name(w, &d.field_name);
            w.append("(");
            let res = print_decode_array(
                w,
                &d.field_value,
                type_index,
                constant_index,
                generic_index,
            );
            match res {
                Err(e) => {
                    assert(w@ =~= old(w)@ + default_out(
                        type_index@,
                        constant_index@,
                        generic_index@,
                        *default,
                    ).0);
                    return Err(e);
                },
                Ok(()) => {},
            }
            w.append("),\n");
        },
        None => {
            w.append("d => return Err(Error::UnknownVariant(d as i32)),\n");
        },
    }
    assert(w@ =~= old(w)@ + default_out(type_index@, constant_index@, generic_index@, *default).0);
    Ok(())
}

/// Prints the body of the decoder of a union.
fn print_union_body(
    w: &mut String,
    v: &Union,
    type_index: &TypeIndex,
    constant_index: &ConstantIndex,
    generic_index: &GenericIndex,
) -> (r: Result<(), Error>)
    requires
        !(union_body(type_index@, constant_index@, generic_index@, *v).1 is Aborted),
    ensures
        wrote(old(w)@, final(w)@, r, union_body(type_index@, constant_index@, generic_index@, *v)),
{
    let ghost idx = type_index@;
    let ghost consts = constant_index@;
    let ghost gen = generic_index@;
    let ghost var = safe_name(v.switch.var_name@);
    let ghost total = union_body(idx, consts, gen, *v);
    let ghost e_end = done("})\n"@);
    let ghost e_default = seq_emit(default_out(idx, consts, gen, v.default), e_end);
    let ghost e_void = seq_emit(emit_all(v.void_cases@, |c: String| done(void_line(c@))), e_default);
    let ghost e_cases = seq_emit(
        emit_all(v.cases@, |c: UnionCase| case_out(idx, consts, gen, c)),
        e_void,
    );
    let ghost e_open = seq_emit(done("?;\n"@ + "Ok(match "@ + var + " {\n"@), e_cases);
    let ghost e_switch = seq_emit(decode_resolved(idx, v.switch.var_type), e_open);
    proof {
        crate::emit::lemma_seq_emit_done_empty(total);
        assert(Seq::<char>::empty() + ("let "@ + var + " = "@) =~= "let "@ + var + " = "@);
        crate::emit::lemma_emit_advance(Seq::empty(), done("let "@ + var + " = "@), e_switch);
    }
    w.append("let ");
    push_safe_name(w, &v.switch.var_name);
    w.append(" = ");
    let ghost p1 = "let "@ + var + " = "@;
    assert(w@ =~= old(w)@ + p1);
    assert(total == seq_emit(done(p1), e_switch));
    proof {
        crate::emit::lemma_emit_advance(p1, decode_resolved(idx, v.switch.var_type), e_open);
    }
    let res = print_decode_basic_type(w, &v.switch.var_type, type_index, TypeResolve::ChaseTypedefs);
    match res {
        Err(e) => {
            assert(w@ =~= old(w)@ + total.0);
            return Err(e);
        },
        Ok(()) => {},
    }
    let ghost p2 = p1 + decode_resolved(idx, v.switch.var_type).0;
    assert(w@ =~= old(w)@ + p2);
    assert(total == seq_emit(done(p2), e_open));
    w.append("?;\n");
    w.append("Ok(match ");
    push_safe_name(w, &v.switch.var_name);
    w.append(" {\n");
    let ghost p3 = p2 + ("?;\n"@ + "Ok(match "@ + var + " {\n"@);
    assert(w@ =~= old(w)@ + p3);
    proof {
        crate::emit::lemma_emit_advance(p2, done("?;\n"@ + "Ok(match "@ + var + " {\n"@), e_cases);
    }
    assert(total == seq_emit(done(p3), e_cases));
    let ghost c_run = emit_all(v.cases@, |c: UnionCase| case_out(idx, consts, gen, c));
    proof {
        crate::emit::lemma_emit_advance(p3, c_run, e_void);
    }
    let res = print_cases(w, &v.cases, type_index, constant_index, generic_index);
    match res {
        Err(e) => {
            assert(w@ =~= old(w)@ + total.0);
            return Err(e);
        },
        Ok(()) => {},
    }
    let ghost p4 = p3 + c_run.0;
    assert(w@ =~= old(w)@ + p4);
    assert(total == seq_emit(done(p4), e_void));
    // There may also be several "void" cases
    let ghost v_run = emit_all(v.void_cases@, |c: String| done(void_line(c@)));
    print_void_cases(w, &v.void_cases);
    proof {
        crate::emit::lemma_emit_advance(p4, v_run, e_default);
    }
    let ghost p5 = p4 + v_run.0;
    assert(w@ =~= old(w)@ + p5);
    assert(total == seq_emit(done(p5), e_default));
    // Write a default case if present, else a catch all case that
    // returns an error.
    proof {
        crate::emit::lemma_emit_advance(p5, default_out(idx, consts, gen, v.default), e_end);
    }
    let res = print_default(w, &v.default, type_index, constant_index, generic_index);
    match res {
        Err(e) => {
            assert(w@ =~= old(w)@ + total.0);
            return Err(e);
        },
        Ok(()) => {},
    }
    let ghost p6 = p5 + default_out(idx, consts, gen, v.default).0;
    assert(w@ =~= old(w)@ + p6);
    assert(total == seq_emit(done(p6), e_end));
    w.append("})\n");
    assert(w@ =~= old(w)@ + total.0);
    Ok(())
}

/// Prints the body of the decoder of an enum.
fn print_enum_body(w: &mut String, v: &Enum)
    ensures
        final(w)@ == old(w)@ + enum_body(*v).0,
        enum_body(*v).1 is Done,
{
    let ghost g = |x: EnumVariant| done(variant_line(x));
    let ghost variants = v.variants@;
    w.append("Ok(match v.try_i32()? {\n");
    let ghost start = w@;
    assert(variants.take(0) =~= Seq::<EnumVariant>::empty());
    assert(w@ =~= start + emit_all(variants.take(0), g).0);
    let mut i: usize = 0;
    while i < v.variants.len()
        invariant
            g == (|x: EnumVariant| done(variant_line(x))),
            variants == v.variants@,
            i <= variants.len(),
            emit_all(variants.take(i as int), g).1 is Done,
            w@ == start + emit_all(variants.take(i as int), g).0,
        decreases variants.len() - i,
    {
        proof {
            crate::emit::lemma_emit_all_step(variants, g, i as int);
        }
        let variant = &v.variants[i];
        w.append(variant.value.as_str());
        w.append(" => Self::");
        w.append(variant.name.as_str());
        w.append(",\n");
        assert(w@ =~= start + emit_all(variants.take(i + 1), g).0);
        i = i + 1;
    }
    assert(variants.take(variants.len() as int) =~= variants);
    w.append("d => return Err(Error::UnknownVariant(d as i32)),\n})\n");
    assert(w@ =~= old(w)@ + enum_body(*v).0);
}

/// Prints the body of the decoder of a typedef.
fn print_typedef_body(w: &mut String, v: &Typedef, type_index: &TypeIndex) -> (r: Result<(), Error>)
    requires
        !(typedef_body(type_index@, *v).1 is Aborted),
    ensures
        wrote(old(w)@, final(w)@, r, typedef_body(type_index@, *v)),
{
    w.append("Ok(Self(");
    let res = print_decode_basic_type(w, &v.alias, type_index, TypeResolve::ChaseTypedefs);
    match res {
        Err(e) => {
            assert(w@ =~= old(w)@ + typedef_body(type_index@, *v).0);
            return Err(e);
        },
        Ok(()) => {},
    }
    w.append("?))\n");
    assert(w@ =~= old(w)@ + typedef_body(type_index@, *v).0);
    Ok(())
}


/// Prints the "impl TryFrom" block around the output of the body printer of
/// `func`, which decodes from `v`, the Bytes source.
fn print_try_from(
    w: &mut String,
    name: &str,
    generic_index: &GenericIndex,
    func: TryFromBody,
    type_index: &TypeIndex,
    constant_index: &ConstantIndex,
) -> (r: Result<(), Error>)
    requires
        !(body_out(type_index@, constant_index@, generic_index@, func).1 is Aborted),
    ensures
        wrote(
            old(w)@,
            final(w)@,
            r,
            try_from_out(
                generic_index@,
                name@,
                body_out(type_index@, constant_index@, generic_index@, func),
            ),
        ),
{
    let ghost total = try_from_out(
        generic_index@,
        name@,
        body_out(type_index@, constant_index@, generic_index@, func),
    );
    if generic_index.contains(name) {
        w.append("impl TryFrom<Bytes> for ");
        w.append(name);
        w.append("<Bytes>");
    } else {
        w.append("impl TryFrom<Bytes> for ");
        w.append(name);
    }
    w.append(" {\ntype Error = Error;\n\nfn try_from(mut v: Bytes) -> Result<Self, Self::Error> {\n");
    assert(w@ =~= old(w)@ + try_from_header(generic_index@, name@));
    let res = match func {
        TryFromBody::Struct(v) => print_struct_body(w, v, type_index, constant_index, generic_index),
        TryFromBody::Union(v) => print_union_body(w, v, type_index, constant_index, generic_index),
        TryFromBody::Enum(v) => {
            print_enum_body(w, v);
            Ok(())
        },
        TryFromBody::Typedef(v) => print_typedef_body(w, v, type_index),
    };
    match res {
        Err(e) => {
            assert(w@ =~= old(w)@ + total.0);
            return Err(e);
        },
        Ok(()) => {},
    }
    w.append("}\n}\n");
    assert(w@ =~= old(w)@ + total.0);
    Ok(())
}

/// Writes an `impl TryFrom<Bytes>` decoder for every struct, union, enum and
/// typedef in `item` (a definition, or the root of a whole file) to `w`, in
/// order.
///
/// A field or case value decodes its type as the type index resolves it:
/// aliases of basic types are followed, a typedef is decoded as its target
/// (one level down), a struct field of a typedef type through the typedef's
/// own `try_from`. Array sizes named by constants are looked up in
/// `constant_index`. Types in `generic_index` take a `Bytes` type parameter.
///
/// Returns an error, having written the text before it, where a name is not in
/// the type index or a constant is not in the constant index or is not a
/// `u32`.
pub fn print_impl_from(
    w: &mut String,
    item: &Node,
    generic_index: &GenericIndex,
    constant_index: &ConstantIndex,
    type_index: &TypeIndex,
) -> (r: Result<(), Error>)
    requires
        !(impl_from_out(type_index@, constant_index@, generic_index@, *item).1 is Aborted),
    ensures
        wrote(
            old(w)@,
            final(w)@,
            r,
            impl_from_out(type_index@, constant_index@, generic_index@, *item),
        ),
    decreases item,
{
    let ghost idx = type_index@;
    let ghost consts = constant_index@;
    let ghost gen = generic_index@;
    match item {
        Node::EOF => {},
        Node::Root(v) => {
            let ghost g = |n: Node| impl_from_out(idx, consts, gen, n);
            let ghost items = v@;
            proof {
                lemma_items_out_all(idx, consts, gen, items);
            }
            assert(items.take(0) =~= Seq::<Node>::empty());
            assert(w@ =~= old(w)@ + emit_all(items.take(0), g).0);
            let mut i: usize = 0;
            while i < v.len()
                invariant
                    idx == type_index@,
                    consts == constant_index@,
                    gen == generic_index@,
                    g == (|n: Node| impl_from_out(idx, consts, gen, n)),
                    items == v@,
                    *item == Node::Root(*v),
                    i <= items.len(),
                    !(emit_all(items, g).1 is Aborted),
                    emit_all(items, g) == impl_from_out(idx, consts, gen, *item),
                    emit_all(items.take(i as int), g).1 is Done,
                    w@ == old(w)@ + emit_all(items.take(i as int), g).0,
                decreases items.len() - i,
            {
                proof {
                    crate::emit::lemma_emit_all_step(items, g, i as int);
                    if g(items[i as int]).1 is Aborted {
                        crate::emit::lemma_emit_all_element(items, g, i as int);
                    }
                    assert(decreases_to!(*item => items[i as int]));
                }
                let res = print_impl_from(w, &v[i], generic_index, constant_index, type_index);
                match res {
                    Err(e) => {
                        proof {
                            crate::emit::lemma_emit_all_stops(items, g, i + 1);
                        }
                        assert(w@ =~= old(w)@ + emit_all(items, g).0);
                        return Err(e);
                    },
                    Ok(()) => {},
                }
                assert(w@ =~= old(w)@ + emit_all(items.take(i + 1), g).0);
                i = i + 1;
            }
            assert(items.take(items.len() as int) =~= items);
        },
        Node::Struct(v) => {
            return print_try_from(
                w,
                v.name.as_str(),
                generic_index,
                TryFromBody::Struct(v),
                type_index,
                constant_index,
            );
        },
        Node::Union(v) => {
            return print_try_from(
                w,
                v.name.as_str(),
                generic_index,
                TryFromBody::Union(v),
                type_index,
                constant_index,
            );
        },
        Node::Enum(v) => {
            return print_try_from(
                w,
                v.name.as_str(),
                generic_index,
                TryFromBody::Enum(v),
                type_index,
                constant_index,
            );
        },
        Node::Typedef(v) => {
            return print_try_from(
                w,
                v.alias.as_str(),
                generic_index,
                TryFromBody::Typedef(v),
                type_index,
                constant_index,
            );
        },
        Node::Constant(_) => {},
        _ => {
            // Parts of definitions never stand alone: excluded by the precondition.
            assert(false);
        },
    }
    assert(w@ =~= old(w)@ + impl_from_out(idx, consts, gen, *item).0);
    Ok(())
}

} // verus!
