use vstd::prelude::*;

use crate::ast::{
    element_type, rust_name, ArraySize, ArrayType, BasicType, Constant, Enum, EnumVariant, Node,
    StructField, Typedef, UnionCase,
};
use crate::emit::{done, emit_all, lemma_seq_emit_assoc, lemma_seq_emit_done_empty, seq_emit, Emit};
use crate::index::AstType;
use crate::printer::impl_from::{
    array_out, basic_direct, bound_text, case_value_out, chase, chase_ends, chased, decode_resolved,
    enum_body, field_out, impl_from_out, items_out, matcher, try_from_header, try_from_out,
    typedef_body, typedef_of, variable_out, variant_line,
};
use crate::emit::Outcome;
use crate::text::{decimal, digit_char, digits_value, is_digit, safe_name, u32_from_decimal};

verus! {

/// Printing a file prints its definitions in turn: the output for the
/// definitions `a` followed by `b` is the output for `a`, then, if that
/// completed, the output for `b`.
pub proof fn law_items_concat(
    idx: Map<Seq<char>, AstType>,
    consts: Map<Seq<char>, Seq<char>>,
    gen: Set<Seq<char>>,
    a: Seq<Node>,
    b: Seq<Node>,
)
    ensures
        items_out(idx, consts, gen, a + b) == seq_emit(
            items_out(idx, consts, gen, a),
            items_out(idx, consts, gen, b),
        ),
    decreases b.len(),
{
    if b.len() == 0 {
        assert(a + b =~= a);
        lemma_seq_emit_done_empty(items_out(idx, consts, gen, a));
    } else {
        law_items_concat(idx, consts, gen, a, b.drop_last());
        assert((a + b).drop_last() =~= a + b.drop_last());
        assert((a + b).last() == b.last());
        lemma_seq_emit_assoc(
            items_out(idx, consts, gen, a),
            items_out(idx, consts, gen, b.drop_last()),
            impl_from_out(idx, consts, gen, b.last()),
        );
    }
}

/// A constant definition prints nothing: adding one anywhere in a file leaves
/// the printed decoders unchanged (the constant acts only through the
/// constant index).
pub proof fn law_constant_prints_nothing(
    idx: Map<Seq<char>, AstType>,
    consts: Map<Seq<char>, Seq<char>>,
    gen: Set<Seq<char>>,
    a: Seq<Node>,
    c: Constant,
    b: Seq<Node>,
)
    ensures
        items_out(idx, consts, gen, a + seq![Node::Constant(c)] + b) == items_out(
            idx,
            consts,
            gen,
            a + b,
        ),
{
    let k = seq![Node::Constant(c)];
    law_items_concat(idx, consts, gen, a + k, b);
    law_items_concat(idx, consts, gen, a, k);
    law_items_concat(idx, consts, gen, a, b);
    assert(k.drop_last() =~= Seq::<Node>::empty());
    assert(Seq::<char>::empty() + Seq::<char>::empty() =~= Seq::<char>::empty());
    assert(items_out(idx, consts, gen, Seq::<Node>::empty()) == done(Seq::empty()));
    assert(k.last() == Node::Constant(c));
    assert(impl_from_out(idx, consts, gen, Node::Constant(c)) == done(Seq::empty()));
    assert(items_out(idx, consts, gen, k.drop_last()) == done(Seq::empty()));
    assert(items_out(idx, consts, gen, k) == done(Seq::empty()));
    lemma_seq_emit_done_empty(impl_from_out(idx, consts, gen, Node::Constant(c)));
    lemma_seq_emit_done_empty(items_out(idx, consts, gen, a));
}

proof fn lemma_variants_done(vs: Seq<crate::ast::EnumVariant>)
    ensures
        emit_all(vs, |v: crate::ast::EnumVariant| done(variant_line(v))).1 is Done,
    decreases vs.len(),
{
    if vs.len() > 0 {
        lemma_variants_done(vs.drop_last());
    }
}

/// Printing an enum never fails: whatever the indexes, its decoder is written
/// whole.
pub proof fn law_enum_completes(
    idx: Map<Seq<char>, AstType>,
    consts: Map<Seq<char>, Seq<char>>,
    gen: Set<Seq<char>>,
    e: Enum,
)
    ensures
        impl_from_out(idx, consts, gen, Node::Enum(e)).1 is Done,
{
    lemma_variants_done(e.variants@);
}

/// Every decoder is an `impl TryFrom<Bytes>` block: its text starts with the
/// block's header (generic over `Bytes` exactly for the types in the generic
/// index), and a completed one ends with the two closing braces.
pub proof fn law_try_from_block(gen: Set<Seq<char>>, name: Seq<char>, body: Emit)
    ensures
        try_from_header(gen, name).is_prefix_of(try_from_out(gen, name, body).0),
        try_from_out(gen, name, body).1 is Done ==> exists|t: Seq<char>|
            try_from_out(gen, name, body).0 == try_from_header(gen, name) + t + "}\n}\n"@,
{
    let h = try_from_header(gen, name);
    let out = try_from_out(gen, name, body);
    if body.1 is Done {
        assert(out.0 =~= h + (body.0 + "}\n}\n"@));
        assert(out.0 =~= h + body.0 + "}\n}\n"@);
    } else {
        assert(out.0 =~= h + body.0);
    }
    assert(h =~= out.0.subrange(0, h.len() as int));
}

proof fn lemma_chase_more_fuel(idx: Map<Seq<char>, AstType>, t: BasicType, f: nat, g: nat)
    requires
        chase(idx, t, f) is Some,
        f <= g,
    ensures
        chase(idx, t, g) == chase(idx, t, f),
    decreases f,
{
    match crate::printer::impl_from::alias_step(idx, t) {
        None => {},
        Some(b) => {
            lemma_chase_more_fuel(idx, b, (f - 1) as nat, (g - 1) as nat);
        },
    }
}

/// Resolving a name that the type index binds to a basic type is resolving
/// that type: the decoder is the same.
pub proof fn law_alias_transparent(idx: Map<Seq<char>, AstType>, c: String, b: BasicType)
    requires
        idx.contains_key(c@),
        idx[c@] == AstType::Basic(b),
    ensures
        decode_resolved(idx, BasicType::Ident(c)) == decode_resolved(idx, b),
{
    let t = BasicType::Ident(c);
    if chase_ends(idx, t) {
        let f = choose|f: nat| #[trigger] chase(idx, t, f) is Some;
        assert(f > 0);
        assert(chase(idx, b, (f - 1) as nat) is Some);
        assert(chase_ends(idx, b));
        let g = choose|g: nat| #[trigger] chase(idx, b, g) is Some;
        if g <= (f - 1) as nat {
            lemma_chase_more_fuel(idx, b, g, (f - 1) as nat);
        } else {
            lemma_chase_more_fuel(idx, b, (f - 1) as nat, g);
        }
        assert(chased(idx, t) == chased(idx, b));
    }
    if chase_ends(idx, b) {
        let g = choose|g: nat| #[trigger] chase(idx, b, g) is Some;
        assert(chase(idx, t, g + 1) is Some);
    }
}

proof fn lemma_decimal_digits(n: nat)
    ensures
        decimal(n).len() >= 1,
        is_digit(decimal(n)[0]),
        n <= u32::MAX ==> digits_value(decimal(n)) == Ok::<nat, crate::text::IntErrorKind>(n),
    decreases n,
{
    if n < 10 {
        let s = decimal(n);
        assert(s.drop_last() =~= Seq::<char>::empty());
        assert(digit_char(n) as int == n + 48);
        assert(digits_value(Seq::<char>::empty()) == Ok::<nat, crate::text::IntErrorKind>(0));
    } else {
        lemma_decimal_digits(n / 10);
        let s = decimal(n);
        assert(s.drop_last() =~= decimal(n / 10));
        assert(digit_char(n % 10) as int == n % 10 + 48);
        assert((n / 10) * 10 + n % 10 == n) by (nonlinear_arith);
        assert(n / 10 <= n);
        assert(s.last() == digit_char(n % 10));
        assert(is_digit(s.last()));
        if n <= u32::MAX {
            assert(digits_value(s.drop_last()) == Ok::<nat, crate::text::IntErrorKind>(n / 10));
            assert((n / 10) * 10 + (s.last() as int - 48) == n);
        }
        assert(s[0] == decimal(n / 10)[0]);
    }
}

/// Reading the decimal rendering of a `u32` gives it back.
pub proof fn law_decimal_round_trip(n: u32)
    ensures
        u32_from_decimal(decimal(n as nat)) == Ok::<u32, crate::text::IntErrorKind>(n),
{
    lemma_decimal_digits(n as nat);
    let s = decimal(n as nat);
    assert(s[0] != '+' && s[0] != '-');
}

/// An array size given by a constant whose value is the decimal rendering of
/// `n` prints as the literal size `n`, for fixed and for variable arrays.
pub proof fn law_constant_size(
    idx: Map<Seq<char>, AstType>,
    consts: Map<Seq<char>, Seq<char>>,
    gen: Set<Seq<char>>,
    t: BasicType,
    name: String,
    n: u32,
)
    requires
        consts.contains_key(name@),
        consts[name@] == decimal(n as nat),
    ensures
        array_out(idx, consts, gen, ArrayType::FixedSize(t, ArraySize::Constant(name)))
            == array_out(idx, consts, gen, ArrayType::FixedSize(t, ArraySize::Known(n))),
        array_out(idx, consts, gen, ArrayType::VariableSize(t, Some(ArraySize::Constant(name))))
            == array_out(idx, consts, gen, ArrayType::VariableSize(t, Some(ArraySize::Known(n)))),
{
    law_decimal_round_trip(n);
}


/// A union arm decodes its field exactly as a struct field of the same type
/// does (when that type is no typedef, which struct fields treat apart): the
/// same decoder text `d`, the same outcome, only the arm's head and tail differ.
pub proof fn law_union_arm_decodes_as_struct_field(
    idx: Map<Seq<char>, AstType>,
    consts: Map<Seq<char>, Seq<char>>,
    gen: Set<Seq<char>>,
    c: UnionCase,
    x: String,
    f: StructField,
)
    requires
        f.field_value == c.field_value,
        !f.is_optional,
        typedef_of(idx, element_type(f.field_value)) is None,
    ensures
        case_value_out(idx, consts, gen, c, x).1 == field_out(idx, consts, gen, f).1,
        exists|d: Seq<char>|
            {
                &&& case_value_out(idx, consts, gen, c, x).0 == safe_name(matcher(consts, x@))
                    + " => Self::"@ + c.field_name@ + "("@ + d + (if field_out(
                    idx,
                    consts,
                    gen,
                    f,
                ).1 is Done {
                    "),\n"@
                } else {
                    Seq::empty()
                })
                &&& field_out(idx, consts, gen, f).0 == safe_name(f.field_name@) + ": "@ + d + (
                if field_out(idx, consts, gen, f).1 is Done {
                    ",\n"@
                } else {
                    Seq::empty()
                })
            },
{
    let a = array_out(idx, consts, gen, f.field_value);
    let d = a.0;
    let head = safe_name(matcher(consts, x@)) + " => Self::"@ + c.field_name@ + "("@;
    if a.1 is Done {
        assert(case_value_out(idx, consts, gen, c, x).0 =~= head + d + "),\n"@);
        assert(field_out(idx, consts, gen, f).0 =~= safe_name(f.field_name@) + ": "@ + d + ",\n"@);
    } else {
        assert(case_value_out(idx, consts, gen, c, x).0 =~= head + d + Seq::<char>::empty());
        assert(field_out(idx, consts, gen, f).0 =~= safe_name(f.field_name@) + ": "@ + d
            + Seq::<char>::empty());
    }
}

/// Decoding through a typedef of a basic type is decoding that type directly:
/// a name bound to `typedef T name` reads as `T` itself does.
pub proof fn law_typedef_decodes_as_target(idx: Map<Seq<char>, AstType>, n: String, td: Typedef)
    requires
        idx.contains_key(n@),
        idx[n@] == AstType::Typedef(td),
        !(td.target is Ident),
    ensures
        decode_resolved(idx, BasicType::Ident(n)) == decode_resolved(idx, td.target),
        td.alias == BasicType::Ident(n) ==> typedef_body(idx, td) == (
            "Ok(Self("@ + decode_resolved(idx, td.target).0 + "?))\n"@,
            Outcome::Done,
        ),
{
    let t = BasicType::Ident(n);
    assert(chase(idx, t, 0) is Some);
    assert(chase(idx, td.target, 0) is Some);
    assert(chase_ends(idx, t));
    assert(chase_ends(idx, td.target));
    assert(chased(idx, t) == t);
    assert(chased(idx, td.target) == td.target);
    if td.alias == BasicType::Ident(n) {
        assert(typedef_body(idx, td).0 =~= "Ok(Self("@ + decode_resolved(idx, td.target).0
            + "?))\n"@);
    }
}

/// The numeric and boolean types are read by the reader named after their Rust
/// type: `v.try_<name>()`.
pub proof fn law_reader_names(t: BasicType)
    requires
        t is U32 || t is U64 || t is I32 || t is I64 || t is F32 || t is F64 || t is Bool,
    ensures
        basic_direct(t) == "v.try_"@ + rust_name(t) + "()"@,
{
    reveal_strlit("v.try_");
    reveal_strlit("()");
    match t {
        BasicType::U32 => {
            reveal_strlit("v.try_u32()");
            reveal_strlit("u32");
        },
        BasicType::U64 => {
            reveal_strlit("v.try_u64()");
            reveal_strlit("u64");
        },
        BasicType::I32 => {
            reveal_strlit("v.try_i32()");
            reveal_strlit("i32");
        },
        BasicType::I64 => {
            reveal_strlit("v.try_i64()");
            reveal_strlit("i64");
        },
        BasicType::F32 => {
            reveal_strlit("v.try_f32()");
            reveal_strlit("f32");
        },
        BasicType::F64 => {
            reveal_strlit("v.try_f64()");
            reveal_strlit("f64");
        },
        _ => {
            reveal_strlit("v.try_bool()");
            reveal_strlit("bool");
        },
    }
    assert(basic_direct(t) =~= "v.try_"@ + rust_name(t) + "()"@);
}

/// A length-prefixed array of numbers or booleans names as its element type
/// the very type whose reader decodes one such element alone.
pub proof fn law_array_element_names(gen: Set<Seq<char>>, t: BasicType, size: Option<u32>)
    requires
        t is U32 || t is U64 || t is I32 || t is I64 || t is F32 || t is F64 || t is Bool,
        !gen.contains(rust_name(t)),
    ensures
        exists|name: Seq<char>|
            {
                &&& basic_direct(t) == "v.try_"@ + name + "()"@
                &&& variable_out(gen, t, size) == "v.try_variable_array::<"@ + name + ">("@
                    + bound_text(size) + ")?"@
            },
{
    law_reader_names(t);
    let name = rust_name(t);
    assert(variable_out(gen, t, size) == "v.try_variable_array::<"@ + name + ">("@ + bound_text(
        size,
    ) + ")?"@);
}

/// The decoder of an optional field depends on the field alone: not on the
/// type, constant or generic indexes (the boxed type is named plainly), and
/// it always completes.
pub proof fn law_optional_field_ignores_indexes(
    idx1: Map<Seq<char>, AstType>,
    consts1: Map<Seq<char>, Seq<char>>,
    gen1: Set<Seq<char>>,
    idx2: Map<Seq<char>, AstType>,
    consts2: Map<Seq<char>, Seq<char>>,
    gen2: Set<Seq<char>>,
    f: StructField,
)
    requires
        f.is_optional,
    ensures
        field_out(idx1, consts1, gen1, f) == field_out(idx2, consts2, gen2, f),
        field_out(idx1, consts1, gen1, f).1 is Done,
{
}

/// The lines of the variants of an enum, in order.
pub open spec fn variant_lines(vs: Seq<EnumVariant>) -> Seq<char>
    decreases vs.len(),
{
    if vs.len() == 0 {
        Seq::empty()
    } else {
        variant_lines(vs.drop_last()) + variant_line(vs.last())
    }
}

proof fn lemma_variant_lines(vs: Seq<EnumVariant>)
    ensures
        emit_all(vs, |v: EnumVariant| done(variant_line(v))) == done(variant_lines(vs)),
    decreases vs.len(),
{
    if vs.len() > 0 {
        lemma_variant_lines(vs.drop_last());
    }
}

/// Every enum decoder, whatever its number of variants, matches on the `i32`
/// read, has one arm per variant in order, and ends with the arm that rejects
/// an unknown value.
pub proof fn law_enum_decoder_shape(e: Enum)
    ensures
        enum_body(e).1 is Done,
        enum_body(e).0 == "Ok(match v.try_i32()? {\n"@ + variant_lines(e.variants@)
            + "d => return Err(Error::UnknownVariant(d as i32)),\n})\n"@,
{
    lemma_variant_lines(e.variants@);
    assert(enum_body(e).0 =~= "Ok(match v.try_i32()? {\n"@ + variant_lines(e.variants@)
        + "d => return Err(Error::UnknownVariant(d as i32)),\n})\n"@);
}

} // verus!
