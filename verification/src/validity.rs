//! The targets' own type grammars, and the proof that the target spelling of a canonical
//! type is a type of the target's grammar.
//!
//! A target type is a name, a list, an optional type, a map, a tuple, or a generic type
//! applied to one or more target types.
use vstd::prelude::*;
use crate::text::trim;
use crate::scan::{find_char, lemma_find_char};
use crate::split::join;
use crate::types::{normalize, separator, find_top_comma, lemma_ends_with_char};
use crate::canonical::{CanonicalType, CanonicalArgs, is_plain_name, is_name_char,
    lemma_shape_type, lemma_shape_args, lemma_trim_canonical, lemma_scan_type,
    lemma_normalize_spelled, lemma_canonical_type, lemma_spelled_is_balanced, Brackets};
use crate::targets::{Target, denormalize, denormalize_items, generic_of, two_of, tuple_of,
    is_list_name, is_option_name, is_map_name, target_primitive, target_list, target_option,
    target_map, target_apply, target_tuple, target_dynamic, target_absent};

verus! {

/// A type in the grammar of a target.
pub enum TargetType {
    /// A name standing alone.
    Name(Seq<char>),
    /// A list or slice of values of one type.
    List(Box<TargetType>),
    /// A value that may be absent.
    Optional(Box<TargetType>),
    /// A map from keys to values.
    Table(Box<TargetType>, Box<TargetType>),
    /// A generic type applied to its arguments.
    Apply(Seq<char>, Box<TargetArgs>),
    /// A tuple of one or more types.
    Tuple(Box<TargetArgs>),
}

/// A list of one or more target types.
pub enum TargetArgs {
    One(Box<TargetType>),
    More(Box<TargetType>, Box<TargetArgs>),
}

/// A type name of the target: a plain name, or in Zig the slice of bytes.
pub open spec fn is_target_name(x: Seq<char>, t: Target) -> bool {
    is_plain_name(x) || (t == Target::Zig && x == "[]const u8"@)
}

impl TargetType {
    /// Every name in the type is a name of the target, and Go has no optional types.
    pub open spec fn well_formed(self, t: Target) -> bool
        decreases self,
    {
        match self {
            TargetType::Name(x) => is_target_name(x, t),
            TargetType::List(e) => e.well_formed(t),
            TargetType::Optional(e) => t != Target::Go && e.well_formed(t),
            TargetType::Table(k, v) => k.well_formed(t) && v.well_formed(t),
            TargetType::Apply(base, args) => is_plain_name(base) && args.well_formed(t),
            TargetType::Tuple(args) => args.well_formed(t),
        }
    }

    /// The text of the type in the target.
    pub open spec fn spell(self, t: Target) -> Seq<char>
        decreases self,
    {
        match self {
            TargetType::Name(x) => x,
            TargetType::List(e) => target_list(e.spell(t), t),
            TargetType::Optional(e) => target_option(e.spell(t), t),
            TargetType::Table(k, v) => target_map(k.spell(t), v.spell(t), t),
            TargetType::Apply(base, args) => target_apply(
                base,
                join(args.spell_each(t), separator()),
                t,
            ),
            TargetType::Tuple(args) => target_tuple(join(args.spell_each(t), separator()), t),
        }
    }
}

impl TargetArgs {
    /// Every type of the list is well formed.
    pub open spec fn well_formed(self, t: Target) -> bool
        decreases self,
    {
        match self {
            TargetArgs::One(e) => e.well_formed(t),
            TargetArgs::More(e, rest) => e.well_formed(t) && rest.well_formed(t),
        }
    }

    /// The texts of the types of the list, one by one.
    pub open spec fn spell_each(self, t: Target) -> Seq<Seq<char>>
        decreases self,
    {
        match self {
            TargetArgs::One(e) => seq![e.spell(t)],
            TargetArgs::More(e, rest) => seq![e.spell(t)] + rest.spell_each(t),
        }
    }
}

/// An optional value in the target: Python and Zig have a type for it, Go takes the type
/// of the value.
pub open spec fn optional_in(e: TargetType, t: Target) -> TargetType {
    if t != Target::Go {
        TargetType::Optional(Box::new(e))
    } else {
        e
    }
}

/// The target type that stands for the canonical type `ty`.
pub open spec fn lowered(ty: CanonicalType, t: Target) -> TargetType
    decreases ty,
{
    match ty {
        CanonicalType::Name(n) => TargetType::Name(target_primitive(n, t)),
        CanonicalType::Generic(base, args) => if ty.render() == "Option::<_>"@ {
            optional_in(TargetType::Name(target_dynamic(t)), t)
        } else {
            match *args {
                CanonicalArgs::One(e) => if is_list_name(base) {
                    TargetType::List(Box::new(lowered(*e, t)))
                } else if is_option_name(base) {
                    optional_in(lowered(*e, t), t)
                } else {
                    TargetType::Apply(base, Box::new(lowered_args(*args, t)))
                },
                CanonicalArgs::More(k, rest) => match *rest {
                    CanonicalArgs::One(v) => if is_map_name(base) {
                        TargetType::Table(Box::new(lowered(*k, t)), Box::new(lowered(*v, t)))
                    } else {
                        TargetType::Apply(base, Box::new(lowered_args(*args, t)))
                    },
                    CanonicalArgs::More(_, _) => TargetType::Apply(
                        base,
                        Box::new(lowered_args(*args, t)),
                    ),
                },
            }
        },
        CanonicalType::Tuple(args) => TargetType::Tuple(Box::new(lowered_args(*args, t))),
    }
}

/// The target types that stand for the canonical types of `args`.
pub open spec fn lowered_args(args: CanonicalArgs, t: Target) -> TargetArgs
    decreases args,
{
    match args {
        CanonicalArgs::One(e) => TargetArgs::One(Box::new(lowered(*e, t))),
        CanonicalArgs::More(e, rest) => TargetArgs::More(
            Box::new(lowered(*e, t)),
            Box::new(lowered_args(*rest, t)),
        ),
    }
}

/// The names of lists, options and maps are plain names and differ from kind to kind; the
/// targets' names of the primitives and of the dynamic type are plain names.
pub proof fn lemma_known_names()
    ensures
        forall|b: Seq<char>| is_list_name(b) ==> !is_option_name(b) && !is_map_name(b),
        forall|b: Seq<char>| is_map_name(b) ==> !is_option_name(b),
        is_plain_name("int"@),
        is_plain_name("float64"@),
        is_plain_name("string"@),
        is_plain_name("float"@),
        is_plain_name("str"@),
        is_plain_name("interface{}"@),
        is_plain_name("anytype"@),
        is_plain_name("Any"@),
{
    reveal_strlit("Vec");
    reveal_strlit("List");
    reveal_strlit("Option");
    reveal_strlit("HashMap");
    reveal_strlit("Map");
    reveal_strlit("Dict");
    reveal_strlit("int");
    reveal_strlit("float64");
    reveal_strlit("string");
    reveal_strlit("float");
    reveal_strlit("str");
    reveal_strlit("interface{}");
    reveal_strlit("anytype");
    reveal_strlit("Any");
    assert(is_plain_name("int"@));
    assert(is_plain_name("float64"@));
    assert(is_plain_name("string"@));
    assert(is_plain_name("float"@));
    assert(is_plain_name("str"@));
    assert(is_plain_name("interface{}"@));
    assert(is_plain_name("anytype"@));
    assert(is_plain_name("Any"@));
    assert("Vec"@.len() == 3 && "List"@.len() == 4 && "Option"@.len() == 6 && "HashMap"@.len() == 7
        && "Map"@.len() == 3 && "Dict"@.len() == 4);
    assert("Vec"@[0] == 'V' && "Map"@[0] == 'M' && "List"@[0] == 'L' && "Dict"@[0] == 'D');
}

/// The text of a canonical type holds no comma outside its brackets.
proof fn lemma_no_outer_comma(ty: CanonicalType)
    requires
        ty.well_formed(),
    ensures
        two_of(ty.render()) is None,
{
    let r = ty.render();
    lemma_scan_type(ty, Seq::<char>::empty(), 0);
    assert(r + Seq::<char>::empty() == r);
}

/// The first argument of the text of two or more canonical arguments is the text of the
/// first, and the rest is the text of the others.
proof fn lemma_first_argument(e: CanonicalType, rest: CanonicalArgs)
    requires
        e.well_formed(),
        rest.well_formed(),
    ensures
        two_of(e.render() + separator() + rest.render()) == Some((e.render(), rest.render())),
{
    let er = e.render();
    let rr = rest.render();
    let s = er + separator() + rr;
    let y2 = seq![' '] + rr;
    let y1 = seq![','] + y2;
    assert(s == er + y1);
    lemma_shape_type(e);
    lemma_shape_args(rest);
    lemma_scan_type(e, y1, 0);
    assert(y1[0] == ',');
    assert(find_top_comma(y1, 0) == Some(0int));
    assert(find_top_comma(s, 0) == Some(er.len() as int));
    assert(s.take(er.len() as int) == er);
    assert(s.skip(er.len() as int + 1) == seq![' '] + rr);
    lemma_trim_canonical(Seq::<char>::empty(), er);
    assert(Seq::<char>::empty() + er == er);
    lemma_trim_canonical(seq![' '], rr);
}

/// The generic parts of the text of a generic canonical type are its name and the text
/// of its arguments.
proof fn lemma_generic_of_render(base: Seq<char>, args: CanonicalArgs)
    requires
        is_plain_name(base),
        args.well_formed(),
    ensures
        generic_of(CanonicalType::Generic(base, Box::new(args)).render()) == Some(
            (base, args.render()),
        ),
{
    let r = CanonicalType::Generic(base, Box::new(args)).render();
    let inner = args.render();
    lemma_find_char(r, '<');
    lemma_ends_with_char(r, '>');
    assert(r.len() == base.len() + 1 + inner.len() + 1);
    assert(r.last() == '>');
    assert(r[base.len() as int] == '<');
    assert forall|j: int| 0 <= j < base.len() implies r[j] != '<' by {
        assert(r[j] == base[j]);
        assert(is_name_char(base[j]));
    }
    assert(find_char(r, '<') == Some(base.len() as int));
    assert(r.take(base.len() as int) == base);
    assert(r.subrange(base.len() as int + 1, r.len() - 1) == inner);
    lemma_trim_canonical(Seq::<char>::empty(), base);
    assert(Seq::<char>::empty() + base == base);
}

/// The target's names for the primitives are names of the target.
proof fn lemma_target_primitive(n: Seq<char>, t: Target)
    requires
        is_plain_name(n),
    ensures
        is_target_name(target_primitive(n, t), t),
{
    lemma_known_names();
}

/// The target spelling of the text of a canonical type is the text of the target type that
/// stands for it, and that target type is well formed.
pub proof fn lemma_denormalize(ty: CanonicalType, t: Target)
    requires
        ty.well_formed(),
    ensures
        denormalize(ty.render(), t) == lowered(ty, t).spell(t),
        lowered(ty, t).well_formed(t),
    decreases ty, 1nat,
{
    lemma_known_names();
    let r = ty.render();
    lemma_shape_type(ty);
    lemma_canonical_type(ty);
    lemma_spelled_is_balanced(ty, Brackets::Angle);
    lemma_trim_canonical(Seq::<char>::empty(), r);
    assert(Seq::<char>::empty() + r == r);
    assert(trim(r) == r);
    match ty {
        CanonicalType::Name(n) => {
            lemma_find_char(n, '<');
            lemma_find_char(n, '[');
            assert(is_name_char(n[0]));
            assert(tuple_of(n) is None);
            assert(generic_of(n) is None) by {
                if n.contains('<') {
                    let i = choose|i: int| 0 <= i < n.len() && n[i] == '<';
                    assert(is_name_char(n[i]));
                }
                if n.contains('[') {
                    let i = choose|i: int| 0 <= i < n.len() && n[i] == '[';
                    assert(is_name_char(n[i]));
                }
            }
            if n == "Option::<_>"@ {
                reveal_strlit("Option::<_>");
                assert(n[8] == '<');
                assert(is_name_char(n[8]));
            }
            lemma_target_primitive(n, t);
        },
        CanonicalType::Generic(base, args) => {
            if r == "Option::<_>"@ {
                let any = TargetType::Name(target_dynamic(t));
                assert(any.well_formed(t));
                assert(any.spell(t) == target_dynamic(t));
                assert(lowered(ty, t) == optional_in(any, t));
                assert(optional_in(any, t).spell(t) == target_absent(t));
            } else {
                assert(r[0] == base[0]);
                assert(is_name_char(base[0]));
                assert(tuple_of(r) is None);
                lemma_generic_of_render(base, *args);
                lemma_denormalize_items(*args, t);
                let items = denormalize_items(args.render(), t);
                let la = lowered_args(*args, t);
                assert(items == la.spell_each(t));
                assert(la.well_formed(t));
                match *args {
                    CanonicalArgs::One(e) => {
                        let le = lowered(*e, t);
                        assert(la == TargetArgs::One(Box::new(le)));
                        assert(le.well_formed(t));
                        assert(items == seq![le.spell(t)]);
                        assert(items.len() == 1);
                        assert(items[0] == le.spell(t));
                        if is_list_name(base) {
                            assert(lowered(ty, t) == TargetType::List(Box::new(le)));
                        } else if is_option_name(base) {
                            assert(lowered(ty, t) == optional_in(le, t));
                            assert(optional_in(le, t).well_formed(t));
                            assert(optional_in(le, t).spell(t) == target_option(le.spell(t), t));
                        } else {
                            assert(lowered(ty, t) == TargetType::Apply(base, Box::new(la)));
                        }
                    },
                    CanonicalArgs::More(k, rest) => {
                        let lk = lowered(*k, t);
                        let lr = lowered_args(*rest, t);
                        assert(la == TargetArgs::More(Box::new(lk), Box::new(lr)));
                        assert(items == seq![lk.spell(t)] + lr.spell_each(t));
                        assert(lk.well_formed(t) && lr.well_formed(t));
                        match *rest {
                            CanonicalArgs::One(v) => {
                                let lv = lowered(*v, t);
                                assert(lr == TargetArgs::One(Box::new(lv)));
                                assert(lr.spell_each(t) == seq![lv.spell(t)]);
                                assert(items.len() == 2);
                                assert(items[0] == lk.spell(t));
                                assert(items[1] == lv.spell(t));
                                assert(lv.well_formed(t));
                                if is_map_name(base) {
                                    assert(lowered(ty, t) == TargetType::Table(
                                        Box::new(lk),
                                        Box::new(lv),
                                    ));
                                } else {
                                    assert(lowered(ty, t) == TargetType::Apply(
                                        base,
                                        Box::new(la),
                                    ));
                                }
                            },
                            CanonicalArgs::More(x, more) => {
                                let lx = lowered(*x, t);
                                let lm = lowered_args(*more, t);
                                assert(lr == TargetArgs::More(Box::new(lx), Box::new(lm)));
                                lemma_spell_each_len(lm, t);
                                assert(lr.spell_each(t) == seq![lx.spell(t)] + lm.spell_each(t));
                                assert(items.len() >= 3);
                                assert(lowered(ty, t) == TargetType::Apply(base, Box::new(la)));
                            },
                        }
                    },
                }
            }
        },
        CanonicalType::Tuple(args) => {
            let a = args.render();
            reveal_strlit("Option::<_>");
            assert(r.len() == 1 + a.len() + 1);
            assert(r[0] == '(');
            assert(r.last() == ')');
            assert("Option::<_>"@[0] == 'O');
            assert(r != "Option::<_>"@);
            assert(r.subrange(1, r.len() - 1) == a);
            assert(tuple_of(r) == Some(a));
            lemma_denormalize_items(*args, t);
            assert(lowered(ty, t) == TargetType::Tuple(Box::new(lowered_args(*args, t))));
        },
    }
}

/// A list of target types has at least one text.
proof fn lemma_spell_each_len(args: TargetArgs, t: Target)
    ensures
        args.spell_each(t).len() >= 1,
    decreases args,
{
    match args {
        TargetArgs::One(e) => {},
        TargetArgs::More(e, rest) => {
            lemma_spell_each_len(*rest, t);
        },
    }
}

/// The target spelling of each argument of the text of canonical arguments is the text of
/// the target type that stands for it.
proof fn lemma_denormalize_items(args: CanonicalArgs, t: Target)
    requires
        args.well_formed(),
    ensures
        denormalize_items(args.render(), t) == lowered_args(args, t).spell_each(t),
        lowered_args(args, t).well_formed(t),
    decreases args, 0nat,
{
    lemma_shape_args(args);
    match args {
        CanonicalArgs::One(e) => {
            lemma_no_outer_comma(*e);
            lemma_denormalize(*e, t);
        },
        CanonicalArgs::More(e, rest) => {
            lemma_first_argument(*e, *rest);
            lemma_denormalize(*e, t);
            lemma_denormalize_items(*rest, t);
        },
    }
}

/// Normalizing the text of a type, written in any of the bracket styles, and spelling the
/// result for a target gives a well-formed type of the target's grammar: a name of the
/// target, a list, an optional type, a map, a tuple, or a generic type applied to such
/// types.
pub proof fn lemma_target_spelling_is_valid(ty: CanonicalType, b: Brackets, t: Target)
    requires
        ty.plain(),
    ensures
        lowered(ty.canon(), t).well_formed(t),
        denormalize(normalize(ty.spelled(b)), t) == lowered(ty.canon(), t).spell(t),
{
    lemma_normalize_spelled(ty, b);
    lemma_denormalize(ty.canon(), t);
}

} // verus!
