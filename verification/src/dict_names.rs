//! The names of dictionary parameters.

use vstd::prelude::*;
use vstd::utf8::encode_utf8;

use crate::ast::DictRef;
use crate::ast_view::{dict_ref_view, dict_refs_view, DictRefV};
use crate::display::byte_len;
use crate::rows::FieldV;
use crate::text::{decimal, decimal_string, digit_char, join, join_strings, strings_view};
use crate::ty::{constraint_view, constraints_view, field_view, fields_view, param_view};
use crate::ty::{params_view, return_view, row_view, ty_view, tys_view, ConstraintV, FuncParam};
use crate::ty::{ParamV, TraitConstraint, Ty, TyV};

verus! {

/// Whether a byte stands for itself in a name.
pub open spec fn plain_byte(b: u8) -> bool {
    (48 <= b <= 57) || (65 <= b <= 90) || (97 <= b <= 122) || b == 95
}

/// A digit to the base of sixteen.
pub open spec fn hex_char(d: nat) -> char {
    if d < 10 {
        digit_char(d)
    } else if d == 10 {
        'a'
    } else if d == 11 {
        'b'
    } else if d == 12 {
        'c'
    } else if d == 13 {
        'd'
    } else if d == 14 {
        'e'
    } else {
        'f'
    }
}

/// Bytes as letters, digits and underscores; any other byte is `x` and its two
/// digits to the base of sixteen.
pub open spec fn plain_text(bytes: Seq<u8>) -> Seq<char>
    decreases bytes.len(),
{
    if bytes.len() == 0 {
        Seq::empty()
    } else {
        let b = bytes.last();
        let rest = plain_text(bytes.drop_last());
        if plain_byte(b) {
            rest.push(b as char)
        } else {
            rest.push('x').push(hex_char(b as nat / 16)).push(hex_char(b as nat % 16))
        }
    }
}

/// A name with its length in front.
pub open spec fn name_fragment(name: Seq<char>) -> Seq<char> {
    decimal(byte_len(name)) + "_"@ + plain_text(encode_utf8(name))
}

/// Texts, each with its length in front, and how many they are.
pub open spec fn list_text(items: Seq<Seq<char>>) -> Seq<char> {
    decimal(items.len()) + "_"@ + join(sized_texts(items), "_"@)
}

/// Each text with its length in front.
pub open spec fn sized_texts(items: Seq<Seq<char>>) -> Seq<Seq<char>> {
    Seq::new(items.len(), |i: int| decimal(byte_len(items[i])) + "_"@ + items[i])
}

/// A type as a part of a name.
pub open spec fn ty_fragment(ty: TyV) -> Seq<char>
    decreases ty,
{
    match ty {
        TyV::Int => "int"@,
        TyV::Float => "float"@,
        TyV::Unit => "unit"@,
        TyV::Never => "never"@,
        TyV::Var(v) => "v"@ + decimal(v as nat),
        TyV::Con(name) => "c"@ + name_fragment(name),
        TyV::App(con, args) => "app"@ + ty_fragment(*con) + "_"@ + list_text(ty_fragments(args)),
        TyV::Tuple(items) => "tuple"@ + list_text(ty_fragments(items)),
        TyV::Func(params, ret) => "fn"@ + list_text(param_fragments(params)) + "_ret"@
            + ty_fragment(*ret.ty),
        TyV::Record(row) => "record"@ + list_text(field_fragments(row.fields)) + "_tail"@
            + ty_fragment(*row.tail),
        TyV::Qualified(cs, inner) => "qualified"@ + list_text(constraint_fragments(cs))
            + "_inner"@ + ty_fragment(*inner),
    }
}

pub open spec fn ty_fragments(s: Seq<TyV>) -> Seq<Seq<char>>
    decreases s,
{
    Seq::new(
        s.len(),
        |i: int|
            if 0 <= i < s.len() {
                ty_fragment(s[i])
            } else {
                arbitrary()
            },
    )
}

pub open spec fn param_fragments(s: Seq<ParamV>) -> Seq<Seq<char>>
    decreases s,
{
    Seq::new(
        s.len(),
        |i: int|
            if 0 <= i < s.len() {
                ty_fragment(s[i].ty)
            } else {
                arbitrary()
            },
    )
}

pub open spec fn field_fragments(s: Seq<FieldV>) -> Seq<Seq<char>>
    decreases s,
{
    Seq::new(
        s.len(),
        |i: int|
            if 0 <= i < s.len() {
                name_fragment(s[i].0) + "_"@ + ty_fragment(s[i].1)
            } else {
                arbitrary()
            },
    )
}

pub open spec fn constraint_fragments(s: Seq<ConstraintV>) -> Seq<Seq<char>>
    decreases s,
{
    Seq::new(
        s.len(),
        |i: int|
            if 0 <= i < s.len() {
                name_fragment(s[i].trait_name) + list_text(ty_fragments(s[i].args))
            } else {
                arbitrary()
            },
    )
}

/// Whether each type is the variable `v`.
pub open spec fn only_var(args: Seq<TyV>, v: u32) -> bool {
    forall|i: int| 0 <= i < args.len() ==> #[trigger] args[i] == TyV::Var(v)
}

/// The name of the dictionary parameter for a constraint. A constraint that says
/// no more than its variable is named by that variable alone.
pub open spec fn param_name(c: ConstraintV) -> Seq<char> {
    let short = "__dict_"@ + c.trait_name + "_"@ + decimal(c.var as nat);
    if only_var(c.args, c.var) {
        short
    } else {
        short + "_"@ + join(ty_fragments(c.args), "_"@)
    }
}

fn hex_digit(d: u8) -> (c: char)
    requires
        d < 16,
    ensures
        c == hex_char(d as nat),
{
    match d {
        0 => '0',
        1 => '1',
        2 => '2',
        3 => '3',
        4 => '4',
        5 => '5',
        6 => '6',
        7 => '7',
        8 => '8',
        9 => '9',
        10 => 'a',
        11 => 'b',
        12 => 'c',
        13 => 'd',
        14 => 'e',
        _ => 'f',
    }
}

fn stable_name_fragment(name: &str) -> (r: String)
    ensures
        r@ == name_fragment(name@),
{
    let bytes = name.as_bytes();
    let mut out = decimal_string(bytes.len() as u128);
    out.append("_");
    let ghost front = out@;
    let ghost all = bytes@;
    let mut i: usize = 0;
    assert(all.take(0) =~= Seq::empty());
    assert(out@ =~= front + plain_text(all.take(0)));
    while i < bytes.len()
        invariant
            i <= bytes.len(),
            all == bytes@,
            out@ == front + plain_text(all.take(i as int)),
        decreases bytes.len() - i,
    {
        let ghost before = out@;
        let b: u8 = bytes[i];
        proof {
            assert(all.take(i + 1).drop_last() =~= all.take(i as int));
            assert(all.take(i + 1).last() == b);
        }
        if (48 <= b && b <= 57) || (65 <= b && b <= 90) || (97 <= b && b <= 122) || b == 95 {
            out.push(b as char);
        } else {
            out.push('x');
            out.push(hex_digit(b / 16));
            out.push(hex_digit(b % 16));
        }
        assert(out@ =~= front + plain_text(all.take(i + 1)));
        i = i + 1;
    }
    assert(all.take(all.len() as int) =~= all);
    out
}

fn list_fragment(items: &Vec<String>) -> (r: String)
    ensures
        r@ == list_text(strings_view(items@)),
{
    let ghost all = strings_view(items@);
    let mut sized: Vec<String> = Vec::new();
    let mut i: usize = 0;
    while i < items.len()
        invariant
            i <= items.len(),
            all == strings_view(items@),
            sized@.len() == i,
            forall|j: int| 0 <= j < i ==> (#[trigger] sized@[j])@ == sized_texts(all)[j],
        decreases items.len() - i,
    {
        let mut part = decimal_string(items[i].as_str().as_bytes().len() as u128);
        part.append("_");
        part.append(items[i].as_str());
        assert(part@ =~= sized_texts(all)[i as int]);
        sized.push(part);
        i = i + 1;
    }
    assert(strings_view(sized@) =~= sized_texts(all));
    let mut out = decimal_string(items.len() as u128);
    out.append("_");
    out.append(join_strings(&sized, "_").as_str());
    out
}

fn dict_param_ty_fragment(ty: &Ty) -> (r: String)
    ensures
        r@ == ty_fragment(ty@),
    decreases *ty,
{
    match ty {
        Ty::Int => "int".to_owned(),
        Ty::Float => "float".to_owned(),
        Ty::Unit => "unit".to_owned(),
        Ty::Never => "never".to_owned(),
        Ty::Var(v) => {
            let mut out = "v".to_owned();
            out.append(decimal_string(*v as u128).as_str());
            out
        },
        Ty::Con(name) => {
            let mut out = "c".to_owned();
            out.append(stable_name_fragment(name.as_str()).as_str());
            out
        },
        Ty::App(con, args) => {
            let mut out = "app".to_owned();
            out.append(dict_param_ty_fragment(con).as_str());
            out.append("_");
            out.append(list_fragment(&tys_fragments(args)).as_str());
            out
        },
        Ty::Tuple(items) => {
            let mut out = "tuple".to_owned();
            out.append(list_fragment(&tys_fragments(items)).as_str());
            out
        },
        Ty::Func(params, ret) => {
            assert(return_view(*ret).ty == Box::new(ty_view(*ret.ty)));
            let mut out = "fn".to_owned();
            out.append(list_fragment(&params_fragments(params)).as_str());
            out.append("_ret");
            out.append(dict_param_ty_fragment(&ret.ty).as_str());
            out
        },
        Ty::Record(row) => {
            assert(row_view(*row).tail == Box::new(ty_view(*row.tail)));
            let mut out = "record".to_owned();
            out.append(list_fragment(&fields_fragments(&row.fields)).as_str());
            out.append("_tail");
            out.append(dict_param_ty_fragment(&row.tail).as_str());
            out
        },
        Ty::Qualified(cs, inner) => {
            let mut out = "qualified".to_owned();
            out.append(list_fragment(&constraints_fragments(cs)).as_str());
            out.append("_inner");
            out.append(dict_param_ty_fragment(inner).as_str());
            out
        },
    }
}

fn tys_fragments(s: &Vec<Ty>) -> (r: Vec<String>)
    ensures
        strings_view(r@) == ty_fragments(tys_view(s@)),
        r@.len() == s@.len(),
    decreases s@,
{
    let ghost all = tys_view(s@);
    let ghost want = ty_fragments(all);
    let mut out: Vec<String> = Vec::new();
    let mut i: usize = 0;
    while i < s.len()
        invariant
            i <= s.len(),
            all == tys_view(s@),
            want == ty_fragments(all),
            out@.len() == i,
            forall|j: int| 0 <= j < i ==> (#[trigger] out@[j])@ == want[j],
        decreases s.len() - i,
    {
        assert(all[i as int] == all[i as int]);
        assert(decreases_to!(s@ => s@[i as int]));
        out.push(dict_param_ty_fragment(&s[i]));
        i = i + 1;
    }
    assert(strings_view(out@) =~= want);
    out
}

fn params_fragments(s: &Vec<FuncParam>) -> (r: Vec<String>)
    ensures
        strings_view(r@) == param_fragments(params_view(s@)),
        r@.len() == s@.len(),
    decreases s@,
{
    let ghost all = params_view(s@);
    let ghost want = param_fragments(all);
    let mut out: Vec<String> = Vec::new();
    let mut i: usize = 0;
    while i < s.len()
        invariant
            i <= s.len(),
            all == params_view(s@),
            want == param_fragments(all),
            out@.len() == i,
            forall|j: int| 0 <= j < i ==> (#[trigger] out@[j])@ == want[j],
        decreases s.len() - i,
    {
        assert(all[i as int] == all[i as int]);
        assert(decreases_to!(s@ => s@[i as int]));
        assert(decreases_to!(s@[i as int] => s@[i as int].ty));
        assert(all[i as int] == param_view(s@[i as int]));
        out.push(dict_param_ty_fragment(&s[i].ty));
        i = i + 1;
    }
    assert(strings_view(out@) =~= want);
    out
}

fn fields_fragments(s: &Vec<(String, Ty)>) -> (r: Vec<String>)
    ensures
        strings_view(r@) == field_fragments(fields_view(s@)),
        r@.len() == s@.len(),
    decreases s@,
{
    let ghost all = fields_view(s@);
    let ghost want = field_fragments(all);
    let mut out: Vec<String> = Vec::new();
    let mut i: usize = 0;
    while i < s.len()
        invariant
            i <= s.len(),
            all == fields_view(s@),
            want == field_fragments(all),
            out@.len() == i,
            forall|j: int| 0 <= j < i ==> (#[trigger] out@[j])@ == want[j],
        decreases s.len() - i,
    {
        assert(all[i as int] == all[i as int]);
        assert(decreases_to!(s@ => s@[i as int]));
        assert(decreases_to!(s@[i as int] => s@[i as int].1));
        assert(all[i as int] == field_view(s@[i as int]));
        let mut part = stable_name_fragment(s[i].0.as_str());
        part.append("_");
        part.append(dict_param_ty_fragment(&s[i].1).as_str());
        assert(part@ =~= want[i as int]);
        out.push(part);
        i = i + 1;
    }
    assert(strings_view(out@) =~= want);
    out
}

fn constraints_fragments(s: &Vec<TraitConstraint>) -> (r: Vec<String>)
    ensures
        strings_view(r@) == constraint_fragments(constraints_view(s@)),
        r@.len() == s@.len(),
    decreases s@,
{
    let ghost all = constraints_view(s@);
    let ghost want = constraint_fragments(all);
    let mut out: Vec<String> = Vec::new();
    let mut i: usize = 0;
    while i < s.len()
        invariant
            i <= s.len(),
            all == constraints_view(s@),
            want == constraint_fragments(all),
            out@.len() == i,
            forall|j: int| 0 <= j < i ==> (#[trigger] out@[j])@ == want[j],
        decreases s.len() - i,
    {
        assert(all[i as int] == all[i as int]);
        assert(decreases_to!(s@ => s@[i as int]));
        assert(decreases_to!(s@[i as int] => s@[i as int].args));
        assert(decreases_to!(s@[i as int].args => s@[i as int].args@));
        assert(all[i as int] == constraint_view(s@[i as int]));
        let mut part = stable_name_fragment(s[i].trait_name.as_str());
        part.append(list_fragment(&tys_fragments(&s[i].args)).as_str());
        assert(part@ =~= want[i as int]);
        out.push(part);
        i = i + 1;
    }
    assert(strings_view(out@) =~= want);
    out
}

fn args_only_var(args: &Vec<Ty>, v: u32) -> (r: bool)
    ensures
        r == only_var(tys_view(args@), v),
{
    let ghost all = tys_view(args@);
    let mut i: usize = 0;
    while i < args.len()
        invariant
            i <= args.len(),
            all == tys_view(args@),
            forall|j: int| 0 <= j < i ==> #[trigger] all[j] == TyV::Var(v),
        decreases args.len() - i,
    {
        assert(all[i as int] == ty_view(args@[i as int]));
        match &args[i] {
            Ty::Var(w) => {
                if *w != v {
                    return false;
                }
            },
            _ => {
                return false;
            },
        }
        i = i + 1;
    }
    true
}

/// The name of the dictionary parameter for a constraint.
pub fn dict_param_name(c: &TraitConstraint) -> (r: String)
    ensures
        r@ == param_name(c@),
{
    let mut out = "__dict_".to_owned();
    out.append(c.trait_name.as_str());
    out.append("_");
    out.append(decimal_string(c.var as u128).as_str());
    if !args_only_var(&c.args, c.var) {
        out.append("_");
        out.append(join_strings(&tys_fragments(&c.args), "_").as_str());
    }
    out
}

/// The names of the dictionary parameters for constraints.
pub open spec fn param_names(cs: Seq<ConstraintV>) -> Seq<Seq<char>> {
    Seq::new(cs.len(), |i: int| param_name(cs[i]))
}

/// The dictionary parameters for constraints, as dictionaries.
pub open spec fn param_dicts(cs: Seq<ConstraintV>) -> Seq<DictRefV> {
    Seq::new(cs.len(), |i: int| DictRefV::Param(param_name(cs[i])))
}

/// The names of the dictionary parameters for constraints.
pub fn dict_param_names(cs: &Vec<TraitConstraint>) -> (r: Vec<String>)
    ensures
        strings_view(r@) == param_names(constraints_view(cs@)),
{
    let ghost all = constraints_view(cs@);
    let mut out: Vec<String> = Vec::new();
    let mut i: usize = 0;
    while i < cs.len()
        invariant
            i <= cs.len(),
            all == constraints_view(cs@),
            out@.len() == i,
            forall|j: int| 0 <= j < i ==> (#[trigger] out@[j])@ == param_names(all)[j],
        decreases cs.len() - i,
    {
        assert(all[i as int] == constraint_view(cs@[i as int]));
        out.push(dict_param_name(&cs[i]));
        i = i + 1;
    }
    assert(strings_view(out@) =~= param_names(all));
    out
}

/// The dictionary parameters for constraints, as dictionaries.
pub fn dict_params(cs: &Vec<TraitConstraint>) -> (r: Vec<DictRef>)
    ensures
        dict_refs_view(r@) == param_dicts(constraints_view(cs@)),
{
    let ghost all = constraints_view(cs@);
    let mut out: Vec<DictRef> = Vec::new();
    let mut i: usize = 0;
    while i < cs.len()
        invariant
            i <= cs.len(),
            all == constraints_view(cs@),
            out@.len() == i,
            forall|j: int|
                0 <= j < i ==> dict_ref_view(#[trigger] out@[j]) == param_dicts(all)[j],
        decreases cs.len() - i,
    {
        assert(all[i as int] == constraint_view(cs@[i as int]));
        out.push(DictRef::Param(dict_param_name(&cs[i])));
        i = i + 1;
    }
    assert(dict_refs_view(out@) =~= param_dicts(all));
    out
}

/// The name of a dictionary that stands for an implementation.
pub open spec fn concrete_name(dict: DictRefV) -> Option<Seq<char>> {
    match dict {
        DictRefV::Concrete(name) => Some(name),
        DictRefV::Applied { dict, .. } => Some(dict),
        _ => None,
    }
}

/// The name of a dictionary that stands for an implementation.
pub fn dict_ref_concrete_name(dict: &DictRef) -> (r: Option<String>)
    ensures
        match (r, concrete_name(dict@)) {
            (Some(a), Some(b)) => a@ == b,
            (None, None) => true,
            _ => false,
        },
{
    match dict {
        DictRef::Concrete(name) => Some(name.clone()),
        DictRef::Applied { dict, .. } => Some(dict.clone()),
        _ => None,
    }
}

} // verus!
