//! How types, schemes and environment entries read as text.

use std::collections::HashMap;
use vstd::prelude::*;

use crate::rows::FieldV;
use crate::text::{decimal, decimal_string, join, join_strings, str_eq, strings_view};
use crate::ty::{constraint_view, constraints_view, field_view, fields_view, param_view};
use crate::ty::{params_view, ty_view, tys_view};
use crate::ty::{ConstraintV, EnvInfo, EnvInfoV, FuncParam, ParamCapability, ParamV};
use crate::ty::{ReturnCapability, Row, RowV, Scheme, SchemeV, TraitConstraint, Ty, TyV, TyVar};

verus! {

broadcast use vstd::std_specs::hash::group_hash_axioms;

// ---------------------------------------------------------------------------
// Names of type variables
// ---------------------------------------------------------------------------

/// The lowercase letter at a position of the alphabet.
pub open spec fn letter(n: nat) -> char {
    (97 + n) as char
}

/// Counting with letters: `a` to `z`, then `aa`, `ab` and so on.
pub open spec fn letters(n: nat) -> Seq<char>
    decreases n,
{
    if n < 26 {
        seq![letter(n)]
    } else {
        letters((n / 26 - 1) as nat).push(letter(n % 26))
    }
}

fn letter_char(n: usize) -> (c: char)
    requires
        n < 26,
    ensures
        c == letter(n as nat),
{
    let code: u8 = 97 + n as u8;
    code as char
}

/// Converts a 0-based scheme-variable index to a human-readable lowercase letter name
/// using bijective base-26: 0→"a", 25→"z", 26→"aa", 701→"zz", 702→"aaa", …
pub fn type_var_name(index: usize) -> (s: String)
    ensures
        s@ == letters(index as nat),
    decreases index,
{
    if index < 26 {
        let mut s = String::new();
        s.push(letter_char(index));
        assert(s@ =~= letters(index as nat));
        s
    } else {
        let mut s = type_var_name(index / 26 - 1);
        s.push(letter_char(index % 26));
        s
    }
}

/// Different positions have different names.
pub proof fn law_letters_injective(a: nat, b: nat)
    requires
        letters(a) == letters(b),
    ensures
        a == b,
    decreases a,
{
    lemma_letters_len(a);
    lemma_letters_len(b);
    let la = letters(a);
    let lb = letters(b);
    if a < 26 || b < 26 {
        assert(la[0] == lb[0]);
    } else {
        assert(la.last() == lb.last());
        assert(la.drop_last() =~= letters((a / 26 - 1) as nat));
        assert(lb.drop_last() =~= letters((b / 26 - 1) as nat));
        law_letters_injective((a / 26 - 1) as nat, (b / 26 - 1) as nat);
    }
}

proof fn lemma_letters_len(n: nat)
    ensures
        letters(n).len() >= 1,
        n >= 26 ==> letters(n).len() >= 2,
        n < 26 ==> letters(n).len() == 1,
    decreases n,
{
    if n >= 26 {
        lemma_letters_len((n / 26 - 1) as nat);
    }
}

/// Whether `c` is one of the characters of `s`.
pub fn contains_char(s: &str, c: char) -> (r: bool)
    ensures
        r == s@.contains(c),
{
    let n = s.unicode_len();
    let mut i: usize = 0;
    while i < n
        invariant
            n == s@.len(),
            i <= n,
            forall|j: int| 0 <= j < i ==> s@[j] != c,
        decreases n - i,
    {
        if s.get_char(i) == c {
            return true;
        }
        i = i + 1;
    }
    false
}

// ---------------------------------------------------------------------------
// Types
// ---------------------------------------------------------------------------

/// The names given to type variables.
pub type NamesV = Map<TyVar, Seq<char>>;

/// The views of the names in a map.
pub open spec fn names_view(m: Map<TyVar, String>) -> NamesV {
    m.map_values(|s: String| s@)
}

/// The name of a variable, or its number if it has none.
pub open spec fn var_label(names: NamesV, v: TyVar) -> Seq<char> {
    if names.dom().contains(v) {
        names[v]
    } else {
        decimal(v as nat)
    }
}

/// A type as text, with variables named by `names`.
pub open spec fn ty_text(names: NamesV, t: TyV) -> Seq<char>
    decreases t,
{
    match t {
        TyV::Int => "int"@,
        TyV::Float => "float"@,
        TyV::Unit => "()"@,
        TyV::Never => "!"@,
        TyV::Var(v) => "'"@ + var_label(names, v),
        TyV::Con(name) => name,
        TyV::Qualified(cs, inner) => "["@ + join(constraint_texts(names, cs), ", "@) + "] "@
            + ty_text(names, *inner),
        TyV::App(con, args) => {
            if *con == TyV::Con("Array"@) && args.len() == 1 {
                "["@ + ty_text(names, args[0]) + "]"@
            } else {
                ty_text(names, *con) + "("@ + join(ty_texts(names, args), ", "@) + ")"@
            }
        },
        TyV::Tuple(ts) => "("@ + join(ty_texts(names, ts), ", "@) + ")"@,
        TyV::Func(ps, ret) => "fn("@ + join(param_texts(names, ps), ", "@) + ") -> "@ + (
        if ret.capability == ReturnCapability::FreshPlace {
            "mut "@
        } else {
            ""@
        }) + ty_text(names, *ret.ty),
        TyV::Record(row) => record_text(
            field_texts(names, row.fields),
            *row.tail == TyV::Unit,
            ty_text(names, *row.tail),
        ),
    }
}

pub open spec fn ty_texts(names: NamesV, ts: Seq<TyV>) -> Seq<Seq<char>>
    decreases ts,
{
    Seq::new(
        ts.len(),
        |i: int|
            if 0 <= i < ts.len() {
                ty_text(names, ts[i])
            } else {
                arbitrary()
            },
    )
}

/// A constraint as text: the variable and the trait.
pub open spec fn constraint_text(names: NamesV, c: ConstraintV) -> Seq<char> {
    "'"@ + var_label(names, c.var) + ": "@ + c.trait_name
}

pub open spec fn constraint_texts(names: NamesV, cs: Seq<ConstraintV>) -> Seq<Seq<char>> {
    Seq::new(cs.len(), |i: int| constraint_text(names, cs[i]))
}

pub open spec fn param_texts(names: NamesV, ps: Seq<ParamV>) -> Seq<Seq<char>>
    decreases ps,
{
    Seq::new(
        ps.len(),
        |i: int|
            if 0 <= i < ps.len() {
                (if ps[i].capability == ParamCapability::MutPlace {
                    "mut "@
                } else {
                    ""@
                }) + ty_text(names, ps[i].ty)
            } else {
                arbitrary()
            },
    )
}

/// The fields of a record: the name of each and the text of its type.
pub type FieldTextV = (Seq<char>, Seq<char>);

pub open spec fn field_texts(names: NamesV, fs: Seq<FieldV>) -> Seq<FieldTextV>
    decreases fs,
{
    Seq::new(
        fs.len(),
        |i: int|
            if 0 <= i < fs.len() {
                (fs[i].0, ty_text(names, fs[i].1))
            } else {
                arbitrary()
            },
    )
}

/// How many bytes a text takes up.
pub open spec fn byte_len(s: Seq<char>) -> nat {
    vstd::utf8::encode_utf8(s).len()
}

/// How many bytes the first `n` fields take up on one line, each as its name,
/// a colon, a space and its type.
pub open spec fn fields_len(fields: Seq<FieldTextV>, n: nat) -> nat
    decreases n,
{
    if n == 0 {
        0
    } else {
        fields_len(fields, (n - 1) as nat) + byte_len(fields[n - 1].0) + 2 + byte_len(
            fields[n - 1].1,
        )
    }
}

/// How many bytes the record takes up on one line.
pub open spec fn inline_len(fields: Seq<FieldTextV>) -> nat {
    fields_len(fields, fields.len()) + (if fields.len() > 0 {
        ((fields.len() - 1) * 2) as nat
    } else {
        0
    }) + 4
}

/// Whether a record is spread over several lines: if it has four fields or
/// more, if a field is, or if it would take up more than 80 bytes.
pub open spec fn is_multiline(fields: Seq<FieldTextV>) -> bool {
    fields.len() >= 4 || (exists|i: int|
        0 <= i < fields.len() && (#[trigger] fields[i]).1.contains('\n')) || inline_len(fields)
        > 80
}

pub open spec fn inline_fields(fields: Seq<FieldTextV>) -> Seq<Seq<char>> {
    Seq::new(fields.len(), |i: int| fields[i].0 + ": "@ + fields[i].1)
}

/// The first `n` fields, a line each.
pub open spec fn field_lines(fields: Seq<FieldTextV>, n: nat) -> Seq<char>
    decreases n,
{
    if n == 0 {
        Seq::empty()
    } else {
        field_lines(fields, (n - 1) as nat) + "  "@ + fields[n - 1].0 + ": "@ + fields[n - 1].1
            + ",\n"@
    }
}

/// A record as text, from its fields and the text of its remaining fields.
pub open spec fn record_text(fields: Seq<FieldTextV>, is_closed: bool, tail: Seq<char>) -> Seq<
    char,
> {
    if is_multiline(fields) {
        "#{ \n"@ + field_lines(fields, fields.len()) + (if is_closed {
            ""@
        } else {
            "  .."@ + tail + ",\n"@
        }) + "}"@
    } else {
        "#{ "@ + join(inline_fields(fields), ", "@) + (if is_closed {
            ""@
        } else {
            ", .."@ + tail
        }) + " }"@
    }
}

fn var_label_string(names: &HashMap<TyVar, String>, v: TyVar) -> (s: String)
    ensures
        s@ == var_label(names_view(names@), v),
{
    match names.get(&v) {
        Some(name) => name.clone(),
        None => decimal_string(v as u128),
    }
}

/// Displays a type using a caller-supplied naming context that maps type variables to
/// human-readable letters (e.g. `'a`, `'b`).
pub fn display_ty_with_var_names(ty: &Ty, names: &HashMap<TyVar, String>) -> (s: String)
    ensures
        s@ == ty_text(names_view(names@), ty@),
    decreases *ty,
{
    let ghost nv = names_view(names@);
    let mut out = String::new();
    match ty {
        Ty::Int => {
            out.append("int");
            assert(out@ =~= "int"@);
        },
        Ty::Float => {
            out.append("float");
            assert(out@ =~= "float"@);
        },
        Ty::Unit => {
            out.append("()");
            assert(out@ =~= "()"@);
        },
        Ty::Never => {
            out.append("!");
            assert(out@ =~= "!"@);
        },
        Ty::Var(v) => {
            out.append("'");
            out.append(var_label_string(names, *v).as_str());
            assert(out@ =~= "'"@ + var_label(nv, *v));
        },
        Ty::Con(name) => {
            out.append(name.as_str());
            assert(out@ =~= name@);
        },
        Ty::Qualified(constraints, inner) => {
            let parts = display_constraints(constraints, names);
            let body = display_ty_with_var_names(inner, names);
            out.append("[");
            out.append(join_strings(&parts, ", ").as_str());
            out.append("] ");
            out.append(body.as_str());
            assert(out@ =~= "["@ + join(constraint_texts(nv, constraints_view(constraints@)), ", "@)
                + "] "@ + ty_text(nv, inner@));
        },
        Ty::App(con, args) => {
            if is_array_con(con) && args.len() == 1 {
                let body = display_ty_with_var_names(&args[0], names);
                out.append("[");
                out.append(body.as_str());
                out.append("]");
                assert(tys_view(args@)[0] == ty_view(args@[0]));
                assert(out@ =~= "["@ + ty_text(nv, tys_view(args@)[0]) + "]"@);
            } else {
                let head = display_ty_with_var_names(con, names);
                let parts = display_tys(args, names);
                out.append(head.as_str());
                out.append("(");
                out.append(join_strings(&parts, ", ").as_str());
                out.append(")");
                assert(out@ =~= ty_text(nv, con@) + "("@ + join(
                    ty_texts(nv, tys_view(args@)),
                    ", "@,
                ) + ")"@);
            }
        },
        Ty::Tuple(tys) => {
            let parts = display_tys(tys, names);
            out.append("(");
            out.append(join_strings(&parts, ", ").as_str());
            out.append(")");
            assert(out@ =~= "("@ + join(ty_texts(nv, tys_view(tys@)), ", "@) + ")"@);
        },
        Ty::Func(params, ret) => {
            let parts = display_params(params, names);
            let body = display_ty_with_var_names(&ret.ty, names);
            out.append("fn(");
            out.append(join_strings(&parts, ", ").as_str());
            out.append(") -> ");
            if ret.capability == ReturnCapability::FreshPlace {
                out.append("mut ");
            } else {
                out.append("");
            }
            out.append(body.as_str());
            assert(out@ =~= "fn("@ + join(param_texts(nv, params_view(params@)), ", "@) + ") -> "@ + (
            if ret.capability == ReturnCapability::FreshPlace {
                "mut "@
            } else {
                ""@
            }) + ty_text(nv, ret.ty@));
        },
        Ty::Record(row) => {
            let fields = display_fields(&row.fields, names);
            let is_closed = match &*row.tail {
                Ty::Unit => true,
                _ => false,
            };
            let tail = display_ty_with_var_names(&row.tail, names);
            assert(ty_view(*row.tail) == TyV::Unit <==> is_closed);
            return render_record(&fields, is_closed, &tail);
        },
    }
    out
}

fn is_array_con(t: &Ty) -> (r: bool)
    ensures
        r == (t@ == TyV::Con("Array"@)),
{
    match t {
        Ty::Con(name) => str_eq(name.as_str(), "Array"),
        _ => false,
    }
}

fn display_tys(tys: &Vec<Ty>, names: &HashMap<TyVar, String>) -> (r: Vec<String>)
    ensures
        strings_view(r@) == ty_texts(names_view(names@), tys_view(tys@)),
    decreases tys@,
{
    let ghost nv = names_view(names@);
    let mut out: Vec<String> = Vec::new();
    let mut i: usize = 0;
    while i < tys.len()
        invariant
            nv == names_view(names@),
            i <= tys.len(),
            out@.len() == i,
            forall|j: int| 0 <= j < i ==> (#[trigger] out@[j])@ == ty_text(nv, ty_view(tys@[j])),
        decreases tys.len() - i,
    {
        out.push(display_ty_with_var_names(&tys[i], names));
        i = i + 1;
    }
    assert(strings_view(out@) =~= ty_texts(nv, tys_view(tys@)));
    out
}

fn display_params(ps: &Vec<FuncParam>, names: &HashMap<TyVar, String>) -> (r: Vec<String>)
    ensures
        strings_view(r@) == param_texts(names_view(names@), params_view(ps@)),
    decreases ps@,
{
    let ghost nv = names_view(names@);
    let ghost all = params_view(ps@);
    let ghost want = param_texts(nv, all);
    let mut out: Vec<String> = Vec::new();
    let mut i: usize = 0;
    while i < ps.len()
        invariant
            nv == names_view(names@),
            all == params_view(ps@),
            want == param_texts(nv, all),
            i <= ps.len(),
            out@.len() == i,
            forall|j: int| 0 <= j < i ==> (#[trigger] out@[j])@ == want[j],
        decreases ps.len() - i,
    {
        let mut text = String::new();
        if ps[i].capability.is_mut_place() {
            text.append("mut ");
        } else {
            text.append("");
        }
        text.append(display_ty_with_var_names(&ps[i].ty, names).as_str());
        proof {
            assert(all[i as int] == param_view(ps@[i as int]));
            assert(text@ =~= want[i as int]);
        }
        out.push(text);
        i = i + 1;
    }
    assert(strings_view(out@) =~= want);
    out
}

fn display_constraints(cs: &Vec<TraitConstraint>, names: &HashMap<TyVar, String>) -> (r: Vec<
    String,
>)
    ensures
        strings_view(r@) == constraint_texts(names_view(names@), constraints_view(cs@)),
{
    let ghost nv = names_view(names@);
    let ghost all = constraints_view(cs@);
    let ghost want = constraint_texts(nv, all);
    let mut out: Vec<String> = Vec::new();
    let mut i: usize = 0;
    while i < cs.len()
        invariant
            nv == names_view(names@),
            all == constraints_view(cs@),
            want == constraint_texts(nv, all),
            i <= cs.len(),
            out@.len() == i,
            forall|j: int| 0 <= j < i ==> (#[trigger] out@[j])@ == want[j],
        decreases cs.len() - i,
    {
        let mut text = String::new();
        text.append("'");
        text.append(var_label_string(names, cs[i].var).as_str());
        text.append(": ");
        text.append(cs[i].trait_name.as_str());
        proof {
            assert(all[i as int] == constraint_view(cs@[i as int]));
            assert(text@ =~= want[i as int]);
        }
        out.push(text);
        i = i + 1;
    }
    assert(strings_view(out@) =~= want);
    out
}

/// The views of rendered fields.
pub open spec fn rendered_view(s: Seq<(String, String)>) -> Seq<FieldTextV> {
    Seq::new(s.len(), |i: int| (s[i].0@, s[i].1@))
}

fn display_fields(fs: &Vec<(String, Ty)>, names: &HashMap<TyVar, String>) -> (r: Vec<
    (String, String),
>)
    ensures
        rendered_view(r@) == field_texts(names_view(names@), fields_view(fs@)),
    decreases fs@,
{
    let ghost nv = names_view(names@);
    let ghost all = fields_view(fs@);
    let ghost want = field_texts(nv, all);
    let mut out: Vec<(String, String)> = Vec::new();
    let mut i: usize = 0;
    while i < fs.len()
        invariant
            nv == names_view(names@),
            all == fields_view(fs@),
            want == field_texts(nv, all),
            i <= fs.len(),
            out@.len() == i,
            forall|j: int|
                0 <= j < i ==> (#[trigger] out@[j]).0@ == want[j].0 && out@[j].1@ == want[j].1,
        decreases fs.len() - i,
    {
        assert(all[i as int] == field_view(fs@[i as int]));
        assert(decreases_to!(fs@ => fs@[i as int]));
        assert(decreases_to!(fs@[i as int] => fs@[i as int].1));
        out.push((fs[i].0.clone(), display_ty_with_var_names(&fs[i].1, names)));
        i = i + 1;
    }
    assert(rendered_view(out@) =~= want);
    out
}

proof fn lemma_fields_len_grows(fields: Seq<FieldTextV>, i: nat, n: nat)
    requires
        i <= n,
    ensures
        fields_len(fields, i) <= fields_len(fields, n),
    decreases n,
{
    if i < n {
        lemma_fields_len_grows(fields, i, (n - 1) as nat);
    }
}

/// Whether a record has to be spread over several lines.
fn needs_lines(fields: &Vec<(String, String)>) -> (r: bool)
    ensures
        r == is_multiline(rendered_view(fields@)),
{
    let ghost v = rendered_view(fields@);
    if fields.len() >= 4 {
        return true;
    }
    let mut total: usize = 0;
    let mut i: usize = 0;
    while i < fields.len()
        invariant
            i <= fields.len(),
            v == rendered_view(fields@),
            fields.len() < 4,
            total == fields_len(v, i as nat),
            total <= 80,
            forall|j: int| 0 <= j < i ==> !(#[trigger] v[j]).1.contains('\n'),
        decreases fields.len() - i,
    {
        assert(v[i as int] == (fields@[i as int].0@, fields@[i as int].1@));
        let name_len = fields[i].0.as_str().as_bytes().len();
        let text_len = fields[i].1.as_str().as_bytes().len();
        if contains_char(fields[i].1.as_str(), '\n') {
            return true;
        }
        proof {
            lemma_fields_len_grows(v, (i + 1) as nat, v.len());
        }
        if name_len > 80 || text_len > 80 || total + name_len + 2 + text_len > 80 {
            return true;
        }
        assert(fields_len(v, (i + 1) as nat) == fields_len(v, i as nat) + byte_len(v[i as int].0) + 2
            + byte_len(v[i as int].1));
        total = total + name_len + 2 + text_len;
        i = i + 1;
    }
    let separators: usize = if fields.len() > 0 {
        (fields.len() - 1) * 2
    } else {
        0
    };
    total + separators + 4 > 80
}

/// Lays out a record from its rendered fields.
fn render_record(fields: &Vec<(String, String)>, is_closed: bool, tail: &String) -> (s: String)
    ensures
        s@ == record_text(rendered_view(fields@), is_closed, tail@),
{
    let ghost v = rendered_view(fields@);
    let mut out = String::new();
    if needs_lines(fields) {
        out.append("#{ \n");
        assert(out@ =~= "#{ \n"@ + field_lines(v, 0));
        let mut i: usize = 0;
        while i < fields.len()
            invariant
                i <= fields.len(),
                v == rendered_view(fields@),
                out@ == "#{ \n"@ + field_lines(v, i as nat),
            decreases fields.len() - i,
        {
            assert(v[i as int] == (fields@[i as int].0@, fields@[i as int].1@));
            out.append("  ");
            out.append(fields[i].0.as_str());
            out.append(": ");
            out.append(fields[i].1.as_str());
            out.append(",\n");
            assert(out@ =~= "#{ \n"@ + field_lines(v, (i + 1) as nat));
            i = i + 1;
        }
        let ghost before = out@;
        if is_closed {
            out.append("");
        } else {
            out.append("  ..");
            out.append(tail.as_str());
            out.append(",\n");
        }
        out.append("}");
        assert(out@ =~= record_text(v, is_closed, tail@));
    } else {
        let mut parts: Vec<String> = Vec::new();
        let mut i: usize = 0;
        while i < fields.len()
            invariant
                i <= fields.len(),
                v == rendered_view(fields@),
                parts@.len() == i,
                forall|j: int|
                    0 <= j < i ==> (#[trigger] parts@[j])@ == v[j].0 + ": "@ + v[j].1,
            decreases fields.len() - i,
        {
            assert(v[i as int] == (fields@[i as int].0@, fields@[i as int].1@));
            let mut part = String::new();
            part.append(fields[i].0.as_str());
            part.append(": ");
            part.append(fields[i].1.as_str());
            assert(part@ =~= v[i as int].0 + ": "@ + v[i as int].1);
            parts.push(part);
            i = i + 1;
        }
        assert(strings_view(parts@) =~= inline_fields(v));
        out.append("#{ ");
        out.append(join_strings(&parts, ", ").as_str());
        if is_closed {
            out.append("");
        } else {
            out.append(", ..");
            out.append(tail.as_str());
        }
        out.append(" }");
        assert(out@ =~= record_text(v, is_closed, tail@));
    }
    out
}

impl Ty {
    /// The type as text, with variables shown by number.
    pub fn to_string(&self) -> (s: String)
        ensures
            s@ == ty_text(Map::empty(), self@),
    {
        let names: HashMap<TyVar, String> = HashMap::new();
        assert(names_view(names@) =~= Map::empty());
        display_ty_with_var_names(self, &names)
    }
}

// ---------------------------------------------------------------------------
// Schemes and environment entries
// ---------------------------------------------------------------------------

/// Names for `vars`: `a` for the first, `b` for the second and so on. A
/// variable listed twice is named by its last position.
pub open spec fn letter_names(vars: Seq<TyVar>) -> NamesV
    decreases vars.len(),
{
    if vars.len() == 0 {
        Map::empty()
    } else {
        letter_names(vars.drop_last()).insert(vars.last(), letters((vars.len() - 1) as nat))
    }
}

/// Names type variables by letters, in order.
pub fn name_vars(vars: &Vec<TyVar>) -> (names: HashMap<TyVar, String>)
    ensures
        names_view(names@) == letter_names(vars@),
{
    let mut names: HashMap<TyVar, String> = HashMap::new();
    let mut i: usize = 0;
    assert(names_view(names@) =~= letter_names(vars@.take(0)));
    while i < vars.len()
        invariant
            i <= vars.len(),
            names_view(names@) == letter_names(vars@.take(i as int)),
        decreases vars.len() - i,
    {
        let ghost before = names@;
        let name = type_var_name(i);
        names.insert(vars[i], name);
        proof {
            let next = vars@.take(i + 1);
            assert(next.drop_last() =~= vars@.take(i as int));
            assert(names_view(names@) =~= names_view(before).insert(vars@[i as int], name@));
        }
        i = i + 1;
    }
    assert(vars@.take(vars@.len() as int) =~= vars@);
    names
}

/// The quantified variables of a scheme, each after a space and a quote.
pub open spec fn quantifier_text(names: NamesV, vars: Seq<TyVar>) -> Seq<char>
    decreases vars.len(),
{
    if vars.len() == 0 {
        Seq::empty()
    } else {
        quantifier_text(names, vars.drop_last()) + " '"@ + var_label(names, vars.last())
    }
}

/// A scheme as text: its quantified variables and constraints, then its type.
pub open spec fn scheme_text(s: SchemeV) -> Seq<char> {
    if s.vars.len() == 0 {
        ty_text(Map::empty(), s.ty)
    } else {
        let names = letter_names(s.vars);
        "∀"@ + quantifier_text(names, s.vars) + (if s.constraints.len() > 0 {
            " ["@ + join(constraint_texts(names, s.constraints), ", "@) + "]"@
        } else {
            ""@
        }) + ". "@ + ty_text(names, s.ty)
    }
}

impl Scheme {
    /// The scheme as text.
    pub fn to_string(&self) -> (s: String)
        ensures
            s@ == scheme_text(self@),
    {
        if self.vars.len() == 0 {
            return self.ty.to_string();
        }
        let names = name_vars(&self.vars);
        let ghost nv = letter_names(self.vars@);
        let mut out = String::new();
        out.append("∀");
        assert(out@ =~= "∀"@ + quantifier_text(nv, self.vars@.take(0)));
        let mut i: usize = 0;
        while i < self.vars.len()
            invariant
                i <= self.vars.len(),
                nv == names_view(names@),
                out@ == "∀"@ + quantifier_text(nv, self.vars@.take(i as int)),
            decreases self.vars.len() - i,
        {
            out.append(" '");
            out.append(var_label_string(&names, self.vars[i]).as_str());
            proof {
                let next = self.vars@.take(i + 1);
                assert(next.drop_last() =~= self.vars@.take(i as int));
                assert(out@ =~= "∀"@ + quantifier_text(nv, next));
            }
            i = i + 1;
        }
        assert(self.vars@.take(self.vars@.len() as int) =~= self.vars@);
        if self.constraints.len() > 0 {
            let parts = display_constraints(&self.constraints, &names);
            out.append(" [");
            out.append(join_strings(&parts, ", ").as_str());
            out.append("]");
        } else {
            out.append("");
        }
        out.append(". ");
        out.append(display_ty_with_var_names(&self.ty, &names).as_str());
        assert(out@ =~= scheme_text(self@));
        out
    }
}

/// An environment entry as text.
pub open spec fn env_info_text(i: EnvInfoV) -> Seq<char> {
    (if i.place_mutable {
        "mut place "@
    } else if i.binding_mutable {
        "mut "@
    } else {
        ""@
    }) + scheme_text(i.scheme)
}

impl EnvInfo {
    /// The entry as text.
    pub fn to_string(&self) -> (s: String)
        ensures
            s@ == env_info_text(self@),
    {
        let mut out = String::new();
        if self.place_mutable {
            out.append("mut place ");
        } else if self.binding_mutable {
            out.append("mut ");
        } else {
            out.append("");
        }
        out.append(self.scheme.to_string().as_str());
        assert(out@ =~= env_info_text(self@));
        out
    }
}

} // verus!
