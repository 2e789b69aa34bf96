//! Patterns: what they bind, which cannot fail, and whether a match leaves
//! something out.

use vstd::prelude::*;

use crate::ast::{NumberLiteral, Pattern, PatternField, RestName, SyntaxCaptureInfo};
use crate::ast_view::{number_literal_view, open_rest_name_view, pattern_field_view};
use crate::ast_view::{pattern_fields_view, pattern_view, patterns_view, syntax_captures_view};
use crate::ast_view::{NumberLiteralV, PatternFieldV, PatternV, RestNameV, SyntaxCaptureV};
use crate::env::{VariantEnv, VariantsV};
use crate::tables::NameSet;
use crate::text::{decimal, decimal_string, join, join_strings, str_eq, strings_view};

verus! {

// ---------------------------------------------------------------------------
// Patterns that cannot fail
// ---------------------------------------------------------------------------

/// Whether a constructor is the only variant of its type.
pub open spec fn sole_variant(name: Seq<char>, variants: VariantsV) -> bool {
    variants.dom().contains(name) && forall|other: Seq<char>| #[trigger]
        variants.dom().contains(other) && variants[other].nominal_name
            == variants[name].nominal_name ==> other == name
}

/// Whether a parameter pattern matches whatever it is given. A closed record
/// does not.
pub open spec fn irrefutable_param(p: PatternV, variants: VariantsV) -> bool
    decreases p,
{
    match p {
        PatternV::Variable(_, _) => true,
        PatternV::Wildcard => true,
        PatternV::Record { rest, .. } => rest is Some,
        PatternV::Tuple(items) => irrefutable_params(items, variants),
        PatternV::List { elements, rest } => elements.len() == 0 && rest is Some,
        PatternV::Constructor { name, binding } => sole_variant(name, variants) && match binding {
            None => true,
            Some(b) => irrefutable_param(*b, variants),
        },
        _ => false,
    }
}

pub open spec fn irrefutable_params(s: Seq<PatternV>, variants: VariantsV) -> bool
    decreases s,
{
    forall|i: int| 0 <= i < s.len() ==> irrefutable_param(#[trigger] s[i], variants)
}

/// Whether a `let` pattern matches whatever it is given. The type of the value
/// guarantees the shape of a record.
pub open spec fn irrefutable_let(p: PatternV, variants: VariantsV) -> bool
    decreases p,
{
    match p {
        PatternV::Variable(_, _) => true,
        PatternV::Wildcard => true,
        PatternV::Record { .. } => true,
        PatternV::Tuple(items) => irrefutable_lets(items, variants),
        PatternV::List { elements, rest } => elements.len() == 0 && rest is Some,
        PatternV::Constructor { name, binding } => sole_variant(name, variants) && match binding {
            None => true,
            Some(b) => irrefutable_let(*b, variants),
        },
        _ => false,
    }
}

pub open spec fn irrefutable_lets(s: Seq<PatternV>, variants: VariantsV) -> bool
    decreases s,
{
    forall|i: int| 0 <= i < s.len() ==> irrefutable_let(#[trigger] s[i], variants)
}

/// Whether a pattern tests nothing.
pub open spec fn catch_all(p: PatternV) -> bool
    decreases p,
{
    match p {
        PatternV::Wildcard => true,
        PatternV::Variable(_, _) => true,
        PatternV::Record { .. } => true,
        PatternV::Tuple(items) => all_catch_all(items),
        PatternV::List { elements, rest } => rest is Some && elements.len() == 0,
        _ => false,
    }
}

pub open spec fn all_catch_all(s: Seq<PatternV>) -> bool
    decreases s,
{
    forall|i: int| 0 <= i < s.len() ==> catch_all(#[trigger] s[i])
}

/// Returns `true` if `constructor_name` is the only variant of its type.
fn is_sole_variant(constructor_name: &str, variants: &VariantEnv) -> (r: bool)
    ensures
        r == sole_variant(constructor_name@, variants@),
{
    let info = match variants.0.get(constructor_name) {
        Some(info) => info,
        None => {
            return false;
        },
    };
    let names = variants.0.names();
    let ghost all = strings_view(names@);
    let mut i: usize = 0;
    while i < names.len()
        invariant
            i <= names.len(),
            all == strings_view(names@),
            variants@.dom().contains(constructor_name@),
            info@ == variants@[constructor_name@],
            forall|n: Seq<char>| #[trigger] all.contains(n) <==> variants@.dom().contains(n),
            forall|j: int|
                0 <= j < i ==> (variants@[#[trigger] all[j]].nominal_name == info@.nominal_name
                    ==> all[j] == constructor_name@),
        decreases names.len() - i,
    {
        assert(all[i as int] == names@[i as int]@);
        assert(all.contains(all[i as int]));
        if let Some(other) = variants.0.get(names[i].as_str()) {
            if str_eq(other.nominal_name.as_str(), info.nominal_name.as_str()) && !str_eq(
                names[i].as_str(),
                constructor_name,
            ) {
                assert(variants@.dom().contains(names@[i as int]@));
                return false;
            }
        }
        i = i + 1;
    }
    assert forall|other: Seq<char>| #[trigger]
        variants@.dom().contains(other) && variants@[other].nominal_name
            == variants@[constructor_name@].nominal_name implies other == constructor_name@ by {
        assert(all.contains(other));
        let j = choose|j: int| 0 <= j < all.len() && all[j] == other;
        assert(all[j] == other);
    }
    true
}

/// Returns `true` if `pat` is irrefutable, i.e. always matches regardless of
/// the runtime value. Only irrefutable patterns may appear in function-parameter
/// position; refutable patterns must use a `match` expression in the body.
pub fn is_irrefutable_param(pat: &Pattern, variants: &VariantEnv) -> (r: bool)
    ensures
        r == irrefutable_param(pat@, variants@),
    decreases *pat,
{
    match pat {
        Pattern::Variable(_, _) => true,
        Pattern::Wildcard => true,
        Pattern::Record { rest, .. } => rest.is_some(),
        Pattern::Tuple(items) => are_irrefutable_params(items, variants),
        Pattern::List { elements, rest } => elements.len() == 0 && rest.is_some(),
        Pattern::Constructor { name, binding } => is_sole_variant(name.as_str(), variants)
            && match binding {
            None => true,
            Some(b) => is_irrefutable_param(b, variants),
        },
        _ => false,
    }
}

fn are_irrefutable_params(s: &Vec<Pattern>, variants: &VariantEnv) -> (r: bool)
    ensures
        r == irrefutable_params(patterns_view(s@), variants@),
    decreases s@,
{
    let ghost all = patterns_view(s@);
    let mut i: usize = 0;
    while i < s.len()
        invariant
            i <= s.len(),
            all == patterns_view(s@),
            forall|j: int| 0 <= j < i ==> irrefutable_param(#[trigger] all[j], variants@),
        decreases s.len() - i,
    {
        assert(all[i as int] == pattern_view(s@[i as int]));
        if !is_irrefutable_param(&s[i], variants) {
            return false;
        }
        i = i + 1;
    }
    true
}

/// Like [`is_irrefutable_param`] but used for `let` bindings, where any record
/// pattern is considered safe because the type system guarantees the value shape.
pub fn is_irrefutable_let(pat: &Pattern, variants: &VariantEnv) -> (r: bool)
    ensures
        r == irrefutable_let(pat@, variants@),
    decreases *pat,
{
    match pat {
        Pattern::Variable(_, _) => true,
        Pattern::Wildcard => true,
        Pattern::Record { .. } => true,
        Pattern::Tuple(items) => are_irrefutable_lets(items, variants),
        Pattern::List { elements, rest } => elements.len() == 0 && rest.is_some(),
        Pattern::Constructor { name, binding } => is_sole_variant(name.as_str(), variants)
            && match binding {
            None => true,
            Some(b) => is_irrefutable_let(b, variants),
        },
        _ => false,
    }
}

fn are_irrefutable_lets(s: &Vec<Pattern>, variants: &VariantEnv) -> (r: bool)
    ensures
        r == irrefutable_lets(patterns_view(s@), variants@),
    decreases s@,
{
    let ghost all = patterns_view(s@);
    let mut i: usize = 0;
    while i < s.len()
        invariant
            i <= s.len(),
            all == patterns_view(s@),
            forall|j: int| 0 <= j < i ==> irrefutable_let(#[trigger] all[j], variants@),
        decreases s.len() - i,
    {
        assert(all[i as int] == pattern_view(s@[i as int]));
        if !is_irrefutable_let(&s[i], variants) {
            return false;
        }
        i = i + 1;
    }
    true
}

/// Returns true if `p` is a catch-all pattern (no actual test at runtime).
pub fn pattern_is_catch_all(p: &Pattern) -> (r: bool)
    ensures
        r == catch_all(p@),
    decreases *p,
{
    match p {
        Pattern::Wildcard => true,
        Pattern::Variable(_, _) => true,
        Pattern::Record { .. } => true,
        Pattern::Tuple(items) => are_catch_all(items),
        Pattern::List { elements, rest } => rest.is_some() && elements.len() == 0,
        _ => false,
    }
}

fn are_catch_all(s: &Vec<Pattern>) -> (r: bool)
    ensures
        r == all_catch_all(patterns_view(s@)),
    decreases s@,
{
    let ghost all = patterns_view(s@);
    let mut i: usize = 0;
    while i < s.len()
        invariant
            i <= s.len(),
            all == patterns_view(s@),
            forall|j: int| 0 <= j < i ==> catch_all(#[trigger] all[j]),
        decreases s.len() - i,
    {
        assert(all[i as int] == pattern_view(s@[i as int]));
        if !pattern_is_catch_all(&s[i]) {
            return false;
        }
        i = i + 1;
    }
    true
}

// ---------------------------------------------------------------------------
// Names bound by patterns
// ---------------------------------------------------------------------------

/// Whether the rest of a pattern is bound to `name`.
pub open spec fn rest_binds(rest: Option<Option<RestNameV>>, name: Seq<char>) -> bool {
    rest matches Some(Some(r)) && r.name == name
}

/// Whether a pattern brings `name` into scope. A record field that is bound to
/// an underscore is not.
pub open spec fn binds(p: PatternV, name: Seq<char>) -> bool
    decreases p,
{
    match p {
        PatternV::Variable(bound, _) => bound == name,
        PatternV::Record { fields, rest } => (name != "_"@ && some_field_binds(fields, name))
            || rest_binds(rest, name),
        PatternV::List { elements, rest } => some_binds(elements, name) || rest_binds(rest, name),
        PatternV::Constructor { binding, .. } => match binding {
            Some(b) => binds(*b, name),
            None => false,
        },
        PatternV::Tuple(items) => some_binds(items, name),
        PatternV::SyntaxQuote(captures) => some_captures(captures, name),
        _ => false,
    }
}

pub open spec fn some_binds(s: Seq<PatternV>, name: Seq<char>) -> bool
    decreases s,
{
    exists|i: int| 0 <= i < s.len() && binds(#[trigger] s[i], name)
}

pub open spec fn some_field_binds(s: Seq<PatternFieldV>, name: Seq<char>) -> bool
    decreases s,
{
    exists|i: int| 0 <= i < s.len() && (#[trigger] s[i]).binding == name
}

/// Whether one of the captures is called `name`.
pub open spec fn some_captures(s: Seq<SyntaxCaptureV>, name: Seq<char>) -> bool {
    exists|i: int| 0 <= i < s.len() && (#[trigger] s[i]).name == name
}

/// The names that a pattern brings into scope.
pub open spec fn bound_names(p: PatternV) -> Set<Seq<char>> {
    Set::new(|name: Seq<char>| binds(p, name))
}

/// Adds the names that a pattern brings into scope.
pub fn insert_pattern_bindings(scope: &mut NameSet, pat: &Pattern)
    ensures
        final(scope)@ == old(scope)@.union(bound_names(pat@)),
    decreases *pat,
{
    let ghost before = scope@;
    match pat {
        Pattern::Variable(name, _) => {
            scope.insert(name.clone());
        },
        Pattern::Record { fields, rest } => {
            insert_field_bindings(scope, fields);
            insert_rest_binding(scope, rest);
        },
        Pattern::List { elements, rest } => {
            insert_all_bindings(scope, elements);
            insert_rest_binding(scope, rest);
        },
        Pattern::Constructor { binding, .. } => {
            if let Some(b) = binding {
                insert_pattern_bindings(scope, b);
            }
        },
        Pattern::Tuple(items) => {
            insert_all_bindings(scope, items);
        },
        Pattern::SyntaxQuote(captures) => {
            insert_captures(scope, captures);
        },
        _ => {},
    }
    assert(scope@ =~= before.union(bound_names(pat@)));
}

fn insert_captures(scope: &mut NameSet, s: &Vec<SyntaxCaptureInfo>)
    ensures
        forall|n: Seq<char>| #[trigger]
            final(scope)@.contains(n) <==> old(scope)@.contains(n) || some_captures(
                syntax_captures_view(s@),
                n,
            ),
{
    let ghost all = syntax_captures_view(s@);
    let ghost start = scope@;
    let mut i: usize = 0;
    while i < s.len()
        invariant
            i <= s.len(),
            all == syntax_captures_view(s@),
            forall|n: Seq<char>| #[trigger]
                scope@.contains(n) <==> start.contains(n) || exists|k: int|
                    0 <= k < i && (#[trigger] all[k]).name == n,
        decreases s.len() - i,
    {
        assert(all[i as int].name == s@[i as int].name@);
        scope.insert(s[i].name.clone());
        i = i + 1;
    }
}

fn insert_rest_binding(scope: &mut NameSet, rest: &Option<Option<RestName>>)
    ensures
        forall|n: Seq<char>| #[trigger]
            final(scope)@.contains(n) <==> old(scope)@.contains(n) || rest_binds(
                open_rest_name_view(*rest),
                n,
            ),
{
    if let Some(Some(r)) = rest {
        scope.insert(r.name.clone());
    }
}

fn insert_field_bindings(scope: &mut NameSet, fields: &Vec<PatternField>)
    ensures
        forall|n: Seq<char>| #[trigger]
            final(scope)@.contains(n) <==> old(scope)@.contains(n) || (n != "_"@
                && some_field_binds(pattern_fields_view(fields@), n)),
{
    let ghost all = pattern_fields_view(fields@);
    let ghost start = scope@;
    let mut i: usize = 0;
    while i < fields.len()
        invariant
            i <= fields.len(),
            all == pattern_fields_view(fields@),
            forall|n: Seq<char>| #[trigger]
                scope@.contains(n) <==> start.contains(n) || (n != "_"@ && some_field_binds(
                    all.take(i as int),
                    n,
                )),
        decreases fields.len() - i,
    {
        let ghost before = scope@;
        assert(all[i as int] == pattern_field_view(fields@[i as int]));
        if !str_eq(fields[i].binding.as_str(), "_") {
            scope.insert(fields[i].binding.clone());
        }
        assert forall|n: Seq<char>| #[trigger] scope@.contains(n) <==> start.contains(n) || (n
            != "_"@ && some_field_binds(all.take(i + 1), n)) by {
            lemma_some_field_binds(all, i as int, n);
            assert(before.contains(n) <==> start.contains(n) || (n != "_"@ && some_field_binds(
                all.take(i as int),
                n,
            )));
        }
        i = i + 1;
    }
    assert(all.take(all.len() as int) =~= all);
}

proof fn lemma_some_field_binds(s: Seq<PatternFieldV>, i: int, n: Seq<char>)
    requires
        0 <= i < s.len(),
    ensures
        some_field_binds(s.take(i + 1), n) <==> some_field_binds(s.take(i), n) || s[i].binding == n,
{
    if some_field_binds(s.take(i), n) {
        let k = choose|k: int| 0 <= k < i && (#[trigger] s.take(i)[k]).binding == n;
        assert(s.take(i + 1)[k].binding == n);
    }
    if some_field_binds(s.take(i + 1), n) {
        let k = choose|k: int| 0 <= k < s.take(i + 1).len() && (#[trigger] s.take(i + 1)[k]).binding == n;
        if k < i {
            assert(s.take(i)[k].binding == n);
        }
    }
    assert(s.take(i + 1)[i] == s[i]);
}

fn insert_all_bindings(scope: &mut NameSet, s: &Vec<Pattern>)
    ensures
        forall|n: Seq<char>| #[trigger]
            final(scope)@.contains(n) <==> old(scope)@.contains(n) || some_binds(
                patterns_view(s@),
                n,
            ),
    decreases s@,
{
    let ghost all = patterns_view(s@);
    let ghost start = scope@;
    let mut i: usize = 0;
    while i < s.len()
        invariant
            i <= s.len(),
            all == patterns_view(s@),
            forall|n: Seq<char>| #[trigger]
                scope@.contains(n) <==> start.contains(n) || some_binds(all.take(i as int), n),
        decreases s.len() - i,
    {
        let ghost before = scope@;
        assert(all[i as int] == pattern_view(s@[i as int]));
        insert_pattern_bindings(scope, &s[i]);
        assert forall|n: Seq<char>| #[trigger] scope@.contains(n) <==> start.contains(n)
            || some_binds(all.take(i + 1), n) by {
            lemma_some_binds(all, i as int, n);
            assert(before.contains(n) <==> start.contains(n) || some_binds(all.take(i as int), n));
        }
        i = i + 1;
    }
    assert(all.take(all.len() as int) =~= all);
}

proof fn lemma_some_binds(s: Seq<PatternV>, i: int, n: Seq<char>)
    requires
        0 <= i < s.len(),
    ensures
        some_binds(s.take(i + 1), n) <==> some_binds(s.take(i), n) || binds(s[i], n),
{
    if some_binds(s.take(i), n) {
        let k = choose|k: int| 0 <= k < i && binds(#[trigger] s.take(i)[k], n);
        assert(binds(s.take(i + 1)[k], n));
    }
    if some_binds(s.take(i + 1), n) {
        let k = choose|k: int| 0 <= k < s.take(i + 1).len() && binds(#[trigger] s.take(i + 1)[k], n);
        if k < i {
            assert(binds(s.take(i)[k], n));
        }
    }
    assert(s.take(i + 1)[i] == s[i]);
}

// ---------------------------------------------------------------------------
// Patterns in messages
// ---------------------------------------------------------------------------

/// What `Debug` shows of a string.
pub uninterp spec fn quoted(s: Seq<char>) -> Seq<char>;

/// The standard library's `Debug` of a string: quoted, with escapes. It is a
/// function of the string.
#[verifier::external_body]
fn quoted_string(s: &str) -> (r: String)
    ensures
        r@ == quoted(s@),
{
    format!("{s:?}")
}

/// A whole number in decimal.
pub open spec fn signed_decimal(n: int) -> Seq<char> {
    if n < 0 {
        "-"@ + decimal((-n) as nat)
    } else {
        decimal(n as nat)
    }
}

fn signed_decimal_string(n: i64) -> (r: String)
    ensures
        r@ == signed_decimal(n as int),
{
    let wide: i128 = n as i128;
    if wide < 0 {
        let mut out = String::new();
        out.append("-");
        out.append(decimal_string((-wide) as u128).as_str());
        assert(out@ =~= signed_decimal(n as int));
        out
    } else {
        decimal_string(wide as u128)
    }
}

/// A number as it is written in the program.
pub open spec fn number_text(n: NumberLiteralV) -> Seq<char> {
    match n {
        NumberLiteralV::Int(i) => signed_decimal(i as int),
        NumberLiteralV::Float(text) => text,
    }
}

impl NumberLiteral {
    /// The number as it is written in the program.
    pub fn as_lua_source(&self) -> (r: String)
        ensures
            r@ == number_text(self@),
    {
        match self {
            NumberLiteral::Int(i) => signed_decimal_string(*i),
            NumberLiteral::Float(text) => text.clone(),
        }
    }
}

/// A pattern as messages show it.
pub open spec fn pattern_text(p: PatternV) -> Seq<char>
    decreases p,
{
    match p {
        PatternV::Wildcard => "_"@,
        PatternV::Variable(name, _) => name,
        PatternV::StringLit(s) => quoted(s),
        PatternV::NumberLit(n) => number_text(n),
        PatternV::BoolLit(b) => if b {
            "true"@
        } else {
            "false"@
        },
        PatternV::IntRange { start, end, inclusive } => signed_decimal(start as int) + (
        if inclusive {
            "..="@
        } else {
            ".."@
        }) + signed_decimal(end as int),
        PatternV::Constructor { name, binding } => match binding {
            Some(b) => name + "("@ + pattern_text(*b) + ")"@,
            None => name,
        },
        PatternV::Record { .. } => "#{ .. }"@,
        PatternV::SyntaxQuote(_) => "`'(...)`"@,
        PatternV::Tuple(items) => "("@ + join(pattern_texts(items), ", "@) + ")"@,
        PatternV::List { elements, rest } => "["@ + join(
            if rest is Some {
                pattern_texts(elements).push(".."@)
            } else {
                pattern_texts(elements)
            },
            ", "@,
        ) + "]"@,
    }
}

pub open spec fn pattern_texts(s: Seq<PatternV>) -> Seq<Seq<char>>
    decreases s,
{
    Seq::new(
        s.len(),
        |i: int|
            if 0 <= i < s.len() {
                pattern_text(s[i])
            } else {
                arbitrary()
            },
    )
}

fn pattern_for_message(p: &Pattern) -> (r: String)
    ensures
        r@ == pattern_text(p@),
    decreases *p,
{
    let mut out = String::new();
    match p {
        Pattern::Wildcard => "_".to_owned(),
        Pattern::Variable(name, _) => name.clone(),
        Pattern::StringLit(s) => quoted_string(s.as_str()),
        Pattern::NumberLit(n) => n.as_lua_source(),
        Pattern::BoolLit(b) => {
            if *b {
                "true".to_owned()
            } else {
                "false".to_owned()
            }
        },
        Pattern::IntRange { start, end, inclusive } => {
            out.append(signed_decimal_string(*start).as_str());
            if *inclusive {
                out.append("..=");
            } else {
                out.append("..");
            }
            out.append(signed_decimal_string(*end).as_str());
            assert(out@ =~= pattern_text(p@));
            out
        },
        Pattern::Constructor { name, binding } => {
            match binding {
                Some(b) => {
                    out.append(name.as_str());
                    out.append("(");
                    out.append(pattern_for_message(b).as_str());
                    out.append(")");
                    assert(out@ =~= pattern_text(p@));
                    out
                },
                None => name.clone(),
            }
        },
        Pattern::Record { .. } => "#{ .. }".to_owned(),
        Pattern::SyntaxQuote(_) => "`'(...)`".to_owned(),
        Pattern::Tuple(items) => {
            let parts = patterns_for_message(items);
            out.append("(");
            out.append(join_strings(&parts, ", ").as_str());
            out.append(")");
            assert(out@ =~= pattern_text(p@));
            out
        },
        Pattern::List { elements, rest } => {
            let mut parts = patterns_for_message(elements);
            let ghost before = strings_view(parts@);
            if rest.is_some() {
                parts.push("..".to_owned());
                assert(strings_view(parts@) =~= before.push(".."@));
            }
            out.append("[");
            out.append(join_strings(&parts, ", ").as_str());
            out.append("]");
            assert(out@ =~= pattern_text(p@));
            out
        },
    }
}

fn patterns_for_message(s: &Vec<Pattern>) -> (r: Vec<String>)
    ensures
        strings_view(r@) == pattern_texts(patterns_view(s@)),
        r@.len() == s@.len(),
    decreases s@,
{
    let ghost all = patterns_view(s@);
    let ghost want = pattern_texts(all);
    let mut out: Vec<String> = Vec::new();
    let mut i: usize = 0;
    while i < s.len()
        invariant
            i <= s.len(),
            all == patterns_view(s@),
            want == pattern_texts(all),
            out@.len() == i,
            forall|j: int| 0 <= j < i ==> (#[trigger] out@[j])@ == want[j],
        decreases s.len() - i,
    {
        assert(all[i as int] == all[i as int]);
        assert(all[i as int] == pattern_view(s@[i as int]));
        out.push(pattern_for_message(&s[i]));
        i = i + 1;
    }
    assert(strings_view(out@) =~= want);
    out
}

/// The message for a pattern that a match leaves out.
pub open spec fn missing_text(missing: PatternV, approximate: bool) -> Seq<char> {
    if approximate {
        "missing pattern: "@ + pattern_text(missing)
            + " (witness limit reached; add a wildcard (_) arm if the match is intentionally exhaustive)"@
    } else {
        "missing pattern: "@ + pattern_text(missing)
    }
}

pub fn missing_pattern_message(missing: &Pattern, approximate: bool) -> (r: String)
    ensures
        r@ == missing_text(missing@, approximate),
{
    let mut out = String::new();
    out.append("missing pattern: ");
    out.append(pattern_for_message(missing).as_str());
    if approximate {
        out.append(
            " (witness limit reached; add a wildcard (_) arm if the match is intentionally exhaustive)",
        );
    }
    assert(out@ =~= missing_text(missing@, approximate));
    out
}

// ---------------------------------------------------------------------------
// Patterns that cover others
// ---------------------------------------------------------------------------

/// Whether `p` matches every value that the pattern `w` stands for.
pub open spec fn covers(p: PatternV, w: PatternV) -> bool
    decreases p,
{
    match p {
        PatternV::Wildcard => true,
        PatternV::Variable(_, _) => true,
        PatternV::Record { .. } => true,
        PatternV::StringLit(s) => w == PatternV::StringLit(s),
        PatternV::NumberLit(n) => w == PatternV::NumberLit(n),
        PatternV::BoolLit(b) => w == PatternV::BoolLit(b),
        PatternV::SyntaxQuote(_) => false,
        PatternV::IntRange { start, end, inclusive } => match w {
            PatternV::NumberLit(NumberLiteralV::Int(n)) => start <= n && (if inclusive {
                n <= end
            } else {
                n < end
            }),
            _ => false,
        },
        PatternV::Constructor { name, binding } => match w {
            PatternV::Constructor { name: other, binding: payload } => name == other && (
            match binding {
                None => true,
                Some(b) => match payload {
                    Some(x) => covers(*b, *x),
                    None => covers(*b, PatternV::Wildcard),
                },
            }),
            _ => false,
        },
        PatternV::Tuple(items) => match w {
            PatternV::Tuple(others) => items.len() == others.len() && covers_each(items, others),
            _ => false,
        },
        PatternV::List { elements, rest } => match w {
            PatternV::List { elements: others, rest: other_rest } => (if rest is None {
                other_rest is None && elements.len() == others.len()
            } else {
                elements.len() <= others.len()
            }) && covers_each(elements, others),
            _ => false,
        },
    }
}

/// Whether each of `s` covers its neighbour in `others`, as far as both go.
pub open spec fn covers_each(s: Seq<PatternV>, others: Seq<PatternV>) -> bool
    decreases s,
{
    forall|i: int|
        0 <= i < s.len() && i < others.len() ==> covers(#[trigger] s[i], others[i])
}

pub fn pattern_covers(pattern: &Pattern, witness: &Pattern) -> (r: bool)
    ensures
        r == covers(pattern@, witness@),
    decreases *pattern,
{
    match pattern {
        Pattern::Wildcard => true,
        Pattern::Variable(_, _) => true,
        Pattern::Record { .. } => true,
        Pattern::StringLit(s) => match witness {
            Pattern::StringLit(other) => str_eq(s.as_str(), other.as_str()),
            _ => false,
        },
        Pattern::NumberLit(n) => match witness {
            Pattern::NumberLit(other) => number_literals_equal(n, other),
            _ => false,
        },
        Pattern::BoolLit(b) => match witness {
            Pattern::BoolLit(other) => *b == *other,
            _ => false,
        },
        Pattern::SyntaxQuote(_) => false,
        Pattern::IntRange { start, end, inclusive } => match witness {
            Pattern::NumberLit(n) => match n {
                NumberLiteral::Int(value) => {
                    assert(number_literal_view(*n) == NumberLiteralV::Int(*value));
                    *start <= *value && (if *inclusive {
                        *value <= *end
                    } else {
                        *value < *end
                    })
                },
                NumberLiteral::Float(text) => {
                    assert(number_literal_view(*n) == NumberLiteralV::Float(text@));
                    false
                },
            },
            _ => false,
        },
        Pattern::Constructor { name, binding } => match witness {
            Pattern::Constructor { name: other, binding: payload } => {
                if !str_eq(name.as_str(), other.as_str()) {
                    return false;
                }
                match binding {
                    None => true,
                    Some(b) => match payload {
                        Some(x) => pattern_covers(b, x),
                        None => {
                            let any = Pattern::Wildcard;
                            assert(any@ == PatternV::Wildcard);
                            pattern_covers(b, &any)
                        },
                    },
                }
            },
            _ => false,
        },
        Pattern::Tuple(items) => match witness {
            Pattern::Tuple(others) => {
                assert(patterns_view(items@).len() == items@.len());
                assert(patterns_view(others@).len() == others@.len());
                items.len() == others.len() && patterns_cover(items, others)
            },
            _ => false,
        },
        Pattern::List { elements, rest } => match witness {
            Pattern::List { elements: others, rest: other_rest } => {
                assert(patterns_view(elements@).len() == elements@.len());
                assert(patterns_view(others@).len() == others@.len());
                (if rest.is_none() {
                    other_rest.is_none() && elements.len() == others.len()
                } else {
                    elements.len() <= others.len()
                }) && patterns_cover(elements, others)
            },
            _ => false,
        },
    }
}

fn patterns_cover(s: &Vec<Pattern>, others: &Vec<Pattern>) -> (r: bool)
    ensures
        r == covers_each(patterns_view(s@), patterns_view(others@)),
    decreases s@,
{
    let ghost all = patterns_view(s@);
    let ghost rest = patterns_view(others@);
    let mut i: usize = 0;
    while i < s.len() && i < others.len()
        invariant
            i <= s.len(),
            all == patterns_view(s@),
            rest == patterns_view(others@),
            forall|j: int|
                0 <= j < i && j < rest.len() ==> covers(#[trigger] all[j], rest[j]),
        decreases s.len() - i,
    {
        assert(all[i as int] == pattern_view(s@[i as int]));
        assert(rest[i as int] == pattern_view(others@[i as int]));
        if !pattern_covers(&s[i], &others[i]) {
            return false;
        }
        i = i + 1;
    }
    true
}

fn number_literals_equal(left: &NumberLiteral, right: &NumberLiteral) -> (r: bool)
    ensures
        r == (left@ == right@),
{
    match (left, right) {
        (NumberLiteral::Int(a), NumberLiteral::Int(b)) => *a == *b,
        (NumberLiteral::Float(a), NumberLiteral::Float(b)) => str_eq(a.as_str(), b.as_str()),
        _ => false,
    }
}

} // verus!
