//! Statement templates.
//!
//! A statement is a line of source text with placeholders. `$T` stands for a
//! type and `$V` for a token that is inserted as it is. Each placeholder takes
//! the next argument of the statement, from left to right.

use crate::java::names::{
    display_name,
    display_text,
    is_import_type,
    is_import_worthy,
    last_segment,
    simple_name,
};
use crate::text::{chars_of, to_owned_texts};
use vstd::prelude::*;

verus! {

/// Why a template cannot be expanded. Positions count the characters of the
/// template from zero.
#[derive(Debug, Clone, Copy, PartialEq, Eq, Structural)]
pub enum TemplateError {
    /// A placeholder found every argument already taken; `index` is the place
    /// in the argument list that it asked for.
    MissingArgument { index: usize },
    /// `$` is followed by a character that names no placeholder.
    UnknownPlaceholder { position: usize, found: char },
    /// `$` is the last character and nothing says what it stands for.
    DanglingMarker { position: usize },
}

/// One statement of a method body: a template and its arguments.
#[derive(Debug, Clone)]
pub struct JavaMethodStatement {
    pub statement: String,
    pub args: Vec<String>,
}

/// The mathematical content of a `JavaMethodStatement`.
pub struct StatementView {
    pub statement: Seq<char>,
    pub args: Seq<Seq<char>>,
}

impl View for JavaMethodStatement {
    type V = StatementView;

    open spec fn view(&self) -> StatementView {
        StatementView { statement: self.statement@, args: self.args.deep_view() }
    }
}

impl DeepView for JavaMethodStatement {
    type V = StatementView;

    open spec fn deep_view(&self) -> StatementView {
        self.view()
    }
}

/// A template without one trailing `$`, if it ends in one.
pub open spec fn trimmed(template: Seq<char>) -> Seq<char> {
    if template.len() > 0 && template.last() == '$' {
        template.drop_last()
    } else {
        template
    }
}

/// How the argument of a `$T` placeholder is written. Without a list of
/// imports it is shortened to its simple name; inside a compilation unit it
/// follows the unit's display rule.
pub open spec fn shown_type(name: Seq<char>, imports: Option<Seq<Seq<char>>>) -> Seq<char> {
    match imports {
        None => simple_name(name),
        Some(list) => display_name(name, list),
    }
}

/// The expansion of the template `t` from position `pos` on, when `used`
/// arguments have been taken by the placeholders before `pos`. The first
/// fault met on the way is the result.
pub open spec fn expand_from(
    t: Seq<char>,
    args: Seq<Seq<char>>,
    imports: Option<Seq<Seq<char>>>,
    pos: int,
    used: int,
) -> Result<Seq<char>, TemplateError>
    decreases t.len() - pos,
{
    if pos >= t.len() {
        Ok(Seq::empty())
    } else if t[pos] != '$' {
        match expand_from(t, args, imports, pos + 1, used) {
            Ok(rest) => Ok(seq![t[pos]] + rest),
            Err(e) => Err(e),
        }
    } else if pos + 1 >= t.len() {
        Err(TemplateError::DanglingMarker { position: pos as usize })
    } else if t[pos + 1] == 'T' || t[pos + 1] == 'V' {
        if used >= args.len() {
            Err(TemplateError::MissingArgument { index: used as usize })
        } else {
            let piece = if t[pos + 1] == 'T' {
                shown_type(args[used], imports)
            } else {
                args[used]
            };
            match expand_from(t, args, imports, pos + 2, used + 1) {
                Ok(rest) => Ok(piece + rest),
                Err(e) => Err(e),
            }
        }
    } else {
        Err(TemplateError::UnknownPlaceholder { position: pos as usize, found: t[pos + 1] })
    }
}

/// The text a template stands for, or the first fault in it.
pub open spec fn expand(
    template: Seq<char>,
    args: Seq<Seq<char>>,
    imports: Option<Seq<Seq<char>>>,
) -> Result<Seq<char>, TemplateError> {
    expand_from(trimmed(template), args, imports, 0, 0)
}

/// A template that holds no `$` stands for itself, whatever its arguments.
pub proof fn law_plain_template_is_unchanged(
    template: Seq<char>,
    args: Seq<Seq<char>>,
    imports: Option<Seq<Seq<char>>>,
)
    requires
        !template.contains('$'),
    ensures
        expand(template, args, imports) == Ok::<Seq<char>, TemplateError>(template),
{
    if template.len() > 0 {
        assert(template[template.len() - 1] != '$');
    }
    lemma_plain_rest(template, args, imports, 0, 0);
    assert(template.subrange(0, template.len() as int) =~= template);
}

/// From any position on, a template that holds no `$` expands to what is
/// left of it.
proof fn lemma_plain_rest(
    t: Seq<char>,
    args: Seq<Seq<char>>,
    imports: Option<Seq<Seq<char>>>,
    pos: int,
    used: int,
)
    requires
        !t.contains('$'),
        0 <= pos <= t.len(),
    ensures
        expand_from(t, args, imports, pos, used) == Ok::<Seq<char>, TemplateError>(
            t.subrange(pos, t.len() as int),
        ),
    decreases t.len() - pos,
{
    if pos < t.len() {
        assert(t[pos] != '$');
        lemma_plain_rest(t, args, imports, pos + 1, used);
        assert(seq![t[pos]] + t.subrange(pos + 1, t.len() as int) =~= t.subrange(
            pos,
            t.len() as int,
        ));
    } else {
        assert(t.subrange(pos, t.len() as int) =~= Seq::<char>::empty());
    }
}

/// The arguments taken by `$T` placeholders from position `pos` on that need
/// an import line, in the order of the placeholders. The scan ends at the
/// first fault.
pub open spec fn type_imports_from(t: Seq<char>, args: Seq<Seq<char>>, pos: int, used: int) -> Seq<
    Seq<char>,
>
    decreases t.len() - pos,
{
    if pos >= t.len() {
        Seq::empty()
    } else if t[pos] != '$' {
        type_imports_from(t, args, pos + 1, used)
    } else if pos + 1 >= t.len() || used >= args.len() {
        Seq::empty()
    } else if t[pos + 1] == 'T' {
        if is_import_worthy(args[used]) {
            seq![args[used]] + type_imports_from(t, args, pos + 2, used + 1)
        } else {
            type_imports_from(t, args, pos + 2, used + 1)
        }
    } else if t[pos + 1] == 'V' {
        type_imports_from(t, args, pos + 2, used + 1)
    } else {
        Seq::empty()
    }
}

/// The import candidates of a statement: the import-worthy arguments of its
/// `$T` placeholders.
pub open spec fn statement_imports(s: StatementView) -> Seq<Seq<char>> {
    type_imports_from(trimmed(s.statement), s.args, 0, 0)
}

/// The length of the template once a trailing `$` is set aside.
fn trimmed_len(t: &Vec<char>) -> (n: usize)
    ensures
        n <= t.len(),
        t@.take(n as int) == trimmed(t@),
{
    let n = t.len();
    if n > 0 && t[n - 1] == '$' {
        n - 1
    } else {
        proof {
            assert(t@.take(n as int) =~= t@);
        }
        n
    }
}

/// Expands `template` with `args`. With `imports` the arguments of `$T` follow
/// the display rule of a unit that imports them; without, they are shortened
/// to their simple names.
pub fn expand_template(template: &str, args: &Vec<String>, imports: Option<&Vec<String>>) -> (r:
    Result<String, TemplateError>)
    ensures
        match r {
            Ok(text) => expand(template@, args.deep_view(), imports.deep_view()) == Ok::<
                Seq<char>,
                TemplateError,
            >(text@),
            Err(e) => expand(template@, args.deep_view(), imports.deep_view()) == Err::<
                Seq<char>,
                TemplateError,
            >(e),
        },
{
    let all = chars_of(template);
    let n = trimmed_len(&all);
    let ghost t = trimmed(template@);
    let ghost a = args.deep_view();
    let ghost m = imports.deep_view();
    let mut out = String::new();
    let mut pos: usize = 0;
    let mut used: usize = 0;
    while pos < n
        invariant
            pos <= n,
            n <= all.len(),
            n == t.len(),
            t == all@.take(n as int),
            a == args.deep_view(),
            m == imports.deep_view(),
            used <= args.len(),
            used <= pos,
            match expand_from(t, a, m, pos as int, used as int) {
                Ok(rest) => expand(template@, a, m) == Ok::<Seq<char>, TemplateError>(
                    out@ + rest,
                ),
                Err(e) => expand(template@, a, m) == Err::<Seq<char>, TemplateError>(e),
            },
        decreases n - pos,
    {
        let c = all[pos];
        assert(t[pos as int] == c);
        if c != '$' {
            proof {
                match expand_from(t, a, m, pos + 1, used as int) {
                    Ok(rest) => {
                        assert(out@.push(c) + rest =~= out@ + (seq![c] + rest));
                    },
                    Err(e) => {},
                }
            }
            out.push(c);
            pos = pos + 1;
        } else if pos + 1 >= n {
            return Err(TemplateError::DanglingMarker { position: pos });
        } else {
            let kind = all[pos + 1];
            assert(t[pos + 1] == kind);
            if kind == 'T' || kind == 'V' {
                if used >= args.len() {
                    return Err(TemplateError::MissingArgument { index: used });
                }
                let piece = if kind == 'T' {
                    match imports {
                        None => last_segment(args[used].as_str()),
                        Some(list) => display_text(&args[used], list),
                    }
                } else {
                    args[used].clone()
                };
                proof {
                    assert(a[used as int] == args@[used as int]@);
                    match expand_from(t, a, m, pos + 2, used + 1) {
                        Ok(rest) => {
                            assert((out@ + piece@) + rest =~= out@ + (piece@ + rest));
                        },
                        Err(e) => {},
                    }
                }
                out.append(piece.as_str());
                pos = pos + 2;
                used = used + 1;
            } else {
                return Err(TemplateError::UnknownPlaceholder { position: pos, found: kind });
            }
        }
    }
    proof {
        assert(out@ + Seq::<char>::empty() =~= out@);
    }
    Ok(out)
}

/// The import-worthy arguments that the `$T` placeholders of `template` take.
pub fn template_imports(template: &str, args: &Vec<String>) -> (imports: Vec<String>)
    ensures
        imports.deep_view() == type_imports_from(trimmed(template@), args.deep_view(), 0, 0),
{
    let all = chars_of(template);
    let n = trimmed_len(&all);
    let ghost t = trimmed(template@);
    let ghost a = args.deep_view();
    let mut imports: Vec<String> = Vec::new();
    let mut pos: usize = 0;
    let mut used: usize = 0;
    proof {
        assert(imports.deep_view() =~= Seq::<Seq<char>>::empty());
        assert(Seq::<Seq<char>>::empty() + type_imports_from(t, a, 0, 0) =~= type_imports_from(
            t,
            a,
            0,
            0,
        ));
    }
    while pos < n
        invariant
            pos <= n,
            n <= all.len(),
            n == t.len(),
            t == all@.take(n as int),
            a == args.deep_view(),
            used <= args.len(),
            used <= pos,
            t == trimmed(template@),
            type_imports_from(t, a, 0, 0) == imports.deep_view() + type_imports_from(
                t,
                a,
                pos as int,
                used as int,
            ),
        decreases n - pos,
    {
        let c = all[pos];
        assert(t[pos as int] == c);
        if c != '$' {
            pos = pos + 1;
        } else if pos + 1 >= n || used >= args.len() {
            proof {
                assert(imports.deep_view() + Seq::<Seq<char>>::empty() =~= imports.deep_view());
            }
            return imports;
        } else {
            let kind = all[pos + 1];
            assert(t[pos + 1] == kind);
            assert(a[used as int] == args@[used as int]@);
            if kind == 'T' {
                if is_import_type(args[used].as_str()) {
                    let ghost before = imports.deep_view();
                    imports.push(args[used].clone());
                    proof {
                        let rest = type_imports_from(t, a, pos + 2, used + 1);
                        assert(imports.deep_view() =~= before.push(a[used as int]));
                        assert(before.push(a[used as int]) + rest =~= before + (seq![
                            a[used as int],
                        ] + rest));
                    }
                }
                pos = pos + 2;
                used = used + 1;
            } else if kind == 'V' {
                pos = pos + 2;
                used = used + 1;
            } else {
                proof {
                    assert(imports.deep_view() + Seq::<Seq<char>>::empty()
                        =~= imports.deep_view());
                }
                return imports;
            }
        }
    }
    proof {
        assert(imports.deep_view() + Seq::<Seq<char>>::empty() =~= imports.deep_view());
    }
    imports
}

impl JavaMethodStatement {
    /// A statement made of `statement`, a template, and the arguments of its
    /// placeholders.
    pub fn new(statement: &str, args: Vec<&str>) -> (s: JavaMethodStatement)
        ensures
            s@.statement == statement@,
            s@.args == args@.map_values(|a: &str| a@),
    {
        JavaMethodStatement { statement: statement.to_owned(), args: to_owned_texts(&args) }
    }

    /// The text that `statement` stands for when each `$T` is replaced by the
    /// simple name of its argument and each `$V` by its argument.
    pub fn parse_statement(statement: &str, args: Vec<&str>) -> (r: Result<String, TemplateError>)
        ensures
            match r {
                Ok(text) => expand(statement@, args@.map_values(|a: &str| a@), None) == Ok::<
                    Seq<char>,
                    TemplateError,
                >(text@),
                Err(e) => expand(statement@, args@.map_values(|a: &str| a@), None) == Err::<
                    Seq<char>,
                    TemplateError,
                >(e),
            },
    {
        let owned = to_owned_texts(&args);
        expand_template(statement, &owned, None)
    }

    /// The arguments of `statement` that stand for types in need of an import.
    pub fn parse_imports(statement: &str, args: Vec<&str>) -> (imports: Vec<String>)
        ensures
            imports.deep_view() == type_imports_from(
                trimmed(statement@),
                args@.map_values(|a: &str| a@),
                0,
                0,
            ),
    {
        let owned = to_owned_texts(&args);
        template_imports(statement, &owned)
    }

    /// The import candidates of this statement.
    pub fn determine_imports(&self) -> (imports: Vec<String>)
        ensures
            imports.deep_view() == statement_imports(self@),
    {
        template_imports(self.statement.as_str(), &self.args)
    }

    /// The text of this statement inside a unit with the given import lines.
    pub fn expand(&self, imports: &Vec<String>) -> (r: Result<String, TemplateError>)
        ensures
            match r {
                Ok(text) => expand(self@.statement, self@.args, Some(imports.deep_view())) == Ok::<
                    Seq<char>,
                    TemplateError,
                >(text@),
                Err(e) => expand(self@.statement, self@.args, Some(imports.deep_view())) == Err::<
                    Seq<char>,
                    TemplateError,
                >(e),
            },
    {
        expand_template(self.statement.as_str(), &self.args, Some(imports))
    }
}

} // verus!
