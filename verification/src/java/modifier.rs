//! Modifier flags and the keywords they stand for.

use crate::text::join;
use vstd::prelude::*;

verus! {

pub const PUBLIC: u16 = 0b10;

pub const PRIVATE: u16 = 0b100;

pub const PROTECTED: u16 = 0b1000;

pub const STATIC: u16 = 0b1_0000;

pub const FINAL: u16 = 0b10_0000;

pub const ABSTRACT: u16 = 0b100_0000;

pub const NATIVE: u16 = 0b1000_0000;

pub const STRICTFP: u16 = 0b1_0000_0000;

pub const SYNCHRONIZED: u16 = 0b10_0000_0000;

pub const TRANSIENT: u16 = 0b100_0000_0000;

pub const VOLATILE: u16 = 0b1000_0000_0000;

/// A set of modifier flags, one bit for each keyword.
#[derive(Debug, Clone, Copy, PartialEq, Eq, Structural)]
pub struct Modifier {
    pub modifiers: u16,
}

/// The three kinds of declaration that carry modifiers.
#[derive(Debug, Clone, Copy, PartialEq, Eq, Structural)]
pub enum DeclarationKind {
    Type,
    Field,
    Method,
}

/// Whether the bit `mask` is set in `flags`.
pub open spec fn has_flag(flags: u16, mask: u16) -> bool {
    flags & mask != 0
}

/// The keywords that may stand on a declaration of the given kind, each with
/// its bit, in the order in which they are written.
pub open spec fn legal_keywords(kind: DeclarationKind) -> Seq<(u16, Seq<char>)> {
    match kind {
        DeclarationKind::Type => seq![
            (PUBLIC, "public"@),
            (PRIVATE, "private"@),
            (PROTECTED, "protected"@),
            (STATIC, "static"@),
            (FINAL, "final"@),
            (ABSTRACT, "abstract"@),
            (STRICTFP, "strictfp"@),
        ],
        DeclarationKind::Field => seq![
            (PUBLIC, "public"@),
            (PRIVATE, "private"@),
            (PROTECTED, "protected"@),
            (STATIC, "static"@),
            (FINAL, "final"@),
            (TRANSIENT, "transient"@),
            (VOLATILE, "volatile"@),
        ],
        DeclarationKind::Method => seq![
            (PUBLIC, "public"@),
            (PRIVATE, "private"@),
            (PROTECTED, "protected"@),
            (STATIC, "static"@),
            (FINAL, "final"@),
            (ABSTRACT, "abstract"@),
            (STRICTFP, "strictfp"@),
            (SYNCHRONIZED, "synchronized"@),
            (NATIVE, "native"@),
        ],
    }
}

/// The keywords of `kind` whose bit is set in `flags`, in their fixed order.
pub open spec fn chosen_keywords(flags: u16, kind: DeclarationKind) -> Seq<Seq<char>> {
    legal_keywords(kind).filter(|e: (u16, Seq<char>)| has_flag(flags, e.0)).map_values(
        |e: (u16, Seq<char>)| e.1,
    )
}

/// The modifiers of a declaration as they are written: the chosen keywords
/// separated by single spaces.
pub open spec fn modifier_text(flags: u16, kind: DeclarationKind) -> Seq<char> {
    join(chosen_keywords(flags, kind), " "@)
}

/// The bits that stand for a keyword of the given kind.
pub open spec fn legal_mask(kind: DeclarationKind) -> u16 {
    match kind {
        DeclarationKind::Type => 0b1_0111_1110u16,
        DeclarationKind::Field => 0b1100_0011_1110u16,
        DeclarationKind::Method => 0b11_1111_1110u16,
    }
}

/// Two tests that agree on every element of a sequence choose the same elements.
proof fn lemma_filter_agrees<A>(s: Seq<A>, p: spec_fn(A) -> bool, q: spec_fn(A) -> bool)
    requires
        forall|i: int| 0 <= i < s.len() ==> p(#[trigger] s[i]) == q(s[i]),
    ensures
        s.filter(p) == s.filter(q),
    decreases s.len(),
{
    reveal(Seq::filter);
    if s.len() > 0 {
        let shorter = s.drop_last();
        assert forall|i: int| 0 <= i < shorter.len() implies p(#[trigger] shorter[i]) == q(
            shorter[i],
        ) by {
            assert(shorter[i] == s[i]);
        }
        lemma_filter_agrees(shorter, p, q);
        assert(p(s[s.len() - 1]) == q(s[s.len() - 1]));
    }
}

/// Bits that stand for no keyword of a kind change nothing: a set of flags is
/// written like the same set without them.
pub proof fn law_illegal_bits_are_ignored(flags: u16, kind: DeclarationKind)
    ensures
        modifier_text(flags, kind) == modifier_text(flags & legal_mask(kind), kind),
{
    let table = legal_keywords(kind);
    let kept = flags & legal_mask(kind);
    let p = |e: (u16, Seq<char>)| has_flag(flags, e.0);
    let q = |e: (u16, Seq<char>)| has_flag(kept, e.0);
    assert forall|i: int| 0 <= i < table.len() implies p(#[trigger] table[i]) == q(table[i]) by {
        let m = table[i].0;
        match kind {
            DeclarationKind::Type => {
                assert(m == PUBLIC || m == PRIVATE || m == PROTECTED || m == STATIC || m == FINAL
                    || m == ABSTRACT || m == STRICTFP);
                assert((m == 0b10 || m == 0b100 || m == 0b1000 || m == 0b1_0000 || m == 0b10_0000
                    || m == 0b100_0000 || m == 0b1_0000_0000) ==> ((flags & 0b1_0111_1110u16) & m
                    != 0) == (flags & m != 0)) by (bit_vector);
            },
            DeclarationKind::Field => {
                assert(m == PUBLIC || m == PRIVATE || m == PROTECTED || m == STATIC || m == FINAL
                    || m == TRANSIENT || m == VOLATILE);
                assert((m == 0b10 || m == 0b100 || m == 0b1000 || m == 0b1_0000 || m == 0b10_0000
                    || m == 0b100_0000_0000 || m == 0b1000_0000_0000) ==> ((flags
                    & 0b1100_0011_1110u16) & m != 0) == (flags & m != 0)) by (bit_vector);
            },
            DeclarationKind::Method => {
                assert(m == PUBLIC || m == PRIVATE || m == PROTECTED || m == STATIC || m == FINAL
                    || m == ABSTRACT || m == STRICTFP || m == SYNCHRONIZED || m == NATIVE);
                assert((m == 0b10 || m == 0b100 || m == 0b1000 || m == 0b1_0000 || m == 0b10_0000
                    || m == 0b100_0000 || m == 0b1000_0000 || m == 0b1_0000_0000 || m
                    == 0b10_0000_0000) ==> ((flags & 0b11_1111_1110u16) & m != 0) == (flags & m
                    != 0)) by (bit_vector);
            },
        }
    }
    lemma_filter_agrees(table, p, q);
}

/// The words of a table of candidates that are marked present.
pub open spec fn present_words(entries: Seq<(bool, &'static str)>) -> Seq<Seq<char>> {
    entries.filter(|e: (bool, &'static str)| e.0).map_values(|e: (bool, &'static str)| e.1@)
}

/// A table of candidates agrees with the keywords of a kind when it lists the
/// same words in the same order and marks exactly those whose bit is set.
spec fn agrees(
    entries: Seq<(bool, &'static str)>,
    flags: u16,
    table: Seq<(u16, Seq<char>)>,
) -> bool {
    &&& entries.len() == table.len()
    &&& forall|i: int|
        0 <= i < entries.len() ==> entries[i].0 == has_flag(flags, table[i].0) && entries[i].1@
            == table[i].1
}

proof fn lemma_present_words(
    entries: Seq<(bool, &'static str)>,
    flags: u16,
    table: Seq<(u16, Seq<char>)>,
)
    requires
        agrees(entries, flags, table),
    ensures
        present_words(entries) == table.filter(
            |e: (u16, Seq<char>)| has_flag(flags, e.0),
        ).map_values(|e: (u16, Seq<char>)| e.1),
    decreases entries.len(),
{
    reveal(Seq::filter);
    let p = |e: (bool, &'static str)| e.0;
    let q = |e: (u16, Seq<char>)| has_flag(flags, e.0);
    if entries.len() > 0 {
        lemma_present_words(entries.drop_last(), flags, table.drop_last());
        let a = entries.drop_last().filter(p);
        let b = table.drop_last().filter(q);
        if entries.last().0 {
            assert(entries.filter(p) == a.push(entries.last()));
            assert(table.filter(q) == b.push(table.last()));
            assert(a.push(entries.last()).map_values(|e: (bool, &'static str)| e.1@)
                =~= a.map_values(|e: (bool, &'static str)| e.1@).push(entries.last().1@));
            assert(b.push(table.last()).map_values(|e: (u16, Seq<char>)| e.1) =~= b.map_values(
                |e: (u16, Seq<char>)| e.1,
            ).push(table.last().1));
        } else {
            assert(entries.filter(p) == a);
            assert(table.filter(q) == b);
        }
    } else {
        assert(entries.filter(p) =~= Seq::empty());
        assert(table.filter(q) =~= Seq::empty());
        assert(present_words(entries) =~= Seq::<Seq<char>>::empty());
    }
}

/// The words marked present, separated by single spaces.
fn join_present(entries: &Vec<(bool, &'static str)>) -> (r: String)
    ensures
        r@ == join(present_words(entries@), " "@),
{
    let ghost p = |e: (bool, &'static str)| e.0;
    let mut r = String::new();
    let mut first = true;
    let mut i: usize = 0;
    proof {
        assert(entries@.take(0) =~= Seq::empty());
        assert(present_words(entries@.take(0)) =~= Seq::<Seq<char>>::empty());
    }
    while i < entries.len()
        invariant
            i <= entries.len(),
            first == (present_words(entries@.take(i as int)).len() == 0),
            r@ == join(present_words(entries@.take(i as int)), " "@),
        decreases entries.len() - i,
    {
        let ghost before = entries@.take(i as int);
        let ghost after = entries@.take(i + 1);
        proof {
            reveal(Seq::filter);
            assert(after.drop_last() =~= before);
            assert(after.last() == entries@[i as int]);
        }
        if entries[i].0 {
            proof {
                let kept = before.filter(|e: (bool, &'static str)| e.0);
                assert(after.filter(|e: (bool, &'static str)| e.0) == kept.push(
                    entries@[i as int],
                ));
                assert(present_words(after) =~= present_words(before).push(entries@[i as int].1@));
                assert(present_words(after).drop_last() =~= present_words(before));
            }
            if !first {
                r.append(" ");
            }
            r.append(entries[i].1);
            first = false;
        }
        i = i + 1;
    }
    proof {
        assert(entries@.take(entries.len() as int) =~= entries@);
    }
    r
}

impl Modifier {
    /// The flags given by the bits of `modifiers`.
    pub fn new(modifiers: u16) -> (m: Modifier)
        ensures
            m.modifiers == modifiers,
    {
        Modifier { modifiers }
    }

    /// Whether `public` is set.
    pub fn is_public(&self) -> (set: bool)
        ensures
            set == has_flag(self.modifiers, PUBLIC),
    {
        self.modifiers & 0b10 != 0
    }

    /// Whether `private` is set.
    pub fn is_private(&self) -> (set: bool)
        ensures
            set == has_flag(self.modifiers, PRIVATE),
    {
        self.modifiers & 0b100 != 0
    }

    /// Whether `protected` is set.
    pub fn is_protected(&self) -> (set: bool)
        ensures
            set == has_flag(self.modifiers, PROTECTED),
    {
        self.modifiers & 0b1000 != 0
    }

    /// Whether `static` is set.
    pub fn is_static(&self) -> (set: bool)
        ensures
            set == has_flag(self.modifiers, STATIC),
    {
        self.modifiers & 0b1_0000 != 0
    }

    /// Whether `final` is set.
    pub fn is_final(&self) -> (set: bool)
        ensures
            set == has_flag(self.modifiers, FINAL),
    {
        self.modifiers & 0b10_0000 != 0
    }

    /// Whether `abstract` is set.
    pub fn is_abstract(&self) -> (set: bool)
        ensures
            set == has_flag(self.modifiers, ABSTRACT),
    {
        self.modifiers & 0b100_0000 != 0
    }

    /// Whether `native` is set.
    pub fn is_native(&self) -> (set: bool)
        ensures
            set == has_flag(self.modifiers, NATIVE),
    {
        self.modifiers & 0b1000_0000 != 0
    }

    /// Whether `strictfp` is set.
    pub fn is_strictfp(&self) -> (set: bool)
        ensures
            set == has_flag(self.modifiers, STRICTFP),
    {
        self.modifiers & 0b1_0000_0000 != 0
    }

    /// Whether `synchronized` is set.
    pub fn is_synchronized(&self) -> (set: bool)
        ensures
            set == has_flag(self.modifiers, SYNCHRONIZED),
    {
        self.modifiers & 0b10_0000_0000 != 0
    }

    /// Whether `transient` is set.
    pub fn is_transient(&self) -> (set: bool)
        ensures
            set == has_flag(self.modifiers, TRANSIENT),
    {
        self.modifiers & 0b100_0000_0000 != 0
    }

    /// Whether `volatile` is set.
    pub fn is_volatile(&self) -> (set: bool)
        ensures
            set == has_flag(self.modifiers, VOLATILE),
    {
        self.modifiers & 0b1000_0000_0000 != 0
    }

    /// The modifiers of a type declaration.
    pub fn gen_type_modifiers(&self) -> (r: String)
        ensures
            r@ == modifier_text(self.modifiers, DeclarationKind::Type),
    {
        let modifiers = vec![
            (self.is_public(), "public"),
            (self.is_private(), "private"),
            (self.is_protected(), "protected"),
            (self.is_static(), "static"),
            (self.is_final(), "final"),
            (self.is_abstract(), "abstract"),
            (self.is_strictfp(), "strictfp"),
        ];
        proof {
            lemma_present_words(
                modifiers@,
                self.modifiers,
                legal_keywords(DeclarationKind::Type),
            );
        }
        join_present(&modifiers)
    }

    /// The modifiers of a field declaration.
    pub fn gen_field_modifiers(&self) -> (r: String)
        ensures
            r@ == modifier_text(self.modifiers, DeclarationKind::Field),
    {
        let modifiers = vec![
            (self.is_public(), "public"),
            (self.is_private(), "private"),
            (self.is_protected(), "protected"),
            (self.is_static(), "static"),
            (self.is_final(), "final"),
            (self.is_transient(), "transient"),
            (self.is_volatile(), "volatile"),
        ];
        proof {
            lemma_present_words(
                modifiers@,
                self.modifiers,
                legal_keywords(DeclarationKind::Field),
            );
        }
        join_present(&modifiers)
    }

    /// The modifiers of a method declaration.
    pub fn gen_method_modifiers(&self) -> (r: String)
        ensures
            r@ == modifier_text(self.modifiers, DeclarationKind::Method),
    {
        let modifiers = vec![
            (self.is_public(), "public"),
            (self.is_private(), "private"),
            (self.is_protected(), "protected"),
            (self.is_static(), "static"),
            (self.is_final(), "final"),
            (self.is_abstract(), "abstract"),
            (self.is_strictfp(), "strictfp"),
            (self.is_synchronized(), "synchronized"),
            (self.is_native(), "native"),
        ];
        proof {
            lemma_present_words(
                modifiers@,
                self.modifiers,
                legal_keywords(DeclarationKind::Method),
            );
        }
        join_present(&modifiers)
    }
}

} // verus!
