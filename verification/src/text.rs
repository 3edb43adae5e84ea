//! Character sequences: the vocabulary shared by every contract of the crate,
//! and the few string operations the emitter is built from.

use vstd::prelude::*;

verus! {

/// Appends one character to a `String`: `String::push` of the standard library,
/// which "appends the given char to the end of this String".
pub assume_specification[ std::string::String::push ](s: &mut std::string::String, c: char)
    ensures
        final(s)@ == old(s)@.push(c),
;

/// The pieces of `parts` written one after another, with `sep` between neighbours.
pub open spec fn join(parts: Seq<Seq<char>>, sep: Seq<char>) -> Seq<char>
    decreases parts.len(),
{
    if parts.len() == 0 {
        Seq::empty()
    } else if parts.len() == 1 {
        parts[0]
    } else {
        join(parts.drop_last(), sep) + sep + parts.last()
    }
}

/// `unit` written `count` times.
pub open spec fn repeated(unit: Seq<char>, count: nat) -> Seq<char>
    decreases count,
{
    if count == 0 {
        Seq::empty()
    } else {
        repeated(unit, (count - 1) as nat) + unit
    }
}

/// The characters of an optional text.
pub open spec fn optional(o: Option<String>) -> Option<Seq<char>> {
    match o {
        Some(s) => Some(s@),
        None => None,
    }
}

/// A copy of an optional text.
pub fn copy_optional(o: &Option<String>) -> (copy: Option<String>)
    ensures
        optional(copy) == optional(*o),
{
    match o {
        Some(s) => Some(s.clone()),
        None => None,
    }
}

/// Each character of `s` equal to `from` replaced by `to`.
pub open spec fn replaced(s: Seq<char>, from: char, to: char) -> Seq<char> {
    s.map_values(|c: char| if c == from { to } else { c })
}

/// Appending nothing changes nothing.
pub(crate) proof fn lemma_concat_nothing(a: Seq<char>)
    ensures
        a + Seq::<char>::empty() == a,
        Seq::<char>::empty() + a == a,
{
    assert(a + Seq::<char>::empty() =~= a);
    assert(Seq::<char>::empty() + a =~= a);
}

/// Concatenation may be regrouped.
pub(crate) proof fn lemma_concat_assoc(a: Seq<char>, b: Seq<char>, c: Seq<char>)
    ensures
        a + (b + c) == a + b + c,
{
    assert(a + (b + c) =~= a + b + c);
}

/// A text followed by 3 pieces is the text followed by the pieces taken
/// together.
pub(crate) proof fn lemma_regroup_3(
    a: Seq<char>,
    x1: Seq<char>,
    x2: Seq<char>,
    x3: Seq<char>,
)
    ensures
        a + x1 + x2 + x3 == a + (x1 + x2 + x3),
{
    assert(a + x1 + x2 + x3 =~= a + (x1 + x2 + x3));
}

/// A text followed by 4 pieces is the text followed by the pieces taken
/// together.
pub(crate) proof fn lemma_regroup_4(
    a: Seq<char>,
    x1: Seq<char>,
    x2: Seq<char>,
    x3: Seq<char>,
    x4: Seq<char>,
)
    ensures
        a + x1 + x2 + x3 + x4 == a + (x1 + x2 + x3 + x4),
{
    assert(a + x1 + x2 + x3 + x4 =~= a + (x1 + x2 + x3 + x4));
}

/// A text followed by 5 pieces is the text followed by the pieces taken
/// together.
pub(crate) proof fn lemma_regroup_5(
    a: Seq<char>,
    x1: Seq<char>,
    x2: Seq<char>,
    x3: Seq<char>,
    x4: Seq<char>,
    x5: Seq<char>,
)
    ensures
        a + x1 + x2 + x3 + x4 + x5 == a + (x1 + x2 + x3 + x4 + x5),
{
    assert(a + x1 + x2 + x3 + x4 + x5 =~= a + (x1 + x2 + x3 + x4 + x5));
}

/// A text followed by 7 pieces is the text followed by the pieces taken
/// together.
pub(crate) proof fn lemma_regroup_7(
    a: Seq<char>,
    x1: Seq<char>,
    x2: Seq<char>,
    x3: Seq<char>,
    x4: Seq<char>,
    x5: Seq<char>,
    x6: Seq<char>,
    x7: Seq<char>,
)
    ensures
        a + x1 + x2 + x3 + x4 + x5 + x6 + x7 == a + (x1 + x2 + x3 + x4 + x5 + x6 + x7),
{
    assert(a + x1 + x2 + x3 + x4 + x5 + x6 + x7 =~= a + (x1 + x2 + x3 + x4 + x5 + x6 + x7));
}

/// A text followed by 9 pieces is the text followed by the pieces taken
/// together.
pub(crate) proof fn lemma_regroup_9(
    a: Seq<char>,
    x1: Seq<char>,
    x2: Seq<char>,
    x3: Seq<char>,
    x4: Seq<char>,
    x5: Seq<char>,
    x6: Seq<char>,
    x7: Seq<char>,
    x8: Seq<char>,
    x9: Seq<char>,
)
    ensures
        a + x1 + x2 + x3 + x4 + x5 + x6 + x7 + x8 + x9
            == a + (x1 + x2 + x3 + x4 + x5 + x6 + x7 + x8 + x9),
{
    assert(a + x1 + x2 + x3 + x4 + x5 + x6 + x7 + x8 + x9
        =~= a + (x1 + x2 + x3 + x4 + x5 + x6 + x7 + x8 + x9));
}

/// A text followed by 10 pieces is the text followed by the pieces taken
/// together.
pub(crate) proof fn lemma_regroup_10(
    a: Seq<char>,
    x1: Seq<char>,
    x2: Seq<char>,
    x3: Seq<char>,
    x4: Seq<char>,
    x5: Seq<char>,
    x6: Seq<char>,
    x7: Seq<char>,
    x8: Seq<char>,
    x9: Seq<char>,
    x10: Seq<char>,
)
    ensures
        a + x1 + x2 + x3 + x4 + x5 + x6 + x7 + x8 + x9 + x10
            == a + (x1 + x2 + x3 + x4 + x5 + x6 + x7 + x8 + x9 + x10),
{
    assert(a + x1 + x2 + x3 + x4 + x5 + x6 + x7 + x8 + x9 + x10
        =~= a + (x1 + x2 + x3 + x4 + x5 + x6 + x7 + x8 + x9 + x10));
}

/// Joining one more part appends the separator and the part, but for the first.
pub(crate) proof fn lemma_join_step(parts: Seq<Seq<char>>, sep: Seq<char>, i: int)
    requires
        0 <= i < parts.len(),
    ensures
        join(parts.take(i + 1), sep) == if i == 0 {
            parts[0]
        } else {
            join(parts.take(i), sep) + sep + parts[i]
        },
{
    assert(parts.take(i + 1).drop_last() =~= parts.take(i));
    assert(parts.take(i + 1).last() == parts[i]);
}

/// Flattening one more piece appends it.
pub(crate) proof fn lemma_flatten_step<A>(each: Seq<Seq<A>>, i: int)
    requires
        0 <= i < each.len(),
    ensures
        each.take(i + 1).flatten() == each.take(i).flatten() + each[i],
{
    assert(each.take(i + 1) =~= each.take(i).push(each[i]));
    each.take(i).lemma_flatten_push(each[i]);
}

/// No pieces flatten to nothing, and all pieces are the whole.
pub(crate) proof fn lemma_flatten_ends<A>(each: Seq<Seq<A>>)
    ensures
        each.take(0).flatten() == Seq::<A>::empty(),
        each.take(each.len() as int) == each,
{
    assert(each.take(0) =~= Seq::<Seq<A>>::empty());
    assert(each.take(each.len() as int) =~= each);
}

/// The characters of `s`, in order.
pub fn chars_of(s: &str) -> (v: Vec<char>)
    ensures
        v@ == s@,
{
    let mut v: Vec<char> = Vec::new();
    for c in it: s.chars()
        invariant
            v@ == it.seq().take(it.index()),
            it.seq() == s@,
    {
        v.push(c);
    }
    v
}

/// Whether `s` holds the character `c`.
pub fn contains_char(s: &str, c: char) -> (found: bool)
    ensures
        found == s@.contains(c),
{
    let mut found = false;
    for d in it: s.chars()
        invariant
            it.seq() == s@,
            found == it.seq().take(it.index()).contains(c),
    {
        let ghost before = it.seq().take(it.index());
        let ghost after = it.seq().take(it.index() + 1);
        proof {
            assert(after == before.push(d));
            if before.contains(c) {
                let k = choose|k: int| 0 <= k < before.len() && before[k] == c;
                assert(after[k] == c);
            }
            if d == c {
                assert(after[it.index()] == c);
            }
        }
        if d == c {
            found = true;
        }
    }
    assert(s@.take(s@.len() as int) =~= s@);
    found
}

/// Whether the two texts hold the same characters.
pub fn same_text(a: &str, b: &str) -> (same: bool)
    ensures
        same == (a@ == b@),
{
    let x = chars_of(a);
    let y = chars_of(b);
    if x.len() != y.len() {
        return false;
    }
    let mut i: usize = 0;
    while i < x.len()
        invariant
            x@ == a@,
            y@ == b@,
            x.len() == y.len(),
            i <= x.len(),
            x@.take(i as int) == y@.take(i as int),
        decreases x.len() - i,
    {
        if x[i] != y[i] {
            return false;
        }
        proof {
            assert(x@.take(i + 1) == x@.take(i as int).push(x@[i as int]));
            assert(y@.take(i + 1) == y@.take(i as int).push(y@[i as int]));
        }
        i = i + 1;
    }
    proof {
        assert(x@.take(x.len() as int) == x@);
        assert(y@.take(y.len() as int) == y@);
    }
    true
}

/// Whether `s` begins with `prefix`.
pub fn starts_with(s: &str, prefix: &str) -> (yes: bool)
    ensures
        yes == prefix@.is_prefix_of(s@),
{
    let x = chars_of(s);
    let p = chars_of(prefix);
    if p.len() > x.len() {
        return false;
    }
    let mut i: usize = 0;
    while i < p.len()
        invariant
            x@ == s@,
            p@ == prefix@,
            p.len() <= x.len(),
            i <= p.len(),
            p@.take(i as int) == x@.take(i as int),
        decreases p.len() - i,
    {
        if x[i] != p[i] {
            proof {
                assert(x@.subrange(0, p.len() as int)[i as int] == x@[i as int]);
            }
            return false;
        }
        proof {
            assert(x@.take(i + 1) == x@.take(i as int).push(x@[i as int]));
            assert(p@.take(i + 1) == p@.take(i as int).push(p@[i as int]));
        }
        i = i + 1;
    }
    proof {
        assert(p@.take(p.len() as int) == p@);
    }
    true
}

/// `unit` written `count` times.
pub fn repeat_text(unit: &str, count: usize) -> (r: String)
    ensures
        r@ == repeated(unit@, count as nat),
{
    let mut r = String::new();
    let mut i: usize = 0;
    while i < count
        invariant
            i <= count,
            r@ == repeated(unit@, i as nat),
        decreases count - i,
    {
        r.append(unit);
        i = i + 1;
    }
    r
}

/// The texts of `parts` joined by `sep`.
pub fn join_texts(parts: &Vec<String>, sep: &str) -> (r: String)
    ensures
        r@ == join(parts.deep_view(), sep@),
{
    let mut r = String::new();
    let mut i: usize = 0;
    while i < parts.len()
        invariant
            i <= parts.len(),
            r@ == join(parts.deep_view().take(i as int), sep@),
        decreases parts.len() - i,
    {
        proof {
            let next = parts.deep_view().take(i + 1);
            assert(next.drop_last() == parts.deep_view().take(i as int));
            assert(next.last() == parts@[i as int]@);
        }
        if i > 0 {
            r.append(sep);
        }
        r.append(parts[i].as_str());
        i = i + 1;
    }
    proof {
        assert(parts.deep_view().take(parts.len() as int) == parts.deep_view());
    }
    r
}

/// `s` with each `from` replaced by `to`.
pub fn replace_char(s: &str, from: char, to: char) -> (r: String)
    ensures
        r@ == replaced(s@, from, to),
{
    let mut r = String::new();
    for c in it: s.chars()
        invariant
            it.seq() == s@,
            r@ == replaced(it.seq().take(it.index()), from, to),
    {
        proof {
            assert(it.seq().take(it.index() + 1) == it.seq().take(it.index()).push(c));
        }
        if c == from {
            r.push(to);
        } else {
            r.push(c);
        }
    }
    r
}

/// Owned copies of the given texts.
pub fn to_owned_texts(texts: &Vec<&str>) -> (owned: Vec<String>)
    ensures
        owned.deep_view() == texts@.map_values(|s: &str| s@),
{
    let ghost views = texts@.map_values(|s: &str| s@);
    let mut owned: Vec<String> = Vec::new();
    let mut i: usize = 0;
    while i < texts.len()
        invariant
            i <= texts.len(),
            views == texts@.map_values(|s: &str| s@),
            owned.deep_view() == views.take(i as int),
        decreases texts.len() - i,
    {
        let ghost before = owned.deep_view();
        owned.push(texts[i].to_owned());
        proof {
            assert(owned.deep_view() =~= before.push(texts@[i as int]@));
            assert(views.take(i + 1) =~= views.take(i as int).push(views[i as int]));
        }
        i = i + 1;
    }
    proof {
        assert(views.take(texts.len() as int) =~= views);
    }
    owned
}

/// Appends copies of the texts of `more` to `all`.
pub fn append_texts(all: &mut Vec<String>, more: &Vec<String>)
    ensures
        final(all).deep_view() == old(all).deep_view() + more.deep_view(),
{
    let mut i: usize = 0;
    while i < more.len()
        invariant
            i <= more.len(),
            all.deep_view() == old(all).deep_view() + more.deep_view().take(i as int),
        decreases more.len() - i,
    {
        let ghost before = all.deep_view();
        all.push(more[i].clone());
        proof {
            assert(all.deep_view() =~= before.push(more@[i as int]@));
            assert(more.deep_view().take(i + 1) =~= more.deep_view().take(i as int).push(
                more@[i as int]@,
            ));
        }
        i = i + 1;
    }
    proof {
        assert(more.deep_view().take(more.len() as int) =~= more.deep_view());
    }
}

} // verus!
