use vstd::prelude::*;

verus! {

/// Strict lexicographic order on character sequences, comparing code
/// points; it is the order in which `String`'s `Ord` sorts (UTF-8 byte
/// order coincides with code-point order).
pub open spec fn lex_lt(a: Seq<char>, b: Seq<char>) -> bool
    decreases a.len(),
{
    if a.len() == 0 {
        b.len() > 0
    } else if b.len() == 0 {
        false
    } else if a[0] != b[0] {
        (a[0] as int) < (b[0] as int)
    } else {
        lex_lt(a.drop_first(), b.drop_first())
    }
}

pub proof fn lemma_lex_irreflexive(a: Seq<char>)
    ensures
        !lex_lt(a, a),
    decreases a.len(),
{
    if a.len() > 0 {
        lemma_lex_irreflexive(a.drop_first());
    }
}

pub proof fn lemma_lex_total(a: Seq<char>, b: Seq<char>)
    ensures
        a == b || lex_lt(a, b) || lex_lt(b, a),
        !(lex_lt(a, b) && lex_lt(b, a)),
    decreases a.len(),
{
    if a.len() > 0 && b.len() > 0 {
        if a[0] == b[0] {
            lemma_lex_total(a.drop_first(), b.drop_first());
            if a.drop_first() == b.drop_first() {
                assert(a =~= seq![a[0]] + a.drop_first());
                assert(b =~= seq![b[0]] + b.drop_first());
            }
        } else {
            assert((a[0] as int) != (b[0] as int));
        }
    } else if a.len() == 0 && b.len() == 0 {
        assert(a =~= b);
    }
}

pub proof fn lemma_lex_transitive(a: Seq<char>, b: Seq<char>, c: Seq<char>)
    requires
        lex_lt(a, b),
        lex_lt(b, c),
    ensures
        lex_lt(a, c),
    decreases a.len(),
{
    if a.len() > 0 && b.len() > 0 && c.len() > 0 {
        if a[0] == b[0] && b[0] == c[0] {
            lemma_lex_transitive(a.drop_first(), b.drop_first(), c.drop_first());
        }
    }
}

/// The characters of `s`, in order.
pub fn chars_of(s: &str) -> (v: Vec<char>)
    ensures
        v@ == s@,
{
    let mut v: Vec<char> = Vec::new();
    for c in it: s.chars()
        invariant
            v@ == it.seq().take(it.index() as int),
    {
        v.push(c);
    }
    v
}

proof fn lemma_lex_skip(a: Seq<char>, b: Seq<char>, i: int)
    requires
        0 <= i <= a.len(),
        i <= b.len(),
        a.take(i) == b.take(i),
    ensures
        lex_lt(a, b) == lex_lt(a.skip(i), b.skip(i)),
    decreases i,
{
    if i > 0 {
        assert(a[0] == a.take(i)[0]);
        assert(b[0] == b.take(i)[0]);
        let a1 = a.drop_first();
        let b1 = b.drop_first();
        assert(a1.take(i - 1) =~= a.take(i).drop_first());
        assert(b1.take(i - 1) =~= b.take(i).drop_first());
        lemma_lex_skip(a1, b1, i - 1);
        assert(a1.skip(i - 1) =~= a.skip(i));
        assert(b1.skip(i - 1) =~= b.skip(i));
    } else {
        assert(a.skip(0) =~= a);
        assert(b.skip(0) =~= b);
    }
}

/// Whether `a` sorts strictly before `b`.
pub fn str_lt(a: &str, b: &str) -> (r: bool)
    ensures
        r == lex_lt(a@, b@),
{
    let av = chars_of(a);
    let bv = chars_of(b);
    let mut i: usize = 0;
    while i < av.len() && i < bv.len()
        invariant
            i <= av.len(),
            i <= bv.len(),
            av@.take(i as int) == bv@.take(i as int),
            av@ == a@,
            bv@ == b@,
        decreases av.len() - i,
    {
        if av[i] != bv[i] {
            proof {
                lemma_lex_skip(av@, bv@, i as int);
                assert(av@.skip(i as int)[0] == av@[i as int]);
                assert(bv@.skip(i as int)[0] == bv@[i as int]);
            }
            return av[i] < bv[i];
        }
        assert(av@.take(i + 1) =~= av@.take(i as int).push(av@[i as int]));
        assert(bv@.take(i + 1) =~= bv@.take(i as int).push(bv@[i as int]));
        i = i + 1;
    }
    proof {
        lemma_lex_skip(av@, bv@, i as int);
    }
    i < bv.len()
}

/// Whether two strings hold the same characters.
pub fn str_eq(a: &str, b: &str) -> (r: bool)
    ensures
        r == (a@ == b@),
{
    let av = chars_of(a);
    let bv = chars_of(b);
    if av.len() != bv.len() {
        return false;
    }
    let mut i: usize = 0;
    while i < av.len()
        invariant
            i <= av.len(),
            av.len() == bv.len(),
            av@.take(i as int) == bv@.take(i as int),
            av@ == a@,
            bv@ == b@,
        decreases av.len() - i,
    {
        if av[i] != bv[i] {
            return false;
        }
        assert(av@.take(i + 1) =~= av@.take(i as int).push(av@[i as int]));
        assert(bv@.take(i + 1) =~= bv@.take(i as int).push(bv@[i as int]));
        i = i + 1;
    }
    assert(av@.take(i as int) =~= av@);
    assert(bv@.take(i as int) =~= bv@);
    true
}

/// Appends one character to a string.
#[verifier::external_body]
pub(crate) fn push_char(s: &mut String, c: char)
    ensures
        final(s)@ == old(s)@.push(c),
{
    s.push(c);
}

/// `s[from..to]` by character positions, as an owned string.
pub fn substring(s: &Vec<char>, from: usize, to: usize) -> (r: String)
    requires
        from <= to <= s.len(),
    ensures
        r@ == s@.subrange(from as int, to as int),
{
    let mut r = String::new();
    let mut i: usize = from;
    while i < to
        invariant
            from <= i <= to <= s.len(),
            r@ == s@.subrange(from as int, i as int),
        decreases to - i,
    {
        push_char(&mut r, s[i]);
        assert(s@.subrange(from as int, i + 1) =~= s@.subrange(from as int, i as int).push(s@[i as int]));
        i = i + 1;
    }
    r
}


/// The character of decimal digit `d`.
pub open spec fn digit_char(d: nat) -> char {
    ((48 + d) as u8) as char
}

/// The decimal representation of `n`, without sign or leading zeros.
pub open spec fn decimal(n: nat) -> Seq<char>
    decreases n,
{
    if n < 10 {
        seq![digit_char(n)]
    } else {
        decimal(n / 10).push(digit_char(n % 10))
    }
}

/// Appends the decimal representation of `n`.
pub fn push_decimal(s: &mut String, n: u64)
    ensures
        final(s)@ == old(s)@ + decimal(n as nat),
    decreases n,
{
    if n >= 10 {
        push_decimal(s, n / 10);
    }
    let d: u8 = (n % 10) as u8;
    push_char(s, (48u8 + d) as char);
    assert(decimal(n as nat) =~= if n < 10 { seq![digit_char(n as nat)] } else { decimal((n / 10) as nat).push(digit_char((n % 10) as nat)) });
}

/// `n` in decimal.
pub fn u64_to_decimal(n: u64) -> (s: String)
    ensures
        s@ == decimal(n as nat),
{
    let mut s = String::new();
    push_decimal(&mut s, n);
    assert(s@ =~= decimal(n as nat));
    s
}

pub proof fn lemma_decimal_len(n: nat)
    ensures
        decimal(n).len() >= 1,
        n >= 10 ==> decimal(n).len() >= 2,
    decreases n,
{
    if n >= 10 {
        lemma_decimal_len(n / 10);
    }
}

/// Distinct numbers have distinct decimal representations.
pub proof fn lemma_decimal_injective(n: nat, m: nat)
    requires
        decimal(n) == decimal(m),
    ensures
        n == m,
    decreases n,
{
    lemma_decimal_len(n);
    lemma_decimal_len(m);
    if n < 10 && m < 10 {
        assert(decimal(n)[0] == digit_char(n));
        assert(decimal(m)[0] == digit_char(m));
        assert(((48 + n) as u8) == ((48 + m) as u8));
    } else if n >= 10 && m >= 10 {
        let dn = decimal(n);
        assert(dn.last() == digit_char(n % 10));
        assert(decimal(m).last() == digit_char(m % 10));
        assert(((48 + n % 10) as u8) == ((48 + m % 10) as u8));
        assert(decimal(n / 10) =~= dn.drop_last());
        assert(decimal(m / 10) =~= decimal(m).drop_last());
        lemma_decimal_injective(n / 10, m / 10);
    } else {
        assert(decimal(n).len() != decimal(m).len());
    }
}

/// Appends `other` to `s`.
pub fn push_str(s: &mut String, other: &str)
    ensures
        final(s)@ == old(s)@ + other@,
{
    let cs = chars_of(other);
    let mut i: usize = 0;
    let ghost start = s@;
    while i < cs.len()
        invariant
            i <= cs.len(),
            cs@ == other@,
            s@ == start + cs@.take(i as int),
        decreases cs.len() - i,
    {
        push_char(s, cs[i]);
        assert(cs@.take(i + 1) =~= cs@.take(i as int).push(cs@[i as int]));
        assert(start + cs@.take(i + 1) =~= (start + cs@.take(i as int)).push(cs@[i as int]));
        i = i + 1;
    }
    assert(cs@.take(i as int) =~= cs@);
}

/// `a` followed by `b`.
pub fn concat2(a: &str, b: &str) -> (r: String)
    ensures
        r@ == a@ + b@,
{
    let mut r = String::new();
    push_str(&mut r, a);
    push_str(&mut r, b);
    assert(r@ =~= a@ + b@);
    r
}

/// `a`, `b`, `c` in sequence.
pub fn concat3(a: &str, b: &str, c: &str) -> (r: String)
    ensures
        r@ == a@ + b@ + c@,
{
    let mut r = String::new();
    push_str(&mut r, a);
    push_str(&mut r, b);
    push_str(&mut r, c);
    assert(r@ =~= a@ + b@ + c@);
    r
}

/// `i` is the position of the first `c` in `s`.
pub open spec fn is_first(s: Seq<char>, c: char, i: int) -> bool {
    0 <= i < s.len() && s[i] == c && forall|j: int| 0 <= j < i ==> s[j] != c
}

/// The position of the first `c` in `s`, if `c` occurs.
pub open spec fn first_index(s: Seq<char>, c: char) -> Option<int> {
    if exists|i: int| is_first(s, c, i) {
        Some(choose|i: int| is_first(s, c, i))
    } else {
        None
    }
}

/// `s` split around its first `c`: the part before and the part after.
pub open spec fn split_once(s: Seq<char>, c: char) -> Option<(Seq<char>, Seq<char>)> {
    match first_index(s, c) {
        Some(i) => Some((s.take(i), s.skip(i + 1))),
        None => None,
    }
}

/// Position of the first `c` in `cs`.
pub fn find_char(cs: &Vec<char>, c: char) -> (r: Option<usize>)
    ensures
        r matches Some(k) ==> first_index(cs@, c) == Some(k as int),
        r is None ==> first_index(cs@, c) is None,
        r is None ==> forall|j: int| 0 <= j < cs.len() ==> cs@[j] != c,
{
    let mut i: usize = 0;
    while i < cs.len()
        invariant
            i <= cs.len(),
            forall|j: int| 0 <= j < i ==> cs@[j] != c,
        decreases cs.len() - i,
    {
        if cs[i] == c {
            proof {
                assert(is_first(cs@, c, i as int));
                let w = choose|w: int| is_first(cs@, c, w);
                if w < i {
                    assert(cs@[w] != c);
                }
                if i < w {
                    assert(cs@[i as int] != c);
                }
            }
            return Some(i);
        }
        i = i + 1;
    }
    proof {
        if exists|w: int| is_first(cs@, c, w) {
            let w = choose|w: int| is_first(cs@, c, w);
            assert(cs@[w] != c);
        }
    }
    None
}

/// `s` split around its first `c`, as owned strings.
pub fn split_once_str(s: &str, c: char) -> (r: Option<(String, String)>)
    ensures
        match split_once(s@, c) {
            Some((a, b)) => r matches Some(p) && p.0@ == a && p.1@ == b,
            None => r is None,
        },
{
    let cs = chars_of(s);
    match find_char(&cs, c) {
        Some(i) => {
            let head = substring(&cs, 0, i);
            let tail = substring(&cs, i + 1, cs.len());
            assert(head@ =~= s@.take(i as int));
            assert(tail@ =~= s@.skip(i + 1));
            Some((head, tail))
        },
        None => None,
    }
}


/// `s` with every non-overlapping occurrence of `pat` (scanning left to
/// right) replaced by `with`.
pub open spec fn replace_all(s: Seq<char>, pat: Seq<char>, with: Seq<char>) -> Seq<char>
    decreases s.len(),
{
    if s.len() == 0 {
        Seq::empty()
    } else if pat.len() > 0 && pat.len() <= s.len() && s.take(pat.len() as int) == pat {
        with + replace_all(s.skip(pat.len() as int), pat, with)
    } else {
        seq![s[0]] + replace_all(s.skip(1), pat, with)
    }
}

/// Whether `pat` occurs in `s` starting at position `i`.
pub open spec fn occurs_at(s: Seq<char>, pat: Seq<char>, i: int) -> bool {
    0 <= i && i + pat.len() <= s.len() && s.subrange(i, i + pat.len()) == pat
}

/// Replacing leaves alone a leading part where no occurrence starts, and
/// an occurrence at the front becomes the replacement.
pub proof fn law_replace_all_parts(x: Seq<char>, y: Seq<char>, pat: Seq<char>, with: Seq<char>)
    requires
        pat.len() > 0,
    ensures
        (forall|i: int| 0 <= i < x.len() ==> !occurs_at(x + y, pat, i)) ==> replace_all(x + y, pat, with) == x + replace_all(
            y,
            pat,
            with,
        ),
        replace_all(pat + y, pat, with) == with + replace_all(y, pat, with),
    decreases x.len(),
{
    let s = pat + y;
    assert(s.take(pat.len() as int) =~= pat);
    assert(s.skip(pat.len() as int) =~= y);
    if x.len() > 0 && (forall|i: int| 0 <= i < x.len() ==> !occurs_at(x + y, pat, i)) {
        let t = x + y;
        assert(!occurs_at(t, pat, 0));
        assert(!(pat.len() <= t.len() && t.take(pat.len() as int) == pat)) by {
            if pat.len() <= t.len() && t.take(pat.len() as int) == pat {
                assert(t.subrange(0, pat.len() as int) =~= t.take(pat.len() as int));
            }
        }
        let x1 = x.skip(1);
        assert(t.skip(1) =~= x1 + y);
        assert forall|i: int| 0 <= i < x1.len() implies !occurs_at(x1 + y, pat, i) by {
            assert(!occurs_at(t, pat, i + 1));
            if i + pat.len() <= (x1 + y).len() {
                assert((x1 + y).subrange(i, i + pat.len()) =~= t.subrange(i + 1, i + 1 + pat.len()));
            }
        }
        law_replace_all_parts(x1, y, pat, with);
        assert(x =~= seq![x[0]] + x1);
        assert(t[0] == x[0]);
        assert(seq![x[0]] + (x1 + replace_all(y, pat, with)) =~= x + replace_all(y, pat, with));
    }
}

/// A string in which the pattern never occurs is left unchanged.
pub proof fn law_replace_all_without_occurrence(s: Seq<char>, pat: Seq<char>, with: Seq<char>)
    requires
        pat.len() > 0,
        forall|i: int| 0 <= i < s.len() ==> !occurs_at(s, pat, i),
    ensures
        replace_all(s, pat, with) == s,
{
    let e = Seq::<char>::empty();
    assert(s + e =~= s);
    law_replace_all_parts(s, e, pat, with);
    assert(replace_all(e, pat, with) =~= e);
    assert(s + e =~= s);
}

/// `str::replace` with a non-empty pattern.
pub fn replace(s: &str, pat: &str, with: &str) -> (r: String)
    requires
        pat@.len() > 0,
    ensures
        r@ == replace_all(s@, pat@, with@),
{
    let cs = chars_of(s);
    let pc = chars_of(pat);
    let mut out = String::new();
    let mut i: usize = 0;
    assert(cs@.skip(0) =~= cs@);
    while i < cs.len()
        invariant
            i <= cs.len(),
            cs@ == s@,
            pc@ == pat@,
            pc.len() > 0,
            out@ + replace_all(cs@.skip(i as int), pat@, with@) == replace_all(s@, pat@, with@),
        decreases cs.len() - i,
    {
        let ghost rest = cs@.skip(i as int);
        let mut matched = pc.len() <= cs.len() - i;
        let mut k: usize = 0;
        while matched && k < pc.len()
            invariant
                k <= pc.len(),
                matched ==> pc.len() <= cs.len() - i,
                rest == cs@.skip(i as int),
                matched ==> forall|j: int| 0 <= j < k ==> rest[j] == pc@[j],
                !matched ==> !(pc.len() <= rest.len() && rest.take(pc.len() as int) == pc@),
            decreases pc.len() - k,
        {
            if cs[i + k] != pc[k] {
                assert(rest.take(pc.len() as int)[k as int] != pc@[k as int]);
                matched = false;
            }
            k = k + 1;
        }
        if matched {
            assert(rest.take(pc.len() as int) =~= pc@);
            assert(rest.skip(pc.len() as int) =~= cs@.skip(i + pc.len()));
            push_str(&mut out, with);
            i = i + pc.len();
        } else {
            assert(rest.skip(1) =~= cs@.skip(i + 1));
            push_char(&mut out, cs[i]);
            i = i + 1;
        }
    }
    assert(cs@.skip(i as int) =~= Seq::<char>::empty());
    out
}

} // verus!
