//! Naming and argument handling for registry code generation.

use vstd::prelude::*;

use crate::text::{chars_of, concat2, concat3, push_char, str_eq};

verus! {

pub open spec fn is_ascii_lower(c: char) -> bool {
    'a' <= c && c <= 'z'
}

pub open spec fn is_ascii_upper(c: char) -> bool {
    'A' <= c && c <= 'Z'
}

pub open spec fn is_ascii_alnum(c: char) -> bool {
    is_ascii_lower(c) || is_ascii_upper(c) || ('0' <= c && c <= '9')
}

/// ASCII upper case of `c`; other characters unchanged.
pub open spec fn ascii_upper(c: char) -> char {
    if is_ascii_lower(c) {
        ((c as int) - 32) as char
    } else {
        c
    }
}

/// ASCII lower case of `c`; other characters unchanged.
pub open spec fn ascii_lower(c: char) -> char {
    if is_ascii_upper(c) {
        ((c as int) + 32) as char
    } else {
        c
    }
}

fn to_upper(c: char) -> (r: char)
    ensures
        r == ascii_upper(c),
{
    if 'a' <= c && c <= 'z' {
        let code: u32 = c as u32;
        ((code - 32) as u8) as char
    } else {
        c
    }
}

fn to_lower(c: char) -> (r: char)
    ensures
        r == ascii_lower(c),
{
    if 'A' <= c && c <= 'Z' {
        let code: u32 = c as u32;
        ((code + 32) as u8) as char
    } else {
        c
    }
}

fn alnum(c: char) -> (r: bool)
    ensures
        r == is_ascii_alnum(c),
{
    ('a' <= c && c <= 'z') || ('A' <= c && c <= 'Z') || ('0' <= c && c <= '9')
}


/// Position `i` of `s` begins a word: an alphanumeric run starts there, or
/// a lower-case letter is followed there by an upper-case one.
pub open spec fn starts_word(s: Seq<char>, i: int) -> bool {
    i == 0 || !is_ascii_alnum(s[i - 1]) || (is_ascii_upper(s[i]) && is_ascii_lower(s[i - 1]))
}

/// The PascalCase identifier of a key: non-alphanumeric characters are
/// dropped, the first character of each word is upper-cased and the rest
/// lower-cased.
pub open spec fn pascal_of(s: Seq<char>) -> Seq<char>
    decreases s.len(),
{
    if s.len() == 0 {
        Seq::empty()
    } else {
        let i = s.len() - 1;
        let prefix = pascal_of(s.drop_last());
        if is_ascii_alnum(s[i]) {
            prefix.push(if starts_word(s, i) { ascii_upper(s[i]) } else { ascii_lower(s[i]) })
        } else {
            prefix
        }
    }
}

/// Converts an inert key like `transaction.coBuyer.remove` into an
/// identifier like `TransactionCoBuyerRemove`, splitting on every
/// non-alphanumeric character and on lower-to-upper boundaries.
pub fn pascal_ident(id: &str) -> (r: String)
    ensures
        r@ == pascal_of(id@),
{
    let cs = chars_of(id);
    let mut out = String::new();
    let mut i: usize = 0;
    while i < cs.len()
        invariant
            i <= cs.len(),
            cs@ == id@,
            out@ == pascal_of(cs@.take(i as int)),
        decreases cs.len() - i,
    {
        let c = cs[i];
        let ghost t = cs@.take(i + 1);
        assert(t.drop_last() =~= cs@.take(i as int));
        assert(t[i as int] == c);
        if alnum(c) {
            let start = i == 0 || !alnum(cs[i - 1]) || (('A' <= c && c <= 'Z') && ('a' <= cs[i - 1] && cs[i - 1] <= 'z'));
            assert(i > 0 ==> t[i - 1] == cs@[i - 1]);
            assert(start == starts_word(t, i as int));
            if start {
                push_char(&mut out, to_upper(c));
            } else {
                push_char(&mut out, to_lower(c));
            }
        }
        i = i + 1;
    }
    assert(cs@.take(i as int) =~= cs@);
    out
}

/// Every character of an identifier is an ASCII letter or digit.
pub proof fn law_pascal_is_alphanumeric(s: Seq<char>)
    ensures
        forall|i: int| 0 <= i < pascal_of(s).len() ==> is_ascii_alnum(#[trigger] pascal_of(s)[i]),
    decreases s.len(),
{
    if s.len() > 0 {
        law_pascal_is_alphanumeric(s.drop_last());
        let c = s[s.len() - 1];
        let prefix = pascal_of(s.drop_last());
        assert(is_ascii_alnum(c) ==> is_ascii_alnum(ascii_upper(c)) && is_ascii_alnum(ascii_lower(c)));
        assert forall|i: int| 0 <= i < pascal_of(s).len() implies is_ascii_alnum(#[trigger] pascal_of(s)[i]) by {
            if i < prefix.len() {
                assert(pascal_of(s)[i] == prefix[i]);
            }
        }
    }
}

/// Which separator splits two parts does not matter: any non-alphanumeric
/// character between them yields the two parts' identifiers joined.
pub proof fn law_separator_is_irrelevant(a: Seq<char>, c: char, b: Seq<char>)
    requires
        !is_ascii_alnum(c),
    ensures
        pascal_of(a + seq![c] + b) == pascal_of(a) + pascal_of(b),
    decreases b.len(),
{
    let t = a + seq![c] + b;
    if b.len() == 0 {
        assert(t.drop_last() =~= a);
        assert(pascal_of(b) =~= Seq::<char>::empty());
        assert(pascal_of(a) + pascal_of(b) =~= pascal_of(a));
    } else {
        let b0 = b.drop_last();
        law_separator_is_irrelevant(a, c, b0);
        assert(t.drop_last() =~= a + seq![c] + b0);
        let i = t.len() - 1;
        let k = b.len() - 1;
        assert(t[i] == b[k]);
        assert(k > 0 ==> t[i - 1] == b[k - 1]);
        assert(k == 0 ==> t[i - 1] == c);
        assert(starts_word(t, i) == starts_word(b, k));
        if is_ascii_alnum(b[k]) {
            assert(pascal_of(a) + pascal_of(b0).push(pascal_of(b).last()) =~= (pascal_of(a) + pascal_of(b0)).push(
                pascal_of(b).last(),
            ));
        }
    }
}

/// The words of `seg[start..]`, given that the current word began at
/// `start` and positions before `i` hold no boundary after it.
pub open spec fn camel_words_from(seg: Seq<char>, start: int, i: int) -> Seq<Seq<char>>
    decreases seg.len() - i,
{
    if i >= seg.len() {
        seq![seg.subrange(start, seg.len() as int)]
    } else if is_ascii_upper(seg[i]) && is_ascii_lower(seg[i - 1]) {
        seq![seg.subrange(start, i)] + camel_words_from(seg, i, i + 1)
    } else {
        camel_words_from(seg, start, i + 1)
    }
}

/// A segment split at every lower-to-upper boundary (`coBuyer` gives `co`,
/// `Buyer`); an empty segment is one empty word.
pub open spec fn camel_words(seg: Seq<char>) -> Seq<Seq<char>> {
    camel_words_from(seg, 0, 1)
}

pub open spec fn words_view(v: Seq<String>) -> Seq<Seq<char>> {
    v.map_values(|w: String| w@)
}

/// Splits a segment at lower-to-upper boundaries.
pub fn split_camel_boundaries(segment: &str) -> (words: Vec<String>)
    ensures
        words_view(words@) == camel_words(segment@),
{
    let cs = chars_of(segment);
    let mut words: Vec<String> = Vec::new();
    let mut start: usize = 0;
    let mut i: usize = 1;
    if cs.len() == 0 {
        i = 0;
    }
    assert(cs.len() == 0 ==> camel_words(segment@) == camel_words_from(segment@, 0, 0));
    while i < cs.len()
        invariant
            cs@ == segment@,
            start < i <= cs.len() || (start == 0 && i == 0 && cs.len() == 0),
            words_view(words@) + camel_words_from(cs@, start as int, i as int) == camel_words(segment@),
        decreases cs.len() - i,
    {
        let c = cs[i];
        let p = cs[i - 1];
        if ('A' <= c && c <= 'Z') && ('a' <= p && p <= 'z') {
            let ghost before = words_view(words@);
            let w = crate::text::substring(&cs, start, i);
            words.push(w);
            proof {
                assert(words_view(words@) =~= before.push(cs@.subrange(start as int, i as int)));
                assert(before + camel_words_from(cs@, start as int, i as int)
                    =~= words_view(words@) + camel_words_from(cs@, i as int, i + 1));
            }
            start = i;
        }
        i = i + 1;
    }
    let ghost before = words_view(words@);
    let w = crate::text::substring(&cs, start, cs.len());
    words.push(w);
    proof {
        assert(words_view(words@) =~= before.push(cs@.subrange(start as int, cs.len() as int)));
        assert(camel_words_from(cs@, start as int, i as int) == seq![cs@.subrange(start as int, cs.len() as int)]);
        assert(before + camel_words_from(cs@, start as int, i as int) =~= words_view(words@));
    }
    words
}


/// The code generator's command line: the registry document, and where
/// the TypeScript and Python modules go.
pub struct Args {
    pub schema: String,
    pub ts: Option<String>,
    pub py: Option<String>,
}

/// Model of [`Args`].
pub struct ArgsV {
    pub schema: Seq<char>,
    pub ts: Option<Seq<char>>,
    pub py: Option<Seq<char>>,
}

pub open spec fn flag_needs_value(flag: Seq<char>) -> Seq<char> {
    flag + " needs a value"@
}

pub open spec fn flag_twice(flag: Seq<char>) -> Seq<char> {
    flag + " given twice"@
}

pub open spec fn unknown_flag(flag: Seq<char>) -> Seq<char> {
    "unknown flag `"@ + flag + "`"@
}

/// Reads `--schema`, `--ts` and `--py` flag/value pairs from position `i`
/// on, given the values seen so far; the first unknown flag, missing
/// value or repeated flag is the error.
pub open spec fn parse_flags(
    args: Seq<Seq<char>>,
    i: int,
    schema: Option<Seq<char>>,
    ts: Option<Seq<char>>,
    py: Option<Seq<char>>,
) -> Result<(Option<Seq<char>>, Option<Seq<char>>, Option<Seq<char>>), Seq<char>>
    decreases args.len() - i,
{
    if i < 0 || i >= args.len() {
        Ok((schema, ts, py))
    } else {
        let flag = args[i];
        if flag != "--schema"@ && flag != "--ts"@ && flag != "--py"@ {
            Err(unknown_flag(flag))
        } else if i + 1 >= args.len() {
            Err(flag_needs_value(flag))
        } else if flag == "--schema"@ {
            if schema is Some { Err(flag_twice(flag)) } else { parse_flags(args, i + 2, Some(args[i + 1]), ts, py) }
        } else if flag == "--ts"@ {
            if ts is Some { Err(flag_twice(flag)) } else { parse_flags(args, i + 2, schema, Some(args[i + 1]), py) }
        } else {
            if py is Some { Err(flag_twice(flag)) } else { parse_flags(args, i + 2, schema, ts, Some(args[i + 1])) }
        }
    }
}

/// The parsed command line, or the message that rejects it.
pub open spec fn parse_args_spec(args: Seq<Seq<char>>) -> Result<ArgsV, Seq<char>> {
    match parse_flags(args, 0, None, None, None) {
        Err(e) => Err(e),
        Ok((schema, ts, py)) => match schema {
            None => Err("--schema <file> is required"@),
            Some(s) => Ok(ArgsV { schema: s, ts, py }),
        },
    }
}

/// Parses the code generator's flags (program name excluded).
pub fn parse_args(args: Vec<String>) -> (r: Result<Args, String>)
    ensures
        match parse_args_spec(words_view(args@)) {
            Ok(a) => r matches Ok(x) && x.schema@ == a.schema
                && crate::envelope::opt_str_view(x.ts) == a.ts
                && crate::envelope::opt_str_view(x.py) == a.py,
            Err(e) => r matches Err(m) && m@ == e,
        },
{
    let ghost av = words_view(args@);
    let mut schema: Option<String> = None;
    let mut ts: Option<String> = None;
    let mut py: Option<String> = None;
    let mut i: usize = 0;
    while i < args.len()
        invariant
            av == words_view(args@),
            i <= args.len(),
            parse_flags(av, 0, None, None, None) == parse_flags(
                av,
                i as int,
                crate::envelope::opt_str_view(schema),
                crate::envelope::opt_str_view(ts),
                crate::envelope::opt_str_view(py),
            ),
        decreases args.len() - i,
    {
        let flag = &args[i];
        assert(av[i as int] == flag@);
        let is_schema = str_eq(flag.as_str(), "--schema");
        let is_ts = str_eq(flag.as_str(), "--ts");
        let is_py = str_eq(flag.as_str(), "--py");
        if !is_schema && !is_ts && !is_py {
            return Err(concat3("unknown flag `", flag.as_str(), "`"));
        }
        if i + 1 >= args.len() {
            return Err(concat2(flag.as_str(), " needs a value"));
        }
        let value = args[i + 1].clone();
        assert(av[i + 1] == value@);
        if is_schema {
            if schema.is_some() {
                return Err(concat2(flag.as_str(), " given twice"));
            }
            schema = Some(value);
        } else if is_ts {
            if ts.is_some() {
                return Err(concat2(flag.as_str(), " given twice"));
            }
            ts = Some(value);
        } else {
            if py.is_some() {
                return Err(concat2(flag.as_str(), " given twice"));
            }
            py = Some(value);
        }
        i = i + 2;
    }
    match schema {
        None => Err("--schema <file> is required".to_owned()),
        Some(s) => Ok(Args { schema: s, ts, py }),
    }
}

} // verus!

verus! {

/// The languages a typed registry module can be generated for.
#[derive(Debug, Clone, Copy, PartialEq, Eq)]
pub enum CodegenTarget {
    TypeScript,
    Python,
    Rust,
}

/// The target a name selects (`typescript`/`ts`, `python`/`py`,
/// `rust`/`rs`), or the message for an unknown one.
pub open spec fn target_of(name: Seq<char>) -> Result<CodegenTarget, Seq<char>> {
    if name == "typescript"@ || name == "ts"@ {
        Ok(CodegenTarget::TypeScript)
    } else if name == "python"@ || name == "py"@ {
        Ok(CodegenTarget::Python)
    } else if name == "rust"@ || name == "rs"@ {
        Ok(CodegenTarget::Rust)
    } else {
        Err("unknown codegen target `"@ + name + "` (typescript | python | rust)"@)
    }
}

/// Selects a codegen target by name.
pub fn codegen_target(target: &str) -> (r: Result<CodegenTarget, String>)
    ensures
        match target_of(target@) {
            Ok(t) => r == Ok::<CodegenTarget, String>(t),
            Err(m) => r matches Err(x) && x@ == m,
        },
{
    if str_eq(target, "typescript") || str_eq(target, "ts") {
        Ok(CodegenTarget::TypeScript)
    } else if str_eq(target, "python") || str_eq(target, "py") {
        Ok(CodegenTarget::Python)
    } else if str_eq(target, "rust") || str_eq(target, "rs") {
        Ok(CodegenTarget::Rust)
    } else {
        Err(concat3("unknown codegen target `", target, "` (typescript | python | rust)"))
    }
}

} // verus!
