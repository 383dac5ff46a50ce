//! Converting between Rust identifiers and WIT (kebab-case) names.
use vstd::prelude::*;
use vstd::string::StrSliceExecFns;
use crate::text::push_char;

verus! {

/// Whether a character is uppercase (Unicode `Uppercase` property).
pub uninterp spec fn char_is_uppercase(c: char) -> bool;

/// The lowercase mapping of a character (Unicode; may be several characters).
pub uninterp spec fn char_lowercase(c: char) -> Seq<char>;

/// The uppercase mapping of a character (Unicode; may be several characters).
pub uninterp spec fn char_uppercase(c: char) -> Seq<char>;

/// Calls `char::is_uppercase`. Claims: the answer depends on the character
/// alone; ASCII capitals are uppercase, and ASCII lowercase letters, digits,
/// `_` and `-` are not.
#[verifier::external_body]
fn is_uppercase(c: char) -> (r: bool)
    ensures
        r == char_is_uppercase(c),
        'A' <= c <= 'Z' ==> r,
        ('a' <= c <= 'z') || ('0' <= c <= '9') || c == '_' || c == '-' ==> !r,
{
    c.is_uppercase()
}

/// Calls `char::to_lowercase`, collecting the characters it yields. Claims: they
/// depend on the character alone, and an ASCII capital maps to its one ASCII
/// lowercase letter.
#[verifier::external_body]
fn to_lowercase(c: char) -> (r: String)
    ensures
        r@ == char_lowercase(c),
        'A' <= c <= 'Z' ==> r@ == seq![((c as u32) + 32) as char],
{
    c.to_lowercase().collect()
}

/// Calls `char::to_uppercase`, collecting the characters it yields. Claims: they
/// depend on the character alone, an ASCII lowercase letter maps to its one
/// ASCII capital, and an ASCII digit (which has no uppercase mapping) to
/// itself.
#[verifier::external_body]
fn to_uppercase(c: char) -> (r: String)
    ensures
        r@ == char_uppercase(c),
        'a' <= c <= 'z' ==> r@ == seq![((c as u32) - 32) as char],
        '0' <= c <= '9' ==> r@ == seq![c],
{
    c.to_uppercase().collect()
}

/// Kebab-case of an identifier: `_` becomes `-`; an uppercase letter becomes
/// its lowercase, preceded by `-` unless it is the first character.
pub open spec fn kebab_spec(s: Seq<char>, first: bool) -> Seq<char>
    decreases s.len(),
{
    if s.len() == 0 {
        Seq::empty()
    } else {
        let c = s[0];
        let head = if c == '_' {
            seq!['-']
        } else if char_is_uppercase(c) {
            (if first {
                Seq::empty()
            } else {
                seq!['-']
            }) + char_lowercase(c)
        } else {
            seq![c]
        };
        head + kebab_spec(s.drop_first(), false)
    }
}

/// An ASCII identifier character: a letter, a digit, `_` or `-`.
pub open spec fn ascii_ident_char(c: char) -> bool {
    ('A' <= c <= 'Z') || ('a' <= c <= 'z') || ('0' <= c <= '9') || c == '_' || c == '-'
}

/// [`kebab_spec`] on ASCII identifier characters, where the case mappings
/// are plain: a capital `C` becomes `-c` (or `c` at the start).
pub open spec fn kebab_ascii_spec(s: Seq<char>, first: bool) -> Seq<char>
    decreases s.len(),
{
    if s.len() == 0 {
        Seq::empty()
    } else {
        let c = s[0];
        let head = if c == '_' {
            seq!['-']
        } else if 'A' <= c <= 'Z' {
            (if first {
                Seq::empty()
            } else {
                seq!['-']
            }) + seq![((c as u32) + 32) as char]
        } else {
            seq![c]
        };
        head + kebab_ascii_spec(s.drop_first(), false)
    }
}

/// Rust identifier (snake_case / PascalCase) to kebab-case: `y_pos` to `y-pos`,
/// `Circle` to `circle`.
pub fn to_kebab(s: &str) -> (out: String)
    ensures
        out@ == kebab_spec(s@, true),
        (forall|j: int| 0 <= j < s@.len() ==> ascii_ident_char(#[trigger] s@[j])) ==> out@
            == kebab_ascii_spec(s@, true),
{
    let ghost ascii = forall|j: int| 0 <= j < s@.len() ==> ascii_ident_char(#[trigger] s@[j]);
    let n = s.unicode_len();
    let mut out = String::new();
    let mut i: usize = 0;
    assert(s@.skip(0) =~= s@);
    while i < n
        invariant
            n == s@.len(),
            i <= n,
            out@ + kebab_spec(s@.skip(i as int), i == 0) == kebab_spec(s@, true),
            ascii == (forall|j: int| 0 <= j < s@.len() ==> ascii_ident_char(#[trigger] s@[j])),
            ascii ==> out@ + kebab_ascii_spec(s@.skip(i as int), i == 0) == kebab_ascii_spec(
                s@,
                true,
            ),
        decreases n - i,
    {
        let ch = s.get_char(i);
        let ghost before = out@;
        let ghost rest = s@.skip(i as int);
        assert(rest[0] == ch);
        assert(rest.drop_first() =~= s@.skip(i as int + 1));
        if ch == '_' {
            push_char(&mut out, '-');
        } else if is_uppercase(ch) {
            if i != 0 {
                push_char(&mut out, '-');
            }
            out.append(to_lowercase(ch).as_str());
        } else {
            push_char(&mut out, ch);
        }
        assert(out@ + kebab_spec(s@.skip(i as int + 1), false) =~= before + kebab_spec(
            rest,
            i == 0,
        ));
        proof {
            if ascii {
                assert(ascii_ident_char(s@[i as int]));
                assert(out@ + kebab_ascii_spec(s@.skip(i as int + 1), false) =~= before
                    + kebab_ascii_spec(rest, i == 0));
            }
        }
        i += 1;
    }
    assert(s@.skip(n as int) =~= Seq::<char>::empty());
    assert(out@ + Seq::<char>::empty() =~= out@);
    out
}

/// Every `-` replaced by `_`.
pub open spec fn snake_spec(s: Seq<char>) -> Seq<char> {
    s.map_values(|c: char| if c == '-' { '_' } else { c })
}

/// kebab-case to snake_case (WIT record field to struct field).
pub fn kebab_to_snake(s: &str) -> (out: String)
    ensures
        out@ == snake_spec(s@),
{
    let n = s.unicode_len();
    let mut out = String::new();
    let mut i: usize = 0;
    while i < n
        invariant
            n == s@.len(),
            i <= n,
            out@ == snake_spec(s@.take(i as int)),
        decreases n - i,
    {
        let ch = s.get_char(i);
        if ch == '-' {
            push_char(&mut out, '_');
        } else {
            push_char(&mut out, ch);
        }
        assert(snake_spec(s@.take(i as int + 1)) =~= snake_spec(s@.take(i as int)).push(
            if ch == '-' { '_' } else { ch },
        ));
        i += 1;
    }
    assert(s@.take(n as int) =~= s@);
    out
}

/// PascalCase of a kebab name: the `-`-separated segments, each with its first
/// character uppercased, concatenated.
pub open spec fn pascal_spec(s: Seq<char>, at_start: bool) -> Seq<char>
    decreases s.len(),
{
    if s.len() == 0 {
        Seq::empty()
    } else if s[0] == '-' {
        pascal_spec(s.drop_first(), true)
    } else if at_start {
        char_uppercase(s[0]) + pascal_spec(s.drop_first(), false)
    } else {
        seq![s[0]] + pascal_spec(s.drop_first(), false)
    }
}

/// A character of a lowercase kebab name: an ASCII lowercase letter, a digit
/// or `-`.
pub open spec fn ascii_kebab_char(c: char) -> bool {
    ('a' <= c <= 'z') || ('0' <= c <= '9') || c == '-'
}

/// [`pascal_spec`] on lowercase kebab names, where uppercasing is plain: a
/// letter becomes its capital and a digit stays.
pub open spec fn pascal_ascii_spec(s: Seq<char>, at_start: bool) -> Seq<char>
    decreases s.len(),
{
    if s.len() == 0 {
        Seq::empty()
    } else if s[0] == '-' {
        pascal_ascii_spec(s.drop_first(), true)
    } else if at_start && 'a' <= s[0] <= 'z' {
        seq![((s[0] as u32) - 32) as char] + pascal_ascii_spec(s.drop_first(), false)
    } else {
        seq![s[0]] + pascal_ascii_spec(s.drop_first(), false)
    }
}

/// kebab-case to PascalCase (WIT variant case to enum variant).
pub fn kebab_to_pascal(s: &str) -> (out: String)
    ensures
        out@ == pascal_spec(s@, true),
        (forall|j: int| 0 <= j < s@.len() ==> ascii_kebab_char(#[trigger] s@[j])) ==> out@
            == pascal_ascii_spec(s@, true),
{
    let ghost ascii = forall|j: int| 0 <= j < s@.len() ==> ascii_kebab_char(#[trigger] s@[j]);
    let n = s.unicode_len();
    let mut out = String::new();
    let mut i: usize = 0;
    let mut at_start = true;
    assert(s@.skip(0) =~= s@);
    while i < n
        invariant
            n == s@.len(),
            i <= n,
            out@ + pascal_spec(s@.skip(i as int), at_start) == pascal_spec(s@, true),
            ascii == (forall|j: int| 0 <= j < s@.len() ==> ascii_kebab_char(#[trigger] s@[j])),
            ascii ==> out@ + pascal_ascii_spec(s@.skip(i as int), at_start) == pascal_ascii_spec(
                s@,
                true,
            ),
        decreases n - i,
    {
        let ch = s.get_char(i);
        let ghost before = out@;
        let ghost rest = s@.skip(i as int);
        let ghost was_start = at_start;
        assert(rest[0] == ch);
        assert(rest.drop_first() =~= s@.skip(i as int + 1));
        if ch == '-' {
            at_start = true;
        } else if at_start {
            out.append(to_uppercase(ch).as_str());
            at_start = false;
        } else {
            push_char(&mut out, ch);
        }
        assert(out@ + pascal_spec(s@.skip(i as int + 1), at_start) =~= before + pascal_spec(
            rest,
            was_start,
        ));
        proof {
            if ascii {
                assert(ascii_kebab_char(s@[i as int]));
                assert(out@ + pascal_ascii_spec(s@.skip(i as int + 1), at_start) =~= before
                    + pascal_ascii_spec(rest, was_start));
            }
        }
        i += 1;
    }
    assert(s@.skip(n as int) =~= Seq::<char>::empty());
    assert(out@ + Seq::<char>::empty() =~= out@);
    out
}

} // verus!
