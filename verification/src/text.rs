//! Symbol names: decimal numbers in names, and which names are identifiers.

use pliron::identifier::Identifier;
use vstd::prelude::*;
use vstd::string::*;

verus! {

/// The decimal digit of a number below ten.
pub open spec fn digit(d: nat) -> char {
    if d == 0 {
        '0'
    } else if d == 1 {
        '1'
    } else if d == 2 {
        '2'
    } else if d == 3 {
        '3'
    } else if d == 4 {
        '4'
    } else if d == 5 {
        '5'
    } else if d == 6 {
        '6'
    } else if d == 7 {
        '7'
    } else if d == 8 {
        '8'
    } else {
        '9'
    }
}

/// The decimal notation of a number.
pub open spec fn decimal(n: nat) -> Seq<char>
    decreases n,
{
    if n < 10 {
        seq![digit(n)]
    } else {
        decimal(n / 10).push(digit(n % 10))
    }
}

fn digit_str(d: u64) -> (s: &'static str)
    requires
        d < 10,
    ensures
        s@ == seq![digit(d as nat)],
{
    proof {
        reveal_strlit("0");
        reveal_strlit("1");
        reveal_strlit("2");
        reveal_strlit("3");
        reveal_strlit("4");
        reveal_strlit("5");
        reveal_strlit("6");
        reveal_strlit("7");
        reveal_strlit("8");
        reveal_strlit("9");
        assert("0"@ =~= seq!['0']);
        assert("1"@ =~= seq!['1']);
        assert("2"@ =~= seq!['2']);
        assert("3"@ =~= seq!['3']);
        assert("4"@ =~= seq!['4']);
        assert("5"@ =~= seq!['5']);
        assert("6"@ =~= seq!['6']);
        assert("7"@ =~= seq!['7']);
        assert("8"@ =~= seq!['8']);
        assert("9"@ =~= seq!['9']);
    }
    match d {
        0 => "0",
        1 => "1",
        2 => "2",
        3 => "3",
        4 => "4",
        5 => "5",
        6 => "6",
        7 => "7",
        8 => "8",
        _ => "9",
    }
}

/// Appends the decimal notation of `n`.
pub fn push_decimal(s: &mut String, n: u64)
    ensures
        final(s)@ == old(s)@ + decimal(n as nat),
    decreases n,
{
    if n < 10 {
        s.append(digit_str(n));
    } else {
        push_decimal(s, n / 10);
        s.append(digit_str(n % 10));
        proof {
            assert(s@ =~= old(s)@ + decimal(n as nat));
        }
    }
}

/// A prefix followed by a number in decimal notation.
pub fn numbered(prefix: &str, n: u64) -> (s: String)
    ensures
        s@ == prefix@ + decimal(n as nat),
{
    let mut s = prefix.to_owned();
    push_decimal(&mut s, n);
    s
}

/// Two texts in a row.
pub fn joined(first: &str, second: &str) -> (s: String)
    ensures
        s@ == first@ + second@,
{
    let mut s = first.to_owned();
    s.append(second);
    s
}

/// Whether a name has exactly the given text.
pub fn is_named(name: &String, text: &str) -> (b: bool)
    ensures
        b == (name@ == text@),
{
    *name == text.to_owned()
}

/// Whether `part` occurs in `text`.
pub open spec fn spec_contains(text: Seq<char>, part: Seq<char>) -> bool {
    exists|i: int|
        0 <= i && i + part.len() <= text.len() && #[trigger] text.subrange(i, i + part.len())
            == part
}

/// Whether `part` stands in `text` at position `at`.
fn stands_at(text: &str, part: &str, at: usize, part_len: usize) -> (b: bool)
    requires
        at + part@.len() <= text@.len(),
        part_len == part@.len(),
        text@.len() <= usize::MAX,
    ensures
        b == (text@.subrange(at as int, at + part@.len()) == part@),
{
    let mut k: usize = 0;
    while k < part_len
        invariant
            k <= part_len,
            part_len == part@.len(),
            at + part@.len() <= text@.len() <= usize::MAX,
            forall|j: int| 0 <= j < k ==> text@[at + j] == part@[j],
        decreases part_len - k,
    {
        if text.get_char(at + k) != part.get_char(k) {
            proof {
                assert(text@.subrange(at as int, at + part@.len())[k as int] != part@[k as int]);
            }
            return false;
        }
        k = k + 1;
    }
    proof {
        assert(text@.subrange(at as int, at + part@.len()) =~= part@);
    }
    true
}

/// Whether `part` occurs in `text`.
pub fn contains(text: &str, part: &str) -> (b: bool)
    ensures
        b == spec_contains(text@, part@),
{
    let len: usize = text.unicode_len();
    let part_len: usize = part.unicode_len();
    if part_len > len {
        return false;
    }
    let mut i: usize = 0;
    while i <= len - part_len
        invariant
            i <= len - part_len + 1,
            part_len <= len,
            len == text@.len(),
            part_len == part@.len(),
            forall|j: int|
                0 <= j < i ==> #[trigger] text@.subrange(j, j + part@.len()) != part@,
        decreases len - part_len + 1 - i,
    {
        if stands_at(text, part, i, part_len) {
            return true;
        }
        if i == len - part_len {
            return false;
        }
        i = i + 1;
    }
    false
}

/// Whether `text` begins with `prefix`.
pub open spec fn spec_starts_with(text: Seq<char>, prefix: Seq<char>) -> bool {
    prefix.len() <= text.len() && text.subrange(0, prefix.len() as int) == prefix
}

/// Whether `text` begins with `prefix`.
pub fn starts_with(text: &str, prefix: &str) -> (b: bool)
    ensures
        b == spec_starts_with(text@, prefix@),
{
    let len: usize = text.unicode_len();
    let prefix_len: usize = prefix.unicode_len();
    prefix_len <= len && stands_at(text, prefix, 0, prefix_len)
}

/// A path with each `::` replaced by `__`, from left to right.
pub open spec fn mangled(path: Seq<char>) -> Seq<char>
    decreases path.len(),
{
    if path.len() == 0 {
        Seq::empty()
    } else if path.len() >= 2 && path[0] == ':' && path[1] == ':' {
        seq!['_', '_'] + mangled(path.skip(2))
    } else {
        seq![path[0]] + mangled(path.skip(1))
    }
}

/// A path with each `::` replaced by `__`.
pub fn mangle(path: &str) -> (s: String)
    ensures
        s@ == mangled(path@),
{
    let len: usize = path.unicode_len();
    let mut s = String::new();
    let mut i: usize = 0;
    proof {
        reveal_strlit("__");
        assert("__"@ =~= seq!['_', '_']);
        assert(path@.skip(0) =~= path@);
        assert(s@ + mangled(path@) =~= mangled(path@));
    }
    while i < len
        invariant
            i <= len,
            len == path@.len(),
            "__"@ == seq!['_', '_'],
            s@ + mangled(path@.skip(i as int)) == mangled(path@),
        decreases len - i,
    {
        let ghost rest = path@.skip(i as int);
        let ghost before = s@;
        if len - i >= 2 && path.get_char(i) == ':' && path.get_char(i + 1) == ':' {
            s.append("__");
            i = i + 2;
            proof {
                assert(rest.skip(2) =~= path@.skip(i as int));
            }
        } else {
            s.append(path.substring_char(i, i + 1));
            i = i + 1;
            proof {
                assert(rest.skip(1) =~= path@.skip(i as int));
                assert(path@.subrange(i - 1, i as int) =~= seq![rest[0]]);
            }
        }
        proof {
            assert(s@ + mangled(path@.skip(i as int)) =~= before + mangled(rest));
        }
    }
    proof {
        assert(s@ + mangled(path@.skip(i as int)) =~= s@);
    }
    s
}

/// A name without a colon is its own mangling.
pub proof fn law_mangled_plain(name: Seq<char>)
    requires
        forall|i: int| 0 <= i < name.len() ==> name[i] != ':',
    ensures
        mangled(name) == name,
    decreases name.len(),
{
    if name.len() > 0 {
        let rest = name.skip(1);
        assert forall|i: int| 0 <= i < rest.len() implies rest[i] != ':' by {
            assert(rest[i] == name[i + 1]);
        }
        law_mangled_plain(rest);
        assert(seq![name[0]] + rest =~= name);
    } else {
        assert(mangled(name) =~= name);
    }
}

/// The mangling of a path joins the manglings of its parts by `__`.
pub proof fn law_mangled_path(first: Seq<char>, rest: Seq<char>)
    requires
        forall|i: int| 0 <= i < first.len() ==> first[i] != ':',
    ensures
        mangled(first + seq![':', ':'] + rest) == first + seq!['_', '_'] + mangled(rest),
    decreases first.len(),
{
    let path = first + seq![':', ':'] + rest;
    if first.len() == 0 {
        assert(path.skip(2) =~= rest);
        assert(first + seq!['_', '_'] + mangled(rest) =~= seq!['_', '_'] + mangled(rest));
    } else {
        let tail = first.skip(1);
        assert forall|i: int| 0 <= i < tail.len() implies tail[i] != ':' by {
            assert(tail[i] == first[i + 1]);
        }
        law_mangled_path(tail, rest);
        assert(path.skip(1) =~= tail + seq![':', ':'] + rest);
        assert(path[0] == first[0]);
        assert(seq![first[0]] + (tail + seq!['_', '_'] + mangled(rest)) =~= first + seq!['_', '_']
            + mangled(rest));
    }
}

/// A letter of the alphabet in either case, or an underscore.
pub open spec fn is_word_start(c: char) -> bool {
    ('a' <= c <= 'z') || ('A' <= c <= 'Z') || c == '_'
}

/// A character that an identifier may continue with.
pub open spec fn is_word_char(c: char) -> bool {
    is_word_start(c) || ('0' <= c <= '9')
}

/// The names that are identifiers: `[a-zA-Z_][a-zA-Z0-9_]*`.
pub open spec fn is_identifier(name: Seq<char>) -> bool {
    name.len() > 0 && is_word_start(name[0]) && forall|i: int|
        0 <= i < name.len() ==> is_word_char(#[trigger] name[i])
}

/// `Identifier::try_from`, read back as text: succeeds exactly on the names
/// that match `[a-zA-Z_][a-zA-Z0-9_]*`, and keeps the name.
#[verifier::external_body]
pub(crate) fn identifier(name: &str) -> (r: Option<String>)
    ensures
        r is Some <==> is_identifier(name@),
        r matches Some(s) ==> s@ == name@,
{
    match Identifier::try_from(name) {
        Ok(id) => Some(String::from(id)),
        Err(_) => None,
    }
}

/// The decimal notation of a number consists of digits.
pub proof fn lemma_decimal_chars(n: nat)
    ensures
        decimal(n).len() > 0,
        forall|i: int| 0 <= i < decimal(n).len() ==> is_word_char(#[trigger] decimal(n)[i]),
    decreases n,
{
    if n >= 10 {
        lemma_decimal_chars(n / 10);
    }
}

/// An identifier followed by a decimal number is an identifier.
pub proof fn lemma_numbered_identifier(prefix: Seq<char>, n: nat)
    requires
        is_identifier(prefix),
    ensures
        is_identifier(prefix + decimal(n)),
{
    lemma_decimal_chars(n);
}

/// Different numbers have different decimal notations.
pub proof fn lemma_decimal_injective(a: nat, b: nat)
    requires
        decimal(a) == decimal(b),
    ensures
        a == b,
    decreases a,
{
    if a < 10 && b < 10 {
        assert(decimal(a)[0] == digit(a));
        assert(decimal(b)[0] == digit(b));
    } else if a < 10 {
        lemma_decimal_chars(b / 10);
        assert(decimal(b).len() > 1);
    } else if b < 10 {
        lemma_decimal_chars(a / 10);
        assert(decimal(a).len() > 1);
    } else {
        assert(decimal(a).drop_last() =~= decimal(a / 10));
        assert(decimal(b).drop_last() =~= decimal(b / 10));
        assert(decimal(a).last() == digit(a % 10));
        assert(decimal(b).last() == digit(b % 10));
        lemma_decimal_injective(a / 10, b / 10);
    }
}

/// The number that decimal digits stand for.
pub open spec fn digits_value(text: Seq<char>) -> nat
    decreases text.len(),
{
    if text.len() == 0 {
        0
    } else {
        10 * digits_value(text.drop_last()) + (text.last() as nat - '0' as nat) as nat
    }
}

/// The decimal notation of a number stands for the number, in digits only and
/// without a zero in front.
pub proof fn law_decimal(n: nat)
    ensures
        digits_value(decimal(n)) == n,
        decimal(n).len() > 0,
        forall|i: int| 0 <= i < decimal(n).len() ==> '0' <= #[trigger] decimal(n)[i] <= '9',
        n > 0 ==> decimal(n)[0] != '0',
    decreases n,
{
    let text = decimal(n);
    if n < 10 {
        assert(text.drop_last() =~= Seq::empty());
        assert(digits_value(text.drop_last()) == 0);
    } else {
        law_decimal(n / 10);
        assert(text.drop_last() =~= decimal(n / 10));
        assert(text.last() == digit(n % 10));
        assert(text[0] == decimal(n / 10)[0]);
    }
}

} // verus!
