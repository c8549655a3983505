//! Axes, statuses, divider hits and the letter names of columns.
use vstd::prelude::*;
use vstd::string::StringExecFns;

verus! {

broadcast use vstd::string::is_ascii_spec_bytes;

/// An axis of a table.
#[derive(Debug, Clone, Copy, PartialEq, Eq, Structural)]
pub enum Axis {
    Column,
    Row,
}

/// The possible statuses of a table.
#[derive(Debug, Clone, Copy, PartialEq, Eq, Structural)]
pub enum Status {
    /// The table is focused.
    Focused,
    /// The table is unfocused.
    Unfocused,
    /// The table cannot be interacted with.
    Disabled,
}

/// A divider that was hit by the pointer, with the raw size that its track
/// had when the hit happened.
#[derive(Debug, Clone, Copy)]
pub struct DividerHit {
    pub axis: Axis,
    pub index: usize,
    pub original_size: u32,
}

impl PartialEq for DividerHit {
    /// Two hits are equal when they name the same divider, whatever the
    /// size recorded with them.
    fn eq(&self, other: &Self) -> (r: bool)
        ensures
            r == (self.axis == other.axis && self.index == other.index),
    {
        self.axis == other.axis && self.index == other.index
    }
}

impl vstd::std_specs::cmp::PartialEqSpecImpl for DividerHit {
    open spec fn obeys_eq_spec() -> bool {
        true
    }

    open spec fn eq_spec(&self, other: &DividerHit) -> bool {
        self.axis == other.axis && self.index == other.index
    }
}

/// The letter for a digit of a column name: 0 is 'A', 25 is 'Z'.
pub open spec fn letter(d: nat) -> char {
    ((65 + d) as u8) as char
}

/// The bijective base-26 name of the zero-based column `n`:
/// 0 is "A", 25 is "Z", 26 is "AA", 701 is "ZZ", 702 is "AAA".
pub open spec fn column_name(n: nat) -> Seq<char>
    decreases n,
{
    if n < 26 {
        seq![letter(n)]
    } else {
        column_name((n / 26 - 1) as nat).push(letter(n % 26))
    }
}

/// Whether `c` is an ASCII letter, in either case.
pub open spec fn is_letter(c: char) -> bool {
    ('A' <= c && c <= 'Z') || ('a' <= c && c <= 'z')
}

/// The digit value of a letter, case-insensitively: 'A' and 'a' are 1,
/// 'Z' and 'z' are 26.
pub open spec fn letter_value(c: char) -> int {
    if 'a' <= c && c <= 'z' {
        c as int - 'a' as int + 1
    } else {
        c as int - 'A' as int + 1
    }
}

/// The one-based value of a column name read as a bijective base-26 number.
pub open spec fn column_value(s: Seq<char>) -> int
    decreases s.len(),
{
    if s.len() == 0 {
        0
    } else {
        column_value(s.drop_last()) * 26 + letter_value(s.last())
    }
}

/// Whether every character of `s` is a letter.
pub open spec fn all_letters(s: Seq<char>) -> bool {
    forall|i: int| 0 <= i < s.len() ==> is_letter(#[trigger] s[i])
}

/// Relies on String::push: the character is appended at the end.
#[verifier::external_body]
pub(crate) fn push_char(s: &mut String, c: char)
    ensures
        final(s)@ == old(s)@.push(c),
{
    s.push(c)
}

fn append_column_name(n: usize, s: &mut String)
    ensures
        final(s)@ == old(s)@ + column_name(n as nat),
    decreases n,
{
    if n >= 26 {
        append_column_name(n / 26 - 1, s);
    }
    let rem: u8 = (n % 26) as u8;
    push_char(s, (65u8 + rem) as char);
    assert(s@ =~= old(s)@ + column_name(n as nat));
}

/// The letter name of the zero-based column `n` ("A", ..., "Z", "AA", ...).
pub fn to_column_name(n: usize) -> (name: String)
    ensures
        name@ == column_name(n as nat),
{
    let mut name = String::new();
    append_column_name(n, &mut name);
    proof {
        assert(name@ =~= column_name(n as nat));
    }
    name
}

/// What parsing a column name gives: the zero-based index, or the message
/// that says why `s` is no column name.
pub open spec fn parse_column_name(s: Seq<char>) -> Result<usize, Seq<char>> {
    if s.len() == 0 || !all_letters(s) {
        Err("Invalid column name: "@ + s)
    } else if column_value(s) > u32::MAX {
        Err("Column index overflow while parsing: "@ + s)
    } else {
        Ok((column_value(s) - 1) as usize)
    }
}

proof fn lemma_column_value_positive(s: Seq<char>)
    requires
        all_letters(s),
    ensures
        column_value(s) >= s.len(),
        s.len() > 0 ==> column_value(s) >= 1,
    decreases s.len(),
{
    if s.len() > 0 {
        assert(all_letters(s.drop_last()));
        lemma_column_value_positive(s.drop_last());
        assert(is_letter(s[s.len() - 1]));
    }
}

proof fn lemma_column_value_prefix(s: Seq<char>, k: int)
    requires
        all_letters(s),
        0 <= k <= s.len(),
    ensures
        column_value(s.subrange(0, k)) <= column_value(s),
    decreases s.len(),
{
    if k < s.len() {
        let t = s.drop_last();
        assert(all_letters(t));
        assert(t.subrange(0, k) =~= s.subrange(0, k));
        lemma_column_value_prefix(t, k);
        lemma_column_value_positive(t);
        assert(is_letter(s[s.len() - 1]));
    } else {
        assert(s.subrange(0, k) =~= s);
    }
}

/// Parses the letter name of a column (case-insensitive) into its zero-based
/// index: "A" is 0, "Z" is 25, "AA" is 26.
pub fn from_column_name(s: &str) -> (r: Result<usize, String>)
    ensures
        match r {
            Ok(v) => parse_column_name(s@) == Ok::<usize, Seq<char>>(v),
            Err(e) => parse_column_name(s@) == Err::<usize, Seq<char>>(e@),
        },
{
    if !s.is_ascii() {
        proof {
            let i = choose|i: int| 0 <= i < s@.len() && !('\0' <= #[trigger] s@[i] <= '\u{7f}');
            assert(!is_letter(s@[i]));
        }
        let mut e = "Invalid column name: ".to_owned();
        e.append(s);
        return Err(e);
    }
    let bytes = s.as_bytes();
    let n = bytes.len();
    assert(n == s@.len());
    assert forall|j: int| 0 <= j < n implies (#[trigger] bytes@[j]) as int == s@[j] as int by {
        assert('\0' <= s@[j] <= '\u{7f}');
        assert(bytes@[j] == s@[j] as u8);
    }
    let mut i: usize = 0;
    while i < n
        invariant
            n == bytes@.len() == s@.len(),
            0 <= i <= n,
            forall|j: int| 0 <= j < n ==> (#[trigger] bytes@[j]) as int == s@[j] as int,
            all_letters(s@.subrange(0, i as int)),
        decreases n - i,
    {
        let b = bytes[i];
        if !((65 <= b && b <= 90) || (97 <= b && b <= 122)) {
            assert(!is_letter(s@[i as int]));
            let mut e = "Invalid column name: ".to_owned();
            e.append(s);
            return Err(e);
        }
        assert(is_letter(s@[i as int]));
        assert forall|j: int| 0 <= j < i + 1 implies is_letter(#[trigger] s@.subrange(0, i + 1)[j]) by {
            if j < i {
                assert(s@.subrange(0, i + 1)[j] == s@.subrange(0, i as int)[j]);
            }
        }
        i = i + 1;
    }
    assert(s@.subrange(0, n as int) =~= s@);
    if n == 0 {
        let mut e = "Invalid column name: ".to_owned();
        e.append(s);
        return Err(e);
    }
    let mut column: u32 = 0;
    let mut i: usize = 0;
    while i < n
        invariant
            n == bytes@.len() == s@.len(),
            0 <= i <= n,
            forall|j: int| 0 <= j < n ==> (#[trigger] bytes@[j]) as int == s@[j] as int,
            all_letters(s@),
            column as int == column_value(s@.subrange(0, i as int)),
        decreases n - i,
    {
        let b = bytes[i];
        let d: u32 = if b >= 97 { (b - 96) as u32 } else { (b - 64) as u32 };
        let ghost pre = s@.subrange(0, i as int);
        let ghost next = s@.subrange(0, i + 1);
        assert(next.drop_last() =~= pre);
        assert(next.last() == s@[i as int]);
        assert(is_letter(s@[i as int]));
        assert(d as int == letter_value(s@[i as int]));
        assert(column_value(next) == column_value(pre) * 26 + d);
        proof {
            lemma_column_value_positive(pre);
        }
        if column > 165191049 || (column == 165191049 && d > 21) {
            proof {
                lemma_column_value_prefix(s@, i + 1);
            }
            let mut e = "Column index overflow while parsing: ".to_owned();
            e.append(s);
            return Err(e);
        }
        column = column * 26 + d;
        i = i + 1;
    }
    assert(s@.subrange(0, n as int) =~= s@);
    proof {
        lemma_column_value_positive(s@);
    }
    Ok((column - 1) as usize)
}

proof fn lemma_column_name_value(n: nat)
    ensures
        all_letters(column_name(n)),
        column_value(column_name(n)) == n + 1,
    decreases n,
{
    let c = letter(n % 26);
    assert(is_letter(c) && letter_value(c) == n % 26 + 1);
    if n >= 26 {
        let m = (n / 26 - 1) as nat;
        lemma_column_name_value(m);
        let s = column_name(n);
        assert(s.drop_last() =~= column_name(m));
        assert(s.last() == c);
        vstd::arithmetic::div_mod::lemma_fundamental_div_mod(n as int, 26);
        assert(column_value(s) == column_value(column_name(m)) * 26 + letter_value(c));
        assert forall|i: int| 0 <= i < s.len() implies is_letter(#[trigger] s[i]) by {
            if i < s.len() - 1 {
                assert(s[i] == column_name(m)[i]);
            }
        }
    } else {
        let s = column_name(n);
        assert(s.drop_last() =~= Seq::<char>::empty());
        assert(column_value(s) == column_value(s.drop_last()) * 26 + letter_value(c));
    }
}

/// Naming a column and parsing the name back gives the column again, for
/// every column whose name fits the 32-bit range that parsing accepts.
pub proof fn lemma_column_name_round_trip(n: nat)
    requires
        n < u32::MAX,
    ensures
        parse_column_name(column_name(n)) == Ok::<usize, Seq<char>>(n as usize),
{
    lemma_column_name_value(n);
    assert(column_name(n).len() > 0) by {
        reveal_with_fuel(column_name, 2);
    }
}

} // verus!
