//! Text building blocks: decimal numerals, joined lists and centred banners.

use vstd::prelude::*;
use vstd::string::*;

verus! {

/// The rule in which banners are centred.
pub const SEPARATOR: &'static str = "==============================================";

/// The character that writes the digit `d`, for `0 <= d <= 9`.
pub open spec fn digit_char(d: int) -> char {
    if d == 0 {
        '0'
    } else if d == 1 {
        '1'
    } else if d == 2 {
        '2'
    } else if d == 3 {
        '3'
    } else if d == 4 {
        '4'
    } else if d == 5 {
        '5'
    } else if d == 6 {
        '6'
    } else if d == 7 {
        '7'
    } else if d == 8 {
        '8'
    } else {
        '9'
    }
}

/// The decimal numeral of `n`, without leading zeros.
pub open spec fn decimal(n: nat) -> Seq<char>
    decreases n,
{
    if n < 10 {
        seq![digit_char(n as int)]
    } else {
        decimal(n / 10).push(digit_char((n % 10) as int))
    }
}

/// The decimal numeral of `n`, widened to two characters with a leading zero.
pub open spec fn padded2(n: nat) -> Seq<char> {
    if n < 10 {
        seq!['0'] + decimal(n)
    } else {
        decimal(n)
    }
}

/// The decimal numeral of `i`, with a minus sign in front of a negative number.
pub open spec fn signed_decimal(i: int) -> Seq<char> {
    if i < 0 {
        seq!['-'] + decimal((-i) as nat)
    } else {
        decimal(i as nat)
    }
}

/// The items of `items` in order, with `separator` between neighbours.
pub open spec fn joined(items: Seq<Seq<char>>, separator: Seq<char>) -> Seq<char>
    decreases items.len(),
{
    if items.len() == 0 {
        Seq::empty()
    } else if items.len() == 1 {
        items[0]
    } else {
        joined(items.drop_last(), separator) + separator + items.last()
    }
}

/// `title` between two spaces, framed left and right by the ends of
/// `separator` so that the line is as wide as the separator. A title that
/// leaves no room for the two spaces stands alone.
pub open spec fn centered(separator: Seq<char>, title: Seq<char>) -> Seq<char> {
    if title.len() + 2 <= separator.len() {
        let room = separator.len() - title.len() - 2;
        let left = room / 2;
        let right = room - left;
        separator.subrange(0, left) + seq![' '] + title + seq![' '] + separator.subrange(
            separator.len() - right,
            separator.len() as int,
        )
    } else {
        title
    }
}

/// The views of the strings of `items`, in order.
pub open spec fn views(items: Seq<String>) -> Seq<Seq<char>> {
    items.map_values(|s: String| s@)
}

/// The one-character text that writes the digit `d`.
fn digit_str(d: u8) -> (r: &'static str)
    requires
        d < 10,
    ensures
        r@ == seq![digit_char(d as int)],
{
    proof {
        reveal_strlit("0");
        reveal_strlit("1");
        reveal_strlit("2");
        reveal_strlit("3");
        reveal_strlit("4");
        reveal_strlit("5");
        reveal_strlit("6");
        reveal_strlit("7");
        reveal_strlit("8");
        reveal_strlit("9");
    }
    let r = match d {
        0 => "0",
        1 => "1",
        2 => "2",
        3 => "3",
        4 => "4",
        5 => "5",
        6 => "6",
        7 => "7",
        8 => "8",
        _ => "9",
    };
    assert(r@ =~= seq![digit_char(d as int)]);
    r
}

/// Writes `n` in decimal.
pub fn decimal_string(n: u64) -> (r: String)
    ensures
        r@ == decimal(n as nat),
    decreases n,
{
    if n < 10 {
        String::from_str(digit_str(n as u8))
    } else {
        let mut s = decimal_string(n / 10);
        s.append(digit_str((n % 10) as u8));
        assert(s@ =~= decimal(n as nat));
        s
    }
}

/// Writes `n` in decimal, at least two characters wide.
pub fn padded2_string(n: u32) -> (r: String)
    ensures
        r@ == padded2(n as nat),
{
    let digits = decimal_string(n as u64);
    if n < 10 {
        proof {
            reveal_strlit("0");
        }
        let mut s = String::from_str("0");
        s.append(digits.as_str());
        assert(s@ =~= padded2(n as nat));
        s
    } else {
        digits
    }
}

/// Writes `i` in decimal, with a minus sign if it is negative.
pub fn signed_decimal_string(i: i32) -> (r: String)
    ensures
        r@ == signed_decimal(i as int),
{
    if i < 0 {
        proof {
            reveal_strlit("-");
        }
        let magnitude: u64 = (-(i as i64)) as u64;
        let digits = decimal_string(magnitude);
        let mut s = String::from_str("-");
        s.append(digits.as_str());
        assert(s@ =~= signed_decimal(i as int));
        s
    } else {
        decimal_string(i as u64)
    }
}

/// Joins `items` with `separator` between neighbours.
pub fn join(items: &Vec<String>, separator: &str) -> (r: String)
    ensures
        r@ == joined(views(items@), separator@),
{
    let mut out = String::new();
    let mut i: usize = 0;
    while i < items.len()
        invariant
            0 <= i <= items.len(),
            out@ == joined(views(items@).take(i as int), separator@),
        decreases items.len() - i,
    {
        let ghost before = views(items@).take(i as int);
        let ghost after = views(items@).take(i as int + 1);
        proof {
            assert(after.drop_last() =~= before);
            assert(after.last() == items@[i as int]@);
        }
        if i > 0 {
            out.append(separator);
        }
        out.append(items[i].as_str());
        proof {
            if i == 0 {
                assert(out@ =~= after[0]);
            } else {
                assert(out@ =~= joined(before, separator@) + separator@ + after.last());
            }
        }
        i += 1;
    }
    proof {
        assert(views(items@).take(items.len() as int) =~= views(items@));
    }
    out
}

/// Centres `title` in a line as wide as `separator`.
pub fn center(separator: &str, title: &str) -> (r: String)
    ensures
        r@ == centered(separator@, title@),
{
    let width = separator.unicode_len();
    let len = title.unicode_len();
    if len <= width && width - len >= 2 {
        let room = width - len - 2;
        let left = room / 2;
        let right = room - left;
        proof {
            reveal_strlit(" ");
        }
        let mut out = String::from_str(separator.substring_char(0, left));
        out.append(" ");
        out.append(title);
        out.append(" ");
        out.append(separator.substring_char(width - right, width));
        assert(out@ =~= centered(separator@, title@));
        out
    } else {
        String::from_str(title)
    }
}

/// The digit that `c` writes, or -1 if it writes none.
pub open spec fn digit_value(c: char) -> int {
    if c == '0' {
        0
    } else if c == '1' {
        1
    } else if c == '2' {
        2
    } else if c == '3' {
        3
    } else if c == '4' {
        4
    } else if c == '5' {
        5
    } else if c == '6' {
        6
    } else if c == '7' {
        7
    } else if c == '8' {
        8
    } else if c == '9' {
        9
    } else {
        -1
    }
}

/// The number that the digits of `s` write in decimal.
pub open spec fn numeral_value(s: Seq<char>) -> int
    decreases s.len(),
{
    if s.len() == 0 {
        0
    } else {
        numeral_value(s.drop_last()) * 10 + digit_value(s.last())
    }
}

/// The number that `s` writes: the value of its digits, negated after a
/// minus sign.
pub open spec fn signed_value(s: Seq<char>) -> int {
    if s.len() > 0 && s[0] == '-' {
        -numeral_value(s.skip(1))
    } else {
        numeral_value(s)
    }
}

/// A decimal numeral is made of digits, at least one, and writes its
/// number: no two numbers share a numeral.
pub proof fn lemma_decimal_value(n: nat)
    ensures
        decimal(n).len() >= 1,
        forall|i: int| 0 <= i < decimal(n).len() ==> 0 <= digit_value(#[trigger] decimal(n)[i]) <= 9,
        numeral_value(decimal(n)) == n,
    decreases n,
{
    if n < 10 {
        assert(decimal(n).drop_last() =~= Seq::<char>::empty());
        assert(numeral_value(decimal(n).drop_last()) == 0);
    } else {
        lemma_decimal_value(n / 10);
        assert(decimal(n).drop_last() =~= decimal(n / 10));
        assert(decimal(n).last() == digit_char((n % 10) as int));
    }
}

/// Below one hundred, the padded numeral has exactly two characters and
/// writes its number.
pub proof fn lemma_padded2_value(n: nat)
    requires
        n < 100,
    ensures
        padded2(n).len() == 2,
        numeral_value(padded2(n)) == n,
{
    lemma_decimal_value(n);
    if n < 10 {
        let s = padded2(n);
        assert(s =~= seq!['0', digit_char(n as int)]);
        assert(s.drop_last() =~= seq!['0']);
        assert(s.drop_last().drop_last() =~= Seq::<char>::empty());
        assert(numeral_value(s.drop_last().drop_last()) == 0);
        assert(numeral_value(s.drop_last()) == 0);
    } else {
        lemma_decimal_value(n / 10);
        assert(decimal(n / 10).len() == 1);
    }
}

/// A signed numeral writes its number: no two numbers share a numeral.
pub proof fn lemma_signed_decimal_value(i: int)
    ensures
        signed_value(signed_decimal(i)) == i,
{
    if i < 0 {
        lemma_decimal_value((-i) as nat);
        assert(signed_decimal(i).skip(1) =~= decimal((-i) as nat));
    } else {
        lemma_decimal_value(i as nat);
        assert(digit_value(decimal(i as nat)[0]) >= 0);
    }
}

/// The lowercase form of `text`, as Unicode defines it.
pub uninterp spec fn lowercase_of(text: Seq<char>) -> Seq<char>;

/// `str::to_lowercase`: the lowercase equivalent of the text, character
/// by character as Unicode's lowercase property gives it.
#[verifier::external_body]
pub(crate) fn lowercase(text: &str) -> (r: String)
    ensures
        r@ == lowercase_of(text@),
{
    text.to_lowercase()
}

/// The number of double quotes at the start of `s`.
pub open spec fn leading_quotes(s: Seq<char>) -> int
    decreases s.len(),
{
    if s.len() > 0 && s[0] == '"' {
        1 + leading_quotes(s.drop_first())
    } else {
        0
    }
}

/// The number of double quotes at the end of `s`.
pub open spec fn trailing_quotes(s: Seq<char>) -> int
    decreases s.len(),
{
    if s.len() > 0 && s.last() == '"' {
        1 + trailing_quotes(s.drop_last())
    } else {
        0
    }
}

/// `s` without the double quotes at its start and at its end.
pub open spec fn trim_quotes(s: Seq<char>) -> Seq<char> {
    let rest = s.skip(leading_quotes(s));
    rest.take(rest.len() - trailing_quotes(rest))
}

/// If `s` starts with `k` quotes and what follows is none, it has `k`
/// leading quotes.
proof fn lemma_leading_quotes(s: Seq<char>, k: int)
    requires
        0 <= k <= s.len(),
        forall|j: int| 0 <= j < k ==> s[j] == '"',
        k < s.len() ==> s[k] != '"',
    ensures
        leading_quotes(s) == k,
    decreases s.len(),
{
    if k > 0 {
        let rest = s.drop_first();
        assert forall|j: int| 0 <= j < k - 1 implies rest[j] == '"' by {
            assert(rest[j] == s[j + 1]);
        }
        if k - 1 < rest.len() {
            assert(rest[k - 1] == s[k]);
        }
        lemma_leading_quotes(rest, k - 1);
    }
}

/// If `s` ends with `k` quotes and what stands before them is none, it has
/// `k` trailing quotes.
proof fn lemma_trailing_quotes(s: Seq<char>, k: int)
    requires
        0 <= k <= s.len(),
        forall|j: int| s.len() - k <= j < s.len() ==> s[j] == '"',
        k < s.len() ==> s[s.len() - k - 1] != '"',
    ensures
        trailing_quotes(s) == k,
    decreases s.len(),
{
    if k > 0 {
        let rest = s.drop_last();
        assert forall|j: int| rest.len() - (k - 1) <= j < rest.len() implies rest[j] == '"' by {
            assert(rest[j] == s[j]);
        }
        if k - 1 < rest.len() {
            assert(rest[rest.len() - (k - 1) - 1] == s[s.len() - k - 1]);
        }
        lemma_trailing_quotes(rest, k - 1);
    }
}

/// Strips the double quotes from both ends of `s`.
pub fn trim_quotes_string(s: &str) -> (r: String)
    ensures
        r@ == trim_quotes(s@),
{
    let n = s.unicode_len();
    let mut start: usize = 0;
    while start < n && s.get_char(start) == '"'
        invariant
            0 <= start <= n,
            n == s@.len(),
            forall|j: int| 0 <= j < start ==> s@[j] == '"',
        decreases n - start,
    {
        start += 1;
    }
    let mut end: usize = n;
    while end > start && s.get_char(end - 1) == '"'
        invariant
            start <= end <= n,
            n == s@.len(),
            forall|j: int| end <= j < n ==> s@[j] == '"',
        decreases end,
    {
        end -= 1;
    }
    proof {
        lemma_leading_quotes(s@, start as int);
        let rest = s@.skip(start as int);
        assert forall|j: int| rest.len() - (n - end) <= j < rest.len() implies rest[j] == '"' by {
            assert(rest[j] == s@[j + start]);
        }
        if n - end < rest.len() {
            assert(rest[rest.len() - (n - end) - 1] == s@[end - 1]);
        }
        lemma_trailing_quotes(rest, n - end);
        assert(s@.subrange(start as int, end as int) =~= trim_quotes(s@));
    }
    String::from_str(s.substring_char(start, end))
}

} // verus!
