//! Small text helpers with exact specifications: splitting at a separator,
//! decimal numbers and string comparison.

use vstd::prelude::*;
use vstd::string::*;

verus! {

/// The pieces of `s` between occurrences of `sep`, as `str::split` with a
/// `char` pattern returns them: empty pieces included, and one (empty)
/// piece for the empty string.
pub open spec fn split_spec(s: Seq<char>, sep: char) -> Seq<Seq<char>>
    decreases s.len(),
{
    if s.len() == 0 {
        seq![Seq::<char>::empty()]
    } else {
        let init = split_spec(s.drop_last(), sep);
        if s.last() == sep {
            init.push(Seq::<char>::empty())
        } else {
            init.update(init.len() - 1, init.last().push(s.last()))
        }
    }
}

/// `split_spec` always has at least one piece.
pub proof fn lemma_split_nonempty(s: Seq<char>, sep: char)
    ensures
        split_spec(s, sep).len() >= 1,
    decreases s.len(),
{
    if s.len() > 0 {
        lemma_split_nonempty(s.drop_last(), sep);
    }
}

/// The views of a vector of strings.
pub open spec fn string_views(v: Seq<String>) -> Seq<Seq<char>> {
    v.map_values(|x: String| x@)
}

/// Splits `s` at every occurrence of `sep`.
pub fn split_on(s: &str, sep: char) -> (res: Vec<String>)
    ensures
        string_views(res@) == split_spec(s@, sep),
{
    let n = s.unicode_len();
    let mut pieces: Vec<String> = Vec::new();
    let mut piece_start: usize = 0;
    let mut i: usize = 0;
    proof {
        assert(s@.take(0) =~= Seq::<char>::empty());
        assert(string_views(pieces@).push(s@.subrange(0, 0)) =~= seq![Seq::<char>::empty()]);
    }
    while i < n
        invariant
            n == s@.len(),
            piece_start <= i <= n,
            split_spec(s@.take(i as int), sep) == string_views(pieces@).push(
                s@.subrange(piece_start as int, i as int),
            ),
        decreases n - i,
    {
        let c = s.get_char(i);
        proof {
            assert(s@.take(i + 1).drop_last() =~= s@.take(i as int));
            assert(s@.take(i + 1).last() == c);
        }
        if c == sep {
            let piece = s.substring_char(piece_start, i);
            let owned = piece.to_owned();
            let ghost before = pieces@;
            pieces.push(owned);
            piece_start = i + 1;
            proof {
                assert(string_views(pieces@) =~= string_views(before).push(owned@));
                assert(s@.subrange(piece_start as int, i + 1) =~= Seq::<char>::empty());
            }
        } else {
            proof {
                assert(s@.subrange(piece_start as int, i + 1) =~= s@.subrange(piece_start as int, i as int).push(c));
            }
        }
        i = i + 1;
    }
    let last = s.substring_char(piece_start, n);
    let owned = last.to_owned();
    let ghost before = pieces@;
    pieces.push(owned);
    proof {
        assert(s@.take(n as int) =~= s@);
        assert(string_views(pieces@) =~= string_views(before).push(owned@));
    }
    pieces
}

/// Whether two strings hold the same characters.
pub fn str_equal(a: &str, b: &str) -> (res: bool)
    ensures
        res == (a@ == b@),
{
    let n = a.unicode_len();
    if n != b.unicode_len() {
        return false;
    }
    let mut i: usize = 0;
    while i < n
        invariant
            n == a@.len(),
            n == b@.len(),
            i <= n,
            forall|j: int| 0 <= j < i ==> a@[j] == b@[j],
        decreases n - i,
    {
        if a.get_char(i) != b.get_char(i) {
            return false;
        }
        i = i + 1;
    }
    assert(a@ =~= b@);
    true
}

/// An ASCII decimal digit.
pub open spec fn is_digit(c: char) -> bool {
    '0' <= c <= '9'
}

/// The value of an ASCII decimal digit.
pub open spec fn digit_value(c: char) -> nat {
    (c as int - '0' as int) as nat
}

/// The character of a decimal digit `d < 10`.
pub open spec fn digit_char(d: nat) -> char {
    ('0' as int + d) as char
}

/// All characters are ASCII decimal digits.
pub open spec fn all_digits(s: Seq<char>) -> bool {
    forall|i: int| 0 <= i < s.len() ==> is_digit(#[trigger] s[i])
}

/// The number that a string of decimal digits denotes.
pub open spec fn digits_value(s: Seq<char>) -> nat
    decreases s.len(),
{
    if s.len() == 0 {
        0
    } else {
        digits_value(s.drop_last()) * 10 + digit_value(s.last())
    }
}

/// The digits of an unsigned number after an optional leading `+`.
pub open spec fn unsigned_digits(s: Seq<char>) -> Seq<char> {
    if s.len() > 0 && s[0] == '+' {
        s.drop_first()
    } else {
        s
    }
}

/// The number that `d` denotes if it is a non-empty string of ASCII digits
/// denoting at most `limit`.
pub open spec fn digits_in_range(d: Seq<char>, limit: nat) -> Option<nat> {
    if d.len() > 0 && all_digits(d) && digits_value(d) <= limit {
        Some(digits_value(d))
    } else {
        None
    }
}

/// What `str::parse::<u32>` returns, as std documents it: an optional `+`
/// followed by at least one ASCII digit, denoting a number that fits in
/// `u32`; anything else is an error.
pub open spec fn parse_u32_spec(s: Seq<char>) -> Option<u32> {
    match digits_in_range(unsigned_digits(s), u32::MAX as nat) {
        Some(v) => Some(v as u32),
        None => None,
    }
}

/// What `str::parse::<usize>` returns: as for `u32`, with the range of `usize`.
pub open spec fn parse_usize_spec(s: Seq<char>) -> Option<usize> {
    match digits_in_range(unsigned_digits(s), usize::MAX as nat) {
        Some(v) => Some(v as usize),
        None => None,
    }
}

/// What `str::parse::<i32>` returns, as std documents it: an optional `+` or
/// `-` followed by at least one ASCII digit, denoting a number that fits in
/// `i32`; anything else is an error.
pub open spec fn parse_i32_spec(s: Seq<char>) -> Option<i32> {
    if s.len() > 0 && s[0] == '-' {
        match digits_in_range(s.drop_first(), 0x8000_0000) {
            Some(v) => Some((-v) as i32),
            None => None,
        }
    } else {
        match digits_in_range(unsigned_digits(s), 0x7fff_ffff) {
            Some(v) => Some(v as i32),
            None => None,
        }
    }
}

/// A prefix of a digit string never denotes more than the whole string.
proof fn lemma_digits_prefix_le(s: Seq<char>, k: int)
    requires
        all_digits(s),
        0 <= k <= s.len(),
    ensures
        digits_value(s.take(k)) <= digits_value(s),
    decreases s.len(),
{
    if k < s.len() {
        assert(s.drop_last().take(k) =~= s.take(k));
        lemma_digits_prefix_le(s.drop_last(), k);
        assert(all_digits(s.drop_last()));
    } else {
        assert(s.take(k) =~= s);
    }
}

/// Reads the characters of `s` from position `from` on as a decimal number
/// of at most `limit`.
fn parse_digits_from(s: &str, from: usize, limit: u64) -> (res: Option<u64>)
    requires
        from <= s@.len(),
        limit >= 9,
    ensures
        match res {
            Some(v) => digits_in_range(s@.skip(from as int), limit as nat) == Some(v as nat),
            None => digits_in_range(s@.skip(from as int), limit as nat) is None,
        },
{
    let n = s.unicode_len();
    let ghost d = s@.skip(from as int);
    if from == n {
        return None;
    }
    let mut i: usize = from;
    let mut value: u64 = 0;
    proof {
        assert(d.take(0) =~= Seq::<char>::empty());
    }
    while i < n
        invariant
            n == s@.len(),
            from <= i <= n,
            d == s@.skip(from as int),
            all_digits(d.take(i - from)),
            value == digits_value(d.take(i - from)),
            value <= limit,
            limit >= 9,
        decreases n - i,
    {
        let c = s.get_char(i);
        let ghost k = i - from;
        assert(d[k] == c);
        if c < '0' || c > '9' {
            assert(!all_digits(d)) by {
                assert(!is_digit(d[k]));
            }
            return None;
        }
        let digit = (c as u32 - '0' as u32) as u64;
        proof {
            assert(d.take(k + 1).drop_last() =~= d.take(k));
            assert(d.take(k + 1).last() == c);
            assert(all_digits(d.take(k + 1)));
        }
        if value > (limit - digit) / 10 {
            assert(value * 10 + digit > limit) by (nonlinear_arith)
                requires value > (limit - digit) / 10, digit <= 9, limit >= 9;
            proof {
                if all_digits(d) {
                    lemma_digits_prefix_le(d, k + 1);
                }
            }
            return None;
        }
        assert(value * 10 + digit <= limit) by (nonlinear_arith)
            requires value <= (limit - digit) / 10, digit <= limit;
        value = value * 10 + digit;
        i = i + 1;
    }
    proof {
        assert(d.take(n - from) =~= d);
    }
    Some(value)
}

/// Parses an unsigned decimal number as `str::parse::<u32>` does.
pub fn parse_u32(s: &str) -> (res: Option<u32>)
    ensures
        res == parse_u32_spec(s@),
{
    let from: usize = if s.unicode_len() > 0 && s.get_char(0) == '+' { 1 } else { 0 };
    assert(s@.skip(from as int) =~= unsigned_digits(s@));
    match parse_digits_from(s, from, 0xffff_ffff) {
        Some(v) => Some(v as u32),
        None => None,
    }
}

/// Parses an unsigned decimal number as `str::parse::<usize>` does.
pub fn parse_usize(s: &str) -> (res: Option<usize>)
    ensures
        res == parse_usize_spec(s@),
{
    let from: usize = if s.unicode_len() > 0 && s.get_char(0) == '+' { 1 } else { 0 };
    assert(s@.skip(from as int) =~= unsigned_digits(s@));
    match parse_digits_from(s, from, usize::MAX as u64) {
        Some(v) => Some(v as usize),
        None => None,
    }
}

/// Parses a signed decimal number as `str::parse::<i32>` does.
pub fn parse_i32(s: &str) -> (res: Option<i32>)
    ensures
        res == parse_i32_spec(s@),
{
    if s.unicode_len() > 0 && s.get_char(0) == '-' {
        assert(s@.skip(1) =~= s@.drop_first());
        match parse_digits_from(s, 1, 0x8000_0000) {
            Some(v) => Some((0 - v as i64) as i32),
            None => None,
        }
    } else {
        let from: usize = if s.unicode_len() > 0 && s.get_char(0) == '+' { 1 } else { 0 };
        assert(s@.skip(from as int) =~= unsigned_digits(s@));
        match parse_digits_from(s, from, 0x7fff_ffff) {
            Some(v) => Some(v as i32),
            None => None,
        }
    }
}

/// The decimal notation of `n`, without leading zeros.
pub open spec fn decimal(n: nat) -> Seq<char>
    decreases n,
{
    if n < 10 {
        seq![digit_char(n)]
    } else {
        decimal(n / 10).push(digit_char(n % 10))
    }
}

/// The decimal notation of a signed number.
pub open spec fn signed_decimal(n: int) -> Seq<char> {
    if n < 0 {
        seq!['-'] + decimal((-n) as nat)
    } else {
        decimal(n as nat)
    }
}

/// Writes a signed number in decimal.
pub fn signed_decimal_string(n: i64) -> (res: String)
    ensures
        res@ == signed_decimal(n as int),
{
    if n < 0 {
        proof {
            reveal_strlit("-");
        }
        let magnitude: u64 = if n == i64::MIN { 0x8000_0000_0000_0000 } else { (-n) as u64 };
        let mut s = "-".to_owned();
        s.append(decimal_string(magnitude).as_str());
        s
    } else {
        decimal_string(n as u64)
    }
}

/// The decimal notation of `n` padded with zeros to at least two digits, as
/// the format `{:02}` writes it.
pub open spec fn decimal_pad2(n: nat) -> Seq<char> {
    if n < 10 {
        seq!['0'] + decimal(n)
    } else {
        decimal(n)
    }
}

/// A digit's character is an ASCII digit of that value.
pub proof fn lemma_digit_char(d: nat)
    requires
        d < 10,
    ensures
        is_digit(digit_char(d)),
        digit_value(digit_char(d)) == d,
        d == 0 <==> digit_char(d) == '0',
{
    assert(('0' as int + d) as char as int == '0' as int + d);
}

/// The decimal notation of `n` is a non-empty string of ASCII digits
/// denoting `n`, with no leading zero unless `n` is zero.
pub proof fn lemma_decimal_digits(n: nat)
    ensures
        decimal(n).len() >= 1,
        all_digits(decimal(n)),
        digits_value(decimal(n)) == n,
        n >= 1 ==> decimal(n)[0] != '0',
        n < 10 <==> decimal(n).len() == 1,
    decreases n,
{
    if n < 10 {
        lemma_digit_char(n);
        assert(decimal(n).drop_last() =~= Seq::<char>::empty());
        assert(decimal(n).last() == digit_char(n));
        assert(digits_value(decimal(n)) == digits_value(decimal(n).drop_last()) * 10 + digit_value(
            decimal(n).last(),
        ));
    } else {
        lemma_decimal_digits(n / 10);
        lemma_digit_char(n % 10);
        let p = decimal(n / 10);
        assert(decimal(n).drop_last() =~= p);
        assert(decimal(n).last() == digit_char(n % 10));
        assert(digits_value(decimal(n)) == digits_value(decimal(n).drop_last()) * 10 + digit_value(
            decimal(n).last(),
        ));
        assert(n / 10 * 10 + n % 10 == n);
        assert forall|i: int| 0 <= i < decimal(n).len() implies is_digit(#[trigger] decimal(n)[i]) by {
            if i < p.len() {
                assert(decimal(n)[i] == p[i]);
            }
        }
    }
}

/// A string of ASCII digits has no sign and no separator in it.
pub proof fn lemma_digits_have_no_other_chars(s: Seq<char>, c: char)
    requires
        all_digits(s),
        !is_digit(c),
    ensures
        !s.contains(c),
        s.len() > 0 ==> s[0] != c,
{
    if s.contains(c) {
        let i = choose|i: int| 0 <= i < s.len() && s[i] == c;
        assert(is_digit(s[i]));
    }
    if s.len() > 0 {
        assert(is_digit(s[0]));
    }
}

/// `str::parse::<u32>` reads the decimal notation of a `u32` back as that
/// number.
pub proof fn lemma_parse_u32_of_decimal(n: u32)
    ensures
        parse_u32_spec(decimal(n as nat)) == Some(n),
        !decimal(n as nat).contains(':'),
{
    lemma_decimal_digits(n as nat);
    lemma_digits_have_no_other_chars(decimal(n as nat), '+');
    lemma_digits_have_no_other_chars(decimal(n as nat), ':');
}

/// `str::parse::<usize>` reads the decimal notation of a `usize` back as
/// that number.
pub proof fn lemma_parse_usize_of_decimal(n: usize)
    ensures
        parse_usize_spec(decimal(n as nat)) == Some(n),
{
    lemma_decimal_digits(n as nat);
    lemma_digits_have_no_other_chars(decimal(n as nat), '+');
}

/// Below 100, the `{:02}` notation is exactly the tens digit and the units
/// digit.
pub proof fn lemma_pad2_two_digits(n: nat)
    requires
        n < 100,
    ensures
        decimal_pad2(n) == seq![digit_char(n / 10), digit_char(n % 10)],
{
    lemma_digit_char(0);
    if n >= 10 {
        assert(decimal(n / 10) == seq![digit_char(n / 10)]);
        assert(decimal(n) =~= seq![digit_char(n / 10), digit_char(n % 10)]);
    } else {
        assert(seq!['0'] + decimal(n) =~= seq![digit_char(n / 10), digit_char(n % 10)]);
    }
}

/// The `{:02}` notation is the decimal notation, with one leading zero added
/// to a single digit: at least two ASCII digits denoting `n`, and a leading
/// zero only when there are exactly two.
pub proof fn lemma_pad2_digits(n: nat)
    ensures
        decimal_pad2(n).len() >= 2,
        all_digits(decimal_pad2(n)),
        digits_value(decimal_pad2(n)) == n,
        decimal_pad2(n).len() > 2 ==> decimal_pad2(n)[0] != '0',
{
    lemma_decimal_digits(n);
    if n < 10 {
        lemma_pad2_two_digits(n);
        lemma_digit_char(0);
        lemma_digit_char(n);
        let p = decimal_pad2(n);
        assert(p.drop_last() =~= seq![digit_char(0)]);
        assert(seq![digit_char(0)].drop_last() =~= Seq::<char>::empty());
        assert(p.last() == digit_char(n));
        assert(digits_value(p) == digits_value(p.drop_last()) * 10 + digit_value(p.last()));
        assert(digits_value(seq![digit_char(0)]) == digits_value(seq![digit_char(0)].drop_last()) * 10
            + digit_value(seq![digit_char(0)].last()));
        assert(all_digits(p)) by {
            assert forall|i: int| 0 <= i < p.len() implies is_digit(#[trigger] p[i]) by {
                if i == 0 {
                    assert(p[0] == digit_char(0));
                } else {
                    assert(p[1] == digit_char(n));
                }
            }
        }
    }
}

/// The one-character string of a decimal digit.
fn digit_str(d: u64) -> (res: &'static str)
    requires
        d < 10,
    ensures
        res@ == seq![digit_char(d as nat)],
{
    proof {
        reveal_strlit("0");
        reveal_strlit("1");
        reveal_strlit("2");
        reveal_strlit("3");
        reveal_strlit("4");
        reveal_strlit("5");
        reveal_strlit("6");
        reveal_strlit("7");
        reveal_strlit("8");
        reveal_strlit("9");
    }
    if d == 0 {
        assert("0"@ =~= seq![digit_char(0)]);
        "0"
    } else if d == 1 {
        assert("1"@ =~= seq![digit_char(1)]);
        "1"
    } else if d == 2 {
        assert("2"@ =~= seq![digit_char(2)]);
        "2"
    } else if d == 3 {
        assert("3"@ =~= seq![digit_char(3)]);
        "3"
    } else if d == 4 {
        assert("4"@ =~= seq![digit_char(4)]);
        "4"
    } else if d == 5 {
        assert("5"@ =~= seq![digit_char(5)]);
        "5"
    } else if d == 6 {
        assert("6"@ =~= seq![digit_char(6)]);
        "6"
    } else if d == 7 {
        assert("7"@ =~= seq![digit_char(7)]);
        "7"
    } else if d == 8 {
        assert("8"@ =~= seq![digit_char(8)]);
        "8"
    } else {
        assert("9"@ =~= seq![digit_char(9)]);
        "9"
    }
}

/// Writes `n` in decimal.
pub fn decimal_string(n: u64) -> (res: String)
    ensures
        res@ == decimal(n as nat),
    decreases n,
{
    if n < 10 {
        digit_str(n).to_owned()
    } else {
        let mut s = decimal_string(n / 10);
        s.append(digit_str(n % 10));
        s
    }
}

/// Writes `n` in decimal, padded with zeros to two digits.
pub fn decimal_pad2_string(n: u64) -> (res: String)
    ensures
        res@ == decimal_pad2(n as nat),
{
    if n < 10 {
        proof {
            reveal_strlit("0");
        }
        let mut s = "0".to_owned();
        s.append(digit_str(n));
        s
    } else {
        decimal_string(n)
    }
}

} // verus!
