//! Text: concatenation, trimming, decimal numerals and splitting, over `Seq<char>`.
use vstd::prelude::*;

verus! {

/// `String::push`: appends one character to the end of the string.
pub assume_specification[ String::push ](s: &mut String, ch: char)
    ensures
        final(s)@ == old(s)@.push(ch),
;

/// `String::pop`: removes the last character and returns it, or returns `None` and leaves the
/// string alone when there is none.
pub assume_specification[ String::pop ](s: &mut String) -> (ch: Option<char>)
    ensures
        old(s)@.len() == 0 ==> ch is None && final(s)@ == old(s)@,
        old(s)@.len() > 0 ==> ch == Some(old(s)@.last()) && final(s)@ == old(s)@.drop_last(),
;

/// Whether two strings hold the same characters.
pub fn same(a: &str, b: &str) -> (r: bool)
    ensures
        r == (a@ == b@),
{
    a.to_string() == b.to_string()
}

/// Two pieces of text, one after the other.
pub fn cat2(a: &str, b: &str) -> (r: String)
    ensures
        r@ == a@ + b@,
{
    let mut s = a.to_string();
    s.append(b);
    s
}

/// Three pieces of text, one after the other.
pub fn cat3(a: &str, b: &str, c: &str) -> (r: String)
    ensures
        r@ == a@ + b@ + c@,
{
    let mut s = cat2(a, b);
    s.append(c);
    s
}

/// Four pieces of text, one after the other.
pub fn cat4(a: &str, b: &str, c: &str, d: &str) -> (r: String)
    ensures
        r@ == a@ + b@ + c@ + d@,
{
    let mut s = cat3(a, b, c);
    s.append(d);
    s
}

/// Five pieces of text, one after the other.
pub fn cat5(a: &str, b: &str, c: &str, d: &str, e: &str) -> (r: String)
    ensures
        r@ == a@ + b@ + c@ + d@ + e@,
{
    let mut s = cat4(a, b, c, d);
    s.append(e);
    s
}

/// The characters that Unicode gives the `White_Space` property.
pub open spec fn white_space(c: char) -> bool {
    let n = c as int;
    ||| 0x9 <= n <= 0xd
    ||| n == 0x20
    ||| n == 0x85
    ||| n == 0xa0
    ||| n == 0x1680
    ||| 0x2000 <= n <= 0x200a
    ||| n == 0x2028
    ||| n == 0x2029
    ||| n == 0x202f
    ||| n == 0x205f
    ||| n == 0x3000
}

/// Whether `c` is a white-space character.
pub fn is_white_space(c: char) -> (r: bool)
    ensures
        r == white_space(c),
{
    let n: u32 = c as u32;
    (0x9 <= n && n <= 0xd) || n == 0x20 || n == 0x85 || n == 0xa0 || n == 0x1680 || (0x2000 <= n
        && n <= 0x200a) || n == 0x2028 || n == 0x2029 || n == 0x202f || n == 0x205f || n == 0x3000
}

/// `s` without the white space at its front.
pub open spec fn trim_front(s: Seq<char>) -> Seq<char>
    decreases s.len(),
{
    if s.len() > 0 && white_space(s[0]) {
        trim_front(s.drop_first())
    } else {
        s
    }
}

/// `s` without the white space at its back.
pub open spec fn trim_back(s: Seq<char>) -> Seq<char>
    decreases s.len(),
{
    if s.len() > 0 && white_space(s.last()) {
        trim_back(s.drop_last())
    } else {
        s
    }
}

/// `s` without the white space at its two ends.
pub open spec fn trimmed(s: Seq<char>) -> Seq<char> {
    trim_back(trim_front(s))
}

/// Whether `s` holds nothing but white space.
pub open spec fn blank(s: Seq<char>) -> bool {
    forall|i: int| 0 <= i < s.len() ==> white_space(#[trigger] s[i])
}

proof fn lemma_trim_front(s: Seq<char>)
    ensures
        trim_front(s).len() == 0 <==> blank(s),
        trim_front(s).len() > 0 ==> !white_space(trim_front(s)[0]),
        trim_front(s).len() <= s.len(),
    decreases s.len(),
{
    if s.len() > 0 && white_space(s[0]) {
        let t = s.drop_first();
        lemma_trim_front(t);
        if blank(t) {
            assert forall|i: int| 0 <= i < s.len() implies white_space(#[trigger] s[i]) by {
                if i > 0 {
                    assert(t[i - 1] == s[i]);
                }
            }
        } else {
            let i = choose|i: int| 0 <= i < t.len() && !white_space(#[trigger] t[i]);
            assert(s[i + 1] == t[i]);
        }
    }
}

proof fn lemma_trim_back(s: Seq<char>)
    ensures
        trim_back(s).len() == 0 <==> blank(s),
        trim_back(s).len() > 0 ==> !white_space(trim_back(s).last()) && trim_back(s)[0] == s[0],
        trim_back(s).len() <= s.len(),
    decreases s.len(),
{
    if s.len() > 0 && white_space(s.last()) {
        let t = s.drop_last();
        lemma_trim_back(t);
        if blank(t) {
            assert forall|i: int| 0 <= i < s.len() implies white_space(#[trigger] s[i]) by {
                if i < t.len() {
                    assert(t[i] == s[i]);
                }
            }
        } else {
            let i = choose|i: int| 0 <= i < t.len() && !white_space(#[trigger] t[i]);
            assert(s[i] == t[i]);
        }
    }
}

/// Trimming leaves nothing exactly of the strings that hold nothing but white space.
pub proof fn trimmed_is_empty_iff_blank(s: Seq<char>)
    ensures
        trimmed(s).len() == 0 <==> blank(s),
{
    lemma_trim_front(s);
    lemma_trim_back(trim_front(s));
}

/// Trimming a trimmed string changes nothing.
pub proof fn trimming_twice_is_trimming_once(s: Seq<char>)
    ensures
        trimmed(trimmed(s)) == trimmed(s),
{
    lemma_trim_front(s);
    lemma_trim_back(trim_front(s));
}

/// `s` without the white space at its two ends.
pub fn trim(s: &str) -> (r: String)
    ensures
        r@ == trimmed(s@),
{
    let n: usize = s.unicode_len();
    let mut i: usize = 0;
    assert(s@.subrange(0, n as int) =~= s@);
    while i < n && is_white_space(s.get_char(i))
        invariant
            i <= n,
            n == s@.len(),
            trim_front(s@.subrange(i as int, n as int)) == trim_front(s@),
        decreases n - i,
    {
        assert(s@.subrange(i as int, n as int).drop_first() =~= s@.subrange(i + 1, n as int));
        i = i + 1;
    }
    let mut j: usize = n;
    while i < j && is_white_space(s.get_char(j - 1))
        invariant
            i <= j <= n,
            n == s@.len(),
            trim_back(s@.subrange(i as int, j as int)) == trimmed(s@),
        decreases j,
    {
        assert(s@.subrange(i as int, j as int).drop_last() =~= s@.subrange(i as int, j - 1));
        j = j - 1;
    }
    s.substring_char(i, j).to_string()
}

/// The character of the digit `d`.
pub open spec fn digit(d: nat) -> char {
    (48 + d) as char
}

/// `n` in decimal, without leading zeros.
pub open spec fn decimal(n: nat) -> Seq<char>
    decreases n,
{
    if n < 10 {
        seq![digit(n)]
    } else {
        decimal(n / 10).push(digit(n % 10))
    }
}

/// `n` in decimal, without leading zeros.
pub fn decimal_text(n: usize) -> (r: String)
    ensures
        r@ == decimal(n as nat),
    decreases n,
{
    let mut s = if n < 10 {
        String::new()
    } else {
        decimal_text(n / 10)
    };
    let d: u8 = 48 + (n % 10) as u8;
    s.push(d as char);
    assert(s@ =~= decimal(n as nat));
    s
}

/// Whether `c` is one of the ten decimal digits.
pub open spec fn is_digit(c: char) -> bool {
    48 <= c as int <= 57
}

/// The number that a string of digits stands for.
pub open spec fn value(s: Seq<char>) -> nat
    decreases s.len(),
{
    if s.len() == 0 {
        0
    } else {
        (value(s.drop_last()) * 10 + (s.last() as int - 48)) as nat
    }
}

/// What one or more digits stand for, where their value is at most 65535.
pub open spec fn digits_u16(s: Seq<char>) -> Option<u16> {
    if s.len() > 0 && (forall|i: int| 0 <= i < s.len() ==> is_digit(#[trigger] s[i])) && value(s)
        <= u16::MAX {
        Some(value(s) as u16)
    } else {
        None
    }
}

/// What `s` stands for as a 16-bit number: an optional `+`, then one or more digits whose value
/// is at most 65535; anything else stands for no number.
pub open spec fn parsed_u16(s: Seq<char>) -> Option<u16> {
    if s.len() > 0 && s[0] == '+' {
        digits_u16(s.drop_first())
    } else {
        digits_u16(s)
    }
}

/// Reads a 16-bit number in decimal.
pub fn parse_u16(s: &str) -> (r: Option<u16>)
    ensures
        r == parsed_u16(s@),
{
    let n: usize = s.unicode_len();
    let start: usize = if n > 0 && s.get_char(0) == '+' {
        1
    } else {
        0
    };
    if start == n {
        return None;
    }
    let ghost digits = s@.subrange(start as int, n as int);
    assert(s@.subrange(0, n as int) =~= s@);
    assert(n > 0 ==> s@.drop_first() =~= s@.subrange(1, n as int));
    let mut i: usize = start;
    let mut v: u32 = 0;
    let mut big = false;
    while i < n
        invariant
            start <= i <= n,
            n == s@.len(),
            digits == s@.subrange(start as int, n as int),
            digits.len() > 0,
            parsed_u16(s@) == digits_u16(digits),
            forall|k: int| 0 <= k < i - start ==> is_digit(#[trigger] digits[k]),
            !big ==> v == value(digits.take(i - start)) && v <= u16::MAX,
            big ==> value(digits.take(i - start)) > u16::MAX,
        decreases n - i,
    {
        let c: char = s.get_char(i);
        let d: u32 = c as u32;
        assert(digits[i - start] == c);
        if d < 48 || d > 57 {
            assert(!is_digit(digits[i - start]));
            return None;
        }
        assert(digits.take(i + 1 - start).drop_last() =~= digits.take(i - start));
        if !big {
            v = v * 10 + (d - 48);
            if v > 65535 {
                big = true;
            }
        }
        i = i + 1;
    }
    assert(digits.take(n - start) =~= digits);
    if big {
        None
    } else {
        Some(v as u16)
    }
}

proof fn lemma_decimal(n: nat)
    ensures
        decimal(n).len() > 0,
        value(decimal(n)) == n,
        forall|i: int| 0 <= i < decimal(n).len() ==> is_digit(#[trigger] decimal(n)[i]),
    decreases n,
{
    if n < 10 {
        assert(seq![digit(n)].drop_last() =~= Seq::<char>::empty());
        assert(value(Seq::<char>::empty()) == 0);
    } else {
        lemma_decimal(n / 10);
        assert(decimal(n).drop_last() =~= decimal(n / 10));
    }
}

/// A number written in decimal reads back as itself, and has no white space around it.
pub proof fn written_number_reads_back(n: u16)
    ensures
        parsed_u16(decimal(n as nat)) == Some(n),
        trimmed(decimal(n as nat)) == decimal(n as nat),
{
    lemma_decimal(n as nat);
    assert(is_digit(decimal(n as nat)[0]));
    assert(is_digit(decimal(n as nat).last()));
}

/// Whether the first `c` in `s` is at `i`.
pub open spec fn first_at(s: Seq<char>, c: char, i: int) -> bool {
    &&& 0 <= i < s.len()
    &&& s[i] == c
    &&& forall|j: int| 0 <= j < i ==> #[trigger] s[j] != c
}

/// `s` cut at its first `c`, which belongs to neither part; `None` where `s` holds no `c`.
pub open spec fn cut_at_first(s: Seq<char>, c: char) -> Option<(Seq<char>, Seq<char>)> {
    if s.contains(c) {
        let i = choose|i: int| first_at(s, c, i);
        Some((s.take(i), s.skip(i + 1)))
    } else {
        None
    }
}

/// A string whose first `c` is at `i` is cut there.
pub proof fn lemma_cut_at_first(s: Seq<char>, c: char, i: int)
    requires
        first_at(s, c, i),
    ensures
        cut_at_first(s, c) == Some((s.take(i), s.skip(i + 1))),
{
    let k = choose|k: int| first_at(s, c, k);
    assert(first_at(s, c, k));
    assert(k == i) by {
        if k < i {
            assert(s[k] != c);
        } else if i < k {
            assert(s[i] != c);
        }
    }
}

/// Cuts `s` at its first `c`.
pub fn split_once(s: &str, c: char) -> (r: Option<(String, String)>)
    ensures
        match r {
            Some(p) => cut_at_first(s@, c) == Some((p.0@, p.1@)),
            None => cut_at_first(s@, c) is None,
        },
{
    let n: usize = s.unicode_len();
    let mut i: usize = 0;
    while i < n
        invariant
            i <= n,
            n == s@.len(),
            forall|j: int| 0 <= j < i ==> #[trigger] s@[j] != c,
        decreases n - i,
    {
        if s.get_char(i) == c {
            proof {
                lemma_cut_at_first(s@, c, i as int);
                assert(s@.take(i as int) =~= s@.subrange(0, i as int));
                assert(s@.skip(i + 1) =~= s@.subrange(i + 1, n as int));
            }
            return Some(
                (s.substring_char(0, i).to_string(), s.substring_char(i + 1, n).to_string()),
            );
        }
        i = i + 1;
    }
    None
}


proof fn lemma_trim_front_skips(s: Seq<char>) -> (i: int)
    ensures
        0 <= i <= s.len(),
        trim_front(s) == s.skip(i),
        forall|k: int| 0 <= k < i ==> white_space(#[trigger] s[k]),
        i < s.len() ==> !white_space(s[i]),
    decreases s.len(),
{
    if s.len() > 0 && white_space(s[0]) {
        let t = s.drop_first();
        let j = lemma_trim_front_skips(t);
        assert(t.skip(j) =~= s.skip(j + 1));
        assert forall|k: int| 0 <= k < j + 1 implies white_space(#[trigger] s[k]) by {
            if k > 0 {
                assert(t[k - 1] == s[k]);
            }
        }
        if j + 1 < s.len() {
            assert(t[j] == s[j + 1]);
        }
        j + 1
    } else {
        assert(s.skip(0) =~= s);
        0
    }
}

proof fn lemma_trim_back_takes(s: Seq<char>) -> (j: int)
    ensures
        0 <= j <= s.len(),
        trim_back(s) == s.take(j),
        forall|k: int| j <= k < s.len() ==> white_space(#[trigger] s[k]),
        j > 0 ==> !white_space(s[j - 1]),
    decreases s.len(),
{
    if s.len() > 0 && white_space(s.last()) {
        let t = s.drop_last();
        let j = lemma_trim_back_takes(t);
        assert(t.take(j) =~= s.take(j));
        assert forall|k: int| j <= k < s.len() implies white_space(#[trigger] s[k]) by {
            if k < t.len() {
                assert(t[k] == s[k]);
            }
        }
        if j > 0 {
            assert(t[j - 1] == s[j - 1]);
        }
        j
    } else {
        assert(s.take(s.len() as int) =~= s);
        s.len() as int
    }
}

/// What trimming leaves is a stretch of the text: all before it and all after it is white space,
/// and it neither begins nor ends with white space.
pub proof fn trimming_takes_off_the_ends(s: Seq<char>)
    ensures
        exists|i: int, j: int|
            0 <= i <= j <= s.len() && trimmed(s) == #[trigger] s.subrange(i, j) && (forall|k: int|
                (0 <= k < i || j <= k < s.len()) ==> white_space(#[trigger] s[k])) && (i < j
                ==> !white_space(s[i]) && !white_space(s[j - 1])),
{
    let i = lemma_trim_front_skips(s);
    let t = s.skip(i);
    let n = lemma_trim_back_takes(t);
    let j = i + n;
    assert(t.take(n) =~= s.subrange(i, j));
    assert forall|k: int| (0 <= k < i || j <= k < s.len()) implies white_space(
        #[trigger] s[k],
    ) by {
        if k >= j {
            assert(t[k - i] == s[k]);
        }
    }
    if i < j {
        assert(t[n - 1] == s[j - 1]);
    }
}

/// A text is cut at its first `c`: the two parts with `c` between them are the text, and the first
/// part holds no `c`. A text without `c` is not cut.
pub proof fn cutting_parts_the_text(s: Seq<char>, c: char)
    ensures
        match cut_at_first(s, c) {
            Some(p) => s == p.0.push(c) + p.1 && !p.0.contains(c),
            None => !s.contains(c),
        },
{
    if s.contains(c) {
        let at = choose|i: int| 0 <= i < s.len() && s[i] == c;
        let i = lemma_first_at(s, c, at);
        lemma_cut_at_first(s, c, i);
        assert(s =~= s.take(i).push(c) + s.skip(i + 1));
        if s.take(i).contains(c) {
            let k = choose|k: int| 0 <= k < s.take(i).len() && s.take(i)[k] == c;
            assert(s[k] != c);
        }
    }
}

proof fn lemma_first_at(s: Seq<char>, c: char, at: int) -> (i: int)
    requires
        0 <= at < s.len(),
        s[at] == c,
    ensures
        first_at(s, c, i),
    decreases at,
{
    if forall|j: int| 0 <= j < at ==> #[trigger] s[j] != c {
        at
    } else {
        let j = choose|j: int| 0 <= j < at && #[trigger] s[j] == c;
        lemma_first_at(s, c, j)
    }
}

/// A number is read digit by digit: one more digit makes it ten times as large and adds the digit;
/// beyond the largest 16-bit number nothing is read, nor where anything but a digit comes. No
/// digit is no number, and one plus sign may stand in front.
pub proof fn numbers_are_read_digit_by_digit(s: Seq<char>, c: char)
    requires
        s.len() > 0 ==> s[0] != '+',
    ensures
        parsed_u16(Seq::empty()) is None,
        parsed_u16(seq!['+']) is None,
        s.len() == 0 && 48 <= c as int <= 57 ==> parsed_u16(s.push(c)) == Some(
            (c as int - 48) as u16,
        ),
        s.len() > 0 && 48 <= c as int <= 57 ==> parsed_u16(s.push(c)) == match parsed_u16(s) {
            Some(n) => if n * 10 + (c as int - 48) <= 65535 {
                Some((n * 10 + (c as int - 48)) as u16)
            } else {
                None
            },
            None => None,
        },
        !(48 <= c as int <= 57) ==> parsed_u16(s.push(c)) is None,
        s.len() > 0 ==> parsed_u16(seq!['+'] + s) == parsed_u16(s),
        parsed_u16(seq!['+', '+'] + s) is None,
{
    let t = s.push(c);
    assert(t.drop_last() =~= s);
    assert(forall|i: int| 0 <= i < s.len() ==> t[i] == s[i]);
    assert(t[s.len() as int] == c);
    assert(seq!['+'].drop_first() =~= Seq::<char>::empty());
    assert((seq!['+'] + s).drop_first() =~= s);
    let two = seq!['+', '+'] + s;
    assert(two.drop_first()[0] == '+');
    assert(!is_digit(two.drop_first()[0]));
    reveal_with_fuel(value, 2);
    if s.len() == 0 {
        assert(t =~= seq![c]);
        assert(t.drop_last() =~= Seq::<char>::empty());
        if t[0] == '+' {
            assert(t.drop_first() =~= Seq::<char>::empty());
        }
        assert(!is_digit(c) ==> !is_digit(t[0]));
    } else {
        assert(t[0] == s[0]);
        if forall|i: int| 0 <= i < s.len() ==> is_digit(#[trigger] s[i]) {
            assert(is_digit(c) ==> forall|i: int| 0 <= i < t.len() ==> is_digit(#[trigger] t[i]));
        } else {
            let i = choose|i: int| 0 <= i < s.len() && !is_digit(#[trigger] s[i]);
            assert(!is_digit(t[i]));
        }
    }
}

/// A number is written in digits, without a zero in front; one more digit goes to the end.
pub proof fn numbers_are_written_digit_by_digit(n: nat, d: nat)
    requires
        d < 10,
    ensures
        decimal(d) == seq![(48 + d) as char],
        n > 0 ==> decimal(n * 10 + d) == decimal(n).push((48 + d) as char),
        forall|i: int| 0 <= i < decimal(n).len() ==> 48 <= #[trigger] decimal(n)[i] as int <= 57,
        n > 0 ==> decimal(n)[0] != '0',
    decreases n,
{
    lemma_decimal(n);
    assert(forall|i: int| 0 <= i < decimal(n).len() ==> is_digit(#[trigger] decimal(n)[i]));
    if n >= 10 {
        numbers_are_written_digit_by_digit(n / 10, d);
        lemma_decimal(n / 10);
    }
}

} // verus!
