//! Small operations on texts.
use vstd::prelude::*;
use vstd::string::*;

verus! {

/// The decimal digit of a number below ten.
pub open spec fn digit(d: nat) -> char {
    (('0' as nat) + d) as char
}

/// The decimal digits of a number.
pub open spec fn dec_nat(n: nat) -> Seq<char>
    decreases n,
{
    if n < 10 {
        seq![digit(n)]
    } else {
        dec_nat(n / 10).push(digit(n % 10))
    }
}

/// A number in decimal, with a sign if it is negative.
pub open spec fn dec(i: int) -> Seq<char> {
    if i < 0 {
        "-"@ + dec_nat((-i) as nat)
    } else {
        dec_nat(i as nat)
    }
}

/// The text of a decimal digit.
fn digit_text(d: u64) -> (res: &'static str)
    requires
        d < 10,
    ensures
        res@ == seq![digit(d as nat)],
{
    proof {
        reveal_strlit("0");
        reveal_strlit("1");
        reveal_strlit("2");
        reveal_strlit("3");
        reveal_strlit("4");
        reveal_strlit("5");
        reveal_strlit("6");
        reveal_strlit("7");
        reveal_strlit("8");
        reveal_strlit("9");
    }
    let res: &'static str = match d {
        0 => "0",
        1 => "1",
        2 => "2",
        3 => "3",
        4 => "4",
        5 => "5",
        6 => "6",
        7 => "7",
        8 => "8",
        _ => "9",
    };
    assert(res@ =~= seq![digit(d as nat)]);
    res
}

/// A number in decimal.
pub fn u64_text(n: u64) -> (res: String)
    ensures
        res@ == dec(n as int),
    decreases n,
{
    if n < 10 {
        digit_text(n).to_owned()
    } else {
        let mut s: String = u64_text(n / 10);
        let ghost front = s@;
        s.append(digit_text(n % 10));
        assert(s@ =~= front.push(digit((n % 10) as nat)));
        s
    }
}

/// A signed number in decimal.
pub fn i32_text(i: i32) -> (res: String)
    ensures
        res@ == dec(i as int),
{
    let v: i64 = i as i64;
    if v < 0 {
        let mut s: String = "-".to_owned();
        let rest: String = u64_text((0 - v) as u64);
        s.append(rest.as_str());
        s
    } else {
        u64_text(v as u64)
    }
}

/// A signed 64-bit number in decimal.
pub fn i64_text(i: i64) -> (res: String)
    ensures
        res@ == dec(i as int),
{
    let v: i128 = i as i128;
    if v < 0 {
        let mut s: String = "-".to_owned();
        let rest: String = u64_text((0 - v) as u64);
        s.append(rest.as_str());
        s
    } else {
        u64_text(v as u64)
    }
}

/// The text of a truth value.
pub open spec fn truth(b: bool) -> Seq<char> {
    if b {
        "true"@
    } else {
        "false"@
    }
}

/// The text of a truth value.
pub fn bool_text(b: bool) -> (res: &'static str)
    ensures
        res@ == truth(b),
{
    if b {
        "true"
    } else {
        "false"
    }
}

/// The characters of a text.
pub fn chars_of(s: &str) -> (res: Vec<char>)
    ensures
        res@ == s@,
{
    let mut res: Vec<char> = Vec::new();
    for c in iter: s.chars()
        invariant
            iter.seq() == s@,
            res@ == s@.take(iter.index() as int),
    {
        res.push(c);
        assert(res@ =~= s@.take(iter.index() as int + 1));
    }
    assert(res@ =~= s@);
    res
}

/// Whether a text begins with another.
pub open spec fn begins(s: Seq<char>, p: Seq<char>) -> bool {
    p.len() <= s.len() && s.take(p.len() as int) == p
}

/// Whether a text begins with another.
pub fn starts_with(s: &str, p: &str) -> (res: bool)
    ensures
        res == begins(s@, p@),
{
    let n: usize = s.unicode_len();
    let m: usize = p.unicode_len();
    if m > n {
        return false;
    }
    let a: Vec<char> = chars_of(s);
    let b: Vec<char> = chars_of(p);
    let mut i: usize = 0;
    while i < m
        invariant
            i <= m,
            m == b.len(),
            m <= a.len(),
            a@ == s@,
            b@ == p@,
            forall|j: int| 0 <= j < i ==> a@[j] == b@[j],
        decreases m - i,
    {
        if a[i] != b[i] {
            assert(s@.take(p@.len() as int)[i as int] != p@[i as int]);
            return false;
        }
        i += 1;
    }
    assert(s@.take(p@.len() as int) =~= p@);
    true
}

/// What follows `p` at the front of `s`.
pub fn strip_prefix<'a>(s: &'a str, p: &str) -> (res: Option<&'a str>)
    ensures
        match res {
            Some(t) => begins(s@, p@) && t@ == s@.skip(p@.len() as int),
            None => !begins(s@, p@),
        },
{
    if starts_with(s, p) {
        let t = s.substring_char(p.unicode_len(), s.unicode_len());
        assert(t@ =~= s@.skip(p@.len() as int));
        Some(t)
    } else {
        None
    }
}

/// Whether two texts are the same.
pub fn same(a: &str, b: &str) -> (res: bool)
    ensures
        res == (a@ == b@),
{
    if a.unicode_len() != b.unicode_len() {
        return false;
    }
    let res: bool = starts_with(a, b);
    assert(a@.take(b@.len() as int) =~= a@);
    res
}

/// The white space of Unicode.
pub open spec fn space(c: char) -> bool {
    let n = c as nat;
    ||| 9 <= n <= 13
    ||| n == 0x20
    ||| n == 0x85
    ||| n == 0xa0
    ||| n == 0x1680
    ||| 0x2000 <= n <= 0x200a
    ||| n == 0x2028
    ||| n == 0x2029
    ||| n == 0x202f
    ||| n == 0x205f
    ||| n == 0x3000
}

/// Whether a character is white space.
fn is_space(c: char) -> (res: bool)
    ensures
        res == space(c),
{
    let n: u32 = c as u32;
    (9 <= n && n <= 13) || n == 0x20 || n == 0x85 || n == 0xa0 || n == 0x1680 || (0x2000 <= n && n
        <= 0x200a) || n == 0x2028 || n == 0x2029 || n == 0x202f || n == 0x205f || n == 0x3000
}

/// A text without the white space at its ends.
pub open spec fn trimmed(s: Seq<char>) -> Seq<char>
    decreases s.len(),
{
    if s.len() == 0 {
        s
    } else if space(s[0]) {
        trimmed(s.skip(1))
    } else if space(s.last()) {
        trimmed(s.drop_last())
    } else {
        s
    }
}

/// The part of `c` without the white space at its ends, as the place of its first character
/// and the place after its last.
fn trim_bounds(c: &Vec<char>, from: usize, to: usize) -> (res: (usize, usize))
    requires
        from <= to <= c.len(),
    ensures
        from <= res.0 <= res.1 <= to,
        c@.subrange(res.0 as int, res.1 as int) == trimmed(
            c@.subrange(from as int, to as int),
        ),
{
    let mut a: usize = from;
    let mut b: usize = to;
    let ghost whole = trimmed(c@.subrange(from as int, to as int));
    while a < b && is_space(c[a])
        invariant
            from <= a <= b,
            b == to,
            to <= c.len(),
            whole == trimmed(c@.subrange(a as int, b as int)),
        decreases b - a,
    {
        proof {
            let s = c@.subrange(a as int, b as int);
            assert(s.skip(1) =~= c@.subrange(a + 1, b as int));
        }
        a += 1;
    }
    while a < b && is_space(c[b - 1])
        invariant
            from <= a <= b <= to,
            to <= c.len(),
            a < b ==> !space(c@[a as int]),
            whole == trimmed(c@.subrange(a as int, b as int)),
        decreases b - a,
    {
        proof {
            let s = c@.subrange(a as int, b as int);
            assert(s.drop_last() =~= c@.subrange(a as int, b - 1));
        }
        b -= 1;
    }
    (a, b)
}

/// A text without the white space at its ends.
pub fn trim<'a>(s: &'a str) -> (res: &'a str)
    ensures
        res@ == trimmed(s@),
{
    let c: Vec<char> = chars_of(s);
    let (a, b) = trim_bounds(&c, 0, c.len());
    assert(c@.subrange(0, c.len() as int) =~= c@);
    s.substring_char(a, b)
}

/// The number that decimal digits stand for, if there is one and all are digits.
pub open spec fn digits_value(s: Seq<char>) -> Option<nat>
    decreases s.len(),
{
    if s.len() == 0 {
        None
    } else if !('0' <= s.last() <= '9') {
        None
    } else if s.len() == 1 {
        Some((s.last() as nat - '0' as nat) as nat)
    } else {
        match digits_value(s.drop_last()) {
            Some(v) => Some((10 * v + (s.last() as nat - '0' as nat)) as nat),
            None => None,
        }
    }
}

/// The number that a text stands for: decimal digits, with or without a sign before them.
pub open spec fn int_value(s: Seq<char>) -> Option<int> {
    if s.len() == 0 {
        None
    } else if s[0] == '-' {
        match digits_value(s.skip(1)) {
            Some(v) => Some(-(v as int)),
            None => None,
        }
    } else if s[0] == '+' {
        match digits_value(s.skip(1)) {
            Some(v) => Some(v as int),
            None => None,
        }
    } else {
        match digits_value(s) {
            Some(v) => Some(v as int),
            None => None,
        }
    }
}

/// The 32-bit number that a text stands for, if it is one.
pub open spec fn i32_value(s: Seq<char>) -> Option<i32> {
    match int_value(s) {
        Some(v) => if i32::MIN <= v <= i32::MAX {
            Some(v as i32)
        } else {
            None
        },
        None => None,
    }
}

/// The number that digits stand for, if it is at most `0x8000_0000`.
fn small_value(c: &Vec<char>, from: usize, to: usize) -> (res: Option<u64>)
    requires
        from <= to <= c.len(),
    ensures
        match digits_value(c@.subrange(from as int, to as int)) {
            Some(v) => if v <= 0x8000_0000 {
                res == Some(v as u64)
            } else {
                res is None
            },
            None => res is None,
        },
{
    if from == to {
        return None;
    }
    let mut i: usize = from;
    let mut acc: u64 = 0;
    let mut big: bool = false;
    let ghost s = c@.subrange(from as int, to as int);
    while i < to
        invariant
            from <= i <= to,
            to <= c.len(),
            s == c@.subrange(from as int, to as int),
            i == from ==> acc == 0 && !big,
            i > from ==> match digits_value(s.take(i - from)) {
                Some(v) => if big {
                    v > 0x8000_0000
                } else {
                    acc == v && v <= 0x8000_0000
                },
                None => false,
            },
        decreases to - i,
    {
        let ch: char = c[i];
        proof {
            let t = s.take(i - from + 1);
            assert(t.drop_last() =~= s.take(i - from));
            assert(t.last() == ch);
        }
        if !('0' <= ch && ch <= '9') {
            proof {
                lemma_bad_digit(s, i - from);
            }
            return None;
        }
        let d: u64 = (ch as u32 - '0' as u32) as u64;
        if !big {
            acc = 10 * acc + d;
            if acc > 0x8000_0000 {
                big = true;
                acc = 0;
            }
        }
        i += 1;
    }
    assert(s.take(i - from) =~= s);
    if big {
        None
    } else {
        Some(acc)
    }
}

/// A text with a character that is no digit stands for no number of digits.
proof fn lemma_bad_digit(s: Seq<char>, i: int)
    requires
        0 <= i < s.len(),
        !('0' <= s[i] <= '9'),
    ensures
        digits_value(s) is None,
    decreases s.len(),
{
    if i < s.len() - 1 {
        lemma_bad_digit(s.drop_last(), i);
    }
}

/// The 32-bit number that `c[from..to]` stands for.
fn parse_bounds(c: &Vec<char>, from: usize, to: usize) -> (res: Option<i32>)
    requires
        from <= to <= c.len(),
    ensures
        res == i32_value(c@.subrange(from as int, to as int)),
{
    let ghost s = c@.subrange(from as int, to as int);
    if from == to {
        return None;
    }
    let ch: char = c[from];
    if ch == '-' || ch == '+' {
        assert(s.skip(1) =~= c@.subrange(from + 1, to as int));
        match small_value(c, from + 1, to) {
            Some(v) => {
                if ch == '-' {
                    Some((0 - v as i64) as i32)
                } else if v < 0x8000_0000 {
                    Some(v as i32)
                } else {
                    None
                }
            },
            None => None,
        }
    } else {
        match small_value(c, from, to) {
            Some(v) => {
                if v < 0x8000_0000 {
                    Some(v as i32)
                } else {
                    None
                }
            },
            None => None,
        }
    }
}

/// The 32-bit number that a text stands for.
pub fn parse_i32(s: &str) -> (res: Option<i32>)
    ensures
        res == i32_value(s@),
{
    let c: Vec<char> = chars_of(s);
    assert(c@.subrange(0, c.len() as int) =~= c@);
    parse_bounds(&c, 0, c.len())
}

/// `ids` and then `id`, unless it is there already.
pub open spec fn with_id(ids: Seq<i32>, id: i32) -> Seq<i32> {
    if ids.contains(id) {
        ids
    } else {
        ids.push(id)
    }
}

/// `ids` and then the number that a field stands for, if it stands for one.
pub open spec fn with_field(ids: Seq<i32>, field: Seq<char>) -> Seq<i32> {
    match i32_value(trimmed(field)) {
        Some(id) => with_id(ids, id),
        None => ids,
    }
}

/// The place of the last comma, or -1 if there is none.
pub open spec fn last_comma(s: Seq<char>) -> int
    decreases s.len(),
{
    if s.len() == 0 {
        -1
    } else if s.last() == ',' {
        s.len() - 1
    } else {
        last_comma(s.drop_last())
    }
}

/// The numbers in a list of fields between commas, each once, in the order in which they
/// first come; a field that is no number is passed over.
pub open spec fn id_list(s: Seq<char>) -> Seq<i32>
    decreases s.len(),
{
    let i = last_comma(s);
    if 0 <= i < s.len() {
        with_field(id_list(s.take(i)), s.skip(i + 1))
    } else {
        with_field(Seq::empty(), s)
    }
}

/// Where the last of some commas is.
proof fn lemma_last_comma(s: Seq<char>, i: int)
    requires
        -1 <= i < s.len(),
        i >= 0 ==> s[i] == ',',
        forall|j: int| i < j < s.len() ==> s[j] != ',',
    ensures
        last_comma(s) == i,
    decreases s.len(),
{
    if s.len() > 0 && i < s.len() - 1 {
        assert(s[s.len() - 1] != ',');
        let t = s.drop_last();
        assert forall|j: int| i < j < t.len() implies t[j] != ',' by {
            assert(t[j] == s[j]);
        }
        lemma_last_comma(t, i);
    }
}

/// Whether a number is in a list.
pub fn contains_id(ids: &Vec<i32>, id: i32) -> (res: bool)
    ensures
        res == ids@.contains(id),
{
    let mut i: usize = 0;
    while i < ids.len()
        invariant
            i <= ids.len(),
            forall|j: int| 0 <= j < i ==> ids@[j] != id,
        decreases ids.len() - i,
    {
        if ids[i] == id {
            return true;
        }
        i += 1;
    }
    false
}

/// The numbers in a list of fields between commas.
pub fn parse_id_list(s: &str) -> (res: Vec<i32>)
    ensures
        res@ == id_list(s@),
{
    let c: Vec<char> = chars_of(s);
    let mut ids: Vec<i32> = Vec::new();
    let mut from: usize = 0;
    let mut i: usize = 0;
    while i < c.len()
        invariant
            from <= i <= c.len(),
            forall|j: int| from <= j < i ==> c@[j] != ',',
            from > 0 ==> c@[from - 1] == ',' && ids@ == id_list(c@.take(from - 1)),
            from == 0 ==> ids@ == Seq::<i32>::empty(),
        decreases c.len() - i,
    {
        if c[i] == ',' {
            let (a, b) = trim_bounds(&c, from, i);
            proof {
                lemma_id_list_field(c@, from as int, i as int);
            }
            if let Some(id) = parse_bounds(&c, a, b) {
                if !contains_id(&ids, id) {
                    ids.push(id);
                }
            }
            from = i + 1;
        }
        i += 1;
    }
    let (a, b) = trim_bounds(&c, from, c.len());
    proof {
        lemma_id_list_field(c@, from as int, c.len() as int);
        assert(c@.take(c.len() as int) =~= c@);
    }
    if let Some(id) = parse_bounds(&c, a, b) {
        if !contains_id(&ids, id) {
            ids.push(id);
        }
    }
    ids
}

/// The numbers up to the end of a field are those before it and the one in it.
proof fn lemma_id_list_field(c: Seq<char>, from: int, to: int)
    requires
        0 <= from <= to <= c.len(),
        forall|j: int| from <= j < to ==> c[j] != ',',
        from > 0 ==> c[from - 1] == ',',
    ensures
        id_list(c.take(to)) == with_field(
            if from > 0 {
                id_list(c.take(from - 1))
            } else {
                Seq::empty()
            },
            c.subrange(from, to),
        ),
{
    let s = c.take(to);
    if from > 0 {
        assert forall|j: int| from - 1 < j < s.len() implies s[j] != ',' by {
            assert(s[j] == c[j]);
        }
        lemma_last_comma(s, from - 1);
        assert(s.take(from - 1) =~= c.take(from - 1));
        assert(s.skip(from) =~= c.subrange(from, to));
    } else {
        assert forall|j: int| -1 < j < s.len() implies s[j] != ',' by {
            assert(s[j] == c[j]);
        }
        lemma_last_comma(s, -1);
        assert(s =~= c.subrange(0, to));
    }
}

/// The text that `str::to_lowercase` makes of a text.
pub uninterp spec fn lower(s: Seq<char>) -> Seq<char>;

/// A text in lower case, by `str::to_lowercase`. What that is, character by character, is
/// only named.
#[verifier::external_body]
pub(crate) fn to_lowercase(s: &str) -> (res: String)
    ensures
        res@ == lower(s@),
{
    s.to_lowercase()
}

/// The decimal digits of a number, put back together, are the number.
proof fn lemma_digits_back(n: nat)
    ensures
        digits_value(dec_nat(n)) == Some(n),
        dec_nat(n).len() > 0,
        forall|i: int| 0 <= i < dec_nat(n).len() ==> '0' <= #[trigger] dec_nat(n)[i] <= '9',
    decreases n,
{
    if n < 10 {
        assert(dec_nat(n) =~= seq![digit(n)]);
        assert(dec_nat(n).last() == digit(n));
    } else {
        lemma_digits_back(n / 10);
        let front = dec_nat(n / 10);
        let all = dec_nat(n);
        assert(all == front.push(digit(n % 10)));
        assert(all.drop_last() =~= front);
        assert(all.last() == digit(n % 10));
        assert forall|i: int| 0 <= i < all.len() implies '0' <= #[trigger] all[i] <= '9' by {
            if i < front.len() {
                assert(all[i] == front[i]);
            }
        }
    }
}

/// A number that is written in decimal and read again is the same number.
pub proof fn law_number_back(i: int)
    ensures
        int_value(dec(i)) == Some(i),
        i32::MIN <= i <= i32::MAX ==> i32_value(dec(i)) == Some(i as i32),
{
    if i < 0 {
        reveal_strlit("-");
        let n = (-i) as nat;
        lemma_digits_back(n);
        assert(dec(i).skip(1) =~= dec_nat(n));
        assert(dec(i)[0] == '-');
    } else {
        lemma_digits_back(i as nat);
        assert('0' <= dec_nat(i as nat)[0] <= '9');
    }
}

/// Different numbers are written differently.
pub proof fn law_numbers_apart(a: int, b: int)
    ensures
        dec(a) == dec(b) <==> a == b,
{
    law_number_back(a);
    law_number_back(b);
}

/// A number is written with digits alone, and with a minus sign before them if it is negative.
pub proof fn law_number_shape(i: int)
    ensures
        forall|k: int|
            0 <= k < dec(i).len() ==> '0' <= #[trigger] dec(i)[k] <= '9' || (k == 0 && i < 0
                && dec(i)[k] == '-'),
        dec(i).len() > 0,
{
    reveal_strlit("-");
    lemma_digits_back(if i < 0 {
        (-i) as nat
    } else {
        i as nat
    });
    if i < 0 {
        let d = dec_nat((-i) as nat);
        assert forall|k: int| 0 <= k < dec(i).len() implies '0' <= #[trigger] dec(i)[k] <= '9' || (k
            == 0 && i < 0 && dec(i)[k] == '-') by {
            if k > 0 {
                assert(dec(i)[k] == d[k - 1]);
            }
        }
    }
}

/// A text is a number if it is digits, after a sign or none, and it is the number that the digits
/// make to the base of ten.
pub proof fn law_number_read(n: nat, s: Seq<char>, i: int)
    ensures
        int_value(seq!['+'] + dec_nat(n)) == Some(n as int),
        int_value(seq!['-'] + dec_nat(n)) == Some(-(n as int)),
        int_value(dec_nat(n)) == Some(n as int),
        int_value(seq!['+']) is None,
        int_value(seq!['-']) is None,
        int_value(Seq::empty()) is None,
        0 <= i < s.len() && !('0' <= s[i] <= '9') && (i > 0 || (s[i] != '+' && s[i] != '-'))
            ==> int_value(s) is None,
        i32_value(s) == (match int_value(s) {
            Some(v) if -0x8000_0000 <= v <= 0x7fff_ffff => Some(v as i32),
            _ => None::<i32>,
        }),
{
    lemma_digits_back(n);
    let d = dec_nat(n);
    assert((seq!['+'] + d).skip(1) =~= d);
    assert((seq!['-'] + d).skip(1) =~= d);
    assert('0' <= d[0] <= '9');
    assert(seq!['+'].skip(1).len() == 0);
    assert(seq!['-'].skip(1).len() == 0);
    if 0 <= i < s.len() && !('0' <= s[i] <= '9') && (i > 0 || (s[i] != '+' && s[i] != '-')) {
        if s[0] == '-' || s[0] == '+' {
            assert(s.skip(1)[i - 1] == s[i]);
            lemma_bad_digit(s.skip(1), i - 1);
        } else {
            lemma_bad_digit(s, i);
        }
    }
}

/// What is taken off a text is the white space at its ends, all of it, and nothing else.
pub proof fn law_trimmed(s: Seq<char>) -> (from: int)
    ensures
        ({
            let t = trimmed(s);
            &&& 0 <= from <= from + t.len() <= s.len()
            &&& t == s.subrange(from, from + t.len())
            &&& forall|i: int| 0 <= i < from ==> space(#[trigger] s[i])
            &&& forall|i: int| from + t.len() <= i < s.len() ==> space(#[trigger] s[i])
            &&& t.len() > 0 ==> !space(t[0]) && !space(t.last())
        }),
    decreases s.len(),
{
    let t = trimmed(s);
    if s.len() > 0 && space(s[0]) {
        let rest = s.skip(1);
        let from = law_trimmed(rest);
        assert(rest.subrange(from, from + t.len()) =~= s.subrange(from + 1, from + 1 + t.len()));
        assert forall|i: int| 0 <= i < from + 1 implies space(#[trigger] s[i]) by {
            if i > 0 {
                assert(rest[i - 1] == s[i]);
            }
        }
        assert forall|i: int| from + 1 + t.len() <= i < s.len() implies space(#[trigger] s[i]) by {
            assert(rest[i - 1] == s[i]);
        }
        from + 1
    } else if s.len() > 0 && space(s.last()) {
        let rest = s.drop_last();
        let from = law_trimmed(rest);
        assert(rest.subrange(from, from + t.len()) =~= s.subrange(from, from + t.len()));
        assert forall|i: int| 0 <= i < from implies space(#[trigger] s[i]) by {
            assert(rest[i] == s[i]);
        }
        assert forall|i: int| from + t.len() <= i < s.len() implies space(#[trigger] s[i]) by {
            if i < s.len() - 1 {
                assert(rest[i] == s[i]);
            }
        }
        from
    } else {
        assert(s.subrange(0, s.len() as int) =~= s);
        0
    }
}

/// Among the characters of one byte, white space is the blank, the tabs and the ends of lines and
/// pages; no character is that can be seen.
pub proof fn law_white_space(c: char)
    requires
        (c as int) < 0x80,
    ensures
        space(c) <==> c == ' ' || 9 <= c as int <= 13,
        '!' <= c <= '~' ==> !space(c),
{
}

/// A list of numbers, with a comma between each two: every one that is a number is in it, once,
/// in the order in which they come first.
pub proof fn law_numbers_listed(a: Seq<char>, b: Seq<char>, id: i32)
    requires
        !b.contains(','),
    ensures
        ({
            let one = i32_value(trimmed(b));
            let before = id_list(a);
            let all = id_list(a + seq![','] + b);
            &&& one is None ==> all == before && id_list(b) == Seq::<i32>::empty()
            &&& one matches Some(n) ==> id_list(b) == seq![n] && (if before.contains(n) {
                all == before
            } else {
                all == before.push(n)
            })
        }),
{
    let c = a + seq![','] + b;
    let k = a.len() as int;
    assert(c[k] == ',');
    assert forall|j: int| k + 1 <= j < c.len() implies c[j] != ',' by {
        assert(c[j] == b[j - k - 1]);
        assert(b.contains(b[j - k - 1]));
    }
    lemma_id_list_field(c, k + 1, c.len() as int);
    assert(c.take(c.len() as int) =~= c);
    assert(c.take(k) =~= a);
    assert(c.subrange(k + 1, c.len() as int) =~= b);
    assert forall|j: int| 0 <= j < b.len() implies b[j] != ',' by {
        assert(b.contains(b[j]));
    }
    lemma_id_list_field(b, 0, b.len() as int);
    assert(b.take(b.len() as int) =~= b);
    assert(b.subrange(0, b.len() as int) =~= b);
    if let Some(n) = i32_value(trimmed(b)) {
        assert(Seq::<i32>::empty().push(n) =~= seq![n]);
    }
}

} // verus!
